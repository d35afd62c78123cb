//! The engine's text anchors and their numeric values.

use vstd::prelude::*;

verus! {

/// Where text sits in its rectangle.
#[derive(PartialEq, Eq, Structural, Clone, Copy, Debug)]
pub enum TextAnchor {
    UpperLeft,
    UpperCenter,
    UpperRight,
    MiddleLeft,
    MiddleCenter,
    MiddleRight,
    LowerLeft,
    LowerCenter,
    LowerRight,
}

/// The engine's number for an anchor: its position in the list, from 0.
pub open spec fn anchor_value(a: TextAnchor) -> i32 {
    match a {
        TextAnchor::UpperLeft => 0,
        TextAnchor::UpperCenter => 1,
        TextAnchor::UpperRight => 2,
        TextAnchor::MiddleLeft => 3,
        TextAnchor::MiddleCenter => 4,
        TextAnchor::MiddleRight => 5,
        TextAnchor::LowerLeft => 6,
        TextAnchor::LowerCenter => 7,
        TextAnchor::LowerRight => 8,
    }
}

impl TextAnchor {
    /// The engine's number for this anchor.
    pub fn to_i32(self) -> (v: i32)
        ensures
            v == anchor_value(self),
    {
        match self {
            TextAnchor::UpperLeft => 0,
            TextAnchor::UpperCenter => 1,
            TextAnchor::UpperRight => 2,
            TextAnchor::MiddleLeft => 3,
            TextAnchor::MiddleCenter => 4,
            TextAnchor::MiddleRight => 5,
            TextAnchor::LowerLeft => 6,
            TextAnchor::LowerCenter => 7,
            TextAnchor::LowerRight => 8,
        }
    }

    /// The anchor with the engine's number `v`, if there is one.
    pub fn from_i32(v: i32) -> (a: Option<TextAnchor>)
        ensures
            a is Some <==> 0 <= v <= 8,
            a matches Some(x) ==> anchor_value(x) == v,
    {
        match v {
            0 => Some(TextAnchor::UpperLeft),
            1 => Some(TextAnchor::UpperCenter),
            2 => Some(TextAnchor::UpperRight),
            3 => Some(TextAnchor::MiddleLeft),
            4 => Some(TextAnchor::MiddleCenter),
            5 => Some(TextAnchor::MiddleRight),
            6 => Some(TextAnchor::LowerLeft),
            7 => Some(TextAnchor::LowerCenter),
            8 => Some(TextAnchor::LowerRight),
            _ => None,
        }
    }
}

/// Distinct anchors have distinct numbers, so a number names one anchor.
pub proof fn law_anchor_values_distinct(a: TextAnchor, b: TextAnchor)
    ensures
        anchor_value(a) == anchor_value(b) ==> a == b,
{
}

} // verus!
