//! Theme application decisions: when a theme must be re-applied, which
//! cached theme text is reused, and which surface roles turn translucent.

use vstd::prelude::*;
use crate::text::string_eq_str;

verus! {

#[derive(PartialEq, Eq, Structural, Clone, Copy, Debug)]
pub enum UiThemeMode {
    Dark,
    Light,
}

#[derive(PartialEq, Eq, Structural, Clone, Copy, Debug)]
pub enum UiContrastLevel {
    Normal,
    Medium,
    High,
}

#[derive(PartialEq, Eq, Structural, Clone, Copy, Debug)]
pub enum UiColorSchemeMode {
    Auto,
    Manual,
}

/// Everything a theme depends on; a change of any field re-applies it.
#[derive(PartialEq, Eq, Structural, Clone, Copy, Debug)]
pub struct ThemeCacheKey {
    pub seed_r: u8,
    pub seed_g: u8,
    pub seed_b: u8,
    pub seed_a: u8,
    pub mode: UiThemeMode,
    pub contrast: UiContrastLevel,
    pub scheme_mode: UiColorSchemeMode,
    pub surface_alpha: u8,
    /// The bits of the window corner radius.
    pub rounding_bits: u32,
}

/// A manual colour override: the role it sets and its colour.
pub struct ManualColor {
    pub role: String,
    pub r: u8,
    pub g: u8,
    pub b: u8,
}

/// One override as a plain value.
pub open spec fn manual_entry(c: ManualColor) -> (Seq<char>, u8, u8, u8) {
    (c.role@, c.r, c.g, c.b)
}

/// Some override of `v` is `e`.
pub open spec fn has_entry(v: Seq<ManualColor>, e: (Seq<char>, u8, u8, u8)) -> bool {
    exists|i: int| 0 <= i < v.len() && manual_entry(v[i]) == e
}

/// The overrides of a list, whatever their order (the configuration holds
/// them in a map).
pub open spec fn manual_entries(v: Seq<ManualColor>) -> Set<(Seq<char>, u8, u8, u8)> {
    Set::new(|e: (Seq<char>, u8, u8, u8)| has_entry(v, e))
}

/// A theme must be applied when any field that shapes it differs from the
/// theme last applied: a field of the key, or, in manual mode, the manual
/// colour overrides.
pub open spec fn theme_needs_apply(
    current: Option<ThemeCacheKey>,
    current_manual: Set<(Seq<char>, u8, u8, u8)>,
    key: ThemeCacheKey,
    manual: Set<(Seq<char>, u8, u8, u8)>,
) -> bool {
    current != Some(key) || (key.scheme_mode == UiColorSchemeMode::Manual && current_manual != manual)
}

/// The theme last applied: its key and its manual colour overrides.
pub struct ThemeCache {
    pub current: Option<ThemeCacheKey>,
    pub manual: Vec<ManualColor>,
}

/// Every override of `a` is one of `b`.
fn covers(a: &Vec<ManualColor>, b: &Vec<ManualColor>) -> (r: bool)
    ensures
        r == (forall|i: int| 0 <= i < a@.len() ==> has_entry(b@, #[trigger] manual_entry(a@[i]))),
{
    let mut i: usize = 0;
    while i < a.len()
        invariant
            i <= a@.len(),
            forall|k: int| 0 <= k < i ==> has_entry(b@, #[trigger] manual_entry(a@[k])),
        decreases a.len() - i,
    {
        let ghost e = manual_entry(a@[i as int]);
        let mut j: usize = 0;
        let mut found = false;
        while j < b.len()
            invariant
                j <= b@.len(),
                i < a@.len(),
                e == manual_entry(a@[i as int]),
                found ==> has_entry(b@, e),
                !found ==> forall|m: int| 0 <= m < j ==> e != #[trigger] manual_entry(b@[m]),
            decreases b.len() - j,
        {
            let x = &a[i];
            let y = &b[j];
            if x.role == y.role && x.r == y.r && x.g == y.g && x.b == y.b {
                assert(e == manual_entry(b@[j as int]));
                found = true;
            } else {
                assert(e != manual_entry(b@[j as int]));
            }
            j += 1;
        }
        if !found {
            assert(!has_entry(b@, manual_entry(a@[i as int])));
            return false;
        }
        i += 1;
    }
    true
}

/// Whether the two lists hold the same overrides.
pub fn same_manual_colors(a: &Vec<ManualColor>, b: &Vec<ManualColor>) -> (r: bool)
    ensures
        r == (manual_entries(a@) == manual_entries(b@)),
{
    let ab = covers(a, b);
    let ba = covers(b, a);
    proof {
        let sa = manual_entries(a@);
        let sb = manual_entries(b@);
        if ab && ba {
            assert forall|e: (Seq<char>, u8, u8, u8)| sa.contains(e) <==> sb.contains(e) by {
                if has_entry(a@, e) {
                    let i = choose|i: int| 0 <= i < a@.len() && manual_entry(a@[i]) == e;
                    assert(has_entry(b@, manual_entry(a@[i])));
                }
                if has_entry(b@, e) {
                    let j = choose|j: int| 0 <= j < b@.len() && manual_entry(b@[j]) == e;
                    assert(has_entry(a@, manual_entry(b@[j])));
                }
            }
            assert(sa =~= sb);
        } else if !ab {
            let i = choose|i: int| 0 <= i < a@.len() && !has_entry(b@, #[trigger] manual_entry(a@[i]));
            assert(has_entry(a@, manual_entry(a@[i])));
            assert(sa.contains(manual_entry(a@[i])));
            assert(!sb.contains(manual_entry(a@[i])));
        } else {
            let j = choose|j: int| 0 <= j < b@.len() && !has_entry(a@, #[trigger] manual_entry(b@[j]));
            assert(has_entry(b@, manual_entry(b@[j])));
            assert(sb.contains(manual_entry(b@[j])));
            assert(!sa.contains(manual_entry(b@[j])));
        }
    }
    ab && ba
}

impl ThemeCache {
    /// No theme applied yet.
    pub fn new() -> (c: Self)
        ensures
            c.current is None,
            c.manual@.len() == 0,
    {
        ThemeCache { current: None, manual: Vec::new() }
    }

    /// The theme `key` with the overrides `manual` must be applied: a field
    /// that shapes it differs from the theme last applied.
    pub fn needs_apply(&self, key: &ThemeCacheKey, manual: &Vec<ManualColor>) -> (r: bool)
        ensures
            r == theme_needs_apply(self.current, manual_entries(self.manual@), *key, manual_entries(manual@)),
    {
        let same_key = match &self.current {
            Some(k) => *k == *key,
            None => false,
        };
        if !same_key {
            return true;
        }
        match key.scheme_mode {
            UiColorSchemeMode::Manual => !same_manual_colors(&self.manual, manual),
            UiColorSchemeMode::Auto => false,
        }
    }

    /// Records the theme just applied.
    pub fn record(&mut self, key: ThemeCacheKey, manual: Vec<ManualColor>)
        ensures
            final(self).current == Some(key),
            final(self).manual@ == manual@,
    {
        self.current = Some(key);
        self.manual = manual;
    }

    /// The seed colour (red, green, blue, alpha) of the theme last applied.
    pub fn current_seed(&self) -> (r: Option<(u8, u8, u8, u8)>)
        ensures
            r == (match self.current {
                Some(k) => Some((k.seed_r, k.seed_g, k.seed_b, k.seed_a)),
                None => None,
            }),
    {
        match &self.current {
            Some(k) => Some((k.seed_r, k.seed_g, k.seed_b, k.seed_a)),
            None => None,
        }
    }
}

/// Once a theme is recorded as applied, asking for the same theme again is
/// skipped, while a theme that differs in a key field, or in manual mode in
/// its manual colours, is still applied.
pub proof fn law_applied_theme_is_cached(
    key: ThemeCacheKey,
    manual: Set<(Seq<char>, u8, u8, u8)>,
    other: ThemeCacheKey,
    other_manual: Set<(Seq<char>, u8, u8, u8)>,
)
    ensures
        !theme_needs_apply(Some(key), manual, key, manual),
        other != key ==> theme_needs_apply(Some(key), manual, other, other_manual),
        key.scheme_mode == UiColorSchemeMode::Manual && other_manual != manual
            ==> theme_needs_apply(Some(key), manual, key, other_manual),
{
}

/// The theme text to load: the cached one when there is a non-empty one that
/// was made for the current seed (`made_for` is the seed it was made for,
/// when known; a text of unknown origin is the one saved with the current
/// settings); `None` means a new theme is generated from the seed.
pub fn base_theme_json(
    cached: Option<&str>,
    made_for: Option<(u8, u8, u8, u8)>,
    seed: (u8, u8, u8, u8),
) -> (r: Option<String>)
    ensures
        r is Some <==> (cached is Some && cached->0@.len() > 0 && (made_for is None || made_for
            == Some(seed))),
        r matches Some(t) ==> t@ == cached->0@,
{
    let same_seed = match made_for {
        Some(m) => m.0 == seed.0 && m.1 == seed.1 && m.2 == seed.2 && m.3 == seed.3,
        None => true,
    };
    if !same_seed {
        return None;
    }
    match cached {
        Some(c) => {
            if c.is_empty() {
                None
            } else {
                Some(c.to_owned())
            }
        },
        None => None,
    }
}

/// The surface-tier colour roles, in the order they are made translucent.
pub open spec fn surface_roles() -> Seq<Seq<char>> {
    seq![
        "surface"@,
        "surfaceContainer"@,
        "surfaceContainerHigh"@,
        "surfaceContainerHighest"@,
        "surfaceContainerLow"@,
        "surfaceContainerLowest"@,
        "surfaceDim"@,
        "surfaceBright"@,
        "background"@,
    ]
}

pub open spec fn names_role(roles: Seq<String>, role: Seq<char>) -> bool {
    exists|i: int| 0 <= i < roles.len() && #[trigger] roles[i]@ == role
}

/// The roles that get the surface alpha: none at full opacity, else every
/// surface role but those the user coloured by hand in manual mode.
pub open spec fn translucent_roles_spec(
    scheme_mode: UiColorSchemeMode,
    manual_roles: Seq<String>,
    surface_alpha: u8,
) -> Seq<Seq<char>> {
    if surface_alpha >= 255 {
        Seq::<Seq<char>>::empty()
    } else {
        surface_roles().filter(
            |r: Seq<char>| !(scheme_mode == UiColorSchemeMode::Manual && names_role(manual_roles, r)),
        )
    }
}

/// Only the roles coloured by hand stay opaque: below full opacity, a surface
/// role turns translucent unless, in manual mode, one of the manual roles is
/// exactly its name (a manual role that merely begins with it, such as
/// `surfaceContainerHigh` for `surface`, does not keep it opaque); and no
/// other role ever turns translucent.
pub proof fn law_only_hand_coloured_roles_stay_opaque(
    scheme_mode: UiColorSchemeMode,
    manual_roles: Seq<String>,
    surface_alpha: u8,
    role: Seq<char>,
)
    requires
        surface_alpha < 255,
    ensures
        translucent_roles_spec(scheme_mode, manual_roles, surface_alpha).contains(role) <==> (
        surface_roles().contains(role) && !(scheme_mode == UiColorSchemeMode::Manual && exists|i: int|
            0 <= i < manual_roles.len() && #[trigger] manual_roles[i]@ == role)),
{
    let pred = |r: Seq<char>| !(scheme_mode == UiColorSchemeMode::Manual && names_role(manual_roles, r));
    let f = surface_roles().filter(pred);
    surface_roles().filter_lemma(pred);
    if f.contains(role) {
        let i = choose|i: int| 0 <= i < f.len() && f[i] == role;
        assert(pred(f[i]));
        reveal(Seq::filter);
        lemma_filter_from(surface_roles(), pred, role);
    }
    if surface_roles().contains(role) && pred(role) {
        let i = choose|i: int| 0 <= i < surface_roles().len() && surface_roles()[i] == role;
        assert(f.contains(surface_roles()[i]));
    }
}

proof fn lemma_filter_from(s: Seq<Seq<char>>, pred: spec_fn(Seq<char>) -> bool, x: Seq<char>)
    ensures
        s.filter(pred).contains(x) ==> s.contains(x),
    decreases s.len(),
{
    reveal(Seq::filter);
    if s.len() > 0 {
        lemma_filter_from(s.drop_last(), pred, x);
        if s.filter(pred).contains(x) {
            let f = s.drop_last().filter(pred);
            if pred(s.last()) {
                assert(s.filter(pred) == f.push(s.last()));
                let k = choose|k: int| 0 <= k < f.push(s.last()).len() && f.push(s.last())[k] == x;
                if k < f.len() {
                    assert(f.contains(x));
                    let m = choose|m: int| 0 <= m < s.drop_last().len() && s.drop_last()[m] == x;
                    assert(s[m] == x);
                } else {
                    assert(s[s.len() - 1] == x);
                }
            } else {
                assert(s.filter(pred) == f);
                let m = choose|m: int| 0 <= m < s.drop_last().len() && s.drop_last()[m] == x;
                assert(s[m] == x);
            }
        }
    }
}

fn surface_role_list() -> (v: Vec<String>)
    ensures
        v@.map_values(|s: String| s@) == surface_roles(),
{
    let mut v: Vec<String> = Vec::new();
    v.push("surface".to_owned());
    v.push("surfaceContainer".to_owned());
    v.push("surfaceContainerHigh".to_owned());
    v.push("surfaceContainerHighest".to_owned());
    v.push("surfaceContainerLow".to_owned());
    v.push("surfaceContainerLowest".to_owned());
    v.push("surfaceDim".to_owned());
    v.push("surfaceBright".to_owned());
    v.push("background".to_owned());
    assert(v@.map_values(|s: String| s@) =~= surface_roles());
    v
}

fn list_names(roles: &Vec<String>, role: &String) -> (r: bool)
    ensures
        r == names_role(roles@, role@),
{
    let mut i: usize = 0;
    while i < roles.len()
        invariant
            i <= roles@.len(),
            forall|k: int| 0 <= k < i ==> roles@[k]@ != role@,
        decreases roles.len() - i,
    {
        if string_eq_str(&roles[i], role.as_str()) {
            return true;
        }
        i += 1;
    }
    false
}

/// The roles whose colour gets the surface alpha.
pub fn translucent_surface_roles(
    scheme_mode: UiColorSchemeMode,
    manual_roles: &Vec<String>,
    surface_alpha: u8,
) -> (r: Vec<String>)
    ensures
        r@.map_values(|s: String| s@) == translucent_roles_spec(
            scheme_mode,
            manual_roles@,
            surface_alpha,
        ),
{
    let mut out: Vec<String> = Vec::new();
    if surface_alpha >= 255 {
        assert(out@.map_values(|s: String| s@) =~= Seq::<Seq<char>>::empty());
        return out;
    }
    let roles = surface_role_list();
    let ghost all = roles@.map_values(|s: String| s@);
    let ghost pred = |r: Seq<char>|
        !(scheme_mode == UiColorSchemeMode::Manual && names_role(manual_roles@, r));
    let mut i: usize = 0;
    while i < roles.len()
        invariant
            i <= roles@.len(),
            all == roles@.map_values(|s: String| s@),
            pred == (|r: Seq<char>|
                !(scheme_mode == UiColorSchemeMode::Manual && names_role(manual_roles@, r))),
            out@.map_values(|s: String| s@) == all.take(i as int).filter(pred),
        decreases roles.len() - i,
    {
        proof {
            reveal(Seq::filter);
        }
        let ghost before = out@.map_values(|s: String| s@);
        assert(all.take(i + 1).drop_last() =~= all.take(i as int));
        assert(all.take(i + 1).last() == roles@[i as int]@);
        let skip = match scheme_mode {
            UiColorSchemeMode::Manual => list_names(manual_roles, &roles[i]),
            UiColorSchemeMode::Auto => false,
        };
        if !skip {
            let copy = roles[i].clone();
            out.push(copy);
            assert(out@.map_values(|s: String| s@) =~= before.push(copy@));
        }
        i += 1;
    }
    assert(all.take(roles@.len() as int) =~= all);
    out
}

} // verus!
