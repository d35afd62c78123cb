//! Character-level string helpers with exact specifications.

use vstd::prelude::*;
use vstd::string::StrSliceExecFns;

verus! {

/// `s` begins with `p`.
pub open spec fn has_prefix(s: Seq<char>, p: Seq<char>) -> bool {
    p.len() <= s.len() && s.take(p.len() as int) == p
}

/// `s` ends with `p`.
pub open spec fn has_suffix(s: Seq<char>, p: Seq<char>) -> bool {
    p.len() <= s.len() && s.skip(s.len() - p.len()) == p
}

/// `p` occurs in `s` starting at position `i`.
pub open spec fn occurs_at(s: Seq<char>, p: Seq<char>, i: int) -> bool {
    0 <= i && i + p.len() <= s.len() && s.subrange(i, i + p.len()) == p
}

/// `p` occurs somewhere in `s` (the empty pattern occurs in every string).
pub open spec fn has_infix(s: Seq<char>, p: Seq<char>) -> bool {
    exists|i: int| occurs_at(s, p, i)
}

/// Every occurrence of the non-empty pattern `p` in `s`, found from left to
/// right without overlap, replaced by `r`.
pub open spec fn replace_all(s: Seq<char>, p: Seq<char>, r: Seq<char>) -> Seq<char>
    decreases s.len(),
{
    if p.len() == 0 || s.len() < p.len() {
        s
    } else if s.take(p.len() as int) == p {
        r + replace_all(s.skip(p.len() as int), p, r)
    } else {
        seq![s[0]] + replace_all(s.skip(1), p, r)
    }
}

/// An ASCII decimal digit.
pub open spec fn is_digit(c: char) -> bool {
    48 <= (c as u32) && (c as u32) <= 57
}

pub open spec fn all_digits(s: Seq<char>) -> bool {
    forall|i: int| 0 <= i < s.len() ==> #[trigger] is_digit(s[i])
}

pub open spec fn digit_value(c: char) -> int {
    (c as u32) - 48
}

/// The number that the decimal digits `s` denote.
pub open spec fn decimal_value(s: Seq<char>) -> int
    decreases s.len(),
{
    if s.len() == 0 {
        0
    } else {
        decimal_value(s.drop_last()) * 10 + digit_value(s.last())
    }
}

/// What `str::parse::<i32>` gives: an optional `+` or `-`, then one or more
/// ASCII digits whose value fits in an `i32`.
pub open spec fn parse_i32_spec(s: Seq<char>) -> Option<i32> {
    let neg = s.len() > 0 && s[0] == '-';
    let body = if s.len() > 0 && (s[0] == '-' || s[0] == '+') { s.skip(1) } else { s };
    let v = if neg { -decimal_value(body) } else { decimal_value(body) };
    if body.len() == 0 || !all_digits(body) || v < i32::MIN || v > i32::MAX {
        None
    } else {
        Some(v as i32)
    }
}

/// What `str::parse::<u64>` gives: an optional `+`, then one or more ASCII
/// digits whose value fits in a `u64`.
pub open spec fn parse_u64_spec(s: Seq<char>) -> Option<u64> {
    let body = if s.len() > 0 && s[0] == '+' { s.skip(1) } else { s };
    let v = decimal_value(body);
    if body.len() == 0 || !all_digits(body) || v > u64::MAX {
        None
    } else {
        Some(v as u64)
    }
}

/// `String::push`: appends one character.
#[verifier::external_body]
pub(crate) fn push_char(s: &mut String, c: char)
    ensures
        final(s)@ == old(s)@.push(c),
{
    s.push(c);
}

/// The characters of `s`, in order.
pub fn chars_of(s: &str) -> (v: Vec<char>)
    ensures
        v@ == s@,
{
    let n = s.unicode_len();
    let mut v: Vec<char> = Vec::new();
    let mut i: usize = 0;
    while i < n
        invariant
            n == s@.len(),
            i <= n,
            v@ == s@.take(i as int),
        decreases n - i,
    {
        let c = s.get_char(i);
        v.push(c);
        i += 1;
        assert(v@ =~= s@.take(i as int));
    }
    assert(s@.take(n as int) =~= s@);
    v
}

/// The string whose characters are `v`.
pub fn string_from_chars(v: &Vec<char>) -> (s: String)
    ensures
        s@ == v@,
{
    let mut s = String::new();
    let mut i: usize = 0;
    while i < v.len()
        invariant
            i <= v.len(),
            s@ == v@.take(i as int),
        decreases v.len() - i,
    {
        push_char(&mut s, v[i]);
        i += 1;
        assert(s@ =~= v@.take(i as int));
    }
    assert(v@.take(v.len() as int) =~= v@);
    s
}

/// Whether `p` occurs in `s` at position `i`.
pub fn chars_occur_at(s: &Vec<char>, p: &Vec<char>, i: usize) -> (r: bool)
    ensures
        r == occurs_at(s@, p@, i as int),
{
    if i > s.len() || p.len() > s.len() - i {
        return false;
    }
    let mut j: usize = 0;
    while j < p.len()
        invariant
            i + p.len() <= s.len(),
            j <= p.len(),
            forall|k: int| 0 <= k < j ==> s@[i + k] == p@[k],
        decreases p.len() - j,
    {
        if s[i + j] != p[j] {
            assert(s@.subrange(i as int, i + p.len())[j as int] != p@[j as int]);
            return false;
        }
        j += 1;
    }
    assert(s@.subrange(i as int, i + p.len()) =~= p@);
    true
}

/// Whether `s` begins with `p`.
pub fn chars_start_with(s: &Vec<char>, p: &Vec<char>) -> (r: bool)
    ensures
        r == has_prefix(s@, p@),
{
    let r = chars_occur_at(s, p, 0);
    assert(s@.subrange(0, p@.len() as int) =~= s@.take(p@.len() as int));
    r
}

/// Whether `s` ends with `p`.
pub fn chars_end_with(s: &Vec<char>, p: &Vec<char>) -> (r: bool)
    ensures
        r == has_suffix(s@, p@),
{
    if p.len() > s.len() {
        return false;
    }
    let start = s.len() - p.len();
    let r = chars_occur_at(s, p, start);
    assert(s@.subrange(start as int, start + p@.len()) =~= s@.skip(start as int));
    r
}

/// Whether `p` occurs anywhere in `s`.
pub fn chars_contain(s: &Vec<char>, p: &Vec<char>) -> (r: bool)
    ensures
        r == has_infix(s@, p@),
{
    if p.len() > s.len() {
        assert(forall|i: int| !#[trigger] occurs_at(s@, p@, i));
        return false;
    }
    let last = s.len() - p.len();
    let mut i: usize = 0;
    while i <= last
        invariant
            last == s.len() - p.len(),
            p.len() <= s.len(),
            forall|k: int| 0 <= k < i ==> !#[trigger] occurs_at(s@, p@, k),
        decreases last + 1 - i,
    {
        if chars_occur_at(s, p, i) {
            return true;
        }
        if i == last {
            assert forall|k: int| !#[trigger] occurs_at(s@, p@, k) by {
                if 0 <= k < i {
                }
            }
            return false;
        }
        i += 1;
    }
    false
}

/// Whether `s` ends with `suffix`.
pub fn str_ends_with(s: &str, suffix: &str) -> (r: bool)
    ensures
        r == has_suffix(s@, suffix@),
{
    chars_end_with(&chars_of(s), &chars_of(suffix))
}

/// Whether `s` begins with `prefix`.
pub fn str_starts_with(s: &str, prefix: &str) -> (r: bool)
    ensures
        r == has_prefix(s@, prefix@),
{
    chars_start_with(&chars_of(s), &chars_of(prefix))
}

/// Whether `needle` occurs in `s`.
pub fn str_contains(s: &str, needle: &str) -> (r: bool)
    ensures
        r == has_infix(s@, needle@),
{
    chars_contain(&chars_of(s), &chars_of(needle))
}

proof fn lemma_replace_all_step(s: Seq<char>, p: Seq<char>, r: Seq<char>, i: int)
    requires
        p.len() > 0,
        0 <= i < s.len(),
    ensures
        occurs_at(s, p, i) ==> replace_all(s.skip(i), p, r) == r + replace_all(
            s.skip(i + p.len()),
            p,
            r,
        ),
        !occurs_at(s, p, i) ==> replace_all(s.skip(i), p, r) == seq![s[i]] + replace_all(
            s.skip(i + 1),
            p,
            r,
        ),
{
    let t = s.skip(i);
    assert(t.skip(1) =~= s.skip(i + 1));
    if i + p.len() <= s.len() {
        assert(t.skip(p.len() as int) =~= s.skip(i + p.len()));
        assert(t.take(p.len() as int) =~= s.subrange(i, i + p.len()));
    } else {
        let rest = t.skip(1);
        assert(rest.len() < p.len());
        assert(replace_all(rest, p, r) == rest);
        assert(replace_all(t, p, r) == t);
        assert(t =~= seq![s[i]] + rest);
    }
}

/// `s` with every occurrence of the non-empty `from`, scanned left to right
/// without overlap, replaced by `to` (what `str::replace` returns).
pub fn replace_str(s: &str, from: &str, to: &str) -> (out: String)
    requires
        from@.len() > 0,
    ensures
        out@ == replace_all(s@, from@, to@),
{
    let sc = chars_of(s);
    let pc = chars_of(from);
    let rc = chars_of(to);
    let n = sc.len();
    let mut out: Vec<char> = Vec::new();
    let mut i: usize = 0;
    assert(sc@.skip(0) =~= sc@);
    while i < n
        invariant
            n == sc@.len(),
            pc@.len() > 0,
            i <= n,
            out@ + replace_all(sc@.skip(i as int), pc@, rc@) == replace_all(sc@, pc@, rc@),
        decreases n - i,
    {
        proof {
            lemma_replace_all_step(sc@, pc@, rc@, i as int);
        }
        if chars_occur_at(&sc, &pc, i) {
            let mut j: usize = 0;
            let ghost before = out@;
            while j < rc.len()
                invariant
                    j <= rc@.len(),
                    out@ == before + rc@.take(j as int),
                decreases rc.len() - j,
            {
                out.push(rc[j]);
                j += 1;
                assert(out@ =~= before + rc@.take(j as int));
            }
            assert(rc@.take(rc@.len() as int) =~= rc@);
            assert(out@ + replace_all(sc@.skip(i + pc@.len()), pc@, rc@) =~= before + (rc@
                + replace_all(sc@.skip(i + pc@.len()), pc@, rc@)));
            i = i + pc.len();
        } else {
            let ghost before = out@;
            out.push(sc[i]);
            assert(out@ + replace_all(sc@.skip(i + 1), pc@, rc@) =~= before + (seq![sc@[i as int]]
                + replace_all(sc@.skip(i + 1), pc@, rc@)));
            i = i + 1;
        }
    }
    assert(sc@.skip(n as int) =~= Seq::<char>::empty());
    assert(replace_all(Seq::<char>::empty(), pc@, rc@) == Seq::<char>::empty());
    assert(out@ + Seq::<char>::empty() =~= out@);
    string_from_chars(&out)
}

proof fn lemma_all_digits_take(s: Seq<char>, i: int)
    requires
        all_digits(s),
        0 <= i <= s.len(),
    ensures
        all_digits(s.take(i)),
{
    assert forall|k: int| 0 <= k < s.take(i).len() implies #[trigger] is_digit(s.take(i)[k]) by {
        assert(is_digit(s[k]));
    }
}

/// The value of the digit run `digits`, capped at `cap`; `None` when a
/// character is not an ASCII digit.
fn capped_decimal(digits: &Vec<char>, cap: u128) -> (r: Option<u128>)
    requires
        cap <= u64::MAX as u128 + 1,
    ensures
        r is None <==> !all_digits(digits@),
        r matches Some(v) ==> {
            &&& v <= cap
            &&& (v < cap ==> v == decimal_value(digits@))
            &&& (v == cap ==> decimal_value(digits@) >= cap)
        },
{
    let mut acc: u128 = 0;
    let mut i: usize = 0;
    while i < digits.len()
        invariant
            cap <= u64::MAX as u128 + 1,
            i <= digits.len(),
            all_digits(digits@.take(i as int)),
            acc <= cap,
            acc < cap ==> acc == decimal_value(digits@.take(i as int)),
            acc == cap ==> decimal_value(digits@.take(i as int)) >= cap,
        decreases digits.len() - i,
    {
        let c = digits[i];
        let code = c as u32;
        if code < 48 || code > 57 {
            assert(!is_digit(digits@[i as int]));
            return None;
        }
        let d = (code - 48) as u128;
        let ghost prev = digits@.take(i as int);
        let ghost next = digits@.take(i + 1);
        assert(next.drop_last() =~= prev);
        assert(decimal_value(next) == decimal_value(prev) * 10 + digit_value(digits@[i as int]));
        proof {
            lemma_all_digits_take(digits@.take(i + 1), i as int);
        }
        assert(all_digits(next)) by {
            assert forall|k: int| 0 <= k < next.len() implies #[trigger] is_digit(next[k]) by {
                if k < i {
                    assert(next[k] == prev[k]);
                }
            }
        }
        if acc == cap {
            acc = cap;
        } else {
            let v = acc * 10 + d;
            if v >= cap {
                acc = cap;
            } else {
                acc = v;
            }
        }
        i += 1;
    }
    assert(digits@.take(digits@.len() as int) =~= digits@);
    Some(acc)
}

/// `str::parse::<i32>`, with `None` for every error.
pub fn parse_i32(s: &str) -> (r: Option<i32>)
    ensures
        r == parse_i32_spec(s@),
{
    let cs = chars_of(s);
    let mut neg = false;
    let mut body: Vec<char> = Vec::new();
    let mut start: usize = 0;
    if cs.len() > 0 && (cs[0] == '-' || cs[0] == '+') {
        neg = cs[0] == '-';
        start = 1;
    }
    let mut i = start;
    while i < cs.len()
        invariant
            start <= i <= cs.len(),
            body@ == cs@.subrange(start as int, i as int),
        decreases cs.len() - i,
    {
        body.push(cs[i]);
        i += 1;
        assert(body@ =~= cs@.subrange(start as int, i as int));
    }
    assert(start == 1 ==> body@ =~= cs@.skip(1));
    assert(start == 0 ==> body@ =~= cs@);
    if body.len() == 0 {
        return None;
    }
    let cap: u128 = 2147483649;
    match capped_decimal(&body, cap) {
        None => None,
        Some(v) => {
            if v == cap {
                None
            } else if neg {
                if v > 2147483648 {
                    None
                } else {
                    let m = v as i128;
                    Some((0 - m) as i32)
                }
            } else {
                if v > 2147483647 {
                    None
                } else {
                    Some(v as i32)
                }
            }
        },
    }
}

/// `str::parse::<u64>`, with `None` for every error.
pub fn parse_u64(s: &str) -> (r: Option<u64>)
    ensures
        r == parse_u64_spec(s@),
{
    let cs = chars_of(s);
    let mut body: Vec<char> = Vec::new();
    let mut start: usize = 0;
    if cs.len() > 0 && cs[0] == '+' {
        start = 1;
    }
    let mut i = start;
    while i < cs.len()
        invariant
            start <= i <= cs.len(),
            body@ == cs@.subrange(start as int, i as int),
        decreases cs.len() - i,
    {
        body.push(cs[i]);
        i += 1;
        assert(body@ =~= cs@.subrange(start as int, i as int));
    }
    assert(start == 1 ==> body@ =~= cs@.skip(1));
    assert(start == 0 ==> body@ =~= cs@);
    if body.len() == 0 {
        return None;
    }
    let cap: u128 = 18446744073709551616;
    match capped_decimal(&body, cap) {
        None => None,
        Some(v) => {
            if v == cap {
                None
            } else {
                Some(v as u64)
            }
        },
    }
}

/// Whether the string `a` equals `b`.
pub fn string_eq_str(a: &String, b: &str) -> (r: bool)
    ensures
        r == (a@ == b@),
{
    let owned: String = b.to_owned();
    *a == owned
}

/// The text of `a` followed by that of `b`.
pub fn concat_str(a: &str, b: &str) -> (r: String)
    ensures
        r@ == a@ + b@,
{
    let mut v = chars_of(a);
    let w = chars_of(b);
    let mut i: usize = 0;
    while i < w.len()
        invariant
            i <= w@.len(),
            w@ == b@,
            v@ == a@ + b@.take(i as int),
        decreases w.len() - i,
    {
        v.push(w[i]);
        i += 1;
        assert(v@ =~= a@ + b@.take(i as int));
    }
    assert(b@.take(b@.len() as int) =~= b@);
    string_from_chars(&v)
}

} // verus!
