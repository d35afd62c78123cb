//! The list of localized-data directories that the config editor offers:
//! the directories found under the data path, sorted and without repeats,
//! with the default directory and the configured one added when missing.

use vstd::prelude::*;
use crate::text::{chars_of, string_eq_str};

verus! {

/// Lexicographic order on texts, by code point; for UTF-8 text this is the
/// order of `<` on `str` (UTF-8 byte order equals code point order).
pub open spec fn text_lt(a: Seq<char>, b: Seq<char>) -> bool
    decreases a.len(),
{
    if a.len() == 0 {
        b.len() > 0
    } else if b.len() == 0 {
        false
    } else if a[0] != b[0] {
        a[0] < b[0]
    } else {
        text_lt(a.drop_first(), b.drop_first())
    }
}

/// No text is below itself.
pub proof fn lemma_text_lt_irreflexive(a: Seq<char>)
    ensures
        !text_lt(a, a),
    decreases a.len(),
{
    if a.len() > 0 {
        lemma_text_lt_irreflexive(a.drop_first());
    }
}

/// The order is transitive.
pub proof fn lemma_text_lt_transitive(a: Seq<char>, b: Seq<char>, c: Seq<char>)
    requires
        text_lt(a, b),
        text_lt(b, c),
    ensures
        text_lt(a, c),
    decreases a.len(),
{
    if a.len() > 0 && b.len() > 0 && c.len() > 0 && a[0] == b[0] && b[0] == c[0] {
        lemma_text_lt_transitive(a.drop_first(), b.drop_first(), c.drop_first());
    }
}

/// Two different texts are ordered one way or the other.
pub proof fn lemma_text_lt_total(a: Seq<char>, b: Seq<char>)
    requires
        a != b,
    ensures
        text_lt(a, b) || text_lt(b, a),
    decreases a.len(),
{
    if a.len() > 0 && b.len() > 0 && a[0] == b[0] {
        if a.drop_first() == b.drop_first() {
            assert(a =~= seq![a[0]] + a.drop_first());
            assert(b =~= seq![b[0]] + b.drop_first());
        }
        lemma_text_lt_total(a.drop_first(), b.drop_first());
    } else if a.len() == 0 && b.len() == 0 {
        assert(a =~= b);
    }
}

/// Whether `a` sorts before `b`.
pub fn text_less(a: &str, b: &str) -> (r: bool)
    ensures
        r == text_lt(a@, b@),
{
    let av = chars_of(a);
    let bv = chars_of(b);
    let mut i: usize = 0;
    assert(a@.skip(0) =~= a@);
    assert(b@.skip(0) =~= b@);
    while i < av.len() && i < bv.len() && av[i] == bv[i]
        invariant
            av@ == a@,
            bv@ == b@,
            i <= av.len(),
            i <= bv.len(),
            text_lt(a@, b@) == text_lt(a@.skip(i as int), b@.skip(i as int)),
        decreases av.len() - i,
    {
        proof {
            let sa = a@.skip(i as int);
            let sb = b@.skip(i as int);
            assert(sa.drop_first() =~= a@.skip(i + 1));
            assert(sb.drop_first() =~= b@.skip(i + 1));
        }
        i += 1;
    }
    if i == av.len() {
        i < bv.len()
    } else if i == bv.len() {
        false
    } else {
        av[i] < bv[i]
    }
}

/// The texts of a list of strings.
pub open spec fn texts(v: Seq<String>) -> Seq<Seq<char>> {
    Seq::new(v.len(), |i: int| v[i]@)
}

/// Each text sorts strictly before every later one.
pub open spec fn strictly_sorted(s: Seq<Seq<char>>) -> bool {
    forall|i: int, j: int| 0 <= i < j < s.len() ==> text_lt(#[trigger] s[i], #[trigger] s[j])
}

/// `s` is `d` sorted with repeats removed: strictly sorted, holding exactly
/// the texts of `d`.
pub open spec fn sorted_unique_of(d: Seq<Seq<char>>, s: Seq<Seq<char>>) -> bool {
    &&& strictly_sorted(s)
    &&& forall|x: Seq<char>| #![trigger s.contains(x)] #![trigger d.contains(x)] s.contains(x) <==> d.contains(x)
}

/// A list has one sorted, repeat-free form: two of them are equal.
pub proof fn lemma_sorted_unique_determined(d: Seq<Seq<char>>, s1: Seq<Seq<char>>, s2: Seq<Seq<char>>)
    requires
        sorted_unique_of(d, s1),
        sorted_unique_of(d, s2),
    ensures
        s1 == s2,
{
    lemma_same_sorted_equal(s1, s2);
}

proof fn lemma_same_sorted_equal(s1: Seq<Seq<char>>, s2: Seq<Seq<char>>)
    requires
        strictly_sorted(s1),
        strictly_sorted(s2),
        forall|x: Seq<char>| #![trigger s1.contains(x)] #![trigger s2.contains(x)] s1.contains(x) <==> s2.contains(x),
    ensures
        s1 == s2,
    decreases s1.len(),
{
    if s1.len() == 0 {
        if s2.len() > 0 {
            assert(s2.contains(s2[0]));
        }
        assert(s1 =~= s2);
    } else {
        assert(s1.contains(s1[0]));
        assert(s2.len() > 0);
        assert(s2.contains(s2[0]));
        let j = choose|j: int| 0 <= j < s2.len() && s2[j] == s1[0];
        let i = choose|i: int| 0 <= i < s1.len() && s1[i] == s2[0];
        if j > 0 {
            assert(text_lt(s2[0], s2[j]));
            if i > 0 {
                assert(text_lt(s1[0], s1[i]));
                lemma_text_lt_transitive(s1[0], s2[0], s1[0]);
            }
            lemma_text_lt_irreflexive(s1[0]);
        }
        assert(s1[0] == s2[0]);
        let t1 = s1.drop_first();
        let t2 = s2.drop_first();
        assert forall|x: Seq<char>| #[trigger] t1.contains(x) implies t2.contains(x) by {
            let a = choose|a: int| 0 <= a < t1.len() && t1[a] == x;
            assert(s1[a + 1] == x);
            assert(s1.contains(x));
            let b = choose|b: int| 0 <= b < s2.len() && s2[b] == x;
            assert(text_lt(s1[0], s1[a + 1]));
            if b == 0 {
                lemma_text_lt_irreflexive(x);
            }
            assert(t2[b - 1] == x);
        }
        assert forall|x: Seq<char>| #[trigger] t2.contains(x) implies t1.contains(x) by {
            let a = choose|a: int| 0 <= a < t2.len() && t2[a] == x;
            assert(s2[a + 1] == x);
            assert(s2.contains(x));
            let b = choose|b: int| 0 <= b < s1.len() && s1[b] == x;
            assert(text_lt(s2[0], s2[a + 1]));
            if b == 0 {
                lemma_text_lt_irreflexive(x);
            }
            assert(t1[b - 1] == x);
        }
        lemma_same_sorted_equal(t1, t2);
        assert(s1 =~= seq![s1[0]] + t1);
        assert(s2 =~= seq![s2[0]] + t2);
    }
}

proof fn lemma_insert_sorted(s: Seq<Seq<char>>, p: int, x: Seq<char>)
    requires
        strictly_sorted(s),
        0 <= p <= s.len(),
        forall|i: int| 0 <= i < p ==> text_lt(#[trigger] s[i], x),
        p < s.len() ==> text_lt(x, s[p]),
    ensures
        strictly_sorted(s.insert(p, x)),
{
    assert forall|j: int| p <= j < s.len() implies text_lt(x, #[trigger] s[j]) by {
        if j > p {
            lemma_text_lt_transitive(x, s[p], s[j]);
        }
    }
    let t = s.insert(p, x);
    assert forall|i: int, j: int| 0 <= i < j < t.len() implies text_lt(
        #[trigger] t[i],
        #[trigger] t[j],
    ) by {
        if j < p {
            assert(text_lt(s[i], s[j]));
        } else if j == p {
            assert(text_lt(s[i], x));
        } else if i < p {
            assert(text_lt(s[i], s[j - 1]));
        } else if i == p {
            assert(text_lt(x, s[j - 1]));
        } else {
            assert(text_lt(s[i - 1], s[j - 1]));
        }
    }
}

proof fn lemma_contains_insert(s: Seq<Seq<char>>, p: int, y: Seq<char>)
    requires
        0 <= p <= s.len(),
    ensures
        forall|x: Seq<char>| #[trigger] s.insert(p, y).contains(x) <==> (s.contains(x) || x == y),
{
    let t = s.insert(p, y);
    assert forall|x: Seq<char>| #[trigger] t.contains(x) implies (s.contains(x) || x == y) by {
        let i = choose|i: int| 0 <= i < t.len() && t[i] == x;
        if i < p {
            assert(s[i] == x);
        } else if i > p {
            assert(s[i - 1] == x);
        }
    }
    assert forall|x: Seq<char>| s.contains(x) || x == y implies #[trigger] t.contains(x) by {
        if x == y {
            assert(t[p] == y);
        } else {
            let i = choose|i: int| 0 <= i < s.len() && s[i] == x;
            if i < p {
                assert(t[i] == x);
            } else {
                assert(t[i + 1] == x);
            }
        }
    }
}

/// Whether one of the strings in `v` is `t`.
pub fn contains_text(v: &Vec<String>, t: &str) -> (r: bool)
    ensures
        r == texts(v@).contains(t@),
{
    let mut i: usize = 0;
    while i < v.len()
        invariant
            i <= v.len(),
            forall|j: int| 0 <= j < i ==> #[trigger] v@[j]@ != t@,
        decreases v.len() - i,
    {
        if string_eq_str(&v[i], t) {
            assert(texts(v@)[i as int] == t@);
            return true;
        }
        i += 1;
    }
    proof {
        if texts(v@).contains(t@) {
            let j = choose|j: int| 0 <= j < texts(v@).len() && texts(v@)[j] == t@;
            assert(v@[j]@ == t@);
        }
    }
    false
}

/// `dirs` sorted, with repeats removed.
pub fn sort_dedup(dirs: &Vec<String>) -> (r: Vec<String>)
    ensures
        sorted_unique_of(texts(dirs@), texts(r@)),
{
    let mut r: Vec<String> = Vec::new();
    let mut k: usize = 0;
    assert(texts(dirs@.take(0)) =~= Seq::<Seq<char>>::empty());
    assert(texts(r@) =~= Seq::<Seq<char>>::empty());
    while k < dirs.len()
        invariant
            k <= dirs.len(),
            sorted_unique_of(texts(dirs@.take(k as int)), texts(r@)),
        decreases dirs.len() - k,
    {
        let d = &dirs[k];
        let mut p: usize = 0;
        while p < r.len() && text_less(r[p].as_str(), d.as_str())
            invariant
                p <= r.len(),
                forall|i: int| 0 <= i < p ==> text_lt(#[trigger] texts(r@)[i], d@),
            decreases r.len() - p,
        {
            p += 1;
        }
        let ghost before = texts(r@);
        assert(texts(dirs@.take(k + 1)) =~= texts(dirs@.take(k as int)).insert(k as int, d@));
        proof {
            lemma_contains_insert(texts(dirs@.take(k as int)), k as int, d@);
        }
        let dup = p < r.len() && string_eq_str(&r[p], d.as_str());
        if !dup {
            proof {
                if p < r.len() {
                    assert(before[p as int] != d@);
                    lemma_text_lt_total(before[p as int], d@);
                }
                lemma_insert_sorted(before, p as int, d@);
                lemma_contains_insert(before, p as int, d@);
            }
            r.insert(p, d.clone());
            assert(texts(r@) =~= before.insert(p as int, d@));
        } else {
            assert(before[p as int] == d@);
            assert(before.contains(d@));
        }
        k += 1;
    }
    assert(dirs@.take(k as int) =~= dirs@);
    r
}

/// The directory that the game's localized data lives in by default.
pub open spec fn default_dir() -> Seq<char> {
    "localized_data"@
}

/// The list with the default directory in front, unless it is already there.
pub open spec fn with_default_dir(s: Seq<Seq<char>>) -> Seq<Seq<char>> {
    if s.contains(default_dir()) {
        s
    } else {
        seq![default_dir()] + s
    }
}

/// The list with the configured directory at the end, when one is set, not
/// empty and not already listed.
pub open spec fn with_configured_dir(s: Seq<Seq<char>>, current: Option<Seq<char>>) -> Seq<Seq<char>> {
    match current {
        Some(c) => if c.len() > 0 && !s.contains(c) {
            s.push(c)
        } else {
            s
        },
        None => s,
    }
}

/// The text of an optional string.
pub open spec fn opt_text(c: Option<&str>) -> Option<Seq<char>> {
    match c {
        Some(t) => Some(t@),
        None => None,
    }
}

/// The directories offered for localized data, given the names of the
/// directories found under the data path and the configured one: the found
/// names sorted and without repeats, the default directory in front when it
/// was not found, and the configured directory at the end when it is set and
/// was not found.
pub fn load_localized_data_dirs(found: &Vec<String>, current: Option<&str>) -> (r: Vec<String>)
    ensures
        exists|s: Seq<Seq<char>>|
            #[trigger] sorted_unique_of(texts(found@), s) && texts(r@) == with_configured_dir(
                with_default_dir(s),
                opt_text(current),
            ),
{
    let mut dirs = sort_dedup(found);
    let ghost sorted = texts(dirs@);
    let default_name = "localized_data";
    if !contains_text(&dirs, default_name) {
        dirs.insert(0, default_name.to_owned());
        assert(texts(dirs@) =~= seq![default_dir()] + sorted);
    }
    let ghost with_default = texts(dirs@);
    assert(with_default == with_default_dir(sorted));
    if let Some(c) = current {
        if c.unicode_len() > 0 && !contains_text(&dirs, c) {
            dirs.push(c.to_owned());
            assert(texts(dirs@) =~= with_default.push(c@));
        }
    }
    assert(sorted_unique_of(texts(found@), sorted));
    dirs
}

} // verus!
