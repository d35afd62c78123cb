//! Hiding the game's own UI: one toggle switches off every canvas and every
//! animated root that is showing and remembers them; the next switches back
//! on exactly those it remembered.

use vstd::prelude::*;
use std::collections::HashSet;

verus! {

broadcast use vstd::std_specs::hash::group_hash_axioms;

/// The addresses of a list of objects, each given with whether it shows.
pub open spec fn addrs(objs: Seq<(usize, bool)>) -> Seq<usize> {
    objs.map_values(|o: (usize, bool)| o.0)
}

/// The objects that hiding switches off, in order: those showing, each once,
/// skipping those in `done` (switched off earlier in the same pass).
pub open spec fn hide_list(objs: Seq<(usize, bool)>, done: Set<usize>) -> Seq<usize>
    decreases objs.len(),
{
    if objs.len() == 0 {
        Seq::<usize>::empty()
    } else if objs[0].1 && !done.contains(objs[0].0) {
        seq![objs[0].0] + hide_list(objs.drop_first(), done.insert(objs[0].0))
    } else {
        hide_list(objs.drop_first(), done)
    }
}

/// The set of switched-off objects once hiding has gone through `objs`,
/// starting from `done`.
pub open spec fn hide_done(objs: Seq<(usize, bool)>, done: Set<usize>) -> Set<usize>
    decreases objs.len(),
{
    if objs.len() == 0 {
        done
    } else if objs[0].1 && !done.contains(objs[0].0) {
        hide_done(objs.drop_first(), done.insert(objs[0].0))
    } else {
        hide_done(objs.drop_first(), done)
    }
}

/// The objects that restoring switches back on, in order: those recorded as
/// switched off.
pub open spec fn restore_list(objs: Seq<(usize, bool)>, disabled: Set<usize>) -> Seq<usize>
    decreases objs.len(),
{
    if objs.len() == 0 {
        Seq::<usize>::empty()
    } else if disabled.contains(objs[0].0) {
        seq![objs[0].0] + restore_list(objs.drop_first(), disabled)
    } else {
        restore_list(objs.drop_first(), disabled)
    }
}

/// The objects of the game's UI that were switched off and are to be
/// switched back on.
pub struct GameUiToggle {
    pub disabled: HashSet<usize>,
}

/// What a toggle does: switch off (`hide`) or back on the listed canvases
/// and the listed top objects of animated roots.
pub struct UiToggleActions {
    pub hide: bool,
    pub canvases: Vec<usize>,
    pub top_objects: Vec<usize>,
}

impl GameUiToggle {
    /// Nothing switched off.
    pub fn new() -> (t: Self)
        ensures
            t.disabled@ == Set::<usize>::empty(),
    {
        GameUiToggle { disabled: HashSet::new() }
    }
}

proof fn lemma_skip_step<T>(s: Seq<T>, i: int)
    requires
        0 <= i < s.len(),
    ensures
        s.skip(i).len() > 0,
        s.skip(i)[0] == s[i],
        s.skip(i).drop_first() == s.skip(i + 1),
{
    assert(s.skip(i).drop_first() =~= s.skip(i + 1));
}

/// Switches off, in `state`, the objects of `objs` that show; returns them.
fn hide_pass(state: &mut GameUiToggle, objs: &Vec<(usize, bool)>) -> (out: Vec<usize>)
    ensures
        out@ == hide_list(objs@, old(state).disabled@),
        final(state).disabled@ == hide_done(objs@, old(state).disabled@),
{
    let mut out: Vec<usize> = Vec::new();
    let mut i: usize = 0;
    assert(objs@.skip(0) =~= objs@);
    while i < objs.len()
        invariant
            i <= objs@.len(),
            hide_list(objs@, old(state).disabled@) == out@ + hide_list(objs@.skip(i as int), state.disabled@),
            hide_done(objs@, old(state).disabled@) == hide_done(objs@.skip(i as int), state.disabled@),
        decreases objs.len() - i,
    {
        proof {
            lemma_skip_step(objs@, i as int);
        }
        let (a, shown) = objs[i];
        if shown && !state.disabled.contains(&a) {
            let ghost before = out@;
            state.disabled.insert(a);
            out.push(a);
            assert(before + (seq![a] + hide_list(objs@.skip(i + 1), state.disabled@)) =~= out@
                + hide_list(objs@.skip(i + 1), state.disabled@));
        }
        i += 1;
    }
    assert(objs@.skip(i as int) =~= Seq::<(usize, bool)>::empty());
    assert(out@ + Seq::<usize>::empty() =~= out@);
    out
}

/// The objects of `objs` that `disabled` holds, in order.
fn restore_pass(disabled: &HashSet<usize>, objs: &Vec<(usize, bool)>) -> (out: Vec<usize>)
    ensures
        out@ == restore_list(objs@, disabled@),
{
    let mut out: Vec<usize> = Vec::new();
    let mut i: usize = 0;
    assert(objs@.skip(0) =~= objs@);
    while i < objs.len()
        invariant
            i <= objs@.len(),
            restore_list(objs@, disabled@) == out@ + restore_list(objs@.skip(i as int), disabled@),
        decreases objs.len() - i,
    {
        proof {
            lemma_skip_step(objs@, i as int);
        }
        let a = objs[i].0;
        if disabled.contains(&a) {
            let ghost before = out@;
            out.push(a);
            assert(before + (seq![a] + restore_list(objs@.skip(i + 1), disabled@)) =~= out@
                + restore_list(objs@.skip(i + 1), disabled@));
        }
        i += 1;
    }
    assert(objs@.skip(i as int) =~= Seq::<(usize, bool)>::empty());
    assert(out@ + Seq::<usize>::empty() =~= out@);
    out
}

/// Toggles the game's UI. With nothing switched off, every canvas that is
/// enabled and then every animated root whose top object is active is
/// switched off and remembered; otherwise the remembered ones among the
/// objects found are switched back on and nothing stays remembered.
pub fn toggle_game_ui(
    state: &mut GameUiToggle,
    canvases: &Vec<(usize, bool)>,
    top_objects: &Vec<(usize, bool)>,
) -> (a: UiToggleActions)
    ensures
        a.hide == old(state).disabled@.is_empty(),
        a.hide ==> {
            &&& a.canvases@ == hide_list(canvases@, Set::<usize>::empty())
            &&& a.top_objects@ == hide_list(top_objects@, hide_done(canvases@, Set::<usize>::empty()))
            &&& final(state).disabled@ == hide_done(
                top_objects@,
                hide_done(canvases@, Set::<usize>::empty()),
            )
        },
        !a.hide ==> {
            &&& a.canvases@ == restore_list(canvases@, old(state).disabled@)
            &&& a.top_objects@ == restore_list(top_objects@, old(state).disabled@)
            &&& final(state).disabled@ == Set::<usize>::empty()
        },
{
    if state.disabled.is_empty() {
        assert(state.disabled@ =~= Set::<usize>::empty());
        let c = hide_pass(state, canvases);
        let t = hide_pass(state, top_objects);
        UiToggleActions { hide: true, canvases: c, top_objects: t }
    } else {
        let c = restore_pass(&state.disabled, canvases);
        let t = restore_pass(&state.disabled, top_objects);
        state.disabled.clear();
        UiToggleActions { hide: false, canvases: c, top_objects: t }
    }
}

proof fn lemma_contains_cons(a: usize, s: Seq<usize>)
    ensures
        forall|x: usize| #[trigger] (seq![a] + s).contains(x) <==> (x == a || s.contains(x)),
{
    let t = seq![a] + s;
    assert forall|x: usize| #[trigger] t.contains(x) implies (x == a || s.contains(x)) by {
        let i = choose|i: int| 0 <= i < t.len() && t[i] == x;
        if i > 0 {
            assert(s[i - 1] == x);
        }
    }
    assert forall|x: usize| (x == a || s.contains(x)) implies #[trigger] t.contains(x) by {
        if x == a {
            assert(t[0] == x);
        } else {
            let i = choose|i: int| 0 <= i < s.len() && s[i] == x;
            assert(t[i + 1] == x);
        }
    }
}

proof fn lemma_addrs_step(objs: Seq<(usize, bool)>)
    requires
        objs.len() > 0,
    ensures
        addrs(objs) == seq![objs[0].0] + addrs(objs.drop_first()),
{
    assert(addrs(objs) =~= seq![objs[0].0] + addrs(objs.drop_first()));
}

/// The switched-off set is what it started with plus what the pass switched
/// off.
proof fn lemma_hide_done_contents(objs: Seq<(usize, bool)>, done: Set<usize>)
    ensures
        forall|x: usize| #[trigger] hide_done(objs, done).contains(x) <==> (done.contains(x)
            || hide_list(objs, done).contains(x)),
    decreases objs.len(),
{
    if objs.len() > 0 {
        let a = objs[0].0;
        let rest = objs.drop_first();
        if objs[0].1 && !done.contains(a) {
            let d2 = done.insert(a);
            lemma_hide_done_contents(rest, d2);
            lemma_contains_cons(a, hide_list(rest, d2));
            assert(hide_done(objs, done) == hide_done(rest, d2));
            assert(hide_list(objs, done) == seq![a] + hide_list(rest, d2));
            assert forall|x: usize| #[trigger] hide_done(objs, done).contains(x) <==> (done.contains(x)
                || hide_list(objs, done).contains(x)) by {
                assert(hide_done(rest, d2).contains(x) <==> (d2.contains(x) || hide_list(rest, d2).contains(x)));
                assert((seq![a] + hide_list(rest, d2)).contains(x) <==> (x == a || hide_list(rest, d2).contains(x)));
            }
        } else {
            lemma_hide_done_contents(rest, done);
            assert(hide_done(objs, done) == hide_done(rest, done));
            assert(hide_list(objs, done) == hide_list(rest, done));
        }
    } else {
        assert forall|x: usize| !#[trigger] hide_list(objs, done).contains(x) by {}
    }
}

/// A pass only switches off objects it was given.
proof fn lemma_hide_list_from_objs(objs: Seq<(usize, bool)>, done: Set<usize>)
    ensures
        forall|x: usize| #[trigger] hide_list(objs, done).contains(x) ==> addrs(objs).contains(x),
    decreases objs.len(),
{
    if objs.len() > 0 {
        let a = objs[0].0;
        let rest = objs.drop_first();
        lemma_addrs_step(objs);
        lemma_contains_cons(a, addrs(rest));
        if objs[0].1 && !done.contains(a) {
            let d2 = done.insert(a);
            lemma_hide_list_from_objs(rest, d2);
            lemma_contains_cons(a, hide_list(rest, d2));
            assert(hide_list(objs, done) == seq![a] + hide_list(rest, d2));
            assert forall|x: usize| #[trigger] hide_list(objs, done).contains(x) implies addrs(objs).contains(x) by {
                assert((seq![a] + hide_list(rest, d2)).contains(x) <==> (x == a || hide_list(rest, d2).contains(x)));
                assert((seq![a] + addrs(rest)).contains(x) <==> (x == a || addrs(rest).contains(x)));
            }
        } else {
            lemma_hide_list_from_objs(rest, done);
            assert(hide_list(objs, done) == hide_list(rest, done));
            assert forall|x: usize| #[trigger] hide_list(objs, done).contains(x) implies addrs(objs).contains(x) by {
                assert((seq![a] + addrs(rest)).contains(x) <==> (x == a || addrs(rest).contains(x)));
            }
        }
    } else {
        assert forall|x: usize| !#[trigger] hide_list(objs, done).contains(x) by {}
    }
}

proof fn lemma_restore_contents(objs: Seq<(usize, bool)>, disabled: Set<usize>)
    ensures
        forall|x: usize| #[trigger] restore_list(objs, disabled).contains(x) <==> (addrs(
            objs,
        ).contains(x) && disabled.contains(x)),
    decreases objs.len(),
{
    if objs.len() > 0 {
        let a = objs[0].0;
        let rest = objs.drop_first();
        lemma_addrs_step(objs);
        lemma_contains_cons(a, addrs(rest));
        lemma_restore_contents(rest, disabled);
        lemma_contains_cons(a, restore_list(rest, disabled));
        assert forall|x: usize| #[trigger] restore_list(objs, disabled).contains(x) <==> (addrs(
            objs,
        ).contains(x) && disabled.contains(x)) by {
            assert((seq![a] + addrs(rest)).contains(x) <==> (x == a || addrs(rest).contains(x)));
            assert(restore_list(rest, disabled).contains(x) <==> (addrs(rest).contains(x) && disabled.contains(x)));
            if disabled.contains(a) {
                assert(restore_list(objs, disabled) == seq![a] + restore_list(rest, disabled));
                assert((seq![a] + restore_list(rest, disabled)).contains(x) <==> (x == a
                    || restore_list(rest, disabled).contains(x)));
            } else {
                assert(restore_list(objs, disabled) == restore_list(rest, disabled));
            }
        }
    } else {
        assert forall|x: usize| !#[trigger] restore_list(objs, disabled).contains(x) by {}
        assert forall|x: usize| !#[trigger] addrs(objs).contains(x) by {}
    }
}

/// What a hide from nothing switched off remembers: the canvases, then the
/// top objects.
pub open spec fn hidden_after(canvases: Seq<(usize, bool)>, top_objects: Seq<(usize, bool)>) -> Set<usize> {
    hide_done(top_objects, hide_done(canvases, Set::<usize>::empty()))
}

/// Hiding and then restoring gives the UI back: when the second toggle finds
/// the same objects, it restores (rather than hides again) exactly when the
/// first switched something off, and it switches back on every object the
/// first switched off and no other.
pub proof fn law_toggle_twice_restores(
    canvases: Seq<(usize, bool)>,
    top_objects: Seq<(usize, bool)>,
    canvases_again: Seq<(usize, bool)>,
    top_objects_again: Seq<(usize, bool)>,
)
    requires
        addrs(canvases_again) == addrs(canvases),
        addrs(top_objects_again) == addrs(top_objects),
    ensures
        hidden_after(canvases, top_objects).is_empty() <==> (hide_list(
            canvases,
            Set::<usize>::empty(),
        ).len() == 0 && hide_list(top_objects, hide_done(canvases, Set::<usize>::empty())).len()
            == 0),
        forall|x: usize|
            (#[trigger] restore_list(canvases_again, hidden_after(canvases, top_objects)).contains(x)
                || #[trigger] restore_list(top_objects_again, hidden_after(canvases, top_objects)).contains(x))
                <==> (hide_list(canvases, Set::<usize>::empty()).contains(x) || hide_list(
                top_objects,
                hide_done(canvases, Set::<usize>::empty()),
            ).contains(x)),
{
    let e = Set::<usize>::empty();
    let dc = hide_done(canvases, e);
    let d = hidden_after(canvases, top_objects);
    let hc = hide_list(canvases, e);
    let ht = hide_list(top_objects, dc);
    lemma_hide_done_contents(canvases, e);
    lemma_hide_done_contents(top_objects, dc);
    lemma_hide_list_from_objs(canvases, e);
    lemma_hide_list_from_objs(top_objects, dc);
    lemma_restore_contents(canvases_again, d);
    lemma_restore_contents(top_objects_again, d);
    if d.is_empty() {
        if hc.len() > 0 {
            assert(hc.contains(hc[0]));
            assert(d.contains(hc[0]));
        }
        if ht.len() > 0 {
            assert(ht.contains(ht[0]));
            assert(d.contains(ht[0]));
        }
    }
    if hc.len() == 0 && ht.len() == 0 {
        assert forall|x: usize| !d.contains(x) by {
            if d.contains(x) {
                if !dc.contains(x) {
                    assert(ht.contains(x));
                } else {
                    assert(hc.contains(x));
                }
            }
        }
        assert(d =~= Set::<usize>::empty());
    }
}

} // verus!
