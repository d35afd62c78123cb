//! The registry of dex classes that plugins load at run time, by handle.

use std::collections::HashMap;
use vstd::prelude::*;

verus! {

broadcast use vstd::std_specs::hash::group_hash_axioms;

/// Loaded classes by handle, and the next handle to give out.
pub struct DexRegistry<E> {
    pub next_handle: u64,
    pub entries: HashMap<u64, E>,
}

/// The registry as plain values.
pub struct DexState<E> {
    pub next_handle: u64,
    pub entries: Map<u64, E>,
}

impl<E> View for DexRegistry<E> {
    type V = DexState<E>;

    open spec fn view(&self) -> DexState<E> {
        DexState { next_handle: self.next_handle, entries: self.entries@ }
    }
}

/// The registry after `entry` is registered: it gets the next handle, and
/// the counter moves on (wrapping like the atomic counter it stands for).
pub open spec fn after_register<E>(s: DexState<E>, entry: E) -> DexState<E> {
    DexState {
        next_handle: if s.next_handle == u64::MAX {
            0
        } else {
            (s.next_handle + 1) as u64
        },
        entries: s.entries.insert(s.next_handle, entry),
    }
}

/// The registry after `handle` is unloaded.
pub open spec fn after_unload<E>(s: DexState<E>, handle: u64) -> DexState<E> {
    DexState { entries: s.entries.remove(handle), ..s }
}

impl<E> DexRegistry<E> {
    /// An empty registry whose first handle is 1 (0 stands for failure).
    pub fn new() -> (r: Self)
        ensures
            r@.next_handle == 1,
            r@.entries == Map::<u64, E>::empty(),
    {
        DexRegistry { next_handle: 1, entries: HashMap::new() }
    }

    /// Registers a loaded class and returns its handle. Handle 0 stays free
    /// unless the counter has wrapped round to it.
    pub fn register(&mut self, entry: E) -> (handle: u64)
        ensures
            handle == old(self)@.next_handle,
            final(self)@ == after_register(old(self)@, entry),
            !old(self)@.entries.contains_key(0) && old(self)@.next_handle != 0
                ==> !final(self)@.entries.contains_key(0),
    {
        let handle = self.next_handle;
        self.next_handle = self.next_handle.wrapping_add(1);
        self.entries.insert(handle, entry);
        handle
    }

    /// The class registered under `handle`.
    pub fn entry(&self, handle: u64) -> (r: Option<&E>)
        ensures
            r is Some <==> self@.entries.contains_key(handle),
            r matches Some(e) ==> *e == self@.entries[handle],
    {
        self.entries.get(&handle)
    }
}

/// Forgets the class under `handle`; returns whether there was one.
pub fn dex_unload<E>(registry: &mut DexRegistry<E>, handle: u64) -> (r: bool)
    ensures
        r == old(registry)@.entries.contains_key(handle),
        final(registry)@ == after_unload(old(registry)@, handle),
{
    let r = registry.entries.remove(&handle).is_some();
    assert(registry@.entries =~= old(registry)@.entries.remove(handle));
    r
}

/// A class can be unloaded once: unloading the handle that registration
/// gave succeeds, and unloading it again fails.
pub proof fn law_unload_once<E>(s: DexState<E>, entry: E)
    ensures
        after_register(s, entry).entries.contains_key(s.next_handle),
        !after_unload(after_register(s, entry), s.next_handle).entries.contains_key(s.next_handle),
{
}

/// The registry after `entries` are registered in order.
pub open spec fn after_registers<E>(s: DexState<E>, entries: Seq<E>) -> DexState<E>
    decreases entries.len(),
{
    if entries.len() == 0 {
        s
    } else {
        after_register(after_registers(s, entries.drop_last()), entries.last())
    }
}

/// The registry that `DexRegistry::new` gives.
pub open spec fn empty_dex_state<E>() -> DexState<E> {
    DexState { next_handle: 1, entries: Map::<u64, E>::empty() }
}

/// Handle 0 stands for failure and names no class: after fewer than
/// `u64::MAX` registrations into a new registry, the handles given are
/// 1, 2, ... in order, handle 0 is not among them, and so unloading
/// handle 0 fails (whatever was unloaded in between, as unloading only
/// removes handles).
pub proof fn law_handle_zero_never_registered<E>(entries: Seq<E>)
    requires
        entries.len() < u64::MAX,
    ensures
        after_registers(empty_dex_state::<E>(), entries).next_handle == entries.len() + 1,
        !after_registers(empty_dex_state::<E>(), entries).entries.contains_key(0),
        forall|h: u64| #[trigger] after_registers(empty_dex_state::<E>(), entries).entries.contains_key(h)
            ==> 1 <= h <= entries.len(),
    decreases entries.len(),
{
    if entries.len() > 0 {
        law_handle_zero_never_registered(entries.drop_last());
    }
}

/// Unloading only removes: a registry without handle 0 keeps it free, so
/// `dex_unload` of handle 0 (whose result is whether the handle was held)
/// keeps failing.
pub proof fn law_unload_keeps_zero_free<E>(s: DexState<E>, handle: u64)
    requires
        !s.entries.contains_key(0),
    ensures
        !after_unload(s, handle).entries.contains_key(0),
{
}

} // verus!
