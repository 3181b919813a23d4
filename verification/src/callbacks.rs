//! The callback table: associates opaque, host-issued callback identifiers
//! with deferred behavior, and supplies the remove-before-invoke /
//! reinsert-after discipline that makes re-entrant routing safe.

use vstd::prelude::*;
use crate::Callback;

verus! {

broadcast use vstd::std_specs::hash::group_hash_axioms;

/// Why routing an event failed.
#[derive(Debug, Clone, Copy, PartialEq, Eq, Structural)]
pub enum RoutingError {
    /// The host presented a callback identifier with no registered entry:
    /// either the identifier was never registered, or its entry is
    /// currently mid-invocation.
    UnknownCallback,
}

/// Maps callback identifiers to deferred behavior of type `B`.
///
/// At rest, at most one entry is associated with an identifier. During an
/// invocation the firing entry is absent from the table, so a nested
/// lookup of the same identifier fails rather than reaching an entry that
/// is already executing.
pub struct CallbackTable<B> {
    map: std::collections::HashMap<Callback, B>,
}

impl<B> CallbackTable<B> {
    /// The table's contents: a map from identifier to its registered entry.
    pub closed spec fn entries(self) -> Map<Callback, B> {
        self.map@
    }

    /// An empty table.
    pub fn new() -> (table: Self)
        ensures
            table.entries() == Map::<Callback, B>::empty(),
    {
        CallbackTable { map: std::collections::HashMap::new() }
    }

    /// Inserts or overwrites the entry for `id`. Overwriting is legal: it
    /// serves both initial registration and reinsertion after a firing.
    pub fn register(&mut self, id: Callback, behavior: B)
        ensures
            final(self).entries() == old(self).entries().insert(id, behavior),
    {
        self.map.insert(id, behavior);
    }

    /// Removes and returns the entry for `id`, leaving the identifier
    /// unregistered until the entry is reinserted; the first half of the
    /// remove-then-reinsert discipline. Fails closed on an identifier with
    /// no entry.
    pub fn take(&mut self, id: Callback) -> (r: Result<B, RoutingError>)
        ensures
            r is Ok <==> old(self).entries().dom().contains(id),
            r matches Ok(b) ==> {
                &&& b == old(self).entries()[id]
                &&& final(self).entries() == old(self).entries().remove(id)
            },
            r is Err ==> {
                &&& r == Err::<B, RoutingError>(RoutingError::UnknownCallback)
                &&& final(self).entries() == old(self).entries()
            },
    {
        match self.map.remove(&id) {
            Some(b) => Ok(b),
            None => Err(RoutingError::UnknownCallback),
        }
    }

    /// Whether an entry is currently registered for `id`.
    pub fn contains(&self, id: Callback) -> (r: bool)
        ensures
            r == self.entries().dom().contains(id),
    {
        self.map.contains_key(&id)
    }

    /// A read reference to the entry for `id`, if one is registered.
    pub fn get(&self, id: Callback) -> (r: Option<&B>)
        ensures
            match r {
                Some(b) => self.entries().dom().contains(id) && *b == self.entries()[id],
                None => !self.entries().dom().contains(id),
            },
    {
        self.map.get(&id)
    }
}

/// At most one invocation of a callback is in flight: while the entry for
/// `id` is removed for invocation and not yet reinserted, a nested lookup
/// of `id` in the table finds nothing, so a nested invocation of the same
/// identifier reports `UnknownCallback` instead of reaching the entry
/// that is already executing.
pub proof fn lemma_at_most_one_in_flight<B>(at_rest: Map<Callback, B>, id: Callback)
    ensures
        !at_rest.remove(id).dom().contains(id),
{
}

} // verus!
