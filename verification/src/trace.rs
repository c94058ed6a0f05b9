//! Building an arena and the map from its indices to their origins in one
//! walk over the source.
//!
//! A lowering walks the syntax once and calls `allocate` at each value it
//! produces. Made for the arena, the trace keeps the values; made for the
//! map, it keeps where each came from. Both number the allocations alike, so
//! index `i` of the one is about the same allocation as index `i` of the
//! other.

use vstd::prelude::*;
use crate::arena::{Arena, ArenaMap};

verus! {

/// The record of one walk: the values that were allocated, or where each
/// came from.
pub struct Trace<T, V> {
    arena: Option<Arena<T>>,
    map: Option<ArenaMap<V>>,
    len: usize,
}

impl<T, V> Trace<T, V> {
    /// Whether the trace keeps the values.
    pub closed spec fn for_arena(&self) -> bool {
        self.arena is Some
    }

    /// Whether the trace keeps the origins.
    pub closed spec fn for_map(&self) -> bool {
        self.map is Some
    }

    /// The number of allocations made so far.
    pub closed spec fn count(&self) -> nat {
        self.len as nat
    }

    /// The values kept so far; empty where the trace keeps none.
    pub closed spec fn values(&self) -> Seq<T> {
        match self.arena {
            Some(a) => a@,
            None => Seq::empty(),
        }
    }

    /// The origins kept so far; empty where the trace keeps none.
    pub closed spec fn origins(&self) -> Map<usize, V> {
        match self.map {
            Some(m) => m@,
            None => Map::empty(),
        }
    }

    /// A trace counts every allocation, and what it keeps is numbered by
    /// that count.
    pub closed spec fn wf(&self) -> bool {
        &&& self.arena matches Some(a) ==> a@.len() == self.len
        &&& self.map matches Some(m) ==> forall|id: usize| m@.contains_key(id) <==> id < self.len
    }

    /// A trace that keeps the values.
    pub fn new_for_arena() -> (r: Trace<T, V>)
        ensures
            r.wf(),
            r.for_arena(),
            !r.for_map(),
            r.count() == 0,
            r.values() == Seq::<T>::empty(),
            r.origins() == Map::<usize, V>::empty(),
    {
        Trace { arena: Some(Arena::new()), map: None, len: 0 }
    }

    /// A trace that keeps where the values come from.
    pub fn new_for_map() -> (r: Trace<T, V>)
        ensures
            r.wf(),
            r.for_map(),
            !r.for_arena(),
            r.count() == 0,
            r.values() == Seq::<T>::empty(),
            r.origins() == Map::<usize, V>::empty(),
    {
        Trace { arena: None, map: Some(ArenaMap::new()), len: 0 }
    }

    /// Records one allocation and returns its index. `data` is run where
    /// the trace keeps values and `value` where it keeps origins; what they
    /// return is what is kept under the new index.
    pub fn allocate<FV: FnOnce() -> V, FT: FnOnce() -> T>(&mut self, value: FV, data: FT) -> (id: usize)
        requires
            old(self).wf(),
            old(self).count() < usize::MAX,
            value.requires(()),
            data.requires(()),
        ensures
            final(self).wf(),
            id == old(self).count(),
            final(self).count() == old(self).count() + 1,
            final(self).for_arena() == old(self).for_arena(),
            final(self).for_map() == old(self).for_map(),
            old(self).for_arena() ==> exists|t: T| #[trigger]
                data.ensures((), t) && final(self).values() == old(self).values().push(t),
            !old(self).for_arena() ==> final(self).values() == old(self).values(),
            old(self).for_map() ==> exists|v: V| #[trigger]
                value.ensures((), v) && final(self).origins() == old(self).origins().insert(id, v),
            !old(self).for_map() ==> final(self).origins() == old(self).origins(),
    {
        let id = self.len;
        self.len = self.len + 1;
        if let Some(arena) = &mut self.arena {
            let t = data();
            let at = arena.allocate(t);
        }
        if let Some(map) = &mut self.map {
            let v = value();
            map.insert(id, v);
        }
        id
    }

    /// The arena of the values, for a trace that kept them.
    pub fn into_arena(self) -> (r: Arena<T>)
        requires
            self.for_arena(),
        ensures
            r@ == self.values(),
    {
        self.arena.unwrap()
    }

    /// The map from indices to origins, for a trace that kept them.
    pub fn into_map(self) -> (r: ArenaMap<V>)
        requires
            self.for_map(),
        ensures
            r@ == self.origins(),
    {
        self.map.unwrap()
    }
}

} // verus!
