//! Arenas: values stored in the order in which they were allocated and
//! addressed by their position, and maps from positions to other values.

use vstd::prelude::*;

verus! {

/// Values in allocation order. The index that `allocate` hands out is the
/// value's position, and it stays valid for the life of the arena.
#[derive(Debug)]
pub struct Arena<T> {
    data: Vec<T>,
}

impl<T> View for Arena<T> {
    type V = Seq<T>;

    closed spec fn view(&self) -> Seq<T> {
        self.data@
    }
}

impl<T> Arena<T> {
    pub fn new() -> (r: Arena<T>)
        ensures
            r@ == Seq::<T>::empty(),
    {
        Arena { data: Vec::new() }
    }

    /// Appends `value` and returns its index.
    pub fn allocate(&mut self, value: T) -> (id: usize)
        ensures
            final(self)@ == old(self)@.push(value),
            id == old(self)@.len(),
    {
        let id = self.data.len();
        self.data.push(value);
        id
    }

    pub fn len(&self) -> (n: usize)
        ensures
            n == self@.len(),
    {
        self.data.len()
    }

    pub fn is_empty(&self) -> (r: bool)
        ensures
            r == (self@.len() == 0),
    {
        self.data.len() == 0
    }

    /// The value at `id`, or `None` where the arena holds no such index.
    pub fn get(&self, id: usize) -> (r: Option<&T>)
        ensures
            r == (if id < self@.len() {
                Some(&self@[id as int])
            } else {
                None
            }),
    {
        if id < self.data.len() {
            Some(&self.data[id])
        } else {
            None
        }
    }

    /// The value at `id`.
    pub fn index(&self, id: usize) -> (r: &T)
        requires
            id < self@.len(),
        ensures
            *r == self@[id as int],
    {
        &self.data[id]
    }

    /// The values in allocation order.
    pub fn as_slice(&self) -> (r: &[T])
        ensures
            r@ == self@,
    {
        self.data.as_slice()
    }
}

/// A map from arena indices to values of another kind.
#[derive(Debug)]
pub struct ArenaMap<V> {
    slots: Vec<Option<V>>,
}

impl<V> View for ArenaMap<V> {
    type V = Map<usize, V>;

    closed spec fn view(&self) -> Map<usize, V> {
        Map::new(
            |id: usize| id < self.slots@.len() && self.slots@[id as int] is Some,
            |id: usize| self.slots@[id as int]->0,
        )
    }
}

impl<V> ArenaMap<V> {
    pub fn new() -> (r: ArenaMap<V>)
        ensures
            r@ == Map::<usize, V>::empty(),
    {
        let r = ArenaMap { slots: Vec::new() };
        assert(r@ =~= Map::<usize, V>::empty());
        r
    }

    /// Binds `id` to `value`, in place of what it was bound to.
    pub fn insert(&mut self, id: usize, value: V)
        ensures
            final(self)@ == old(self)@.insert(id, value),
    {
        while self.slots.len() <= id
            invariant
                self@ == old(self)@,
            decreases id + 1 - self.slots.len(),
        {
            self.slots.push(None);
            assert(self@ =~= old(self)@);
        }
        self.slots.set(id, Some(value));
        assert(self@ =~= old(self)@.insert(id, value));
    }

    /// What `id` is bound to.
    pub fn get(&self, id: usize) -> (r: Option<&V>)
        ensures
            r == (if self@.contains_key(id) {
                Some(&self@[id])
            } else {
                None
            }),
    {
        if id < self.slots.len() {
            self.slots[id].as_ref()
        } else {
            None
        }
    }

    /// Whether `id` is bound.
    pub fn contains(&self, id: usize) -> (r: bool)
        ensures
            r == self@.contains_key(id),
    {
        id < self.slots.len() && self.slots[id].is_some()
    }
}

} // verus!
