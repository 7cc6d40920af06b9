use vstd::prelude::*;

verus! {

/// One slot of a `StaticContainer`: filled, or not yet handed out.
pub enum ContainerEntry<T> {
    Value(T),
    Undefined,
}

impl<T> ContainerEntry<T> {
    /// Mutable access to the stored value, if the slot is filled.
    pub fn get_value_mut(&mut self) -> (r: Option<&mut T>)
        ensures
            *old(self) is Undefined ==> r.is_none() && *final(self) == *old(self),
            *old(self) is Value ==> r.is_some() && *r.unwrap() == old(self)->Value_0
                && *final(self) == ContainerEntry::Value(*final(r.unwrap())),
    {
        match self {
            ContainerEntry::Value(v) => Some(v),
            ContainerEntry::Undefined => None,
        }
    }
}

/// Fixed-capacity, append-only store. Slots are handed out in order and
/// never reused.
pub struct StaticContainer<T> {
    capacity: usize,
    size: usize,
    items: Vec<ContainerEntry<T>>,
}

/// Raised when every slot of a `StaticContainer` is taken.
#[derive(Clone, Copy, Debug, PartialEq, Eq, Structural)]
pub struct CapacityExhausted;

impl<T> StaticContainer<T> {
    /// The stored values, in the order of their ids.
    pub closed spec fn view(&self) -> Seq<T> {
        Seq::new(self.size as nat, |i: int| self.items@[i]->Value_0)
    }

    /// The number of slots fixed at construction.
    pub closed spec fn spec_capacity(&self) -> nat {
        self.capacity as nat
    }

    /// Filled slots come first, then only empty ones, and there are exactly
    /// `capacity` slots.
    pub closed spec fn wf(&self) -> bool {
        &&& self.items@.len() == self.capacity
        &&& self.size <= self.capacity
        &&& forall|i: int| 0 <= i < self.size ==> (#[trigger] self.items@[i]) is Value
        &&& forall|i: int| self.size <= i < self.capacity ==> (#[trigger] self.items@[i]) is Undefined
    }

    pub proof fn lemma_len_le_capacity(&self)
        requires
            self.wf(),
        ensures
            self@.len() <= self.spec_capacity(),
    {
    }

    /// A store with `capacity` empty slots.
    pub fn new(capacity: usize) -> (r: Self)
        ensures
            r.wf(),
            r@.len() == 0,
            r.spec_capacity() == capacity,
    {
        let mut items: Vec<ContainerEntry<T>> = Vec::new();
        let mut k: usize = 0;
        while k < capacity
            invariant
                k <= capacity,
                items@.len() == k,
                forall|i: int| 0 <= i < k ==> (#[trigger] items@[i]) is Undefined,
            decreases capacity - k,
        {
            items.push(ContainerEntry::Undefined);
            k = k + 1;
        }
        StaticContainer { capacity, size: 0, items }
    }

    /// Number of values stored so far.
    pub fn len(&self) -> (r: usize)
        ensures
            r == self@.len(),
    {
        self.size
    }

    /// The number of slots.
    pub fn capacity(&self) -> (r: usize)
        ensures
            r == self.spec_capacity(),
    {
        self.capacity
    }

    /// The slot at `index`.
    pub fn index(&self, index: usize) -> (r: &ContainerEntry<T>)
        requires
            self.wf(),
            index < self.spec_capacity(),
        ensures
            index < self@.len() ==> (*r is Value && r->Value_0 == self@[index as int]),
            index >= self@.len() ==> *r is Undefined,
    {
        &self.items[index]
    }

    /// Stores `item` in the next free slot and returns that slot's id, or
    /// fails when no slot is left.
    pub fn push(&mut self, item: T) -> (r: Result<usize, CapacityExhausted>)
        requires
            old(self).wf(),
        ensures
            final(self).wf(),
            final(self).spec_capacity() == old(self).spec_capacity(),
            old(self)@.len() < old(self).spec_capacity() <==> r.is_ok(),
            r.is_ok() ==> r.unwrap() == old(self)@.len() && final(self)@ == old(self)@.push(item),
            r.is_err() ==> final(self)@ == old(self)@,
    {
        if self.size >= self.capacity {
            return Err(CapacityExhausted);
        }
        let id = self.size;
        self.items.set(id, ContainerEntry::Value(item));
        self.size = id + 1;
        assert(final(self)@ =~= old(self)@.push(item));
        Ok(id)
    }

    /// Replaces the value stored under `id`.
    pub fn replace(&mut self, id: usize, item: T)
        requires
            old(self).wf(),
            id < old(self)@.len(),
        ensures
            final(self).wf(),
            final(self).spec_capacity() == old(self).spec_capacity(),
            final(self)@ == old(self)@.update(id as int, item),
    {
        self.items.set(id, ContainerEntry::Value(item));
        assert(final(self)@ =~= old(self)@.update(id as int, item));
    }
}

} // verus!
