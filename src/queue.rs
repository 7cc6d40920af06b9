use std::collections::VecDeque;
use vstd::prelude::*;

verus! {

/// First-in first-out store of pending work, with a flag that tells idle
/// workers to stop waiting.
pub struct Queue<T> {
    items: VecDeque<T>,
    disconnected: bool,
}

impl<T> Queue<T> {
    /// The pending items, oldest first.
    pub closed spec fn view(&self) -> Seq<T> {
        self.items@
    }

    /// Whether a disconnect has been signalled.
    pub closed spec fn is_disconnected(&self) -> bool {
        self.disconnected
    }

    /// An empty queue that has not been disconnected.
    pub fn new() -> (r: Self)
        ensures
            r@ == Seq::<T>::empty(),
            !r.is_disconnected(),
    {
        Queue { items: VecDeque::new(), disconnected: false }
    }

    /// Appends `value` behind every pending item.
    pub fn push(&mut self, value: T)
        ensures
            final(self)@ == old(self)@.push(value),
            final(self).is_disconnected() == old(self).is_disconnected(),
    {
        self.items.push_back(value);
    }

    /// Signals every waiting worker to stop; calling it again changes nothing.
    pub fn disconnect_all(&mut self)
        ensures
            final(self)@ == old(self)@,
            final(self).is_disconnected(),
    {
        self.disconnected = true;
    }

    /// Takes the oldest pending item, or `None` when nothing is pending.
    pub fn recv(&mut self) -> (r: Option<T>)
        ensures
            old(self)@.len() == 0 ==> r.is_none() && final(self)@ == old(self)@,
            old(self)@.len() > 0 ==> r == Some(old(self)@[0]) && final(self)@ == old(self)@.drop_first(),
            final(self).is_disconnected() == old(self).is_disconnected(),
    {
        self.items.pop_front()
    }

    /// Moves every item of `other` behind the pending ones, keeping their order.
    pub fn append(&mut self, other: Queue<T>)
        ensures
            final(self)@ == old(self)@ + other@,
            final(self).is_disconnected() == old(self).is_disconnected(),
    {
        let mut other = other;
        let ghost rest = other@;
        while other.len() > 0
            invariant
                self@ + other@ == old(self)@ + rest,
                self.is_disconnected() == old(self).is_disconnected(),
            decreases other@.len(),
        {
            let ghost q = self@;
            let ghost f = other@;
            match other.recv() {
                Some(item) => {
                    self.push(item);
                    assert(self@ + other@ =~= q + f);
                },
                None => {},
            }
        }
        assert(self@ =~= old(self)@ + rest);
    }

    /// Number of pending items.
    pub fn len(&self) -> (r: usize)
        ensures
            r == self@.len(),
    {
        self.items.len()
    }

    /// Whether a disconnect has been signalled.
    pub fn disconnected(&self) -> (r: bool)
        ensures
            r == self.is_disconnected(),
    {
        self.disconnected
    }
}

} // verus!
