//! The list of consumers attached to one agent, in subscription order.
use vstd::prelude::*;

verus! {

/// Consumers attached to an agent, each at most once, oldest first.
pub struct Subscribers {
    ids: Vec<u64>,
}

impl View for Subscribers {
    type V = Seq<u64>;

    closed spec fn view(&self) -> Seq<u64> {
        self.ids@
    }
}

impl Subscribers {
    pub closed spec fn wf(&self) -> bool {
        self.ids@.no_duplicates()
    }

    /// No consumer attached.
    pub fn new() -> (r: Subscribers)
        ensures
            r.wf(),
            r@ == Seq::<u64>::empty(),
    {
        Subscribers { ids: Vec::new() }
    }

    /// Whether `id` is attached.
    pub fn contains(&self, id: u64) -> (r: bool)
        ensures
            r == self@.contains(id),
    {
        let mut i: usize = 0;
        while i < self.ids.len()
            invariant
                i <= self.ids.len(),
                forall|k: int| 0 <= k < i ==> self.ids@[k] != id,
            decreases self.ids.len() - i,
        {
            if self.ids[i] == id {
                return true;
            }
            i = i + 1;
        }
        false
    }

    /// Attaches `id` at the end; attaching it again changes nothing.
    pub fn subscribe(&mut self, id: u64)
        requires
            old(self).wf(),
        ensures
            final(self).wf(),
            final(self)@ == if old(self)@.contains(id) {
                old(self)@
            } else {
                old(self)@.push(id)
            },
    {
        if !self.contains(id) {
            self.ids.push(id);
            proof {
                assert forall|a: int, b: int|
                    0 <= a < b < self.ids@.len() implies self.ids@[a] != self.ids@[b] by {
                    if b == self.ids@.len() - 1 {
                        assert(old(self)@.contains(old(self)@[a]));
                    }
                }
            }
        }
    }

    /// Detaches `id`; the others keep their order.
    pub fn unsubscribe(&mut self, id: u64)
        requires
            old(self).wf(),
        ensures
            final(self).wf(),
            !final(self)@.contains(id),
            old(self)@.contains(id) ==> exists|i: int|
                0 <= i < old(self)@.len() && old(self)@[i] == id && final(self)@ == old(self)@.remove(
                    i,
                ),
            !old(self)@.contains(id) ==> final(self)@ == old(self)@,
    {
        let mut i: usize = 0;
        while i < self.ids.len()
            invariant
                i <= self.ids.len(),
                self.ids@ == old(self).ids@,
                self.ids@.no_duplicates(),
                forall|k: int| 0 <= k < i ==> self.ids@[k] != id,
            decreases self.ids.len() - i,
        {
            if self.ids[i] == id {
                let ghost before = self.ids@;
                self.ids.remove(i);
                proof {
                    assert(self.ids@ == before.remove(i as int));
                    assert forall|k: int| 0 <= k < self.ids@.len() implies self.ids@[k] != id by {
                        if k >= i {
                            assert(before[k + 1] == self.ids@[k]);
                            assert(before[i as int] == id);
                        }
                    }
                    assert forall|a: int, b: int|
                        0 <= a < self.ids@.len() && 0 <= b < self.ids@.len() && a != b implies
                        self.ids@[a] != self.ids@[b] by {
                        let a2 = if a < i { a } else { a + 1 };
                        let b2 = if b < i { b } else { b + 1 };
                        assert(self.ids@[a] == before[a2]);
                        assert(self.ids@[b] == before[b2]);
                    }
                }
                return;
            }
            i = i + 1;
        }
    }

    /// The attached consumers, oldest first: the recipients of a broadcast.
    pub fn recipients(&self) -> (r: Vec<u64>)
        ensures
            r@ == self@,
    {
        let mut r: Vec<u64> = Vec::new();
        let mut i: usize = 0;
        while i < self.ids.len()
            invariant
                i <= self.ids.len(),
                r@ == self.ids@.take(i as int),
            decreases self.ids.len() - i,
        {
            r.push(self.ids[i]);
            i = i + 1;
            assert(r@ =~= self.ids@.take(i as int));
        }
        assert(self.ids@.take(self.ids.len() as int) =~= self.ids@);
        r
    }
}

} // verus!
