//! `async`-aware `Mutex`: the decisions that its lock future and guard make, on the mutex state.
use vstd::prelude::*;
use std::task::Waker;

use crate::dll::{DoublyLinkedList, Link};
use crate::task::clone_waker;

verus! {

proof fn lemma_untouched_waiters(
    start: DoublyLinkedList<Option<Waker>>,
    before_pop: DoublyLinkedList<Option<Waker>>,
    after_pop: DoublyLinkedList<Option<Waker>>,
    now: DoublyLinkedList<Option<Waker>>,
    o: Seq<usize>,
    k: int,
    link: usize,
)
    requires
        start.wf(),
        start@ == o,
        0 <= k < o.len(),
        link == o[k],
        before_pop.arena_len() == start.arena_len(),
        forall|j: int| k <= j < o.len() ==> #[trigger] before_pop.link_spec(o[j] as int).data_spec()
            == start.link_spec(o[j] as int).data_spec(),
        forall|j: int| 0 <= j < before_pop.arena_len() ==> #[trigger] after_pop.link_spec(j).data_spec()
            == before_pop.link_spec(j).data_spec(),
        forall|j: int| 0 <= j < after_pop.arena_len() && j != link ==> #[trigger] now.link_spec(j) == after_pop.link_spec(j),
        after_pop.arena_len() == before_pop.arena_len(),
    ensures
        forall|j: int| k + 1 <= j < o.len() ==> #[trigger] now.link_spec(o[j] as int).data_spec()
            == start.link_spec(o[j] as int).data_spec(),
{
    start.lemma_handles();
    assert forall|j: int| k + 1 <= j < o.len() implies #[trigger] now.link_spec(o[j] as int).data_spec()
        == start.link_spec(o[j] as int).data_spec() by {
        let x = o[j] as int;
        assert(o[j] != o[k]);
        assert(now.link_spec(x) == after_pop.link_spec(x));
        assert(after_pop.link_spec(x).data_spec() == before_pop.link_spec(x).data_spec());
        assert(before_pop.link_spec(o[j] as int).data_spec() == start.link_spec(o[j] as int).data_spec());
    }
}

/// `async`-aware `Mutex`
pub struct Mutex<T> {
    data: T,
    locked: bool,
    // list of the wakers of the tasks waiting for the lock, most recent first
    wakers: DoublyLinkedList<Option<Waker>>,
}

/// Proof that the lock is held; give it back to `unlock`.
pub struct MutexGuard {
    held: (),
}

/// What polling the lock future gives.
pub enum LockPoll {
    /// The lock was acquired.
    Ready(MutexGuard),
    /// The lock is held elsewhere; the task waits under this handle.
    Pending(usize),
}

impl<T> Mutex<T> {
    /// Whether the lock is held.
    pub closed spec fn is_locked(&self) -> bool {
        self.locked
    }

    /// The protected value.
    pub closed spec fn value(&self) -> T {
        self.data
    }

    /// Handles of the waiting tasks, most recent first.
    pub closed spec fn waiters(&self) -> Seq<usize> {
        self.wakers@
    }

    /// The waker that the waiter `id` left, if it is still there.
    pub closed spec fn waker_of(&self, id: int) -> Option<Waker> {
        self.wakers.link_spec(id).data_spec()
    }

    /// Number of waiter handles handed out so far.
    pub closed spec fn handles(&self) -> nat {
        self.wakers.arena_len()
    }

    /// The waiting list is well formed.
    pub closed spec fn wf(&self) -> bool {
        self.wakers.wf()
    }

    /// Creates a new mutex
    pub fn new(data: T) -> (r: Self)
        ensures
            r.wf(),
            !r.is_locked(),
            r.value() == data,
            r.waiters() == Seq::<usize>::empty(),
            r.handles() == 0,
    {
        Self { data, locked: false, wakers: DoublyLinkedList::new() }
    }

    /// Attempts to acquire the lock
    pub fn try_lock(&mut self) -> (r: Option<MutexGuard>)
        requires
            old(self).wf(),
        ensures
            final(self).wf(),
            r is Some <==> !old(self).is_locked(),
            final(self).is_locked(),
            final(self).value() == old(self).value(),
            final(self).waiters() == old(self).waiters(),
            final(self).handles() == old(self).handles(),
            forall|j: int| #[trigger] final(self).waker_of(j) == old(self).waker_of(j),
    {
        if self.locked {
            None
        } else {
            self.locked = true;
            Some(MutexGuard { held: () })
        }
    }

    /// One poll of the lock future of a task that waits under `waiter` (`None` on the first poll):
    /// takes the lock if it is free; otherwise the first poll leaves a copy of `waker` at the
    /// front of the waiting list.
    pub fn poll_lock(&mut self, waiter: Option<usize>, waker: &Waker) -> (r: LockPoll)
        requires
            old(self).wf(),
            old(self).handles() < usize::MAX,
        ensures
            final(self).wf(),
            final(self).is_locked(),
            final(self).value() == old(self).value(),
            !old(self).is_locked() ==> r is Ready && final(self).waiters() == old(self).waiters()
                && final(self).handles() == old(self).handles(),
            old(self).is_locked() && waiter is Some ==> r == LockPoll::Pending(waiter->0)
                && final(self).waiters() == old(self).waiters() && final(self).handles() == old(self).handles(),
            old(self).is_locked() && waiter is None ==> r == LockPoll::Pending(old(self).handles() as usize)
                && final(self).waiters() == seq![old(self).handles() as usize].add(old(self).waiters())
                && final(self).handles() == old(self).handles() + 1
                && final(self).waker_of(old(self).handles() as int) is Some,
    {
        if let Some(guard) = self.try_lock() {
            return LockPoll::Ready(guard);
        }
        match waiter {
            Some(id) => LockPoll::Pending(id),
            None => {
                let id = self.wakers.push_front(Link::new(Some(clone_waker(waker))));
                LockPoll::Pending(id)
            },
        }
    }

    /// Whether the waiter `id` is still in the waiting list.
    pub fn is_waiting(&self, id: usize) -> (r: bool)
        requires
            self.wf(),
        ensures
            r == self.waiters().contains(id),
    {
        self.wakers.contains(id)
    }

    /// What dropping the lock future of waiter `id` does: takes it out of the waiting list and
    /// returns its waker, if still there, to be dropped.
    pub fn cancel(&mut self, id: usize) -> (r: Option<Waker>)
        requires
            old(self).wf(),
            old(self).waiters().contains(id),
        ensures
            final(self).wf(),
            final(self).is_locked() == old(self).is_locked(),
            final(self).value() == old(self).value(),
            final(self).waiters() == old(self).waiters().remove(old(self).waiters().index_of(id)),
            r == old(self).waker_of(id as int),
            final(self).waker_of(id as int) is None,
    {
        proof {
            let k = self.wakers@.index_of(id);
            assert(self.wakers@[k] == id);
            self.wakers.lemma_handles();
        }
        self.wakers.unlink(id);
        self.wakers.replace_data(id, None)
    }

    /// What dropping a guard does: releases the lock and takes out of the waiting list the waiters
    /// from the front up to and including the first one that still has its waker, whose waker it
    /// returns to be woken (`None` if there is none).
    #[verifier::rlimit(50)]
    pub fn unlock(&mut self, guard: MutexGuard) -> (r: Option<Waker>)
        requires
            old(self).wf(),
        ensures
            final(self).wf(),
            !final(self).is_locked(),
            final(self).value() == old(self).value(),
            match r {
                Some(w) => exists|k: int| 0 <= k < old(self).waiters().len()
                    && (forall|j: int| 0 <= j < k ==> #[trigger] old(self).waker_of(old(self).waiters()[j] as int) is None)
                    && old(self).waker_of(old(self).waiters()[k] as int) == Some(w)
                    && final(self).waiters() == old(self).waiters().skip(k + 1),
                None => final(self).waiters() == Seq::<usize>::empty()
                    && forall|j: int| 0 <= j < old(self).waiters().len() ==> #[trigger] old(self).waker_of(old(self).waiters()[j] as int) is None,
            },
    {
        self.locked = false;
        let ghost o = self.wakers@;
        let ghost start = *self;
        let ghost mut k: int = 0;
        assert(o.skip(0) =~= o);
        loop
            invariant
                self.wf(),
                !self.locked,
                self.data == start.data,
                0 <= k <= o.len(),
                self.wakers@ == o.skip(k),
                self.wakers.arena_len() == start.wakers.arena_len(),
                forall|j: int| 0 <= j < k ==> #[trigger] start.waker_of(o[j] as int) is None,
                forall|j: int| k <= j < o.len() ==> #[trigger] self.wakers.link_spec(o[j] as int).data_spec()
                    == start.wakers.link_spec(o[j] as int).data_spec(),
                start.wakers@ == o,
                start.wf(),
                start.data == old(self).data,
                start.wakers == old(self).wakers,
            decreases o.len() - k,
        {
            proof {
                self.wakers.lemma_handles();
                start.wakers.lemma_handles();
                if k < o.len() {
                    assert(self.wakers@[0] == o[k]);
                    assert(self.waker_of(o[k] as int) == start.waker_of(o[k] as int));
                }
            }
            let ghost before_pop = self.wakers;
            match self.wakers.pop_front() {
                Some(link) => {
                    assert(link == o[k]);
                    let ghost after_pop = self.wakers;
                    assert(after_pop.link_spec(link as int).data_spec() == before_pop.link_spec(link as int).data_spec());
                    let w = self.wakers.replace_data(link, None);
                    if let Some(w) = w {
                        assert(self.wakers@ == o.skip(k + 1)) by {
                            assert(o.skip(k).drop_first() =~= o.skip(k + 1));
                        }
                        assert(start.waker_of(o[k] as int) == Some(w));
                        assert(old(self).waiters() == o);
                        assert(old(self).waker_of(o[k] as int) == Some(w));
                        assert(forall|j: int| 0 <= j < k ==> #[trigger] old(self).waker_of(old(self).waiters()[j] as int) is None) by {
                            assert forall|j: int| 0 <= j < k implies #[trigger] old(self).waker_of(old(self).waiters()[j] as int) is None by {
                                assert(start.waker_of(o[j] as int) is None);
                            }
                        }
                        return Some(w);
                    }
                    proof {
                        assert(o.skip(k).drop_first() =~= o.skip(k + 1));
                        lemma_untouched_waiters(start.wakers, before_pop, after_pop, self.wakers, o, k, link);
                        k = k + 1;
                    }
                },
                None => {
                    assert(k == o.len());
                    assert(o.skip(k) =~= Seq::<usize>::empty());
                    assert(old(self).waiters() == o);
                    assert forall|j: int| 0 <= j < old(self).waiters().len() implies #[trigger] old(self).waker_of(old(self).waiters()[j] as int) is None by {
                        assert(start.waker_of(o[j] as int) is None);
                    }
                    return None;
                },
            }
        }
    }

    /// The protected value, while the lock is held.
    pub fn get(&self, guard: &MutexGuard) -> (r: &T)
        ensures
            *r == self.value(),
    {
        &self.data
    }

    /// Replaces the protected value, while the lock is held; returns the old one.
    pub fn replace(&mut self, guard: &MutexGuard, value: T) -> (r: T)
        ensures
            r == old(self).value(),
            final(self).value() == value,
            final(self).is_locked() == old(self).is_locked(),
            final(self).waiters() == old(self).waiters(),
            final(self).wf() == old(self).wf(),
    {
        let mut v = value;
        std::mem::swap(&mut self.data, &mut v);
        v
    }
}

} // verus!
