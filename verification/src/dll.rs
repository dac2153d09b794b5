//! Doubly-linked list
//!
//! The list keeps its links in an arena and hands out the index of each link as its handle.
//! The front of the list is its most recently pushed link; `next` points from a link towards the
//! front, `prev` towards the back.
use vstd::prelude::*;

verus! {

/// A list node carrying `data`.
pub struct Link<T> {
    data: T,
    next: Option<usize>,
    prev: Option<usize>,
}

impl<T> Link<T> {
    /// The data of this link.
    pub closed spec fn data_spec(&self) -> T {
        self.data
    }

    /// The neighbour of this link towards the front.
    pub closed spec fn next_spec(&self) -> Option<usize> {
        self.next
    }

    /// The neighbour of this link towards the back.
    pub closed spec fn prev_spec(&self) -> Option<usize> {
        self.prev
    }

    /// A link with no neighbours.
    pub fn new(data: T) -> (r: Self)
        ensures
            r.data_spec() == data,
            r.next_spec() is None,
            r.prev_spec() is None,
    {
        Self { data, next: None, prev: None }
    }

    /// The data of this link.
    pub fn data(&self) -> (r: &T)
        ensures
            *r == self.data_spec(),
    {
        &self.data
    }

    /// The neighbour of this link towards the front, as last set.
    pub fn next(&self) -> (r: Option<usize>)
        ensures
            r == self.next_spec(),
    {
        self.next
    }

    /// The neighbour of this link towards the back, as last set.
    pub fn prev(&self) -> (r: Option<usize>)
        ensures
            r == self.prev_spec(),
    {
        self.prev
    }
}

/// A doubly-linked list of links kept in an arena.
pub struct DoublyLinkedList<T> {
    links: Vec<Link<T>>,
    head: Option<usize>,
    tail: Option<usize>,
    order: Ghost<Seq<usize>>,
}

impl<T> DoublyLinkedList<T> {
    /// Handles of the links in the list, front first.
    pub closed spec fn view(&self) -> Seq<usize> {
        self.order@
    }

    /// Number of links the arena has ever taken; every handle is below it.
    pub closed spec fn arena_len(&self) -> nat {
        self.links@.len()
    }

    /// The link with handle `id`.
    pub closed spec fn link_spec(&self, id: int) -> Link<T> {
        self.links@[id]
    }

    /// The front link's handle.
    pub closed spec fn head_spec(&self) -> Option<usize> {
        self.head
    }

    /// The back link's handle.
    pub closed spec fn tail_spec(&self) -> Option<usize> {
        self.tail
    }

    /// The links that `order` names are distinct arena entries, head and tail are its ends, and
    /// each listed link points to its neighbours in `order`.
    pub closed spec fn wf(&self) -> bool {
        let o = self.order@;
        &&& o.no_duplicates()
        &&& forall|i: int| 0 <= i < o.len() ==> #[trigger] o[i] < self.links@.len()
        &&& self.head == (if o.len() == 0 { None } else { Some(o[0]) })
        &&& self.tail == (if o.len() == 0 { None } else { Some(o.last()) })
        &&& forall|i: int| 0 <= i < o.len() ==> (#[trigger] self.links@[o[i] as int]).prev
            == (if i + 1 < o.len() { Some(o[i + 1]) } else { None })
        &&& forall|i: int| 0 <= i < o.len() ==> (#[trigger] self.links@[o[i] as int]).next
            == (if i > 0 { Some(o[i - 1]) } else { None })
    }

    /// Every handle in a well-formed list names a link of the arena, and no handle occurs twice.
    pub proof fn lemma_handles(&self)
        requires
            self.wf(),
        ensures
            forall|i: int| 0 <= i < self@.len() ==> #[trigger] self@[i] < self.arena_len(),
            self@.no_duplicates(),
    {
    }

    /// In a well-formed list the front link is the first of the view and the back link its last
    /// (neither, when the list is empty), and each listed link points to its neighbours in the
    /// view: `next` to the one before it, towards the front, and `prev` to the one after it.
    pub proof fn lemma_ends_and_links(&self)
        requires
            self.wf(),
        ensures
            self.head_spec() == (if self@.len() == 0 { None } else { Some(self@[0]) }),
            self.tail_spec() == (if self@.len() == 0 { None } else { Some(self@.last()) }),
            forall|i: int| 0 <= i < self@.len() ==> (#[trigger] self.link_spec(self@[i] as int)).next_spec()
                == (if i > 0 { Some(self@[i - 1]) } else { None }),
            forall|i: int| 0 <= i < self@.len() ==> (#[trigger] self.link_spec(self@[i] as int)).prev_spec()
                == (if i + 1 < self@.len() { Some(self@[i + 1]) } else { None }),
    {
    }

    /// An empty list.
    pub fn new() -> (r: Self)
        ensures
            r.wf(),
            r@ == Seq::<usize>::empty(),
            r.arena_len() == 0,
            r.head_spec() is None,
            r.tail_spec() is None,
    {
        Self { links: Vec::new(), head: None, tail: None, order: Ghost(Seq::empty()) }
    }

    /// The link with handle `id`.
    pub fn link(&self, id: usize) -> (r: &Link<T>)
        requires
            id < self.arena_len(),
        ensures
            *r == self.link_spec(id as int),
    {
        &self.links[id]
    }

    /// The front link's handle.
    pub fn head(&self) -> (r: Option<usize>)
        ensures
            r == self.head_spec(),
    {
        self.head
    }

    /// The back link's handle.
    pub fn tail(&self) -> (r: Option<usize>)
        ensures
            r == self.tail_spec(),
    {
        self.tail
    }

    /// Puts a fresh link at the front of the list; returns its handle.
    pub fn push_front(&mut self, link: Link<T>) -> (id: usize)
        requires
            old(self).wf(),
            link.next_spec() is None,
            link.prev_spec() is None,
        ensures
            final(self).wf(),
            id == old(self).arena_len(),
            final(self)@ == seq![id].add(old(self)@),
            final(self).head_spec() == Some(id),
            final(self).tail_spec() == (if old(self)@.len() == 0 { Some(id) } else { old(self).tail_spec() }),
            final(self).arena_len() == old(self).arena_len() + 1,
            final(self).link_spec(id as int).data_spec() == link.data_spec(),
            forall|j: int| 0 <= j < old(self).arena_len() ==> #[trigger] final(self).link_spec(j).data_spec()
                == old(self).link_spec(j).data_spec(),
    {
        let id = self.links.len();
        let ghost o = self.order@;
        let mut link = link;
        if let Some(head) = self.head {
            link.prev = Some(head);
            self.links[head].next = Some(id);
            if self.tail.is_none() {
                self.tail = Some(head);
            }
        } else if self.tail.is_none() {
            self.tail = Some(id);
        }
        self.links.push(link);
        self.head = Some(id);
        self.order = Ghost(seq![id].add(o));
        proof {
            let n = self.order@;
            assert forall|i: int| 0 <= i < n.len() implies #[trigger] n[i] < self.links@.len() by {
                if i > 0 {
                    assert(n[i] == o[i - 1]);
                }
            }
            assert forall|i: int, j: int| 0 <= i < j < n.len() implies n[i] != n[j] by {
                if i > 0 {
                    assert(n[i] == o[i - 1] && n[j] == o[j - 1]);
                } else {
                    assert(n[j] == o[j - 1]);
                }
            }
            assert forall|i: int| 0 <= i < n.len() implies (#[trigger] self.links@[n[i] as int]).prev
                == (if i + 1 < n.len() { Some(n[i + 1]) } else { None }) by {
                if i > 0 {
                    assert(n[i] == o[i - 1]);
                    assert(n[i] != id);
                }
            }
            assert forall|i: int| 0 <= i < n.len() implies (#[trigger] self.links@[n[i] as int]).next
                == (if i > 0 { Some(n[i - 1]) } else { None }) by {
                if i > 0 {
                    assert(n[i] == o[i - 1]);
                    if i > 1 {
                        assert(n[i - 1] == o[i - 2]);
                    }
                }
            }
            if o.len() > 0 {
                assert(n.last() == o.last());
            }
        }
        id
    }

    /// Takes the front link out of the list; returns its handle, `None` if the list is empty.
    /// The link itself keeps its pointers.
    pub fn pop_front(&mut self) -> (r: Option<usize>)
        requires
            old(self).wf(),
        ensures
            final(self).wf(),
            final(self).arena_len() == old(self).arena_len(),
            forall|j: int| 0 <= j < old(self).arena_len() ==> #[trigger] final(self).link_spec(j).data_spec()
                == old(self).link_spec(j).data_spec(),
            old(self)@.len() == 0 ==> r is None && final(self)@ == old(self)@,
            old(self)@.len() > 0 ==> r == Some(old(self)@[0]) && final(self)@ == old(self)@.drop_first(),
            final(self).head_spec() == (if final(self)@.len() == 0 { None } else { Some(final(self)@[0]) }),
            final(self).tail_spec() == (if final(self)@.len() == 0 { None } else { Some(final(self)@.last()) }),
    {
        let ghost o = self.order@;
        if let Some(link) = self.head {
            let prev = self.links[link].prev;
            self.head = prev;
            if let Some(prev) = prev {
                self.links[prev].next = None;
            } else {
                self.tail = None;
            }
            self.order = Ghost(o.drop_first());
            proof {
                let n = self.order@;
                assert(o[0] == link);
                assert forall|i: int| 0 <= i < n.len() implies #[trigger] n[i] < self.links@.len() by {
                    assert(n[i] == o[i + 1]);
                }
                assert forall|i: int, j: int| 0 <= i < j < n.len() implies n[i] != n[j] by {
                    assert(n[i] == o[i + 1] && n[j] == o[j + 1]);
                }
                assert forall|i: int| 0 <= i < n.len() implies (#[trigger] self.links@[n[i] as int]).prev
                    == (if i + 1 < n.len() { Some(n[i + 1]) } else { None }) by {
                    assert(n[i] == o[i + 1]);
                    assert(o.len() > 1 ==> o[1] != o[0]);
                }
                assert forall|i: int| 0 <= i < n.len() implies (#[trigger] self.links@[n[i] as int]).next
                    == (if i > 0 { Some(n[i - 1]) } else { None }) by {
                    assert(n[i] == o[i + 1]);
                    if i > 0 {
                        assert(n[i - 1] == o[i]);
                        assert(o[i + 1] != o[1]);
                    }
                }
                if n.len() > 0 {
                    assert(n[0] == o[1]);
                    assert(n.last() == o.last());
                }
            }
            Some(link)
        } else {
            None
        }
    }

    /// Takes the link with handle `id` out of the list, wherever it stands.
    /// The link itself keeps its pointers.
    pub fn unlink(&mut self, id: usize)
        requires
            old(self).wf(),
            old(self)@.contains(id),
        ensures
            final(self).wf(),
            final(self).arena_len() == old(self).arena_len(),
            forall|j: int| 0 <= j < old(self).arena_len() ==> #[trigger] final(self).link_spec(j).data_spec()
                == old(self).link_spec(j).data_spec(),
            final(self)@ == old(self)@.remove(old(self)@.index_of(id)),
            final(self).head_spec() == (if final(self)@.len() == 0 { None } else { Some(final(self)@[0]) }),
            final(self).tail_spec() == (if final(self)@.len() == 0 { None } else { Some(final(self)@.last()) }),
    {
        let ghost o = self.order@;
        let ghost k = o.index_of(id);
        assert(o[k] == id);
        let next = self.links[id].next;
        let prev = self.links[id].prev;
        match (prev, next) {
            (None, None) => {
                self.head = None;
                self.tail = None;
            },
            (Some(prev), None) => {
                self.links[prev].next = None;
                self.head = Some(prev);
            },
            (None, Some(next)) => {
                self.links[next].prev = None;
                self.tail = Some(next);
            },
            (Some(prev), Some(next)) => {
                self.links[prev].next = Some(next);
                self.links[next].prev = Some(prev);
            },
        }
        self.order = Ghost(o.remove(k));
        proof {
            let n = self.order@;
            assert(forall|i: int| 0 <= i < n.len() ==> n[i] == (if i < k { o[i] } else { o[i + 1] }));
            assert forall|i: int| 0 <= i < n.len() implies #[trigger] n[i] < self.links@.len() by {
                if i >= k {
                    assert(n[i] == o[i + 1]);
                }
            }
            assert forall|i: int, j: int| 0 <= i < j < n.len() implies n[i] != n[j] by {
                assert(n[i] == (if i < k { o[i] } else { o[i + 1] }));
                assert(n[j] == (if j < k { o[j] } else { o[j + 1] }));
            }
            assert forall|i: int| 0 <= i < n.len() implies (#[trigger] self.links@[n[i] as int]).prev
                == (if i + 1 < n.len() { Some(n[i + 1]) } else { None }) by {
                let ii = if i < k { i } else { i + 1 };
                assert(n[i] == o[ii]);
                assert(o[ii] != id);
                if i + 1 < n.len() {
                    let jj = if i + 1 < k { i + 1 } else { i + 2 };
                    assert(n[i + 1] == o[jj]);
                }
                if k + 1 < o.len() {
                    assert(o[k + 1] != o[ii] || ii == k + 1);
                }
                if k > 0 {
                    assert(o[k - 1] != o[ii] || ii == k - 1);
                }
            }
            assert forall|i: int| 0 <= i < n.len() implies (#[trigger] self.links@[n[i] as int]).next
                == (if i > 0 { Some(n[i - 1]) } else { None }) by {
                let ii = if i < k { i } else { i + 1 };
                assert(n[i] == o[ii]);
                assert(o[ii] != id);
                if i > 0 {
                    let jj = if i - 1 < k { i - 1 } else { i };
                    assert(n[i - 1] == o[jj]);
                }
                if k + 1 < o.len() {
                    assert(o[k + 1] != o[ii] || ii == k + 1);
                }
                if k > 0 {
                    assert(o[k - 1] != o[ii] || ii == k - 1);
                }
            }
            if n.len() > 0 {
                assert(n[0] == (if k > 0 { o[0] } else { o[1] }));
                assert(n.last() == (if k < o.len() - 1 { o.last() } else { o[o.len() - 2] }));
            }
        }
    }

    /// Puts `data` into the link with handle `id`; returns what the link held.
    pub fn replace_data(&mut self, id: usize, data: T) -> (r: T)
        requires
            old(self).wf(),
            id < old(self).arena_len(),
        ensures
            final(self).wf(),
            final(self)@ == old(self)@,
            final(self).arena_len() == old(self).arena_len(),
            r == old(self).link_spec(id as int).data_spec(),
            final(self).link_spec(id as int).data_spec() == data,
            final(self).link_spec(id as int).next_spec() == old(self).link_spec(id as int).next_spec(),
            final(self).link_spec(id as int).prev_spec() == old(self).link_spec(id as int).prev_spec(),
            final(self).head_spec() == old(self).head_spec(),
            final(self).tail_spec() == old(self).tail_spec(),
            forall|j: int| 0 <= j < old(self).arena_len() && j != id ==> #[trigger] final(self).link_spec(j)
                == old(self).link_spec(j),
    {
        let mut d = data;
        std::mem::swap(&mut self.links[id].data, &mut d);
        proof {
            let o = self.order@;
            assert forall|i: int| 0 <= i < o.len() implies (#[trigger] self.links@[o[i] as int]).prev
                == (if i + 1 < o.len() { Some(o[i + 1]) } else { None }) by {
                assert(old(self).links@[o[i] as int].prev == (if i + 1 < o.len() { Some(o[i + 1]) } else { None }));
            }
            assert forall|i: int| 0 <= i < o.len() implies (#[trigger] self.links@[o[i] as int]).next
                == (if i > 0 { Some(o[i - 1]) } else { None }) by {
                assert(old(self).links@[o[i] as int].next == (if i > 0 { Some(o[i - 1]) } else { None }));
            }
        }
        d
    }

    /// Whether the link with handle `id` is in the list; walks it from the front.
    pub fn contains(&self, id: usize) -> (r: bool)
        requires
            self.wf(),
        ensures
            r == self@.contains(id),
    {
        let ghost o = self.order@;
        let mut cur = self.head;
        let ghost mut i: int = 0;
        loop
            invariant
                self.wf(),
                o == self.order@,
                0 <= i <= o.len(),
                cur is Some ==> i < o.len() && cur == Some(o[i]),
                cur is None ==> i == o.len(),
                forall|j: int| 0 <= j < i ==> o[j] != id,
            decreases o.len() - i,
        {
            match cur {
                None => {
                    assert(!o.contains(id));
                    return false;
                },
                Some(c) => {
                    if c == id {
                        return true;
                    }
                    assert(self.links@[o[i] as int].prev == (if i + 1 < o.len() { Some(o[i + 1]) } else { None }));
                    cur = self.links[c].prev;
                    proof {
                        i = i + 1;
                    }
                },
            }
        }
    }
}

/// Popping the front right after a push gives back the pushed link and leaves the other links as
/// they were, in order: what `push_front` and `pop_front` state of the list's handles.
pub proof fn push_then_pop(order: Seq<usize>, id: usize)
    ensures
        (seq![id] + order).len() > 0,
        (seq![id] + order)[0] == id,
        (seq![id] + order).drop_first() == order,
{
    assert((seq![id] + order).drop_first() =~= order);
}

/// Unlinking a link keeps every other link of the list, in the same order.
pub proof fn unlink_keeps_others(order: Seq<usize>, id: usize)
    requires
        order.no_duplicates(),
        order.contains(id),
    ensures
        !order.remove(order.index_of(id)).contains(id),
        forall|x: usize| x != id ==> (order.contains(x) <==> #[trigger] order.remove(order.index_of(id)).contains(x)),
        order.remove(order.index_of(id)).len() == order.len() - 1,
{
    let k = order.index_of(id);
    let r = order.remove(k);
    assert forall|x: usize| x != id implies (order.contains(x) <==> #[trigger] r.contains(x)) by {
        if order.contains(x) {
            let j = order.index_of(x);
            if j < k {
                assert(r[j] == x);
            } else {
                assert(j != k);
                assert(r[j - 1] == x);
            }
        }
        if r.contains(x) {
            let j = choose|j: int| 0 <= j < r.len() && r[j] == x;
            if j < k {
                assert(order[j] == x);
            } else {
                assert(order[j + 1] == x);
            }
        }
    }
    if r.contains(id) {
        let j = choose|j: int| 0 <= j < r.len() && r[j] == id;
        if j < k {
            assert(order[j] == id);
        } else {
            assert(order[j + 1] == id);
        }
    }
}

} // verus!
