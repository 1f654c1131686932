use vstd::prelude::*;
use crate::ring::{cycle, distinct, position, ring_next, ring_prev, without, Link, Ring};

verus! {

/// A node of a `LinkList`: a key and the indices of its neighbours (none while unlinked).
pub struct Linkable {
    pub key: u64,
    pub next: Option<usize>,
    pub prev: Option<usize>,
}

impl Linkable {
    /// An unlinked node with key 0.
    pub fn new() -> (l: Linkable)
        ensures
            l.key == 0,
            l.next is None,
            l.prev is None,
    {
        Linkable { key: 0, next: None, prev: None }
    }
}

/// `order` with its first element removed is `order` without that element.
pub proof fn lemma_without_first(order: Seq<usize>)
    requires
        distinct(order),
        order.len() > 0,
    ensures
        without(order, order[0]) == order.drop_first(),
{
    crate::ring::lemma_without_at(order, 0);
    assert(order.remove(0) =~= order.drop_first());
}

/// What `next` does from the cursor `cursor` over the members `order`: the node it returns
/// (none at the sentinel or with no cursor) and where the cursor goes.
pub open spec fn next_step(order: Seq<usize>, cursor: Option<usize>) -> (Option<usize>, Option<usize>) {
    match cursor {
        None => (None, None),
        Some(c) => if c == 0 {
            (None, None)
        } else {
            (Some(c), if order.contains(c) { Some(ring_next(order, c)) } else { None })
        },
    }
}

/// The cursor after `n` calls of `next` starting from `cursor`.
pub open spec fn cursor_after(order: Seq<usize>, cursor: Option<usize>, n: nat) -> Option<usize>
    decreases n,
{
    if n == 0 {
        cursor
    } else {
        next_step(order, cursor_after(order, cursor, (n - 1) as nat)).1
    }
}

/// What call number `n + 1` of `next` returns, starting from `cursor`.
pub open spec fn next_result(order: Seq<usize>, cursor: Option<usize>, n: nat) -> Option<usize> {
    next_step(order, cursor_after(order, cursor, n)).0
}

/// The cursor that `head` leaves on a non-empty list.
pub open spec fn head_cursor(order: Seq<usize>) -> Option<usize> {
    Some(if order.len() > 1 { order[1] } else { 0usize })
}

proof fn lemma_ring_next_member(order: Seq<usize>, i: int)
    requires
        distinct(order),
        0 <= i < order.len(),
        forall|k: int| 0 <= k < order.len() ==> 1 <= #[trigger] order[k],
    ensures
        ring_next(order, order[i]) == if i + 1 < order.len() { order[i + 1] } else { 0usize },
{
    let id = order[i];
    assert(order[i] == id);
    let p = position(order, id);
    assert(0 <= p < order.len() && order[p] == id);
    if p != i {
        if p < i {
            assert(order[p] != order[i]);
        } else {
            assert(order[i] != order[p]);
        }
    }
    assert(id != 0);
    let r = cycle(order);
    assert(r.len() == order.len() + 1);
    if i + 1 < order.len() {
        assert(r[i + 2] == order[i + 1]);
    } else {
        assert(r[0] == 0usize);
    }
}

proof fn lemma_cursor_walk(order: Seq<usize>, n: nat)
    requires
        distinct(order),
        order.len() >= 1,
        forall|k: int| 0 <= k < order.len() ==> 1 <= #[trigger] order[k],
    ensures
        cursor_after(order, head_cursor(order), n) == if n + 1 < order.len() {
            Some(order[n + 1int])
        } else if n + 1 == order.len() {
            Some(0usize)
        } else {
            None::<usize>
        },
    decreases n,
{
    if n > 0 {
        lemma_cursor_walk(order, (n - 1) as nat);
        let k = n as int;
        if k < order.len() {
            lemma_ring_next_member(order, k);
            assert(order.contains(order[k]));
        }
    }
}

/// A circular list with a sentinel (node 0) and a cursor for walking it, holding its
/// nodes in an arena addressed by index.
pub struct LinkList {
    ring: Ring,
    keys: Vec<u64>,
    cursor: Option<usize>,
}

/// Walking a list: after `head` returns the first member of `list`, successive calls of `next`
/// return the remaining members in order, and every call after those returns `None`.
pub proof fn law_head_then_next(list: LinkList, n: nat)
    requires
        list.wf(),
        list.members().len() >= 1,
    ensures
        n + 1 < list.members().len() ==> next_result(
            list.members(),
            head_cursor(list.members()),
            n,
        ) == Some(list.members()[n + 1int]),
        n + 1 >= list.members().len() ==> next_result(
            list.members(),
            head_cursor(list.members()),
            n,
        ) is None,
{
    list.ring.lemma_members_facts();
    lemma_cursor_walk(list.members(), n);
}

impl LinkList {
    /// The invariant.
    pub closed spec fn wf(&self) -> bool {
        &&& self.ring.wf()
        &&& self.keys@.len() == self.ring.size()
        &&& self.cursor matches Some(c) ==> c < self.ring.size()
    }

    /// The member nodes, from head to tail.
    pub closed spec fn members(&self) -> Seq<usize> {
        self.ring.members()
    }

    /// The number of nodes in the arena, the sentinel (node 0) included.
    pub closed spec fn size(&self) -> nat {
        self.ring.size()
    }

    /// The key of node `id`.
    pub closed spec fn key_of(&self, id: usize) -> u64 {
        self.keys@[id as int]
    }

    /// The node the cursor is on (0 is the sentinel).
    pub closed spec fn cursor_at(&self) -> Option<usize> {
        self.cursor
    }

    /// An empty list.
    pub fn new() -> (l: LinkList)
        ensures
            l.wf(),
            l.members() == Seq::<usize>::empty(),
            l.size() == 1,
            l.cursor_at() is None,
    {
        let mut keys = Vec::new();
        keys.push(0u64);
        LinkList { ring: Ring::new(), keys, cursor: None }
    }

    /// Adds an unlinked node holding `node`'s key to the arena and returns its index.
    pub fn create(&mut self, node: Linkable) -> (id: usize)
        requires
            old(self).wf(),
            old(self).size() < usize::MAX,
        ensures
            final(self).wf(),
            id == old(self).size(),
            final(self).size() == old(self).size() + 1,
            final(self).members() == old(self).members(),
            final(self).key_of(id) == node.key,
            forall|j: usize| j < old(self).size() ==> final(self).key_of(j) == old(self).key_of(j),
            final(self).cursor_at() == old(self).cursor_at(),
    {
        let id = self.ring.add_node();
        self.keys.push(node.key);
        id
    }

    /// The key of node `id`.
    pub fn key(&self, id: usize) -> (k: u64)
        requires
            self.wf(),
            id < self.size(),
        ensures
            k == self.key_of(id),
    {
        self.keys[id]
    }

    /// Node `id` with its key and links.
    pub fn node(&self, id: usize) -> (n: Linkable)
        requires
            self.wf(),
            id < self.size(),
        ensures
            n.key == self.key_of(id),
            id == 0 ==> n.next == Some(ring_next(self.members(), 0)) && n.prev == Some(
                ring_prev(self.members(), 0),
            ),
            id != 0 && self.members().contains(id) ==> n.next == Some(
                ring_next(self.members(), id),
            ) && n.prev == Some(ring_prev(self.members(), id)),
            id != 0 && !self.members().contains(id) ==> n.next is None && n.prev is None,
    {
        proof {
            self.ring.lemma_members_facts();
        }
        let l = self.ring.get_link(id);
        Linkable { key: self.keys[id], next: l.next, prev: l.prev }
    }

    /// Takes node `id` out of the list, joining its neighbours; does nothing when it is not
    /// a member.
    pub fn unlink(&mut self, id: usize)
        requires
            old(self).wf(),
            1 <= id < old(self).size(),
        ensures
            final(self).wf(),
            final(self).size() == old(self).size(),
            final(self).members() == without(old(self).members(), id),
            forall|j: usize| j < old(self).size() ==> final(self).key_of(j) == old(self).key_of(j),
            final(self).cursor_at() == old(self).cursor_at(),
    {
        self.ring.unlink(id);
    }

    /// Makes `node` the last member, first taking it out of the list when it is a member.
    pub fn add_tail(&mut self, node: usize)
        requires
            old(self).wf(),
            1 <= node < old(self).size(),
        ensures
            final(self).wf(),
            final(self).size() == old(self).size(),
            final(self).members() == without(old(self).members(), node).push(node),
            forall|j: usize| j < old(self).size() ==> final(self).key_of(j) == old(self).key_of(j),
            final(self).cursor_at() == old(self).cursor_at(),
    {
        if self.ring.is_linked(node) {
            self.ring.unlink(node);
        } else {
            proof {
                crate::ring::lemma_without_absent(self.ring.members(), node);
            }
        }
        proof {
            crate::ring::lemma_not_in_without(old(self).members(), node);
        }
        self.ring.insert_tail(node);
    }

    /// Makes `node` the first member, first taking it out of the list when it is a member.
    pub fn add_head(&mut self, node: usize)
        requires
            old(self).wf(),
            1 <= node < old(self).size(),
        ensures
            final(self).wf(),
            final(self).size() == old(self).size(),
            final(self).members() == seq![node] + without(old(self).members(), node),
            forall|j: usize| j < old(self).size() ==> final(self).key_of(j) == old(self).key_of(j),
            final(self).cursor_at() == old(self).cursor_at(),
    {
        if self.ring.is_linked(node) {
            self.ring.unlink(node);
        } else {
            proof {
                crate::ring::lemma_without_absent(self.ring.members(), node);
            }
        }
        proof {
            crate::ring::lemma_not_in_without(old(self).members(), node);
        }
        self.ring.insert_head(node);
    }

    /// Takes the first member out of the list and returns it; `None` when the list is empty.
    pub fn remove_head(&mut self) -> (r: Option<usize>)
        requires
            old(self).wf(),
        ensures
            final(self).wf(),
            final(self).size() == old(self).size(),
            old(self).members().len() == 0 ==> r is None && final(self).members() == old(
                self,
            ).members(),
            old(self).members().len() > 0 ==> r == Some(old(self).members()[0])
                && final(self).members() == old(self).members().drop_first(),
            forall|j: usize| j < old(self).size() ==> final(self).key_of(j) == old(self).key_of(j),
            final(self).cursor_at() == old(self).cursor_at(),
    {
        proof {
            self.ring.lemma_members_facts();
            crate::ring::lemma_ring_ends(self.ring.members());
        }
        let next = self.ring.get_link(0).next.unwrap();
        if next == 0 {
            return None;
        }
        proof {
            lemma_without_first(self.ring.members());
        }
        self.ring.unlink(next);
        Some(next)
    }

    /// Returns the first member and puts the cursor on the node after it; `None` (and no
    /// cursor) when the list is empty.
    pub fn head(&mut self) -> (r: Option<usize>)
        requires
            old(self).wf(),
        ensures
            final(self).wf(),
            final(self).members() == old(self).members(),
            final(self).size() == old(self).size(),
            forall|j: usize| j < old(self).size() ==> final(self).key_of(j) == old(self).key_of(j),
            old(self).members().len() == 0 ==> r is None && final(self).cursor_at() is None,
            old(self).members().len() > 0 ==> r == Some(old(self).members()[0])
                && final(self).cursor_at() == Some(
                if old(self).members().len() > 1 {
                    old(self).members()[1]
                } else {
                    0usize
                },
            ),
            old(self).members().len() > 0 ==> final(self).cursor_at() == head_cursor(
                old(self).members(),
            ),
    {
        proof {
            self.ring.lemma_members_facts();
            crate::ring::lemma_ring_ends(self.ring.members());
        }
        let next = self.ring.get_link(0).next.unwrap();
        if next == 0 {
            self.cursor = None;
            return None;
        }
        assert(self.ring.members().contains(self.ring.members()[0]));
        self.cursor = self.ring.get_link(next).next;
        Some(next)
    }

    /// Returns the last member and puts the cursor on the node before it; `None` (and no
    /// cursor) when the list is empty.
    pub fn tail(&mut self) -> (r: Option<usize>)
        requires
            old(self).wf(),
        ensures
            final(self).wf(),
            final(self).members() == old(self).members(),
            final(self).size() == old(self).size(),
            forall|j: usize| j < old(self).size() ==> final(self).key_of(j) == old(self).key_of(j),
            old(self).members().len() == 0 ==> r is None && final(self).cursor_at() is None,
            old(self).members().len() > 0 ==> r == Some(old(self).members().last())
                && final(self).cursor_at() == Some(
                if old(self).members().len() > 1 {
                    old(self).members()[old(self).members().len() - 2]
                } else {
                    0usize
                },
            ),
    {
        proof {
            self.ring.lemma_members_facts();
            crate::ring::lemma_ring_ends(self.ring.members());
        }
        let prev = self.ring.get_link(0).prev.unwrap();
        if prev == 0 {
            self.cursor = None;
            return None;
        }
        assert(self.ring.members().contains(
            self.ring.members()[self.ring.members().len() - 1],
        ));
        self.cursor = self.ring.get_link(prev).prev;
        Some(prev)
    }

    /// Returns the node under the cursor and moves the cursor forward; `None` at the
    /// sentinel or with no cursor (the cursor is then cleared).
    pub fn next(&mut self) -> (r: Option<usize>)
        requires
            old(self).wf(),
        ensures
            final(self).wf(),
            final(self).members() == old(self).members(),
            final(self).size() == old(self).size(),
            forall|j: usize| j < old(self).size() ==> final(self).key_of(j) == old(self).key_of(j),
            match old(self).cursor_at() {
                None => r is None && final(self).cursor_at() is None,
                Some(c) => if c == 0 {
                    r is None && final(self).cursor_at() is None
                } else {
                    &&& r == Some(c)
                    &&& final(self).cursor_at() == if old(self).members().contains(c) {
                        Some(ring_next(old(self).members(), c))
                    } else {
                        None
                    }
                },
            },
            (r, final(self).cursor_at()) == next_step(old(self).members(), old(self).cursor_at()),
    {
        proof {
            self.ring.lemma_members_facts();
        }
        let cursor = self.cursor.take();
        match cursor {
            None => None,
            Some(node) => {
                if node == 0 {
                    return None;
                }
                self.cursor = self.ring.get_link(node).next;
                Some(node)
            },
        }
    }

    /// Returns the node under the cursor and moves the cursor backward; `None` at the
    /// sentinel or with no cursor (the cursor is then cleared).
    pub fn prev(&mut self) -> (r: Option<usize>)
        requires
            old(self).wf(),
        ensures
            final(self).wf(),
            final(self).members() == old(self).members(),
            final(self).size() == old(self).size(),
            forall|j: usize| j < old(self).size() ==> final(self).key_of(j) == old(self).key_of(j),
            match old(self).cursor_at() {
                None => r is None && final(self).cursor_at() is None,
                Some(c) => if c == 0 {
                    r is None && final(self).cursor_at() is None
                } else {
                    &&& r == Some(c)
                    &&& final(self).cursor_at() == if old(self).members().contains(c) {
                        Some(ring_prev(old(self).members(), c))
                    } else {
                        None
                    }
                },
            },
    {
        proof {
            self.ring.lemma_members_facts();
        }
        let cursor = self.cursor.take();
        match cursor {
            None => None,
            Some(node) => {
                if node == 0 {
                    return None;
                }
                self.cursor = self.ring.get_link(node).prev;
                Some(node)
            },
        }
    }

    /// Takes every member out of the list.
    pub fn clear(&mut self)
        requires
            old(self).wf(),
        ensures
            final(self).wf(),
            final(self).members() == Seq::<usize>::empty(),
            final(self).size() == old(self).size(),
            forall|j: usize| j < old(self).size() ==> final(self).key_of(j) == old(self).key_of(j),
            final(self).cursor_at() == old(self).cursor_at(),
    {
        loop
            invariant
                self.wf(),
                self.size() == old(self).size(),
                forall|j: usize| j < old(self).size() ==> self.key_of(j) == old(self).key_of(j),
                self.cursor_at() == old(self).cursor_at(),
            ensures
                self.members() == Seq::<usize>::empty(),
            decreases self.members().len(),
        {
            proof {
                self.ring.lemma_members_facts();
                crate::ring::lemma_ring_ends(self.ring.members());
            }
            let next = self.ring.get_link(0).next.unwrap();
            if next == 0 {
                return;
            }
            proof {
                lemma_without_first(self.ring.members());
            }
            self.ring.unlink(next);
        }
    }
}

} // verus!
