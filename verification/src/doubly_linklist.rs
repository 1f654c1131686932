use vstd::prelude::*;
use crate::linklist::lemma_without_first;
use crate::ring::{ring_next, ring_prev, without, Ring};

verus! {

/// A node that can sit in two lists at once: `next`/`prev` for the first and
/// `next2`/`prev2` for a `DoublyLinkList`.
pub struct DoublyLinkable {
    pub key: u64,
    pub next: Option<usize>,
    pub prev: Option<usize>,
    pub next2: Option<usize>,
    pub prev2: Option<usize>,
}

impl DoublyLinkable {
    /// An unlinked node with key 0.
    pub fn new() -> (l: DoublyLinkable)
        ensures
            l.key == 0,
            l.next is None,
            l.prev is None,
            l.next2 is None,
            l.prev2 is None,
    {
        DoublyLinkable { key: 0, next: None, prev: None, next2: None, prev2: None }
    }
}

/// A first-in first-out circular list over the second links of its nodes, with a sentinel
/// head (node 0), holding its nodes in an arena addressed by index.
pub struct DoublyLinkList {
    ring: Ring,
    keys: Vec<u64>,
}

impl DoublyLinkList {
    /// The invariant.
    pub closed spec fn wf(&self) -> bool {
        &&& self.ring.wf()
        &&& self.keys@.len() == self.ring.size()
    }

    /// The member nodes, from first pushed to last pushed.
    pub closed spec fn members(&self) -> Seq<usize> {
        self.ring.members()
    }

    /// The number of nodes in the arena, the head (node 0) included.
    pub closed spec fn size(&self) -> nat {
        self.ring.size()
    }

    /// The key of node `id`.
    pub closed spec fn key_of(&self, id: usize) -> u64 {
        self.keys@[id as int]
    }

    /// An empty list.
    pub fn new() -> (l: DoublyLinkList)
        ensures
            l.wf(),
            l.members() == Seq::<usize>::empty(),
            l.size() == 1,
    {
        let mut keys = Vec::new();
        keys.push(0u64);
        DoublyLinkList { ring: Ring::new(), keys }
    }

    /// Adds an unlinked node holding `node`'s key to the arena and returns its index.
    pub fn create(&mut self, node: DoublyLinkable) -> (id: usize)
        requires
            old(self).wf(),
            old(self).size() < usize::MAX,
        ensures
            final(self).wf(),
            id == old(self).size(),
            final(self).size() == old(self).size() + 1,
            final(self).members() == old(self).members(),
            final(self).key_of(id) == node.key,
            forall|j: usize| j < old(self).size() ==> final(self).key_of(j) == old(self).key_of(j),
    {
        let id = self.ring.add_node();
        self.keys.push(node.key);
        id
    }

    /// Node `id` with its key and second links (the first links are not held here).
    pub fn node(&self, id: usize) -> (n: DoublyLinkable)
        requires
            self.wf(),
            id < self.size(),
        ensures
            n.key == self.key_of(id),
            n.next is None && n.prev is None,
            id == 0 ==> n.next2 == Some(ring_next(self.members(), 0)) && n.prev2 == Some(
                ring_prev(self.members(), 0),
            ),
            id != 0 && self.members().contains(id) ==> n.next2 == Some(
                ring_next(self.members(), id),
            ) && n.prev2 == Some(ring_prev(self.members(), id)),
            id != 0 && !self.members().contains(id) ==> n.next2 is None && n.prev2 is None,
    {
        proof {
            self.ring.lemma_members_facts();
        }
        let l = self.ring.get_link(id);
        DoublyLinkable { key: self.keys[id], next: None, prev: None, next2: l.next, prev2: l.prev }
    }

    /// Takes node `id` out of the list, joining its neighbours; does nothing when it is not
    /// a member.
    pub fn unlink2(&mut self, id: usize)
        requires
            old(self).wf(),
            1 <= id < old(self).size(),
        ensures
            final(self).wf(),
            final(self).size() == old(self).size(),
            final(self).members() == without(old(self).members(), id),
            forall|j: usize| j < old(self).size() ==> final(self).key_of(j) == old(self).key_of(j),
    {
        self.ring.unlink(id);
    }

    /// Appends `node`, first taking it out of the list when it is a member.
    pub fn push(&mut self, node: usize)
        requires
            old(self).wf(),
            1 <= node < old(self).size(),
        ensures
            final(self).wf(),
            final(self).size() == old(self).size(),
            final(self).members() == without(old(self).members(), node).push(node),
            forall|j: usize| j < old(self).size() ==> final(self).key_of(j) == old(self).key_of(j),
    {
        if self.ring.is_linked(node) {
            self.ring.unlink(node);
        } else {
            proof {
                crate::ring::lemma_without_absent(self.ring.members(), node);
            }
        }
        proof {
            crate::ring::lemma_not_in_without(old(self).members(), node);
        }
        self.ring.insert_tail(node);
    }

    /// Takes out and returns the oldest member; `None` when the list is empty.
    pub fn pop(&mut self) -> (r: Option<usize>)
        requires
            old(self).wf(),
        ensures
            final(self).wf(),
            final(self).size() == old(self).size(),
            old(self).members().len() == 0 ==> r is None && final(self).members() == old(
                self,
            ).members(),
            old(self).members().len() > 0 ==> r == Some(old(self).members()[0])
                && final(self).members() == old(self).members().drop_first(),
            forall|j: usize| j < old(self).size() ==> final(self).key_of(j) == old(self).key_of(j),
    {
        proof {
            self.ring.lemma_members_facts();
            crate::ring::lemma_ring_ends(self.ring.members());
        }
        let next2 = self.ring.get_link(0).next.unwrap();
        if next2 == 0 {
            return None;
        }
        proof {
            lemma_without_first(self.ring.members());
        }
        self.ring.unlink(next2);
        Some(next2)
    }
}

/// Nodes come out of a `DoublyLinkList` in the order they went in: pushing a node that is
/// not a member onto a list and popping everything before it leaves it first.
pub proof fn law_push_pop_fifo(members: Seq<usize>, node: usize)
    requires
        !members.contains(node),
    ensures
        without(members, node).push(node) == members.push(node),
        members.push(node).drop_first() == if members.len() > 0 {
            members.drop_first().push(node)
        } else {
            Seq::<usize>::empty()
        },
{
    crate::ring::lemma_without_absent(members, node);
    if members.len() > 0 {
        assert(members.push(node).drop_first() =~= members.drop_first().push(node));
    } else {
        assert(members.push(node).drop_first() =~= Seq::<usize>::empty());
    }
}

} // verus!
