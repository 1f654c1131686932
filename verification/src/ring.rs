use vstd::prelude::*;

verus! {

/// The forward and backward links of one node of a circular list.
#[derive(Clone, Copy)]
pub struct Link {
    pub next: Option<usize>,
    pub prev: Option<usize>,
}

/// The cycle of a list: the sentinel (node 0) followed by the members in order.
pub open spec fn cycle(order: Seq<usize>) -> Seq<usize> {
    seq![0usize] + order
}

/// The node after position `k` of cycle `r`.
pub open spec fn succ(r: Seq<usize>, k: int) -> usize {
    if k + 1 < r.len() {
        r[k + 1]
    } else {
        r[0]
    }
}

/// The node before position `k` of cycle `r`.
pub open spec fn pred(r: Seq<usize>, k: int) -> usize {
    if k > 0 {
        r[k - 1]
    } else {
        r[r.len() - 1]
    }
}

/// The position of member `id` in `order` (meaningful when it is a member).
pub open spec fn position(order: Seq<usize>, id: usize) -> int {
    choose|i: int| 0 <= i < order.len() && order[i] == id
}

/// The node that follows `id` around the cycle (`id` is the sentinel or a member).
pub open spec fn ring_next(order: Seq<usize>, id: usize) -> usize {
    if id == 0 {
        succ(cycle(order), 0)
    } else {
        succ(cycle(order), position(order, id) + 1)
    }
}

/// The node that precedes `id` around the cycle (`id` is the sentinel or a member).
pub open spec fn ring_prev(order: Seq<usize>, id: usize) -> usize {
    if id == 0 {
        pred(cycle(order), 0)
    } else {
        pred(cycle(order), position(order, id) + 1)
    }
}

/// Whether no value occurs twice in `s`.
pub open spec fn distinct(s: Seq<usize>) -> bool {
    forall|i: int, j: int| 0 <= i < j < s.len() ==> s[i] != s[j]
}

/// `order` without `id`.
pub open spec fn without(order: Seq<usize>, id: usize) -> Seq<usize> {
    order.filter(|x: usize| x != id)
}

/// The structural invariant of a cycle `order` threaded through `links`.
pub open spec fn ring_wf(links: Seq<Link>, order: Seq<usize>) -> bool {
    let r = cycle(order);
    &&& links.len() >= 1
        &&& forall|i: int| 0 <= i < order.len() ==> 1 <= #[trigger] order[i] < links.len()
        &&& distinct(order)
        &&& forall|k: int|
            0 <= k < r.len() ==> #[trigger] links[r[k] as int] == (Link {
                next: Some(succ(r, k)),
                prev: Some(pred(r, k)),
            })
        &&& forall|id: usize|
            1 <= id < links.len() && !order.contains(id) ==> #[trigger] links[id as int]
                == (Link { next: None, prev: None })
}

/// A circular doubly-linked list threaded through an arena of nodes by index.
/// Node 0 is the sentinel; every other node is either a member of the cycle or unlinked
/// (both links empty).
pub struct Ring {
    links: Vec<Link>,
    order: Ghost<Seq<usize>>,
}

impl Ring {
    /// The members, from the node after the sentinel around to the node before it.
    pub closed spec fn members(&self) -> Seq<usize> {
        self.order@
    }

    /// The number of nodes in the arena, the sentinel included.
    pub closed spec fn size(&self) -> nat {
        self.links@.len()
    }

    /// The links of node `id`.
    pub closed spec fn link(&self, id: usize) -> Link {
        self.links@[id as int]
    }

    /// The structural invariant.
    pub closed spec fn wf(&self) -> bool {
        ring_wf(self.links@, self.order@)
    }

    pub proof fn lemma_members_facts(&self)
        requires
            self.wf(),
        ensures
            distinct(self.members()),
            self.size() >= 1,
            forall|i: int|
                0 <= i < self.members().len() ==> 1 <= #[trigger] self.members()[i] < self.size(),
            forall|id: usize|
                self.members().contains(id) ==> {
                    let i = position(self.members(), id);
                    &&& 0 <= i < self.members().len()
                    &&& self.members()[i] == id
                    &&& 1 <= id < self.size()
                    &&& self.link(id) == (Link {
                        next: Some(ring_next(self.members(), id)),
                        prev: Some(ring_prev(self.members(), id)),
                    })
                },
            self.link(0) == (Link {
                next: Some(ring_next(self.members(), 0)),
                prev: Some(ring_prev(self.members(), 0)),
            }),
            forall|id: usize|
                1 <= id < self.size() && !self.members().contains(id) ==> self.link(id) == (Link {
                    next: None,
                    prev: None,
                }),
    {
        let order = self.order@;
        let r = cycle(order);
        assert(r[0] == 0usize);
        assert forall|id: usize| order.contains(id) implies {
            let i = position(order, id);
            &&& 0 <= i < order.len()
            &&& order[i] == id
            &&& 1 <= id < self.size()
            &&& self.link(id) == (Link {
                next: Some(ring_next(order, id)),
                prev: Some(ring_prev(order, id)),
            })
        } by {
            let i = position(order, id);
            assert(r[i + 1] == order[i]);
        }
    }

    /// A list with no members and no nodes besides the sentinel.
    pub fn new() -> (r: Ring)
        ensures
            r.wf(),
            r.members() == Seq::<usize>::empty(),
            r.size() == 1,
    {
        let mut links = Vec::new();
        links.push(Link { next: Some(0), prev: Some(0) });
        let r = Ring { links, order: Ghost(Seq::empty()) };
        assert(cycle(Seq::<usize>::empty()) =~= seq![0usize]);
        r
    }

    /// Adds an unlinked node to the arena and returns its index.
    pub fn add_node(&mut self) -> (id: usize)
        requires
            old(self).wf(),
            old(self).size() < usize::MAX,
        ensures
            final(self).wf(),
            id == old(self).size(),
            final(self).size() == old(self).size() + 1,
            final(self).members() == old(self).members(),
    {
        let id = self.links.len();
        self.links.push(Link { next: None, prev: None });
        let ghost order = self.order@;
        let ghost r = cycle(order);
        assert forall|k: int| 0 <= k < r.len() implies #[trigger] self.links@[r[k] as int] == (Link {
            next: Some(succ(r, k)),
            prev: Some(pred(r, k)),
        }) by {
            if k > 0 {
                assert(r[k] == order[k - 1]);
            }
        }
        id
    }

    /// The number of nodes in the arena.
    pub fn len(&self) -> (n: usize)
        ensures
            n == self.size(),
    {
        self.links.len()
    }

    /// The links of node `id`.
    pub fn get_link(&self, id: usize) -> (l: Link)
        requires
            id < self.size(),
        ensures
            l == self.link(id),
    {
        self.links[id]
    }

    /// Whether `id` is a member (its backward link is set).
    pub fn is_linked(&self, id: usize) -> (b: bool)
        requires
            self.wf(),
            1 <= id < self.size(),
        ensures
            b == self.members().contains(id),
    {
        proof {
            self.lemma_members_facts();
        }
        self.links[id].prev.is_some()
    }

    /// Removes `id` from the cycle, joining its neighbours; does nothing when `id` is not a
    /// member.
    pub fn unlink(&mut self, id: usize)
        requires
            old(self).wf(),
            1 <= id < old(self).size(),
        ensures
            final(self).wf(),
            final(self).size() == old(self).size(),
            final(self).members() == without(old(self).members(), id),
    {
        proof {
            self.lemma_members_facts();
        }
        let ghost order = self.order@;
        let ghost r = cycle(order);
        match self.links[id].prev {
            None => {
                assert(!order.contains(id));
                proof {
                    lemma_without_absent(order, id);
                }
            },
            Some(pv) => {
                let ghost i = position(order, id);
                let nx = self.links[id].next.unwrap();
                assert(r[i + 1] == id);
                assert(pv == r[i]);
                assert(nx == succ(r, i + 1));
                let mut lp = self.links[pv];
                lp.next = Some(nx);
                self.links.set(pv, lp);
                self.links.set(id, Link { next: None, prev: None });
                let mut ln = self.links[nx];
                ln.prev = Some(pv);
                self.links.set(nx, ln);
                proof {
                    lemma_unlink_preserves(old(self).links@, order, i, self.links@);
                    lemma_remove_is_without(order, i, id);
                }
                self.order = Ghost(order.remove(i));
            },
        }
    }

    /// Links the unlinked node `id` in just before the sentinel, making it the last member.
    pub fn insert_tail(&mut self, id: usize)
        requires
            old(self).wf(),
            1 <= id < old(self).size(),
            !old(self).members().contains(id),
        ensures
            final(self).wf(),
            final(self).size() == old(self).size(),
            final(self).members() == old(self).members().push(id),
    {
        proof {
            self.lemma_members_facts();
        }
        let ghost order = self.order@;
        let ghost r = cycle(order);
        let last = self.links[0].prev.unwrap();
        assert(last == r[r.len() - 1]);
        self.links.set(id, Link { next: Some(0), prev: Some(last) });
        let mut ll = self.links[last];
        ll.next = Some(id);
        self.links.set(last, ll);
        let mut ls = self.links[0];
        ls.prev = Some(id);
        self.links.set(0, ls);
        let ghost new_order = order.push(id);
        let ghost r2 = cycle(new_order);
        proof {
            assert(r2 =~= r.push(id));
            lemma_cycle_distinct(order);
            assert forall|k: int| 0 <= k < r2.len() implies #[trigger] self.links@[r2[k] as int]
                == (Link { next: Some(succ(r2, k)), prev: Some(pred(r2, k)) }) by {
                if k < r.len() {
                    assert(r2[k] == r[k]);
                    assert(r.contains(r[k]));
                }
            }
            assert forall|j: usize|
                1 <= j < self.links@.len() && !new_order.contains(j) implies #[trigger] self.links@[j as int]
                == (Link { next: None, prev: None }) by {
                if order.contains(j as usize) {
                    let q = choose|q: int| 0 <= q < order.len() && order[q] == j as usize;
                    assert(new_order[q] == order[q]);
                }
                assert(new_order[new_order.len() - 1] == id);
                if last != 0 {
                    assert(order[order.len() - 1] == last);
                    assert(new_order[order.len() - 1] == last);
                }
            }
            assert forall|a: int, b: int| 0 <= a < b < new_order.len() implies new_order[a]
                != new_order[b] by {
                if b == order.len() {
                    assert(order.contains(new_order[a]));
                }
            }
        }
        self.order = Ghost(new_order);
    }

    /// Links the unlinked node `id` in just after the sentinel, making it the first member.
    pub fn insert_head(&mut self, id: usize)
        requires
            old(self).wf(),
            1 <= id < old(self).size(),
            !old(self).members().contains(id),
        ensures
            final(self).wf(),
            final(self).size() == old(self).size(),
            final(self).members() == seq![id] + old(self).members(),
    {
        proof {
            self.lemma_members_facts();
        }
        let ghost order = self.order@;
        let ghost r = cycle(order);
        let first = self.links[0].next.unwrap();
        assert(first == succ(r, 0));
        self.links.set(id, Link { next: Some(first), prev: Some(0) });
        let mut ls = self.links[0];
        ls.next = Some(id);
        self.links.set(0, ls);
        let mut lf = self.links[first];
        lf.prev = Some(id);
        self.links.set(first, lf);
        let ghost new_order = seq![id] + order;
        let ghost r2 = cycle(new_order);
        proof {
            assert(r2 =~= r.insert(1, id));
            lemma_cycle_distinct(order);
            assert forall|k: int| 0 <= k < r2.len() implies #[trigger] self.links@[r2[k] as int]
                == (Link { next: Some(succ(r2, k)), prev: Some(pred(r2, k)) }) by {
                if k >= 2 {
                    assert(r2[k] == r[k - 1]);
                    assert(r.contains(r[k - 1]));
                }
            }
            assert forall|j: usize|
                1 <= j < self.links@.len() && !new_order.contains(j) implies #[trigger] self.links@[j as int]
                == (Link { next: None, prev: None }) by {
                if order.contains(j as usize) {
                    let q = choose|q: int| 0 <= q < order.len() && order[q] == j as usize;
                    assert(new_order[q + 1] == order[q]);
                }
                assert(new_order[0] == id);
                if first != 0 {
                    assert(order[0] == first);
                    assert(new_order[1] == first);
                }
            }
            assert forall|a: int, b: int| 0 <= a < b < new_order.len() implies new_order[a]
                != new_order[b] by {
                if a == 0 {
                    assert(order.contains(new_order[b]));
                } else {
                    assert(new_order[a] == order[a - 1]);
                    assert(new_order[b] == order[b - 1]);
                }
            }
        }
        self.order = Ghost(new_order);
    }
}


/// What unlinking member `order[i]` does to the links.
pub open spec fn unlinked_links(links: Seq<Link>, order: Seq<usize>, i: int) -> Seq<Link> {
    let r = cycle(order);
    let id = order[i];
    let pv = r[i];
    let nx = succ(r, i + 1);
    let l1 = links.update(pv as int, Link { next: Some(nx), prev: links[pv as int].prev });
    let l2 = l1.update(id as int, Link { next: None, prev: None });
    l2.update(nx as int, Link { next: l2[nx as int].next, prev: Some(pv) })
}

#[verifier::rlimit(60)]
proof fn lemma_unlink_preserves(links: Seq<Link>, order: Seq<usize>, i: int, links2: Seq<Link>)
    requires
        ring_wf(links, order),
        0 <= i < order.len(),
        links2 == unlinked_links(links, order, i),
    ensures
        ring_wf(links2, order.remove(i)),
{
    let r = cycle(order);
    let id = order[i];
    let pv = r[i];
    let nx = succ(r, i + 1);
    let new_order = order.remove(i);
    let r2 = cycle(new_order);
    assert(r[i + 1] == id);
    lemma_cycle_distinct(order);
    assert(r2 =~= r.remove(i + 1));
    assert forall|k: int| 0 <= k < r2.len() implies #[trigger] links2[r2[k] as int] == (Link {
        next: Some(succ(r2, k)),
        prev: Some(pred(r2, k)),
    }) by {
        let ko = if k <= i {
            k
        } else {
            k + 1
        };
        assert(r2[k] == r[ko]);
        assert(r[ko] != id);
        assert(links[r[ko] as int] == (Link { next: Some(succ(r, ko)), prev: Some(pred(r, ko)) }));
        assert(links[r[i] as int] == (Link { next: Some(succ(r, i)), prev: Some(pred(r, i)) }));
        if i + 2 < r.len() {
            assert(links[r[i + 2] as int] == (Link {
                next: Some(succ(r, i + 2)),
                prev: Some(pred(r, i + 2)),
            }));
        }
    }
    assert forall|j: usize|
        1 <= j < links2.len() && !new_order.contains(j) implies #[trigger] links2[j as int]
        == (Link { next: None, prev: None }) by {
        if j as usize != id {
            if order.contains(j as usize) {
                let q = choose|q: int| 0 <= q < order.len() && order[q] == j as usize;
                if q < i {
                    assert(new_order[q] == order[q]);
                } else {
                    assert(q != i);
                    assert(new_order[q - 1] == order[q]);
                }
            }
            if i > 0 {
                assert(pv == order[i - 1]);
                assert(new_order[i - 1] == order[i - 1]);
                assert(new_order.contains(pv));
            } else {
                assert(pv == 0);
            }
            if i + 1 < order.len() {
                assert(nx == r[i + 2]);
                assert(nx == order[i + 1]);
                assert(new_order[i] == order[i + 1]);
                assert(new_order.contains(nx));
            } else {
                assert(nx == 0);
            }
            assert(!order.contains(j as usize));
            assert(links[j as int] == (Link { next: None, prev: None }));
        } else {
            if i + 2 < r.len() {
                assert(nx == r[i + 2]);
            } else {
                assert(nx == r[0]);
            }
            assert(nx != id);
        }
    }
    assert forall|a: int, b: int| 0 <= a < b < new_order.len() implies new_order[a]
        != new_order[b] by {
        let ao = if a < i {
            a
        } else {
            a + 1
        };
        let bo = if b < i {
            b
        } else {
            b + 1
        };
        assert(new_order[a] == order[ao]);
        assert(new_order[b] == order[bo]);
    }
    assert forall|a: int| 0 <= a < new_order.len() implies 1 <= #[trigger] new_order[a]
        < links2.len() by {
        let ao = if a < i {
            a
        } else {
            a + 1
        };
        assert(new_order[a] == order[ao]);
    }
}

proof fn lemma_cycle_distinct(order: Seq<usize>)
    requires
        distinct(order),
        forall|i: int| 0 <= i < order.len() ==> 1 <= #[trigger] order[i],
    ensures
        distinct(cycle(order)),
{
    let r = cycle(order);
    assert forall|a: int, b: int| 0 <= a < b < r.len() implies r[a] != r[b] by {
        if a == 0 {
            assert(r[b] == order[b - 1]);
        } else {
            assert(r[a] == order[a - 1]);
            assert(r[b] == order[b - 1]);
        }
    }
}

pub proof fn lemma_without_absent(order: Seq<usize>, id: usize)
    requires
        !order.contains(id),
    ensures
        without(order, id) == order,
    decreases order.len(),
{
    reveal(Seq::filter);
    if order.len() > 0 {
        let p = order.drop_last();
        assert(!p.contains(id)) by {
            if p.contains(id) {
                let q = choose|q: int| 0 <= q < p.len() && p[q] == id;
                assert(order[q] == id);
            }
        }
        lemma_without_absent(p, id);
        assert(order.last() != id) by {
            assert(order[order.len() - 1] == order.last());
        }
        assert(order =~= p.push(order.last()));
    }
}

proof fn lemma_remove_is_without(order: Seq<usize>, i: int, id: usize)
    requires
        distinct(order),
        0 <= i < order.len(),
        order[i] == id,
    ensures
        without(order, id) == order.remove(i),
    decreases order.len(),
{
    reveal(Seq::filter);
    let p = order.drop_last();
    if i == order.len() - 1 {
        assert(!p.contains(id)) by {
            if p.contains(id) {
                let q = choose|q: int| 0 <= q < p.len() && p[q] == id;
                assert(order[q] == id);
            }
        }
        lemma_without_absent(p, id);
        assert(order.remove(i) =~= p);
        assert(order =~= p.push(id));
    } else {
        assert(distinct(p));
        lemma_remove_is_without(p, i, id);
        assert(order.last() != id);
        assert(order =~= p.push(order.last()));
        assert(order.remove(i) =~= p.remove(i).push(order.last()));
    }
}

/// Removing member `order[i]` by value removes exactly position `i`.
pub proof fn lemma_without_at(order: Seq<usize>, i: int)
    requires
        distinct(order),
        0 <= i < order.len(),
    ensures
        without(order, order[i]) == order.remove(i),
{
    lemma_remove_is_without(order, i, order[i]);
}

/// `id` is not in `order` once it has been removed.
pub proof fn lemma_not_in_without(order: Seq<usize>, id: usize)
    ensures
        !without(order, id).contains(id),
{
    let w = without(order, id);
    if w.contains(id) {
        let q = choose|q: int| 0 <= q < w.len() && w[q] == id;
        order.lemma_filter_pred(|x: usize| x != id, q);
    }
}

/// The neighbours of the sentinel and of the end members.
pub proof fn lemma_ring_ends(order: Seq<usize>)
    requires
        distinct(order),
        forall|i: int| 0 <= i < order.len() ==> 1 <= #[trigger] order[i],
    ensures
        ring_next(order, 0) == if order.len() > 0 {
            order[0]
        } else {
            0usize
        },
        ring_prev(order, 0) == if order.len() > 0 {
            order.last()
        } else {
            0usize
        },
        order.len() > 0 ==> ring_next(order, order[0]) == if order.len() > 1 {
            order[1]
        } else {
            0usize
        },
        order.len() > 0 ==> ring_prev(order, order.last()) == if order.len() > 1 {
            order[order.len() - 2]
        } else {
            0usize
        },
{
    let r = cycle(order);
    if order.len() > 0 {
        assert(1 <= order[0]);
        assert(1 <= order[order.len() - 1]);
        let w0 = 0int;
        assert(0 <= w0 < order.len() && order[w0] == order[0]);
        let wl = order.len() - 1;
        assert(0 <= wl < order.len() && order[wl] == order.last());
        {
            let p = position(order, order[0]);
            assert(0 <= p < order.len() && order[p] == order[0]);
            assert(p == 0);
        }
        {
            let p = position(order, order.last());
            assert(0 <= p < order.len() && order[p] == order.last());
            assert(p == order.len() - 1);
        }
    }
}

} // verus!
