//! Which directed links of a simulated mesh are cut: nodes can be isolated, groups
//! partitioned from each other, and the mesh healed.
use crate::consensus::types::NodeId;
use vstd::prelude::*;

verus! {

/// The cut links, as pairs of node ids; a cut is always in both directions.
#[derive(Debug, Clone)]
pub struct LinkTable {
    cut: Vec<(u64, u64)>,
}

impl View for LinkTable {
    type V = Set<(u64, u64)>;

    closed spec fn view(&self) -> Set<(u64, u64)> {
        self.cut@.to_set()
    }
}

/// Every cut link is cut both ways.
pub open spec fn symmetric(s: Set<(u64, u64)>) -> bool {
    forall|a: u64, b: u64| #[trigger] s.contains((a, b)) ==> s.contains((b, a))
}

/// The ids of a list of nodes.
pub open spec fn node_ids(v: Seq<NodeId>) -> Set<u64> {
    v.map_values(|n: NodeId| n.0).to_set()
}

impl LinkTable {
    /// A mesh with every link up.
    pub fn new() -> (r: Self)
        ensures
            r@ == Set::<(u64, u64)>::empty(),
    {
        let r = LinkTable { cut: Vec::new() };
        assert(r.cut@.to_set() =~= Set::<(u64, u64)>::empty());
        r
    }

    fn cut_both(&mut self, a: u64, b: u64)
        ensures
            final(self)@ == old(self)@.insert((a, b)).insert((b, a)),
    {
        let ghost s = self.cut@;
        self.cut.push((a, b));
        self.cut.push((b, a));
        assert(self.cut@ =~= s.push((a, b)).push((b, a)));
        assert(self.cut@.to_set() =~= s.to_set().insert((a, b)).insert((b, a))) by {
            assert forall|x: (u64, u64)| self.cut@.to_set().contains(x) <==> s.to_set().insert((a, b)).insert((b, a)).contains(x) by {
                if self.cut@.to_set().contains(x) {
                    let i = choose|i: int| 0 <= i < self.cut@.len() && self.cut@[i] == x;
                    if i < s.len() {
                        assert(s.contains(x));
                    }
                }
                if s.to_set().contains(x) {
                    let i = choose|i: int| 0 <= i < s.len() && s[i] == x;
                    assert(self.cut@[i] == x);
                }
                if x == (a, b) {
                    assert(self.cut@[s.len() as int] == x);
                }
                if x == (b, a) {
                    assert(self.cut@[s.len() as int + 1] == x);
                }
            }
        }
    }

    /// Cut every link between `node` and the other known nodes.
    pub fn isolate_node(&mut self, node: NodeId, known: &[NodeId])
        ensures
            final(self)@ == old(self)@.union(
                Set::new(
                    |p: (u64, u64)|
                        (p.0 == node.0 && p.1 != node.0 && node_ids(known@).contains(p.1)) || (p.1
                            == node.0 && p.0 != node.0 && node_ids(known@).contains(p.0)),
                ),
            ),
    {
        let ghost start = self@;
        let ghost ids = known@.map_values(|n: NodeId| n.0);
        let mut i: usize = 0;
        while i < known.len()
            invariant
                i <= known@.len(),
                ids == known@.map_values(|n: NodeId| n.0),
                self@ == start.union(
                    Set::new(
                        |p: (u64, u64)|
                            (p.0 == node.0 && p.1 != node.0 && ids.take(i as int).contains(p.1)) || (
                            p.1 == node.0 && p.0 != node.0 && ids.take(i as int).contains(p.0)),
                    ),
                ),
            decreases known.len() - i,
        {
            let other = known[i];
            let ghost before = self@;
            if other.0 != node.0 {
                self.cut_both(node.0, other.0);
            }
            proof {
                let t0 = ids.take(i as int);
                let t1 = ids.take(i as int + 1);
                assert(t1 =~= t0.push(other.0));
                assert forall|x: u64| t1.contains(x) <==> (t0.contains(x) || x == other.0) by {
                    if t1.contains(x) {
                        let j = choose|j: int| 0 <= j < t1.len() && t1[j] == x;
                        if j < t0.len() {
                            assert(t0[j] == x);
                        }
                    }
                    if t0.contains(x) {
                        let j = choose|j: int| 0 <= j < t0.len() && t0[j] == x;
                        assert(t1[j] == x);
                    }
                    if x == other.0 {
                        assert(t1[t0.len() as int] == x);
                    }
                }
                assert(self@ =~= start.union(
                    Set::new(
                        |p: (u64, u64)|
                            (p.0 == node.0 && p.1 != node.0 && t1.contains(p.1)) || (p.1 == node.0
                                && p.0 != node.0 && t1.contains(p.0)),
                    ),
                ));
            }
            i = i + 1;
        }
        proof {
            assert(ids.take(known@.len() as int) =~= ids);
            assert(node_ids(known@) == ids.to_set());
            assert forall|x: u64| ids.contains(x) <==> node_ids(known@).contains(x) by {
            }
            assert(self@ =~= start.union(
                Set::new(
                    |p: (u64, u64)|
                        (p.0 == node.0 && p.1 != node.0 && node_ids(known@).contains(p.1)) || (p.1
                            == node.0 && p.0 != node.0 && node_ids(known@).contains(p.0)),
                ),
            ));
        }
    }

    /// Cut every link between a node of `group_a` and a node of `group_b`, both ways.
    pub fn partition(&mut self, group_a: &[NodeId], group_b: &[NodeId])
        ensures
            final(self)@ == old(self)@.union(
                Set::new(
                    |p: (u64, u64)|
                        (node_ids(group_a@).contains(p.0) && node_ids(group_b@).contains(p.1)) || (
                        node_ids(group_b@).contains(p.0) && node_ids(group_a@).contains(p.1)),
                ),
            ),
    {
        let ghost start = self@;
        let ghost ia = group_a@.map_values(|n: NodeId| n.0);
        let ghost ib = group_b@.map_values(|n: NodeId| n.0);
        let mut i: usize = 0;
        while i < group_a.len()
            invariant
                i <= group_a@.len(),
                ia == group_a@.map_values(|n: NodeId| n.0),
                ib == group_b@.map_values(|n: NodeId| n.0),
                self@ == start.union(
                    Set::new(
                        |p: (u64, u64)|
                            (ia.take(i as int).contains(p.0) && ib.contains(p.1)) || (ib.contains(p.0)
                                && ia.take(i as int).contains(p.1)),
                    ),
                ),
            decreases group_a.len() - i,
        {
            let a = group_a[i];
            let ghost mid_start = self@;
            let mut j: usize = 0;
            while j < group_b.len()
                invariant
                    j <= group_b@.len(),
                    ib == group_b@.map_values(|n: NodeId| n.0),
                    self@ == mid_start.union(
                        Set::new(
                            |p: (u64, u64)|
                                (p.0 == a.0 && ib.take(j as int).contains(p.1)) || (ib.take(
                                    j as int,
                                ).contains(p.0) && p.1 == a.0),
                        ),
                    ),
                decreases group_b.len() - j,
            {
                let b = group_b[j];
                self.cut_both(a.0, b.0);
                proof {
                    let t0 = ib.take(j as int);
                    let t1 = ib.take(j as int + 1);
                    assert(t1 =~= t0.push(b.0));
                    assert forall|x: u64| t1.contains(x) <==> (t0.contains(x) || x == b.0) by {
                        if t1.contains(x) {
                            let k = choose|k: int| 0 <= k < t1.len() && t1[k] == x;
                            if k < t0.len() {
                                assert(t0[k] == x);
                            }
                        }
                        if t0.contains(x) {
                            let k = choose|k: int| 0 <= k < t0.len() && t0[k] == x;
                            assert(t1[k] == x);
                        }
                        if x == b.0 {
                            assert(t1[t0.len() as int] == x);
                        }
                    }
                    assert(self@ =~= mid_start.union(
                        Set::new(
                            |p: (u64, u64)|
                                (p.0 == a.0 && t1.contains(p.1)) || (t1.contains(p.0) && p.1 == a.0),
                        ),
                    ));
                }
                j = j + 1;
            }
            proof {
                assert(ib.take(group_b@.len() as int) =~= ib);
                let t0 = ia.take(i as int);
                let t1 = ia.take(i as int + 1);
                assert(t1 =~= t0.push(a.0));
                assert forall|x: u64| t1.contains(x) <==> (t0.contains(x) || x == a.0) by {
                    if t1.contains(x) {
                        let k = choose|k: int| 0 <= k < t1.len() && t1[k] == x;
                        if k < t0.len() {
                            assert(t0[k] == x);
                        }
                    }
                    if t0.contains(x) {
                        let k = choose|k: int| 0 <= k < t0.len() && t0[k] == x;
                        assert(t1[k] == x);
                    }
                    if x == a.0 {
                        assert(t1[t0.len() as int] == x);
                    }
                }
                assert(self@ =~= start.union(
                    Set::new(
                        |p: (u64, u64)|
                            (t1.contains(p.0) && ib.contains(p.1)) || (ib.contains(p.0) && t1.contains(p.1)),
                    ),
                ));
            }
            i = i + 1;
        }
        proof {
            assert(ia.take(group_a@.len() as int) =~= ia);
            assert forall|x: u64| ia.contains(x) <==> node_ids(group_a@).contains(x) by {
            }
            assert forall|x: u64| ib.contains(x) <==> node_ids(group_b@).contains(x) by {
            }
            assert(self@ =~= start.union(
                Set::new(
                    |p: (u64, u64)|
                        (node_ids(group_a@).contains(p.0) && node_ids(group_b@).contains(p.1)) || (
                        node_ids(group_b@).contains(p.0) && node_ids(group_a@).contains(p.1)),
                ),
            ));
        }
    }

    /// Restore every link.
    pub fn heal(&mut self)
        ensures
            final(self)@ == Set::<(u64, u64)>::empty(),
    {
        self.cut.clear();
        assert(self.cut@.to_set() =~= Set::<(u64, u64)>::empty());
    }

    /// Whether messages flow from `from` to `to`.
    pub fn is_connected(&self, from: NodeId, to: NodeId) -> (b: bool)
        ensures
            b == !self@.contains((from.0, to.0)),
    {
        let mut i: usize = 0;
        while i < self.cut.len()
            invariant
                i <= self.cut@.len(),
                forall|j: int| 0 <= j < i ==> self.cut@[j] != (from.0, to.0),
            decreases self.cut.len() - i,
        {
            if self.cut[i].0 == from.0 && self.cut[i].1 == to.0 {
                assert(self.cut@[i as int] == (from.0, to.0));
                return false;
            }
            i = i + 1;
        }
        proof {
            if self.cut@.to_set().contains((from.0, to.0)) {
                let j = choose|j: int| 0 <= j < self.cut@.len() && self.cut@[j] == (from.0, to.0);
                assert(self.cut@[j] != (from.0, to.0));
            }
        }
        true
    }
}

/// Cuts made by isolating nodes and partitioning groups are always symmetric: if `a`
/// cannot reach `b`, `b` cannot reach `a`.
pub proof fn law_cuts_symmetric(s: Set<(u64, u64)>, node: u64, known: Set<u64>, a: Set<u64>, b: Set<u64>)
    requires
        symmetric(s),
    ensures
        symmetric(s.union(Set::new(|p: (u64, u64)| (p.0 == node && p.1 != node && known.contains(p.1)) || (p.1 == node && p.0 != node && known.contains(p.0))))),
        symmetric(s.union(Set::new(|p: (u64, u64)| (a.contains(p.0) && b.contains(p.1)) || (b.contains(p.0) && a.contains(p.1))))),
{
}

} // verus!
