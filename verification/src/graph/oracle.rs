//! The distance oracle's block pairs.
//!
//! For a point of interest, the oracle stores pairs of rectangular blocks
//! such that every shortest detour from a node of the first block through
//! the point of interest to a node of the second block is short enough.
//! The oracle answers a query for a start and an end coordinate with the
//! points of interest of the pairs that contain both.
//!
//! Which blocks contain a coordinate is a geometric question that a spatial
//! index answers; the index names block pairs by the position at which they
//! were added.  Each block of a pair is in the index under its pair's
//! position, so a coordinate "hits" a pair when it lies in either block.

use std::collections::{HashSet, VecDeque};

use vstd::prelude::*;

verus! {

broadcast use vstd::std_specs::hash::group_hash_axioms;

/// A pair of blocks and the point of interest they were built for.
#[derive(Debug, PartialEq)]
pub struct BlockPair<R> {
    pub s_block: R,
    pub t_block: R,
    pub poi_id: usize,
}

/// The block pairs of the oracle, in the order they were added.
pub struct Oracle<R> {
    block_pairs: Vec<BlockPair<R>>,
}

impl<R> View for Oracle<R> {
    type V = Seq<BlockPair<R>>;

    closed spec fn view(&self) -> Seq<BlockPair<R>> {
        self.block_pairs@
    }
}

/// The positions below `n` that both the start and the end hit, in
/// increasing order.
pub open spec fn common_pairs(n: nat, s_hits: Set<usize>, t_hits: Set<usize>) -> Seq<usize>
    decreases n,
{
    if n == 0 {
        Seq::empty()
    } else {
        let earlier = common_pairs((n - 1) as nat, s_hits, t_hits);
        let last = (n - 1) as usize;
        if s_hits.contains(last) && t_hits.contains(last) {
            earlier.push(last)
        } else {
            earlier
        }
    }
}

/// A position is among the common pairs exactly when it is below `n` and
/// both the start and the end hit it.
pub proof fn lemma_common_pairs_members(n: nat, s_hits: Set<usize>, t_hits: Set<usize>, p: usize)
    requires
        n <= usize::MAX + 1,
    ensures
        common_pairs(n, s_hits, t_hits).contains(p) <==> (p < n && s_hits.contains(p)
            && t_hits.contains(p)),
    decreases n,
{
    if n > 0 {
        lemma_common_pairs_members((n - 1) as nat, s_hits, t_hits, p);
        let earlier = common_pairs((n - 1) as nat, s_hits, t_hits);
        let last = (n - 1) as usize;
        if s_hits.contains(last) && t_hits.contains(last) {
            if p == last {
                assert(earlier.push(last)[earlier.len() as int] == p);
            }
            if earlier.push(last).contains(p) && p != last {
                let k = choose|k: int| 0 <= k < earlier.push(last).len() && earlier.push(last)[k] == p;
                assert(earlier[k] == p);
            }
            if earlier.contains(p) {
                let k = choose|k: int| 0 <= k < earlier.len() && earlier[k] == p;
                assert(earlier.push(last)[k] == p);
            }
        }
    }
}

/// Whether `p` occurs in `hits`.
fn hit(hits: &[usize], p: usize) -> (found: bool)
    ensures
        found == hits@.contains(p),
{
    let mut i: usize = 0;
    while i < hits.len()
        invariant
            i <= hits@.len(),
            forall|j: int| 0 <= j < i ==> hits@[j] != p,
        decreases hits@.len() - i,
    {
        if hits[i] == p {
            return true;
        }
        i = i + 1;
    }
    false
}

impl<R> Oracle<R> {
    pub fn new() -> (oracle: Self)
        ensures
            oracle@ == Seq::<BlockPair<R>>::empty(),
    {
        Oracle { block_pairs: Vec::new() }
    }

    /// Adds a block pair for point of interest `poi`; its position is
    /// returned.
    pub fn add_block_pair(&mut self, s_block: R, t_block: R, poi: usize) -> (position: usize)
        ensures
            final(self)@ == old(self)@.push(BlockPair { s_block, t_block, poi_id: poi }),
            position == old(self)@.len(),
    {
        let position = self.block_pairs.len();
        self.block_pairs.push(BlockPair { s_block, t_block, poi_id: poi });
        position
    }

    /// The block pair at `position`.
    pub fn block_pair(&self, position: usize) -> (pair: &BlockPair<R>)
        requires
            position < self@.len(),
        ensures
            *pair == self@[position as int],
    {
        &self.block_pairs[position]
    }

    /// The number of block pairs.
    pub fn len(&self) -> (n: usize)
        ensures
            n == self@.len(),
    {
        self.block_pairs.len()
    }

    /// The positions of the block pairs that contain both the start and the
    /// end, in the order they were added.  `s_hits` and `t_hits` are the
    /// positions the spatial index finds at the start and at the end.
    pub fn get_block_pairs(&self, s_hits: &[usize], t_hits: &[usize]) -> (positions: Vec<usize>)
        ensures
            positions@ == common_pairs(self@.len(), s_hits@.to_set(), t_hits@.to_set()),
    {
        let mut positions: Vec<usize> = Vec::new();
        let n = self.block_pairs.len();
        let mut i: usize = 0;
        while i < n
            invariant
                n == self@.len(),
                i <= n,
                positions@ == common_pairs(i as nat, s_hits@.to_set(), t_hits@.to_set()),
            decreases n - i,
        {
            let in_s = hit(s_hits, i);
            let in_t = hit(t_hits, i);
            proof {
                assert(in_s == s_hits@.to_set().contains(i));
                assert(in_t == t_hits@.to_set().contains(i));
            }
            if in_s && in_t {
                positions.push(i);
            }
            i = i + 1;
        }
        positions
    }

    /// The points of interest of the block pairs that contain both the start
    /// and the end.
    pub fn get_pois(&self, s_hits: &[usize], t_hits: &[usize]) -> (pois: HashSet<usize>)
        ensures
            forall|poi: usize|
                pois@.contains(poi) <==> exists|p: usize|
                    #![trigger self@[p as int]]
                    p < self@.len() && s_hits@.contains(p) && t_hits@.contains(p) && self@[p as int].poi_id == poi,
    {
        let positions = self.get_block_pairs(s_hits, t_hits);
        let ghost common = positions@;
        let n = self.block_pairs.len();
        proof {
            assert forall|k: int| 0 <= k < common.len() implies common[k] < self@.len() by {
                lemma_common_pairs_members(self@.len(), s_hits@.to_set(), t_hits@.to_set(), common[k]);
                assert(common.contains(common[k]));
            }
        }
        let mut pois: HashSet<usize> = HashSet::new();
        let mut i: usize = 0;
        while i < positions.len()
            invariant
                i <= positions@.len(),
                positions@ == common,
                common == common_pairs(self@.len(), s_hits@.to_set(), t_hits@.to_set()),
                forall|poi: usize|
                    pois@.contains(poi) <==> exists|k: int|
                        0 <= k < i && self@[common[k] as int].poi_id == poi,
                forall|k: int| 0 <= k < common.len() ==> common[k] < self@.len(),
            decreases positions@.len() - i,
        {
            let p = positions[i];
            let poi = self.block_pairs[p].poi_id;
            pois.insert(poi);
            proof {
                assert forall|q: usize|
                    pois@.contains(q) <==> exists|k: int|
                        0 <= k < i + 1 && self@[common[k] as int].poi_id == q by {
                    if q == poi {
                        assert(self@[common[i as int] as int].poi_id == q);
                    }
                }
            }
            i = i + 1;
        }
        proof {
            assert forall|poi: usize|
                pois@.contains(poi) <==> exists|p: usize|
                    #![trigger self@[p as int]]
                    p < self@.len() && s_hits@.contains(p) && t_hits@.contains(p)
                        && self@[p as int].poi_id == poi by {
                if pois@.contains(poi) {
                    let k = choose|k: int| 0 <= k < common.len() && self@[common[k] as int].poi_id == poi;
                    let p = common[k];
                    lemma_common_pairs_members(self@.len(), s_hits@.to_set(), t_hits@.to_set(), p);
                    assert(common.contains(p));
                    assert(s_hits@.to_set().contains(p));
                    assert(t_hits@.to_set().contains(p));
                }
                if exists|p: usize|
                    #![trigger self@[p as int]]
                    p < self@.len() && s_hits@.contains(p) && t_hits@.contains(p)
                        && self@[p as int].poi_id == poi {
                    let p = choose|p: usize|
                        #![trigger self@[p as int]]
                        p < self@.len() && s_hits@.contains(p) && t_hits@.contains(p)
                            && self@[p as int].poi_id == poi;
                    lemma_common_pairs_members(self@.len(), s_hits@.to_set(), t_hits@.to_set(), p);
                    assert(common.contains(p));
                    let k = choose|k: int| 0 <= k < common.len() && common[k] == p;
                }
            }
        }
        pois
    }

    /// The positions of the block pairs that a coordinate hits, one for each
    /// hit the spatial index reports, skipping positions beyond the oracle.
    pub fn get_blocks_at(&self, hits: &[usize]) -> (positions: Vec<usize>)
        ensures
            positions@ == hits@.filter(|p: usize| p < self@.len()),
    {
        let mut positions: Vec<usize> = Vec::new();
        let mut i: usize = 0;
        while i < hits.len()
            invariant
                i <= hits@.len(),
                positions@ == hits@.subrange(0, i as int).filter(|p: usize| p < self@.len()),
            decreases hits@.len() - i,
        {
            proof {
                reveal_with_fuel(Seq::filter, 1);
                assert(hits@.subrange(0, i + 1).drop_last() =~= hits@.subrange(0, i as int));
            }
            if hits[i] < self.block_pairs.len() {
                positions.push(hits[i]);
            }
            i = i + 1;
        }
        proof {
            assert(hits@.subrange(0, hits@.len() as int) =~= hits@);
        }
        positions
    }
}

/// What becomes of a block pair while the oracle is built.
#[derive(Debug, PartialEq, Eq, Structural)]
pub enum PairDecision {
    /// Both blocks are split into quarters and the quarters paired.
    Split,
    /// The pair is dropped.
    Discard,
    /// The pair is added to the oracle.
    Add,
}

/// The decision for a block pair.  `same_block` tells whether both blocks
/// are one block; `both_occupied` whether each block holds a graph node;
/// `bounds` are the outcomes of the in-path and not-in-path tests, when all
/// distances they need exist.
pub open spec fn block_pair_decision(
    same_block: bool,
    both_occupied: bool,
    bounds: Option<(bool, bool)>,
) -> PairDecision {
    if same_block {
        PairDecision::Split
    } else if !both_occupied {
        PairDecision::Discard
    } else {
        match bounds {
            None => PairDecision::Discard,
            Some((in_path, not_in_path)) => if in_path {
                PairDecision::Add
            } else if not_in_path {
                PairDecision::Discard
            } else {
                PairDecision::Split
            },
        }
    }
}

pub fn decide_block_pair(same_block: bool, both_occupied: bool, bounds: Option<(bool, bool)>) -> (decision: PairDecision)
    ensures
        decision == block_pair_decision(same_block, both_occupied, bounds),
{
    if same_block {
        return PairDecision::Split;
    }
    if !both_occupied {
        return PairDecision::Discard;
    }
    match bounds {
        None => PairDecision::Discard,
        Some((in_path, not_in_path)) => {
            if in_path {
                PairDecision::Add
            } else if not_in_path {
                PairDecision::Discard
            } else {
                PairDecision::Split
            }
        },
    }
}

/// Every block of `a` paired with every block of `b`, row by row.
pub fn child_block_pairs<B: Copy>(a: &[B], b: &[B]) -> (pairs: Vec<(B, B)>)
    requires
        a@.len() * b@.len() <= usize::MAX,
    ensures
        pairs@.len() == a@.len() * b@.len(),
        forall|i: int, j: int|
            0 <= i < a@.len() && 0 <= j < b@.len() ==> #[trigger] pairs@[i * b@.len() + j] == (
                a@[i],
                b@[j],
            ),
{
    let mut pairs: Vec<(B, B)> = Vec::new();
    let m = b.len();
    let mut i: usize = 0;
    while i < a.len()
        invariant
            m == b@.len(),
            i <= a@.len(),
            a@.len() * m <= usize::MAX,
            pairs@.len() == i * m,
            forall|x: int, y: int|
                0 <= x < i && 0 <= y < m ==> #[trigger] pairs@[x * m + y] == (a@[x], b@[y]),
        decreases a@.len() - i,
    {
        let mut j: usize = 0;
        while j < m
            invariant
                m == b@.len(),
                i < a@.len(),
                j <= m,
                a@.len() * m <= usize::MAX,
                pairs@.len() == i * m + j,
                forall|x: int, y: int|
                    0 <= x < i && 0 <= y < m ==> #[trigger] pairs@[x * m + y] == (a@[x], b@[y]),
                forall|y: int| 0 <= y < j ==> #[trigger] pairs@[i * m + y] == (a@[i as int], b@[y]),
            decreases m - j,
        {
            proof {
                assert((i + 1) * m <= a@.len() * m) by (nonlinear_arith)
                    requires
                        i + 1 <= a@.len(),
                ;
                assert(i * m + j < (i + 1) * m) by (nonlinear_arith)
                    requires
                        j < m,
                ;
            }
            pairs.push((a[i], b[j]));
            proof {
                assert forall|x: int, y: int| 0 <= x < i && 0 <= y < m implies #[trigger] pairs@[x * m
                    + y] == (a@[x], b@[y]) by {
                    assert(x * m + y < i * m) by (nonlinear_arith)
                        requires
                            x < i,
                            y < m,
                            0 <= y,
                    ;
                }
            }
            j = j + 1;
        }
        proof {
            assert((i + 1) * m == i * m + m) by (nonlinear_arith);
        }
        i = i + 1;
    }
    pairs
}

/// A child pair is kept unless both blocks hold the same single node.
/// `a_nodes` and `b_nodes` are the ids of the nodes in the two blocks, as a
/// spatial query reports them.
pub fn keep_child_pair(a_nodes: &[usize], b_nodes: &[usize]) -> (keep: bool)
    ensures
        keep == !(a_nodes@.len() == 1 && a_nodes@ == b_nodes@),
{
    if a_nodes.len() != 1 || b_nodes.len() != 1 {
        proof {
            if a_nodes@.len() == 1 && a_nodes@ == b_nodes@ {
                assert(b_nodes@.len() == 1);
            }
        }
        return true;
    }
    if a_nodes[0] == b_nodes[0] {
        assert(a_nodes@ =~= b_nodes@);
        false
    } else {
        true
    }
}

/// The pairs of the product of `a` and `b`, row by row, that `keep` keeps;
/// `keep` has one flag per pair of the product.
pub open spec fn kept_pairs<B>(a: Seq<B>, b: Seq<B>, keep: Seq<bool>) -> Seq<(B, B)>
    decreases keep.len(),
{
    if keep.len() == 0 || b.len() == 0 {
        Seq::empty()
    } else {
        let k = keep.len() - 1;
        let earlier = kept_pairs(a, b, keep.drop_last());
        if keep[k] {
            earlier.push((a[k / b.len() as int], b[k % b.len() as int]))
        } else {
            earlier
        }
    }
}

/// The positions of the set flags, in increasing order.
spec fn set_flags(keep: Seq<bool>) -> Seq<int>
    decreases keep.len(),
{
    if keep.len() == 0 {
        Seq::empty()
    } else if keep.last() {
        set_flags(keep.drop_last()).push(keep.len() - 1)
    } else {
        set_flags(keep.drop_last())
    }
}

proof fn lemma_set_flags<B>(a: Seq<B>, b: Seq<B>, keep: Seq<bool>)
    requires
        keep.len() == 0 || b.len() > 0,
    ensures
        set_flags(keep).len() == kept_pairs(a, b, keep).len(),
        forall|t: int, u: int|
            0 <= t < u < set_flags(keep).len() ==> #[trigger] set_flags(keep)[t] < #[trigger] set_flags(
                keep,
            )[u],
        forall|t: int|
            0 <= t < set_flags(keep).len() ==> {
                let p = #[trigger] set_flags(keep)[t];
                &&& 0 <= p < keep.len()
                &&& keep[p]
                &&& kept_pairs(a, b, keep)[t] == (a[p / b.len() as int], b[p % b.len() as int])
            },
        forall|k: int| 0 <= k < keep.len() && #[trigger] keep[k] ==> set_flags(keep).contains(k),
    decreases keep.len(),
{
    if keep.len() > 0 {
        let pk = keep.drop_last();
        lemma_set_flags(a, b, pk);
        let n = keep.len() - 1;
        let before = set_flags(pk);
        assert forall|k: int| 0 <= k < keep.len() && #[trigger] keep[k] implies set_flags(keep).contains(k) by {
            if k < n {
                assert(pk[k] == keep[k]);
                let t = choose|t: int| 0 <= t < before.len() && before[t] == k;
                assert(set_flags(keep)[t] == k);
            } else {
                assert(set_flags(keep)[before.len() as int] == k);
            }
        }
        assert forall|t: int| 0 <= t < set_flags(keep).len() implies {
            let p = #[trigger] set_flags(keep)[t];
            &&& 0 <= p < keep.len()
            &&& keep[p]
            &&& kept_pairs(a, b, keep)[t] == (a[p / b.len() as int], b[p % b.len() as int])
        } by {
            if t < before.len() {
                let p = before[t];
                assert(pk[p] == keep[p]);
            }
        }
    }
}

/// The children queued after a split are exactly the kept pairs of the
/// product, row by row: listing the set flags of `keep` in increasing
/// order, every one of them and nothing else, the `t`-th queued pair is
/// `(a[i], b[j])` for the `t`-th set flag `i * b.len() + j`.  So one pair is
/// queued per set flag, none is lost or repeated, and their order is the
/// order of the flags.
pub proof fn law_split_queues_every_kept_pair<B>(a: Seq<B>, b: Seq<B>, keep: Seq<bool>)
    requires
        keep.len() == a.len() * b.len(),
    ensures
        exists|flags: Seq<int>|
            {
                &&& flags.len() == kept_pairs(a, b, keep).len()
                &&& forall|t: int, u: int|
                    0 <= t < u < flags.len() ==> #[trigger] flags[t] < #[trigger] flags[u]
                &&& forall|t: int|
                    0 <= t < flags.len() ==> {
                        let p = #[trigger] flags[t];
                        &&& 0 <= p < keep.len()
                        &&& keep[p]
                        &&& kept_pairs(a, b, keep)[t] == (a[p / b.len() as int], b[p % b.len() as int])
                    }
                &&& forall|k: int| 0 <= k < keep.len() && #[trigger] keep[k] ==> flags.contains(k)
            },
{
    if b.len() == 0 {
        assert(a.len() * b.len() == 0) by (nonlinear_arith)
            requires
                b.len() == 0,
        ;
    }
    lemma_set_flags(a, b, keep);
    let flags = set_flags(keep);
    assert(flags.len() == kept_pairs(a, b, keep).len());
}

/// The block pairs still to be examined while the oracle is built for one
/// point of interest, examined first in, first out.
pub struct SplitQueue<B> {
    queue: VecDeque<(B, B)>,
}

impl<B> View for SplitQueue<B> {
    type V = Seq<(B, B)>;

    closed spec fn view(&self) -> Seq<(B, B)> {
        self.queue@
    }
}

impl<B: Copy> SplitQueue<B> {
    /// The search starts with the pair of the whole graph's bounding block
    /// with itself.
    pub fn new(root: B) -> (queue: Self)
        ensures
            queue@ == seq![(root, root)],
    {
        let mut queue = VecDeque::new();
        queue.push_back((root, root));
        assert(queue@ =~= seq![(root, root)]);
        SplitQueue { queue }
    }

    /// The next pair to examine.
    pub fn pop(&mut self) -> (pair: Option<(B, B)>)
        ensures
            old(self)@.len() == 0 ==> pair is None && final(self)@ == old(self)@,
            old(self)@.len() > 0 ==> pair == Some(old(self)@[0]) && final(self)@ == old(self)@.drop_first(),
    {
        let pair = self.queue.pop_front();
        proof {
            if old(self)@.len() > 0 {
                assert(self.queue@ =~= old(self)@.drop_first());
            }
        }
        pair
    }

    /// Queues the children of a split pair: every quarter `a[i]` of the first
    /// block with every quarter `b[j]` of the second, row by row, unless
    /// `keep[i * b.len() + j]` drops the pair.
    pub fn push_children(&mut self, a: &[B], b: &[B], keep: &[bool])
        requires
            keep@.len() == a@.len() * b@.len(),
        ensures
            final(self)@ == old(self)@ + kept_pairs(a@, b@, keep@),
    {
        let m = b.len();
        let mut k: usize = 0;
        let ghost start = self.queue@;
        if m == 0 {
            assert(kept_pairs(a@, b@, keep@) =~= Seq::<(B, B)>::empty());
            return;
        }
        while k < keep.len()
            invariant
                m == b@.len(),
                m > 0,
                keep@.len() == a@.len() * m,
                k <= keep@.len(),
                self.queue@ == start + kept_pairs(a@, b@, keep@.subrange(0, k as int)),
            decreases keep@.len() - k,
        {
            proof {
                assert(keep@.subrange(0, k + 1).drop_last() =~= keep@.subrange(0, k as int));
                assert(k / m < a@.len()) by (nonlinear_arith)
                    requires
                        k < a@.len() * m,
                        m > 0,
                ;
            }
            if keep[k] {
                let i = k / m;
                let j = k % m;
                self.queue.push_back((a[i], b[j]));
                proof {
                    assert(self.queue@ =~= start + kept_pairs(a@, b@, keep@.subrange(0, k + 1)));
                }
            } else {
                proof {
                    assert(self.queue@ =~= start + kept_pairs(a@, b@, keep@.subrange(0, k + 1)));
                }
            }
            k = k + 1;
        }
        proof {
            assert(keep@.subrange(0, keep@.len() as int) =~= keep@);
        }
    }
}

/// The state of building the oracle's block pairs for one point of
/// interest: the pairs still to examine and the point they are built for.
pub struct OracleBuild<B> {
    pending: SplitQueue<B>,
    poi: usize,
}

impl<B: Copy> OracleBuild<B> {
    /// The pairs still to examine, in the order they will be examined.
    pub closed spec fn pending(&self) -> Seq<(B, B)> {
        self.pending@
    }

    /// The point of interest the pairs are built for.
    pub closed spec fn poi(&self) -> usize {
        self.poi
    }

    /// A build for `poi` that starts from the graph's bounding block `root`
    /// paired with itself.
    pub fn new(root: B, poi: usize) -> (build: Self)
        ensures
            build.pending() == seq![(root, root)],
            build.poi() == poi,
    {
        OracleBuild { pending: SplitQueue::new(root), poi }
    }

    /// The next pair to examine, or `None` when the build is finished.
    pub fn next_pair(&mut self) -> (pair: Option<(B, B)>)
        ensures
            final(self).poi() == old(self).poi(),
            old(self).pending().len() == 0 ==> pair is None && final(self).pending() == old(
                self,
            ).pending(),
            old(self).pending().len() > 0 ==> pair == Some(old(self).pending()[0])
                && final(self).pending() == old(self).pending().drop_first(),
    {
        self.pending.pop()
    }

    /// Decides on an examined pair (see `block_pair_decision`) and, when the
    /// pair is good enough, adds it to `oracle` for this build's point of
    /// interest.  After a `Split`, the caller hands the pair's occupied
    /// quarters to `split`.
    pub fn examine(
        &self,
        oracle: &mut Oracle<B>,
        pair: (B, B),
        same_block: bool,
        both_occupied: bool,
        bounds: Option<(bool, bool)>,
    ) -> (decision: PairDecision)
        ensures
            decision == block_pair_decision(same_block, both_occupied, bounds),
            decision == PairDecision::Add ==> final(oracle)@ == old(oracle)@.push(
                BlockPair { s_block: pair.0, t_block: pair.1, poi_id: self.poi() },
            ),
            decision != PairDecision::Add ==> final(oracle)@ == old(oracle)@,
    {
        let decision = decide_block_pair(same_block, both_occupied, bounds);
        if decision == PairDecision::Add {
            oracle.add_block_pair(pair.0, pair.1, self.poi);
        }
        decision
    }

    /// Queues the children of a split pair (see `SplitQueue::push_children`).
    pub fn split(&mut self, a: &[B], b: &[B], keep: &[bool])
        requires
            keep@.len() == a@.len() * b@.len(),
        ensures
            final(self).poi() == old(self).poi(),
            final(self).pending() == old(self).pending() + kept_pairs(a@, b@, keep@),
    {
        self.pending.push_children(a, b, keep);
    }
}

/// A pair is added to the oracle exactly when its two blocks differ, both
/// hold a graph node, all distances the tests need exist, and the in-path
/// test passes; a pair whose two blocks are one block is always split.
pub proof fn law_added_pairs_pass_in_path(
    same_block: bool,
    both_occupied: bool,
    bounds: Option<(bool, bool)>,
)
    ensures
        (block_pair_decision(same_block, both_occupied, bounds) == PairDecision::Add) <==> (
        !same_block && both_occupied && bounds is Some && bounds.unwrap().0),
        same_block ==> block_pair_decision(same_block, both_occupied, bounds)
            == PairDecision::Split,
{
}

/// A query's answer does not depend on which of its two coordinates is
/// the start: both blocks of a pair are indexed under the pair.
pub proof fn law_get_block_pairs_symmetric(n: nat, s_hits: Set<usize>, t_hits: Set<usize>)
    ensures
        common_pairs(n, s_hits, t_hits) == common_pairs(n, t_hits, s_hits),
    decreases n,
{
    if n > 0 {
        law_get_block_pairs_symmetric((n - 1) as nat, s_hits, t_hits);
    }
}

/// Adding a block pair never takes an answer away: the answer before is a
/// prefix of the answer after.
pub proof fn law_adding_pair_keeps_answers(n: nat, s_hits: Set<usize>, t_hits: Set<usize>)
    ensures
        common_pairs(n, s_hits, t_hits).is_prefix_of(common_pairs(n + 1, s_hits, t_hits)),
{
    let before = common_pairs(n, s_hits, t_hits);
    let after = common_pairs(n + 1, s_hits, t_hits);
    assert(after == before || after == before.push(n as usize));
    assert(before.len() <= after.len());
    assert forall|i: int| 0 <= i < before.len() implies before[i] == after[i] by {}
}

} // verus!
