//! The shape of the bounding-volume hierarchy: which triangle leaves a
//! node reaches, well-formedness of the node array, and the lemmas the
//! builder's loop invariants rest on.
//!
//! Nodes are appended bottom-up, so both children of an internal node
//! have smaller indices than the node itself; recursion over a node
//! index therefore terminates.

use vstd::prelude::*;

use crate::geom::{box_fx, BoundingBox};

verus! {

/// A node either is a leaf for the triangle of its own index, or points
/// at two earlier nodes.
pub open spec fn bvh_node_wf(b: Seq<BoundingBox>, n: int, k: int) -> bool {
    let nd = b[k];
    (nd.left == -1 && nd.right == -1 && 0 <= k < n) || (0 <= nd.left && (nd.left as int) < k
        && 0 <= nd.right && (nd.right as int) < k)
}

/// The corners of a box are ordered componentwise.
pub open spec fn box_min_max(b: BoundingBox) -> bool {
    b.m1.x <= b.m2.x && b.m1.y <= b.m2.y && b.m1.z <= b.m2.z
}

/// The outer box encloses the inner box componentwise.
pub open spec fn box_contains(outer: BoundingBox, inner: BoundingBox) -> bool {
    outer.m1.x <= inner.m1.x && outer.m1.y <= inner.m1.y && outer.m1.z <= inner.m1.z
        && inner.m2.x <= outer.m2.x && inner.m2.y <= outer.m2.y && inner.m2.z <= outer.m2.z
}

/// Every box is ordered and encloses its children's boxes.
pub open spec fn bvh_boxes_wf(b: Seq<BoundingBox>) -> bool {
    forall|k: int|
        0 <= k < b.len() ==> box_min_max(#[trigger] b[k]) && (b[k].left != -1 ==> 0
            <= (b[k].left as int) && (b[k].left as int) < b.len() && 0 <= (b[k].right as int)
            && (b[k].right as int) < b.len() && box_contains(
            b[k],
            b[b[k].left as int],
        ) && box_contains(b[k], b[b[k].right as int]))
}

/// The triangle indices of the leaves reachable from node k, in order.
pub open spec fn leaves_of(b: Seq<BoundingBox>, k: int) -> Seq<int>
    decreases k,
{
    if !(0 <= k < b.len()) {
        Seq::empty()
    } else if b[k].left == -1 {
        seq![k]
    } else if 0 <= (b[k].left as int) && (b[k].left as int) < k && 0 <= (b[k].right as int)
        && (b[k].right as int) < k {
        leaves_of(b, b[k].left as int) + leaves_of(b, b[k].right as int)
    } else {
        Seq::empty()
    }
}

/// The leaves reachable from the nodes lo..hi taken as forest roots.
pub open spec fn forest_leaves(b: Seq<BoundingBox>, lo: int, hi: int) -> Seq<int>
    decreases hi - lo,
{
    if lo >= hi {
        Seq::empty()
    } else {
        leaves_of(b, lo) + forest_leaves(b, lo + 1, hi)
    }
}

/// The identity sequence 0, 1, ..., n-1 of triangle indices.
pub open spec fn all_tri_ids(n: int) -> Seq<int> {
    Seq::new(n as nat, |i: int| i)
}

/// Appending a node does not change what earlier nodes reach.
pub proof fn lemma_leaves_push(b: Seq<BoundingBox>, x: BoundingBox, k: int)
    requires
        0 <= k < b.len(),
    ensures
        leaves_of(b.push(x), k) == leaves_of(b, k),
    decreases k,
{
    let b2 = b.push(x);
    assert(b2[k] == b[k]);
    if b[k].left == -1 {
    } else if 0 <= (b[k].left as int) && (b[k].left as int) < k && 0 <= (b[k].right as int)
        && (b[k].right as int) < k {
        lemma_leaves_push(b, x, b[k].left as int);
        lemma_leaves_push(b, x, b[k].right as int);
    }
}

/// Appending a node does not change what an earlier forest reaches.
pub proof fn lemma_forest_push(b: Seq<BoundingBox>, x: BoundingBox, lo: int, hi: int)
    requires
        0 <= lo,
        hi <= b.len(),
    ensures
        forest_leaves(b.push(x), lo, hi) == forest_leaves(b, lo, hi),
    decreases hi - lo,
{
    if lo < hi {
        lemma_leaves_push(b, x, lo);
        lemma_forest_push(b, x, lo + 1, hi);
    }
}

/// A forest's leaves split at any interior point.
pub proof fn lemma_forest_split(b: Seq<BoundingBox>, lo: int, mid: int, hi: int)
    requires
        lo <= mid <= hi,
    ensures
        forest_leaves(b, lo, hi) == forest_leaves(b, lo, mid) + forest_leaves(b, mid, hi),
    decreases mid - lo,
{
    if lo >= mid {
        assert(forest_leaves(b, lo, mid) == Seq::<int>::empty());
        assert(forest_leaves(b, lo, mid) + forest_leaves(b, mid, hi) =~= forest_leaves(
            b,
            mid,
            hi,
        ));
    } else {
        lemma_forest_split(b, lo + 1, mid, hi);
        assert(leaves_of(b, lo) + (forest_leaves(b, lo + 1, mid) + forest_leaves(b, mid, hi))
            =~= (leaves_of(b, lo) + forest_leaves(b, lo + 1, mid)) + forest_leaves(b, mid, hi));
    }
}

/// A forest made only of leaf nodes reaches exactly its own index range.
pub proof fn lemma_forest_of_leaves(b: Seq<BoundingBox>, lo: int)
    requires
        0 <= lo <= b.len(),
        forall|k: int| lo <= k < b.len() ==> (#[trigger] b[k]).left == -1,
    ensures
        forest_leaves(b, lo, b.len() as int) == Seq::new((b.len() - lo) as nat, |i: int| lo + i),
    decreases b.len() - lo,
{
    if lo < b.len() {
        lemma_forest_of_leaves(b, lo + 1);
        assert(forest_leaves(b, lo, b.len() as int) =~= Seq::new(
            (b.len() - lo) as nat,
            |i: int| lo + i,
        ));
    } else {
        assert(forest_leaves(b, lo, b.len() as int) =~= Seq::new(
            (b.len() - lo) as nat,
            |i: int| lo + i,
        ));
    }
}

} // verus!
