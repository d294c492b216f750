//! Construction of a bounding-volume hierarchy over a triangle mesh.
//!
//! The hierarchy is a flat array of nodes addressed by index, together with a
//! lookup array: a permutation of the triangle indices in which the triangles
//! of every node stand side by side.

use vstd::prelude::*;
use crate::geometry::{Aabb, Vec3};
use crate::triangle::{Node, Triangle};

verus! {

/// The most triangles, points or normals that one mesh may hold.
pub const MAX_MODEL_VERTICES: usize = 512000;

/// All three corners of `t` name a point of the mesh.
pub open spec fn tri_valid(points: Seq<Vec3>, t: Triangle) -> bool {
    &&& 0 <= t.p1 < points.len()
    &&& 0 <= t.p2 < points.len()
    &&& 0 <= t.p3 < points.len()
}

/// Every triangle of the mesh names points of the mesh.
pub open spec fn mesh_valid(points: Seq<Vec3>, tris: Seq<Triangle>) -> bool {
    forall|i: int| 0 <= i < tris.len() ==> tri_valid(points, #[trigger] tris[i])
}

/// `lookup` holds every index below `n` exactly once.
pub open spec fn is_permutation(lookup: Seq<i32>, n: int) -> bool {
    &&& lookup.len() == n
    &&& forall|k: int| 0 <= k < n ==> 0 <= #[trigger] lookup[k] < n
    &&& forall|a: int, b: int| 0 <= a < b < n ==> lookup[a] != lookup[b]
}

/// The box `b` contains all three corners of `t`.
pub open spec fn tri_in_box(points: Seq<Vec3>, t: Triangle, b: Aabb) -> bool {
    &&& b.contains(points[t.p1 as int])
    &&& b.contains(points[t.p2 as int])
    &&& b.contains(points[t.p3 as int])
}

/// The box `b` contains every triangle that `lookup` names in `[lo, hi)`.
pub open spec fn range_in_box(
    points: Seq<Vec3>,
    tris: Seq<Triangle>,
    lookup: Seq<i32>,
    lo: int,
    hi: int,
    b: Aabb,
) -> bool {
    forall|k: int| lo <= k < hi ==> tri_in_box(points, tris[(#[trigger] lookup[k]) as int], b)
}

/// `b` is the bounding box of the triangles that `lookup` names in `[lo, hi)`:
/// it contains them all, and lies within every box that does. Of an empty
/// range it is the empty box.
#[verifier::opaque]
pub open spec fn is_range_bounds(
    points: Seq<Vec3>,
    tris: Seq<Triangle>,
    lookup: Seq<i32>,
    lo: int,
    hi: int,
    b: Aabb,
) -> bool {
    &&& range_in_box(points, tris, lookup, lo, hi, b)
    &&& forall|o: Aabb| #[trigger] range_in_box(points, tris, lookup, lo, hi, o) ==> b.within(o)
}

/// The sum of the three corners' coordinates on `axis`: three times the
/// centroid's coordinate.
pub open spec fn corner_sum(points: Seq<Vec3>, t: Triangle, axis: int) -> int {
    points[t.p1 as int].axis(axis) + points[t.p2 as int].axis(axis) + points[t.p3 as int].axis(
        axis,
    )
}

/// The centroid of `t` lies strictly before the midpoint of `b` on `axis`.
pub open spec fn on_left(points: Seq<Vec3>, t: Triangle, axis: int, b: Aabb) -> bool {
    2 * corner_sum(points, t, axis) < 3 * (b.min.axis(axis) + b.max.axis(axis))
}

/// Every triangle that `lookup` names in `[lo, hi)` lies on one side of the
/// midpoint of `b` on `axis`: before it where `left` holds, else not before it.
pub open spec fn range_side(
    points: Seq<Vec3>,
    tris: Seq<Triangle>,
    lookup: Seq<i32>,
    lo: int,
    hi: int,
    axis: int,
    b: Aabb,
    left: bool,
) -> bool {
    forall|k: int|
        lo <= k < hi ==> on_left(points, tris[(#[trigger] lookup[k]) as int], axis, b) == left
}

/// `v` occurs in `s` somewhere in `[lo, hi)`.
pub open spec fn range_has(s: Seq<i32>, lo: int, hi: int, v: i32) -> bool {
    exists|k: int| lo <= k < hi && (#[trigger] s[k]) == v
}

/// Whatever `a` holds in `[lo, hi)`, `b` holds in `[lo, hi)` too.
#[verifier::opaque]
pub open spec fn range_subset(a: Seq<i32>, b: Seq<i32>, lo: int, hi: int) -> bool {
    forall|k: int| lo <= k < hi ==> range_has(b, lo, hi, #[trigger] a[k])
}

/// `a` and `b` hold the same values in `[lo, hi)`, in whatever order.
pub open spec fn same_elements(a: Seq<i32>, b: Seq<i32>, lo: int, hi: int) -> bool {
    &&& a.len() == b.len()
    &&& range_subset(a, b, lo, hi)
    &&& range_subset(b, a, lo, hi)
}

/// `a` and `b` agree at every position outside `[lo, hi)`.
pub open spec fn same_outside(a: Seq<i32>, b: Seq<i32>, lo: int, hi: int) -> bool {
    &&& a.len() == b.len()
    &&& forall|k: int| 0 <= k < a.len() && !(lo <= k < hi) ==> a[k] == b[k]
}

/// `a` and `b` agree at every position of `[lo, hi)`.
pub open spec fn same_inside(a: Seq<i32>, b: Seq<i32>, lo: int, hi: int) -> bool {
    &&& a.len() == b.len()
    &&& forall|k: int| lo <= k < hi ==> a[k] == b[k]
}

/// A box that contains what a range holds contains what any range holds
/// that holds no other values.
pub proof fn lemma_subset_in_box(
    points: Seq<Vec3>,
    tris: Seq<Triangle>,
    a: Seq<i32>,
    b: Seq<i32>,
    lo: int,
    hi: int,
    o: Aabb,
)
    requires
        range_subset(a, b, lo, hi),
        range_in_box(points, tris, b, lo, hi, o),
    ensures
        range_in_box(points, tris, a, lo, hi, o),
{
    reveal(range_subset);
    assert forall|k: int| lo <= k < hi implies tri_in_box(
        points,
        tris[(#[trigger] a[k]) as int],
        o,
    ) by {
        assert(range_has(b, lo, hi, a[k]));
        let k0 = choose|k0: int| lo <= k0 < hi && (#[trigger] b[k0]) == a[k];
        assert(tri_in_box(points, tris[b[k0] as int], o));
    }
}

/// Triangles that all lie on one side stay on that side in any range that
/// holds no others.
pub proof fn lemma_subset_side(
    points: Seq<Vec3>,
    tris: Seq<Triangle>,
    a: Seq<i32>,
    b: Seq<i32>,
    lo: int,
    hi: int,
    axis: int,
    o: Aabb,
    left: bool,
)
    requires
        range_subset(a, b, lo, hi),
        range_side(points, tris, b, lo, hi, axis, o, left),
    ensures
        range_side(points, tris, a, lo, hi, axis, o, left),
{
    reveal(range_subset);
    assert forall|k: int| lo <= k < hi implies on_left(
        points,
        tris[(#[trigger] a[k]) as int],
        axis,
        o,
    ) == left by {
        assert(range_has(b, lo, hi, a[k]));
        let k0 = choose|k0: int| lo <= k0 < hi && (#[trigger] b[k0]) == a[k];
        assert(on_left(points, tris[b[k0] as int], axis, o) == left);
    }
}

/// A bounding box stays one when the range is reordered.
pub proof fn lemma_bounds_reordered(
    points: Seq<Vec3>,
    tris: Seq<Triangle>,
    a: Seq<i32>,
    b: Seq<i32>,
    lo: int,
    hi: int,
    bx: Aabb,
)
    requires
        same_elements(a, b, lo, hi),
        is_range_bounds(points, tris, a, lo, hi, bx),
    ensures
        is_range_bounds(points, tris, b, lo, hi, bx),
{
    reveal(is_range_bounds);
    lemma_subset_in_box(points, tris, b, a, lo, hi, bx);
    assert forall|o: Aabb| #[trigger] range_in_box(points, tris, b, lo, hi, o) implies bx.within(
        o,
    ) by {
        lemma_subset_in_box(points, tris, a, b, lo, hi, o);
    }
}

/// Arrays that agree throughout a range hold the same values in it.
pub proof fn lemma_same_inside_is_same_elements(a: Seq<i32>, b: Seq<i32>, lo: int, hi: int)
    requires
        same_inside(a, b, lo, hi),
    ensures
        same_elements(a, b, lo, hi),
{
    reveal(range_subset);
    assert forall|k: int| lo <= k < hi implies range_has(b, lo, hi, #[trigger] a[k]) by {
        assert(b[k] == a[k]);
    }
    assert forall|k: int| lo <= k < hi implies range_has(a, lo, hi, #[trigger] b[k]) by {
        assert(a[k] == b[k]);
    }
}

/// Holding no other values is transitive.
pub proof fn lemma_subset_transitive(a: Seq<i32>, b: Seq<i32>, c: Seq<i32>, lo: int, hi: int)
    requires
        range_subset(a, b, lo, hi),
        range_subset(b, c, lo, hi),
    ensures
        range_subset(a, c, lo, hi),
{
    reveal(range_subset);
    assert forall|k: int| lo <= k < hi implies range_has(c, lo, hi, #[trigger] a[k]) by {
        assert(range_has(b, lo, hi, a[k]));
        let k0 = choose|k0: int| lo <= k0 < hi && (#[trigger] b[k0]) == a[k];
        assert(range_has(c, lo, hi, b[k0]));
    }
}

/// Holding the same values is transitive.
pub proof fn lemma_same_elements_transitive(
    a: Seq<i32>,
    b: Seq<i32>,
    c: Seq<i32>,
    lo: int,
    hi: int,
)
    requires
        same_elements(a, b, lo, hi),
        same_elements(b, c, lo, hi),
    ensures
        same_elements(a, c, lo, hi),
{
    lemma_subset_transitive(a, b, c, lo, hi);
    lemma_subset_transitive(c, b, a, lo, hi);
}

/// What holds the same values in a part of a range, and agrees in the rest of
/// it, holds the same values in the whole range.
pub proof fn lemma_subset_widen(
    a: Seq<i32>,
    b: Seq<i32>,
    lo: int,
    hi: int,
    inner_lo: int,
    inner_hi: int,
)
    requires
        lo <= inner_lo <= inner_hi <= hi,
        range_subset(a, b, inner_lo, inner_hi),
        a.len() == b.len(),
        forall|k: int| lo <= k < hi && !(inner_lo <= k < inner_hi) ==> a[k] == b[k],
    ensures
        range_subset(a, b, lo, hi),
{
    reveal(range_subset);
    assert forall|k: int| lo <= k < hi implies range_has(b, lo, hi, #[trigger] a[k]) by {
        if inner_lo <= k < inner_hi {
            assert(range_has(b, inner_lo, inner_hi, a[k]));
            let k0 = choose|k0: int| inner_lo <= k0 < inner_hi && (#[trigger] b[k0]) == a[k];
            assert(lo <= k0 < hi && b[k0] == a[k]);
        } else {
            assert(b[k] == a[k]);
        }
    }
}

/// What holds the same values in a part of a range, and agrees outside that
/// part, holds the same values in the whole range.
pub proof fn lemma_same_elements_widen(
    a: Seq<i32>,
    b: Seq<i32>,
    lo: int,
    hi: int,
    inner_lo: int,
    inner_hi: int,
)
    requires
        0 <= lo <= inner_lo <= inner_hi <= hi <= a.len(),
        same_elements(a, b, inner_lo, inner_hi),
        same_outside(a, b, inner_lo, inner_hi),
    ensures
        same_elements(a, b, lo, hi),
{
    lemma_subset_widen(a, b, lo, hi, inner_lo, inner_hi);
    lemma_subset_widen(b, a, lo, hi, inner_lo, inner_hi);
}

/// Tells whether the centroid of `t` lies before the midpoint of `bounds` on
/// `axis`.
pub fn centroid_before_split(points: &Vec<Vec3>, t: &Triangle, axis: usize, bounds: &Aabb) -> (left:
    bool)
    requires
        tri_valid(points@, *t),
        axis < 3,
    ensures
        left == on_left(points@, *t, axis as int, *bounds),
{
    let a: i64 = points[t.p1 as usize].get(axis) as i64;
    let b: i64 = points[t.p2 as usize].get(axis) as i64;
    let c: i64 = points[t.p3 as usize].get(axis) as i64;
    let lo: i64 = bounds.min.get(axis) as i64;
    let hi: i64 = bounds.max.get(axis) as i64;
    2 * (a + b + c) < 3 * (lo + hi)
}

/// Computes the bounding box of the `count` triangles that `lookup` names
/// from `start` on.
pub fn update_bounds(
    points: &Vec<Vec3>,
    tris: &Vec<Triangle>,
    lookup: &Vec<i32>,
    start: usize,
    count: usize,
) -> (bounds: Aabb)
    requires
        mesh_valid(points@, tris@),
        is_permutation(lookup@, tris.len() as int),
        start + count <= tris.len(),
    ensures
        is_range_bounds(points@, tris@, lookup@, start as int, start + count, bounds),
{
    let mut bounds = Aabb::new_empty();
    let mut i: usize = 0;
    proof {
        reveal(is_range_bounds);
    }
    while i < count
        invariant
            mesh_valid(points@, tris@),
            is_permutation(lookup@, tris.len() as int),
            start + count <= tris.len(),
            i <= count,
            is_range_bounds(points@, tris@, lookup@, start as int, start + i, bounds),
        decreases count - i,
    {
        let ghost before = bounds;
        let ghost end = start + i;
        let t = tris[lookup[start + i] as usize];
        let p1 = points[t.p1 as usize];
        let p2 = points[t.p2 as usize];
        let p3 = points[t.p3 as usize];
        bounds.extend(p1);
        bounds.extend(p2);
        bounds.extend(p3);
        i += 1;
        proof {
            reveal(is_range_bounds);
            assert(start + i == end + 1);
            assert(is_range_bounds(points@, tris@, lookup@, start as int, end, before));
            assert(before.within(bounds));
            assert forall|k: int| start <= k < start + i implies tri_in_box(
                points@,
                tris@[(#[trigger] lookup@[k]) as int],
                bounds,
            ) by {
                if k < end {
                    assert(tri_in_box(points@, tris@[lookup@[k] as int], before));
                }
            }
            assert forall|o: Aabb| #[trigger]
                range_in_box(points@, tris@, lookup@, start as int, start + i, o) implies bounds.within(
                o,
            ) by {
                assert forall|k: int| start <= k < end implies tri_in_box(
                    points@,
                    tris@[(#[trigger] lookup@[k]) as int],
                    o,
                ) by {}
                assert(range_in_box(points@, tris@, lookup@, start as int, end, o));
                assert(tri_in_box(points@, tris@[lookup@[end] as int], o));
                assert(before.within(o));
            }
        }
    }
    bounds
}

/// Reorders the `count` lookup entries from `start` on so that the triangles
/// whose centroid lies before the midpoint of `bounds` on `axis` come first,
/// and returns how many they are.
pub fn partition(
    points: &Vec<Vec3>,
    tris: &Vec<Triangle>,
    lookup: &mut Vec<i32>,
    start: usize,
    count: usize,
    axis: usize,
    bounds: &Aabb,
) -> (left_count: usize)
    requires
        mesh_valid(points@, tris@),
        is_permutation(old(lookup)@, tris.len() as int),
        start + count <= tris.len(),
        axis < 3,
    ensures
        0 <= left_count <= count,
        is_permutation(final(lookup)@, tris.len() as int),
        same_elements(final(lookup)@, old(lookup)@, start as int, start + count),
        same_outside(final(lookup)@, old(lookup)@, start as int, start + count),
        range_side(
            points@,
            tris@,
            final(lookup)@,
            start as int,
            start + left_count,
            axis as int,
            *bounds,
            true,
        ),
        range_side(
            points@,
            tris@,
            final(lookup)@,
            start + left_count,
            start + count,
            axis as int,
            *bounds,
            false,
        ),
        left_count == count <==> range_side(
            points@,
            tris@,
            old(lookup)@,
            start as int,
            start + count,
            axis as int,
            *bounds,
            true,
        ),
        left_count == 0 <==> range_side(
            points@,
            tris@,
            old(lookup)@,
            start as int,
            start + count,
            axis as int,
            *bounds,
            false,
        ),
{
    let ghost initial = lookup@;
    let mut i: usize = start;
    let mut j: usize = start + count;
    proof {
        lemma_same_inside_is_same_elements(lookup@, initial, start as int, start + count);
    }
    while i < j
        invariant
            mesh_valid(points@, tris@),
            is_permutation(lookup@, tris.len() as int),
            start + count <= tris.len(),
            axis < 3,
            start <= i <= j <= start + count,
            same_elements(lookup@, initial, start as int, start + count),
            same_outside(lookup@, initial, start as int, start + count),
            range_side(points@, tris@, lookup@, start as int, i as int, axis as int, *bounds, true),
            range_side(
                points@,
                tris@,
                lookup@,
                j as int,
                start + count,
                axis as int,
                *bounds,
                false,
            ),
        decreases j - i,
    {
        let t = tris[lookup[i] as usize];
        if centroid_before_split(points, &t, axis, bounds) {
            i += 1;
        } else {
            j -= 1;
            let ghost before = lookup@;
            let at_i = lookup[i];
            let at_j = lookup[j];
            lookup.set(i, at_j);
            lookup.set(j, at_i);
            proof {
                lemma_swap_same_elements(before, lookup@, i as int, j as int, start as int, start + count);
                lemma_same_elements_transitive(lookup@, before, initial, start as int, start + count);
            }
        }
    }
    proof {
        let lo = start as int;
        let hi = start + count;
        let a = axis as int;
        if i == hi {
            lemma_subset_side(points@, tris@, initial, lookup@, lo, hi, a, *bounds, true);
        }
        if i == lo {
            lemma_subset_side(points@, tris@, initial, lookup@, lo, hi, a, *bounds, false);
        }
        if range_side(points@, tris@, initial, lo, hi, a, *bounds, true) {
            lemma_subset_side(points@, tris@, lookup@, initial, lo, hi, a, *bounds, true);
            if i < hi {
                assert(on_left(points@, tris@[lookup@[i as int] as int], a, *bounds));
            }
        }
        if range_side(points@, tris@, initial, lo, hi, a, *bounds, false) {
            lemma_subset_side(points@, tris@, lookup@, initial, lo, hi, a, *bounds, false);
            if i > lo {
                assert(!on_left(points@, tris@[lookup@[lo] as int], a, *bounds));
            }
        }
    }
    i - start
}

/// Exchanging two entries of a range leaves the range holding the same values.
pub proof fn lemma_swap_same_elements(a: Seq<i32>, b: Seq<i32>, i: int, j: int, lo: int, hi: int)
    requires
        0 <= lo <= i < hi <= a.len(),
        lo <= j < hi,
        b == a.update(i, a[j]).update(j, a[i]),
    ensures
        same_elements(b, a, lo, hi),
{
    reveal(range_subset);
    assert forall|k: int| lo <= k < hi implies range_has(a, lo, hi, #[trigger] b[k]) by {
        if k == j {
            assert(a[i] == b[k]);
        } else if k == i {
            assert(a[j] == b[k]);
        } else {
            assert(a[k] == b[k]);
        }
    }
    assert forall|k: int| lo <= k < hi implies range_has(b, lo, hi, #[trigger] a[k]) by {
        if k == j {
            assert(b[i] == a[k]);
        } else if k == i {
            assert(b[j] == a[k]);
        } else {
            assert(b[k] == a[k]);
        }
    }
}


/// How many lookup entries lie under node `i`: a leaf's own count, and for an
/// interior node the sum over its two children.
pub open spec fn subtree_count(nodes: Seq<Node>, i: int) -> int
    decreases nodes.len() - i,
{
    if 0 <= i < nodes.len() {
        if nodes[i].obj_count > 0 {
            nodes[i].obj_count as int
        } else {
            let c = nodes[i].left_child as int;
            if i < c && c + 1 < nodes.len() {
                subtree_count(nodes, c) + subtree_count(nodes, c + 1)
            } else {
                0
            }
        }
    } else {
        0
    }
}

/// The offset in the lookup array at which the entries under node `i` begin.
pub open spec fn subtree_start(nodes: Seq<Node>, i: int) -> int
    decreases nodes.len() - i,
{
    if 0 <= i < nodes.len() {
        if nodes[i].obj_count > 0 {
            nodes[i].left_child as int
        } else {
            let c = nodes[i].left_child as int;
            if i < c && c + 1 < nodes.len() {
                subtree_start(nodes, c)
            } else {
                0
            }
        }
    } else {
        0
    }
}

/// A leaf that will not be split: it holds at most two triangles, or all its
/// centroids lie on one side of the midpoint of its box on the split axis.
pub open spec fn leaf_settled(
    points: Seq<Vec3>,
    tris: Seq<Triangle>,
    lookup: Seq<i32>,
    node: Node,
) -> bool {
    let lo = node.left_child as int;
    let hi = lo + node.obj_count;
    let b = node.bounds();
    ||| node.obj_count <= 2
    ||| range_side(points, tris, lookup, lo, hi, b.split_axis(), b, true)
    ||| range_side(points, tris, lookup, lo, hi, b.split_axis(), b, false)
}

/// A leaf whose entries lie inside the lookup array and whose box is the
/// bounding box of its triangles. It may hold no entry at all.
pub open spec fn leaf_bounded(
    points: Seq<Vec3>,
    tris: Seq<Triangle>,
    lookup: Seq<i32>,
    node: Node,
) -> bool {
    &&& 0 <= node.left_child
    &&& 0 <= node.obj_count
    &&& node.left_child + node.obj_count <= lookup.len()
    &&& is_range_bounds(
        points,
        tris,
        lookup,
        node.left_child as int,
        node.left_child + node.obj_count,
        node.bounds(),
    )
}

/// The subtree under node `i` is a finished hierarchy.
///
/// A leaf is bounded and settled. An interior node has both children behind
/// it in the array; each is a finished hierarchy; together they hold more
/// than two entries; the right child's entries follow the left child's
/// directly; the node's box is the join of the
/// children's boxes; and on the node's split axis every centroid under the
/// left child lies before the midpoint of the node's box, and none under the
/// right child does.
pub open spec fn tree_ok(
    points: Seq<Vec3>,
    tris: Seq<Triangle>,
    lookup: Seq<i32>,
    nodes: Seq<Node>,
    i: int,
) -> bool
    decreases nodes.len() - i,
{
    if 0 <= i < nodes.len() {
        if nodes[i].obj_count > 0 {
            &&& leaf_bounded(points, tris, lookup, nodes[i])
            &&& leaf_settled(points, tris, lookup, nodes[i])
        } else {
            let c = nodes[i].left_child as int;
            let b = nodes[i].bounds();
            if i < c && c + 1 < nodes.len() {
                &&& tree_ok(points, tris, lookup, nodes, c)
                &&& tree_ok(points, tris, lookup, nodes, c + 1)
                &&& subtree_count(nodes, c) + subtree_count(nodes, c + 1) > 2
                &&& subtree_start(nodes, c + 1) == subtree_start(nodes, c) + subtree_count(
                    nodes,
                    c,
                )
                &&& b == nodes[c].bounds().join(nodes[c + 1].bounds())
                &&& range_side(
                    points,
                    tris,
                    lookup,
                    subtree_start(nodes, c),
                    subtree_start(nodes, c) + subtree_count(nodes, c),
                    b.split_axis(),
                    b,
                    true,
                )
                &&& range_side(
                    points,
                    tris,
                    lookup,
                    subtree_start(nodes, c + 1),
                    subtree_start(nodes, c + 1) + subtree_count(nodes, c + 1),
                    b.split_axis(),
                    b,
                    false,
                )
            } else {
                false
            }
        }
    } else {
        false
    }
}

/// How many of the nodes are leaves with more than two entries: the leaves
/// that a split at the midpoint could not part.
pub open spec fn unsplit_leaves(nodes: Seq<Node>) -> nat
    decreases nodes.len(),
{
    if nodes.len() == 0 {
        0
    } else {
        unsplit_leaves(nodes.drop_last()) + if nodes.last().obj_count > 2 {
            1nat
        } else {
            0nat
        }
    }
}

/// Counts the leaves that hold more than two entries.
pub fn count_unsplit_leaves(nodes: &Vec<Node>) -> (count: usize)
    ensures
        count == unsplit_leaves(nodes@),
{
    let mut count: usize = 0;
    let mut i: usize = 0;
    while i < nodes.len()
        invariant
            i <= nodes.len(),
            count <= i,
            count == unsplit_leaves(nodes@.take(i as int)),
        decreases nodes.len() - i,
    {
        assert(nodes@.take(i + 1).drop_last() =~= nodes@.take(i as int));
        if nodes[i].obj_count > 2 {
            count += 1;
        }
        i += 1;
    }
    assert(nodes@.take(nodes@.len() as int) =~= nodes@);
    count
}

/// Every node from position `from` on heads a finished subtree whose entries
/// lie in `[lo, hi)`.
#[verifier::opaque]
pub open spec fn all_finished(
    points: Seq<Vec3>,
    tris: Seq<Triangle>,
    lookup: Seq<i32>,
    nodes: Seq<Node>,
    from: int,
    lo: int,
    hi: int,
) -> bool {
    forall|j: int|
        from <= j < nodes.len() ==> {
            &&& #[trigger] tree_ok(points, tris, lookup, nodes, j)
            &&& lo <= subtree_start(nodes, j)
            &&& subtree_start(nodes, j) + subtree_count(nodes, j) <= hi
        }
}

/// A finished subtree holds at least one entry, and its entries lie inside
/// the lookup array.
pub proof fn lemma_subtree_extent(
    points: Seq<Vec3>,
    tris: Seq<Triangle>,
    lookup: Seq<i32>,
    nodes: Seq<Node>,
    i: int,
)
    requires
        tree_ok(points, tris, lookup, nodes, i),
    ensures
        subtree_count(nodes, i) > 0,
        0 <= subtree_start(nodes, i),
        subtree_start(nodes, i) + subtree_count(nodes, i) <= lookup.len(),
    decreases nodes.len() - i,
{
    if nodes[i].obj_count > 0 {
    } else {
        let c = nodes[i].left_child as int;
        lemma_subtree_extent(points, tris, lookup, nodes, c);
        lemma_subtree_extent(points, tris, lookup, nodes, c + 1);
    }
}

/// A finished subtree stays finished, over the same entries, when the node
/// array grows and changes only outside the subtree, and the lookup array
/// changes only outside the subtree's entries.
pub proof fn lemma_tree_frame(
    points: Seq<Vec3>,
    tris: Seq<Triangle>,
    la: Seq<i32>,
    lb: Seq<i32>,
    na: Seq<Node>,
    nb: Seq<Node>,
    i: int,
    low: int,
)
    requires
        tree_ok(points, tris, la, na, i),
        na.len() <= nb.len(),
        na[i] == nb[i],
        0 <= low,
        forall|j: int| low <= j < na.len() ==> na[j] == nb[j],
        i >= low || (!na[i].is_leaf() ==> na[i].left_child >= low),
        same_inside(la, lb, subtree_start(na, i), subtree_start(na, i) + subtree_count(na, i)),
    ensures
        tree_ok(points, tris, lb, nb, i),
        subtree_start(nb, i) == subtree_start(na, i),
        subtree_count(nb, i) == subtree_count(na, i),
    decreases na.len() - i,
{
    let lo = subtree_start(na, i);
    let hi = lo + subtree_count(na, i);
    if na[i].obj_count > 0 {
        lemma_same_inside_is_same_elements(la, lb, lo, hi);
        lemma_bounds_reordered(points, tris, la, lb, lo, hi, na[i].bounds());
        let b = na[i].bounds();
        if range_side(points, tris, la, lo, hi, b.split_axis(), b, true) {
            lemma_subset_side(points, tris, lb, la, lo, hi, b.split_axis(), b, true);
        }
        if range_side(points, tris, la, lo, hi, b.split_axis(), b, false) {
            lemma_subset_side(points, tris, lb, la, lo, hi, b.split_axis(), b, false);
        }
    } else {
        let c = na[i].left_child as int;
        let b = na[i].bounds();
        lemma_subtree_extent(points, tris, la, na, c);
        lemma_subtree_extent(points, tris, la, na, c + 1);
        let mid = subtree_start(na, c + 1);
        assert(same_inside(la, lb, lo, mid));
        assert(same_inside(la, lb, mid, hi));
        lemma_tree_frame(points, tris, la, lb, na, nb, c, low);
        lemma_tree_frame(points, tris, la, lb, na, nb, c + 1, low);
        lemma_same_inside_is_same_elements(la, lb, lo, mid);
        lemma_same_inside_is_same_elements(la, lb, mid, hi);
        lemma_subset_side(points, tris, lb, la, lo, mid, b.split_axis(), b, true);
        lemma_subset_side(points, tris, lb, la, mid, hi, b.split_axis(), b, false);
    }
}

/// The box of every node of a finished hierarchy contains all corners of
/// every triangle under that node.
pub proof fn lemma_node_contains_subtree(
    points: Seq<Vec3>,
    tris: Seq<Triangle>,
    lookup: Seq<i32>,
    nodes: Seq<Node>,
    i: int,
    k: int,
)
    requires
        tree_ok(points, tris, lookup, nodes, i),
        subtree_start(nodes, i) <= k < subtree_start(nodes, i) + subtree_count(nodes, i),
    ensures
        tri_in_box(points, tris[lookup[k] as int], nodes[i].bounds()),
    decreases nodes.len() - i,
{
    reveal(is_range_bounds);
    if nodes[i].obj_count > 0 {
    } else {
        let c = nodes[i].left_child as int;
        if k < subtree_start(nodes, c + 1) {
            lemma_node_contains_subtree(points, tris, lookup, nodes, c, k);
        } else {
            lemma_node_contains_subtree(points, tris, lookup, nodes, c + 1, k);
        }
    }
}


/// A finished hierarchy over a single entry is a single leaf.
pub proof fn lemma_single_entry_is_leaf(
    points: Seq<Vec3>,
    tris: Seq<Triangle>,
    lookup: Seq<i32>,
    nodes: Seq<Node>,
    i: int,
)
    requires
        tree_ok(points, tris, lookup, nodes, i),
        subtree_count(nodes, i) == 1,
    ensures
        nodes[i].obj_count == 1,
{
    if nodes[i].obj_count <= 0 {
        let c = nodes[i].left_child as int;
        lemma_subtree_extent(points, tris, lookup, nodes, c);
        lemma_subtree_extent(points, tris, lookup, nodes, c + 1);
    }
}

/// Where no node stands from the end of the array on, all of them are
/// finished.
pub proof fn lemma_none_appended(
    points: Seq<Vec3>,
    tris: Seq<Triangle>,
    lookup: Seq<i32>,
    nodes: Seq<Node>,
    lo: int,
    hi: int,
)
    ensures
        all_finished(points, tris, lookup, nodes, nodes.len() as int, lo, hi),
{
    reveal(all_finished);
}

/// The bounding box of a range is the join of the bounding boxes of its two
/// parts.
pub proof fn lemma_join_is_bounds(
    points: Seq<Vec3>,
    tris: Seq<Triangle>,
    lookup: Seq<i32>,
    lo: int,
    mid: int,
    hi: int,
    whole: Aabb,
    first: Aabb,
    second: Aabb,
)
    requires
        lo <= mid <= hi,
        is_range_bounds(points, tris, lookup, lo, hi, whole),
        is_range_bounds(points, tris, lookup, lo, mid, first),
        is_range_bounds(points, tris, lookup, mid, hi, second),
    ensures
        whole == first.join(second),
{
    reveal(is_range_bounds);
    let joined = first.join(second);
    assert(range_in_box(points, tris, lookup, lo, mid, whole));
    assert(range_in_box(points, tris, lookup, mid, hi, whole));
    assert(first.within(whole));
    assert(second.within(whole));
    assert(joined.within(whole));
    assert(first.within(joined));
    assert(second.within(joined));
    assert forall|k: int| lo <= k < hi implies tri_in_box(
        points,
        tris[(#[trigger] lookup[k]) as int],
        joined,
    ) by {
        if k < mid {
            assert(tri_in_box(points, tris[lookup[k] as int], first));
        } else {
            assert(tri_in_box(points, tris[lookup[k] as int], second));
        }
    }
    assert(range_in_box(points, tris, lookup, lo, hi, joined));
    assert(whole.within(joined));
    crate::geometry::lemma_within_antisymmetric(whole, joined);
}

/// Splits the leaf at `node_index`, and the leaves that come of it, until
/// every leaf under it is settled.
///
/// A settled leaf is left as it is, so a second run on it changes no node.
/// Otherwise its lookup entries are partitioned at the midpoint of its box on
/// the split axis, two children are appended to the node array, left then
/// right, and the node becomes an interior node.
#[verifier::rlimit(40)]
#[verifier::spinoff_prover]
pub fn subdivide(
    points: &Vec<Vec3>,
    tris: &Vec<Triangle>,
    lookup: &mut Vec<i32>,
    nodes: &mut Vec<Node>,
    node_index: usize,
)
    requires
        mesh_valid(points@, tris@),
        tris.len() <= MAX_MODEL_VERTICES,
        is_permutation(old(lookup)@, tris.len() as int),
        node_index < old(nodes).len(),
        leaf_bounded(points@, tris@, old(lookup)@, old(nodes)@[node_index as int]),
        old(nodes).len() + 2 * old(nodes)@[node_index as int].obj_count <= i32::MAX,
    ensures
        final(nodes).len() >= old(nodes).len(),
        forall|j: int|
            0 <= j < old(nodes).len() && j != node_index ==> final(nodes)@[j] == old(nodes)@[j],
        final(nodes)@[node_index as int].bounds() == old(nodes)@[node_index as int].bounds(),
        is_permutation(final(lookup)@, tris.len() as int),
        same_elements(
            final(lookup)@,
            old(lookup)@,
            old(nodes)@[node_index as int].left_child as int,
            old(nodes)@[node_index as int].left_child + old(nodes)@[node_index as int].obj_count,
        ),
        same_outside(
            final(lookup)@,
            old(lookup)@,
            old(nodes)@[node_index as int].left_child as int,
            old(nodes)@[node_index as int].left_child + old(nodes)@[node_index as int].obj_count,
        ),
        old(nodes)@[node_index as int].obj_count <= 2 ==> final(lookup)@ == old(lookup)@,
        leaf_settled(points@, tris@, old(lookup)@, old(nodes)@[node_index as int]) <==> final(nodes)@ == old(nodes)@,
        !leaf_settled(points@, tris@, old(lookup)@, old(nodes)@[node_index as int]) ==> {
            &&& final(nodes)@[node_index as int].obj_count == 0
            &&& final(nodes)@[node_index as int].left_child == old(nodes).len()
        },
        all_finished(
            points@,
            tris@,
            final(lookup)@,
            final(nodes)@,
            old(nodes).len() as int,
            old(nodes)@[node_index as int].left_child as int,
            old(nodes)@[node_index as int].left_child + old(nodes)@[node_index as int].obj_count,
        ),
        old(nodes)@[node_index as int].obj_count >= 1 ==> {
            &&& tree_ok(points@, tris@, final(lookup)@, final(nodes)@, node_index as int)
            &&& subtree_start(final(nodes)@, node_index as int) == old(nodes)@[node_index as int].left_child
            &&& subtree_count(final(nodes)@, node_index as int) == old(nodes)@[node_index as int].obj_count
            &&& final(nodes).len() + 2 <= old(nodes).len() + 2 * old(nodes)@[node_index as int].obj_count
        },
    decreases old(nodes)@[node_index as int].obj_count,
{
    let ghost lookup0 = lookup@;
    let ghost nodes0 = nodes@;
    let node = nodes[node_index];
    let ghost lo = node.left_child as int;
    let ghost hi = node.left_child + node.obj_count;
    proof {
        lemma_same_inside_is_same_elements(lookup0, lookup0, lo, hi);
        lemma_none_appended(points@, tris@, lookup0, nodes0, lo, hi);
    }
    if node.obj_count <= 2 {
        return ;
    }
    let bounds = node.bounding_box();
    let axis = bounds.longest_axis();
    let start = node.left_child as usize;
    let count = node.obj_count as usize;
    let left_count = partition(points, tris, lookup, start, count, axis, &bounds);
    let ghost lookup1 = lookup@;
    let ghost mid = lo + left_count;
    proof {
        lemma_bounds_reordered(points@, tris@, lookup0, lookup1, lo, hi, bounds);
    }
    if left_count == 0 || left_count == count {
        proof {
            let left = left_count == count;
            assert(range_side(points@, tris@, lookup1, lo, hi, axis as int, bounds, left));
            lemma_subset_side(points@, tris@, lookup0, lookup1, lo, hi, axis as int, bounds, left);
            lemma_none_appended(points@, tris@, lookup1, nodes0, lo, hi);
        }
        return ;
    }
    proof {
        // Some centroid lies before the midpoint and some does not, so the
        // leaf was not settled.
        if range_side(points@, tris@, lookup0, lo, hi, axis as int, bounds, true) {
            lemma_subset_side(points@, tris@, lookup1, lookup0, lo, hi, axis as int, bounds, true);
            assert(on_left(points@, tris@[lookup1[mid] as int], axis as int, bounds));
        }
        if range_side(points@, tris@, lookup0, lo, hi, axis as int, bounds, false) {
            lemma_subset_side(points@, tris@, lookup1, lookup0, lo, hi, axis as int, bounds, false);
            assert(!on_left(points@, tris@[lookup1[lo] as int], axis as int, bounds));
        }
        assert(!leaf_settled(points@, tris@, lookup0, nodes0[node_index as int]));
    }
    let left_index = nodes.len();
    let right_index = left_index + 1;
    let left_bounds = update_bounds(points, tris, lookup, start, left_count);
    let right_bounds = update_bounds(points, tris, lookup, start + left_count, count - left_count);
    proof {
        lemma_join_is_bounds(points@, tris@, lookup1, lo, mid, hi, bounds, left_bounds, right_bounds);
    }
    nodes.push(Node::leaf(left_bounds, start as i32, left_count as i32));
    nodes.push(Node::leaf(right_bounds, (start + left_count) as i32, (count - left_count) as i32));
    nodes.set(
        node_index,
        Node {
            min_corner: node.min_corner,
            left_child: left_index as i32,
            max_corner: node.max_corner,
            obj_count: 0,
        },
    );
    let ghost nodes1 = nodes@;

    subdivide(points, tris, lookup, nodes, left_index);
    let ghost lookup2 = lookup@;
    let ghost nodes2 = nodes@;
    proof {
        assert(nodes1[left_index as int].left_child == lo);
        assert(nodes1[left_index as int].obj_count == mid - lo);
        assert(all_finished(points@, tris@, lookup2, nodes2, nodes1.len() as int, lo, mid));
        assert(same_inside(lookup2, lookup1, mid, hi));
        lemma_same_inside_is_same_elements(lookup1, lookup2, mid, hi);
        lemma_bounds_reordered(points@, tris@, lookup1, lookup2, mid, hi, right_bounds);
        assert(nodes2[right_index as int] == nodes1[right_index as int]);
        assert(!nodes2[left_index as int].is_leaf() ==> nodes2[left_index as int].left_child
            >= nodes1.len());
    }

    subdivide(points, tris, lookup, nodes, right_index);
    let ghost lookup3 = lookup@;
    let ghost nodes3 = nodes@;
    proof {
        assert(nodes2[right_index as int].left_child == mid);
        assert(nodes2[right_index as int].obj_count == hi - mid);
        assert(all_finished(points@, tris@, lookup3, nodes3, nodes2.len() as int, mid, hi));
        lemma_split_finished(
            points@,
            tris@,
            lookup1,
            lookup2,
            lookup3,
            nodes1,
            nodes2,
            nodes3,
            node_index as int,
            lo,
            mid,
            hi,
        );
        lemma_same_elements_transitive(lookup3, lookup1, lookup0, lo, hi);
        assert(nodes3[node_index as int] == nodes1[node_index as int]);
        assert(nodes3 != nodes0);
    }
}

/// What one step of a subdivision leaves behind.
///
/// `nodes1` and `lookup1` stand after a node was split into two leaves over
/// `[lo, mid)` and `[mid, hi)`; `nodes2` and `lookup2` after the left leaf
/// was subdivided; `nodes3` and `lookup3` after the right leaf was. Then the
/// node heads a finished subtree over `[lo, hi)`, and so does every node
/// that was appended.
pub proof fn lemma_split_finished(
    points: Seq<Vec3>,
    tris: Seq<Triangle>,
    lookup1: Seq<i32>,
    lookup2: Seq<i32>,
    lookup3: Seq<i32>,
    nodes1: Seq<Node>,
    nodes2: Seq<Node>,
    nodes3: Seq<Node>,
    parent: int,
    lo: int,
    mid: int,
    hi: int,
)
    requires
        0 <= lo < mid < hi <= lookup1.len(),
        hi - lo > 2,
        0 <= parent < nodes1.len() - 2,
        nodes1.len() <= i32::MAX,
        // The split itself.
        nodes1[parent].obj_count == 0,
        nodes1[parent].left_child == nodes1.len() - 2,
        nodes1[nodes1.len() - 2].left_child == lo,
        nodes1[nodes1.len() - 2].obj_count == mid - lo,
        nodes1[nodes1.len() - 1].left_child == mid,
        nodes1[nodes1.len() - 1].obj_count == hi - mid,
        nodes1[parent].bounds() == nodes1[nodes1.len() - 2].bounds().join(
            nodes1[nodes1.len() - 1].bounds(),
        ),
        range_side(
            points,
            tris,
            lookup1,
            lo,
            mid,
            nodes1[parent].bounds().split_axis(),
            nodes1[parent].bounds(),
            true,
        ),
        range_side(
            points,
            tris,
            lookup1,
            mid,
            hi,
            nodes1[parent].bounds().split_axis(),
            nodes1[parent].bounds(),
            false,
        ),
        // The left leaf was subdivided.
        nodes2.len() >= nodes1.len(),
        forall|j: int| 0 <= j < nodes1.len() && j != nodes1.len() - 2 ==> nodes2[j] == nodes1[j],
        nodes2[nodes1.len() - 2].bounds() == nodes1[nodes1.len() - 2].bounds(),
        same_elements(lookup2, lookup1, lo, mid),
        same_outside(lookup2, lookup1, lo, mid),
        tree_ok(points, tris, lookup2, nodes2, nodes1.len() - 2),
        subtree_start(nodes2, nodes1.len() - 2) == lo,
        subtree_count(nodes2, nodes1.len() - 2) == mid - lo,
        !nodes2[nodes1.len() - 2].is_leaf() ==> nodes2[nodes1.len() - 2].left_child
            >= nodes1.len(),
        all_finished(points, tris, lookup2, nodes2, nodes1.len() as int, lo, mid),
        // The right leaf was subdivided.
        nodes3.len() >= nodes2.len(),
        forall|j: int| 0 <= j < nodes2.len() && j != nodes1.len() - 1 ==> nodes3[j] == nodes2[j],
        nodes3[nodes1.len() - 1].bounds() == nodes2[nodes1.len() - 1].bounds(),
        same_elements(lookup3, lookup2, mid, hi),
        same_outside(lookup3, lookup2, mid, hi),
        tree_ok(points, tris, lookup3, nodes3, nodes1.len() - 1),
        subtree_start(nodes3, nodes1.len() - 1) == mid,
        subtree_count(nodes3, nodes1.len() - 1) == hi - mid,
        all_finished(points, tris, lookup3, nodes3, nodes2.len() as int, mid, hi),
    ensures
        tree_ok(points, tris, lookup3, nodes3, parent),
        subtree_start(nodes3, parent) == lo,
        subtree_count(nodes3, parent) == hi - lo,
        same_elements(lookup3, lookup1, lo, hi),
        same_outside(lookup3, lookup1, lo, hi),
        all_finished(points, tris, lookup3, nodes3, nodes1.len() - 2, lo, hi),
{
    reveal(all_finished);
    let left = nodes1.len() - 2;
    let right = nodes1.len() - 1;
    let b = nodes1[parent].bounds();
    let a = b.split_axis();
    // The left subtree was not touched by the work on the right one.
    assert(same_inside(lookup2, lookup3, lo, mid));
    lemma_tree_frame(points, tris, lookup2, lookup3, nodes2, nodes3, left, nodes1.len() as int);
    // Each side still holds the triangles that the partition gave it.
    lemma_subset_side(points, tris, lookup2, lookup1, lo, mid, a, b, true);
    lemma_same_inside_is_same_elements(lookup3, lookup2, lo, mid);
    lemma_subset_side(points, tris, lookup3, lookup2, lo, mid, a, b, true);
    assert(same_inside(lookup2, lookup1, mid, hi));
    lemma_same_inside_is_same_elements(lookup2, lookup1, mid, hi);
    lemma_subset_side(points, tris, lookup2, lookup1, mid, hi, a, b, false);
    lemma_subset_side(points, tris, lookup3, lookup2, mid, hi, a, b, false);
    // The whole range holds what it held after the split.
    lemma_same_elements_widen(lookup2, lookup1, lo, hi, lo, mid);
    lemma_same_elements_widen(lookup3, lookup2, lo, hi, mid, hi);
    lemma_same_elements_transitive(lookup3, lookup2, lookup1, lo, hi);
    // The node itself.
    assert(nodes3[parent] == nodes1[parent]);
    assert(nodes3[left] == nodes2[left]);
    assert(nodes3[left].bounds() == nodes1[left].bounds());
    assert(nodes3[right].bounds() == nodes1[right].bounds());
    assert(tree_ok(points, tris, lookup3, nodes3, left));
    assert(tree_ok(points, tris, lookup3, nodes3, right));
    assert(subtree_start(nodes3, left) == lo);
    assert(subtree_count(nodes3, left) == mid - lo);
    assert(tree_ok(points, tris, lookup3, nodes3, parent));
    // Every node that was appended heads a finished subtree of its own.
    assert forall|j: int| nodes1.len() - 2 <= j < nodes3.len() implies {
        &&& #[trigger] tree_ok(points, tris, lookup3, nodes3, j)
        &&& lo <= subtree_start(nodes3, j)
        &&& subtree_start(nodes3, j) + subtree_count(nodes3, j) <= hi
    } by {
        if j == left || j == right {
        } else if j < nodes2.len() {
            assert(tree_ok(points, tris, lookup2, nodes2, j));
            assert(same_inside(
                lookup2,
                lookup3,
                subtree_start(nodes2, j),
                subtree_start(nodes2, j) + subtree_count(nodes2, j),
            ));
            lemma_tree_frame(
                points,
                tris,
                lookup2,
                lookup3,
                nodes2,
                nodes3,
                j,
                nodes1.len() as int,
            );
        } else {
            assert(tree_ok(points, tris, lookup3, nodes3, j));
        }
    }
}

} // verus!
