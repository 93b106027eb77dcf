use vstd::prelude::*;

verus! {

/// One corner of a triangulated annular sector: which circle it lies on, and
/// which of the `n + 1` equal angular steps it sits at (step `k` is the angle
/// `start + k * (end - start) / n`).
#[derive(Clone, Copy, Debug, PartialEq, Eq, Structural)]
pub struct RingCorner {
    pub outer: bool,
    pub step: usize,
}

/// Whether position `p` (0..6) of a segment lies on the outer circle.
pub open spec fn slot_is_outer(p: int) -> bool {
    p == 0 || p == 1 || p == 4
}

/// How many steps past the segment's first angle position `p` lies.
pub open spec fn slot_advance(p: int) -> int {
    if p == 1 || p == 4 || p == 5 { 1 } else { 0 }
}

/// The corner at index `j` of the ring layout: segment `j / 6` contributes
/// the triangles (outer s, outer s+1, inner s) and (inner s, outer s+1, inner s+1).
pub open spec fn ring_corner_spec(j: int) -> (bool, int) {
    (slot_is_outer(j % 6), j / 6 + slot_advance(j % 6))
}

pub open spec fn corner_matches(c: RingCorner, j: int) -> bool {
    c.outer == ring_corner_spec(j).0 && c.step as int == ring_corner_spec(j).1
}

/// The triangle-list layout of a ring of `num_subdivisions` segments.
pub fn ring_corners(num_subdivisions: usize) -> (r: Vec<RingCorner>)
    requires
        num_subdivisions <= usize::MAX / 6,
    ensures
        r@.len() == 6 * num_subdivisions,
        forall|j: int| 0 <= j < r@.len() ==> #[trigger] corner_matches(r@[j], j),
{
    let mut corners: Vec<RingCorner> = Vec::new();
    let mut i: usize = 0;
    while i < num_subdivisions
        invariant
            i <= num_subdivisions,
            num_subdivisions <= usize::MAX / 6,
            corners@.len() == 6 * i,
            forall|j: int| 0 <= j < corners@.len() ==> #[trigger] corner_matches(corners@[j], j),
        decreases num_subdivisions - i,
    {
        let next: usize = i + 1;
        corners.push(RingCorner { outer: true, step: i });
        corners.push(RingCorner { outer: true, step: next });
        corners.push(RingCorner { outer: false, step: i });
        corners.push(RingCorner { outer: false, step: i });
        corners.push(RingCorner { outer: true, step: next });
        corners.push(RingCorner { outer: false, step: next });
        assert forall|j: int| 0 <= j < corners@.len() implies #[trigger] corner_matches(corners@[j], j) by {
            if j >= 6 * i {
                assert(j / 6 == i as int);
            }
        }
        i = next;
    }
    corners
}

/// Within every segment the two triangles share the edge from the outer
/// corner at the later angle to the inner corner at the earlier angle, and
/// each segment's later angle is the next segment's earlier angle: the
/// corners that meet there are the same corner, hence the same point.
pub proof fn lemma_ring_shared_edges(num_subdivisions: nat)
    ensures
        forall|s: int| 0 <= s < num_subdivisions ==> {
            &&& #[trigger] ring_corner_spec(6 * s + 1) == ring_corner_spec(6 * s + 4)
            &&& ring_corner_spec(6 * s + 2) == ring_corner_spec(6 * s + 3)
            &&& ring_corner_spec(6 * s) == (true, s)
            &&& ring_corner_spec(6 * s + 5) == (false, s + 1)
            &&& s + 1 < num_subdivisions ==> ring_corner_spec(6 * s + 1) == ring_corner_spec(6 * (s + 1))
        },
        forall|j: int| 0 <= j < 6 * num_subdivisions ==> 0 <= #[trigger] ring_corner_spec(j).1 <= num_subdivisions,
{
    assert forall|s: int| 0 <= s < num_subdivisions implies {
        &&& #[trigger] ring_corner_spec(6 * s + 1) == ring_corner_spec(6 * s + 4)
        &&& ring_corner_spec(6 * s + 2) == ring_corner_spec(6 * s + 3)
        &&& ring_corner_spec(6 * s) == (true, s)
        &&& ring_corner_spec(6 * s + 5) == (false, s + 1)
        &&& s + 1 < num_subdivisions ==> ring_corner_spec(6 * s + 1) == ring_corner_spec(6 * (s + 1))
    } by {
        assert((6 * s + 1) / 6 == s && (6 * s + 1) % 6 == 1);
        assert((6 * s + 4) / 6 == s && (6 * s + 4) % 6 == 4);
        assert((6 * s + 2) / 6 == s && (6 * s + 2) % 6 == 2);
        assert((6 * s + 3) / 6 == s && (6 * s + 3) % 6 == 3);
        assert((6 * s) / 6 == s && (6 * s) % 6 == 0);
        assert((6 * s + 5) / 6 == s && (6 * s + 5) % 6 == 5);
        assert((6 * (s + 1)) / 6 == s + 1 && (6 * (s + 1)) % 6 == 0);
    }
    assert forall|j: int| 0 <= j < 6 * num_subdivisions implies 0 <= #[trigger] ring_corner_spec(j).1 <= num_subdivisions by {
        assert(j / 6 < num_subdivisions);
    }
}

} // verus!
