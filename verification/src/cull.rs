//! Frustum visibility of resident chunks.
//!
//! A frustum is modelled as a set of half-spaces with integer
//! coefficients (the application converts its camera planes to this
//! fixed-point form).  A chunk's bounding cube is visible unless some
//! plane has all eight cube corners strictly outside; the test is
//! conservative, synchronous and pure — it never touches residency.

use vstd::prelude::*;
use crate::CHUNK_SIZE;
use crate::ChunkCoord;

verus! {

/// One half-space `a*x + b*y + c*z + d >= 0` of the frustum, with
/// fixed-point integer coefficients.
#[derive(Clone, Copy, PartialEq, Eq, Structural, Debug)]
pub struct Plane {
    pub a: i64,
    pub b: i64,
    pub c: i64,
    pub d: i64,
}

/// Bound on plane coefficients, a machine limit that keeps the corner
/// evaluations in range.
pub const PLANE_COEFF_MAX: i64 = 1000000000;

impl Plane {
    pub open spec fn wf(self) -> bool {
        &&& -PLANE_COEFF_MAX <= self.a <= PLANE_COEFF_MAX
        &&& -PLANE_COEFF_MAX <= self.b <= PLANE_COEFF_MAX
        &&& -PLANE_COEFF_MAX <= self.c <= PLANE_COEFF_MAX
        &&& -PLANE_COEFF_MAX * 4000000 <= self.d <= PLANE_COEFF_MAX * 4000000
    }
}

/// The world-space coordinate of corner `k` (bit 0: x, bit 1: y,
/// bit 2: z) of the chunk's bounding cube.
pub open spec fn spec_corner(coord: ChunkCoord, k: int, axis: int) -> int {
    let base = if axis == 0 {
        coord.x * CHUNK_SIZE
    } else if axis == 1 {
        coord.y * CHUNK_SIZE
    } else {
        coord.z * CHUNK_SIZE
    };
    let bit = if axis == 0 {
        k % 2
    } else if axis == 1 {
        (k / 2) % 2
    } else {
        k / 4
    };
    base + bit * CHUNK_SIZE
}

/// The signed evaluation of corner `k` against a plane.
pub open spec fn spec_corner_eval(p: Plane, coord: ChunkCoord, k: int) -> int {
    p.a * spec_corner(coord, k, 0) + p.b * spec_corner(coord, k, 1) + p.c * spec_corner(
        coord,
        k,
        2,
    ) + p.d
}

/// Whether some corner of the chunk cube lies on the non-negative side
/// of plane `i`.
pub open spec fn spec_plane_ok(planes: Seq<Plane>, coord: ChunkCoord, i: int) -> bool {
    exists|k: int|
        #![trigger spec_corner_eval(planes[i], coord, k)]
        0 <= k < 8 && spec_corner_eval(planes[i], coord, k) >= 0
}

/// Whether the chunk's bounding cube meets every half-space: for each
/// plane, at least one corner is on its non-negative side.  This is the
/// conservative frustum test used to show or hide a resident chunk.
pub open spec fn spec_cube_visible(planes: Seq<Plane>, coord: ChunkCoord) -> bool {
    forall|i: int| 0 <= i < planes.len() ==> #[trigger] spec_plane_ok(planes, coord, i)
}

/// Evaluate corner `k` of the chunk cube against one plane.
fn corner_eval(p: Plane, coord: ChunkCoord, k: u8) -> (v: i64)
    requires
        p.wf(),
        coord.wf(),
        k < 8,
    ensures
        v == spec_corner_eval(p, coord, k as int),
{
    let x: i64 = coord.x as i64 * 32 + ((k % 2) as i64) * 32;
    let y: i64 = coord.y as i64 * 32 + (((k / 2) % 2) as i64) * 32;
    let z: i64 = coord.z as i64 * 32 + ((k / 4) as i64) * 32;
    proof {
        assert(p.a * x <= PLANE_COEFF_MAX * 4000000 && p.a * x >= -PLANE_COEFF_MAX * 4000000 && p.b
            * y <= PLANE_COEFF_MAX * 4000000 && p.b * y >= -PLANE_COEFF_MAX * 4000000 && p.c * z
            <= PLANE_COEFF_MAX * 4000000 && p.c * z >= -PLANE_COEFF_MAX
            * 4000000) by (nonlinear_arith)
            requires
                -PLANE_COEFF_MAX <= p.a <= PLANE_COEFF_MAX,
                -PLANE_COEFF_MAX <= p.b <= PLANE_COEFF_MAX,
                -PLANE_COEFF_MAX <= p.c <= PLANE_COEFF_MAX,
                -4000000 <= x <= 4000000,
                -4000000 <= y <= 4000000,
                -4000000 <= z <= 4000000,
        {
        }
    }
    p.a * x + p.b * y + p.c * z + p.d
}

/// Decide the visibility of one resident chunk against the frustum
/// half-spaces: hidden exactly when some plane has the whole bounding
/// cube strictly outside.
pub fn cube_visible(planes: &Vec<Plane>, coord: ChunkCoord) -> (visible: bool)
    requires
        coord.wf(),
        forall|i: int| 0 <= i < planes@.len() ==> (#[trigger] planes@[i]).wf(),
    ensures
        visible == spec_cube_visible(planes@, coord),
{
    let mut i: usize = 0;
    let n = planes.len();
    while i < n
        invariant
            i <= n,
            n == planes@.len(),
            coord.wf(),
            forall|j: int| 0 <= j < planes@.len() ==> (#[trigger] planes@[j]).wf(),
            forall|j: int| 0 <= j < i ==> #[trigger] spec_plane_ok(planes@, coord, j),
        decreases n - i,
    {
        let p = planes[i];
        let mut any: bool = false;
        let mut k: u8 = 0;
        while k < 8
            invariant
                k <= 8,
                i < n,
                n == planes@.len(),
                p == planes@[i as int],
                p.wf(),
                coord.wf(),
                any == exists|k2: int|
                    #![trigger spec_corner_eval(p, coord, k2)]
                    0 <= k2 < k && spec_corner_eval(p, coord, k2) >= 0,
            decreases 8 - k,
        {
            let v = corner_eval(p, coord, k);
            if v >= 0 {
                any = true;
            }
            proof {
                if any {
                    assert(exists|k2: int| 0 <= k2 < k + 1 && spec_corner_eval(p, coord, k2)
                        >= 0) by {
                        if v >= 0 {
                            assert(0 <= (k as int) < k + 1 && spec_corner_eval(p, coord, k as int)
                                >= 0);
                        } else {
                            let k0 = choose|k2: int|
                                0 <= k2 < k && spec_corner_eval(p, coord, k2) >= 0;
                            assert(0 <= k0 < k + 1 && spec_corner_eval(p, coord, k0) >= 0);
                        }
                    }
                } else {
                    assert(!(exists|k2: int| 0 <= k2 < k + 1 && spec_corner_eval(p, coord, k2)
                        >= 0)) by {
                        if exists|k2: int| 0 <= k2 < k + 1 && spec_corner_eval(p, coord, k2) >= 0 {
                            let k0 = choose|k2: int|
                                0 <= k2 < k + 1 && spec_corner_eval(p, coord, k2) >= 0;
                            if k0 < k {
                                assert(exists|k2: int|
                                    0 <= k2 < k && spec_corner_eval(p, coord, k2) >= 0);
                            } else {
                                assert(spec_corner_eval(p, coord, k as int) == v);
                            }
                        }
                    }
                }
            }
            k = k + 1;
        }
        if !any {
            proof {
                assert(!spec_cube_visible(planes@, coord)) by {
                    assert(0 <= i < planes@.len());
                    if spec_cube_visible(planes@, coord) {
                        assert(spec_plane_ok(planes@, coord, i as int));
                        let k0 = choose|k2: int|
                            #![trigger spec_corner_eval(planes@[i as int], coord, k2)]
                            0 <= k2 < 8 && spec_corner_eval(planes@[i as int], coord, k2) >= 0;
                        assert(planes@[i as int] == p);
                        assert(spec_corner_eval(p, coord, k0) >= 0);
                    }
                }
            }
            return false;
        }
        proof {
            assert forall|j: int| 0 <= j < i + 1 implies #[trigger] spec_plane_ok(
                planes@,
                coord,
                j,
            ) by {
                if j == i {
                    let k0 = choose|k2: int|
                        #![trigger spec_corner_eval(p, coord, k2)]
                        0 <= k2 < 8 && spec_corner_eval(p, coord, k2) >= 0;
                    assert(planes@[j] == p);
                    assert(spec_corner_eval(planes@[j], coord, k0) >= 0);
                }
            }
        }
        i = i + 1;
    }
    true
}

} // verus!
