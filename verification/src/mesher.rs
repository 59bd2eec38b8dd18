//! Greedy surface meshing.
//!
//! The mesher walks the six face directions of a padded voxel grid and,
//! per slice, merges adjacent visible faces of equal block kind into the
//! largest rectangles a greedy row-major scan finds.  Its contract is
//! exact: the set of unit faces the emitted quads cover is precisely the
//! set of visible faces of the grid (an interior solid cell next to an
//! empty neighbour), each face covered once, each quad uniform in block
//! kind.  Faces between two solids, and faces of the padding skirt, are
//! never emitted.

use vstd::prelude::*;
use crate::block::BlockType;
use crate::block::Rgba;
use crate::block::spec_solid;
use crate::grid::VoxelGrid;
use crate::grid::spec_cell_index;

verus! {

/// Outward normal of a face direction (`0..6`: +x, -x, +y, -y, +z, -z).
pub open spec fn spec_dir_dx(d: int) -> int {
    if d == 0 {
        1
    } else if d == 1 {
        -1
    } else {
        0
    }
}

pub open spec fn spec_dir_dy(d: int) -> int {
    if d == 2 {
        1
    } else if d == 3 {
        -1
    } else {
        0
    }
}

pub open spec fn spec_dir_dz(d: int) -> int {
    if d == 4 {
        1
    } else if d == 5 {
        -1
    } else {
        0
    }
}

/// The grid cell of plane position `(u, v)` in slice `slice` of
/// direction `d`: the fixed axis is x for the x faces, y for the y
/// faces, z for the z faces.
pub open spec fn spec_cell_x(d: int, slice: int, u: int, v: int) -> int {
    if d == 0 || d == 1 {
        slice
    } else {
        u
    }
}

pub open spec fn spec_cell_y(d: int, slice: int, u: int, v: int) -> int {
    if d == 0 || d == 1 {
        u
    } else if d == 2 || d == 3 {
        slice
    } else {
        v
    }
}

pub open spec fn spec_cell_z(d: int, slice: int, u: int, v: int) -> int {
    if d == 4 || d == 5 {
        slice
    } else {
        v
    }
}

/// Whether the grid holds a solid at `(x, y, z)`.
pub open spec fn spec_solid_at(g: Seq<BlockType>, n: int, x: int, y: int, z: int) -> bool {
    spec_solid(g[spec_cell_index(n, x, y, z)])
}

/// The block at plane position `(u, v)` of a slice.
pub open spec fn spec_block_at(g: Seq<BlockType>, n: int, d: int, slice: int, u: int, v: int) -> BlockType {
    g[spec_cell_index(
        n,
        spec_cell_x(d, slice, u, v),
        spec_cell_y(d, slice, u, v),
        spec_cell_z(d, slice, u, v),
    )]
}

/// A face of the surface: an interior cell (the padding skirt excluded)
/// that is solid while the neighbour its face looks at is not.
pub open spec fn spec_face_visible(
    g: Seq<BlockType>,
    n: int,
    size: int,
    d: int,
    slice: int,
    u: int,
    v: int,
) -> bool {
    let x = spec_cell_x(d, slice, u, v);
    let y = spec_cell_y(d, slice, u, v);
    let z = spec_cell_z(d, slice, u, v);
    &&& 1 <= slice <= size
    &&& 1 <= u <= size
    &&& 1 <= v <= size
    &&& spec_solid_at(g, n, x, y, z)
    &&& !spec_solid_at(g, n, x + spec_dir_dx(d), y + spec_dir_dy(d), z + spec_dir_dz(d))
}

/// One merged rectangle of faces: direction, slice, minimum plane
/// corner, extents, and the uniform block kind of its cells.
#[derive(Clone, Copy, PartialEq, Eq, Structural, Debug)]
pub struct Quad {
    pub dir: u8,
    pub slice: usize,
    pub u0: usize,
    pub v0: usize,
    pub w: usize,
    pub h: usize,
    pub block: BlockType,
}

impl Quad {
    /// Whether this quad covers the face at `(d, slice, u, v)`.
    pub open spec fn covers(self, d: int, slice: int, u: int, v: int) -> bool {
        &&& self.dir == d
        &&& self.slice == slice
        &&& self.u0 <= u < self.u0 + self.w
        &&& self.v0 <= v < self.v0 + self.h
    }

    /// A quad in good standing for grid `g`: within bounds, covering
    /// only visible faces, all of its own block kind.
    pub open spec fn wf(self, g: Seq<BlockType>, n: int, size: int) -> bool {
        &&& self.dir < 6
        &&& 1 <= self.slice <= size
        &&& 1 <= self.u0
        &&& 1 <= self.v0
        &&& 1 <= self.w
        &&& 1 <= self.h
        &&& self.u0 + self.w <= size + 1
        &&& self.v0 + self.h <= size + 1
        &&& forall|u: int, v: int|
            self.covers(self.dir as int, self.slice as int, u, v) ==> spec_face_visible(
                g,
                n,
                size,
                self.dir as int,
                self.slice as int,
                u,
                v,
            ) && spec_block_at(g, n, self.dir as int, self.slice as int, u, v) == self.block
    }
}

/// Whether any quad of `qs` covers the face at `(d, slice, u, v)`.
pub open spec fn spec_covered(qs: Seq<Quad>, d: int, slice: int, u: int, v: int) -> bool {
    exists|i: int| 0 <= i < qs.len() && (#[trigger] qs[i]).covers(d, slice, u, v)
}

/// No two quads of `qs` cover a common face.
pub open spec fn spec_disjoint(qs: Seq<Quad>) -> bool {
    forall|i: int, j: int, d: int, slice: int, u: int, v: int|
        0 <= i < j < qs.len() ==> !((#[trigger] qs[i].covers(d, slice, u, v)) && (#[trigger] qs[j].covers(
            d,
            slice,
            u,
            v,
        )))
}

/// The visited flag of plane position `(u, v)` in a row-major `size`
/// by `size` mask.
pub open spec fn spec_vis(vs: Seq<bool>, size: int, u: int, v: int) -> bool {
    vs[(u - 1) + (v - 1) * size]
}

proof fn lemma_plane_index_injective(size: int, u: int, v: int, u2: int, v2: int)
    requires
        1 <= size,
        1 <= u <= size,
        1 <= v <= size,
        1 <= u2 <= size,
        1 <= v2 <= size,
        (u - 1) + (v - 1) * size == (u2 - 1) + (v2 - 1) * size,
    ensures
        u == u2 && v == v2,
{
    assert(u == u2 && v == v2) by (nonlinear_arith)
        requires
            1 <= size,
            1 <= u <= size,
            1 <= v <= size,
            1 <= u2 <= size,
            1 <= v2 <= size,
            (u - 1) + (v - 1) * size == (u2 - 1) + (v2 - 1) * size,
    {
    }
}

proof fn lemma_plane_index_bounds(size: int, u: int, v: int)
    requires
        1 <= size <= 32,
        1 <= u <= size,
        1 <= v <= size,
    ensures
        0 <= (u - 1) + (v - 1) * size < size * size,
        (v - 1) * size <= 1024,
        size * size <= 1024,
    {
    assert(0 <= (u - 1) + (v - 1) * size < size * size && (v - 1) * size <= 1024 && size * size
        <= 1024) by (nonlinear_arith)
        requires
            1 <= size <= 32,
            1 <= u <= size,
            1 <= v <= size,
    {
    }
}

/// Read the visited flag at `(u, v)`.
fn get_vis(vs: &Vec<bool>, size: usize, u: usize, v: usize) -> (r: bool)
    requires
        1 <= size <= 32,
        vs@.len() == size * size,
        1 <= u <= size,
        1 <= v <= size,
    ensures
        r == spec_vis(vs@, size as int, u as int, v as int),
{
    proof {
        lemma_plane_index_bounds(size as int, u as int, v as int);
    }
    vs[(u - 1) + (v - 1) * size]
}

/// Set the visited flag at `(u, v)`.
fn set_vis(vs: &mut Vec<bool>, size: usize, u: usize, v: usize)
    requires
        1 <= size <= 32,
        old(vs)@.len() == size * size,
        1 <= u <= size,
        1 <= v <= size,
    ensures
        final(vs)@.len() == old(vs)@.len(),
        forall|u2: int, v2: int|
            1 <= u2 <= size && 1 <= v2 <= size ==> #[trigger] spec_vis(
                final(vs)@,
                size as int,
                u2,
                v2,
            ) == if u2 == u && v2 == v {
                true
            } else {
                spec_vis(old(vs)@, size as int, u2, v2)
            },
{
    proof {
        lemma_plane_index_bounds(size as int, u as int, v as int);
    }
    let i: usize = (u - 1) + (v - 1) * size;
    vs.set(i, true);
    proof {
        assert forall|u2: int, v2: int| 1 <= u2 <= size && 1 <= v2 <= size implies #[trigger] spec_vis(
            vs@,
            size as int,
            u2,
            v2,
        ) == if u2 == u && v2 == v {
            true
        } else {
            spec_vis(old(vs)@, size as int, u2, v2)
        } by {
            lemma_plane_index_bounds(size as int, u2, v2);
            if (u2 - 1) + (v2 - 1) * size == i {
                lemma_plane_index_injective(size as int, u as int, v as int, u2, v2);
            }
        }
    }
}

/// Whether the face at `(d, slice, u, v)` is part of the surface.
fn face_visible(g: &VoxelGrid, size: usize, d: u8, slice: usize, u: usize, v: usize) -> (r: bool)
    requires
        g.wf(),
        g.n == size + 3,
        1 <= size <= 32,
        d < 6,
        1 <= slice <= size,
        1 <= u <= size,
        1 <= v <= size,
    ensures
        r == spec_face_visible(g@, g.n as int, size as int, d as int, slice as int, u as int, v as int),
{
    let (x, y, z): (usize, usize, usize) = if d == 0 || d == 1 {
        (slice, u, v)
    } else if d == 2 || d == 3 {
        (u, slice, v)
    } else {
        (u, v, slice)
    };
    let c = g.at(x, y, z);
    if !c.get_visibility() {
        return false;
    }
    let (nx, ny, nz): (usize, usize, usize) = if d == 0 {
        (x + 1, y, z)
    } else if d == 1 {
        (x - 1, y, z)
    } else if d == 2 {
        (x, y + 1, z)
    } else if d == 3 {
        (x, y - 1, z)
    } else if d == 4 {
        (x, y, z + 1)
    } else {
        (x, y, z - 1)
    };
    let nb = g.at(nx, ny, nz);
    !nb.get_visibility()
}

/// The block at plane position `(u, v)` of a slice.
fn block_at(g: &VoxelGrid, size: usize, d: u8, slice: usize, u: usize, v: usize) -> (b: BlockType)
    requires
        g.wf(),
        g.n == size + 3,
        1 <= size <= 32,
        d < 6,
        1 <= slice <= size,
        1 <= u <= size,
        1 <= v <= size,
    ensures
        b == spec_block_at(g@, g.n as int, d as int, slice as int, u as int, v as int),
{
    let (x, y, z): (usize, usize, usize) = if d == 0 || d == 1 {
        (slice, u, v)
    } else if d == 2 || d == 3 {
        (u, slice, v)
    } else {
        (u, v, slice)
    };
    g.at(x, y, z)
}


/// Whether the face at `(u, v)` may join a growing quad of block `b`:
/// visible, of the same block kind, and not claimed by an earlier quad.
pub open spec fn spec_joinable(
    g: Seq<BlockType>,
    n: int,
    vs: Seq<bool>,
    size: int,
    d: int,
    slice: int,
    u: int,
    v: int,
    b: BlockType,
) -> bool {
    &&& spec_face_visible(g, n, size, d, slice, u, v)
    &&& spec_block_at(g, n, d, slice, u, v) == b
    &&& !spec_vis(vs, size, u, v)
}

/// Whether the face at `(u, v)` can join a quad of block `b`: visible,
/// of the same block kind, and not claimed by an earlier quad.
fn joinable(
    g: &VoxelGrid,
    vs: &Vec<bool>,
    size: usize,
    d: u8,
    slice: usize,
    u: usize,
    v: usize,
    b: BlockType,
) -> (r: bool)
    requires
        g.wf(),
        g.n == size + 3,
        1 <= size <= 32,
        vs@.len() == size * size,
        d < 6,
        1 <= slice <= size,
        1 <= u <= size,
        1 <= v <= size,
    ensures
        r == spec_joinable(
            g@,
            g.n as int,
            vs@,
            size as int,
            d as int,
            slice as int,
            u as int,
            v as int,
            b,
        ),
{
    if get_vis(vs, size, u, v) {
        return false;
    }
    if !face_visible(g, size, d, slice, u, v) {
        return false;
    }
    let c = block_at(g, size, d, slice, u, v);
    c == b
}

/// Whether the whole row `u0 .. u0 + w` at height `v` can join a quad of
/// block `b`.
fn row_joinable(
    g: &VoxelGrid,
    vs: &Vec<bool>,
    size: usize,
    d: u8,
    slice: usize,
    u0: usize,
    w: usize,
    v: usize,
    b: BlockType,
) -> (r: bool)
    requires
        g.wf(),
        g.n == size + 3,
        1 <= size <= 32,
        vs@.len() == size * size,
        d < 6,
        1 <= slice <= size,
        1 <= u0,
        1 <= w,
        u0 + w <= size + 1,
        1 <= v <= size,
    ensures
        r == (forall|k: int|
            u0 <= k < u0 + w ==> #[trigger] spec_joinable(
                g@,
                g.n as int,
                vs@,
                size as int,
                d as int,
                slice as int,
                k,
                v as int,
                b,
            )),
{
    let mut k: usize = 0;
    while k < w
        invariant
            k <= w,
            g.wf(),
            g.n == size + 3,
            1 <= size <= 32,
            vs@.len() == size * size,
            d < 6,
            1 <= slice <= size,
            1 <= u0,
            1 <= w,
            u0 + w <= size + 1,
            1 <= v <= size,
            forall|j: int|
                u0 <= j < u0 + k ==> #[trigger] spec_joinable(
                    g@,
                    g.n as int,
                    vs@,
                    size as int,
                    d as int,
                    slice as int,
                    j,
                    v as int,
                    b,
                ),
        decreases w - k,
    {
        let ok = joinable(g, vs, size, d, slice, u0 + k, v, b);
        if !ok {
            proof {
                assert(!spec_joinable(
                    g@,
                    g.n as int,
                    vs@,
                    size as int,
                    d as int,
                    slice as int,
                    u0 + k,
                    v as int,
                    b,
                ));
            }
            return false;
        }
        k = k + 1;
    }
    true
}

/// The working invariant of one slice scan: claimed faces are visible,
/// the claimed set is exactly what the emitted quads cover, every quad
/// is in good standing for this slice, and no face is covered twice.
pub open spec fn spec_slice_inv(
    g: Seq<BlockType>,
    n: int,
    size: int,
    d: int,
    slice: int,
    vs: Seq<bool>,
    qs: Seq<Quad>,
) -> bool {
    &&& forall|u: int, v: int|
        1 <= u <= size && 1 <= v <= size && #[trigger] spec_vis(vs, size, u, v)
            ==> spec_face_visible(g, n, size, d, slice, u, v)
    &&& forall|u: int, v: int|
        #![trigger spec_vis(vs, size, u, v)]
        #![trigger spec_covered(qs, d, slice, u, v)]
        1 <= u <= size && 1 <= v <= size ==> (spec_vis(vs, size, u, v) <==> spec_covered(
            qs,
            d,
            slice,
            u,
            v,
        ))
    &&& forall|i: int|
        0 <= i < qs.len() ==> (#[trigger] qs[i]).wf(g, n, size) && qs[i].dir == d && qs[i].slice
            == slice
    &&& spec_disjoint(qs)
}

proof fn lemma_covered_push(qs: Seq<Quad>, q: Quad, d: int, slice: int, u: int, v: int)
    ensures
        spec_covered(qs.push(q), d, slice, u, v) <==> (spec_covered(qs, d, slice, u, v)
            || q.covers(d, slice, u, v)),
{
    if spec_covered(qs, d, slice, u, v) {
        let i = choose|i: int| 0 <= i < qs.len() && (#[trigger] qs[i]).covers(d, slice, u, v);
        assert(qs.push(q)[i].covers(d, slice, u, v));
    }
    if q.covers(d, slice, u, v) {
        assert(qs.push(q)[qs.len() as int].covers(d, slice, u, v));
    }
    if spec_covered(qs.push(q), d, slice, u, v) {
        let i = choose|i: int|
            0 <= i < qs.push(q).len() && (#[trigger] qs.push(q)[i]).covers(d, slice, u, v);
        if i < qs.len() {
            assert(qs[i].covers(d, slice, u, v));
        }
    }
}

/// Greedily mesh one slice of one direction: the returned quads exactly
/// cover the slice's visible faces, without overlap, each uniform in
/// block kind.
fn mesh_slice(g: &VoxelGrid, size: usize, d: u8, slice: usize) -> (out: Vec<Quad>)
    requires
        g.wf(),
        g.n == size + 3,
        1 <= size <= 32,
        d < 6,
        1 <= slice <= size,
    ensures
        out@.len() <= size * size,
        forall|i: int|
            0 <= i < out@.len() ==> (#[trigger] out@[i]).wf(g@, g.n as int, size as int)
                && out@[i].dir == d && out@[i].slice == slice,
        forall|u: int, v: int|
            #![trigger spec_covered(out@, d as int, slice as int, u, v)]
            #![trigger spec_face_visible(g@, g.n as int, size as int, d as int, slice as int, u, v)]
            spec_covered(out@, d as int, slice as int, u, v) <==> spec_face_visible(
                g@,
                g.n as int,
                size as int,
                d as int,
                slice as int,
                u,
                v,
            ),
        spec_disjoint(out@),
{
    let ghost n = g.n as int;
    let mut out: Vec<Quad> = Vec::new();
    let mut vis: Vec<bool> = Vec::new();
    proof {
        assert(size * size <= 1024) by (nonlinear_arith)
            requires
                size <= 32,
        {
        }
    }
    let total: usize = size * size;
    let mut i: usize = 0;
    while i < total
        invariant
            i <= total,
            vis@.len() == i,
            forall|j: int| 0 <= j < i ==> !(#[trigger] vis@[j]),
        decreases total - i,
    {
        vis.push(false);
        i = i + 1;
    }
    proof {
        assert forall|u: int, v: int| 1 <= u <= size && 1 <= v <= size implies !spec_vis(
            vis@,
            size as int,
            u,
            v,
        ) by {
            lemma_plane_index_bounds(size as int, u, v);
        }
    }
    let mut v: usize = 1;
    while v <= size
        invariant
            1 <= v <= size + 1,
            g.wf(),
            g.n == size + 3,
            n == g.n as int,
            1 <= size <= 32,
            d < 6,
            1 <= slice <= size,
            vis@.len() == size * size,
            out@.len() <= (v - 1) * size,
            spec_slice_inv(g@, n, size as int, d as int, slice as int, vis@, out@),
            forall|u2: int, v2: int|
                1 <= u2 <= size && 1 <= v2 < v && spec_face_visible(
                    g@,
                    n,
                    size as int,
                    d as int,
                    slice as int,
                    u2,
                    v2,
                ) ==> #[trigger] spec_vis(vis@, size as int, u2, v2),
        decreases size + 1 - v,
    {
        let mut u: usize = 1;
        while u <= size
            invariant
                1 <= u <= size + 1,
                1 <= v <= size,
                g.wf(),
                g.n == size + 3,
                n == g.n as int,
                1 <= size <= 32,
                d < 6,
                1 <= slice <= size,
                vis@.len() == size * size,
                out@.len() <= (v - 1) * size + (u - 1),
                spec_slice_inv(g@, n, size as int, d as int, slice as int, vis@, out@),
                forall|u2: int, v2: int|
                    1 <= u2 <= size && 1 <= v2 <= size && (v2 < v || (v2 == v && u2 < u))
                        && spec_face_visible(g@, n, size as int, d as int, slice as int, u2, v2)
                        ==> #[trigger] spec_vis(vis@, size as int, u2, v2),
            decreases size + 1 - u,
        {
            let visited_here = get_vis(&vis, size, u, v);
            let visible_here = face_visible(g, size, d, slice, u, v);
            if visited_here || !visible_here {
                u = u + 1;
            } else {
                let b = block_at(g, size, d, slice, u, v);
                let mut w: usize = 1;
                while u + w <= size && joinable(g, &vis, size, d, slice, u + w, v, b)
                    invariant
                        1 <= w,
                        u + w <= size + 1,
                        1 <= u <= size,
                        1 <= v <= size,
                        g.wf(),
                        g.n == size + 3,
                        n == g.n as int,
                        1 <= size <= 32,
                        d < 6,
                        1 <= slice <= size,
                        vis@.len() == size * size,
                        forall|k: int|
                            u <= k < u + w ==> #[trigger] spec_joinable(
                                g@,
                                n,
                                vis@,
                                size as int,
                                d as int,
                                slice as int,
                                k,
                                v as int,
                                b,
                            ),
                    decreases size - w,
                {
                    w = w + 1;
                }
                let mut hh: usize = 1;
                while v + hh <= size && row_joinable(g, &vis, size, d, slice, u, w, v + hh, b)
                    invariant
                        1 <= hh,
                        v + hh <= size + 1,
                        1 <= u <= size,
                        1 <= v <= size,
                        1 <= w,
                        u + w <= size + 1,
                        g.wf(),
                        g.n == size + 3,
                        n == g.n as int,
                        1 <= size <= 32,
                        d < 6,
                        1 <= slice <= size,
                        vis@.len() == size * size,
                        forall|k: int, v2: int|
                            u <= k < u + w && v < v2 < v + hh ==> #[trigger] spec_joinable(
                                g@,
                                n,
                                vis@,
                                size as int,
                                d as int,
                                slice as int,
                                k,
                                v2,
                                b,
                            ),
                    decreases size - hh,
                {
                    hh = hh + 1;
                }
                proof {
                    assert forall|k: int, v2: int| u <= k < u + w && v <= v2 < v + hh implies
                        #[trigger] spec_joinable(
                        g@,
                        n,
                        vis@,
                        size as int,
                        d as int,
                        slice as int,
                        k,
                        v2,
                        b,
                    ) by {
                        if v2 == v {
                            assert(spec_joinable(
                                g@,
                                n,
                                vis@,
                                size as int,
                                d as int,
                                slice as int,
                                k,
                                v as int,
                                b,
                            ));
                        }
                    }
                }
                let ghost vis0 = vis@;
                let mut dv: usize = 0;
                while dv < hh
                    invariant
                        dv <= hh,
                        1 <= hh,
                        1 <= u <= size,
                        1 <= v <= size,
                        1 <= w,
                        u + w <= size + 1,
                        v + hh <= size + 1,
                        1 <= size <= 32,
                        vis@.len() == size * size,
                        forall|u2: int, v2: int|
                            1 <= u2 <= size && 1 <= v2 <= size ==> (#[trigger] spec_vis(
                                vis@,
                                size as int,
                                u2,
                                v2,
                            ) <==> (spec_vis(vis0, size as int, u2, v2) || (u <= u2 < u + w && v
                                <= v2 < v + dv))),
                    decreases hh - dv,
                {
                    let mut du: usize = 0;
                    while du < w
                        invariant
                            du <= w,
                            dv < hh,
                            1 <= u <= size,
                            1 <= v <= size,
                            1 <= w,
                            u + w <= size + 1,
                            v + hh <= size + 1,
                            1 <= size <= 32,
                            vis@.len() == size * size,
                            forall|u2: int, v2: int|
                                1 <= u2 <= size && 1 <= v2 <= size ==> (#[trigger] spec_vis(
                                    vis@,
                                    size as int,
                                    u2,
                                    v2,
                                ) <==> (spec_vis(vis0, size as int, u2, v2) || (u <= u2 < u + w
                                    && v <= v2 < v + dv) || (v2 == v + dv && u <= u2 < u + du))),
                        decreases w - du,
                    {
                        set_vis(&mut vis, size, u + du, v + dv);
                        du = du + 1;
                    }
                    dv = dv + 1;
                }
                let q = Quad { dir: d, slice, u0: u, v0: v, w, h: hh, block: b };
                proof {
                    assert forall|u2: int, v2: int|
                        q.covers(d as int, slice as int, u2, v2) implies spec_face_visible(
                        g@,
                        n,
                        size as int,
                        d as int,
                        slice as int,
                        u2,
                        v2,
                    ) && spec_block_at(g@, n, d as int, slice as int, u2, v2) == b by {
                        assert(spec_joinable(
                            g@,
                            n,
                            vis0,
                            size as int,
                            d as int,
                            slice as int,
                            u2,
                            v2,
                            b,
                        ));
                    }
                    assert(q.wf(g@, n, size as int));
                }
                let ghost qs0 = out@;
                out.push(q);
                proof {
                    assert(out@ == qs0.push(q));
                    assert forall|u2: int, v2: int|
                        #![trigger spec_vis(vis@, size as int, u2, v2)]
                        #![trigger spec_covered(out@, d as int, slice as int, u2, v2)]
                        1 <= u2 <= size && 1 <= v2 <= size implies (spec_vis(vis@, size as int, u2, v2)
                        <==> spec_covered(out@, d as int, slice as int, u2, v2)) by {
                        lemma_covered_push(qs0, q, d as int, slice as int, u2, v2);
                    }
                    assert forall|u2: int, v2: int|
                        1 <= u2 <= size && 1 <= v2 <= size && #[trigger] spec_vis(
                        vis@,
                        size as int,
                        u2,
                        v2,
                    ) implies spec_face_visible(g@, n, size as int, d as int, slice as int, u2, v2) by {
                        if !spec_vis(vis0, size as int, u2, v2) {
                            assert(spec_joinable(
                                g@,
                                n,
                                vis0,
                                size as int,
                                d as int,
                                slice as int,
                                u2,
                                v2,
                                b,
                            ));
                        }
                    }
                    assert forall|i2: int, j2: int, dd: int, ss: int, u2: int, v2: int|
                        0 <= i2 < j2 < out@.len() implies !((#[trigger] out@[i2].covers(
                        dd,
                        ss,
                        u2,
                        v2,
                    )) && (#[trigger] out@[j2].covers(dd, ss, u2, v2))) by {
                        if j2 == out@.len() - 1 && out@[i2].covers(dd, ss, u2, v2) && out@[j2].covers(
                            dd,
                            ss,
                            u2,
                            v2,
                        ) {
                            assert(dd == d as int && ss == slice as int);
                            assert(spec_covered(qs0, dd, ss, u2, v2));
                            assert(spec_vis(vis0, size as int, u2, v2));
                            assert(spec_joinable(
                                g@,
                                n,
                                vis0,
                                size as int,
                                d as int,
                                slice as int,
                                u2,
                                v2,
                                b,
                            ));
                        }
                    }
                }
                proof {
                    assert((v - 1) * size + (u + w - 1) <= (v - 1) * size + size) by (nonlinear_arith)
                        requires
                            u + w <= size + 1,
                            1 <= size,
                            1 <= v,
                    {
                    }
                }
                u = u + w;
            }
        }
        proof {
            assert((v - 1) * size + (size + 1 - 1) == ((v + 1) - 1) * size) by (nonlinear_arith);
            assert(((v + 1) - 1) * size <= size * size) by (nonlinear_arith)
                requires
                    1 <= v + 1 <= size + 1,
                    1 <= size,
            {
            }
        }
        v = v + 1;
    }
    proof {
        assert forall|u2: int, v2: int|
            #![trigger spec_covered(out@, d as int, slice as int, u2, v2)]
            #![trigger spec_face_visible(g@, n, size as int, d as int, slice as int, u2, v2)]
            true implies (spec_covered(out@, d as int, slice as int, u2, v2)
            <==> spec_face_visible(g@, n, size as int, d as int, slice as int, u2, v2)) by {
            if spec_covered(out@, d as int, slice as int, u2, v2) {
                let i2 = choose|i2: int|
                    0 <= i2 < out@.len() && (#[trigger] out@[i2]).covers(
                        d as int,
                        slice as int,
                        u2,
                        v2,
                    );
                assert(out@[i2].wf(g@, n, size as int));
            }
            if spec_face_visible(g@, n, size as int, d as int, slice as int, u2, v2) {
                assert(spec_vis(vis@, size as int, u2, v2));
            }
        }
    }
    out
}

proof fn lemma_covered_append(a: Seq<Quad>, b: Seq<Quad>, d: int, slice: int, u: int, v: int)
    ensures
        spec_covered(a + b, d, slice, u, v) <==> (spec_covered(a, d, slice, u, v) || spec_covered(
            b,
            d,
            slice,
            u,
            v,
        )),
{
    if spec_covered(a, d, slice, u, v) {
        let i = choose|i: int| 0 <= i < a.len() && (#[trigger] a[i]).covers(d, slice, u, v);
        assert((a + b)[i].covers(d, slice, u, v));
    }
    if spec_covered(b, d, slice, u, v) {
        let i = choose|i: int| 0 <= i < b.len() && (#[trigger] b[i]).covers(d, slice, u, v);
        assert((a + b)[a.len() + i].covers(d, slice, u, v));
    }
    if spec_covered(a + b, d, slice, u, v) {
        let i = choose|i: int|
            0 <= i < (a + b).len() && (#[trigger] (a + b)[i]).covers(d, slice, u, v);
        if i < a.len() {
            assert(a[i].covers(d, slice, u, v));
        } else {
            assert(b[i - a.len()].covers(d, slice, u, v));
        }
    }
}

/// Whether direction `d2`, slice `s2` has already been scanned when the
/// sweep stands at direction `d`, slice `s`.
pub open spec fn spec_scanned(d2: int, s2: int, d: int, s: int) -> bool {
    d2 < d || (d2 == d && s2 < s)
}

/// Greedily mesh a whole padded grid: the returned quads cover exactly
/// the visible faces of the grid, each face once, each quad uniform in
/// block kind.  Re-meshing an equal grid covers the same face set.
pub fn mesh_quads(g: &VoxelGrid, size: usize) -> (qs: Vec<Quad>)
    requires
        g.wf(),
        g.n == size + 3,
        1 <= size <= 32,
    ensures
        qs@.len() <= 200000,
        forall|i: int| 0 <= i < qs@.len() ==> (#[trigger] qs@[i]).wf(g@, g.n as int, size as int),
        forall|d: int, slice: int, u: int, v: int|
            #![trigger spec_covered(qs@, d, slice, u, v)]
            #![trigger spec_face_visible(g@, g.n as int, size as int, d, slice, u, v)]
            0 <= d < 6 ==> (spec_covered(qs@, d, slice, u, v) <==> spec_face_visible(
                g@,
                g.n as int,
                size as int,
                d,
                slice,
                u,
                v,
            )),
        spec_disjoint(qs@),
{
    let ghost n = g.n as int;
    let mut out: Vec<Quad> = Vec::new();
    let mut d: u8 = 0;
    while d < 6
        invariant
            d <= 6,
            g.wf(),
            g.n == size + 3,
            n == g.n as int,
            1 <= size <= 32,
            out@.len() <= d * (size * size * size),
            forall|i: int|
                0 <= i < out@.len() ==> (#[trigger] out@[i]).wf(g@, n, size as int)
                    && spec_scanned(out@[i].dir as int, out@[i].slice as int, d as int, 1),
            forall|d2: int, s2: int, u: int, v: int|
                #![trigger spec_covered(out@, d2, s2, u, v)]
                #![trigger spec_face_visible(g@, n, size as int, d2, s2, u, v)]
                0 <= d2 && spec_scanned(d2, s2, d as int, 1) ==> (spec_covered(out@, d2, s2, u, v)
                    <==> spec_face_visible(g@, n, size as int, d2, s2, u, v)),
            spec_disjoint(out@),
        decreases 6 - d,
    {
        let mut s: usize = 1;
        while s <= size
            invariant
                1 <= s <= size + 1,
                d < 6,
                g.wf(),
                g.n == size + 3,
                n == g.n as int,
                1 <= size <= 32,
                out@.len() <= d * (size * size * size) + (s - 1) * (size * size),
                forall|i: int|
                    0 <= i < out@.len() ==> (#[trigger] out@[i]).wf(g@, n, size as int)
                        && spec_scanned(out@[i].dir as int, out@[i].slice as int, d as int, s as int),
                forall|d2: int, s2: int, u: int, v: int|
                    #![trigger spec_covered(out@, d2, s2, u, v)]
                    #![trigger spec_face_visible(g@, n, size as int, d2, s2, u, v)]
                    0 <= d2 && spec_scanned(d2, s2, d as int, s as int) ==> (spec_covered(
                        out@,
                        d2,
                        s2,
                        u,
                        v,
                    ) <==> spec_face_visible(g@, n, size as int, d2, s2, u, v)),
                spec_disjoint(out@),
            decreases size + 1 - s,
        {
            let ghost out0 = out@;
            let mut part = mesh_slice(g, size, d, s);
            let ghost part0 = part@;
            out.append(&mut part);
            proof {
                assert(out@ == out0 + part0);
                assert forall|d2: int, s2: int, u: int, v: int|
                    #![trigger spec_covered(out@, d2, s2, u, v)]
                    #![trigger spec_face_visible(g@, n, size as int, d2, s2, u, v)]
                    0 <= d2 && spec_scanned(d2, s2, d as int, s as int + 1) implies (spec_covered(
                    out@,
                    d2,
                    s2,
                    u,
                    v,
                ) <==> spec_face_visible(g@, n, size as int, d2, s2, u, v)) by {
                    lemma_covered_append(out0, part0, d2, s2, u, v);
                    if d2 == d as int && s2 == s as int {
                        assert(!spec_covered(out0, d2, s2, u, v));
                    } else {
                        if spec_covered(part0, d2, s2, u, v) {
                            let i = choose|i: int|
                                0 <= i < part0.len() && (#[trigger] part0[i]).covers(d2, s2, u, v);
                        }
                        assert(!spec_covered(part0, d2, s2, u, v));
                    }
                }
                assert forall|i2: int, j2: int, dd: int, ss: int, u2: int, v2: int|
                    0 <= i2 < j2 < out@.len() implies !((#[trigger] out@[i2].covers(dd, ss, u2, v2))
                    && (#[trigger] out@[j2].covers(dd, ss, u2, v2))) by {
                    if j2 < out0.len() {
                    } else if i2 >= out0.len() {
                        assert(out@[i2] == part0[i2 - out0.len()]);
                        assert(out@[j2] == part0[j2 - out0.len()]);
                    } else {
                        if out@[i2].covers(dd, ss, u2, v2) && out@[j2].covers(dd, ss, u2, v2) {
                            assert(out0[i2].covers(dd, ss, u2, v2));
                            assert(part0[j2 - out0.len()].covers(dd, ss, u2, v2));
                            assert(dd == d as int && ss == s as int);
                            assert(spec_scanned(out0[i2].dir as int, out0[i2].slice as int, d as int, s as int));
                        }
                    }
                }
            }
            proof {
                assert(d * (size * size * size) + (s - 1) * (size * size) + size * size == d * (size
                    * size * size) + ((s + 1) - 1) * (size * size)) by (nonlinear_arith);
            }
            s = s + 1;
        }
        proof {
            assert(d * (size * size * size) + (size + 1 - 1) * (size * size) == (d + 1) * (size
                * size * size)) by (nonlinear_arith);
            assert((d + 1) * (size * size * size) <= 6 * (size * size * size)) by (nonlinear_arith)
                requires
                    d + 1 <= 6,
                    1 <= size,
            {
            }
        }
        d = d + 1;
    }
    proof {
        assert(6 * (size * size * size) <= 200000) by (nonlinear_arith)
            requires
                1 <= size <= 32,
        {
        }
        assert forall|d2: int, slice: int, u: int, v: int|
            #![trigger spec_covered(out@, d2, slice, u, v)]
            #![trigger spec_face_visible(g@, n, size as int, d2, slice, u, v)]
            0 <= d2 < 6 implies (spec_covered(out@, d2, slice, u, v) <==> spec_face_visible(
            g@,
            n,
            size as int,
            d2,
            slice,
            u,
            v,
        )) by {
            assert(spec_scanned(d2, slice, 6, 1) == (d2 < 6));
        }
    }
    out
}

/// Two quad lists that each exactly cover the visible faces of the same
/// grid cover the same face set: re-meshing is geometrically idempotent
/// whatever rectangle decomposition either run picked.
pub proof fn lemma_remesh_equivalent(
    q1: Seq<Quad>,
    q2: Seq<Quad>,
    g: Seq<BlockType>,
    n: int,
    size: int,
)
    requires
        forall|d: int, slice: int, u: int, v: int|
            #![trigger spec_covered(q1, d, slice, u, v)]
            0 <= d < 6 ==> (spec_covered(q1, d, slice, u, v) <==> spec_face_visible(
                g,
                n,
                size,
                d,
                slice,
                u,
                v,
            )),
        forall|d: int, slice: int, u: int, v: int|
            #![trigger spec_covered(q2, d, slice, u, v)]
            0 <= d < 6 ==> (spec_covered(q2, d, slice, u, v) <==> spec_face_visible(
                g,
                n,
                size,
                d,
                slice,
                u,
                v,
            )),
    ensures
        forall|d: int, slice: int, u: int, v: int|
            #![trigger spec_covered(q1, d, slice, u, v)]
            #![trigger spec_covered(q2, d, slice, u, v)]
            0 <= d < 6 ==> (spec_covered(q1, d, slice, u, v) <==> spec_covered(q2, d, slice, u, v)),
{
    assert forall|d: int, slice: int, u: int, v: int|
        #![trigger spec_covered(q1, d, slice, u, v)]
        #![trigger spec_covered(q2, d, slice, u, v)]
        0 <= d < 6 implies (spec_covered(q1, d, slice, u, v) <==> spec_covered(
        q2,
        d,
        slice,
        u,
        v,
    )) by {
        assert(spec_covered(q1, d, slice, u, v) <==> spec_face_visible(g, n, size, d, slice, u, v));
        assert(spec_covered(q2, d, slice, u, v) <==> spec_face_visible(g, n, size, d, slice, u, v));
    }
}

/// An integer 3-vector: block-space positions and face normals.
#[derive(Clone, Copy, PartialEq, Eq, Structural, Debug)]
pub struct Vec3i {
    pub x: i32,
    pub y: i32,
    pub z: i32,
}

/// The in-plane coordinate of the face plane of a quad: positive faces
/// sit on the far side of their cell, negative faces on the near side,
/// both scaled to block space and compensated for the padding skirt.
pub open spec fn spec_plane_pos(d: int, slice: int, lod: int) -> int {
    if d == 0 || d == 2 || d == 4 {
        slice * lod
    } else {
        (slice - 1) * lod
    }
}

/// First plane-axis coordinate of corner `k` of a quad (corner order is
/// reversed for negative faces, keeping a consistent outward winding).
pub open spec fn spec_corner_a(q: Quad, lod: int, k: int) -> int {
    let ua = (q.u0 - 1) * lod;
    let ub = (q.u0 + q.w - 1) * lod;
    if q.dir == 0 || q.dir == 2 || q.dir == 4 {
        if k == 0 || k == 3 {
            ua
        } else {
            ub
        }
    } else {
        if k == 0 || k == 1 {
            ua
        } else {
            ub
        }
    }
}

/// Second plane-axis coordinate of corner `k` of a quad.
pub open spec fn spec_corner_b(q: Quad, lod: int, k: int) -> int {
    let va = (q.v0 - 1) * lod;
    let vb = (q.v0 + q.h - 1) * lod;
    if q.dir == 0 || q.dir == 2 || q.dir == 4 {
        if k == 0 || k == 1 {
            va
        } else {
            vb
        }
    } else {
        if k == 0 || k == 3 {
            va
        } else {
            vb
        }
    }
}

pub open spec fn spec_corner_x(q: Quad, lod: int, k: int) -> int {
    if q.dir == 0 || q.dir == 1 {
        spec_plane_pos(q.dir as int, q.slice as int, lod)
    } else {
        spec_corner_a(q, lod, k)
    }
}

pub open spec fn spec_corner_y(q: Quad, lod: int, k: int) -> int {
    if q.dir == 0 || q.dir == 1 {
        spec_corner_a(q, lod, k)
    } else if q.dir == 2 || q.dir == 3 {
        spec_plane_pos(q.dir as int, q.slice as int, lod)
    } else {
        spec_corner_b(q, lod, k)
    }
}

pub open spec fn spec_corner_z(q: Quad, lod: int, k: int) -> int {
    if q.dir == 4 || q.dir == 5 {
        spec_plane_pos(q.dir as int, q.slice as int, lod)
    } else {
        spec_corner_b(q, lod, k)
    }
}

/// Vertex `k` of quad `i` in a position or normal buffer.
pub open spec fn spec_vertex(buf: Seq<Vec3i>, i: int, k: int) -> Vec3i {
    buf[4 * i + k]
}

/// Vertex colour `k` of quad `i` in a colour buffer.
pub open spec fn spec_vertex_color(buf: Seq<Rgba>, i: int, k: int) -> Rgba {
    buf[4 * i + k]
}

/// Entry `k` of the two index triangles of quad `i`.
pub open spec fn spec_tri_index(indices: Seq<u32>, i: int, k: int) -> int {
    indices[6 * i + k] as int
}

/// The renderable geometry of one chunk: the merged quads and the flat
/// vertex buffers derived from them (two triangles per quad).  Positions
/// are block-space integers; the application offsets them by the chunk's
/// world placement and converts as its renderer wants.
pub struct MeshData {
    pub quads: Vec<Quad>,
    pub positions: Vec<Vec3i>,
    pub normals: Vec<Vec3i>,
    pub colors: Vec<Rgba>,
    pub indices: Vec<u32>,
}

impl MeshData {
    /// The buffers spell out the quads: four corners per quad within the
    /// chunk's local cube, the face normal at each corner, the palette
    /// colour of the quad's block, and the `0-1-2 / 0-2-3` triangle pair.
    pub open spec fn buffers_ok(self, lod: int) -> bool {
        &&& self.positions@.len() == 4 * self.quads@.len()
        &&& self.normals@.len() == 4 * self.quads@.len()
        &&& self.colors@.len() == 4 * self.quads@.len()
        &&& self.indices@.len() == 6 * self.quads@.len()
        &&& forall|i: int, k: int|
            0 <= i < self.quads@.len() && 0 <= k < 4 ==> {
                let q = self.quads@[i];
                &&& (#[trigger] spec_vertex(self.positions@, i, k)).x == spec_corner_x(q, lod, k)
                &&& spec_vertex(self.positions@, i, k).y == spec_corner_y(q, lod, k)
                &&& spec_vertex(self.positions@, i, k).z == spec_corner_z(q, lod, k)
                &&& 0 <= spec_vertex(self.positions@, i, k).x <= 32
                &&& 0 <= spec_vertex(self.positions@, i, k).y <= 32
                &&& 0 <= spec_vertex(self.positions@, i, k).z <= 32
                &&& spec_vertex(self.normals@, i, k).x == spec_dir_dx(q.dir as int)
                &&& spec_vertex(self.normals@, i, k).y == spec_dir_dy(q.dir as int)
                &&& spec_vertex(self.normals@, i, k).z == spec_dir_dz(q.dir as int)
                &&& spec_vertex_color(self.colors@, i, k) == crate::block::spec_palette(q.block)
            }
        &&& forall|i: int|
            0 <= i < self.quads@.len() ==> {
                &&& #[trigger] spec_tri_index(self.indices@, i, 0) == 4 * i
                &&& spec_tri_index(self.indices@, i, 1) == 4 * i + 1
                &&& spec_tri_index(self.indices@, i, 2) == 4 * i + 2
                &&& spec_tri_index(self.indices@, i, 3) == 4 * i
                &&& spec_tri_index(self.indices@, i, 4) == 4 * i + 2
                &&& spec_tri_index(self.indices@, i, 5) == 4 * i + 3
            }
    }
}

/// Mesh one chunk's padded grid at a detail level.
///
/// The returned quads exactly cover the grid's visible faces (each face
/// once, nothing between two solids, nothing in the skirt), and the
/// buffers hold two triangles per quad with every vertex inside the
/// local chunk cube `[0, 32]` in each axis.
pub fn mesh_chunk(g: &VoxelGrid, lod: u32) -> (md: MeshData)
    requires
        g.wf(),
        lod == 1 || lod == 2,
        g.n == (if lod == 1 {
            35int
        } else {
            19int
        }),
    ensures
        md.quads@.len() <= 200000,
        forall|i: int|
            0 <= i < md.quads@.len() ==> (#[trigger] md.quads@[i]).wf(
                g@,
                g.n as int,
                g.n - 3,
            ),
        forall|d: int, slice: int, u: int, v: int|
            #![trigger spec_covered(md.quads@, d, slice, u, v)]
            #![trigger spec_face_visible(g@, g.n as int, g.n - 3, d, slice, u, v)]
            0 <= d < 6 ==> (spec_covered(md.quads@, d, slice, u, v) <==> spec_face_visible(
                g@,
                g.n as int,
                g.n - 3,
                d,
                slice,
                u,
                v,
            )),
        spec_disjoint(md.quads@),
        md.buffers_ok(lod as int),
{
    let size: usize = if lod == 1 {
        32
    } else {
        16
    };
    let quads = mesh_quads(g, size);
    let ghost n = g.n as int;
    let mut positions: Vec<Vec3i> = Vec::new();
    let mut normals: Vec<Vec3i> = Vec::new();
    let mut colors: Vec<Rgba> = Vec::new();
    let mut indices: Vec<u32> = Vec::new();
    let count = quads.len();
    let mut i: usize = 0;
    while i < count
        invariant
            i <= count,
            count == quads@.len(),
            count <= 200000,
            lod == 1 || lod == 2,
            size == (if lod == 1 {
                32int
            } else {
                16int
            }),
            g.wf(),
            g.n == size + 3,
            n == g.n as int,
            forall|i2: int|
                0 <= i2 < quads@.len() ==> (#[trigger] quads@[i2]).wf(g@, n, size as int),
            positions@.len() == 4 * i,
            normals@.len() == 4 * i,
            colors@.len() == 4 * i,
            forall|i2: int, k: int|
                0 <= i2 < i && 0 <= k < 4 ==> {
                    let q = quads@[i2];
                    &&& (#[trigger] spec_vertex(positions@, i2, k)).x == spec_corner_x(
                        q,
                        lod as int,
                        k,
                    )
                    &&& spec_vertex(positions@, i2, k).y == spec_corner_y(q, lod as int, k)
                    &&& spec_vertex(positions@, i2, k).z == spec_corner_z(q, lod as int, k)
                    &&& 0 <= spec_vertex(positions@, i2, k).x <= 32
                    &&& 0 <= spec_vertex(positions@, i2, k).y <= 32
                    &&& 0 <= spec_vertex(positions@, i2, k).z <= 32
                    &&& spec_vertex(normals@, i2, k).x == spec_dir_dx(q.dir as int)
                    &&& spec_vertex(normals@, i2, k).y == spec_dir_dy(q.dir as int)
                    &&& spec_vertex(normals@, i2, k).z == spec_dir_dz(q.dir as int)
                    &&& spec_vertex_color(colors@, i2, k) == crate::block::spec_palette(q.block)
                },
        decreases count - i,
    {
        let q = quads[i];
        proof {
            assert(quads@[i as int].wf(g@, n, size as int));
            assert((q.u0 - 1) * lod >= 0 && (q.u0 + q.w - 1) * lod <= size * lod && (q.v0 - 1)
                * lod >= 0 && (q.v0 + q.h - 1) * lod <= size * lod && (q.slice - 1) * lod >= 0
                && q.slice * lod <= size * lod && (q.u0 - 1) * lod <= size * lod && (q.v0 - 1)
                * lod <= size * lod && (q.slice - 1) * lod <= size * lod && size * lod
                <= 32) by (nonlinear_arith)
                requires
                    1 <= q.u0,
                    1 <= q.v0,
                    1 <= q.slice <= size,
                    q.u0 + q.w <= size + 1,
                    q.v0 + q.h <= size + 1,
                    1 <= lod <= 2,
                    size * lod == 32,
            {
            }
        }
        let lodz: usize = lod as usize;
        let plane: usize = if q.dir == 0 || q.dir == 2 || q.dir == 4 {
            q.slice * lodz
        } else {
            (q.slice - 1) * lodz
        };
        let ua: usize = (q.u0 - 1) * lodz;
        let ub: usize = (q.u0 + q.w - 1) * lodz;
        let va: usize = (q.v0 - 1) * lodz;
        let vb: usize = (q.v0 + q.h - 1) * lodz;
        let positive = q.dir == 0 || q.dir == 2 || q.dir == 4;
        let corners_a: [usize; 4] = if positive {
            [ua, ub, ub, ua]
        } else {
            [ua, ua, ub, ub]
        };
        let corners_b: [usize; 4] = if positive {
            [va, va, vb, vb]
        } else {
            [va, vb, vb, va]
        };
        let (nx, ny, nz): (i32, i32, i32) = if q.dir == 0 {
            (1, 0, 0)
        } else if q.dir == 1 {
            (-1, 0, 0)
        } else if q.dir == 2 {
            (0, 1, 0)
        } else if q.dir == 3 {
            (0, -1, 0)
        } else if q.dir == 4 {
            (0, 0, 1)
        } else {
            (0, 0, -1)
        };
        let color = q.block.color();
        let mut k: usize = 0;
        while k < 4
            invariant
                k <= 4,
                positions@.len() == 4 * i + k,
                normals@.len() == 4 * i + k,
                colors@.len() == 4 * i + k,
                q == quads@[i as int],
                i < count,
                count == quads@.len(),
                lod == 1 || lod == 2,
                positive == (q.dir == 0 || q.dir == 2 || q.dir == 4),
                q.dir < 6,
                plane == spec_plane_pos(q.dir as int, q.slice as int, lod as int),
                plane <= 32,
                ua == (q.u0 - 1) * lod && ub == (q.u0 + q.w - 1) * lod && va == (q.v0 - 1) * lod
                    && vb == (q.v0 + q.h - 1) * lod,
                ua <= 32 && ub <= 32 && va <= 32 && vb <= 32,
                corners_a@ == (if positive {
                    seq![ua, ub, ub, ua]
                } else {
                    seq![ua, ua, ub, ub]
                }),
                corners_b@ == (if positive {
                    seq![va, va, vb, vb]
                } else {
                    seq![va, vb, vb, va]
                }),
                nx == spec_dir_dx(q.dir as int) && ny == spec_dir_dy(q.dir as int) && nz
                    == spec_dir_dz(q.dir as int),
                color == crate::block::spec_palette(q.block),
                forall|k2: int|
                    0 <= k2 < k ==> (#[trigger] spec_vertex(positions@, i as int, k2)).x
                        == spec_corner_x(q, lod as int, k2) && spec_vertex(
                        positions@,
                        i as int,
                        k2,
                    ).y == spec_corner_y(q, lod as int, k2) && spec_vertex(
                        positions@,
                        i as int,
                        k2,
                    ).z == spec_corner_z(q, lod as int, k2) && 0 <= spec_vertex(
                        positions@,
                        i as int,
                        k2,
                    ).x <= 32 && 0 <= spec_vertex(positions@, i as int, k2).y <= 32 && 0
                        <= spec_vertex(positions@, i as int, k2).z <= 32 && spec_vertex(
                        normals@,
                        i as int,
                        k2,
                    ).x == spec_dir_dx(q.dir as int) && spec_vertex(normals@, i as int, k2).y
                        == spec_dir_dy(q.dir as int) && spec_vertex(normals@, i as int, k2).z
                        == spec_dir_dz(q.dir as int) && spec_vertex_color(colors@, i as int, k2)
                        == crate::block::spec_palette(q.block),
                forall|i2: int, k2: int|
                    0 <= i2 < i && 0 <= k2 < 4 ==> {
                        let q2 = quads@[i2];
                        &&& (#[trigger] spec_vertex(positions@, i2, k2)).x == spec_corner_x(
                            q2,
                            lod as int,
                            k2,
                        )
                        &&& spec_vertex(positions@, i2, k2).y == spec_corner_y(q2, lod as int, k2)
                        &&& spec_vertex(positions@, i2, k2).z == spec_corner_z(q2, lod as int, k2)
                        &&& 0 <= spec_vertex(positions@, i2, k2).x <= 32
                        &&& 0 <= spec_vertex(positions@, i2, k2).y <= 32
                        &&& 0 <= spec_vertex(positions@, i2, k2).z <= 32
                        &&& spec_vertex(normals@, i2, k2).x == spec_dir_dx(q2.dir as int)
                        &&& spec_vertex(normals@, i2, k2).y == spec_dir_dy(q2.dir as int)
                        &&& spec_vertex(normals@, i2, k2).z == spec_dir_dz(q2.dir as int)
                        &&& spec_vertex_color(colors@, i2, k2) == crate::block::spec_palette(
                            q2.block,
                        )
                    },
            decreases 4 - k,
        {
            let a: usize = corners_a[k];
            let b: usize = corners_b[k];
            let (px, py, pz): (usize, usize, usize) = if q.dir == 0 || q.dir == 1 {
                (plane, a, b)
            } else if q.dir == 2 || q.dir == 3 {
                (a, plane, b)
            } else {
                (a, b, plane)
            };
            let ghost p0 = positions@;
            let ghost n0 = normals@;
            let ghost c0 = colors@;
            positions.push(Vec3i { x: px as i32, y: py as i32, z: pz as i32 });
            normals.push(Vec3i { x: nx, y: ny, z: nz });
            colors.push(color);
            proof {
                assert forall|k2: int| 0 <= k2 < k + 1 implies ((#[trigger] spec_vertex(
                    positions@,
                    i as int,
                    k2,
                )).x == spec_corner_x(q, lod as int, k2) && spec_vertex(positions@, i as int, k2).y
                    == spec_corner_y(q, lod as int, k2) && spec_vertex(positions@, i as int, k2).z
                    == spec_corner_z(q, lod as int, k2) && 0 <= spec_vertex(
                    positions@,
                    i as int,
                    k2,
                ).x <= 32 && 0 <= spec_vertex(positions@, i as int, k2).y <= 32 && 0 <= spec_vertex(
                    positions@,
                    i as int,
                    k2,
                ).z <= 32 && spec_vertex(normals@, i as int, k2).x == spec_dir_dx(q.dir as int)
                    && spec_vertex(normals@, i as int, k2).y == spec_dir_dy(q.dir as int)
                    && spec_vertex(normals@, i as int, k2).z == spec_dir_dz(q.dir as int)
                    && spec_vertex_color(colors@, i as int, k2) == crate::block::spec_palette(
                    q.block,
                )) by {
                    if k2 < k {
                        assert(spec_vertex(p0, i as int, k2).x == spec_corner_x(q, lod as int, k2));
                        assert(spec_vertex(n0, i as int, k2).x == spec_dir_dx(q.dir as int));
                        assert(spec_vertex_color(c0, i as int, k2) == crate::block::spec_palette(
                            q.block,
                        ));
                        assert(positions@[4 * (i as int) + k2] == p0[4 * (i as int) + k2]);
                        assert(normals@[4 * (i as int) + k2] == n0[4 * (i as int) + k2]);
                        assert(colors@[4 * (i as int) + k2] == c0[4 * (i as int) + k2]);
                    }
                }
                assert forall|i2: int, k2: int| 0 <= i2 < i && 0 <= k2 < 4 implies ((
                #[trigger] spec_vertex(positions@, i2, k2)).x == spec_corner_x(
                    quads@[i2],
                    lod as int,
                    k2,
                ) && spec_vertex(positions@, i2, k2).y == spec_corner_y(quads@[i2], lod as int, k2)
                    && spec_vertex(positions@, i2, k2).z == spec_corner_z(
                    quads@[i2],
                    lod as int,
                    k2,
                ) && 0 <= spec_vertex(positions@, i2, k2).x <= 32 && 0 <= spec_vertex(
                    positions@,
                    i2,
                    k2,
                ).y <= 32 && 0 <= spec_vertex(positions@, i2, k2).z <= 32 && spec_vertex(
                    normals@,
                    i2,
                    k2,
                ).x == spec_dir_dx(quads@[i2].dir as int) && spec_vertex(normals@, i2, k2).y
                    == spec_dir_dy(quads@[i2].dir as int) && spec_vertex(normals@, i2, k2).z
                    == spec_dir_dz(quads@[i2].dir as int) && spec_vertex_color(colors@, i2, k2)
                    == crate::block::spec_palette(quads@[i2].block)) by {
                    assert(spec_vertex(p0, i2, k2).x == spec_corner_x(quads@[i2], lod as int, k2));
                    assert(spec_vertex(n0, i2, k2).x == spec_dir_dx(quads@[i2].dir as int));
                    assert(spec_vertex_color(c0, i2, k2) == crate::block::spec_palette(
                        quads@[i2].block,
                    ));
                    assert(positions@[4 * i2 + k2] == p0[4 * i2 + k2]);
                    assert(normals@[4 * i2 + k2] == n0[4 * i2 + k2]);
                    assert(colors@[4 * i2 + k2] == c0[4 * i2 + k2]);
                }
            }
            k = k + 1;
        }
        proof {
            assert forall|i2: int, k2: int| 0 <= i2 < i + 1 && 0 <= k2 < 4 implies ((
            #[trigger] spec_vertex(positions@, i2, k2)).x == spec_corner_x(
                quads@[i2],
                lod as int,
                k2,
            ) && spec_vertex(positions@, i2, k2).y == spec_corner_y(quads@[i2], lod as int, k2)
                && spec_vertex(positions@, i2, k2).z == spec_corner_z(quads@[i2], lod as int, k2)
                && 0 <= spec_vertex(positions@, i2, k2).x <= 32 && 0 <= spec_vertex(
                positions@,
                i2,
                k2,
            ).y <= 32 && 0 <= spec_vertex(positions@, i2, k2).z <= 32 && spec_vertex(
                normals@,
                i2,
                k2,
            ).x == spec_dir_dx(quads@[i2].dir as int) && spec_vertex(normals@, i2, k2).y
                == spec_dir_dy(quads@[i2].dir as int) && spec_vertex(normals@, i2, k2).z
                == spec_dir_dz(quads@[i2].dir as int) && spec_vertex_color(colors@, i2, k2)
                == crate::block::spec_palette(quads@[i2].block)) by {
                if i2 == i as int {
                    assert(quads@[i2] == q);
                    assert(spec_vertex(positions@, i as int, k2).x == spec_corner_x(
                        q,
                        lod as int,
                        k2,
                    ));
                } else {
                    assert(spec_vertex(positions@, i2, k2).x == spec_corner_x(
                        quads@[i2],
                        lod as int,
                        k2,
                    ));
                }
            }
        }
        i = i + 1;
    }
    let mut j: usize = 0;
    while j < count
        invariant
            j <= count,
            count <= 200000,
            indices@.len() == 6 * j,
            forall|i2: int|
                0 <= i2 < j ==> (#[trigger] spec_tri_index(indices@, i2, 0) == 4 * i2
                    && spec_tri_index(indices@, i2, 1) == 4 * i2 + 1 && spec_tri_index(
                    indices@,
                    i2,
                    2,
                ) == 4 * i2 + 2 && spec_tri_index(indices@, i2, 3) == 4 * i2 && spec_tri_index(
                    indices@,
                    i2,
                    4,
                ) == 4 * i2 + 2 && spec_tri_index(indices@, i2, 5) == 4 * i2 + 3),
        decreases count - j,
    {
        let base: u32 = (4 * j) as u32;
        let ghost x0 = indices@;
        indices.push(base);
        indices.push(base + 1);
        indices.push(base + 2);
        indices.push(base);
        indices.push(base + 2);
        indices.push(base + 3);
        proof {
            assert forall|i2: int| 0 <= i2 < j + 1 implies (#[trigger] spec_tri_index(
                indices@,
                i2,
                0,
            ) == 4 * i2 && spec_tri_index(indices@, i2, 1) == 4 * i2 + 1 && spec_tri_index(
                indices@,
                i2,
                2,
            ) == 4 * i2 + 2 && spec_tri_index(indices@, i2, 3) == 4 * i2 && spec_tri_index(
                indices@,
                i2,
                4,
            ) == 4 * i2 + 2 && spec_tri_index(indices@, i2, 5) == 4 * i2 + 3) by {
                if i2 < j {
                    assert(spec_tri_index(x0, i2, 0) == 4 * i2);
                    assert(indices@[6 * i2] == x0[6 * i2]);
                    assert(indices@[6 * i2 + 1] == x0[6 * i2 + 1]);
                    assert(indices@[6 * i2 + 2] == x0[6 * i2 + 2]);
                    assert(indices@[6 * i2 + 3] == x0[6 * i2 + 3]);
                    assert(indices@[6 * i2 + 4] == x0[6 * i2 + 4]);
                    assert(indices@[6 * i2 + 5] == x0[6 * i2 + 5]);
                }
            }
        }
        j = j + 1;
    }
    MeshData { quads, positions, normals, colors, indices }
}

} // verus!
