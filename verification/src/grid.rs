//! Dense padded voxel grids.
//!
//! A chunk's working grid is a cube of edge `n = chunk_size / lod + 3`:
//! the chunk's own cells live at local indices `1 ..= n - 3`, with a
//! one-voxel skirt around them so meshing can read neighbour occupancy
//! without cross-chunk lookups (the last index, `n - 1`, is slack and
//! stays empty).

use vstd::prelude::*;
use crate::block::BlockType;

verus! {

/// Row-major linearisation of a local cell coordinate in an `n`-cube.
pub open spec fn spec_cell_index(n: int, x: int, y: int, z: int) -> int {
    x + y * n + z * n * n
}

/// A dense cubic voxel volume of edge `n`.
pub struct VoxelGrid {
    pub n: usize,
    pub cells: Vec<BlockType>,
}

impl VoxelGrid {
    /// Structural invariant: the flat store covers the whole cube.
    pub open spec fn wf(self) -> bool {
        &&& 3 <= self.n <= 64
        &&& self.cells@.len() == self.n * self.n * self.n
    }

    /// The grid's mathematical content: its cells, row-major.
    pub open spec fn view(self) -> Seq<BlockType> {
        self.cells@
    }

    /// The block at local cell `(x, y, z)`.
    pub open spec fn spec_at(self, x: int, y: int, z: int) -> BlockType {
        self.cells@[spec_cell_index(self.n as int, x, y, z)]
    }

    proof fn lemma_index_in_bounds(n: int, x: int, y: int, z: int)
        requires
            0 < n <= 64,
            0 <= x < n,
            0 <= y < n,
            0 <= z < n,
        ensures
            0 <= spec_cell_index(n, x, y, z) < n * n * n,
            n * n <= 4096,
            n * n * n <= 262144,
            0 <= y * n <= 4096,
            0 <= z * n <= 4096,
            0 <= z * n * n <= 262144,
            0 <= x + y * n < n * n,
    {
        assert(0 <= x + y * n + z * n * n < n * n * n && n * n <= 4096 && n * n * n <= 262144
            && 0 <= y * n <= 4096 && 0 <= z * n <= 4096 && 0 <= z * n * n <= 262144 && 0 <= x + y
            * n < n * n) by (nonlinear_arith)
            requires
                0 < n <= 64,
                0 <= x < n,
                0 <= y < n,
                0 <= z < n,
        {
        }
    }

    /// A fresh all-empty grid of edge `n`.
    pub fn new(n: usize) -> (g: VoxelGrid)
        requires
            3 <= n <= 64,
        ensures
            g.wf(),
            g.n == n,
            g@.len() == n * n * n,
            forall|i: int| 0 <= i < g@.len() ==> g@[i] == BlockType::Empty,
    {
        proof {
            assert(n * n <= 4096 && n * n * n <= 262144) by (nonlinear_arith)
                requires
                    n <= 64,
            {
            }
        }
        let total: usize = n * n * n;
        let mut cells: Vec<BlockType> = Vec::new();
        let mut i: usize = 0;
        while i < total
            invariant
                i <= total,
                cells@.len() == i,
                forall|j: int| 0 <= j < i ==> cells@[j] == BlockType::Empty,
            decreases total - i,
        {
            cells.push(BlockType::Empty);
            i = i + 1;
        }
        VoxelGrid { n, cells }
    }

    /// Read the block at a local cell.
    pub fn at(&self, x: usize, y: usize, z: usize) -> (b: BlockType)
        requires
            self.wf(),
            x < self.n,
            y < self.n,
            z < self.n,
        ensures
            b == self.spec_at(x as int, y as int, z as int),
    {
        proof {
            Self::lemma_index_in_bounds(self.n as int, x as int, y as int, z as int);
        }
        self.cells[x + y * self.n + z * self.n * self.n]
    }

    /// Write the block at a local cell.
    pub fn set(&mut self, x: usize, y: usize, z: usize, b: BlockType)
        requires
            old(self).wf(),
            x < old(self).n,
            y < old(self).n,
            z < old(self).n,
        ensures
            final(self).wf(),
            final(self).n == old(self).n,
            final(self)@ == old(self)@.update(
                spec_cell_index(old(self).n as int, x as int, y as int, z as int),
                b,
            ),
    {
        proof {
            Self::lemma_index_in_bounds(self.n as int, x as int, y as int, z as int);
        }
        let i: usize = x + y * self.n + z * self.n * self.n;
        self.cells.set(i, b);
    }
}

} // verus!
