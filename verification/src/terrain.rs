//! The chunk generator: from a chunk coordinate, a detail level and the
//! noise settings to a padded voxel grid.
//!
//! Per horizontal column the generator computes a terrain height (base
//! height plus layer and ridge contributions), fills the column with
//! grass, dirt and stone while carving caves, and at full detail stamps
//! sparse decorations (boulders and trees) gated by density fields.  The
//! whole pass is a pure function of the inputs: the grid it returns is
//! exactly `spec_generate` of the coordinate, detail level and settings.

use vstd::prelude::*;
use crate::ChunkCoord;
use crate::block::BlockType;
use crate::grid::VoxelGrid;
use crate::grid::spec_cell_index;
use crate::noise::spec_sample2;
use crate::noise::spec_sample3;
use crate::noise::sample2;
use crate::noise::sample3;
use crate::settings::NoiseLayer;
use crate::settings::NoiseSettings;

verus! {

/// Terrain height before any noise contribution.
pub const BASE_HEIGHT: i32 = 40;

/// Fixed sampler configuration for cave density.
pub const CAVE_SEED: i32 = 3;

pub const CAVE_FREQ: u32 = 50;

/// Fixed sampler configuration for the ridge (cliff) field.
pub const RIDGE_SEED: i32 = 99;

pub const RIDGE_FREQ: u32 = 10;

/// Fixed sampler configurations for decoration placement.
pub const BOULDER_DENSITY_SEED: i32 = 1337;

pub const BOULDER_DENSITY_FREQ: u32 = 3;

pub const BOULDER_SCATTER_SEED: i32 = 1338;

pub const BOULDER_SCATTER_FREQ: u32 = 80;

pub const BOULDER_SHAPE_SEED: i32 = 1339;

pub const BOULDER_SHAPE_FREQ: u32 = 90;

pub const TREE_DENSITY_SEED: i32 = 4242;

pub const TREE_DENSITY_FREQ: u32 = 5;

pub const TREE_SCATTER_SEED: i32 = 4243;

pub const TREE_SCATTER_FREQ: u32 = 100;

/// Cave carve threshold on the `[0, 2000]` sample scale (0.8 signed).
pub const CARVE_THRESHOLD: u32 = 1800;

/// Disabled ceiling-fill threshold (-0.8 signed); kept for reference.
pub const CEILING_THRESHOLD: u32 = 200;

/// Occupancy value of a column with no solid block placed yet.
pub const OCC_NONE: i64 = -1000000000;

/// Absolute value.
pub open spec fn spec_abs(x: int) -> int {
    if x < 0 {
        -x
    } else {
        x
    }
}

/// Signed contribution of a non-first layer: sampled noise recentred to
/// `[-amplitude, amplitude]` blocks (fixed-point, truncated).
pub open spec fn spec_signed_contrib(l: NoiseLayer, wx: int, wz: int) -> int {
    spec_sample2(l.seed as int, l.frequency as int, wx, wz) * l.amplitude / 10000 - l.amplitude
        / 10
}

/// Contribution of the first layer: noise remapped to `[0, 1]`, scaled
/// by the amplitude.
pub open spec fn spec_first_contrib(l: NoiseLayer, wx: int, wz: int) -> int {
    spec_sample2(l.seed as int, l.frequency as int, wx, wz) * l.amplitude / 20000
}

/// Sum of the signed contributions of `layers[1 .. k]`.
pub open spec fn spec_layer_sum(layers: Seq<NoiseLayer>, wx: int, wz: int, k: int) -> int
    decreases k,
{
    if k <= 1 {
        0
    } else {
        spec_layer_sum(layers, wx, wz, k - 1) + spec_signed_contrib(layers[k - 1], wx, wz)
    }
}

/// Ridge (cliff) contribution: the absolute value of a fixed field,
/// weighted to at most 20 blocks.
pub open spec fn spec_ridge(wx: int, wz: int) -> int {
    spec_abs(spec_sample2(RIDGE_SEED as int, RIDGE_FREQ as int, wx, wz) - 1000) * 20 / 1000
}

/// Unclamped column height.
pub open spec fn spec_raw_height(layers: Seq<NoiseLayer>, wx: int, wz: int) -> int {
    BASE_HEIGHT + (if layers.len() > 0 {
        spec_first_contrib(layers[0], wx, wz) + spec_layer_sum(layers, wx, wz, layers.len() as int)
    } else {
        0
    }) + spec_ridge(wx, wz)
}

/// Column height, clamped to `[1, MAX_HEIGHT - 1]`.
pub open spec fn spec_height(layers: Seq<NoiseLayer>, wx: int, wz: int) -> int {
    let raw = spec_raw_height(layers, wx, wz);
    if raw < 1 {
        1
    } else if raw > 255 {
        255
    } else {
        raw
    }
}

/// Cave density at a world block.
pub open spec fn spec_cave(wx: int, wy: int, wz: int) -> int {
    spec_sample3(CAVE_SEED as int, CAVE_FREQ as int, wx, wy, wz)
}

/// Largest world coordinate the generator touches; decoration stamps and
/// scatter offsets stay within the samplers' admissible range.
pub const WORLD_MAX: i64 = 1920100;

/// Compute the terrain height of the column at world `(wx, wz)`.
pub fn terrain_height(settings: &NoiseSettings, wx: i64, wz: i64) -> (h: i32)
    requires
        settings.wf(),
        -WORLD_MAX <= wx <= WORLD_MAX,
        -WORLD_MAX <= wz <= WORLD_MAX,
    ensures
        h == spec_height(settings.layers@, wx as int, wz as int),
        1 <= h <= 255,
{
    let ghost layers = settings.layers@;
    let mut acc: i64 = BASE_HEIGHT as i64;
    let len = settings.layers.len();
    if len > 0 {
        let l0 = settings.layers[0];
        proof {
            assert(settings.layers@[0].wf());
        }
        let u0 = sample2(l0.seed, l0.frequency, wx, wz);
        proof {
            assert(u0 * l0.amplitude <= 20000000) by (nonlinear_arith)
                requires
                    u0 <= 2000,
                    l0.amplitude <= 10000,
            {
            }
        }
        acc = acc + ((u0 as u64 * l0.amplitude as u64) / 20000) as i64;
        let mut k: usize = 1;
        while k < len
            invariant
                1 <= k <= len,
                len == layers.len(),
                layers == settings.layers@,
                settings.wf(),
                -WORLD_MAX <= wx <= WORLD_MAX,
                -WORLD_MAX <= wz <= WORLD_MAX,
                acc == BASE_HEIGHT + spec_first_contrib(layers[0], wx as int, wz as int)
                    + spec_layer_sum(layers, wx as int, wz as int, k as int),
                -3000 * k <= acc <= 3000 * k + 2000,
            decreases len - k,
        {
            let l = settings.layers[k];
            proof {
                assert(settings.layers@[k as int].wf());
            }
            let u = sample2(l.seed, l.frequency, wx, wz);
            proof {
                assert(u * l.amplitude <= 20000000) by (nonlinear_arith)
                    requires
                        u <= 2000,
                        l.amplitude <= 10000,
                {
                }
            }
            let pos: i64 = ((u as u64 * l.amplitude as u64) / 10000) as i64;
            let neg: i64 = (l.amplitude / 10) as i64;
            acc = acc + (pos - neg);
            k = k + 1;
        }
        proof {
            assert(3000 * len + 2000 <= 50000);
        }
    }
    let ur = sample2(RIDGE_SEED, RIDGE_FREQ, wx, wz);
    let d: i64 = if ur >= 1000 {
        (ur - 1000) as i64
    } else {
        (1000 - ur) as i64
    };
    acc = acc + d * 20 / 1000;
    if acc < 1 {
        1
    } else if acc > 255 {
        255
    } else {
        acc as i32
    }
}

/// The block the terrain pass assigns at the cell whose lowest covered
/// world row is `wy`: the scan tries the `lod` covered rows from the top
/// down, carving where the cave field exceeds the threshold, and stops at
/// the first decided row (grass at the surface, dirt one below, stone
/// beneath; a sub-ceiling branch of the cave field is disabled and yields
/// emptiness).
pub open spec fn spec_cell_scan(wx: int, wz: int, wy: int, height: int, offset: int) -> BlockType
    decreases offset + 1,
{
    if offset < 0 {
        BlockType::Empty
    } else {
        let sy = wy + offset;
        if sy > height + 8 {
            spec_cell_scan(wx, wz, wy, height, offset - 1)
        } else if sy <= height {
            if spec_cave(wx, sy, wz) > CARVE_THRESHOLD {
                spec_cell_scan(wx, wz, wy, height, offset - 1)
            } else if sy == height {
                BlockType::Grass
            } else if sy == height - 1 {
                BlockType::Dirt
            } else {
                BlockType::Stone
            }
        } else if spec_cave(wx, sy, wz) < CEILING_THRESHOLD {
            BlockType::Empty
        } else {
            spec_cell_scan(wx, wz, wy, height, offset - 1)
        }
    }
}

/// Decide the terrain block of one cell (see `spec_cell_scan`).
pub fn terrain_cell(wx: i64, wz: i64, wy: i64, height: i32, lod: u32) -> (b: BlockType)
    requires
        lod == 1 || lod == 2,
        -WORLD_MAX <= wx <= WORLD_MAX,
        -WORLD_MAX <= wz <= WORLD_MAX,
        -WORLD_MAX <= wy <= WORLD_MAX,
        1 <= height <= 255,
    ensures
        b == spec_cell_scan(wx as int, wz as int, wy as int, height as int, lod - 1),
{
    let mut i: i64 = lod as i64 - 1;
    loop
        invariant
            -1 <= i <= lod - 1,
            lod == 1 || lod == 2,
            -WORLD_MAX <= wx <= WORLD_MAX,
            -WORLD_MAX <= wz <= WORLD_MAX,
            -WORLD_MAX <= wy <= WORLD_MAX,
            1 <= height <= 255,
            spec_cell_scan(wx as int, wz as int, wy as int, height as int, lod - 1)
                == spec_cell_scan(wx as int, wz as int, wy as int, height as int, i as int),
        ensures
            spec_cell_scan(wx as int, wz as int, wy as int, height as int, lod - 1)
                == spec_cell_scan(wx as int, wz as int, wy as int, height as int, i as int),
            i < 0 || ({
                let sy = wy + i;
                sy <= height + 8 && ((sy <= height && spec_cave(wx as int, sy as int, wz as int)
                    <= CARVE_THRESHOLD) || (sy > height && spec_cave(
                    wx as int,
                    sy as int,
                    wz as int,
                ) < CEILING_THRESHOLD))
            }),
        decreases i + 1,
    {
        if i < 0 {
            break ;
        }
        let sy: i64 = wy + i;
        if sy > height as i64 + 8 {
            i = i - 1;
            continue ;
        }
        let cave = sample3(CAVE_SEED, CAVE_FREQ, wx, sy, wz);
        if sy <= height as i64 {
            if cave > CARVE_THRESHOLD {
                i = i - 1;
                continue ;
            }
            break ;
        } else if cave < CEILING_THRESHOLD {
            break ;
        } else {
            i = i - 1;
            continue ;
        }
    }
    if i < 0 {
        BlockType::Empty
    } else {
        let sy: i64 = wy + i;
        if sy <= height as i64 {
            if sy == height as i64 {
                BlockType::Grass
            } else if sy == height as i64 - 1 {
                BlockType::Dirt
            } else {
                BlockType::Stone
            }
        } else {
            // the cave field's sub-ceiling fill is disabled in the
            // reference behaviour; the scan stops without placing a block
            BlockType::Empty
        }
    }
}

/// Ghost state of a generation pass: the grid cells (row-major) paired
/// with the per-column occupancy (tallest solid world row placed so far).
pub type GenState = (Seq<BlockType>, Seq<i64>);

/// Stamp one world block into the padded grid, clipping silently at the
/// grid boundary, and raise the column occupancy when the block is solid
/// and lands on an interior column.  Decoration stamping works at full
/// detail, so world-to-local conversion is a plain offset.
pub open spec fn spec_set_block(
    st: GenState,
    n: int,
    size: int,
    coord: ChunkCoord,
    wx: int,
    wy: int,
    wz: int,
    b: BlockType,
) -> GenState {
    let lx = wx - coord.x * 32 + 1;
    let ly = wy - coord.y * 32 + 1;
    let lz = wz - coord.z * 32 + 1;
    if 0 <= lx <= size + 1 && 0 <= ly <= size + 1 && 0 <= lz <= size + 1 {
        let g = st.0.update(spec_cell_index(n, lx, ly, lz), b);
        let occ = if b != BlockType::Empty && 1 <= lx <= size && 1 <= lz <= size {
            let oi = (lx - 1) + (lz - 1) * size;
            if wy > st.1[oi] {
                st.1.update(oi, wy as i64)
            } else {
                st.1
            }
        } else {
            st.1
        };
        (g, occ)
    } else {
        st
    }
}

/// Raise the occupancy of an interior column to the terrain height.
pub open spec fn spec_occ_surface(occ: Seq<i64>, size: int, x: int, z: int, h: int) -> Seq<i64> {
    if 1 <= x <= size && 1 <= z <= size {
        let oi = (x - 1) + (z - 1) * size;
        if h > occ[oi] {
            occ.update(oi, h as i64)
        } else {
            occ
        }
    } else {
        occ
    }
}

/// Terrain fill of one column: the cells at local heights `1 ..= yc`,
/// each decided by `spec_cell_scan`; empty outcomes leave the cell as it
/// was.
pub open spec fn spec_fill_column(
    g: Seq<BlockType>,
    n: int,
    coord: ChunkCoord,
    lod: int,
    x: int,
    z: int,
    wx: int,
    wz: int,
    h: int,
    yc: int,
) -> Seq<BlockType>
    decreases yc,
{
    if yc < 1 {
        g
    } else {
        let g0 = spec_fill_column(g, n, coord, lod, x, z, wx, wz, h, yc - 1);
        let wy = coord.y * 32 + (yc - 1) * lod;
        if wy > h + 8 {
            g0
        } else {
            let b = spec_cell_scan(wx, wz, wy, h, lod - 1);
            if b != BlockType::Empty {
                g0.update(spec_cell_index(n, x, yc, z), b)
            } else {
                g0
            }
        }
    }
}

/// Stamp one world block (see `spec_set_block`).
fn set_block(
    grid: &mut VoxelGrid,
    occ: &mut Vec<i64>,
    coord: ChunkCoord,
    size: usize,
    wx: i64,
    wy: i64,
    wz: i64,
    b: BlockType,
)
    requires
        old(grid).wf(),
        old(grid).n == size + 3,
        1 <= size <= 32,
        coord.wf(),
        old(occ)@.len() == size * size,
        -4000000 <= wx <= 4000000,
        -4000000 <= wy <= 4000000,
        -4000000 <= wz <= 4000000,
    ensures
        final(grid).wf(),
        final(grid).n == old(grid).n,
        final(occ)@.len() == old(occ)@.len(),
        (final(grid)@, final(occ)@) == spec_set_block(
            (old(grid)@, old(occ)@),
            old(grid).n as int,
            size as int,
            coord,
            wx as int,
            wy as int,
            wz as int,
            b,
        ),
{
    let lx: i64 = wx - coord.x as i64 * 32 + 1;
    let ly: i64 = wy - coord.y as i64 * 32 + 1;
    let lz: i64 = wz - coord.z as i64 * 32 + 1;
    let sz: i64 = size as i64;
    if 0 <= lx && lx <= sz + 1 && 0 <= ly && ly <= sz + 1 && 0 <= lz && lz <= sz + 1 {
        grid.set(lx as usize, ly as usize, lz as usize, b);
        if b.get_visibility() && 1 <= lx && lx <= sz && 1 <= lz && lz <= sz {
            proof {
                assert((lx - 1) + (lz - 1) * size <= size * size - 1 && (lz - 1) * size <= 1024
                    && size * size <= 1024) by (nonlinear_arith)
                    requires
                        1 <= lx <= size,
                        1 <= lz <= size,
                        1 <= size <= 32,
                {
                }
            }
            let oi: usize = (lx - 1) as usize + (lz - 1) as usize * size;
            if wy > occ[oi] {
                occ.set(oi, wy);
            }
        }
    }
}

/// Raise an interior column's occupancy to the terrain height (see
/// `spec_occ_surface`).
fn occ_surface(occ: &mut Vec<i64>, size: usize, x: usize, z: usize, h: i32)
    requires
        1 <= size <= 32,
        old(occ)@.len() == size * size,
        x <= size + 1,
        z <= size + 1,
    ensures
        final(occ)@.len() == old(occ)@.len(),
        final(occ)@ == spec_occ_surface(old(occ)@, size as int, x as int, z as int, h as int),
{
    if 1 <= x && x <= size && 1 <= z && z <= size {
        proof {
            assert((x - 1) + (z - 1) * size <= size * size - 1 && (z - 1) * size <= 1024 && size
                * size <= 1024) by (nonlinear_arith)
                requires
                    1 <= x <= size,
                    1 <= z <= size,
                    1 <= size <= 32,
            {
            }
        }
        let oi: usize = (x - 1) + (z - 1) * size;
        if h as i64 > occ[oi] {
            occ.set(oi, h as i64);
        }
    }
}

/// Terrain-fill one column of the grid (see `spec_fill_column`).
fn fill_column(
    grid: &mut VoxelGrid,
    coord: ChunkCoord,
    lod: u32,
    size: usize,
    x: usize,
    z: usize,
    wx: i64,
    wz: i64,
    h: i32,
)
    requires
        old(grid).wf(),
        old(grid).n == size + 3,
        1 <= size <= 32,
        coord.wf(),
        lod == 1 || lod == 2,
        x < size + 3,
        z < size + 3,
        -WORLD_MAX <= wx <= WORLD_MAX,
        -WORLD_MAX <= wz <= WORLD_MAX,
        1 <= h <= 255,
    ensures
        final(grid).wf(),
        final(grid).n == old(grid).n,
        final(grid)@ == spec_fill_column(
            old(grid)@,
            old(grid).n as int,
            coord,
            lod as int,
            x as int,
            z as int,
            wx as int,
            wz as int,
            h as int,
            size as int + 1,
        ),
{
    let ghost g0 = grid@;
    let ghost n = grid.n as int;
    let mut y: usize = 1;
    while y <= size + 1
        invariant
            1 <= y <= size + 2,
            grid.wf(),
            grid.n == size + 3,
            1 <= size <= 32,
            coord.wf(),
            lod == 1 || lod == 2,
            x < size + 3,
            z < size + 3,
            -WORLD_MAX <= wx <= WORLD_MAX,
            -WORLD_MAX <= wz <= WORLD_MAX,
            1 <= h <= 255,
            n == grid.n as int,
            grid@ == spec_fill_column(
                g0,
                n,
                coord,
                lod as int,
                x as int,
                z as int,
                wx as int,
                wz as int,
                h as int,
                y - 1,
            ),
        decreases size + 2 - y,
    {
        proof {
            assert((y - 1) * lod <= 66) by (nonlinear_arith)
                requires
                    1 <= y <= 33,
                    lod <= 2,
            {
            }
        }
        let wy: i64 = coord.y as i64 * 32 + (y as i64 - 1) * lod as i64;
        if wy <= h as i64 + 8 {
            let b = terrain_cell(wx, wz, wy, h, lod);
            if b.get_visibility() {
                grid.set(x, y, z, b);
            }
        }
        y = y + 1;
    }
}

/// One candidate boulder cell: stamped as stone when it lies within the
/// shape-noise-perturbed radius.
pub open spec fn spec_boulder_cell(
    st: GenState,
    n: int,
    size: int,
    coord: ChunkCoord,
    wx: int,
    wz: int,
    h: int,
    radius: int,
    by: int,
    bx: int,
    bz: int,
) -> GenState {
    let u = spec_sample3(
        BOULDER_SHAPE_SEED as int,
        BOULDER_SHAPE_FREQ as int,
        wx + bx,
        h + by,
        wz + bz,
    );
    if (bx * bx + by * by + bz * bz) * 100000000 <= radius * radius * ((7000 + 3 * u) * (7000 + 3
        * u)) {
        spec_set_block(st, n, size, coord, wx + bx, h + by, wz + bz, BlockType::Stone)
    } else {
        st
    }
}

/// Boulder stamping, innermost axis: the first `c` offsets of
/// `bz in -radius ..= radius`.
pub open spec fn spec_boulder_bz(
    st: GenState,
    n: int,
    size: int,
    coord: ChunkCoord,
    wx: int,
    wz: int,
    h: int,
    radius: int,
    by: int,
    bx: int,
    c: int,
) -> GenState
    decreases c,
{
    if c <= 0 {
        st
    } else {
        spec_boulder_cell(
            spec_boulder_bz(st, n, size, coord, wx, wz, h, radius, by, bx, c - 1),
            n,
            size,
            coord,
            wx,
            wz,
            h,
            radius,
            by,
            bx,
            c - 1 - radius,
        )
    }
}

/// Boulder stamping, middle axis: the first `c` offsets of
/// `bx in -radius ..= radius`, each expanded over the full `bz` range.
pub open spec fn spec_boulder_bx(
    st: GenState,
    n: int,
    size: int,
    coord: ChunkCoord,
    wx: int,
    wz: int,
    h: int,
    radius: int,
    by: int,
    c: int,
) -> GenState
    decreases c,
{
    if c <= 0 {
        st
    } else {
        spec_boulder_bz(
            spec_boulder_bx(st, n, size, coord, wx, wz, h, radius, by, c - 1),
            n,
            size,
            coord,
            wx,
            wz,
            h,
            radius,
            by,
            c - 1 - radius,
            2 * radius + 1,
        )
    }
}

/// Boulder stamping, outer axis: the first `c` layers of
/// `by in 0 ..= radius`, each expanded over the full `bx` range.
pub open spec fn spec_boulder_by(
    st: GenState,
    n: int,
    size: int,
    coord: ChunkCoord,
    wx: int,
    wz: int,
    h: int,
    radius: int,
    c: int,
) -> GenState
    decreases c,
{
    if c <= 0 {
        st
    } else {
        spec_boulder_bx(
            spec_boulder_by(st, n, size, coord, wx, wz, h, radius, c - 1),
            n,
            size,
            coord,
            wx,
            wz,
            h,
            radius,
            c - 1,
            2 * radius + 1,
        )
    }
}

/// A whole boulder: a scatter-variant radius in `1 ..= 4`, then the
/// sphere-ish stamp above the surface.
pub open spec fn spec_boulder(
    st: GenState,
    n: int,
    size: int,
    coord: ChunkCoord,
    wx: int,
    wz: int,
    h: int,
) -> GenState {
    let uv = spec_sample2(
        BOULDER_SCATTER_SEED as int,
        BOULDER_SCATTER_FREQ as int,
        wx + 2000,
        wz + 2000,
    );
    let radius = 1 + 3 * uv / 2000;
    spec_boulder_by(st, n, size, coord, wx, wz, h, radius, radius + 1)
}

/// Whether any of the first `c` cells of the trunk row at `tx` rests on a
/// column already occupied above the terrain height.
pub open spec fn spec_tree_collides_z(
    occ: Seq<i64>,
    size: int,
    coord: ChunkCoord,
    wx: int,
    wz: int,
    h: int,
    tx: int,
    c: int,
) -> bool
    decreases c,
{
    if c <= 0 {
        false
    } else {
        spec_tree_collides_z(occ, size, coord, wx, wz, h, tx, c - 1) || {
            let lx = wx + tx - coord.x * 32;
            let lz = wz + (c - 1) - coord.z * 32;
            0 <= lx < size && 0 <= lz < size && occ[lx + lz * size] > h
        }
    }
}

/// Whether any cell of the first `c` trunk rows collides.
pub open spec fn spec_tree_collides_x(
    occ: Seq<i64>,
    size: int,
    coord: ChunkCoord,
    wx: int,
    wz: int,
    h: int,
    ts: int,
    c: int,
) -> bool
    decreases c,
{
    if c <= 0 {
        false
    } else {
        spec_tree_collides_x(occ, size, coord, wx, wz, h, ts, c - 1) || spec_tree_collides_z(
            occ,
            size,
            coord,
            wx,
            wz,
            h,
            c - 1,
            ts,
        )
    }
}

/// Trunk stamping, innermost axis: the first `c` cells of one trunk row.
pub open spec fn spec_trunk_tz(
    st: GenState,
    n: int,
    size: int,
    coord: ChunkCoord,
    wx: int,
    wz: int,
    h: int,
    ty: int,
    tx: int,
    c: int,
) -> GenState
    decreases c,
{
    if c <= 0 {
        st
    } else {
        spec_set_block(
            spec_trunk_tz(st, n, size, coord, wx, wz, h, ty, tx, c - 1),
            n,
            size,
            coord,
            wx + tx,
            h + ty,
            wz + (c - 1),
            BlockType::Wood,
        )
    }
}

/// Trunk stamping, middle axis: the first `c` rows of one trunk slice.
pub open spec fn spec_trunk_tx(
    st: GenState,
    n: int,
    size: int,
    coord: ChunkCoord,
    wx: int,
    wz: int,
    h: int,
    ty: int,
    ts: int,
    c: int,
) -> GenState
    decreases c,
{
    if c <= 0 {
        st
    } else {
        spec_trunk_tz(
            spec_trunk_tx(st, n, size, coord, wx, wz, h, ty, ts, c - 1),
            n,
            size,
            coord,
            wx,
            wz,
            h,
            ty,
            c - 1,
            ts,
        )
    }
}

/// Trunk stamping: the first `c` vertical slices (`ty in 1 ..= c`).
pub open spec fn spec_trunk(
    st: GenState,
    n: int,
    size: int,
    coord: ChunkCoord,
    wx: int,
    wz: int,
    h: int,
    ts: int,
    c: int,
) -> GenState
    decreases c,
{
    if c <= 0 {
        st
    } else {
        spec_trunk_tx(
            spec_trunk(st, n, size, coord, wx, wz, h, ts, c - 1),
            n,
            size,
            coord,
            wx,
            wz,
            h,
            c,
            ts,
            ts,
        )
    }
}

/// Canopy stamping, innermost axis: the first `c` offsets of
/// `dy in 0 ..= can`, keeping cells within the spherical radius.
pub open spec fn spec_canopy_dy(
    st: GenState,
    n: int,
    size: int,
    coord: ChunkCoord,
    wx: int,
    wz: int,
    top: int,
    can: int,
    dx: int,
    dz: int,
    c: int,
) -> GenState
    decreases c,
{
    if c <= 0 {
        st
    } else {
        let st0 = spec_canopy_dy(st, n, size, coord, wx, wz, top, can, dx, dz, c - 1);
        let dy = c - 1;
        if dx * dx + dz * dz + dy * dy <= can * can {
            spec_set_block(st0, n, size, coord, wx + dx, top + dy, wz + dz, BlockType::Leaf)
        } else {
            st0
        }
    }
}

/// Canopy stamping, middle axis: the first `c` offsets of
/// `dz in -can ..= can`.
pub open spec fn spec_canopy_dz(
    st: GenState,
    n: int,
    size: int,
    coord: ChunkCoord,
    wx: int,
    wz: int,
    top: int,
    can: int,
    dx: int,
    c: int,
) -> GenState
    decreases c,
{
    if c <= 0 {
        st
    } else {
        spec_canopy_dy(
            spec_canopy_dz(st, n, size, coord, wx, wz, top, can, dx, c - 1),
            n,
            size,
            coord,
            wx,
            wz,
            top,
            can,
            dx,
            c - 1 - can,
            can + 1,
        )
    }
}

/// Canopy stamping, outer axis: the first `c` offsets of
/// `dx in -can ..= can`.
pub open spec fn spec_canopy_dx(
    st: GenState,
    n: int,
    size: int,
    coord: ChunkCoord,
    wx: int,
    wz: int,
    top: int,
    can: int,
    c: int,
) -> GenState
    decreases c,
{
    if c <= 0 {
        st
    } else {
        spec_canopy_dz(
            spec_canopy_dx(st, n, size, coord, wx, wz, top, can, c - 1),
            n,
            size,
            coord,
            wx,
            wz,
            top,
            can,
            c - 1 - can,
            2 * can + 1,
        )
    }
}

/// A whole tree: scatter-variant trunk footprint, height and canopy
/// radius; skipped entirely when the footprint collides with something
/// already standing above the terrain surface.
pub open spec fn spec_tree(
    st: GenState,
    n: int,
    size: int,
    coord: ChunkCoord,
    wx: int,
    wz: int,
    h: int,
) -> GenState {
    let uv = spec_sample2(TREE_SCATTER_SEED as int, TREE_SCATTER_FREQ as int, wx + 1000, wz + 1000);
    let ts = 3 * uv / 2000 + 1;
    let th = 6 + ts * 4 + uv / 1000;
    let can = ts * 2 + 2 + uv / 1000;
    if spec_tree_collides_x(st.1, size, coord, wx, wz, h, ts, ts) {
        st
    } else {
        let st1 = spec_trunk(st, n, size, coord, wx, wz, h, ts, th);
        spec_canopy_dx(st1, n, size, coord, wx, wz, h + th, can, 2 * can + 1)
    }
}

/// Decoration pass of one column: a boulder where the boulder scatter
/// falls below the squared-density gate, else a tree where the tree
/// scatter falls below its gate, else nothing.
pub open spec fn spec_decorate(
    st: GenState,
    n: int,
    size: int,
    coord: ChunkCoord,
    wx: int,
    wz: int,
    h: int,
) -> GenState {
    let bd = spec_sample2(BOULDER_DENSITY_SEED as int, BOULDER_DENSITY_FREQ as int, wx, wz);
    let bs = spec_sample2(BOULDER_SCATTER_SEED as int, BOULDER_SCATTER_FREQ as int, wx, wz);
    let td = spec_sample2(TREE_DENSITY_SEED as int, TREE_DENSITY_FREQ as int, wx, wz);
    let tsc = spec_sample2(TREE_SCATTER_SEED as int, TREE_SCATTER_FREQ as int, wx, wz);
    if 20000 * bs < 3 * (bd * bd) {
        spec_boulder(st, n, size, coord, wx, wz, h)
    } else if 4000 * tsc < td * td {
        spec_tree(st, n, size, coord, wx, wz, h)
    } else {
        st
    }
}

/// Stamp one boulder above the surface of the column at `(wx, wz)` (see
/// `spec_boulder`).
fn stamp_boulder(
    grid: &mut VoxelGrid,
    occ: &mut Vec<i64>,
    coord: ChunkCoord,
    size: usize,
    wx: i64,
    wz: i64,
    h: i32,
)
    requires
        old(grid).wf(),
        old(grid).n == size + 3,
        1 <= size <= 32,
        coord.wf(),
        old(occ)@.len() == size * size,
        -WORLD_MAX <= wx <= WORLD_MAX,
        -WORLD_MAX <= wz <= WORLD_MAX,
        1 <= h <= 255,
    ensures
        final(grid).wf(),
        final(grid).n == old(grid).n,
        final(occ)@.len() == old(occ)@.len(),
        (final(grid)@, final(occ)@) == spec_boulder(
            (old(grid)@, old(occ)@),
            old(grid).n as int,
            size as int,
            coord,
            wx as int,
            wz as int,
            h as int,
        ),
{
    let ghost n = grid.n as int;
    let ghost st0 = (grid@, occ@);
    let uv = sample2(BOULDER_SCATTER_SEED, BOULDER_SCATTER_FREQ, wx + 2000, wz + 2000);
    let radius: i64 = 1 + 3 * uv as i64 / 2000;
    let mut ky: i64 = 0;
    while ky < radius + 1
        invariant
            0 <= ky <= radius + 1,
            1 <= radius <= 4,
            radius == 1 + 3 * uv / 2000,
            grid.wf(),
            grid.n == size + 3,
            n == grid.n as int,
            1 <= size <= 32,
            coord.wf(),
            occ@.len() == size * size,
            -WORLD_MAX <= wx <= WORLD_MAX,
            -WORLD_MAX <= wz <= WORLD_MAX,
            1 <= h <= 255,
            (grid@, occ@) == spec_boulder_by(
                st0,
                n,
                size as int,
                coord,
                wx as int,
                wz as int,
                h as int,
                radius as int,
                ky as int,
            ),
        decreases radius + 1 - ky,
    {
        let ghost st_y = (grid@, occ@);
        let mut kx: i64 = 0;
        while kx < 2 * radius + 1
            invariant
                0 <= kx <= 2 * radius + 1,
                0 <= ky <= radius,
                1 <= radius <= 4,
                grid.wf(),
                grid.n == size + 3,
                n == grid.n as int,
                1 <= size <= 32,
                coord.wf(),
                occ@.len() == size * size,
                -WORLD_MAX <= wx <= WORLD_MAX,
                -WORLD_MAX <= wz <= WORLD_MAX,
                1 <= h <= 255,
                (grid@, occ@) == spec_boulder_bx(
                    st_y,
                    n,
                    size as int,
                    coord,
                    wx as int,
                    wz as int,
                    h as int,
                    radius as int,
                    ky as int,
                    kx as int,
                ),
            decreases 2 * radius + 1 - kx,
        {
            let ghost st_x = (grid@, occ@);
            let bx: i64 = kx - radius;
            let mut kz: i64 = 0;
            while kz < 2 * radius + 1
                invariant
                    0 <= kz <= 2 * radius + 1,
                    0 <= kx <= 2 * radius,
                    bx == kx - radius,
                    0 <= ky <= radius,
                    1 <= radius <= 4,
                    grid.wf(),
                    grid.n == size + 3,
                    n == grid.n as int,
                    1 <= size <= 32,
                    coord.wf(),
                    occ@.len() == size * size,
                    -WORLD_MAX <= wx <= WORLD_MAX,
                    -WORLD_MAX <= wz <= WORLD_MAX,
                    1 <= h <= 255,
                    (grid@, occ@) == spec_boulder_bz(
                        st_x,
                        n,
                        size as int,
                        coord,
                        wx as int,
                        wz as int,
                        h as int,
                        radius as int,
                        ky as int,
                        bx as int,
                        kz as int,
                    ),
                decreases 2 * radius + 1 - kz,
            {
                let bz: i64 = kz - radius;
                let u = sample3(
                    BOULDER_SHAPE_SEED,
                    BOULDER_SHAPE_FREQ,
                    wx + bx,
                    h as i64 + ky,
                    wz + bz,
                );
                let f: i64 = 7000 + 3 * u as i64;
                proof {
                    assert(0 <= bx * bx <= 16 && 0 <= ky * ky <= 16 && 0 <= bz * bz <= 16 && 0
                        <= radius * radius <= 16 && 0 <= f * f <= 169000000 && 0 <= radius * radius
                        * (f * f) <= 2704000000) by (nonlinear_arith)
                        requires
                            -4 <= bx <= 4,
                            0 <= ky <= 4,
                            -4 <= bz <= 4,
                            1 <= radius <= 4,
                            7000 <= f <= 13000,
                    {
                    }
                }
                let q: i64 = bx * bx + ky * ky + bz * bz;
                let rr: i64 = radius * radius;
                if q * 100000000 <= rr * (f * f) {
                    set_block(
                        grid,
                        occ,
                        coord,
                        size,
                        wx + bx,
                        h as i64 + ky,
                        wz + bz,
                        BlockType::Stone,
                    );
                }
                kz = kz + 1;
            }
            kx = kx + 1;
        }
        ky = ky + 1;
    }
}

/// Whether a trunk footprint of edge `ts` at `(wx, wz)` would collide
/// with anything already standing above the terrain surface (see
/// `spec_tree_collides_x`).
fn tree_collides(
    occ: &Vec<i64>,
    size: usize,
    coord: ChunkCoord,
    wx: i64,
    wz: i64,
    h: i32,
    ts: i64,
) -> (r: bool)
    requires
        1 <= size <= 32,
        coord.wf(),
        occ@.len() == size * size,
        -WORLD_MAX <= wx <= WORLD_MAX,
        -WORLD_MAX <= wz <= WORLD_MAX,
        1 <= ts <= 4,
    ensures
        r == spec_tree_collides_x(
            occ@,
            size as int,
            coord,
            wx as int,
            wz as int,
            h as int,
            ts as int,
            ts as int,
        ),
{
    let mut res = false;
    let mut kx: i64 = 0;
    while kx < ts
        invariant
            0 <= kx <= ts,
            1 <= ts <= 4,
            1 <= size <= 32,
            coord.wf(),
            occ@.len() == size * size,
            -WORLD_MAX <= wx <= WORLD_MAX,
            -WORLD_MAX <= wz <= WORLD_MAX,
            res == spec_tree_collides_x(
                occ@,
                size as int,
                coord,
                wx as int,
                wz as int,
                h as int,
                ts as int,
                kx as int,
            ),
        decreases ts - kx,
    {
        let mut kz: i64 = 0;
        while kz < ts
            invariant
                0 <= kz <= ts,
                0 <= kx < ts,
                1 <= ts <= 4,
                1 <= size <= 32,
                coord.wf(),
                occ@.len() == size * size,
                -WORLD_MAX <= wx <= WORLD_MAX,
                -WORLD_MAX <= wz <= WORLD_MAX,
                res == (spec_tree_collides_x(
                    occ@,
                    size as int,
                    coord,
                    wx as int,
                    wz as int,
                    h as int,
                    ts as int,
                    kx as int,
                ) || spec_tree_collides_z(
                    occ@,
                    size as int,
                    coord,
                    wx as int,
                    wz as int,
                    h as int,
                    kx as int,
                    kz as int,
                )),
            decreases ts - kz,
        {
            let lx: i64 = wx + kx - coord.x as i64 * 32;
            let lz: i64 = wz + kz - coord.z as i64 * 32;
            if 0 <= lx && lx < size as i64 && 0 <= lz && lz < size as i64 {
                proof {
                    assert(lx + lz * size <= size * size - 1 && lz * size <= 1024 && size * size
                        <= 1024) by (nonlinear_arith)
                        requires
                            0 <= lx < size,
                            0 <= lz < size,
                            1 <= size <= 32,
                    {
                    }
                }
                let oi: usize = lx as usize + lz as usize * size;
                if occ[oi] > h as i64 {
                    res = true;
                }
            }
            kz = kz + 1;
        }
        kx = kx + 1;
    }
    res
}

/// Stamp one tree on the column at `(wx, wz)` (see `spec_tree`).
fn stamp_tree(
    grid: &mut VoxelGrid,
    occ: &mut Vec<i64>,
    coord: ChunkCoord,
    size: usize,
    wx: i64,
    wz: i64,
    h: i32,
)
    requires
        old(grid).wf(),
        old(grid).n == size + 3,
        1 <= size <= 32,
        coord.wf(),
        old(occ)@.len() == size * size,
        -WORLD_MAX <= wx <= WORLD_MAX,
        -WORLD_MAX <= wz <= WORLD_MAX,
        1 <= h <= 255,
    ensures
        final(grid).wf(),
        final(grid).n == old(grid).n,
        final(occ)@.len() == old(occ)@.len(),
        (final(grid)@, final(occ)@) == spec_tree(
            (old(grid)@, old(occ)@),
            old(grid).n as int,
            size as int,
            coord,
            wx as int,
            wz as int,
            h as int,
        ),
{
    let ghost n = grid.n as int;
    let ghost st0 = (grid@, occ@);
    let uv = sample2(TREE_SCATTER_SEED, TREE_SCATTER_FREQ, wx + 1000, wz + 1000);
    let ts: i64 = 3 * uv as i64 / 2000 + 1;
    let th: i64 = 6 + ts * 4 + uv as i64 / 1000;
    let can: i64 = ts * 2 + 2 + uv as i64 / 1000;
    if tree_collides(occ, size, coord, wx, wz, h, ts) {
        return ;
    }
    let mut ty: i64 = 1;
    while ty <= th
        invariant
            1 <= ty <= th + 1,
            1 <= ts <= 4,
            10 <= th <= 24,
            grid.wf(),
            grid.n == size + 3,
            n == grid.n as int,
            1 <= size <= 32,
            coord.wf(),
            occ@.len() == size * size,
            -WORLD_MAX <= wx <= WORLD_MAX,
            -WORLD_MAX <= wz <= WORLD_MAX,
            1 <= h <= 255,
            (grid@, occ@) == spec_trunk(
                st0,
                n,
                size as int,
                coord,
                wx as int,
                wz as int,
                h as int,
                ts as int,
                ty - 1,
            ),
        decreases th + 1 - ty,
    {
        let ghost st_y = (grid@, occ@);
        let mut kx: i64 = 0;
        while kx < ts
            invariant
                0 <= kx <= ts,
                1 <= ty <= th,
                1 <= ts <= 4,
                10 <= th <= 24,
                grid.wf(),
                grid.n == size + 3,
                n == grid.n as int,
                1 <= size <= 32,
                coord.wf(),
                occ@.len() == size * size,
                -WORLD_MAX <= wx <= WORLD_MAX,
                -WORLD_MAX <= wz <= WORLD_MAX,
                1 <= h <= 255,
                (grid@, occ@) == spec_trunk_tx(
                    st_y,
                    n,
                    size as int,
                    coord,
                    wx as int,
                    wz as int,
                    h as int,
                    ty as int,
                    ts as int,
                    kx as int,
                ),
            decreases ts - kx,
        {
            let ghost st_x = (grid@, occ@);
            let mut kz: i64 = 0;
            while kz < ts
                invariant
                    0 <= kz <= ts,
                    0 <= kx < ts,
                    1 <= ty <= th,
                    1 <= ts <= 4,
                    10 <= th <= 24,
                    grid.wf(),
                    grid.n == size + 3,
                    n == grid.n as int,
                    1 <= size <= 32,
                    coord.wf(),
                    occ@.len() == size * size,
                    -WORLD_MAX <= wx <= WORLD_MAX,
                    -WORLD_MAX <= wz <= WORLD_MAX,
                    1 <= h <= 255,
                    (grid@, occ@) == spec_trunk_tz(
                        st_x,
                        n,
                        size as int,
                        coord,
                        wx as int,
                        wz as int,
                        h as int,
                        ty as int,
                        kx as int,
                        kz as int,
                    ),
                decreases ts - kz,
            {
                set_block(
                    grid,
                    occ,
                    coord,
                    size,
                    wx + kx,
                    h as i64 + ty,
                    wz + kz,
                    BlockType::Wood,
                );
                kz = kz + 1;
            }
            kx = kx + 1;
        }
        ty = ty + 1;
    }
    let ghost st1 = (grid@, occ@);
    let top: i64 = h as i64 + th;
    let mut jx: i64 = 0;
    while jx < 2 * can + 1
        invariant
            0 <= jx <= 2 * can + 1,
            4 <= can <= 12,
            10 <= th <= 24,
            top == h + th,
            grid.wf(),
            grid.n == size + 3,
            n == grid.n as int,
            1 <= size <= 32,
            coord.wf(),
            occ@.len() == size * size,
            -WORLD_MAX <= wx <= WORLD_MAX,
            -WORLD_MAX <= wz <= WORLD_MAX,
            1 <= h <= 255,
            (grid@, occ@) == spec_canopy_dx(
                st1,
                n,
                size as int,
                coord,
                wx as int,
                wz as int,
                top as int,
                can as int,
                jx as int,
            ),
        decreases 2 * can + 1 - jx,
    {
        let ghost st_cx = (grid@, occ@);
        let dx: i64 = jx - can;
        let mut jz: i64 = 0;
        while jz < 2 * can + 1
            invariant
                0 <= jz <= 2 * can + 1,
                0 <= jx <= 2 * can,
                dx == jx - can,
                4 <= can <= 12,
                top == h + th,
                10 <= th <= 24,
                grid.wf(),
                grid.n == size + 3,
                n == grid.n as int,
                1 <= size <= 32,
                coord.wf(),
                occ@.len() == size * size,
                -WORLD_MAX <= wx <= WORLD_MAX,
                -WORLD_MAX <= wz <= WORLD_MAX,
                1 <= h <= 255,
                (grid@, occ@) == spec_canopy_dz(
                    st_cx,
                    n,
                    size as int,
                    coord,
                    wx as int,
                    wz as int,
                    top as int,
                    can as int,
                    dx as int,
                    jz as int,
                ),
            decreases 2 * can + 1 - jz,
        {
            let ghost st_cz = (grid@, occ@);
            let dz: i64 = jz - can;
            let mut jy: i64 = 0;
            while jy < can + 1
                invariant
                    0 <= jy <= can + 1,
                    0 <= jz <= 2 * can,
                    0 <= jx <= 2 * can,
                    dx == jx - can,
                    dz == jz - can,
                    4 <= can <= 12,
                    top == h + th,
                    10 <= th <= 24,
                    grid.wf(),
                    grid.n == size + 3,
                    n == grid.n as int,
                    1 <= size <= 32,
                    coord.wf(),
                    occ@.len() == size * size,
                    -WORLD_MAX <= wx <= WORLD_MAX,
                    -WORLD_MAX <= wz <= WORLD_MAX,
                    1 <= h <= 255,
                    (grid@, occ@) == spec_canopy_dy(
                        st_cz,
                        n,
                        size as int,
                        coord,
                        wx as int,
                        wz as int,
                        top as int,
                        can as int,
                        dx as int,
                        dz as int,
                        jy as int,
                    ),
                decreases can + 1 - jy,
            {
                let dy: i64 = jy;
                proof {
                    assert(0 <= dx * dx <= 144 && 0 <= dz * dz <= 144 && 0 <= dy * dy <= 144 && 0
                        <= can * can <= 144) by (nonlinear_arith)
                        requires
                            -12 <= dx <= 12,
                            -12 <= dz <= 12,
                            0 <= dy <= 12,
                            4 <= can <= 12,
                    {
                    }
                }
                if dx * dx + dz * dz + dy * dy <= can * can {
                    set_block(
                        grid,
                        occ,
                        coord,
                        size,
                        wx + dx,
                        top + dy,
                        wz + dz,
                        BlockType::Leaf,
                    );
                }
                jy = jy + 1;
            }
            jz = jz + 1;
        }
        jx = jx + 1;
    }
}

/// Decoration pass of one full-detail column (see `spec_decorate`).
fn decorate_column(
    grid: &mut VoxelGrid,
    occ: &mut Vec<i64>,
    coord: ChunkCoord,
    size: usize,
    wx: i64,
    wz: i64,
    h: i32,
)
    requires
        old(grid).wf(),
        old(grid).n == size + 3,
        1 <= size <= 32,
        coord.wf(),
        old(occ)@.len() == size * size,
        -WORLD_MAX <= wx <= WORLD_MAX,
        -WORLD_MAX <= wz <= WORLD_MAX,
        1 <= h <= 255,
    ensures
        final(grid).wf(),
        final(grid).n == old(grid).n,
        final(occ)@.len() == old(occ)@.len(),
        (final(grid)@, final(occ)@) == spec_decorate(
            (old(grid)@, old(occ)@),
            old(grid).n as int,
            size as int,
            coord,
            wx as int,
            wz as int,
            h as int,
        ),
{
    let bd = sample2(BOULDER_DENSITY_SEED, BOULDER_DENSITY_FREQ, wx, wz);
    let bs = sample2(BOULDER_SCATTER_SEED, BOULDER_SCATTER_FREQ, wx, wz);
    let td = sample2(TREE_DENSITY_SEED, TREE_DENSITY_FREQ, wx, wz);
    let tsc = sample2(TREE_SCATTER_SEED, TREE_SCATTER_FREQ, wx, wz);
    proof {
        assert(bd * bd <= 4000000 && td * td <= 4000000) by (nonlinear_arith)
            requires
                bd <= 2000,
                td <= 2000,
        {
        }
    }
    let bd64: u64 = bd as u64;
    let bs64: u64 = bs as u64;
    let td64: u64 = td as u64;
    let tsc64: u64 = tsc as u64;
    if 20000 * bs64 < 3 * (bd64 * bd64) {
        stamp_boulder(grid, occ, coord, size, wx, wz, h);
    } else if 4000 * tsc64 < td64 * td64 {
        stamp_tree(grid, occ, coord, size, wx, wz, h);
    }
}

/// Voxel-grid edge of the chunk content at a detail level: full
/// resolution at `lod` 1, halved at `lod` 2.
pub open spec fn spec_size(lod: int) -> int {
    if lod == 1 {
        32
    } else {
        16
    }
}

/// The generation state before any column is processed: an all-empty
/// padded grid and unoccupied columns.
pub open spec fn spec_init_state(lod: int) -> GenState {
    let size = spec_size(lod);
    let n = size + 3;
    (
        Seq::new((n * n * n) as nat, |i: int| BlockType::Empty),
        Seq::new((size * size) as nat, |i: int| OCC_NONE),
    )
}

/// Everything the generator does for the column at local `(x, z)`:
/// height, surface occupancy, terrain fill, and (at full detail) the
/// decoration pass.
pub open spec fn spec_column(
    st: GenState,
    coord: ChunkCoord,
    lod: int,
    layers: Seq<NoiseLayer>,
    size: int,
    n: int,
    x: int,
    z: int,
) -> GenState {
    let wx = coord.x * 32 + (x - 1) * lod;
    let wz = coord.z * 32 + (z - 1) * lod;
    let h = spec_height(layers, wx, wz);
    let st2 = (
        spec_fill_column(st.0, n, coord, lod, x, z, wx, wz, h, size + 1),
        spec_occ_surface(st.1, size, x, z, h),
    );
    if lod == 1 {
        spec_decorate(st2, n, size, coord, wx, wz, h)
    } else {
        st2
    }
}

/// The first `c` columns of one `z` row.
pub open spec fn spec_columns_x(
    st: GenState,
    coord: ChunkCoord,
    lod: int,
    layers: Seq<NoiseLayer>,
    size: int,
    n: int,
    z: int,
    c: int,
) -> GenState
    decreases c,
{
    if c <= 0 {
        st
    } else {
        spec_column(
            spec_columns_x(st, coord, lod, layers, size, n, z, c - 1),
            coord,
            lod,
            layers,
            size,
            n,
            c - 1,
            z,
        )
    }
}

/// The first `c` rows of the column sweep.
pub open spec fn spec_columns(
    st: GenState,
    coord: ChunkCoord,
    lod: int,
    layers: Seq<NoiseLayer>,
    size: int,
    n: int,
    c: int,
) -> GenState
    decreases c,
{
    if c <= 0 {
        st
    } else {
        spec_columns_x(
            spec_columns(st, coord, lod, layers, size, n, c - 1),
            coord,
            lod,
            layers,
            size,
            n,
            c - 1,
            size + 2,
        )
    }
}

/// The voxel grid the generator produces for `(coord, lod, layers)`: a
/// pure function of its arguments, which is what makes generation
/// deterministic and cacheable by coordinate.
pub open spec fn spec_generate(coord: ChunkCoord, lod: int, layers: Seq<NoiseLayer>) -> Seq<
    BlockType,
> {
    let size = spec_size(lod);
    let n = size + 3;
    spec_columns(spec_init_state(lod), coord, lod, layers, size, n, size + 2).0
}

/// Generate the padded voxel grid of one chunk.
///
/// Two calls with equal coordinate, detail level and settings return
/// grids with equal contents: the result is pinned to `spec_generate`.
pub fn generate(coord: ChunkCoord, lod: u32, settings: &NoiseSettings) -> (g: VoxelGrid)
    requires
        coord.wf(),
        lod == 1 || lod == 2,
        settings.wf(),
    ensures
        g.wf(),
        g.n == spec_size(lod as int) + 3,
        g@ == spec_generate(coord, lod as int, settings.layers@),
{
    let ghost layers = settings.layers@;
    let size: usize = if lod == 1 {
        32
    } else {
        16
    };
    let mut grid = VoxelGrid::new(size + 3);
    let ghost n = grid.n as int;
    let mut occ: Vec<i64> = Vec::new();
    let total: usize = size * size;
    let mut i: usize = 0;
    while i < total
        invariant
            i <= total,
            occ@.len() == i,
            forall|j: int| 0 <= j < i ==> occ@[j] == OCC_NONE,
        decreases total - i,
    {
        occ.push(OCC_NONE);
        i = i + 1;
    }
    proof {
        assert(grid@ =~= spec_init_state(lod as int).0);
        assert(occ@ =~= spec_init_state(lod as int).1);
    }
    let ghost st0 = (grid@, occ@);
    let mut z: usize = 0;
    while z < size + 2
        invariant
            z <= size + 2,
            grid.wf(),
            grid.n == size + 3,
            n == grid.n as int,
            size == spec_size(lod as int),
            occ@.len() == size * size,
            coord.wf(),
            lod == 1 || lod == 2,
            settings.wf(),
            layers == settings.layers@,
            st0 == spec_init_state(lod as int),
            (grid@, occ@) == spec_columns(
                st0,
                coord,
                lod as int,
                layers,
                size as int,
                n,
                z as int,
            ),
        decreases size + 2 - z,
    {
        let ghost st_z = (grid@, occ@);
        let mut x: usize = 0;
        while x < size + 2
            invariant
                x <= size + 2,
                z < size + 2,
                grid.wf(),
                grid.n == size + 3,
                n == grid.n as int,
                size == spec_size(lod as int),
                occ@.len() == size * size,
                coord.wf(),
                lod == 1 || lod == 2,
                settings.wf(),
                layers == settings.layers@,
                (grid@, occ@) == spec_columns_x(
                    st_z,
                    coord,
                    lod as int,
                    layers,
                    size as int,
                    n,
                    z as int,
                    x as int,
                ),
            decreases size + 2 - x,
        {
            proof {
                assert((x - 1) * lod <= 66 && (x - 1) * lod >= -2 && (z - 1) * lod <= 66 && (z - 1)
                    * lod >= -2) by (nonlinear_arith)
                    requires
                        0 <= x <= 33,
                        0 <= z <= 33,
                        1 <= lod <= 2,
                {
                }
            }
            let wx: i64 = coord.x as i64 * 32 + (x as i64 - 1) * lod as i64;
            let wz: i64 = coord.z as i64 * 32 + (z as i64 - 1) * lod as i64;
            let h = terrain_height(settings, wx, wz);
            occ_surface(&mut occ, size, x, z, h);
            fill_column(&mut grid, coord, lod, size, x, z, wx, wz, h);
            if lod == 1 {
                decorate_column(&mut grid, &mut occ, coord, size, wx, wz, h);
            }
            x = x + 1;
        }
        z = z + 1;
    }
    grid
}

/// Generation is deterministic: two grids produced for the same
/// coordinate, detail level and settings have identical contents.
pub proof fn lemma_generate_deterministic(
    g1: VoxelGrid,
    g2: VoxelGrid,
    coord: ChunkCoord,
    lod: int,
    layers: Seq<NoiseLayer>,
)
    requires
        g1@ == spec_generate(coord, lod, layers),
        g2@ == spec_generate(coord, lod, layers),
    ensures
        g1@ == g2@,
{
}

proof fn lemma_layer_sum_zero(layers: Seq<NoiseLayer>, wx: int, wz: int, k: int)
    requires
        forall|i: int| 0 <= i < layers.len() ==> (#[trigger] layers[i]).amplitude == 0,
        k <= layers.len(),
    ensures
        spec_layer_sum(layers, wx, wz, k) == 0,
    decreases k,
{
    if k > 1 {
        lemma_layer_sum_zero(layers, wx, wz, k - 1);
    }
}

/// A flat configuration (every layer amplitude zero) yields the base
/// height wherever the ridge field contributes nothing.
pub proof fn lemma_flat_height(layers: Seq<NoiseLayer>, wx: int, wz: int)
    requires
        forall|i: int| 0 <= i < layers.len() ==> (#[trigger] layers[i]).amplitude == 0,
        spec_ridge(wx, wz) == 0,
    ensures
        spec_height(layers, wx, wz) == BASE_HEIGHT,
{
    if layers.len() > 0 {
        lemma_layer_sum_zero(layers, wx, wz, layers.len() as int);
    }
}

/// Under a flat configuration, a full-detail terrain cell holds exactly
/// the base-height layering: grass at the surface, dirt one block below,
/// stone beneath, emptiness above — wherever the cave field does not
/// carve the cell.
pub proof fn lemma_flat_column_blocks(layers: Seq<NoiseLayer>, wx: int, wz: int, wy: int)
    requires
        forall|i: int| 0 <= i < layers.len() ==> (#[trigger] layers[i]).amplitude == 0,
        spec_ridge(wx, wz) == 0,
        wy <= BASE_HEIGHT ==> spec_cave(wx, wy, wz) <= CARVE_THRESHOLD,
    ensures
        spec_height(layers, wx, wz) == BASE_HEIGHT,
        spec_cell_scan(wx, wz, wy, BASE_HEIGHT as int, 0) == (if wy > BASE_HEIGHT {
            BlockType::Empty
        } else if wy == BASE_HEIGHT {
            BlockType::Grass
        } else if wy == BASE_HEIGHT - 1 {
            BlockType::Dirt
        } else {
            BlockType::Stone
        }),
{
    lemma_flat_height(layers, wx, wz);
    reveal_with_fuel(spec_cell_scan, 3);
}

} // verus!
