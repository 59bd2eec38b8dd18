use voxel_world::block::BlockType;
use voxel_world::grid::VoxelGrid;
use voxel_world::mesher::{mesh_chunk, mesh_quads, Quad};
use voxel_world::settings::NoiseSettings;
use voxel_world::terrain::generate;
use voxel_world::ChunkCoord;

fn small_grid(size: usize) -> VoxelGrid {
    VoxelGrid::new(size + 3)
}

fn faces_of(quads: &[Quad]) -> Vec<(u8, usize, usize, usize)> {
    let mut faces = Vec::new();
    for q in quads {
        for du in 0..q.w {
            for dv in 0..q.h {
                faces.push((q.dir, q.slice, q.u0 + du, q.v0 + dv));
            }
        }
    }
    faces.sort();
    faces
}

#[test]
fn single_voxel_emits_six_faces() {
    let mut g = small_grid(4);
    g.set(2, 2, 2, BlockType::Grass);
    let quads = mesh_quads(&g, 4);
    assert_eq!(quads.len(), 6);
    for q in &quads {
        assert_eq!(q.w, 1);
        assert_eq!(q.h, 1);
        assert_eq!(q.block, BlockType::Grass);
    }
}

#[test]
fn empty_grid_emits_nothing() {
    let g = small_grid(4);
    let quads = mesh_quads(&g, 4);
    assert_eq!(quads.len(), 0);
}

#[test]
fn skirt_voxels_emit_nothing() {
    // Solids in the padding skirt are outside the meshed interior.
    let mut g = small_grid(4);
    g.set(0, 2, 2, BlockType::Stone);
    g.set(5, 1, 1, BlockType::Stone);
    let quads = mesh_quads(&g, 4);
    assert_eq!(quads.len(), 0);
}

#[test]
fn adjacent_same_blocks_merge() {
    // Two grass voxels in a row: the shared faces vanish and the four
    // side strips merge, leaving six quads covering ten unit faces.
    let mut g = small_grid(4);
    g.set(2, 2, 2, BlockType::Grass);
    g.set(3, 2, 2, BlockType::Grass);
    let quads = mesh_quads(&g, 4);
    assert_eq!(quads.len(), 6);
    assert_eq!(faces_of(&quads).len(), 10);
}

#[test]
fn adjacent_different_blocks_do_not_merge() {
    let mut g = small_grid(4);
    g.set(2, 2, 2, BlockType::Grass);
    g.set(3, 2, 2, BlockType::Stone);
    let quads = mesh_quads(&g, 4);
    assert_eq!(quads.len(), 10);
    assert_eq!(faces_of(&quads).len(), 10);
    let grass = quads.iter().filter(|q| q.block == BlockType::Grass).count();
    let stone = quads.iter().filter(|q| q.block == BlockType::Stone).count();
    assert_eq!(grass, 5);
    assert_eq!(stone, 5);
}

#[test]
fn no_face_between_two_solids() {
    // A solid 2x1x1 bar never exposes the interface between its cells:
    // every covered face borders emptiness.
    let mut g = small_grid(4);
    g.set(2, 2, 2, BlockType::Dirt);
    g.set(3, 2, 2, BlockType::Dirt);
    for (dir, slice, u, v) in faces_of(&mesh_quads(&g, 4)) {
        // A +x face of cell (2,2,2) or a -x face of cell (3,2,2) would be
        // the covered interface; neither may appear.
        assert!(!(dir == 0 && slice == 2 && u == 2 && v == 2));
        assert!(!(dir == 1 && slice == 3 && u == 2 && v == 2));
    }
}

#[test]
fn flat_slab_merges_to_single_top_quad() {
    let mut g = small_grid(4);
    for x in 1..=4 {
        for z in 1..=4 {
            g.set(x, 1, z, BlockType::Stone);
        }
    }
    let quads = mesh_quads(&g, 4);
    let top: Vec<&Quad> = quads.iter().filter(|q| q.dir == 2).collect();
    assert_eq!(top.len(), 1);
    assert_eq!(top[0].w, 4);
    assert_eq!(top[0].h, 4);
}

#[test]
fn remeshing_covers_the_same_faces() {
    let settings = NoiseSettings::default();
    let g = generate(ChunkCoord { x: 0, y: 1, z: 0 }, 1, &settings);
    let a = mesh_quads(&g, 32);
    let b = mesh_quads(&g, 32);
    assert_eq!(faces_of(&a), faces_of(&b));
    assert_eq!(a, b);
}

#[test]
fn chunk_mesh_buffer_shape() {
    let settings = NoiseSettings::default();
    let g = generate(ChunkCoord { x: 0, y: 1, z: 0 }, 1, &settings);
    let md = mesh_chunk(&g, 1);
    let n = md.quads.len();
    assert!(n > 0);
    assert_eq!(md.positions.len(), 4 * n);
    assert_eq!(md.normals.len(), 4 * n);
    assert_eq!(md.colors.len(), 4 * n);
    assert_eq!(md.indices.len(), 6 * n);
    // Two triangles per quad: the triangle count is even.
    assert_eq!(md.indices.len() % 3, 0);
    assert_eq!((md.indices.len() / 3) % 2, 0);
    for p in &md.positions {
        assert!(0 <= p.x && p.x <= 32);
        assert!(0 <= p.y && p.y <= 32);
        assert!(0 <= p.z && p.z <= 32);
    }
    for i in &md.indices {
        assert!((*i as usize) < md.positions.len());
    }
    for nrm in &md.normals {
        assert_eq!(nrm.x.abs() + nrm.y.abs() + nrm.z.abs(), 1);
    }
}

#[test]
fn half_detail_mesh_stays_in_cube() {
    let settings = NoiseSettings::default();
    let g = generate(ChunkCoord { x: 2, y: 1, z: -1 }, 2, &settings);
    let md = mesh_chunk(&g, 2);
    for p in &md.positions {
        assert!(0 <= p.x && p.x <= 32);
        assert!(0 <= p.y && p.y <= 32);
        assert!(0 <= p.z && p.z <= 32);
    }
}

#[test]
fn quad_colors_follow_palette() {
    let c = BlockType::Grass.color();
    assert_eq!((c.r, c.g, c.b, c.a), (26, 204, 26, 255));
    let d = BlockType::Dirt.color();
    assert_eq!((d.r, d.g, d.b, d.a), (140, 69, 18, 255));
    let s = BlockType::Stone.color();
    assert_eq!((s.r, s.g, s.b, s.a), (153, 153, 153, 255));
    let w = BlockType::Wood.color();
    assert_eq!((w.r, w.g, w.b, w.a), (140, 69, 18, 255));
    let l = BlockType::Leaf.color();
    assert_eq!((l.r, l.g, l.b, l.a), (51, 153, 51, 255));
}
