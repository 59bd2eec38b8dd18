use voxel_world::scheduler::{observer_chunk, Entry, Scheduler};
use voxel_world::ChunkCoord;

fn cheb(a: ChunkCoord, b: ChunkCoord) -> i64 {
    let dx = (a.x as i64 - b.x as i64).abs();
    let dz = (a.z as i64 - b.z as i64).abs();
    dx.max(dz)
}

fn origin() -> ChunkCoord {
    ChunkCoord { x: 0, y: 0, z: 0 }
}

#[test]
fn observer_chunk_floor_division() {
    let c = observer_chunk(0, 0, 0);
    assert_eq!((c.x, c.y, c.z), (0, 0, 0));
    let c = observer_chunk(-1, 40, 31);
    assert_eq!((c.x, c.y, c.z), (-1, 1, 0));
    let c = observer_chunk(64, -33, -32);
    assert_eq!((c.x, c.y, c.z), (2, -2, -1));
}

/// The first pass around a fresh observer requests the whole ring: one
/// coordinate per horizontal ring cell and vertical layer.
#[test]
fn first_tick_requests_full_ring() {
    let mut s = Scheduler::new();
    let reqs = s.tick(origin(), 4);
    let expected = (2 * 4 + 1) * (2 * 4 + 1) * 8;
    assert_eq!(reqs.len(), expected);
    assert_eq!(s.pending_count(), expected);
    assert_eq!(s.resident_count(), 0);
}

/// Ring overlap never dispatches a coordinate twice in one pass.
#[test]
fn requests_have_unique_coordinates() {
    let mut s = Scheduler::new();
    let reqs = s.tick(origin(), 3);
    for i in 0..reqs.len() {
        for j in (i + 1)..reqs.len() {
            assert!(reqs[i].coord != reqs[j].coord);
        }
    }
}

#[test]
fn required_lod_follows_ring_distance() {
    let mut s = Scheduler::new();
    let reqs = s.tick(origin(), 8);
    assert!(!reqs.is_empty());
    for e in &reqs {
        let d = cheb(e.coord, origin());
        if d <= 6 {
            assert_eq!(e.lod, 1, "near ring chunk {:?}", e.coord);
        } else {
            assert_eq!(e.lod, 2, "far ring chunk {:?}", e.coord);
        }
        assert!(0 <= e.coord.y && e.coord.y < 8);
        assert!(d <= 8);
    }
}

/// A completion is accepted exactly while its coordinate is pending at
/// the built detail level; acceptance moves it to the resident set.
#[test]
fn completion_promotes_pending_to_resident() {
    let mut s = Scheduler::new();
    let reqs = s.tick(origin(), 2);
    let e = reqs[0];
    assert_eq!(s.pending_lod(e.coord), Some(e.lod));
    assert!(s.apply_completion(e.coord, e.lod));
    assert_eq!(s.pending_lod(e.coord), None);
    assert_eq!(s.resident_lod(e.coord), Some(e.lod));
}

#[test]
fn stale_completion_is_rejected() {
    let mut s = Scheduler::new();
    let _ = s.tick(origin(), 2);
    let never_requested = ChunkCoord { x: 50, y: 0, z: 50 };
    assert!(!s.apply_completion(never_requested, 1));
    let reqs_coord = ChunkCoord { x: 0, y: 0, z: 0 };
    // Wrong detail level: also stale.
    let have = s.pending_lod(reqs_coord).unwrap();
    assert!(!s.apply_completion(reqs_coord, 3 - have));
}

/// No coordinate is simultaneously resident and pending.
#[test]
fn resident_and_pending_stay_disjoint() {
    let mut s = Scheduler::new();
    let reqs = s.tick(origin(), 2);
    for (i, e) in reqs.iter().enumerate() {
        if i % 2 == 0 {
            s.apply_completion(e.coord, e.lod);
        }
    }
    let moved = ChunkCoord { x: 1, y: 0, z: 0 };
    let _ = s.tick(moved, 2);
    for r in &s.resident {
        for p in &s.pending {
            assert!(r.coord != p.coord);
        }
    }
}

/// Every tracked coordinate stays within the eviction ring of the last
/// pass.
#[test]
fn tracked_coordinates_stay_within_ring() {
    let mut s = Scheduler::new();
    let w = 3;
    let reqs = s.tick(origin(), w);
    for e in &reqs {
        s.apply_completion(e.coord, e.lod);
    }
    let moved = ChunkCoord { x: 7, y: 0, z: -2 };
    let _ = s.tick(moved, w);
    for e in s.resident.iter().chain(s.pending.iter()) {
        assert!(cheb(e.coord, moved) <= (w + 2) as i64);
    }
}

/// Moving the observer evicts exactly what left the eviction ring.
#[test]
fn movement_evicts_out_of_ring_chunks() {
    let mut s = Scheduler::new();
    let w = 4;
    let reqs = s.tick(origin(), w);
    for e in &reqs {
        s.apply_completion(e.coord, e.lod);
    }
    let far = ChunkCoord { x: -4, y: 0, z: 0 };
    let near = ChunkCoord { x: 4, y: 0, z: 0 };
    assert!(s.resident_lod(far).is_some());
    assert!(s.resident_lod(near).is_some());
    let moved = ChunkCoord { x: 9, y: 0, z: 0 };
    let _ = s.tick(moved, w);
    // distance 13 > w + 2 from the new chunk, but within range of the
    // old one: gone.
    assert!(s.resident_lod(far).is_none());
    assert!(s.pending_lod(far).is_none());
    // distance 5 <= w + 2: kept although no longer required.
    assert!(s.resident_lod(near).is_some());
}

/// Crossing the near-ring boundary re-requests a resident chunk at the
/// other detail level.
#[test]
fn lod_change_replaces_resident_chunk() {
    let mut s = Scheduler::new();
    let w = 8;
    let reqs = s.tick(origin(), w);
    for e in &reqs {
        s.apply_completion(e.coord, e.lod);
    }
    let c = ChunkCoord { x: 8, y: 0, z: 0 };
    assert_eq!(s.resident_lod(c), Some(2));
    let moved = ChunkCoord { x: 4, y: 0, z: 0 };
    let _ = s.tick(moved, w);
    // Now at ring distance 4: full detail required, the old half-detail
    // chunk is dropped and a full-detail build is pending.
    assert_eq!(s.resident_lod(c), None);
    assert_eq!(s.pending_lod(c), Some(1));
}

/// A pass is skipped entirely while the observer stays in its chunk.
#[test]
fn unchanged_observer_skips_the_pass() {
    let mut s = Scheduler::new();
    let first = s.tick(origin(), 2);
    assert!(!first.is_empty());
    let before = s.pending_count();
    let again = s.tick(origin(), 2);
    assert!(again.is_empty());
    assert_eq!(s.pending_count(), before);
}

#[test]
fn clear_drops_everything() {
    let mut s = Scheduler::new();
    let reqs = s.tick(origin(), 2);
    s.apply_completion(reqs[0].coord, reqs[0].lod);
    s.clear();
    assert_eq!(s.resident_count(), 0);
    assert_eq!(s.pending_count(), 0);
    let again = s.tick(origin(), 2);
    assert_eq!(again.len(), 5 * 5 * 8);
}

#[test]
fn requests_carry_admissible_entries() {
    let mut s = Scheduler::new();
    let reqs = s.tick(ChunkCoord { x: -10, y: 0, z: 20 }, 2);
    for e in &reqs {
        let Entry { coord, lod } = *e;
        assert!(lod == 1 || lod == 2);
        assert!(coord.x.abs() <= 60000 && coord.z.abs() <= 60000);
    }
}

/// A pending build whose coordinate leaves the required ring but stays
/// within the eviction margin survives the pass at its old detail level.
#[test]
fn pending_within_margin_survives_movement() {
    let mut s = Scheduler::new();
    let w = 2;
    let _ = s.tick(origin(), w);
    let edge = ChunkCoord { x: -2, y: 0, z: 0 };
    assert_eq!(s.pending_lod(edge), Some(1));
    let moved = ChunkCoord { x: 2, y: 0, z: 0 };
    let _ = s.tick(moved, w);
    // Ring distance 4 == w + 2: no longer required, still inside the
    // eviction ring, so the in-flight build is kept.
    assert_eq!(s.pending_lod(edge), Some(1));
    // One step further and it is abandoned.
    let moved2 = ChunkCoord { x: 3, y: 0, z: 0 };
    let _ = s.tick(moved2, w);
    assert_eq!(s.pending_lod(edge), None);
}
