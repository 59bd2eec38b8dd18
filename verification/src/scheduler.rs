//! The chunk scheduler: which chunk must exist at which detail level,
//! given the observer's chunk, and the bookkeeping of in-flight and
//! resident work.
//!
//! Per chunk coordinate the life cycle is absent, then pending (a
//! background build was dispatched), then resident (its mesh is in the
//! scene).  A coordinate is never resident and pending at once; every
//! tracked coordinate stays within the eviction ring of the last
//! scheduling pass; asking for a coordinate twice in one pass yields one
//! pending task.  Results arriving for coordinates that are no longer
//! pending at the built detail level are stale and rejected.

use vstd::prelude::*;
use crate::ChunkCoord;
use crate::MAX_CHUNKS_Y;
use crate::terrain::spec_abs;

verus! {

/// One tracked chunk: its coordinate and the detail level it was (or is
/// being) built at.
#[derive(Clone, Copy, PartialEq, Eq, Structural, Debug)]
pub struct Entry {
    pub coord: ChunkCoord,
    pub lod: u32,
}

/// The detail level recorded for `c`, scanning the newest entry first.
pub open spec fn spec_find(s: Seq<Entry>, c: ChunkCoord) -> Option<u32>
    decreases s.len(),
{
    if s.len() == 0 {
        None
    } else if s.last().coord == c {
        Some(s.last().lod)
    } else {
        spec_find(s.drop_last(), c)
    }
}

/// No coordinate appears twice.
pub open spec fn spec_no_dup(s: Seq<Entry>) -> bool {
    forall|i: int, j: int|
        0 <= i < j < s.len() ==> (#[trigger] s[i]).coord != (#[trigger] s[j]).coord
}

/// Chebyshev (ring) distance between two chunk coordinates, horizontal
/// axes only: the vertical layers share their column's fate.
pub open spec fn spec_cheb(a: ChunkCoord, b: ChunkCoord) -> int {
    let dx = spec_abs(a.x - b.x);
    let dz = spec_abs(a.z - b.z);
    if dx >= dz {
        dx
    } else {
        dz
    }
}

/// Chunks past this ring distance beyond the view radius are evicted; the
/// margin prevents create/destroy thrashing at the boundary.
pub const EVICTION_MARGIN: i32 = 2;

/// Ring distance out to which full detail is required.
pub const FULL_DETAIL_RADIUS: i32 = 6;

/// Whether coordinate `c` must exist when the observer stands in chunk
/// `o` with view radius `w`: within the horizontal ring, over all
/// vertical layers of the world.
pub open spec fn spec_required(c: ChunkCoord, o: ChunkCoord, w: int) -> bool {
    spec_cheb(c, o) <= w && 0 <= c.y < MAX_CHUNKS_Y
}

/// The detail level required at `c`: full detail on the near ring,
/// half detail beyond.
pub open spec fn spec_req_lod(c: ChunkCoord, o: ChunkCoord) -> u32 {
    if spec_cheb(c, o) <= FULL_DETAIL_RADIUS {
        1u32
    } else {
        2u32
    }
}

proof fn lemma_find_push(s: Seq<Entry>, e: Entry, c: ChunkCoord)
    ensures
        spec_find(s.push(e), c) == (if e.coord == c {
            Some(e.lod)
        } else {
            spec_find(s, c)
        }),
{
    assert(s.push(e).drop_last() =~= s);
    assert(s.push(e).last() == e);
}

proof fn lemma_find_none(s: Seq<Entry>, c: ChunkCoord)
    ensures
        (spec_find(s, c) is None) <==> (forall|i: int| 0 <= i < s.len() ==> (#[trigger] s[i]).coord
            != c),
    decreases s.len(),
{
    if s.len() > 0 {
        lemma_find_none(s.drop_last(), c);
        assert(s.last() == s[s.len() - 1]);
        if spec_find(s, c) is None {
            assert forall|i: int| 0 <= i < s.len() implies (#[trigger] s[i]).coord != c by {
                if i < s.len() - 1 {
                    assert(s.drop_last()[i] == s[i]);
                    assert(s.drop_last()[i].coord != c);
                }
            }
        } else {
            if s.last().coord != c {
                assert(spec_find(s.drop_last(), c) is Some);
                let i = choose|i: int|
                    0 <= i < s.drop_last().len() && (#[trigger] s.drop_last()[i]).coord == c;
                assert(s[i] == s.drop_last()[i]);
            }
        }
    }
}

proof fn lemma_find_some(s: Seq<Entry>, c: ChunkCoord)
    requires
        spec_find(s, c) is Some,
    ensures
        exists|i: int|
            0 <= i < s.len() && #[trigger] s[i] == (Entry {
                coord: c,
                lod: spec_find(s, c)->Some_0,
            }),
    decreases s.len(),
{
    if s.last().coord == c {
        assert(s[s.len() - 1] == (Entry { coord: c, lod: spec_find(s, c)->Some_0 }));
    } else {
        lemma_find_some(s.drop_last(), c);
        let i = choose|i: int|
            0 <= i < s.drop_last().len() && #[trigger] s.drop_last()[i] == (Entry {
                coord: c,
                lod: spec_find(s.drop_last(), c)->Some_0,
            });
        assert(s[i] == s.drop_last()[i]);
    }
}

proof fn lemma_find_take_step(s: Seq<Entry>, i: int, c: ChunkCoord)
    requires
        0 <= i < s.len(),
    ensures
        spec_find(s.take(i + 1), c) == (if s[i].coord == c {
            Some(s[i].lod)
        } else {
            spec_find(s.take(i), c)
        }),
{
    assert(s.take(i + 1).drop_last() =~= s.take(i));
    assert(s.take(i + 1).last() == s[i]);
}

proof fn lemma_find_remove(s: Seq<Entry>, i: int, c: ChunkCoord)
    requires
        spec_no_dup(s),
        0 <= i < s.len(),
    ensures
        spec_find(s.remove(i), c) == (if s[i].coord == c {
            None
        } else {
            spec_find(s, c)
        }),
    decreases s.len(),
{
    s.remove_ensures(i);
    if i == s.len() - 1 {
        assert(s.remove(i) =~= s.drop_last());
        if s[i].coord == c {
            lemma_find_none(s.drop_last(), c);
            assert(forall|j: int|
                0 <= j < s.len() - 1 ==> #[trigger] s.drop_last()[j] == s[j]);
        }
    } else {
        assert(s.remove(i).last() == s.last());
        assert(s.remove(i).drop_last() =~= s.drop_last().remove(i));
        assert(spec_no_dup(s.drop_last())) by {
            assert(forall|j: int|
                0 <= j < s.len() - 1 ==> #[trigger] s.drop_last()[j] == s[j]);
        }
        lemma_find_remove(s.drop_last(), i, c);
        assert(s.drop_last()[i] == s[i]);
        if s.last().coord == c {
            if s[i].coord == c {
                assert(s[i].coord == s[s.len() - 1].coord);
                assert(false);
            }
        }
    }
}

proof fn lemma_no_dup_remove(s: Seq<Entry>, i: int)
    requires
        spec_no_dup(s),
        0 <= i < s.len(),
    ensures
        spec_no_dup(s.remove(i)),
{
    s.remove_ensures(i);
    assert forall|a: int, b: int| 0 <= a < b < s.remove(i).len() implies (#[trigger] s.remove(
        i,
    )[a]).coord != (#[trigger] s.remove(i)[b]).coord by {
        let a2 = if a < i {
            a
        } else {
            a + 1
        };
        let b2 = if b < i {
            b
        } else {
            b + 1
        };
        assert(s.remove(i)[a] == s[a2]);
        assert(s.remove(i)[b] == s[b2]);
    }
}

/// The recorded detail level of `c` in an entry list.
fn find_lod(v: &Vec<Entry>, c: ChunkCoord) -> (r: Option<u32>)
    ensures
        r == spec_find(v@, c),
{
    proof {
        assert(v@.take(v@.len() as int) =~= v@);
    }
    let mut i: usize = v.len();
    while i > 0
        invariant
            i <= v@.len(),
            spec_find(v@, c) == spec_find(v@.take(i as int), c),
        decreases i,
    {
        i = i - 1;
        let e = v[i];
        proof {
            lemma_find_take_step(v@, i as int, c);
        }
        if e.coord == c {
            return Some(e.lod);
        }
    }
    proof {
        assert(v@.take(0) =~= Seq::<Entry>::empty());
    }
    None
}

/// Drop the entry of `c`, if one is there.
fn remove_coord(v: &mut Vec<Entry>, c: ChunkCoord) -> (removed: bool)
    requires
        spec_no_dup(old(v)@),
    ensures
        spec_no_dup(final(v)@),
        removed == (spec_find(old(v)@, c) is Some),
        final(v)@.len() == old(v)@.len() - (if removed {
            1int
        } else {
            0int
        }),
        forall|c2: ChunkCoord|
            #[trigger] spec_find(final(v)@, c2) == (if c2 == c {
                None
            } else {
                spec_find(old(v)@, c2)
            }),
        forall|i: int|
            0 <= i < final(v)@.len() ==> old(v)@.contains(#[trigger] final(v)@[i]),
{
    let mut i: usize = 0;
    let len = v.len();
    while i < len
        invariant
            i <= len,
            len == v@.len(),
            v@ == old(v)@,
            spec_no_dup(v@),
            forall|j: int| 0 <= j < i ==> (#[trigger] v@[j]).coord != c,
        decreases len - i,
    {
        let e = v[i];
        if e.coord == c {
            let ghost s0 = v@;
            proof {
                lemma_find_remove(s0, i as int, c);
                lemma_no_dup_remove(s0, i as int);
                assert(spec_find(s0, c) is Some) by {
                    lemma_find_none(s0, c);
                    assert(s0[i as int].coord == c);
                }
            }
            v.remove(i);
            proof {
                assert(v@ == s0.remove(i as int));
                s0.remove_ensures(i as int);
                assert forall|c2: ChunkCoord| c2 != c implies #[trigger] spec_find(v@, c2)
                    == spec_find(s0, c2) by {
                    lemma_find_remove(s0, i as int, c2);
                }
                assert forall|j: int| 0 <= j < v@.len() implies s0.contains(
                    #[trigger] v@[j],
                ) by {
                    if j < i {
                        assert(s0.remove(i as int)[j] == s0[j]);
                    } else {
                        assert(s0.remove(i as int)[j] == s0[j + 1]);
                    }
                }
            }
            return true;
        }
        i = i + 1;
    }
    proof {
        lemma_find_none(v@, c);
        assert forall|j: int| 0 <= j < v@.len() implies old(v)@.contains(#[trigger] v@[j]) by {
            assert(v@[j] == old(v)@[j]);
        }
    }
    false
}

/// The scheduler's bookkeeping: resident chunks (built and in the
/// scene), pending chunks (dispatched to a background build), and the
/// observer chunk of the last scheduling pass.
pub struct Scheduler {
    pub resident: Vec<Entry>,
    pub pending: Vec<Entry>,
    pub last: Option<ChunkCoord>,
}

impl Scheduler {
    /// An admissible entry: coordinate within machine bounds, detail
    /// level full or half.
    pub open spec fn entry_ok(e: Entry) -> bool {
        &&& e.coord.wf()
        &&& (e.lod == 1 || e.lod == 2)
    }

    /// Bookkeeping invariant: unique coordinates per set, no coordinate
    /// in both sets at once, admissible entries throughout.
    pub open spec fn wf(self) -> bool {
        &&& spec_no_dup(self.resident@)
        &&& spec_no_dup(self.pending@)
        &&& forall|i: int, j: int|
            0 <= i < self.resident@.len() && 0 <= j < self.pending@.len() ==> (
            #[trigger] self.resident@[i]).coord != (#[trigger] self.pending@[j]).coord
        &&& forall|i: int|
            0 <= i < self.resident@.len() ==> Self::entry_ok(#[trigger] self.resident@[i])
        &&& forall|i: int|
            0 <= i < self.pending@.len() ==> Self::entry_ok(#[trigger] self.pending@[i])
    }

    /// A fresh scheduler with nothing tracked.
    pub fn new() -> (s: Scheduler)
        ensures
            s.wf(),
            s.resident@.len() == 0,
            s.pending@.len() == 0,
            s.last is None,
            forall|c: ChunkCoord| #[trigger] spec_find(s.resident@, c) is None,
            forall|c: ChunkCoord| #[trigger] spec_find(s.pending@, c) is None,
    {
        Scheduler { resident: Vec::new(), pending: Vec::new(), last: None }
    }

    /// Tear down the whole session: all residency and pending
    /// bookkeeping is dropped.
    pub fn clear(&mut self)
        ensures
            final(self).wf(),
            final(self).resident@.len() == 0,
            final(self).pending@.len() == 0,
            final(self).last is None,
            forall|c: ChunkCoord| #[trigger] spec_find(final(self).resident@, c) is None,
            forall|c: ChunkCoord| #[trigger] spec_find(final(self).pending@, c) is None,
    {
        self.resident = Vec::new();
        self.pending = Vec::new();
        self.last = None;
    }

    /// The detail level `c` is resident at, if it is resident.
    pub fn resident_lod(&self, c: ChunkCoord) -> (r: Option<u32>)
        ensures
            r == spec_find(self.resident@, c),
    {
        find_lod(&self.resident, c)
    }

    /// The detail level `c` is pending at, if a build is in flight.
    pub fn pending_lod(&self, c: ChunkCoord) -> (r: Option<u32>)
        ensures
            r == spec_find(self.pending@, c),
    {
        find_lod(&self.pending, c)
    }

    /// How many chunks are resident.
    pub fn resident_count(&self) -> (n: usize)
        ensures
            n == self.resident@.len(),
    {
        self.resident.len()
    }

    /// How many builds are in flight.
    pub fn pending_count(&self) -> (n: usize)
        ensures
            n == self.pending@.len(),
    {
        self.pending.len()
    }

    /// No coordinate is ever tracked as resident and pending at once.
    pub proof fn lemma_resident_pending_disjoint(self, c: ChunkCoord)
        requires
            self.wf(),
        ensures
            !(spec_find(self.resident@, c) is Some && spec_find(self.pending@, c) is Some),
    {
        if spec_find(self.resident@, c) is Some && spec_find(self.pending@, c) is Some {
            lemma_find_none(self.resident@, c);
            lemma_find_none(self.pending@, c);
            let i = choose|i: int|
                0 <= i < self.resident@.len() && (#[trigger] self.resident@[i]).coord == c;
            let j = choose|j: int|
                0 <= j < self.pending@.len() && (#[trigger] self.pending@[j]).coord == c;
            assert(self.resident@[i].coord != self.pending@[j].coord);
        }
    }

    /// Apply one completed background build.
    ///
    /// The result is accepted exactly when `c` is still pending at the
    /// built detail level; then `c` becomes resident at that level.  A
    /// stale result (superseded or evicted since dispatch) changes
    /// nothing and reports rejection.
    pub fn apply_completion(&mut self, c: ChunkCoord, lod: u32) -> (accepted: bool)
        requires
            old(self).wf(),
        ensures
            final(self).wf(),
            accepted == (spec_find(old(self).pending@, c) == Some(lod)),
            final(self).last == old(self).last,
            accepted ==> forall|c2: ChunkCoord|
                #[trigger] spec_find(final(self).pending@, c2) == (if c2 == c {
                    None
                } else {
                    spec_find(old(self).pending@, c2)
                }),
            accepted ==> forall|c2: ChunkCoord|
                #[trigger] spec_find(final(self).resident@, c2) == (if c2 == c {
                    Some(lod)
                } else {
                    spec_find(old(self).resident@, c2)
                }),
            !accepted ==> final(self).pending@ == old(self).pending@ && final(self).resident@
                == old(self).resident@,
    {
        let cur = find_lod(&self.pending, c);
        let accept = match cur {
            Some(l) => l == lod,
            None => false,
        };
        if accept {
            {
                proof {
                    lemma_find_none(self.pending@, c);
                    lemma_find_none(self.resident@, c);
                    let j = choose|j: int|
                        0 <= j < self.pending@.len() && (#[trigger] self.pending@[j]).coord == c;
                    assert forall|i: int|
                        0 <= i < self.resident@.len() implies (#[trigger] self.resident@[i]).coord
                        != c by {
                        assert(self.resident@[i].coord != self.pending@[j].coord);
                    }
                    assert(spec_find(self.resident@, c) is None);
                }
                let ghost pen0 = self.pending@;
                let ghost res0 = self.resident@;
                remove_coord(&mut self.pending, c);
                let ghost res_before = self.resident@;
                self.resident.push(Entry { coord: c, lod });
                proof {
                    assert(res_before == res0);
                    assert forall|c2: ChunkCoord| #[trigger] spec_find(self.resident@, c2) == (if c2
                        == c {
                        Some(lod)
                    } else {
                        spec_find(res0, c2)
                    }) by {
                        lemma_find_push(res0, Entry { coord: c, lod }, c2);
                    }
                    assert(spec_no_dup(self.resident@)) by {
                        lemma_find_none(res0, c);
                        assert forall|a: int, b: int|
                            0 <= a < b < self.resident@.len() implies (
                        #[trigger] self.resident@[a]).coord != (
                        #[trigger] self.resident@[b]).coord by {
                            if b < res0.len() {
                                assert(self.resident@[a] == res0[a]);
                                assert(self.resident@[b] == res0[b]);
                            } else {
                                assert(self.resident@[a] == res0[a]);
                                assert(res0[a].coord != c);
                            }
                        }
                    }
                    assert forall|i: int, j: int|
                        0 <= i < self.resident@.len() && 0 <= j < self.pending@.len() implies (
                    #[trigger] self.resident@[i]).coord != (#[trigger] self.pending@[j]).coord by {
                        assert(pen0.contains(self.pending@[j]));
                        let j2 = choose|j2: int|
                            0 <= j2 < pen0.len() && pen0[j2] == self.pending@[j];
                        if i < res0.len() {
                            assert(self.resident@[i] == res0[i]);
                            assert(res0[i].coord != pen0[j2].coord);
                        } else {
                            assert(self.resident@[i].coord == c);
                            assert(spec_find(self.pending@, c) is None);
                            lemma_find_none(self.pending@, c);
                        }
                    }
                    assert forall|i: int|
                        0 <= i < self.resident@.len() implies Self::entry_ok(
                        #[trigger] self.resident@[i],
                    ) by {
                        if i < res0.len() {
                            assert(self.resident@[i] == res0[i]);
                        } else {
                            assert(self.resident@[i] == (Entry { coord: c, lod }));
                            lemma_find_some(pen0, c);
                            let j2 = choose|j2: int|
                                0 <= j2 < pen0.len() && #[trigger] pen0[j2] == (Entry {
                                    coord: c,
                                    lod: spec_find(pen0, c)->Some_0,
                                });
                            assert(Self::entry_ok(pen0[j2]));
                        }
                    }
                    assert forall|i: int|
                        0 <= i < self.pending@.len() implies Self::entry_ok(
                        #[trigger] self.pending@[i],
                    ) by {
                        assert(pen0.contains(self.pending@[i]));
                        let j2 = choose|j2: int|
                            0 <= j2 < pen0.len() && pen0[j2] == self.pending@[i];
                        assert(Self::entry_ok(pen0[j2]));
                    }
                }
                true
            }
        } else {
            false
        }
    }
}

/// Bound on observer chunk coordinates a scheduling pass accepts: keeps
/// every coordinate the pass touches within `ChunkCoord::wf` bounds.
pub const OBSERVER_MAX: i32 = 59000;

/// Whether an eviction pass keeps a resident entry: within the eviction
/// ring, and not required at a different detail level than it has.
pub open spec fn spec_keep_res(e: Entry, o: ChunkCoord, w: int) -> bool {
    spec_cheb(e.coord, o) <= w + EVICTION_MARGIN && (!spec_required(e.coord, o, w) || e.lod
        == spec_req_lod(e.coord, o))
}

/// What one scheduling pass leaves resident at `c`: the old entry,
/// unless it fell out of the eviction ring or is required at another
/// detail level.
pub open spec fn spec_pass_resident(res0: Seq<Entry>, c: ChunkCoord, o: ChunkCoord, w: int) -> Option<
    u32,
> {
    match spec_find(res0, c) {
        Some(l) => if spec_keep_res(Entry { coord: c, lod: l }, o, w) {
            Some(l)
        } else {
            None
        },
        None => None,
    }
}

/// What one scheduling pass leaves pending at `c`: the required detail
/// level wherever `c` is required and not already resident at it;
/// otherwise the old pending entry while it stays within the eviction
/// ring.
pub open spec fn spec_pass_pending(
    res0: Seq<Entry>,
    pen0: Seq<Entry>,
    c: ChunkCoord,
    o: ChunkCoord,
    w: int,
) -> Option<u32> {
    if spec_required(c, o, w) && spec_pass_resident(res0, c, o, w) != Some(spec_req_lod(c, o)) {
        Some(spec_req_lod(c, o))
    } else if !spec_required(c, o, w) && spec_cheb(c, o) <= w + EVICTION_MARGIN {
        spec_find(pen0, c)
    } else {
        None
    }
}

/// Whether one scheduling pass dispatches a new build for `c`: required,
/// not resident at the required detail level after eviction, and not
/// already pending at it.
pub open spec fn spec_pass_request(
    res0: Seq<Entry>,
    pen0: Seq<Entry>,
    c: ChunkCoord,
    o: ChunkCoord,
    w: int,
) -> bool {
    &&& spec_required(c, o, w)
    &&& spec_pass_resident(res0, c, o, w) != Some(spec_req_lod(c, o))
    &&& spec_find(pen0, c) != Some(spec_req_lod(c, o))
}

/// Scan order of the required ring: whether `c` comes before position
/// `(ix, iz, iy)` (relative ring coordinates, then vertical layer).
pub open spec fn spec_before(c: ChunkCoord, o: ChunkCoord, w: int, ix: int, iz: int, iy: int) -> bool {
    let dx = c.x - o.x + w;
    let dz = c.z - o.z + w;
    ||| dx < ix
    ||| (dx == ix && dz < iz)
    ||| (dx == ix && dz == iz && c.y < iy)
}

/// Chebyshev ring distance, horizontal axes.
pub fn cheb_dist(a: ChunkCoord, b: ChunkCoord) -> (d: i64)
    ensures
        d == spec_cheb(a, b),
{
    let dx: i64 = a.x as i64 - b.x as i64;
    let dz: i64 = a.z as i64 - b.z as i64;
    let ax: i64 = if dx < 0 {
        -dx
    } else {
        dx
    };
    let az: i64 = if dz < 0 {
        -dz
    } else {
        dz
    };
    if ax >= az {
        ax
    } else {
        az
    }
}

/// Evict resident entries that one scheduling pass drops (see
/// `spec_pass_resident`).
fn filter_resident(v: &mut Vec<Entry>, o: ChunkCoord, w: i32)
    requires
        spec_no_dup(old(v)@),
        forall|i: int| 0 <= i < old(v)@.len() ==> Scheduler::entry_ok(#[trigger] old(v)@[i]),
        1 <= w <= 256,
    ensures
        spec_no_dup(final(v)@),
        forall|i: int| 0 <= i < final(v)@.len() ==> old(v)@.contains(#[trigger] final(v)@[i]),
        forall|i: int| 0 <= i < final(v)@.len() ==> Scheduler::entry_ok(#[trigger] final(v)@[i]),
        forall|c: ChunkCoord|
            #[trigger] spec_find(final(v)@, c) == spec_pass_resident(old(v)@, c, o, w as int),
{
    let ghost s0 = v@;
    let mut kept: Vec<Entry> = Vec::new();
    let len = v.len();
    let mut i: usize = 0;
    while i < len
        invariant
            i <= len,
            len == s0.len(),
            v@ == s0,
            spec_no_dup(s0),
            forall|j: int| 0 <= j < s0.len() ==> Scheduler::entry_ok(#[trigger] s0[j]),
            1 <= w <= 256,
            spec_no_dup(kept@),
            forall|j: int| 0 <= j < kept@.len() ==> s0.contains(#[trigger] kept@[j]),
            forall|j: int| 0 <= j < kept@.len() ==> Scheduler::entry_ok(#[trigger] kept@[j]),
            forall|c: ChunkCoord|
                #[trigger] spec_find(kept@, c) == (match spec_find(s0.take(i as int), c) {
                    Some(l) => if spec_keep_res(Entry { coord: c, lod: l }, o, w as int) {
                        Some(l)
                    } else {
                        None
                    },
                    None => None,
                }),
        decreases len - i,
    {
        let e = v[i];
        let d = cheb_dist(e.coord, o);
        let required = d <= w as i64 && 0 <= e.coord.y && e.coord.y < 8;
        let req: u32 = if d <= FULL_DETAIL_RADIUS as i64 {
            1
        } else {
            2
        };
        let keep = d <= w as i64 + EVICTION_MARGIN as i64 && (!required || e.lod == req);
        proof {
            assert(e == (Entry { coord: e.coord, lod: e.lod }));
            assert(keep == spec_keep_res(e, o, w as int));
            assert(spec_find(s0.take(i as int), e.coord) is None) by {
                lemma_find_none(s0.take(i as int), e.coord);
                assert forall|j: int| 0 <= j < i implies (#[trigger] s0.take(i as int)[j]).coord
                    != e.coord by {
                    assert(s0.take(i as int)[j] == s0[j]);
                    assert(s0[j].coord != s0[i as int].coord);
                }
            }
        }
        if keep {
            let ghost k0 = kept@;
            kept.push(e);
            proof {
                assert forall|c: ChunkCoord| #[trigger] spec_find(kept@, c) == (match spec_find(
                    s0.take(i as int + 1),
                    c,
                ) {
                    Some(l) => if spec_keep_res(Entry { coord: c, lod: l }, o, w as int) {
                        Some(l)
                    } else {
                        None
                    },
                    None => None,
                }) by {
                    lemma_find_push(k0, e, c);
                    lemma_find_take_step(s0, i as int, c);
                }
                assert(spec_no_dup(kept@)) by {
                    lemma_find_none(k0, e.coord);
                    assert forall|a: int, b: int| 0 <= a < b < kept@.len() implies (
                    #[trigger] kept@[a]).coord != (#[trigger] kept@[b]).coord by {
                        if b < k0.len() {
                            assert(kept@[a] == k0[a]);
                            assert(kept@[b] == k0[b]);
                        } else {
                            assert(kept@[a] == k0[a]);
                        }
                    }
                }
                assert forall|j: int| 0 <= j < kept@.len() implies s0.contains(
                    #[trigger] kept@[j],
                ) by {
                    if j < k0.len() {
                        assert(kept@[j] == k0[j]);
                    } else {
                        assert(kept@[j] == s0[i as int]);
                    }
                }
            }
        } else {
            proof {
                assert forall|c: ChunkCoord| #[trigger] spec_find(kept@, c) == (match spec_find(
                    s0.take(i as int + 1),
                    c,
                ) {
                    Some(l) => if spec_keep_res(Entry { coord: c, lod: l }, o, w as int) {
                        Some(l)
                    } else {
                        None
                    },
                    None => None,
                }) by {
                    lemma_find_take_step(s0, i as int, c);
                }
            }
        }
        i = i + 1;
    }
    proof {
        assert(s0.take(len as int) =~= s0);
    }
    *v = kept;
}

/// Evict pending entries that fell outside the eviction ring.
fn filter_pending(v: &mut Vec<Entry>, o: ChunkCoord, w: i32)
    requires
        spec_no_dup(old(v)@),
        forall|i: int| 0 <= i < old(v)@.len() ==> Scheduler::entry_ok(#[trigger] old(v)@[i]),
        1 <= w <= 256,
    ensures
        spec_no_dup(final(v)@),
        forall|i: int| 0 <= i < final(v)@.len() ==> old(v)@.contains(#[trigger] final(v)@[i]),
        forall|i: int| 0 <= i < final(v)@.len() ==> Scheduler::entry_ok(#[trigger] final(v)@[i]),
        forall|c: ChunkCoord|
            #[trigger] spec_find(final(v)@, c) == (if spec_cheb(c, o) <= w + EVICTION_MARGIN {
                spec_find(old(v)@, c)
            } else {
                None
            }),
{
    let ghost s0 = v@;
    let mut kept: Vec<Entry> = Vec::new();
    let len = v.len();
    let mut i: usize = 0;
    while i < len
        invariant
            i <= len,
            len == s0.len(),
            v@ == s0,
            spec_no_dup(s0),
            forall|j: int| 0 <= j < s0.len() ==> Scheduler::entry_ok(#[trigger] s0[j]),
            1 <= w <= 256,
            spec_no_dup(kept@),
            forall|j: int| 0 <= j < kept@.len() ==> s0.contains(#[trigger] kept@[j]),
            forall|j: int| 0 <= j < kept@.len() ==> Scheduler::entry_ok(#[trigger] kept@[j]),
            forall|c: ChunkCoord|
                #[trigger] spec_find(kept@, c) == (if spec_cheb(c, o) <= w + EVICTION_MARGIN {
                    spec_find(s0.take(i as int), c)
                } else {
                    None
                }),
        decreases len - i,
    {
        let e = v[i];
        let d = cheb_dist(e.coord, o);
        let keep = d <= w as i64 + EVICTION_MARGIN as i64;
        proof {
            assert(spec_find(s0.take(i as int), e.coord) is None) by {
                lemma_find_none(s0.take(i as int), e.coord);
                assert forall|j: int| 0 <= j < i implies (#[trigger] s0.take(i as int)[j]).coord
                    != e.coord by {
                    assert(s0.take(i as int)[j] == s0[j]);
                    assert(s0[j].coord != s0[i as int].coord);
                }
            }
        }
        if keep {
            let ghost k0 = kept@;
            kept.push(e);
            proof {
                assert forall|c: ChunkCoord| #[trigger] spec_find(kept@, c) == (if spec_cheb(c, o)
                    <= w + EVICTION_MARGIN {
                    spec_find(s0.take(i as int + 1), c)
                } else {
                    None
                }) by {
                    lemma_find_push(k0, e, c);
                    lemma_find_take_step(s0, i as int, c);
                }
                assert(spec_no_dup(kept@)) by {
                    lemma_find_none(k0, e.coord);
                    assert forall|a: int, b: int| 0 <= a < b < kept@.len() implies (
                    #[trigger] kept@[a]).coord != (#[trigger] kept@[b]).coord by {
                        if b < k0.len() {
                            assert(kept@[a] == k0[a]);
                            assert(kept@[b] == k0[b]);
                        } else {
                            assert(kept@[a] == k0[a]);
                        }
                    }
                }
                assert forall|j: int| 0 <= j < kept@.len() implies s0.contains(
                    #[trigger] kept@[j],
                ) by {
                    if j < k0.len() {
                        assert(kept@[j] == k0[j]);
                    } else {
                        assert(kept@[j] == s0[i as int]);
                    }
                }
            }
        } else {
            proof {
                assert forall|c: ChunkCoord| #[trigger] spec_find(kept@, c) == (if spec_cheb(c, o)
                    <= w + EVICTION_MARGIN {
                    spec_find(s0.take(i as int + 1), c)
                } else {
                    None
                }) by {
                    lemma_find_take_step(s0, i as int, c);
                }
            }
        }
        i = i + 1;
    }
    proof {
        assert(s0.take(len as int) =~= s0);
    }
    *v = kept;
}

/// The working invariant of the required-ring scan at position
/// `(ix, iz, iy)`: coordinates already scanned have their pass outcome,
/// the rest still hold their post-eviction state, and the dispatched
/// requests are exactly the scanned coordinates that needed a build.
pub open spec fn spec_scan_inv(
    res: Seq<Entry>,
    pen: Seq<Entry>,
    reqs: Seq<Entry>,
    res1: Seq<Entry>,
    pen1: Seq<Entry>,
    o: ChunkCoord,
    w: int,
    ix: int,
    iz: int,
    iy: int,
) -> bool {
    &&& spec_no_dup(res)
    &&& spec_no_dup(pen)
    &&& forall|i: int, j: int|
        0 <= i < res.len() && 0 <= j < pen.len() ==> (#[trigger] res[i]).coord != (
        #[trigger] pen[j]).coord
    &&& forall|i: int| 0 <= i < res.len() ==> Scheduler::entry_ok(#[trigger] res[i])
    &&& forall|i: int| 0 <= i < pen.len() ==> Scheduler::entry_ok(#[trigger] pen[i])
    &&& forall|c: ChunkCoord|
        spec_required(c, o, w) && spec_before(c, o, w, ix, iz, iy) ==> #[trigger] spec_find(res, c)
            == (if spec_find(res1, c) == Some(spec_req_lod(c, o)) {
            Some(spec_req_lod(c, o))
        } else {
            None
        })
    &&& forall|c: ChunkCoord|
        !(spec_required(c, o, w) && spec_before(c, o, w, ix, iz, iy)) ==> #[trigger] spec_find(
            res,
            c,
        ) == spec_find(res1, c)
    &&& forall|c: ChunkCoord|
        spec_required(c, o, w) && spec_before(c, o, w, ix, iz, iy) ==> #[trigger] spec_find(pen, c)
            == (if spec_find(res1, c) == Some(spec_req_lod(c, o)) {
            None
        } else {
            Some(spec_req_lod(c, o))
        })
    &&& forall|c: ChunkCoord|
        !(spec_required(c, o, w) && spec_before(c, o, w, ix, iz, iy)) ==> #[trigger] spec_find(
            pen,
            c,
        ) == spec_find(pen1, c)
    &&& spec_no_dup(reqs)
    &&& forall|k: int|
        0 <= k < reqs.len() ==> Scheduler::entry_ok(#[trigger] reqs[k]) && spec_required(
            reqs[k].coord,
            o,
            w,
        ) && reqs[k].lod == spec_req_lod(reqs[k].coord, o)
    &&& forall|c: ChunkCoord|
        #[trigger] spec_find(reqs, c) == (if spec_required(c, o, w) && spec_before(
            c,
            o,
            w,
            ix,
            iz,
            iy,
        ) && spec_find(res1, c) != Some(spec_req_lod(c, o)) && spec_find(pen1, c) != Some(
            spec_req_lod(c, o),
        ) {
            Some(spec_req_lod(c, o))
        } else {
            None
        })
    &&& ((res1.len() == 0 && pen1.len() == 0) ==> pen.len() == ix * (2 * w + 1) * 8 + iz * 8 + iy
        && reqs.len() == pen.len())
}

impl Scheduler {
    /// One scheduling pass: evict what left the ring, then walk the
    /// required ring and dispatch builds for every coordinate that is
    /// neither resident nor pending at its required detail level.  The
    /// pass is skipped when the observer has not crossed a chunk
    /// boundary since the last one.
    ///
    /// The returned entries are the dispatched builds; each coordinate
    /// appears at most once however often the ring visits it.  After a
    /// full pass every tracked coordinate lies within
    /// `w + EVICTION_MARGIN` of `o`.
    pub fn tick(&mut self, o: ChunkCoord, w: i32) -> (reqs: Vec<Entry>)
        requires
            old(self).wf(),
            1 <= w <= 256,
            -OBSERVER_MAX <= o.x <= OBSERVER_MAX,
            -OBSERVER_MAX <= o.y <= OBSERVER_MAX,
            -OBSERVER_MAX <= o.z <= OBSERVER_MAX,
        ensures
            final(self).wf(),
            old(self).last == Some(o) ==> (final(self).resident@ == old(self).resident@
                && final(self).pending@ == old(self).pending@ && final(self).last == old(
                self,
            ).last && reqs@.len() == 0),
            old(self).last != Some(o) ==> {
                &&& final(self).last == Some(o)
                &&& forall|c: ChunkCoord|
                    #[trigger] spec_find(final(self).resident@, c) == spec_pass_resident(
                        old(self).resident@,
                        c,
                        o,
                        w as int,
                    )
                &&& forall|c: ChunkCoord|
                    #[trigger] spec_find(final(self).pending@, c) == spec_pass_pending(
                        old(self).resident@,
                        old(self).pending@,
                        c,
                        o,
                        w as int,
                    )
                &&& spec_no_dup(reqs@)
                &&& forall|c: ChunkCoord|
                    #[trigger] spec_find(reqs@, c) == (if spec_pass_request(
                        old(self).resident@,
                        old(self).pending@,
                        c,
                        o,
                        w as int,
                    ) {
                        Some(spec_req_lod(c, o))
                    } else {
                        None
                    })
                &&& forall|k: int|
                    0 <= k < reqs@.len() ==> Scheduler::entry_ok(#[trigger] reqs@[k])
                        && spec_required(reqs@[k].coord, o, w as int) && reqs@[k].lod
                        == spec_req_lod(reqs@[k].coord, o)
                &&& forall|c: ChunkCoord|
                    (#[trigger] spec_find(final(self).resident@, c) is Some || #[trigger] spec_find(
                        final(self).pending@,
                        c,
                    ) is Some) ==> spec_cheb(c, o) <= w + EVICTION_MARGIN
                &&& ((old(self).resident@.len() == 0 && old(self).pending@.len() == 0)
                    ==> final(self).pending@.len() == (2 * w + 1) * (2 * w + 1) * 8 && reqs@.len()
                    == final(self).pending@.len())
            },
    {
        let same = match self.last {
            Some(prev) => prev == o,
            None => false,
        };
        if same {
            return Vec::new();
        }
        proof {
            if old(self).last is Some {
                assert(same == (old(self).last->Some_0 == o));
                if old(self).last == Some(o) {
                    assert(old(self).last->Some_0 == o);
                }
            }
            assert(old(self).last != Some(o));
        }
        let ghost res0 = self.resident@;
        let ghost pen0 = self.pending@;
        filter_resident(&mut self.resident, o, w);
        filter_pending(&mut self.pending, o, w);
        let ghost res1 = self.resident@;
        let ghost pen1 = self.pending@;
        proof {
            assert forall|i: int, j: int|
                0 <= i < res1.len() && 0 <= j < pen1.len() implies (#[trigger] res1[i]).coord != (
            #[trigger] pen1[j]).coord by {
                assert(res0.contains(res1[i]));
                assert(pen0.contains(pen1[j]));
                let i2 = choose|i2: int| 0 <= i2 < res0.len() && res0[i2] == res1[i];
                let j2 = choose|j2: int| 0 <= j2 < pen0.len() && pen0[j2] == pen1[j];
                assert(res0[i2].coord != pen0[j2].coord);
            }
        }
        let mut reqs: Vec<Entry> = Vec::new();
        let w64: i64 = w as i64;
        let mut ix: i64 = 0;
        while ix < 2 * w64 + 1
            invariant
                0 <= ix <= 2 * w64 + 1,
                w64 == w,
                1 <= w <= 256,
                -OBSERVER_MAX <= o.x <= OBSERVER_MAX,
                -OBSERVER_MAX <= o.y <= OBSERVER_MAX,
                -OBSERVER_MAX <= o.z <= OBSERVER_MAX,
                spec_scan_inv(
                    self.resident@,
                    self.pending@,
                    reqs@,
                    res1,
                    pen1,
                    o,
                    w as int,
                    ix as int,
                    0,
                    0,
                ),
            decreases 2 * w64 + 1 - ix,
        {
            let mut iz: i64 = 0;
            while iz < 2 * w64 + 1
                invariant
                    0 <= iz <= 2 * w64 + 1,
                    0 <= ix < 2 * w64 + 1,
                    w64 == w,
                    1 <= w <= 256,
                    -OBSERVER_MAX <= o.x <= OBSERVER_MAX,
                    -OBSERVER_MAX <= o.y <= OBSERVER_MAX,
                    -OBSERVER_MAX <= o.z <= OBSERVER_MAX,
                    spec_scan_inv(
                        self.resident@,
                        self.pending@,
                        reqs@,
                        res1,
                        pen1,
                        o,
                        w as int,
                        ix as int,
                        iz as int,
                        0,
                    ),
                decreases 2 * w64 + 1 - iz,
            {
                let mut iy: i64 = 0;
                while iy < 8
                    invariant
                        0 <= iy <= 8,
                        0 <= iz < 2 * w64 + 1,
                        0 <= ix < 2 * w64 + 1,
                        w64 == w,
                        1 <= w <= 256,
                        -OBSERVER_MAX <= o.x <= OBSERVER_MAX,
                        -OBSERVER_MAX <= o.y <= OBSERVER_MAX,
                        -OBSERVER_MAX <= o.z <= OBSERVER_MAX,
                        spec_scan_inv(
                            self.resident@,
                            self.pending@,
                            reqs@,
                            res1,
                            pen1,
                            o,
                            w as int,
                            ix as int,
                            iz as int,
                            iy as int,
                        ),
                    decreases 8 - iy,
                {
                    let c = ChunkCoord {
                        x: (o.x as i64 + (ix - w64)) as i32,
                        y: iy as i32,
                        z: (o.z as i64 + (iz - w64)) as i32,
                    };
                    let ax: i64 = if ix - w64 < 0 {
                        w64 - ix
                    } else {
                        ix - w64
                    };
                    let az: i64 = if iz - w64 < 0 {
                        w64 - iz
                    } else {
                        iz - w64
                    };
                    let d: i64 = if ax >= az {
                        ax
                    } else {
                        az
                    };
                    let req: u32 = if d <= FULL_DETAIL_RADIUS as i64 {
                        1
                    } else {
                        2
                    };
                    proof {
                        assert(d == spec_cheb(c, o));
                        assert(spec_required(c, o, w as int));
                        assert(req == spec_req_lod(c, o));
                        assert(c.wf());
                        assert(!spec_before(c, o, w as int, ix as int, iz as int, iy as int));
                    }
                    let ghost resa = self.resident@;
                    let ghost pena = self.pending@;
                    let ghost reqsa = reqs@;
                    let rl = find_lod(&self.resident, c);
                    let skip_res = match rl {
                        Some(l) => l == req,
                        None => false,
                    };
                    if skip_res {
                        proof {
                            assert(spec_find(pena, c) is None) by {
                                lemma_find_none(resa, c);
                                lemma_find_none(pena, c);
                                let i2 = choose|i2: int|
                                    0 <= i2 < resa.len() && (#[trigger] resa[i2]).coord == c;
                                assert forall|j2: int| 0 <= j2 < pena.len() implies (
                                #[trigger] pena[j2]).coord != c by {
                                    assert(resa[i2].coord != pena[j2].coord);
                                }
                            }
                            assert(spec_find(res1, c) == Some(spec_req_lod(c, o)));
                            assert(spec_find(self.resident@, c) == Some(spec_req_lod(c, o)));
                            assert(spec_find(self.pending@, c) is None);
                            assert(spec_find(reqs@, c) is None);
                            assert(forall|c2: ChunkCoord|
                                c2 != c ==> #[trigger] spec_find(self.resident@, c2) == spec_find(
                                    resa,
                                    c2,
                                ));
                            assert(forall|c2: ChunkCoord|
                                c2 != c ==> #[trigger] spec_find(self.pending@, c2) == spec_find(
                                    pena,
                                    c2,
                                ));
                            assert(forall|c2: ChunkCoord|
                                c2 != c ==> #[trigger] spec_find(reqs@, c2) == spec_find(
                                    reqsa,
                                    c2,
                                ));
                        }
                    } else {
                        remove_coord(&mut self.resident, c);
                        let pl = find_lod(&self.pending, c);
                        let skip_pen = match pl {
                            Some(l) => l == req,
                            None => false,
                        };
                        if !skip_pen {
                            remove_coord(&mut self.pending, c);
                            let ghost penb = self.pending@;
                            self.pending.push(Entry { coord: c, lod: req });
                            proof {
                                assert forall|c2: ChunkCoord| #[trigger] spec_find(
                                    self.pending@,
                                    c2,
                                ) == (if c2 == c {
                                    Some(req)
                                } else {
                                    spec_find(pena, c2)
                                }) by {
                                    lemma_find_push(penb, Entry { coord: c, lod: req }, c2);
                                }
                                assert(spec_no_dup(self.pending@)) by {
                                    lemma_find_none(penb, c);
                                    assert forall|a: int, b: int|
                                        0 <= a < b < self.pending@.len() implies (
                                    #[trigger] self.pending@[a]).coord != (
                                    #[trigger] self.pending@[b]).coord by {
                                        if b < penb.len() {
                                            assert(self.pending@[a] == penb[a]);
                                            assert(self.pending@[b] == penb[b]);
                                        } else {
                                            assert(self.pending@[a] == penb[a]);
                                        }
                                    }
                                }
                            }
                            let ghost reqsb = reqs@;
                            reqs.push(Entry { coord: c, lod: req });
                            proof {
                                assert forall|c2: ChunkCoord| #[trigger] spec_find(reqs@, c2) == (
                                if c2 == c {
                                    Some(req)
                                } else {
                                    spec_find(reqsa, c2)
                                }) by {
                                    lemma_find_push(reqsb, Entry { coord: c, lod: req }, c2);
                                }
                                assert(spec_no_dup(reqs@)) by {
                                    lemma_find_none(reqsb, c);
                                    assert(spec_find(reqsb, c) is None);
                                    assert forall|a: int, b: int| 0 <= a < b < reqs@.len() implies (
                                    #[trigger] reqs@[a]).coord != (#[trigger] reqs@[b]).coord by {
                                        if b < reqsb.len() {
                                            assert(reqs@[a] == reqsb[a]);
                                            assert(reqs@[b] == reqsb[b]);
                                        } else {
                                            assert(reqs@[a] == reqsb[a]);
                                        }
                                    }
                                }
                            }
                        }
                        proof {
                            assert(spec_find(res1, c) != Some(spec_req_lod(c, o)));
                            assert(spec_find(self.resident@, c) is None);
                            assert(spec_find(self.pending@, c) == Some(spec_req_lod(c, o)));
                            if skip_pen {
                                assert(spec_find(pen1, c) == Some(spec_req_lod(c, o)));
                                assert(spec_find(reqs@, c) is None);
                            } else {
                                assert(spec_find(pen1, c) != Some(spec_req_lod(c, o)));
                                assert(spec_find(reqs@, c) == Some(spec_req_lod(c, o)));
                            }
                            assert(forall|c2: ChunkCoord|
                                c2 != c ==> #[trigger] spec_find(self.resident@, c2) == spec_find(
                                    resa,
                                    c2,
                                ));
                            assert(forall|c2: ChunkCoord|
                                c2 != c ==> #[trigger] spec_find(self.pending@, c2) == spec_find(
                                    pena,
                                    c2,
                                ));
                            assert(forall|c2: ChunkCoord|
                                c2 != c ==> #[trigger] spec_find(reqs@, c2) == spec_find(
                                    reqsa,
                                    c2,
                                ));
                            assert forall|i2: int|
                                0 <= i2 < self.resident@.len() implies Scheduler::entry_ok(
                                #[trigger] self.resident@[i2],
                            ) by {
                                assert(resa.contains(self.resident@[i2]));
                                let k2 = choose|k2: int|
                                    0 <= k2 < resa.len() && resa[k2] == self.resident@[i2];
                                assert(Scheduler::entry_ok(resa[k2]));
                            }
                            assert forall|j2: int|
                                0 <= j2 < self.pending@.len() implies Scheduler::entry_ok(
                                #[trigger] self.pending@[j2],
                            ) by {
                                if !skip_pen && j2 == self.pending@.len() - 1 {
                                    assert(self.pending@[j2] == (Entry { coord: c, lod: req }));
                                } else {
                                    assert(pena.contains(self.pending@[j2]));
                                    let k2 = choose|k2: int|
                                        0 <= k2 < pena.len() && pena[k2] == self.pending@[j2];
                                    assert(Scheduler::entry_ok(pena[k2]));
                                }
                            }
                            assert forall|i2: int, j2: int|
                                0 <= i2 < self.resident@.len() && 0 <= j2
                                    < self.pending@.len() implies (
                            #[trigger] self.resident@[i2]).coord != (
                            #[trigger] self.pending@[j2]).coord by {
                                assert(resa.contains(self.resident@[i2]));
                                let k2 = choose|k2: int|
                                    0 <= k2 < resa.len() && resa[k2] == self.resident@[i2];
                                if !skip_pen && j2 == self.pending@.len() - 1 {
                                    assert(self.pending@[j2].coord == c);
                                    assert(spec_find(self.resident@, c) is None);
                                    lemma_find_none(self.resident@, c);
                                } else {
                                    assert(pena.contains(self.pending@[j2]));
                                    let k3 = choose|k3: int|
                                        0 <= k3 < pena.len() && pena[k3] == self.pending@[j2];
                                    assert(resa[k2].coord != pena[k3].coord);
                                }
                            }
                        }
                    }
                    proof {
                        assert forall|c2: ChunkCoord|
                            spec_required(c2, o, w as int) implies (#[trigger] spec_before(
                            c2,
                            o,
                            w as int,
                            ix as int,
                            iz as int,
                            iy as int + 1,
                        ) == (spec_before(c2, o, w as int, ix as int, iz as int, iy as int) || c2
                            == c)) by {
                            if c2.x - o.x + w == ix && c2.z - o.z + w == iz && c2.y == iy
                                && spec_required(c2, o, w as int) {
                                assert(c.x as int == o.x + ix - w);
                                assert(c.z as int == o.z + iz - w);
                                assert(c.y as int == iy);
                                assert(c2.x as int == o.x + ix - w);
                                assert(c2.z as int == o.z + iz - w);
                                assert(c2 == c);
                            }
                        }
                        assert(spec_scan_inv(
                            self.resident@,
                            self.pending@,
                            reqs@,
                            res1,
                            pen1,
                            o,
                            w as int,
                            ix as int,
                            iz as int,
                            iy as int + 1,
                        )) by {
                            assert forall|c2: ChunkCoord|
                                !(spec_required(c2, o, w as int) && spec_before(
                                    c2,
                                    o,
                                    w as int,
                                    ix as int,
                                    iz as int,
                                    iy as int + 1,
                                )) implies #[trigger] spec_find(self.resident@, c2) == spec_find(
                                res1,
                                c2,
                            ) && spec_find(self.pending@, c2) == spec_find(pen1, c2) by {
                                assert(c2 != c);
                                assert(spec_find(resa, c2) == spec_find(res1, c2));
                                assert(spec_find(pena, c2) == spec_find(pen1, c2));
                            }
                        }
                    }
                    iy = iy + 1;
                }
                proof {
                    assert(spec_scan_inv(
                        self.resident@,
                        self.pending@,
                        reqs@,
                        res1,
                        pen1,
                        o,
                        w as int,
                        ix as int,
                        iz as int + 1,
                        0,
                    ));
                }
                iz = iz + 1;
            }
            proof {
                assert((res1.len() == 0 && pen1.len() == 0) ==> ix * (2 * w + 1) * 8 + (2 * w + 1)
                    * 8 == (ix + 1) * (2 * w + 1) * 8) by (nonlinear_arith);
                assert(spec_scan_inv(
                    self.resident@,
                    self.pending@,
                    reqs@,
                    res1,
                    pen1,
                    o,
                    w as int,
                    ix as int + 1,
                    0,
                    0,
                ));
            }
            ix = ix + 1;
        }
        self.last = Some(o);
        proof {
            if res0.len() == 0 && pen0.len() == 0 {
                assert(res1.len() == 0) by {
                    if res1.len() > 0 {
                        assert(res0.contains(res1[0]));
                        let k = choose|k: int| 0 <= k < res0.len() && res0[k] == res1[0];
                    }
                }
                assert(pen1.len() == 0) by {
                    if pen1.len() > 0 {
                        assert(pen0.contains(pen1[0]));
                        let k = choose|k: int| 0 <= k < pen0.len() && pen0[k] == pen1[0];
                    }
                }
            }
            assert forall|c: ChunkCoord| spec_required(c, o, w as int) implies spec_before(
                c,
                o,
                w as int,
                2 * w + 1,
                0,
                0,
            ) by {
                assert(spec_abs(c.x - o.x) <= w);
            }
            assert forall|c: ChunkCoord| #[trigger] spec_find(self.resident@, c)
                == spec_pass_resident(res0, c, o, w as int) by {
                if spec_required(c, o, w as int) {
                    assert(spec_find(res1, c) == spec_pass_resident(res0, c, o, w as int));
                } else {
                    assert(spec_find(self.resident@, c) == spec_find(res1, c));
                }
            }
            assert forall|c: ChunkCoord| #[trigger] spec_find(self.pending@, c)
                == spec_pass_pending(res0, pen0, c, o, w as int) by {
                if spec_required(c, o, w as int) {
                    assert(spec_find(res1, c) == spec_pass_resident(res0, c, o, w as int));
                    assert(spec_cheb(c, o) <= w);
                } else {
                    assert(spec_find(self.pending@, c) == spec_find(pen1, c));
                }
            }
            assert forall|c: ChunkCoord| #[trigger] spec_find(reqs@, c) == (if spec_pass_request(
                res0,
                pen0,
                c,
                o,
                w as int,
            ) {
                Some(spec_req_lod(c, o))
            } else {
                None
            }) by {
                if spec_required(c, o, w as int) {
                    assert(spec_find(res1, c) == spec_pass_resident(res0, c, o, w as int));
                    assert(spec_find(pen1, c) == spec_find(pen0, c));
                }
            }
            assert forall|c: ChunkCoord|
                (#[trigger] spec_find(self.resident@, c) is Some || #[trigger] spec_find(
                    self.pending@,
                    c,
                ) is Some) implies spec_cheb(c, o) <= w + EVICTION_MARGIN by {
                assert(spec_find(self.resident@, c) == spec_pass_resident(res0, c, o, w as int));
                assert(spec_find(self.pending@, c) == spec_pass_pending(
                    res0,
                    pen0,
                    c,
                    o,
                    w as int,
                ));
            }
        }
        reqs
    }
}

/// World size bound (in blocks) accepted when locating the observer.
pub const WORLD_POS_MAX: i64 = 1888000;

/// The chunk holding a world-space block position: floor division of
/// each axis by the chunk edge.
pub fn observer_chunk(px: i64, py: i64, pz: i64) -> (c: ChunkCoord)
    requires
        -WORLD_POS_MAX <= px <= WORLD_POS_MAX,
        -WORLD_POS_MAX <= py <= WORLD_POS_MAX,
        -WORLD_POS_MAX <= pz <= WORLD_POS_MAX,
    ensures
        c.x == px / 32,
        c.y == py / 32,
        c.z == pz / 32,
        c.wf(),
        -OBSERVER_MAX <= c.x <= OBSERVER_MAX,
        -OBSERVER_MAX <= c.y <= OBSERVER_MAX,
        -OBSERVER_MAX <= c.z <= OBSERVER_MAX,
{
    let x = floor_div_chunk(px);
    let y = floor_div_chunk(py);
    let z = floor_div_chunk(pz);
    ChunkCoord { x, y, z }
}

/// Floor-divide one axis by the chunk edge.
fn floor_div_chunk(p: i64) -> (q: i32)
    requires
        -WORLD_POS_MAX <= p <= WORLD_POS_MAX,
    ensures
        q == p / 32,
        -OBSERVER_MAX <= q <= OBSERVER_MAX,
{
    let shifted: i64 = p + WORLD_POS_MAX;
    let qs: i64 = shifted / 32;
    proof {
        vstd::arithmetic::div_mod::lemma_hoist_over_denominator(p as int, 59000int, 32nat);
        assert(p / 32 + 59000 == (p + 59000 * 32) / 32);
    }
    (qs - 59000) as i32
}

} // verus!
