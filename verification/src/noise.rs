//! Deterministic fixed-point coherent noise.
//!
//! A sampler is a pure function of a seed, a frequency and a world
//! coordinate; identical inputs always give identical outputs, which is
//! what chunk-cache correctness and reproducibility of a world seed rest
//! on.  Values are lattice noise, smoothly interpolated, returned on the
//! fixed-point scale `[0, 2 * NOISE_UNIT]` (representing `[-1, 1]` shifted
//! by one unit).  A zero frequency degenerates to a constant field.
//!
//! Frequencies are in thousandths of a lattice step per block
//! (`crate::settings::FREQ_UNIT`).

use vstd::prelude::*;

verus! {

/// One noise unit: samples live in `[0, 2 * NOISE_UNIT]`.
pub const NOISE_UNIT: u32 = 1000;

/// Largest world coordinate (in blocks) a sampler accepts, a machine
/// bound that keeps the fixed-point products in range.
pub const COORD_MAX: i64 = 4000000;

/// Offset that makes shifted world coordinates non-negative.
pub const COORD_SHIFT: i64 = 4194304;

/// The integer lattice cell and intra-cell offset of a shifted,
/// frequency-scaled coordinate: `u = (w + COORD_SHIFT) * freq`, split as
/// `u = cell * 1000 + t` with `0 <= t < 1000`.
pub open spec fn spec_cell(freq: int, w: int) -> int {
    (w + COORD_SHIFT) * freq / 1000
}

pub open spec fn spec_frac(freq: int, w: int) -> int {
    (w + COORD_SHIFT) * freq % 1000
}

/// Lattice corner hash for 2D sampling: a value in `[0, 2000]`.
pub open spec fn spec_hash2(seed: int, cx: int, cz: int) -> int {
    let s = (seed + 2147483648) % 65536;
    let a = (cx * 31 + cz * 57 + s * 97 + 23459) % 65536;
    let b = (a * a + cx) % 65536;
    let c = (b * b + cz) % 65536;
    let d = (c * 331 + s) % 65536;
    d % 2001
}

/// Lattice corner hash for 3D sampling: a value in `[0, 2000]`.
pub open spec fn spec_hash3(seed: int, cx: int, cy: int, cz: int) -> int {
    let s = (seed + 2147483648) % 65536;
    let a = (cx * 31 + cy * 41 + cz * 57 + s * 97 + 23459) % 65536;
    let b = (a * a + cx) % 65536;
    let c = (b * b + cy) % 65536;
    let d = (c * c + cz) % 65536;
    let e = (d * 331 + s) % 65536;
    e % 2001
}

/// Smoothstep fade of an intra-cell offset `t in [0, 1000)`, scaled so
/// the result is again in `[0, 1000]`.
pub open spec fn spec_smooth(t: int) -> int {
    t * t * (3000 - 2 * t) / 1000000
}

/// Linear interpolation between `a` and `b` by `s in [0, 1000]`, scaled
/// up by 1000.
pub open spec fn spec_lerp(a: int, b: int, s: int) -> int {
    a * (1000 - s) + b * s
}

/// 2D coherent sample: bilinear interpolation of the four surrounding
/// lattice corner hashes, in `[0, 2000]`.
#[verifier::opaque]
pub open spec fn spec_sample2(seed: int, freq: int, wx: int, wz: int) -> int {
    let cx = spec_cell(freq, wx);
    let cz = spec_cell(freq, wz);
    let sx = spec_smooth(spec_frac(freq, wx));
    let sz = spec_smooth(spec_frac(freq, wz));
    let v0 = spec_lerp(spec_hash2(seed, cx, cz), spec_hash2(seed, cx + 1, cz), sx);
    let v1 = spec_lerp(spec_hash2(seed, cx, cz + 1), spec_hash2(seed, cx + 1, cz + 1), sx);
    spec_lerp(v0, v1, sz) / 1000000
}

/// 3D coherent sample: trilinear interpolation of the eight surrounding
/// lattice corner hashes, in `[0, 2000]`.
#[verifier::opaque]
pub open spec fn spec_sample3(seed: int, freq: int, wx: int, wy: int, wz: int) -> int {
    let cx = spec_cell(freq, wx);
    let cy = spec_cell(freq, wy);
    let cz = spec_cell(freq, wz);
    let sx = spec_smooth(spec_frac(freq, wx));
    let sy = spec_smooth(spec_frac(freq, wy));
    let sz = spec_smooth(spec_frac(freq, wz));
    let v00 = spec_lerp(spec_hash3(seed, cx, cy, cz), spec_hash3(seed, cx + 1, cy, cz), sx);
    let v10 = spec_lerp(spec_hash3(seed, cx, cy + 1, cz), spec_hash3(seed, cx + 1, cy + 1, cz), sx);
    let v01 = spec_lerp(spec_hash3(seed, cx, cy, cz + 1), spec_hash3(seed, cx + 1, cy, cz + 1), sx);
    let v11 = spec_lerp(
        spec_hash3(seed, cx, cy + 1, cz + 1),
        spec_hash3(seed, cx + 1, cy + 1, cz + 1),
        sx,
    );
    let w0 = spec_lerp(v00, v10, sy);
    let w1 = spec_lerp(v01, v11, sy);
    spec_lerp(w0, w1, sz) / 1000000000
}

proof fn lemma_sq_bound(a: int)
    requires
        0 <= a < 65536,
    ensures
        0 <= a * a <= 4294967296,
{
    assert(0 <= a * a <= 4294967296) by (nonlinear_arith)
        requires
            0 <= a < 65536,
    {
    }
}

proof fn lemma_lerp_bound(a: int, b: int, s: int, m: int)
    requires
        0 <= a <= m,
        0 <= b <= m,
        0 <= s <= 1000,
    ensures
        0 <= spec_lerp(a, b, s) <= m * 1000,
{
    assert(0 <= a * (1000 - s) + b * s <= m * 1000) by (nonlinear_arith)
        requires
            0 <= a <= m,
            0 <= b <= m,
            0 <= s <= 1000,
    {
    }
}

proof fn lemma_smooth_bound(t: int)
    requires
        0 <= t < 1000,
    ensures
        0 <= spec_smooth(t) <= 1000,
        t * t <= 1000000,
        0 <= t * t * (3000 - 2 * t) <= 1000000000,
{
    assert(t * t <= 1000000) by (nonlinear_arith)
        requires
            0 <= t < 1000,
    {
    }
    assert(t * t * (3000 - 2 * t) + (1000 - t) * (1000 - t) * (1000 + 2 * t)
        == 1000000000) by (nonlinear_arith);
    assert((1000 - t) * (1000 - t) * (1000 + 2 * t) >= 0) by (nonlinear_arith)
        requires
            0 <= t < 1000,
    {
    }
    assert(t * t * (3000 - 2 * t) >= 0) by (nonlinear_arith)
        requires
            0 <= t < 1000,
    {
    }
}

/// Fade an intra-cell offset; pure fixed-point smoothstep.
fn smooth(t: u64) -> (s: u64)
    requires
        t < 1000,
    ensures
        s == spec_smooth(t as int),
        s <= 1000,
{
    proof {
        lemma_smooth_bound(t as int);
    }
    t * t * (3000 - 2 * t) / 1000000
}

/// The lattice cell and offset of one axis of a sample point.
fn lattice(freq: u32, w: i64) -> (r: (u64, u64))
    requires
        freq <= 1000000,
        -COORD_MAX <= w <= COORD_MAX,
    ensures
        r.0 == spec_cell(freq as int, w as int),
        r.1 == spec_frac(freq as int, w as int),
        r.0 <= 8400000000,
        r.1 < 1000,
{
    proof {
        assert((w + COORD_SHIFT) * freq <= 8400000000000) by (nonlinear_arith)
            requires
                0 <= w + COORD_SHIFT <= 8400000,
                0 <= freq <= 1000000,
        {
        }
    }
    let u: u64 = ((w + COORD_SHIFT) as u64) * (freq as u64);
    (u / 1000, u % 1000)
}

/// Hash one 2D lattice corner.
fn hash2(seed: i32, cx: u64, cz: u64) -> (h: u64)
    requires
        cx <= 8400000001,
        cz <= 8400000001,
    ensures
        h == spec_hash2(seed as int, cx as int, cz as int),
        h <= 2000,
{
    let s: u64 = ((seed as i64 + 2147483648) as u64) % 65536;
    let a: u64 = (cx * 31 + cz * 57 + s * 97 + 23459) % 65536;
    proof {
        lemma_sq_bound(a as int);
    }
    let b: u64 = (a * a + cx) % 65536;
    proof {
        lemma_sq_bound(b as int);
    }
    let c: u64 = (b * b + cz) % 65536;
    let d: u64 = (c * 331 + s) % 65536;
    d % 2001
}

/// Hash one 3D lattice corner.
fn hash3(seed: i32, cx: u64, cy: u64, cz: u64) -> (h: u64)
    requires
        cx <= 8400000001,
        cy <= 8400000001,
        cz <= 8400000001,
    ensures
        h == spec_hash3(seed as int, cx as int, cy as int, cz as int),
        h <= 2000,
{
    let s: u64 = ((seed as i64 + 2147483648) as u64) % 65536;
    let a: u64 = (cx * 31 + cy * 41 + cz * 57 + s * 97 + 23459) % 65536;
    proof {
        lemma_sq_bound(a as int);
    }
    let b: u64 = (a * a + cx) % 65536;
    proof {
        lemma_sq_bound(b as int);
    }
    let c: u64 = (b * b + cy) % 65536;
    proof {
        lemma_sq_bound(c as int);
    }
    let d: u64 = (c * c + cz) % 65536;
    let e: u64 = (d * 331 + s) % 65536;
    e % 2001
}

/// Sample the 2D field of `(seed, freq)` at block coordinates
/// `(wx, wz)`.  Deterministic; the result is on the `[0, 2000]` scale.
pub fn sample2(seed: i32, freq: u32, wx: i64, wz: i64) -> (v: u32)
    requires
        freq <= 1000000,
        -COORD_MAX <= wx <= COORD_MAX,
        -COORD_MAX <= wz <= COORD_MAX,
    ensures
        v == spec_sample2(seed as int, freq as int, wx as int, wz as int),
        v <= 2000,
{
    proof {
        reveal(spec_sample2);
    }
    let (cx, tx) = lattice(freq, wx);
    let (cz, tz) = lattice(freq, wz);
    let sx = smooth(tx);
    let sz = smooth(tz);
    let c00 = hash2(seed, cx, cz);
    let c10 = hash2(seed, cx + 1, cz);
    let c01 = hash2(seed, cx, cz + 1);
    let c11 = hash2(seed, cx + 1, cz + 1);
    proof {
        lemma_lerp_bound(c00 as int, c10 as int, sx as int, 2000);
        lemma_lerp_bound(c01 as int, c11 as int, sx as int, 2000);
    }
    let v0: u64 = c00 * (1000 - sx) + c10 * sx;
    let v1: u64 = c01 * (1000 - sx) + c11 * sx;
    proof {
        lemma_lerp_bound(v0 as int, v1 as int, sz as int, 2000000);
    }
    let v: u64 = (v0 * (1000 - sz) + v1 * sz) / 1000000;
    v as u32
}

/// Sample the 3D field of `(seed, freq)` at block coordinates
/// `(wx, wy, wz)`.  Deterministic; the result is on the `[0, 2000]`
/// scale.
pub fn sample3(seed: i32, freq: u32, wx: i64, wy: i64, wz: i64) -> (v: u32)
    requires
        freq <= 1000000,
        -COORD_MAX <= wx <= COORD_MAX,
        -COORD_MAX <= wy <= COORD_MAX,
        -COORD_MAX <= wz <= COORD_MAX,
    ensures
        v == spec_sample3(seed as int, freq as int, wx as int, wy as int, wz as int),
        v <= 2000,
{
    proof {
        reveal(spec_sample3);
    }
    let (cx, tx) = lattice(freq, wx);
    let (cy, ty) = lattice(freq, wy);
    let (cz, tz) = lattice(freq, wz);
    let sx = smooth(tx);
    let sy = smooth(ty);
    let sz = smooth(tz);
    let c000 = hash3(seed, cx, cy, cz);
    let c100 = hash3(seed, cx + 1, cy, cz);
    let c010 = hash3(seed, cx, cy + 1, cz);
    let c110 = hash3(seed, cx + 1, cy + 1, cz);
    let c001 = hash3(seed, cx, cy, cz + 1);
    let c101 = hash3(seed, cx + 1, cy, cz + 1);
    let c011 = hash3(seed, cx, cy + 1, cz + 1);
    let c111 = hash3(seed, cx + 1, cy + 1, cz + 1);
    proof {
        lemma_lerp_bound(c000 as int, c100 as int, sx as int, 2000);
        lemma_lerp_bound(c010 as int, c110 as int, sx as int, 2000);
        lemma_lerp_bound(c001 as int, c101 as int, sx as int, 2000);
        lemma_lerp_bound(c011 as int, c111 as int, sx as int, 2000);
    }
    let v00: u64 = c000 * (1000 - sx) + c100 * sx;
    let v10: u64 = c010 * (1000 - sx) + c110 * sx;
    let v01: u64 = c001 * (1000 - sx) + c101 * sx;
    let v11: u64 = c011 * (1000 - sx) + c111 * sx;
    proof {
        lemma_lerp_bound(v00 as int, v10 as int, sy as int, 2000000);
        lemma_lerp_bound(v01 as int, v11 as int, sy as int, 2000000);
    }
    let w0: u64 = v00 * (1000 - sy) + v10 * sy;
    let w1: u64 = v01 * (1000 - sy) + v11 * sy;
    proof {
        lemma_lerp_bound(w0 as int, w1 as int, sz as int, 2000000000);
    }
    let v: u64 = (w0 * (1000 - sz) + w1 * sz) / 1000000000;
    v as u32
}

} // verus!
