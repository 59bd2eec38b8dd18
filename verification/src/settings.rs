//! Runtime-editable generation parameters.
//!
//! All quantities are fixed-point integers: a layer frequency is stored in
//! thousandths of a lattice step per block, an amplitude in tenths of a
//! block.  The surrounding application converts from whatever format its
//! configuration file uses and falls back to `default()` when that file is
//! missing or malformed.

use vstd::prelude::*;

verus! {

/// Frequencies are stored in thousandths (`FREQ_UNIT` per 1.0).
pub const FREQ_UNIT: u32 = 1000;
/// Amplitudes are stored in tenths of a block (`AMP_UNIT` per block).
pub const AMP_UNIT: u32 = 10;
/// Largest admissible frequency (1000.0 lattice steps per block).
pub const FREQ_MAX: u32 = 1000000;
/// Largest admissible amplitude (1000 blocks).
pub const AMP_MAX: u32 = 10000;
/// Largest number of terrain octaves a settings value may hold.
pub const MAX_LAYERS: usize = 16;

/// One octave of 2D terrain noise.
#[derive(Clone, Copy, PartialEq, Eq, Structural, Debug)]
pub struct NoiseLayer {
    pub seed: i32,
    /// Fixed-point frequency, in `FREQ_UNIT`ths.
    pub frequency: u32,
    /// Fixed-point amplitude, in `AMP_UNIT`ths of a block.
    pub amplitude: u32,
}

impl NoiseLayer {
    /// Machine bounds that keep all height arithmetic in range.
    pub open spec fn wf(self) -> bool {
        &&& self.frequency <= FREQ_MAX
        &&& self.amplitude <= AMP_MAX
    }
}

/// The ordered list of terrain octaves.  The first layer is remapped to
/// `[0, 1]` before scaling; later layers contribute signed noise.
#[derive(Clone, PartialEq, Eq, Debug)]
pub struct NoiseSettings {
    pub layers: Vec<NoiseLayer>,
}

impl NoiseSettings {
    pub open spec fn wf(self) -> bool {
        &&& self.layers@.len() <= MAX_LAYERS
        &&& forall|i: int| 0 <= i < self.layers@.len() ==> #[trigger] self.layers@[i].wf()
    }

    /// Clamp-adjust the amplitude of layer `i` by `delta` tenths of a
    /// block; the result never leaves `[0, AMP_MAX]`.
    pub fn adjust_amplitude(&mut self, i: usize, delta: i32)
        requires
            old(self).wf(),
            i < old(self).layers@.len(),
            -100000 <= delta <= 100000,
        ensures
            final(self).wf(),
            final(self).layers@.len() == old(self).layers@.len(),
            forall|j: int|
                0 <= j < final(self).layers@.len() && j != i ==> final(self).layers@[j] == old(
                    self,
                ).layers@[j],
            final(self).layers@[i as int].seed == old(self).layers@[i as int].seed,
            final(self).layers@[i as int].frequency == old(self).layers@[i as int].frequency,
            final(self).layers@[i as int].amplitude == clamped(
                old(self).layers@[i as int].amplitude + delta,
                AMP_MAX as int,
            ),
    {
        let layer = self.layers[i];
        let raw: i64 = layer.amplitude as i64 + delta as i64;
        let clamped_val: u32 = if raw < 0 {
            0
        } else if raw > AMP_MAX as i64 {
            AMP_MAX
        } else {
            raw as u32
        };
        self.layers.set(
            i,
            NoiseLayer { seed: layer.seed, frequency: layer.frequency, amplitude: clamped_val },
        );
        proof {
            assert forall|j: int| 0 <= j < self.layers@.len() implies #[trigger] self.layers@[j].wf() by {
                if j != i as int {
                    assert(old(self).layers@[j].wf());
                } else {
                    assert(old(self).layers@[i as int].wf());
                }
            }
        }
    }

    /// Clamp-adjust the frequency of layer `i` by `delta` thousandths;
    /// the result never leaves `[0, FREQ_MAX]`.
    pub fn adjust_frequency(&mut self, i: usize, delta: i32)
        requires
            old(self).wf(),
            i < old(self).layers@.len(),
            -100000000 <= delta <= 100000000,
        ensures
            final(self).wf(),
            final(self).layers@.len() == old(self).layers@.len(),
            forall|j: int|
                0 <= j < final(self).layers@.len() && j != i ==> final(self).layers@[j] == old(
                    self,
                ).layers@[j],
            final(self).layers@[i as int].seed == old(self).layers@[i as int].seed,
            final(self).layers@[i as int].amplitude == old(self).layers@[i as int].amplitude,
            final(self).layers@[i as int].frequency == clamped(
                old(self).layers@[i as int].frequency + delta,
                FREQ_MAX as int,
            ),
    {
        let layer = self.layers[i];
        let raw: i64 = layer.frequency as i64 + delta as i64;
        let clamped_val: u32 = if raw < 0 {
            0
        } else if raw > FREQ_MAX as i64 {
            FREQ_MAX
        } else {
            raw as u32
        };
        self.layers.set(
            i,
            NoiseLayer { seed: layer.seed, frequency: clamped_val, amplitude: layer.amplitude },
        );
        proof {
            assert forall|j: int| 0 <= j < self.layers@.len() implies #[trigger] self.layers@[j].wf() by {
                if j != i as int {
                    assert(old(self).layers@[j].wf());
                } else {
                    assert(old(self).layers@[i as int].wf());
                }
            }
        }
    }
}

/// `v` clamped to `[0, hi]`.
pub open spec fn clamped(v: int, hi: int) -> int {
    if v < 0 {
        0
    } else if v > hi {
        hi
    } else {
        v
    }
}

impl Default for NoiseSettings {
    /// The built-in five-octave terrain configuration.
    fn default() -> (s: NoiseSettings)
        ensures
            s.wf(),
            s.layers@.len() == 5,
            s.layers@[0] == (NoiseLayer { seed: 0, frequency: 10u32, amplitude: 100u32 }),
            s.layers@[1] == (NoiseLayer { seed: 1, frequency: 30u32, amplitude: 50u32 }),
            s.layers@[2] == (NoiseLayer { seed: 2, frequency: 80u32, amplitude: 20u32 }),
            s.layers@[3] == (NoiseLayer { seed: 4, frequency: 160u32, amplitude: 10u32 }),
            s.layers@[4] == (NoiseLayer { seed: 5, frequency: 320u32, amplitude: 5u32 }),
    {
        let mut layers: Vec<NoiseLayer> = Vec::new();
        layers.push(NoiseLayer { seed: 0, frequency: 10, amplitude: 100 });
        layers.push(NoiseLayer { seed: 1, frequency: 30, amplitude: 50 });
        layers.push(NoiseLayer { seed: 2, frequency: 80, amplitude: 20 });
        layers.push(NoiseLayer { seed: 4, frequency: 160, amplitude: 10 });
        layers.push(NoiseLayer { seed: 5, frequency: 320, amplitude: 5 });
        NoiseSettings { layers }
    }
}

/// The view configuration: how many chunks to keep resident outwards from
/// the observer along each horizontal axis.
#[derive(Clone, Copy, PartialEq, Eq, Structural, Debug)]
pub struct WorldParams {
    pub view_width: i32,
}

/// Largest admissible view radius, a machine bound that keeps the
/// scheduler's coordinate arithmetic in range.
pub const VIEW_WIDTH_MAX: i32 = 256;

impl WorldParams {
    pub open spec fn wf(self) -> bool {
        1 <= self.view_width <= VIEW_WIDTH_MAX
    }

    /// Adjust the view radius by `delta`, clamped to stay admissible
    /// (never below one chunk).
    pub fn apply_view_delta(&mut self, delta: i32)
        requires
            old(self).wf(),
            -100000 <= delta <= 100000,
        ensures
            final(self).wf(),
            final(self).view_width == if old(self).view_width + delta < 1 {
                1int
            } else if old(self).view_width + delta > VIEW_WIDTH_MAX {
                VIEW_WIDTH_MAX as int
            } else {
                old(self).view_width + delta
            },
    {
        let raw: i64 = self.view_width as i64 + delta as i64;
        self.view_width = if raw < 1 {
            1
        } else if raw > VIEW_WIDTH_MAX as i64 {
            VIEW_WIDTH_MAX
        } else {
            raw as i32
        };
    }
}

impl Default for WorldParams {
    fn default() -> (p: WorldParams)
        ensures
            p.wf(),
            p.view_width == 24,
    {
        WorldParams { view_width: 24 }
    }
}

} // verus!
