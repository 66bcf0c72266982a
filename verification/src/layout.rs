//! Sizes of every texture the simulation allocates, derived from the integer part of
//! the engine configuration and the surface size.

use vstd::prelude::*;
use vstd::arithmetic::power2::{pow2, lemma2_to64, lemma_pow2_pos, lemma_pow2_unfold};
use vstd::arithmetic::div_mod::lemma_div_denominator;
use crate::resolution::{get_resolution, resolution_for};

verus! {

/// The configuration values that decide how large the simulation's textures are.
/// A change to any of them means every texture has to be allocated again.
#[derive(Clone, Copy, Debug, PartialEq, Eq, Structural)]
pub struct ResolutionSettings {
    /// Texels along the shorter surface side of the velocity and pressure fields.
    pub sim_resolution: u32,
    /// Texels along the shorter surface side of the dye field.
    pub dye_resolution: u32,
    /// Texels along the shorter surface side of the bloom base texture.
    pub bloom_resolution: u32,
    /// Largest number of downsampled bloom levels.
    pub bloom_iterations: u32,
    /// Texels along the shorter surface side of the sunrays mask.
    pub sunrays_resolution: u32,
}

/// `x` halved `k` times (rounding down each time).
pub open spec fn halved(x: u32, k: nat) -> nat {
    x as nat / pow2(k)
}

/// `levels` is the bloom mip chain below a `width` by `height` base texture with at
/// most `iterations` levels: level `k` is the base halved `k + 1` times, every level
/// has at least 2 texels on each side, and the chain stops at `iterations` levels or
/// at the first level that would be narrower than that.
pub open spec fn is_bloom_chain(levels: Seq<(u32, u32)>, width: u32, height: u32, iterations: u32) -> bool {
    &&& levels.len() <= iterations
    &&& forall|k: int|
        0 <= k < levels.len() ==> #[trigger] levels[k] == (
            halved(width, (k + 1) as nat) as u32,
            halved(height, (k + 1) as nat) as u32,
        )
    &&& forall|k: int| 0 <= k < levels.len() ==> #[trigger] levels[k].0 >= 2 && levels[k].1 >= 2
    &&& levels.len() < iterations ==> (halved(width, (levels.len() + 1) as nat) < 2 || halved(
        height,
        (levels.len() + 1) as nat,
    ) < 2)
}

proof fn lemma_halve_once_more(x: u32, k: nat)
    ensures
        halved(x, k) / 2 == halved(x, k + 1),
        halved(x, k) <= x,
{
    lemma_pow2_pos(k);
    lemma_pow2_unfold(k + 1);
    lemma_div_denominator(x as int, pow2(k) as int, 2);
    assert(pow2(k) * 2 == pow2(k + 1));
    vstd::arithmetic::div_mod::lemma_div_is_ordered_by_denominator(x as int, 1, pow2(k) as int);
}

/// Sizes of the bloom mip chain below a `width` by `height` base texture: each level
/// halves the previous one, for at most `iterations` levels and only while both
/// sides keep at least 2 texels.
pub fn bloom_levels(width: u32, height: u32, iterations: u32) -> (levels: Vec<(u32, u32)>)
    ensures
        is_bloom_chain(levels@, width, height, iterations),
{
    let mut levels: Vec<(u32, u32)> = Vec::new();
    let mut w = width / 2;
    let mut h = height / 2;
    let mut i: u32 = 0;
    proof {
        lemma2_to64();
    }
    while i < iterations && w >= 2 && h >= 2
        invariant
            i <= iterations,
            levels.len() == i,
            w == halved(width, (i + 1) as nat),
            h == halved(height, (i + 1) as nat),
            forall|k: int|
                0 <= k < levels.len() ==> #[trigger] levels@[k] == (
                    halved(width, (k + 1) as nat) as u32,
                    halved(height, (k + 1) as nat) as u32,
                ),
            forall|k: int| 0 <= k < levels.len() ==> #[trigger] levels@[k].0 >= 2 && levels@[k].1 >= 2,
        decreases iterations - i,
    {
        levels.push((w, h));
        proof {
            lemma_halve_once_more(width, (i + 1) as nat);
            lemma_halve_once_more(height, (i + 1) as nat);
        }
        w = w / 2;
        h = h / 2;
        i = i + 1;
    }
    levels
}

/// Each bloom level is the previous one halved.
pub proof fn lemma_bloom_levels_halve(levels: Seq<(u32, u32)>, width: u32, height: u32, iterations: u32, k: int)
    requires
        is_bloom_chain(levels, width, height, iterations),
        0 <= k,
        k + 1 < levels.len(),
    ensures
        levels[k + 1].0 == levels[k].0 / 2,
        levels[k + 1].1 == levels[k].1 / 2,
{
    lemma_halve_once_more(width, (k + 1) as nat);
    lemma_halve_once_more(height, (k + 1) as nat);
    assert(levels[k] == (halved(width, (k + 1) as nat) as u32, halved(height, (k + 1) as nat) as u32));
    assert(levels[k + 1] == (halved(width, (k + 2) as nat) as u32, halved(height, (k + 2) as nat) as u32));
}

/// Sizes of all textures of the simulation for a `width` by `height` surface.
pub struct SimLayout {
    /// Velocity, divergence, curl and pressure fields.
    pub sim: (u32, u32),
    /// Dye field.
    pub dye: (u32, u32),
    /// Bloom base texture.
    pub bloom: (u32, u32),
    /// Sunrays mask and its scratch texture.
    pub sunrays: (u32, u32),
    /// Downsampled bloom levels, largest first.
    pub bloom_levels: Vec<(u32, u32)>,
}

impl SimLayout {
    /// Texture sizes for `settings` on a `width` by `height` surface.
    pub fn new(settings: &ResolutionSettings, width: u32, height: u32) -> (layout: SimLayout)
        ensures
            layout.sim == resolution_for(settings.sim_resolution, width, height),
            layout.dye == resolution_for(settings.dye_resolution, width, height),
            layout.bloom == resolution_for(settings.bloom_resolution, width, height),
            layout.sunrays == resolution_for(settings.sunrays_resolution, width, height),
            is_bloom_chain(layout.bloom_levels@, layout.bloom.0, layout.bloom.1, settings.bloom_iterations),
    {
        let sim = get_resolution(settings.sim_resolution, width, height);
        let dye = get_resolution(settings.dye_resolution, width, height);
        let bloom = get_resolution(settings.bloom_resolution, width, height);
        let sunrays = get_resolution(settings.sunrays_resolution, width, height);
        let bloom_levels = bloom_levels(bloom.0, bloom.1, settings.bloom_iterations);
        SimLayout { sim, dye, bloom, sunrays, bloom_levels }
    }
}

/// Whether going from `prev` to `next` changes a texture size, so that the
/// simulation's textures have to be allocated again.
pub fn config_requires_rebuild(prev: &ResolutionSettings, next: &ResolutionSettings) -> (r: bool)
    ensures
        r == (*prev != *next),
{
    prev.sim_resolution != next.sim_resolution || prev.dye_resolution != next.dye_resolution
        || prev.bloom_resolution != next.bloom_resolution || prev.bloom_iterations
        != next.bloom_iterations || prev.sunrays_resolution != next.sunrays_resolution
}

} // verus!
