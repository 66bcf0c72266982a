//! The sequence of render passes that turns the dye field into a bloom glow:
//! a bright-pass filter into the bloom base texture, a blur down the mip chain, an
//! additive blur back up, and an additive composite into the base texture.

use vstd::prelude::*;

verus! {

/// A texture the bloom passes read or write.
#[derive(Clone, Copy, Debug, PartialEq, Eq, Structural)]
pub enum BloomSurface {
    /// The dye field the glow is extracted from.
    Dye,
    /// The bloom base texture.
    Base,
    /// The bloom mip level with this index (0 is the largest).
    Level(usize),
}

/// What a bloom pass does.
#[derive(Clone, Copy, Debug, PartialEq, Eq, Structural)]
pub enum BloomStage {
    /// Keeps only the bright parts of the dye (soft threshold).
    Prefilter,
    /// Blurs into the next smaller level.
    Downsample,
    /// Blurs into the next larger level, adding to what is there.
    Upsample,
    /// Adds the blurred glow, scaled by the intensity, to the base texture.
    Composite,
}

/// One render pass of the bloom effect.
#[derive(Clone, Copy, Debug)]
pub struct BloomPass {
    /// What the pass does.
    pub stage: BloomStage,
    /// Texture sampled by the pass.
    pub source: BloomSurface,
    /// Texture written by the pass.
    pub target: BloomSurface,
    /// Texture size whose reciprocal is the pass's texel size.
    pub texel: (u32, u32),
}

/// Size of a bloom texture: the base, or a level of the mip chain.
pub open spec fn surface_size(base: (u32, u32), levels: Seq<(u32, u32)>, s: BloomSurface) -> (u32, u32) {
    match s {
        BloomSurface::Level(k) => levels[k as int],
        _ => base,
    }
}

/// Pass `i` of the bloom effect on a base texture of size `base` with mip levels
/// `levels` (`n` of them, `n >= 2`):
/// pass 0 filters the dye into the base; passes `1..=n` blur the base into level 0
/// and each level into the next; passes `n+1..=2n-1` blur each level back into the
/// one above it, from the smallest up; pass `2n` composites level 0 into the base.
/// Every blur uses the texel size of the texture it reads.
pub open spec fn bloom_pass(base: (u32, u32), levels: Seq<(u32, u32)>, i: int) -> BloomPass {
    let n = levels.len() as int;
    if i == 0 {
        BloomPass {
            stage: BloomStage::Prefilter,
            source: BloomSurface::Dye,
            target: BloomSurface::Base,
            texel: base,
        }
    } else if i == 1 {
        BloomPass {
            stage: BloomStage::Downsample,
            source: BloomSurface::Base,
            target: BloomSurface::Level(0),
            texel: base,
        }
    } else if i <= n {
        BloomPass {
            stage: BloomStage::Downsample,
            source: BloomSurface::Level((i - 2) as usize),
            target: BloomSurface::Level((i - 1) as usize),
            texel: levels[i - 2],
        }
    } else if i < 2 * n {
        let t = 2 * n - 1 - i;
        BloomPass {
            stage: BloomStage::Upsample,
            source: BloomSurface::Level((t + 1) as usize),
            target: BloomSurface::Level(t as usize),
            texel: levels[t + 1],
        }
    } else {
        BloomPass {
            stage: BloomStage::Composite,
            source: BloomSurface::Level(0),
            target: BloomSurface::Base,
            texel: levels[0],
        }
    }
}

/// All passes of the bloom effect; none when the mip chain has fewer than two levels.
pub open spec fn bloom_plan(base: (u32, u32), levels: Seq<(u32, u32)>) -> Seq<BloomPass> {
    if levels.len() < 2 {
        Seq::empty()
    } else {
        Seq::new((2 * levels.len() + 1) as nat, |i: int| bloom_pass(base, levels, i))
    }
}

/// The render passes of the bloom effect, in order, for a base texture of size `base`
/// and the mip chain `levels` below it. A chain of fewer than two levels gives no
/// passes: the effect is skipped.
pub fn bloom_passes(base: (u32, u32), levels: &Vec<(u32, u32)>) -> (passes: Vec<BloomPass>)
    requires
        levels.len() < usize::MAX / 2,
    ensures
        passes@ == bloom_plan(base, levels@),
{
    let n = levels.len();
    let mut passes: Vec<BloomPass> = Vec::new();
    if n < 2 {
        return passes;
    }
    passes.push(
        BloomPass {
            stage: BloomStage::Prefilter,
            source: BloomSurface::Dye,
            target: BloomSurface::Base,
            texel: base,
        },
    );
    let mut prev = base;
    let mut source = BloomSurface::Base;
    let mut i: usize = 0;
    while i < n
        invariant
            n == levels@.len(),
            n >= 2,
            n < usize::MAX / 2,
            i <= n,
            passes@.len() == i + 1,
            prev == if i == 0 { base } else { levels@[i - 1] },
            source == if i == 0 { BloomSurface::Base } else { BloomSurface::Level((i - 1) as usize) },
            forall|k: int| 0 <= k < passes@.len() ==> #[trigger] passes@[k] == bloom_pass(base, levels@, k),
        decreases n - i,
    {
        passes.push(
            BloomPass { stage: BloomStage::Downsample, source, target: BloomSurface::Level(i), texel: prev },
        );
        prev = levels[i];
        source = BloomSurface::Level(i);
        i = i + 1;
    }
    let mut j: usize = n - 1;
    while j > 0
        invariant
            n == levels@.len(),
            n >= 2,
            n < usize::MAX / 2,
            j < n,
            passes@.len() == 2 * n - j,
            prev == levels@[j as int],
            source == BloomSurface::Level(j),
            forall|k: int| 0 <= k < passes@.len() ==> #[trigger] passes@[k] == bloom_pass(base, levels@, k),
        decreases j,
    {
        let t = j - 1;
        passes.push(
            BloomPass { stage: BloomStage::Upsample, source, target: BloomSurface::Level(t), texel: prev },
        );
        prev = levels[t];
        source = BloomSurface::Level(t);
        j = t;
    }
    passes.push(
        BloomPass { stage: BloomStage::Composite, source, target: BloomSurface::Base, texel: prev },
    );
    assert(passes@ =~= bloom_plan(base, levels@));
    passes
}

/// Every blur and the composite sample with the texel size of the texture they read;
/// only the bright-pass filter reads the dye, and it does so at the base's texel size.
pub proof fn lemma_bloom_texel_matches_source(base: (u32, u32), levels: Seq<(u32, u32)>, i: int)
    requires
        levels.len() <= usize::MAX,
        0 <= i < bloom_plan(base, levels).len(),
    ensures
        bloom_plan(base, levels)[i].source == BloomSurface::Dye ==> i == 0 && bloom_plan(base, levels)[i].texel
            == base,
        bloom_plan(base, levels)[i].source != BloomSurface::Dye ==> bloom_plan(base, levels)[i].texel
            == surface_size(base, levels, bloom_plan(base, levels)[i].source),
{
}

/// Each level is written first by the blur coming down the chain and, except for the
/// smallest, later by the additive blur coming back up; both come after the level
/// above it has been written.
pub proof fn lemma_bloom_levels_written_in_order(base: (u32, u32), levels: Seq<(u32, u32)>, k: int)
    requires
        2 <= levels.len() <= usize::MAX,
        0 <= k < levels.len(),
    ensures
        bloom_plan(base, levels)[k + 1].target == BloomSurface::Level(k as usize),
        bloom_plan(base, levels)[k + 1].stage == BloomStage::Downsample,
        k + 1 < levels.len() ==> bloom_plan(base, levels)[2 * levels.len() - 1 - k].target == BloomSurface::Level(
            k as usize,
        ) && bloom_plan(base, levels)[2 * levels.len() - 1 - k].stage == BloomStage::Upsample,
{
}

/// The passes form one chain: each pass after the first samples the texture that the
/// pass just before it wrote.
pub proof fn lemma_bloom_passes_chain(base: (u32, u32), levels: Seq<(u32, u32)>, i: int)
    requires
        levels.len() <= usize::MAX,
        0 <= i && i + 1 < bloom_plan(base, levels).len(),
    ensures
        bloom_plan(base, levels)[i + 1].source == bloom_plan(base, levels)[i].target,
{
}

/// Each level below the first is blurred down from the level just above it, at that
/// level's texel size; each level but the smallest is blurred up from the level just
/// below it, at that level's texel size.
pub proof fn lemma_bloom_reads_neighbour_level(base: (u32, u32), levels: Seq<(u32, u32)>, k: int)
    requires
        2 <= levels.len() <= usize::MAX,
        0 <= k < levels.len(),
    ensures
        1 <= k ==> bloom_plan(base, levels)[k + 1].source == BloomSurface::Level((k - 1) as usize)
            && bloom_plan(base, levels)[k + 1].texel == levels[k - 1],
        k + 1 < levels.len() ==> bloom_plan(base, levels)[2 * levels.len() - 1 - k].source
            == BloomSurface::Level((k + 1) as usize) && bloom_plan(base, levels)[2 * levels.len() - 1
            - k].texel == levels[k + 1],
{
}

} // verus!
