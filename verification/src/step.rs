//! The passes of one physics step and the ping-pong discipline they follow.
//!
//! A step runs curl, vorticity confinement, divergence, pressure decay, `N` Jacobi
//! pressure iterations, gradient subtraction, velocity advection and dye advection,
//! then the bloom effect and the five sunrays passes when they are switched on.
//! A pass that updates a field pair draws into the pair's write half and then swaps
//! the pair, so that the next pass reads the new values.

use vstd::prelude::*;
use crate::double_fbo::{DoubleFbo, swapped, swapped_times, lemma_swap_parity};

verus! {

/// One pass of a physics step.
#[derive(Clone, Copy, Debug, PartialEq, Eq, Structural)]
pub enum StepPass {
    /// Curl of the velocity field.
    Curl,
    /// Vorticity confinement force applied to the velocity.
    Vorticity,
    /// Divergence of the velocity field.
    Divergence,
    /// Pressure scaled down by the configured factor.
    PressureDecay,
    /// One Jacobi iteration of the pressure equation.
    Jacobi,
    /// Pressure gradient subtracted from the velocity.
    GradientSubtract,
    /// Velocity advected by itself.
    AdvectVelocity,
    /// Dye advected by the velocity.
    AdvectDye,
    /// The bloom effect (its own passes, see the bloom plan).
    Bloom,
    /// Sunrays: occlusion mask of the dye.
    SunraysMask,
    /// Sunrays: radial scattering of the mask.
    SunraysScatter,
    /// Sunrays: horizontal blur.
    SunraysBlurX,
    /// Sunrays: vertical blur.
    SunraysBlurY,
    /// Sunrays: copy of the result back into the sunrays texture.
    SunraysCopy,
}

/// A ping-pong pair of simulation fields.
#[derive(Clone, Copy, Debug, PartialEq, Eq, Structural)]
pub enum FieldPair {
    Velocity,
    Pressure,
    Dye,
}

/// A texture a step pass samples or draws into.
#[derive(Clone, Copy, Debug, PartialEq, Eq, Structural)]
pub enum StepTexture {
    VelocityRead,
    VelocityWrite,
    PressureRead,
    PressureWrite,
    DyeRead,
    DyeWrite,
    Curl,
    Divergence,
    BloomBase,
    Sunrays,
    SunraysTemp,
}

/// The five passes of the sunrays effect.
pub open spec fn sunrays_plan() -> Seq<StepPass> {
    seq![
        StepPass::SunraysMask,
        StepPass::SunraysScatter,
        StepPass::SunraysBlurX,
        StepPass::SunraysBlurY,
        StepPass::SunraysCopy,
    ]
}

/// The passes of a step with `n` Jacobi iterations, in order.
pub open spec fn step_plan(n: nat, bloom: bool, sunrays: bool) -> Seq<StepPass> {
    seq![StepPass::Curl, StepPass::Vorticity, StepPass::Divergence, StepPass::PressureDecay]
        + Seq::new(n, |i: int| StepPass::Jacobi)
        + seq![StepPass::GradientSubtract, StepPass::AdvectVelocity, StepPass::AdvectDye]
        + (if bloom { seq![StepPass::Bloom] } else { Seq::empty() })
        + (if sunrays { sunrays_plan() } else { Seq::empty() })
}

/// The pair a pass swaps after drawing, if any.
pub open spec fn swaps(p: StepPass) -> Option<FieldPair> {
    match p {
        StepPass::Vorticity | StepPass::GradientSubtract | StepPass::AdvectVelocity => Some(
            FieldPair::Velocity,
        ),
        StepPass::PressureDecay | StepPass::Jacobi => Some(FieldPair::Pressure),
        StepPass::AdvectDye => Some(FieldPair::Dye),
        _ => None,
    }
}

/// The texture a pass draws into.
pub open spec fn target(p: StepPass) -> StepTexture {
    match p {
        StepPass::Curl => StepTexture::Curl,
        StepPass::Vorticity => StepTexture::VelocityWrite,
        StepPass::Divergence => StepTexture::Divergence,
        StepPass::PressureDecay => StepTexture::PressureWrite,
        StepPass::Jacobi => StepTexture::PressureWrite,
        StepPass::GradientSubtract => StepTexture::VelocityWrite,
        StepPass::AdvectVelocity => StepTexture::VelocityWrite,
        StepPass::AdvectDye => StepTexture::DyeWrite,
        StepPass::Bloom => StepTexture::BloomBase,
        StepPass::SunraysMask => StepTexture::Sunrays,
        StepPass::SunraysScatter => StepTexture::SunraysTemp,
        StepPass::SunraysBlurX => StepTexture::Sunrays,
        StepPass::SunraysBlurY => StepTexture::SunraysTemp,
        StepPass::SunraysCopy => StepTexture::Sunrays,
    }
}

/// The textures a pass samples: a first one and, for two-input passes, a second.
pub open spec fn sources(p: StepPass) -> (StepTexture, Option<StepTexture>) {
    match p {
        StepPass::Curl => (StepTexture::VelocityRead, None),
        StepPass::Vorticity => (StepTexture::VelocityRead, Some(StepTexture::Curl)),
        StepPass::Divergence => (StepTexture::VelocityRead, None),
        StepPass::PressureDecay => (StepTexture::PressureRead, None),
        StepPass::Jacobi => (StepTexture::PressureRead, Some(StepTexture::Divergence)),
        StepPass::GradientSubtract => (StepTexture::PressureRead, Some(StepTexture::VelocityRead)),
        StepPass::AdvectVelocity => (StepTexture::VelocityRead, Some(StepTexture::VelocityRead)),
        StepPass::AdvectDye => (StepTexture::VelocityRead, Some(StepTexture::DyeRead)),
        StepPass::Bloom => (StepTexture::DyeRead, None),
        StepPass::SunraysMask => (StepTexture::DyeRead, None),
        StepPass::SunraysScatter => (StepTexture::Sunrays, None),
        StepPass::SunraysBlurX => (StepTexture::SunraysTemp, None),
        StepPass::SunraysBlurY => (StepTexture::Sunrays, None),
        StepPass::SunraysCopy => (StepTexture::SunraysTemp, None),
    }
}

/// The write half of a pair.
pub open spec fn write_half(pair: FieldPair) -> StepTexture {
    match pair {
        FieldPair::Velocity => StepTexture::VelocityWrite,
        FieldPair::Pressure => StepTexture::PressureWrite,
        FieldPair::Dye => StepTexture::DyeWrite,
    }
}

/// The read half of a pair.
pub open spec fn read_half(pair: FieldPair) -> StepTexture {
    match pair {
        FieldPair::Velocity => StepTexture::VelocityRead,
        FieldPair::Pressure => StepTexture::PressureRead,
        FieldPair::Dye => StepTexture::DyeRead,
    }
}

/// How often `plan` swaps `pair`.
pub open spec fn swap_count(plan: Seq<StepPass>, pair: FieldPair) -> nat
    decreases plan.len(),
{
    if plan.len() == 0 {
        0
    } else {
        swap_count(plan.drop_last(), pair) + if swaps(plan.last()) == Some(pair) {
            1nat
        } else {
            0nat
        }
    }
}

/// The passes of one physics step with `pressure_iterations` Jacobi iterations,
/// followed by the bloom effect and the sunrays passes when they are on.
pub fn step_passes(pressure_iterations: u32, bloom: bool, sunrays: bool) -> (passes: Vec<StepPass>)
    requires
        pressure_iterations as nat + 13 <= usize::MAX,
    ensures
        passes@ == step_plan(pressure_iterations as nat, bloom, sunrays),
{
    let mut passes: Vec<StepPass> = Vec::new();
    passes.push(StepPass::Curl);
    passes.push(StepPass::Vorticity);
    passes.push(StepPass::Divergence);
    passes.push(StepPass::PressureDecay);
    let ghost head = passes@;
    let mut i: u32 = 0;
    while i < pressure_iterations
        invariant
            i <= pressure_iterations,
            head == seq![StepPass::Curl, StepPass::Vorticity, StepPass::Divergence, StepPass::PressureDecay],
            passes@ == head + Seq::new(i as nat, |k: int| StepPass::Jacobi),
        decreases pressure_iterations - i,
    {
        passes.push(StepPass::Jacobi);
        i = i + 1;
        assert(passes@ =~= head + Seq::new(i as nat, |k: int| StepPass::Jacobi));
    }
    passes.push(StepPass::GradientSubtract);
    passes.push(StepPass::AdvectVelocity);
    passes.push(StepPass::AdvectDye);
    if bloom {
        passes.push(StepPass::Bloom);
    }
    if sunrays {
        passes.push(StepPass::SunraysMask);
        passes.push(StepPass::SunraysScatter);
        passes.push(StepPass::SunraysBlurX);
        passes.push(StepPass::SunraysBlurY);
        passes.push(StepPass::SunraysCopy);
    }
    assert(passes@ =~= step_plan(pressure_iterations as nat, bloom, sunrays));
    passes
}

/// The pair `pass` swaps after drawing, if any.
pub fn pass_swaps(pass: StepPass) -> (pair: Option<FieldPair>)
    ensures
        pair == swaps(pass),
{
    match pass {
        StepPass::Vorticity | StepPass::GradientSubtract | StepPass::AdvectVelocity => Some(
            FieldPair::Velocity,
        ),
        StepPass::PressureDecay | StepPass::Jacobi => Some(FieldPair::Pressure),
        StepPass::AdvectDye => Some(FieldPair::Dye),
        _ => None,
    }
}

/// The texture `pass` draws into.
pub fn pass_target(pass: StepPass) -> (t: StepTexture)
    ensures
        t == target(pass),
{
    match pass {
        StepPass::Curl => StepTexture::Curl,
        StepPass::Vorticity => StepTexture::VelocityWrite,
        StepPass::Divergence => StepTexture::Divergence,
        StepPass::PressureDecay => StepTexture::PressureWrite,
        StepPass::Jacobi => StepTexture::PressureWrite,
        StepPass::GradientSubtract => StepTexture::VelocityWrite,
        StepPass::AdvectVelocity => StepTexture::VelocityWrite,
        StepPass::AdvectDye => StepTexture::DyeWrite,
        StepPass::Bloom => StepTexture::BloomBase,
        StepPass::SunraysMask => StepTexture::Sunrays,
        StepPass::SunraysScatter => StepTexture::SunraysTemp,
        StepPass::SunraysBlurX => StepTexture::Sunrays,
        StepPass::SunraysBlurY => StepTexture::SunraysTemp,
        StepPass::SunraysCopy => StepTexture::Sunrays,
    }
}

/// The textures `pass` samples.
pub fn pass_sources(pass: StepPass) -> (s: (StepTexture, Option<StepTexture>))
    ensures
        s == sources(pass),
{
    match pass {
        StepPass::Curl => (StepTexture::VelocityRead, None),
        StepPass::Vorticity => (StepTexture::VelocityRead, Some(StepTexture::Curl)),
        StepPass::Divergence => (StepTexture::VelocityRead, None),
        StepPass::PressureDecay => (StepTexture::PressureRead, None),
        StepPass::Jacobi => (StepTexture::PressureRead, Some(StepTexture::Divergence)),
        StepPass::GradientSubtract => (StepTexture::PressureRead, Some(StepTexture::VelocityRead)),
        StepPass::AdvectVelocity => (StepTexture::VelocityRead, Some(StepTexture::VelocityRead)),
        StepPass::AdvectDye => (StepTexture::VelocityRead, Some(StepTexture::DyeRead)),
        StepPass::Bloom => (StepTexture::DyeRead, None),
        StepPass::SunraysMask => (StepTexture::DyeRead, None),
        StepPass::SunraysScatter => (StepTexture::Sunrays, None),
        StepPass::SunraysBlurX => (StepTexture::SunraysTemp, None),
        StepPass::SunraysBlurY => (StepTexture::Sunrays, None),
        StepPass::SunraysCopy => (StepTexture::SunraysTemp, None),
    }
}

/// A pass draws into the write half of a pair exactly when it swaps that pair
/// afterwards, and no pass samples the texture it draws into.
pub proof fn lemma_ping_pong_discipline(p: StepPass)
    ensures
        forall|pair: FieldPair| #[trigger] write_half(pair) == target(p) <==> swaps(p) == Some(pair),
        sources(p).0 != target(p),
        sources(p).1 != Some(target(p)),
{
}

/// A pass that updates a pair samples the pair's current values: whatever pair a pass
/// swaps, it reads that pair's read half, as its first or its second input.
pub proof fn lemma_swapping_pass_reads_its_pair(p: StepPass, pair: FieldPair)
    requires
        swaps(p) == Some(pair),
    ensures
        sources(p).0 == read_half(pair) || sources(p).1 == Some(read_half(pair)),
{
}

/// The advections are driven by the velocity field: both sample the velocity's read
/// half first, then the field they carry.
pub proof fn lemma_advection_reads_velocity(p: StepPass, pair: FieldPair)
    requires
        p == StepPass::AdvectVelocity || p == StepPass::AdvectDye,
        swaps(p) == Some(pair),
    ensures
        sources(p) == (StepTexture::VelocityRead, Some(read_half(pair))),
{
}

/// A texture that belongs to no pair: it holds only what a pass of the same step drew.
pub open spec fn scratch(t: StepTexture) -> bool {
    t == StepTexture::Curl || t == StepTexture::Divergence || t == StepTexture::Sunrays || t
        == StepTexture::SunraysTemp
}

/// No pass of a step samples a scratch texture before an earlier pass of the same step
/// has drawn into it.
pub proof fn lemma_scratch_written_before_read(n: nat, bloom: bool, sunrays: bool, i: int, t: StepTexture)
    requires
        0 <= i < step_plan(n, bloom, sunrays).len(),
        scratch(t),
        sources(step_plan(n, bloom, sunrays)[i]).0 == t || sources(step_plan(n, bloom, sunrays)[i]).1 == Some(t),
    ensures
        exists|j: int| 0 <= j < i && #[trigger] target(step_plan(n, bloom, sunrays)[j]) == t,
{
    let plan = step_plan(n, bloom, sunrays);
    let a = seq![StepPass::Curl, StepPass::Vorticity, StepPass::Divergence, StepPass::PressureDecay];
    let jac = Seq::new(n, |k: int| StepPass::Jacobi);
    let c = seq![StepPass::GradientSubtract, StepPass::AdvectVelocity, StepPass::AdvectDye];
    let b: Seq<StepPass> = if bloom { seq![StepPass::Bloom] } else { Seq::empty() };
    let sp: Seq<StepPass> = if sunrays { sunrays_plan() } else { Seq::empty() };
    assert(plan == a + jac + c + b + sp);
    let m: int = (7 + n + b.len()) as int;
    if i < 4 {
        assert(plan[i] == a[i]);
        assert(plan[0] == StepPass::Curl);
        assert(target(plan[0]) == t);
    } else if i < 4 + n {
        assert(plan[i] == StepPass::Jacobi);
        assert(plan[2] == StepPass::Divergence);
        assert(target(plan[2]) == t);
    } else if i < m {
        assert(i < 7 + n ==> plan[i] == c[i - 4 - n]);
        assert(i >= 7 + n ==> plan[i] == StepPass::Bloom);
    } else {
        assert(sunrays);
        assert(plan[i] == sp[i - m]);
        assert(plan[m] == StepPass::SunraysMask);
        assert(plan[m + 1] == StepPass::SunraysScatter);
        assert(plan[m + 2] == StepPass::SunraysBlurX);
        assert(plan[m + 3] == StepPass::SunraysBlurY);
        if i == m + 1 || i == m + 3 {
            assert(target(plan[m]) == t);
        } else {
            assert(target(plan[m + 1]) == t);
        }
    }
}

proof fn lemma_swap_count_concat(a: Seq<StepPass>, b: Seq<StepPass>, pair: FieldPair)
    ensures
        swap_count(a + b, pair) == swap_count(a, pair) + swap_count(b, pair),
    decreases b.len(),
{
    if b.len() == 0 {
        assert(a + b =~= a);
    } else {
        lemma_swap_count_concat(a, b.drop_last(), pair);
        assert((a + b).drop_last() =~= a + b.drop_last());
        assert((a + b).last() == b.last());
    }
}

proof fn lemma_swap_count_jacobi(n: nat, pair: FieldPair)
    ensures
        swap_count(Seq::new(n, |i: int| StepPass::Jacobi), pair) == if pair == FieldPair::Pressure {
            n
        } else {
            0
        },
    decreases n,
{
    if n > 0 {
        lemma_swap_count_jacobi((n - 1) as nat, pair);
        assert(Seq::new(n, |i: int| StepPass::Jacobi).drop_last() =~= Seq::new(
            (n - 1) as nat,
            |i: int| StepPass::Jacobi,
        ));
    }
}

/// A step swaps the velocity pair three times, the dye pair once and the pressure pair
/// `n + 1` times, whatever the post-processing.
pub proof fn lemma_step_swap_counts(n: nat, bloom: bool, sunrays: bool)
    ensures
        swap_count(step_plan(n, bloom, sunrays), FieldPair::Velocity) == 3,
        swap_count(step_plan(n, bloom, sunrays), FieldPair::Dye) == 1,
        swap_count(step_plan(n, bloom, sunrays), FieldPair::Pressure) == n + 1,
{
    let a = seq![StepPass::Curl, StepPass::Vorticity, StepPass::Divergence, StepPass::PressureDecay];
    let j = Seq::new(n, |i: int| StepPass::Jacobi);
    let c = seq![StepPass::GradientSubtract, StepPass::AdvectVelocity, StepPass::AdvectDye];
    let b: Seq<StepPass> = if bloom { seq![StepPass::Bloom] } else { Seq::empty() };
    let s: Seq<StepPass> = if sunrays { sunrays_plan() } else { Seq::empty() };
    assert(step_plan(n, bloom, sunrays) == a + j + c + b + s);
    reveal_with_fuel(swap_count, 6);
    assert forall|pair: FieldPair| #![auto]
        swap_count(step_plan(n, bloom, sunrays), pair) == swap_count(a, pair) + swap_count(j, pair)
            + swap_count(c, pair) + swap_count(b, pair) + swap_count(s, pair) by {
        lemma_swap_count_concat(a, j, pair);
        lemma_swap_count_concat(a + j, c, pair);
        lemma_swap_count_concat(a + j + c, b, pair);
        lemma_swap_count_concat(a + j + c + b, s, pair);
    }
    lemma_swap_count_jacobi(n, FieldPair::Velocity);
    lemma_swap_count_jacobi(n, FieldPair::Dye);
    lemma_swap_count_jacobi(n, FieldPair::Pressure);
    assert(a.drop_last() =~= seq![StepPass::Curl, StepPass::Vorticity, StepPass::Divergence]);
    assert(a.drop_last().drop_last() =~= seq![StepPass::Curl, StepPass::Vorticity]);
    assert(a.drop_last().drop_last().drop_last() =~= seq![StepPass::Curl]);
    assert(seq![StepPass::Curl].drop_last() =~= Seq::<StepPass>::empty());
    assert(c.drop_last() =~= seq![StepPass::GradientSubtract, StepPass::AdvectVelocity]);
    assert(c.drop_last().drop_last() =~= seq![StepPass::GradientSubtract]);
    assert(seq![StepPass::GradientSubtract].drop_last() =~= Seq::<StepPass>::empty());
    assert(seq![StepPass::Bloom].drop_last() =~= Seq::<StepPass>::empty());
    let sp = sunrays_plan();
    assert(sp.drop_last().drop_last().drop_last().drop_last().drop_last() =~= Seq::<StepPass>::empty());
}

/// After a step, the velocity and dye pairs have their halves exchanged, and the
/// pressure pair has them exchanged exactly when the number of Jacobi iterations is
/// even.
pub proof fn lemma_step_end_state<T>(
    n: nat,
    bloom: bool,
    sunrays: bool,
    velocity: DoubleFbo<T>,
    pressure: DoubleFbo<T>,
    dye: DoubleFbo<T>,
)
    ensures
        swapped_times(velocity, swap_count(step_plan(n, bloom, sunrays), FieldPair::Velocity)) == swapped(
            velocity,
        ),
        swapped_times(dye, swap_count(step_plan(n, bloom, sunrays), FieldPair::Dye)) == swapped(dye),
        swapped_times(pressure, swap_count(step_plan(n, bloom, sunrays), FieldPair::Pressure)) == if n
            % 2 == 0 {
            swapped(pressure)
        } else {
            pressure
        },
{
    lemma_step_swap_counts(n, bloom, sunrays);
    lemma_swap_parity(velocity, 3);
    lemma_swap_parity(dye, 1);
    lemma_swap_parity(pressure, n + 1);
}

} // verus!
