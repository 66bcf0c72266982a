use fluid_core::frame::{frame_stages, FrameStage};
use fluid_core::step::{pass_sources, pass_swaps, pass_target, step_passes, FieldPair, StepPass};

#[test]
fn step_runs_the_documented_pipeline() {
    let passes = step_passes(2, false, false);
    assert_eq!(
        passes,
        vec![
            StepPass::Curl,
            StepPass::Vorticity,
            StepPass::Divergence,
            StepPass::PressureDecay,
            StepPass::Jacobi,
            StepPass::Jacobi,
            StepPass::GradientSubtract,
            StepPass::AdvectVelocity,
            StepPass::AdvectDye,
        ]
    );
}

#[test]
fn post_processing_follows_the_step() {
    let passes = step_passes(0, true, true);
    assert_eq!(passes.len(), 7 + 1 + 5);
    assert_eq!(passes[7], StepPass::Bloom);
    assert_eq!(
        &passes[8..],
        &[
            StepPass::SunraysMask,
            StepPass::SunraysScatter,
            StepPass::SunraysBlurX,
            StepPass::SunraysBlurY,
            StepPass::SunraysCopy
        ]
    );
    assert_eq!(step_passes(20, false, true).len(), 27 + 5);
    assert_eq!(step_passes(20, true, false).len(), 27 + 1);
}

fn swaps_of(passes: &[StepPass], pair: FieldPair) -> usize {
    passes.iter().filter(|p| pass_swaps(**p) == Some(pair)).count()
}

#[test]
fn swap_counts_and_parity() {
    for n in [0u32, 1, 2, 7, 20] {
        let passes = step_passes(n, true, true);
        assert_eq!(swaps_of(&passes, FieldPair::Velocity), 3);
        assert_eq!(swaps_of(&passes, FieldPair::Dye), 1);
        assert_eq!(swaps_of(&passes, FieldPair::Pressure), n as usize + 1);
    }
}

#[test]
fn passes_never_read_what_they_write() {
    for pass in step_passes(3, true, true) {
        let target = pass_target(pass);
        let (first, second) = pass_sources(pass);
        assert_ne!(first, target);
        assert_ne!(second, Some(target));
    }
}

#[test]
fn paused_frame_does_nothing() {
    assert!(frame_stages(true, true).is_empty());
    assert!(frame_stages(true, false).is_empty());
}

#[test]
fn frame_consumes_input_before_the_step() {
    assert_eq!(
        frame_stages(false, false),
        vec![FrameStage::Bursts, FrameStage::QueuedSplats, FrameStage::PointerSplats, FrameStage::Step]
    );
    assert_eq!(frame_stages(false, true)[0], FrameStage::RecolorPointers);
    assert_eq!(frame_stages(false, true).len(), 5);
}
