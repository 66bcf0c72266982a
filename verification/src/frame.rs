//! Order of the work done by one engine update.

use vstd::prelude::*;

verus! {

/// A stage of an engine update.
#[derive(Clone, Copy, Debug, PartialEq, Eq, Structural)]
pub enum FrameStage {
    /// Held pointers take new random colours.
    RecolorPointers,
    /// The queued random bursts are splatted.
    Bursts,
    /// The queued programmatic splats are splatted.
    QueuedSplats,
    /// Held pointers that moved splat their motion.
    PointerSplats,
    /// The physics step and its post-processing.
    Step,
}

/// The stages of an update: none while paused; otherwise the colour change when it is
/// due, the bursts, the queued splats, the pointer splats, and the physics step.
pub open spec fn frame_plan(paused: bool, recolor_due: bool) -> Seq<FrameStage> {
    if paused {
        Seq::empty()
    } else {
        (if recolor_due { seq![FrameStage::RecolorPointers] } else { Seq::empty() }) + seq![
            FrameStage::Bursts,
            FrameStage::QueuedSplats,
            FrameStage::PointerSplats,
            FrameStage::Step,
        ]
    }
}

/// The stages of an engine update, in order. `recolor_due` says whether the colour
/// timer has run out (and colour changes are on).
pub fn frame_stages(paused: bool, recolor_due: bool) -> (stages: Vec<FrameStage>)
    ensures
        stages@ == frame_plan(paused, recolor_due),
{
    let mut stages: Vec<FrameStage> = Vec::new();
    if paused {
        return stages;
    }
    if recolor_due {
        stages.push(FrameStage::RecolorPointers);
    }
    stages.push(FrameStage::Bursts);
    stages.push(FrameStage::QueuedSplats);
    stages.push(FrameStage::PointerSplats);
    stages.push(FrameStage::Step);
    assert(stages@ =~= frame_plan(paused, recolor_due));
    stages
}

/// A paused engine does no work at all in an update; a running one always ends with
/// the physics step, after all input of the frame has been splatted.
pub proof fn lemma_frame_order(paused: bool, recolor_due: bool)
    ensures
        paused ==> frame_plan(paused, recolor_due).len() == 0,
        !paused ==> {
            let p = frame_plan(paused, recolor_due);
            let k = p.len() - 4;
            &&& p.last() == FrameStage::Step
            &&& p[k] == FrameStage::Bursts
            &&& p[k + 1] == FrameStage::QueuedSplats
            &&& p[k + 2] == FrameStage::PointerSplats
            &&& (recolor_due <==> p[0] == FrameStage::RecolorPointers)
        },
{
}

} // verus!
