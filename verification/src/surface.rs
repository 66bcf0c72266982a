//! Decisions the renderer takes about its presentation surface and bind groups.

use vstd::prelude::*;

verus! {

/// Size of the presentation surface in physical pixels.
#[derive(Clone, Copy, Debug, PartialEq, Eq, Structural)]
pub struct SurfaceSize {
    /// Width in pixels.
    pub width: u32,
    /// Height in pixels.
    pub height: u32,
}

/// The surface size after a resize to `width` by `height`: a size with a zero side
/// (a minimised window) is ignored.
pub open spec fn resized(s: SurfaceSize, width: u32, height: u32) -> SurfaceSize {
    if width > 0 && height > 0 {
        SurfaceSize { width, height }
    } else {
        s
    }
}

impl SurfaceSize {
    /// Takes the new window size `width` by `height`, unless one side is zero.
    /// Returns whether the size was taken (and the surface has to be reconfigured).
    pub fn resize(&mut self, width: u32, height: u32) -> (applied: bool)
        ensures
            applied == (width > 0 && height > 0),
            *final(self) == resized(*old(self), width, height),
    {
        if width > 0 && height > 0 {
            self.width = width;
            self.height = height;
            true
        } else {
            false
        }
    }
}

/// Once the surface has an area, no resize takes it away.
pub proof fn lemma_resize_keeps_area(s: SurfaceSize, width: u32, height: u32)
    requires
        s.width > 0 && s.height > 0,
    ensures
        resized(s, width, height).width > 0 && resized(s, width, height).height > 0,
{
}

/// Picks among a non-empty list of candidates (surface formats, alpha modes) the first
/// one with the preferred property, falling back on the first candidate:
/// `matches[i]` says whether candidate `i` has the property.
pub fn first_match_or_first(matches: &Vec<bool>) -> (i: usize)
    requires
        matches.len() > 0,
    ensures
        i < matches.len(),
        forall|j: int| 0 <= j < i ==> !matches@[j],
        matches@[i as int] || (i == 0 && forall|j: int| 0 <= j < matches.len() ==> !matches@[j]),
{
    let n = matches.len();
    let mut i: usize = 0;
    while i < n
        invariant
            n == matches@.len(),
            i <= n,
            forall|j: int| 0 <= j < i ==> !matches@[j],
        decreases n - i,
    {
        if matches[i] {
            return i;
        }
        i = i + 1;
    }
    0
}

/// Kind of a binding in the bind groups of the simulation's passes.
#[derive(Clone, Copy, Debug, PartialEq, Eq, Structural)]
pub enum BindingKind {
    /// The pass's uniform buffer.
    Uniform,
    /// A sampled texture.
    Texture,
    /// The sampler shared by the pass's textures.
    Sampler,
}

/// Kind of binding number `b` in a layout with `n_textures` textures: the uniform
/// buffer first, then the textures, then the sampler.
pub open spec fn binding_kind(n_textures: u32, b: int) -> BindingKind {
    if b == 0 {
        BindingKind::Uniform
    } else if b <= n_textures {
        BindingKind::Texture
    } else {
        BindingKind::Sampler
    }
}

/// Bindings of a pass layout with `n_textures` sampled textures, indexed by binding
/// number: the uniform buffer at 0, the textures at `1..=n_textures`, the sampler
/// right after them.
pub fn bind_group_layout_plan(n_textures: u32) -> (plan: Vec<BindingKind>)
    requires
        n_textures < u32::MAX,
    ensures
        plan@.len() == n_textures + 2,
        forall|b: int| 0 <= b < plan@.len() ==> #[trigger] plan@[b] == binding_kind(n_textures, b),
{
    let mut plan: Vec<BindingKind> = Vec::new();
    plan.push(BindingKind::Uniform);
    let mut i: u32 = 0;
    while i < n_textures
        invariant
            i <= n_textures,
            n_textures < u32::MAX,
            plan@.len() == i + 1,
            forall|b: int| 0 <= b < plan@.len() ==> #[trigger] plan@[b] == binding_kind(n_textures, b),
        decreases n_textures - i,
    {
        plan.push(BindingKind::Texture);
        i = i + 1;
    }
    plan.push(BindingKind::Sampler);
    plan
}

} // verus!
