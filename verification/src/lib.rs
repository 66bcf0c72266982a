//! Verified core of an interactive fluid-simulation engine: the input queue that
//! collects pointer, touch and programmatic splats between frames, the sizing of
//! the simulation's render targets, and the pass plans that the GPU code follows.

pub mod binary32;
pub mod resolution;
pub mod layout;
pub mod input;
pub mod input_laws;
pub mod bloom;
pub mod double_fbo;
pub mod step;
pub mod frame;
pub mod surface;
pub mod controls;
