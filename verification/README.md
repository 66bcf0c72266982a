# fluid_core

An interactive GPU fluid simulation whose input handling and texture/pass planning
are verified with Verus.

- `src/` — the verified library:
  - `input.rs`, `input_laws.rs`: the input queue (tracked pointers, queued splats and
    bursts) and its laws;
  - `binary32.rs`: the single-precision operations that texture sizing performs
    (conversion, division, multiplication, rounding to an integer), on integers;
  - `resolution.rs`, `layout.rs`: render-target sizes from the configured resolutions
    and the surface size, the bloom mip chain, and when a configuration change needs
    new textures;
  - `bloom.rs`: the order of the bloom passes and the texel sizes they use;
  - `step.rs`: the passes of a physics step, what each reads and writes, and which
    ping-pong pair it swaps;
  - `frame.rs`: the order of the work in one engine update;
  - `double_fbo.rs`: ping-pong render-target pairs;
  - `surface.rs`: surface resizing, surface format choice, bind-group layouts;
  - `controls.rs`: the demo's keyboard shortcuts.
- `app/` — the floating-point configuration, the wgpu renderer and simulation, and the
  engine facade that drive the library each frame.
- `tests/` — tests of the library.
