# gecko

The rendering core of a small game engine and editor, written in Verus. The library's own
functions in `src/` carry contracts that the verifier proves. The calls into outside crates
(`wgpu`, `slotmap`, `tracing`, and a few functions of `std`) go through small wrappers
marked `#[verifier::external_body]`: their contracts are believed as written, not proved,
and each one's doc comment says what it claims of the outside function. The wgpu calls
that a device may refuse for reasons of its own (format support, memory) run inside wgpu
error scopes and report the refusal; `Rhi::refusal_count` counts them, and the application
stops as wgpu's default error handler would have.

- `src/` — the verified library.
  - `resource`, `slots`: the registry of live GPU textures and buffers behind generational
    handles (a `slotmap` slot map), and the laws of a handle's life.
  - `target`: render targets selected by attachment role, the WebGPU bytes-per-sample rule,
    and the per-frame ring of targets that is resized in place.
  - `frame`, `rhi`, `context`: frames in flight, the render hardware interface that owns the
    device and every resource, and the adapter-limit check.
  - `diagnostics`, `console`: the bounded, numbered log buffer and the console's incremental
    filter over it, proved equal to a full rescan.
  - `surface`, `scene_renderer`, `editor`: the decisions of the swapchain, of per-object
    uniform layout, and of hierarchy selection.
  - `gpu`: the calls into `wgpu`, each with the contract the rest of the library relies on.
  - `labels`: the debug labels the engine gives GPU objects.
- `app/` — the application around it: window and event loop (`winit`), GPU acquisition,
  logging set-up (`tracing`), the editor UI (Dear ImGui) and the floating-point scene.
- `tests/` — tests of the library on concrete values.
