# wutengine

The core logic of the WutEngine game engine runtime, written in Verus: each public
function carries a `requires`/`ensures` contract that Verus proves.

- `src/` — the verified library: the ECS system scheduler (`schedule`), query borrow
  shapes (`query`), keyboard and mouse input state (`input`), the event manager
  (`event`), window and display bookkeeping and the requests sent to the main thread
  (`window`), index buffer, mesh and uniform buffer layout checks (`graphics`), shader
  variant identifiers and keyword hashing (`shader`), hex colors (`color`), log
  subsystems (`logger`), mipmap planning and texel uploads (`texture`), UUID combination (`util`) and the
  integer side of the UI integration: its input events and the layout of its primitives
  in vertex and index buffers (`egui`).
- `app/` — the native side: the windowing system's events and windows (`winit`), the
  cross-thread event bus, `hecs` query shapes, system callbacks, and floating-point colors.
- `tests/` — tests of the library on concrete values.
