# wgpu_learning

The rule-bearing core of a small wgpu renderer, verified with Verus.

- `src/rend/` — fonts and texture sample ranges, shader sources and their
  `import("...")` statements, uniform-buffer slot layout, text-pass sizing.
- `src/renderer_backend/` — mesh index lists (quad, polygon fan, cube, ground-plane
  grid) and the byte layout of a mesh buffer; the shader record; view cycling,
  surface resizing and the id-keyed resource store.
- `src/model/` — screen objects, camera controls from held keys, and the key-event
  state of the viewer.
- `app/` — what the library does not model: reading font and shader files, and the
  floating-point parts (vertex data, text layout, camera motion).
