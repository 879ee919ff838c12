# ruffle

Two parts of a Flash player, with their behaviour stated in contracts and proved
by Verus.

- The objects of the ActionScript 1/2 virtual machine: looking properties up
  along prototype chains, calling methods, and telling whether an object is an
  instance of a class, interfaces included (`src/object.rs`). What holds of these
  look-ups as a whole is in `src/object_laws.rs`.
- The WebGL renderer: obtaining a context (`src/context.rs`), shader programs
  (`src/shader.rs`), meshes and their layout (`src/mesh.rs`) and the renderer
  itself (`src/backend.rs`). It decides on calls of the graphics library and their
  arguments; `src/gl.rs` describes the calls and judges the replies. That masks
  mask is proved in `src/mask_laws.rs`, and that the state is right whenever
  triangles are drawn in `src/frame_laws.rs`.

Numbers are handled as the bits of their encodings (`src/float.rs`,
`src/geometry.rs`). Calculating with them, and talking to the browser, is left to
`app/`, which is ordinary Rust.

The tests in `tests/` run the library on a small runtime of objects and on models
of the graphics library.
