# posh

The verified core of `posh`, a type-safe OpenGL ES 3.0 wrapper with an
embedded shading language.

- `src/dag`: shader expression graphs and their types.
- `src/expose`: building expression graphs from shader code.
- `src/gen`: generating GLSL from expression graphs: the struct registry,
  the topological order, the variable form, the scope form and the writer.
- `src/compile.rs`, `src/program_def.rs`: compiling a vertex and a fragment
  stage into a program definition.
- `src/gl`: images, and the graphics library's decisions on plain values: which OpenGL
  calls to make for bindings, draw settings, vertex data, textures and
  framebuffers, and how objects are validated.
- `app/`: the OpenGL side, with `glow`: a context that makes the calls that
  the library decides on, creating programs from compiled shader stages,
  frame tracing with timer queries, the error messages, and uniform data
  layout.

Every function under `src/` is verified with Verus against its contract,
but for the trusted wrappers around outside crates, whose doc comments say
what they claim: the four small-vector wrappers in
`src/gl/raw/small_vec.rs` (`SmallVec::from_vec` and `SmallVec::as_slice`
for the color attachments and for the vertex buffers), with the two structs
there that hold those small vectors, and `bytemuck::cast_slice` from `i8`
to `u8` in `src/gl/image.rs`.
