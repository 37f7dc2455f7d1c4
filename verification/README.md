# spvc

A high-level shader compiler for SPIR-V: shaders are built from typed operations
(variables, loads, stores, products, transpositions, accesses into structs), and the
library declares each type, constant and variable once, emits the instructions of each
function, and records the interface of each entry point. The bytecode itself is
assembled by rspirv.

The library is written in Verus. Its contracts speak of a model of the module under
construction (`model.rs`): the global declarations, the functions with their blocks, and
the caches that keep every type and operation declared at most once.

## Layout

- `src/builder.rs`: the calls into rspirv's builder, each with its contract over the model.
- `src/types.rs`, `src/keys.rs`, `src/dims.rs`, `src/storage_class.rs`: SPIR-V types,
  their cache keys, matrix and vector dimensions.
- `src/shader.rs`: the shader under construction, type and constant registration.
- `src/ops.rs`, `src/vars.rs`, `src/emit.rs`: operations, their registration and their
  emission into a block.
- `src/function.rs`, `src/interface.rs`: functions, entry points and their interfaces.
- `src/base.rs`, `src/glsl_struct.rs`, `src/glsl.rs`, `src/derive.rs`: the older
  module builder with GLSL struct layout, and what deriving a GLSL struct computes.
- `src/pbr.rs`: the vertex shader of physically based rendering.
- `src/laws.rs`: properties of type matching and matrix dimensions.
- `app/`: writes the vertex shader to `out.spv`, converts interfaces for vulkano, and
  writes the token output of the derive.
- `tests/`: tests of the library.

## Dependencies

- `rspirv` (with its `spirv` headers): the module builder and the assembler.
- `syn`, `quote` and `proc-macro2`: the token output of the GLSL struct derive in
  `app/derive.rs`. `proc-macro2` is there because the derive's functions work on
  `proc_macro2::TokenStream`, the token type that `syn` and `quote` use outside a
  procedural-macro crate.
- `vulkano`: the shader module and the interfaces in vulkano's terms, in `app/vulkan.rs`.
