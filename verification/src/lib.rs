//! Building SPIR-V shaders programmatically, on top of rspirv's module builder.
pub mod builder;
pub mod model;
pub mod storage_class;
pub mod dims;
pub mod errors;
pub mod types;
pub mod keys;
pub mod shader;
pub mod vars;
pub mod ops;
pub mod emit;
pub mod interface;
pub mod function;
pub mod glsl_struct;
pub mod base;
pub mod glsl;
pub mod derive;
pub mod pbr;
pub mod laws;
