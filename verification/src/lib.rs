//! Color-space descriptions, CPU and GPU processor state, and GPU shader
//! text generation, with their contracts.
//!
//! Module by module:
//! - `types`: bit depths, allocations, reference spaces, dynamic property
//!   kinds, and the summary of a finalized op list;
//! - `text`: digits, joins and case-insensitive comparison of strings;
//! - `tokens`: the case-insensitive token list that holds categories;
//! - `color_space`: the color space description and the text describing it;
//! - `cpu_processor`: CPU processor state and its dynamic-property search;
//! - `gpu_shader`: shader languages, shader text lines, the shader creator;
//! - `gpu_processor`: GPU processor state, the shader function's header and
//!   footer, and the unique key of a shader program;
//! - `hash`: the XXH3-128 hash of `xxhash_rust`.

pub mod color_space;
pub mod cpu_processor;
pub mod gpu_processor;
pub mod gpu_shader;
pub mod hash;
pub mod text;
pub mod tokens;
pub mod types;

pub use color_space::{ColorSpace, ColorSpaceModel, Transform};
pub use cpu_processor::{CPUProcessor, CpuEngine, CpuOp, CpuProcessorModel, DynamicProperty};
pub use gpu_processor::{
    cache_id_hash, cache_id_hash_text, shader_key_from_hash, shader_key_from_text,
    write_shader_footer, write_shader_header, GPUProcessor, GpuOp, GpuProcessorModel,
};
pub use gpu_shader::{GpuLanguage, GpuShaderCreator, GpuShaderCreatorModel, GpuShaderDesc, GpuShaderText};
pub use tokens::TokensManager;
pub use types::{
    Allocation, BitDepth, ColorSpaceDirection, DynamicPropertyType, OpsSummary, OptimizationFlags,
    ReferenceSpaceType,
};
