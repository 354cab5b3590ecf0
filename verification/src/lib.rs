//! A verified shader cross-compilation and render-orchestration library.
//!
//! One GLSL-ES-flavoured vertex/fragment source pair is rewritten into five
//! GLSL dialect variants plus a struct-based (MSL-style) variant; a runtime
//! capability query then selects the variant to hand to the GPU backend.
//! Around the transpiler sit the uniform-layout and byte-buffer logic of
//! materials, the per-frame draw-call sequencing, CPU-side image
//! manipulation, and texture-handle bookkeeping.

pub mod filters;
pub mod gizmos;
pub mod glsl;
pub mod image;
pub mod meta;
pub mod msl;
pub mod scene;
pub mod select;
pub mod shader;
pub mod text;
pub mod texture;
