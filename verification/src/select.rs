//! Runtime shader selection: which transpiled variant is handed to the
//! active GPU backend, chosen newest-to-oldest from the reported GLSL
//! capability tiers.

use vstd::prelude::*;

use crate::glsl::Output;

verus! {

/// Which backend family the active context runs.
#[derive(Clone, Copy, Debug, PartialEq, Eq, Structural)]
pub enum Backend {
    OpenGl,
    Metal,
}

/// The GLSL tiers the active context supports.
#[derive(Clone, Copy, Debug, PartialEq, Eq, Structural)]
pub struct GlslSupport {
    pub v100_ext: bool,
    pub v130: bool,
    pub v300es: bool,
    pub v330: bool,
}

/// What the GPU backend reports about the active context.
#[derive(Clone, Copy, Debug, PartialEq, Eq, Structural)]
pub struct ContextInfo {
    pub backend: Backend,
    pub glsl_support: GlslSupport,
}

/// One selected source pair (or struct-based program) ready for the
/// backend's shader constructor.
#[derive(Debug)]
pub enum ShaderSource<'a> {
    Glsl { vertex: &'a str, fragment: &'a str },
    Msl { program: &'a str },
}

/// Which variant selection picks for the given capabilities: the Metal
/// backend always receives the struct-based blob; a GLSL backend receives
/// the newest supported tier, v300es before v330 before v130 before the
/// extended v100 before plain v100.
pub open spec fn chosen_variant(info: ContextInfo) -> ShaderVariant {
    match info.backend {
        Backend::Metal => ShaderVariant::StructBased,
        Backend::OpenGl => {
            if info.glsl_support.v300es {
                ShaderVariant::V300Es
            } else if info.glsl_support.v330 {
                ShaderVariant::V330
            } else if info.glsl_support.v130 {
                ShaderVariant::V130
            } else if info.glsl_support.v100_ext {
                ShaderVariant::V100Webgl
            } else {
                ShaderVariant::V100
            }
        },
    }
}

/// One dialect of the bundle.
#[derive(Clone, Copy, Debug, PartialEq, Eq, Structural)]
pub enum ShaderVariant {
    V100,
    V100Webgl,
    V130,
    V330,
    V300Es,
    StructBased,
}

/// The chosen variant's text, read from the bundle.
pub open spec fn variant_source<'a>(shader: &'a Output, v: ShaderVariant) -> (
    Seq<char>,
    Seq<char>,
) {
    match v {
        ShaderVariant::V100 => (shader.v100.vertex@, shader.v100.fragment@),
        ShaderVariant::V100Webgl => (shader.v100_webgl.vertex@, shader.v100_webgl.fragment@),
        ShaderVariant::V130 => (shader.v130.vertex@, shader.v130.fragment@),
        ShaderVariant::V330 => (shader.v330.vertex@, shader.v330.fragment@),
        ShaderVariant::V300Es => (shader.v300es.vertex@, shader.v300es.fragment@),
        ShaderVariant::StructBased => (shader.metal@, shader.metal@),
    }
}

/// Picks the variant of the bundle the backend will compile, following
/// the fixed newest-to-oldest priority.
pub fn choose_appropriate_shader<'a>(shader: &'a Output, context_info: &ContextInfo) -> (r:
    ShaderSource<'a>)
    ensures
        ({
            let v = chosen_variant(*context_info);
            match r {
                ShaderSource::Glsl { vertex, fragment } => v != ShaderVariant::StructBased
                    && vertex@ == variant_source(shader, v).0 && fragment@ == variant_source(
                    shader,
                    v,
                ).1,
                ShaderSource::Msl { program } => v == ShaderVariant::StructBased && program@
                    == shader.metal@,
            }
        }),
{
    match context_info.backend {
        Backend::OpenGl => {
            if context_info.glsl_support.v300es {
                ShaderSource::Glsl {
                    vertex: shader.v300es.vertex.as_str(),
                    fragment: shader.v300es.fragment.as_str(),
                }
            } else if context_info.glsl_support.v330 {
                ShaderSource::Glsl {
                    vertex: shader.v330.vertex.as_str(),
                    fragment: shader.v330.fragment.as_str(),
                }
            } else if context_info.glsl_support.v130 {
                ShaderSource::Glsl {
                    vertex: shader.v130.vertex.as_str(),
                    fragment: shader.v130.fragment.as_str(),
                }
            } else if context_info.glsl_support.v100_ext {
                ShaderSource::Glsl {
                    vertex: shader.v100_webgl.vertex.as_str(),
                    fragment: shader.v100_webgl.fragment.as_str(),
                }
            } else {
                ShaderSource::Glsl {
                    vertex: shader.v100.vertex.as_str(),
                    fragment: shader.v100.fragment.as_str(),
                }
            }
        },
        Backend::Metal => ShaderSource::Msl { program: shader.metal.as_str() },
    }
}

} // verus!
