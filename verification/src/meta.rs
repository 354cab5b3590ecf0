//! The uniform/texture metadata description that binds shader source text
//! to the dialect emitters: an ordered uniform block plus an ordered list of
//! texture (image) binding names.

use vstd::prelude::*;

verus! {

/// The scalar/vector/matrix type of one uniform.
#[derive(Clone, Copy, Debug, PartialEq, Eq, Structural)]
pub enum UniformType {
    Float1,
    Float2,
    Float3,
    Float4,
    Int1,
    Int2,
    Int3,
    Int4,
    Mat4,
}

impl UniformType {
    /// Byte size of one element of this type.
    pub open spec fn spec_size(self) -> nat {
        match self {
            UniformType::Float1 => 4,
            UniformType::Float2 => 8,
            UniformType::Float3 => 12,
            UniformType::Float4 => 16,
            UniformType::Int1 => 4,
            UniformType::Int2 => 8,
            UniformType::Int3 => 12,
            UniformType::Int4 => 16,
            UniformType::Mat4 => 64,
        }
    }

    /// Byte size of one element of this type.
    pub fn size(&self) -> (r: usize)
        ensures
            r == self.spec_size(),
    {
        match self {
            UniformType::Float1 => 4,
            UniformType::Float2 => 8,
            UniformType::Float3 => 12,
            UniformType::Float4 => 16,
            UniformType::Int1 => 4,
            UniformType::Int2 => 8,
            UniformType::Int3 => 12,
            UniformType::Int4 => 16,
            UniformType::Mat4 => 64,
        }
    }
}

/// The ghost image of one uniform declaration.
pub struct UniformDescV {
    pub name: Seq<char>,
    pub uniform_type: UniformType,
    pub array_count: nat,
}

/// One named uniform in the block, with its type and array length.
#[derive(Debug)]
pub struct UniformDesc {
    pub name: String,
    pub uniform_type: UniformType,
    pub array_count: usize,
}

impl View for UniformDesc {
    type V = UniformDescV;

    open spec fn view(&self) -> UniformDescV {
        UniformDescV {
            name: self.name@,
            uniform_type: self.uniform_type,
            array_count: self.array_count as nat,
        }
    }
}

impl UniformDesc {
    /// A scalar (non-array) uniform declaration.
    pub fn new(name: &str, uniform_type: UniformType) -> (r: UniformDesc)
        ensures
            r@.name == name@,
            r@.uniform_type == uniform_type,
            r@.array_count == 1,
    {
        UniformDesc { name: name.to_owned(), uniform_type, array_count: 1 }
    }

    /// The same declaration as an array of `array_count` elements.
    pub fn array(self, array_count: usize) -> (r: UniformDesc)
        ensures
            r@.name == self@.name,
            r@.uniform_type == self@.uniform_type,
            r@.array_count == array_count,
    {
        UniformDesc { array_count, ..self }
    }
}

/// The ordered uniforms of the single uniform block.
#[derive(Debug)]
pub struct UniformBlockLayout {
    pub uniforms: Vec<UniformDesc>,
}

/// The ghost image of a whole metadata description.
pub struct ShaderMetaV {
    pub images: Seq<Seq<char>>,
    pub uniforms: Seq<UniformDescV>,
}

/// The binding contract between shader source text and the emitters:
/// ordered texture binding names and the ordered uniform block.
#[derive(Debug)]
pub struct ShaderMeta {
    pub images: Vec<String>,
    pub uniforms: UniformBlockLayout,
}

impl View for ShaderMeta {
    type V = ShaderMetaV;

    open spec fn view(&self) -> ShaderMetaV {
        ShaderMetaV {
            images: self.images.deep_view(),
            uniforms: Seq::new(
                self.uniforms.uniforms@.len(),
                |i: int| self.uniforms.uniforms@[i]@,
            ),
        }
    }
}

} // verus!
