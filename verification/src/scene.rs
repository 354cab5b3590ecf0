//! The per-frame draw-call orchestrator and the scene it draws: models
//! with nodes, materials and transforms, shadow casters, and the fixed
//! command sequence of one frame.
//!
//! All vector, quaternion and matrix values are carried as IEEE-754 bit
//! patterns (`u32` words): the arithmetic on them — transforms, frustum
//! plane tests, cascade fitting — is floating point and happens in the
//! host layer, which hands its results in through [`FrameParams`].  What
//! is decided here, and proved, is the sequencing: which models are
//! drawn, with which bindings, and with exactly which uniform bytes.

use vstd::prelude::*;

use crate::shader::{
    base_reqs, find_uniform, layout_end, layout_from, write_bytes, Shader, UniformV,
};

verus! {

/// A three-component float vector, as bit patterns.
pub type Vec3B = [u32; 3];

/// A four-component float vector, as bit patterns.
pub type Vec4B = [u32; 4];

/// A quaternion, as bit patterns.
pub type QuatB = [u32; 4];

/// A 4x4 matrix, as bit patterns in column order.
pub type Mat4B = [u32; 16];

/// The bit pattern of the float one.
pub const ONE_BITS: u32 = 0x3f80_0000;

/// How a shadow caster splits its depth range into cascades.
#[derive(Clone, Copy, Debug, PartialEq, Eq, Structural)]
pub enum ShadowSplit {
    Orthogonal,
    PSSM2,
    PSSM4,
}

/// How many cascades a split mode renders.
pub open spec fn split_count(s: ShadowSplit) -> int {
    match s {
        ShadowSplit::Orthogonal => 1,
        ShadowSplit::PSSM2 => 2,
        ShadowSplit::PSSM4 => 4,
    }
}

/// One registered shadow caster: a light direction and its split mode.
#[derive(Clone, Copy, Debug, PartialEq, Eq)]
pub struct ShadowCaster {
    pub direction: Vec3B,
    pub split: ShadowSplit,
}

/// A local transform: translation, scale and rotation.
#[derive(Clone, Copy, Debug, PartialEq, Eq)]
pub struct Transform {
    pub translation: Vec3B,
    pub scale: Vec3B,
    pub rotation: QuatB,
}

impl Default for Transform {
    /// The identity transform: zero translation, unit scale, identity
    /// rotation.
    fn default() -> (r: Transform)
        ensures
            r.translation == [0u32, 0u32, 0u32],
            r.scale == [ONE_BITS, ONE_BITS, ONE_BITS],
            r.rotation == [0u32, 0u32, 0u32, ONE_BITS],
    {
        Transform {
            translation: [0, 0, 0],
            scale: [ONE_BITS, ONE_BITS, ONE_BITS],
            rotation: [0, 0, 0, ONE_BITS],
        }
    }
}

/// An axis-aligned bounding box, corners as bit patterns.
#[derive(Clone, Copy, Debug, PartialEq, Eq)]
pub struct AABB {
    pub min: Vec3B,
    pub max: Vec3B,
}

/// One node's GPU geometry: its vertex buffers and index buffer.
#[derive(Debug)]
pub struct NodeData {
    pub vertex_buffers: Vec<u64>,
    pub index_buffer: u64,
}

/// One material: base colour, optional textures, surface parameters and
/// the compiled shader whose uniform buffer each draw fills.
#[derive(Debug)]
pub struct Material2 {
    pub color: Vec4B,
    pub base_color_texture: Option<u64>,
    pub emissive_texture: Option<u64>,
    pub normal_texture: Option<u64>,
    pub occlusion_texture: Option<u64>,
    pub metallic_roughness_texture: Option<u64>,
    pub metallic: u32,
    pub roughness: u32,
    pub shader: Shader,
}

/// One node of a model.
#[derive(Debug)]
pub struct Node {
    pub name: String,
    pub data: Vec<NodeData>,
    pub materials: Vec<Material2>,
    pub transform: Transform,
}

/// A loaded model: its nodes and its local bounding box.
#[derive(Debug)]
pub struct Model {
    pub nodes: Vec<Node>,
    pub aabb: AABB,
}

/// A model placed in the scene, with its world transform and the world
/// bounding box recomputed whenever the transform changes.
#[derive(Debug)]
pub struct Model2 {
    pub model: Model,
    pub transform: Transform,
    pub world_aabb: AABB,
}

/// A handle to one placed model.
#[derive(Clone, Debug)]
pub struct ModelHandle(pub usize);

/// What the camera clears to, or draws behind everything.
#[derive(Clone, Copy, Debug, PartialEq, Eq)]
pub enum Environment {
    SolidColor(Vec4B),
    Skybox(u64),
}

/// The frustum test results for one model: for each of the six camera
/// clip planes, whether the model's world box lies entirely outside it.
#[derive(Clone, Copy, Debug, PartialEq, Eq)]
pub struct CullState {
    pub outside: [bool; 6],
}

/// Some plane fully excludes the model.
pub open spec fn cull_excluded(c: CullState) -> bool {
    c.outside[0] || c.outside[1] || c.outside[2] || c.outside[3] || c.outside[4] || c.outside[5]
}

/// The world and inverse-world matrices of one node, precomputed by the
/// host's float layer.
#[derive(Clone, Copy, Debug, PartialEq, Eq)]
pub struct NodeMat {
    pub model: Mat4B,
    pub model_inverse: Mat4B,
}

/// Everything one frame's colour pass needs from the host: the camera's
/// combined matrix and position, the environment, the render target, the
/// shadow pass's outputs, and per-model frustum results and matrices.
#[derive(Debug)]
pub struct FrameParams {
    pub projection: Mat4B,
    pub camera_position: Vec3B,
    pub environment: Environment,
    pub render_pass: Option<u64>,
    pub shadow_proj: [Mat4B; 4],
    pub shadow_cascades: Vec4B,
    pub shadowmap: [u64; 4],
    pub culls: Vec<CullState>,
    pub matrices: Vec<Vec<NodeMat>>,
}

// ---------------------------------------------------------------------
// byte encoding of uniform values
// ---------------------------------------------------------------------
/// The four little-endian bytes of one word.
pub open spec fn u32le(x: u32) -> Seq<u8> {
    seq![
        (x & 0xff) as u8,
        ((x >> 8) & 0xff) as u8,
        ((x >> 16) & 0xff) as u8,
        ((x >> 24) & 0xff) as u8,
    ]
}

/// The little-endian bytes of a word sequence.
pub open spec fn words_bytes(ws: Seq<u32>) -> Seq<u8>
    decreases ws.len(),
{
    if ws.len() == 0 {
        Seq::empty()
    } else {
        words_bytes(ws.drop_last()) + u32le(ws.last())
    }
}

/// Appends the little-endian bytes of the given words.
pub fn push_words_bytes(out: &mut Vec<u8>, ws: &[u32])
    ensures
        final(out)@ == old(out)@ + words_bytes(ws@),
{
    let mut i: usize = 0;
    proof {
        assert(old(out)@ + words_bytes(ws@.subrange(0, 0)) =~= old(out)@);
    }
    while i < ws.len()
        invariant
            i <= ws.len(),
            out@ == old(out)@ + words_bytes(ws@.subrange(0, i as int)),
        decreases ws.len() - i,
    {
        let w = ws[i];
        out.push((w & 0xff) as u8);
        out.push(((w >> 8) & 0xff) as u8);
        out.push(((w >> 16) & 0xff) as u8);
        out.push(((w >> 24) & 0xff) as u8);
        i = i + 1;
        proof {
            assert(ws@.subrange(0, i as int).drop_last() =~= ws@.subrange(0, i - 1));
            assert(out@ =~= old(out)@ + words_bytes(ws@.subrange(0, i as int)));
        }
    }
    proof {
        assert(ws@.subrange(0, ws@.len() as int) =~= ws@);
    }
}

/// The little-endian bytes of the given words.
pub fn words_to_bytes(ws: &[u32]) -> (r: Vec<u8>)
    ensures
        r@ == words_bytes(ws@),
{
    let mut out: Vec<u8> = Vec::new();
    push_words_bytes(&mut out, ws);
    out
}

/// Word lengths compose: so many words give four times as many bytes.
pub proof fn lemma_words_bytes_len(ws: Seq<u32>)
    ensures
        words_bytes(ws).len() == 4 * ws.len(),
    decreases ws.len(),
{
    if ws.len() > 0 {
        lemma_words_bytes_len(ws.drop_last());
    }
}

/// The bit pattern of a signed word, as `as u32` reinterprets it.
pub open spec fn i32_bits(x: int) -> u32 {
    if x >= 0 {
        x as u32
    } else {
        (x + 0x1_0000_0000) as u32
    }
}

/// The sixteen bytes of the `ShadowCasters` uniform: caster count, split
/// count, and two zero words, each as a little-endian signed word.
pub open spec fn casters_bytes(count: int, split: int) -> Seq<u8> {
    u32le(i32_bits(count)) + u32le(i32_bits(split)) + u32le(0) + u32le(0)
}

/// The sixteen bytes of the `ShadowCasters` uniform.
pub fn casters_to_bytes(count: i32, split: i32) -> (r: Vec<u8>)
    ensures
        r@ == casters_bytes(count as int, split as int),
{
    let w0: u32 = if count >= 0 {
        count as u32
    } else {
        ((count as i64) + 0x1_0000_0000i64) as u32
    };
    let w1: u32 = if split >= 0 {
        split as u32
    } else {
        ((split as i64) + 0x1_0000_0000i64) as u32
    };
    proof {
        assert(w0 == i32_bits(count as int));
        assert(w1 == i32_bits(split as int));
    }
    let ws: [u32; 4] = [w0, w1, 0, 0];
    let r = words_to_bytes(ws.as_slice());
    proof {
        assert(ws@ =~= seq![w0, w1, 0u32, 0u32]);
        assert(ws@.drop_last() =~= seq![w0, w1, 0u32]);
        assert(seq![w0, w1, 0u32].drop_last() =~= seq![w0, w1]);
        assert(seq![w0, w1].drop_last() =~= seq![w0]);
        assert(seq![w0].drop_last() =~= Seq::<u32>::empty());
        assert(words_bytes(seq![w0]) == words_bytes(Seq::<u32>::empty()) + u32le(w0));
        assert(words_bytes(seq![w0, w1]) == words_bytes(seq![w0]) + u32le(w1));
        assert(words_bytes(seq![w0, w1, 0u32]) == words_bytes(seq![w0, w1]) + u32le(0));
        assert(words_bytes(seq![w0, w1, 0u32, 0u32]) == words_bytes(seq![w0, w1, 0u32]) + u32le(
            0,
        ));
        assert(r@ =~= casters_bytes(count as int, split as int));
    }
    r
}

// ---------------------------------------------------------------------
// the scene container
// ---------------------------------------------------------------------
/// The scene: placed models, registered shadow casters, and the two
/// fallback textures draws substitute for missing material textures.
#[derive(Debug)]
pub struct Scene {
    pub models: Vec<Model2>,
    pub shadow_casters: Vec<ShadowCaster>,
    pub white_texture: u64,
    pub black_texture: u64,
}

impl Scene {
    /// An empty scene over the given fallback textures.
    pub fn new(white_texture: u64, black_texture: u64) -> (r: Scene)
        ensures
            r.models@.len() == 0,
            r.shadow_casters@.len() == 0,
            r.white_texture == white_texture,
            r.black_texture == black_texture,
    {
        Scene { models: Vec::new(), shadow_casters: Vec::new(), white_texture, black_texture }
    }

    /// Registers a shadow caster.
    pub fn add_shadow_caster(&mut self, shadow_caster: ShadowCaster)
        ensures
            final(self).shadow_casters@ == old(self).shadow_casters@.push(shadow_caster),
            final(self).models == old(self).models,
            final(self).white_texture == old(self).white_texture,
            final(self).black_texture == old(self).black_texture,
    {
        self.shadow_casters.push(shadow_caster);
    }

    /// Places a model in the scene under the identity transform; its
    /// world box starts as its local box.
    pub fn add_model(&mut self, model: Model) -> (h: ModelHandle)
        ensures
            h.0 == old(self).models@.len(),
            final(self).models@.len() == old(self).models@.len() + 1,
            forall|i: int|
                0 <= i < old(self).models@.len() ==> final(self).models@[i]
                    == old(self).models@[i],
            final(self).models@.last().transform == (Transform {
                translation: [0u32, 0u32, 0u32],
                scale: [ONE_BITS, ONE_BITS, ONE_BITS],
                rotation: [0u32, 0u32, 0u32, ONE_BITS],
            }),
            final(self).models@.last().world_aabb == model.aabb,
            final(self).models@.last().model == model,
            final(self).shadow_casters == old(self).shadow_casters,
            final(self).white_texture == old(self).white_texture,
            final(self).black_texture == old(self).black_texture,
    {
        let aabb = model.aabb;
        let h = ModelHandle(self.models.len());
        self.models.push(
            Model2 {
                model,
                transform: Transform {
                    translation: [0, 0, 0],
                    scale: [ONE_BITS, ONE_BITS, ONE_BITS],
                    rotation: [0, 0, 0, ONE_BITS],
                },
                world_aabb: aabb,
            },
        );
        h
    }

    /// The model's current world bounding box.
    pub fn aabb(&self, h: &ModelHandle) -> (r: AABB)
        requires
            h.0 < self.models@.len(),
        ensures
            r == self.models@[h.0 as int].world_aabb,
    {
        self.models[h.0].world_aabb
    }

    /// Moves the model; the world box recomputed by the host's float
    /// layer is stored with it.
    pub fn set_translation(&mut self, h: &ModelHandle, pos: Vec3B, world_aabb: AABB)
        requires
            h.0 < old(self).models@.len(),
        ensures
            final(self).models@.len() == old(self).models@.len(),
            final(self).models@[h.0 as int].transform.translation == pos,
            final(self).models@[h.0 as int].transform.scale == old(self).models@[h.0 as int].transform.scale,
            final(self).models@[h.0 as int].transform.rotation == old(self).models@[h.0 as int].transform.rotation,
            final(self).models@[h.0 as int].world_aabb == world_aabb,
            final(self).models@[h.0 as int].model == old(self).models@[h.0 as int].model,
            forall|i: int|
                0 <= i < old(self).models@.len() && i != h.0 ==> final(self).models@[i] == old(
                    self,
                ).models@[i],
            final(self).shadow_casters == old(self).shadow_casters,
            final(self).white_texture == old(self).white_texture,
            final(self).black_texture == old(self).black_texture,
    {
        let m = &mut self.models[h.0];
        m.transform.translation = pos;
        m.world_aabb = world_aabb;
    }

    /// Rotates the model; the recomputed world box is stored with it.
    pub fn set_rotation(&mut self, h: &ModelHandle, rotation: QuatB, world_aabb: AABB)
        requires
            h.0 < old(self).models@.len(),
        ensures
            final(self).models@.len() == old(self).models@.len(),
            final(self).models@[h.0 as int].transform.rotation == rotation,
            final(self).models@[h.0 as int].transform.scale == old(self).models@[h.0 as int].transform.scale,
            final(self).models@[h.0 as int].transform.translation == old(self).models@[h.0 as int].transform.translation,
            final(self).models@[h.0 as int].world_aabb == world_aabb,
            final(self).models@[h.0 as int].model == old(self).models@[h.0 as int].model,
            forall|i: int|
                0 <= i < old(self).models@.len() && i != h.0 ==> final(self).models@[i] == old(
                    self,
                ).models@[i],
            final(self).shadow_casters == old(self).shadow_casters,
            final(self).white_texture == old(self).white_texture,
            final(self).black_texture == old(self).black_texture,
    {
        let m = &mut self.models[h.0];
        m.transform.rotation = rotation;
        m.world_aabb = world_aabb;
    }

    /// Scales the model; the recomputed world box is stored with it.
    pub fn set_scale(&mut self, h: &ModelHandle, scale: Vec3B, world_aabb: AABB)
        requires
            h.0 < old(self).models@.len(),
        ensures
            final(self).models@.len() == old(self).models@.len(),
            final(self).models@[h.0 as int].transform.scale == scale,
            final(self).models@[h.0 as int].transform.rotation == old(self).models@[h.0 as int].transform.rotation,
            final(self).models@[h.0 as int].transform.translation == old(self).models@[h.0 as int].transform.translation,
            final(self).models@[h.0 as int].world_aabb == world_aabb,
            final(self).models@[h.0 as int].model == old(self).models@[h.0 as int].model,
            forall|i: int|
                0 <= i < old(self).models@.len() && i != h.0 ==> final(self).models@[i] == old(
                    self,
                ).models@[i],
            final(self).shadow_casters == old(self).shadow_casters,
            final(self).white_texture == old(self).white_texture,
            final(self).black_texture == old(self).black_texture,
    {
        let m = &mut self.models[h.0];
        m.transform.scale = scale;
        m.world_aabb = world_aabb;
    }

    /// The model's current translation.
    pub fn translation(&self, h: &ModelHandle) -> (r: Vec3B)
        requires
            h.0 < self.models@.len(),
        ensures
            r == self.models@[h.0 as int].transform.translation,
    {
        self.models[h.0].transform.translation
    }

    /// The model's current rotation.
    pub fn rotation(&self, h: &ModelHandle) -> (r: QuatB)
        requires
            h.0 < self.models@.len(),
        ensures
            r == self.models@[h.0 as int].transform.rotation,
    {
        self.models[h.0].transform.rotation
    }

    /// Clears the screen to one colour: a pass that begins with the
    /// clear and ends at once.
    pub fn clear(&self, color: Vec4B) -> (cmds: Vec<FrameCommand>)
        ensures
            cmds_view(cmds@) == seq![
                FrameCommandV::BeginPass { render_pass: None, clear_color: Some(color) },
                FrameCommandV::EndPass,
            ],
    {
        let mut cmds: Vec<FrameCommand> = Vec::new();
        cmds.push(FrameCommand::BeginPass { render_pass: None, clear_color: Some(color) });
        cmds.push(FrameCommand::EndPass);
        proof {
            assert(cmds_view(cmds@) =~= seq![
                FrameCommandV::BeginPass { render_pass: None, clear_color: Some(color) },
                FrameCommandV::EndPass,
            ]);
        }
        cmds
    }

    /// What the shadow pass will render, decided from the first
    /// registered caster: its direction and its cascade count —
    /// one for an orthogonal split, two for PSSM2, four for PSSM4 —
    /// or nothing when no caster is registered.
    pub fn shadow_plan(&self) -> (r: Option<(ShadowCaster, u32)>)
        ensures
            self.shadow_casters@.len() == 0 ==> r is None,
            self.shadow_casters@.len() > 0 ==> r == Some(
                (self.shadow_casters@[0], split_count(self.shadow_casters@[0].split) as u32),
            ),
    {
        if self.shadow_casters.len() == 0 {
            None
        } else {
            let c = self.shadow_casters[0];
            let n: u32 = match c.split {
                ShadowSplit::Orthogonal => 1,
                ShadowSplit::PSSM2 => 2,
                ShadowSplit::PSSM4 => 4,
            };
            Some((c, n))
        }
    }
}

// ---------------------------------------------------------------------
// frame commands
// ---------------------------------------------------------------------
/// The ghost image of one backend command.
pub enum FrameCommandV {
    DrawSkybox { cubemap: u64 },
    BeginPass { render_pass: Option<u64>, clear_color: Option<Vec4B> },
    ApplyPipeline { pipeline: u64 },
    ApplyBindings { vertex_buffers: Seq<u64>, index_buffer: u64, images: Seq<u64> },
    ApplyUniforms { bytes: Seq<u8> },
    Draw { index_buffer: u64, instances_buffer: u64 },
    EndPass,
}

/// One backend command of a frame, in submission order.  The host layer
/// executes these against the GPU context; element counts of a draw come
/// from the backend's own buffer-size queries.
#[derive(Debug)]
pub enum FrameCommand {
    DrawSkybox { cubemap: u64 },
    BeginPass { render_pass: Option<u64>, clear_color: Option<Vec4B> },
    ApplyPipeline { pipeline: u64 },
    ApplyBindings { vertex_buffers: Vec<u64>, index_buffer: u64, images: [u64; 10] },
    ApplyUniforms { bytes: Vec<u8> },
    Draw { index_buffer: u64, instances_buffer: u64 },
    EndPass,
}

impl View for FrameCommand {
    type V = FrameCommandV;

    open spec fn view(&self) -> FrameCommandV {
        match self {
            FrameCommand::DrawSkybox { cubemap } => FrameCommandV::DrawSkybox { cubemap: *cubemap },
            FrameCommand::BeginPass { render_pass, clear_color } => FrameCommandV::BeginPass {
                render_pass: *render_pass,
                clear_color: *clear_color,
            },
            FrameCommand::ApplyPipeline { pipeline } => FrameCommandV::ApplyPipeline {
                pipeline: *pipeline,
            },
            FrameCommand::ApplyBindings { vertex_buffers, index_buffer, images } => (
            FrameCommandV::ApplyBindings {
                vertex_buffers: vertex_buffers@,
                index_buffer: *index_buffer,
                images: images@,
            }),
            FrameCommand::ApplyUniforms { bytes } => FrameCommandV::ApplyUniforms { bytes: bytes@ },
            FrameCommand::Draw { index_buffer, instances_buffer } => FrameCommandV::Draw {
                index_buffer: *index_buffer,
                instances_buffer: *instances_buffer,
            },
            FrameCommand::EndPass => FrameCommandV::EndPass,
        }
    }
}

/// The ghost image of a command list.
pub open spec fn cmds_view(s: Seq<FrameCommand>) -> Seq<FrameCommandV> {
    Seq::new(s.len(), |i: int| s[i]@)
}

// ---------------------------------------------------------------------
// the merged uniform upload
// ---------------------------------------------------------------------
/// A named write into the buffer, skipped when the table lacks the name.
pub open spec fn cond_write(us: Seq<UniformV>, data: Seq<u8>, name: Seq<char>, v: Seq<u8>) -> Seq<
    u8,
> {
    match find_uniform(us, name) {
        Some(u) => write_bytes(data, u.byte_offset, v, u.byte_size),
        None => data,
    }
}

/// The buffer after one draw's merged uniform upload: projection, the
/// four cascade projections, model and inverse-model matrices, base
/// colour, cascade distances, caster and split counts, surface
/// parameters and camera position, written in that order.
pub open spec fn uploaded_data(
    us: Seq<UniformV>,
    data0: Seq<u8>,
    projection: Mat4B,
    shadow_proj: [Mat4B; 4],
    nm: NodeMat,
    color: Vec4B,
    shadow_cascades: Vec4B,
    casters: int,
    split: int,
    metallic: u32,
    roughness: u32,
    campos: Vec3B,
) -> Seq<u8> {
    let d1 = cond_write(us, data0, "Projection"@, words_bytes(projection@));
    let d2 = cond_write(
        us,
        d1,
        "ShadowProjection"@,
        words_bytes(shadow_proj[0]@ + shadow_proj[1]@ + shadow_proj[2]@ + shadow_proj[3]@),
    );
    let d3 = cond_write(us, d2, "Model"@, words_bytes(nm.model@));
    let d4 = cond_write(us, d3, "ModelInverse"@, words_bytes(nm.model_inverse@));
    let d5 = cond_write(us, d4, "Color"@, words_bytes(color@));
    let d6 = cond_write(us, d5, "ShadowCascades"@, words_bytes(shadow_cascades@));
    let d7 = cond_write(us, d6, "ShadowCasters"@, casters_bytes(casters, split));
    let d8 = cond_write(us, d7, "Material"@, words_bytes(seq![metallic, roughness, 0u32, 0u32]));
    cond_write(us, d8, "CameraPosition"@, words_bytes(campos@))
}

/// The base uniforms are present in the table with their base sizes, so
/// each fixed-size value of the merged upload fits its entry.
pub open spec fn base_bound(us: Seq<UniformV>) -> bool {
    &&& find_uniform(us, "Projection"@) matches Some(u) && u.byte_size == 64
    &&& find_uniform(us, "ShadowProjection"@) matches Some(u) && u.byte_size == 256
    &&& find_uniform(us, "Model"@) matches Some(u) && u.byte_size == 64
    &&& find_uniform(us, "ModelInverse"@) matches Some(u) && u.byte_size == 64
    &&& find_uniform(us, "Color"@) matches Some(u) && u.byte_size == 16
    &&& find_uniform(us, "ShadowCascades"@) matches Some(u) && u.byte_size == 16
    &&& find_uniform(us, "ShadowCasters"@) matches Some(u) && u.byte_size == 16
    &&& find_uniform(us, "Material"@) matches Some(u) && u.byte_size == 16
    &&& find_uniform(us, "CameraPosition"@) matches Some(u) && u.byte_size == 12
}

/// Byte renderings compose over word concatenation.
pub proof fn lemma_words_bytes_concat(a: Seq<u32>, b: Seq<u32>)
    ensures
        words_bytes(a + b) == words_bytes(a) + words_bytes(b),
    decreases b.len(),
{
    if b.len() == 0 {
        assert(a + b =~= a);
        assert(words_bytes(a) + words_bytes(b) =~= words_bytes(a));
    } else {
        lemma_words_bytes_concat(a, b.drop_last());
        assert((a + b).drop_last() =~= a + b.drop_last());
        assert((a + b).len() > 0);
        assert((a + b).last() == b.last());
        assert(words_bytes(a + b) == words_bytes(a + b.drop_last()) + u32le(b.last()));
        assert(words_bytes(a) + (words_bytes(b.drop_last()) + u32le(b.last())) =~= (words_bytes(a)
            + words_bytes(b.drop_last())) + u32le(b.last()));
    }
}

/// Performs the merged uniform upload into one material's shader.
fn apply_material_uniforms(
    shader: &mut Shader,
    projection: &Mat4B,
    shadow_proj: &[Mat4B; 4],
    nm: &NodeMat,
    color: &Vec4B,
    shadow_cascades: &Vec4B,
    casters: i32,
    split: i32,
    metallic: u32,
    roughness: u32,
    campos: &Vec3B,
)
    requires
        crate::shader::shader_wf(old(shader)@),
        base_bound(old(shader)@.uniforms),
    ensures
        final(shader)@.shader == old(shader)@.shader,
        final(shader)@.pipeline == old(shader)@.pipeline,
        final(shader)@.uniforms == old(shader)@.uniforms,
        crate::shader::shader_wf(final(shader)@),
        base_bound(final(shader)@.uniforms),
        final(shader)@.uniforms_data == uploaded_data(
            old(shader)@.uniforms,
            old(shader)@.uniforms_data,
            *projection,
            *shadow_proj,
            *nm,
            *color,
            *shadow_cascades,
            casters as int,
            split as int,
            metallic,
            roughness,
            *campos,
        ),
{
    proof {
        lemma_words_bytes_len(projection@);
    }
    let v = words_to_bytes(projection.as_slice());
    shader.set_uniform("Projection", v.as_slice());
    let mut sp: Vec<u8> = Vec::new();
    push_words_bytes(&mut sp, shadow_proj[0].as_slice());
    push_words_bytes(&mut sp, shadow_proj[1].as_slice());
    push_words_bytes(&mut sp, shadow_proj[2].as_slice());
    push_words_bytes(&mut sp, shadow_proj[3].as_slice());
    proof {
        lemma_words_bytes_concat(shadow_proj@[0]@, shadow_proj@[1]@);
        lemma_words_bytes_concat(shadow_proj@[0]@ + shadow_proj@[1]@, shadow_proj@[2]@);
        lemma_words_bytes_concat(
            shadow_proj@[0]@ + shadow_proj@[1]@ + shadow_proj@[2]@,
            shadow_proj@[3]@,
        );
        lemma_words_bytes_len(
            shadow_proj@[0]@ + shadow_proj@[1]@ + shadow_proj@[2]@ + shadow_proj@[3]@,
        );
        assert(sp@ =~= words_bytes(
            shadow_proj@[0]@ + shadow_proj@[1]@ + shadow_proj@[2]@ + shadow_proj@[3]@,
        ));
    }
    shader.set_uniform("ShadowProjection", sp.as_slice());
    proof {
        lemma_words_bytes_len(nm.model@);
        lemma_words_bytes_len(nm.model_inverse@);
    }
    let v = words_to_bytes(nm.model.as_slice());
    shader.set_uniform("Model", v.as_slice());
    let v = words_to_bytes(nm.model_inverse.as_slice());
    shader.set_uniform("ModelInverse", v.as_slice());
    proof {
        lemma_words_bytes_len(color@);
    }
    let v = words_to_bytes(color.as_slice());
    shader.set_uniform("Color", v.as_slice());
    proof {
        lemma_words_bytes_len(shadow_cascades@);
    }
    let v = words_to_bytes(shadow_cascades.as_slice());
    shader.set_uniform("ShadowCascades", v.as_slice());
    let v = casters_to_bytes(casters, split);
    proof {
        lemma_words_bytes_len(seq![
            i32_bits(casters as int),
            i32_bits(split as int),
            0u32,
            0u32,
        ]);
        assert(casters_bytes(casters as int, split as int) =~= words_bytes(seq![
            i32_bits(casters as int),
            i32_bits(split as int),
            0u32,
            0u32,
        ])) by {
            let a = i32_bits(casters as int);
            let b = i32_bits(split as int);
            let ws = seq![a, b, 0u32, 0u32];
            assert(ws.drop_last() =~= seq![a, b, 0u32]);
            assert(seq![a, b, 0u32].drop_last() =~= seq![a, b]);
            assert(seq![a, b].drop_last() =~= seq![a]);
            assert(seq![a].drop_last() =~= Seq::<u32>::empty());
            assert(words_bytes(seq![a]) == words_bytes(Seq::<u32>::empty()) + u32le(a));
            assert(words_bytes(seq![a, b]) == words_bytes(seq![a]) + u32le(b));
            assert(words_bytes(seq![a, b, 0u32]) == words_bytes(seq![a, b]) + u32le(0));
            assert(words_bytes(ws) == words_bytes(seq![a, b, 0u32]) + u32le(0));
        }
    }
    shader.set_uniform("ShadowCasters", v.as_slice());
    let mats: [u32; 4] = [metallic, roughness, 0, 0];
    let v = words_to_bytes(mats.as_slice());
    proof {
        assert(mats@ =~= seq![metallic, roughness, 0u32, 0u32]);
        lemma_words_bytes_len(mats@);
    }
    shader.set_uniform("Material", v.as_slice());
    proof {
        lemma_words_bytes_len(campos@);
    }
    let v = words_to_bytes(campos.as_slice());
    shader.set_uniform("CameraPosition", v.as_slice());
}

// ---------------------------------------------------------------------
// the colour pass command sequence
// ---------------------------------------------------------------------
/// The texture bound for an optional material texture: the given texture,
/// or the fallback.
pub open spec fn or_tex(t: Option<u64>, fallback: u64) -> u64 {
    match t {
        Some(id) => id,
        None => fallback,
    }
}

/// The cubemap bound for the environment: the skybox texture, or white.
pub open spec fn env_cubemap(env: Environment, white: u64) -> u64 {
    match env {
        Environment::Skybox(c) => c,
        Environment::SolidColor(_) => white,
    }
}

/// The ten textures bound for one material, in the fixed binding order.
pub open spec fn images_of(
    m: &Material2,
    env: Environment,
    white: u64,
    black: u64,
    shadowmap: [u64; 4],
) -> Seq<u64> {
    seq![
        or_tex(m.base_color_texture, white),
        or_tex(m.emissive_texture, black),
        or_tex(m.occlusion_texture, white),
        or_tex(m.normal_texture, white),
        or_tex(m.metallic_roughness_texture, white),
        env_cubemap(env, white),
        shadowmap[0],
        shadowmap[1],
        shadowmap[2],
        shadowmap[3],
    ]
}

/// The four commands of one node-data/material pair: bind the pipeline,
/// bind buffers and textures, upload the merged uniforms, draw.
pub open spec fn pair_cmds(
    nd: &NodeData,
    m: &Material2,
    new_bytes: Seq<u8>,
    env: Environment,
    white: u64,
    black: u64,
    shadowmap: [u64; 4],
) -> Seq<FrameCommandV> {
    seq![
        FrameCommandV::ApplyPipeline { pipeline: m.shader.pipeline },
        FrameCommandV::ApplyBindings {
            vertex_buffers: nd.vertex_buffers@,
            index_buffer: nd.index_buffer,
            images: images_of(m, env, white, black, shadowmap),
        },
        FrameCommandV::ApplyUniforms { bytes: new_bytes },
        FrameCommandV::Draw {
            index_buffer: nd.index_buffer,
            instances_buffer: nd.vertex_buffers@[3],
        },
    ]
}

/// The merged upload of one pair, from the material's current buffer.
pub open spec fn pair_bytes(m: &Material2, fr: &FrameParams, nm: NodeMat, casters: int, split: int) -> Seq<
    u8,
> {
    uploaded_data(
        m.shader@.uniforms,
        m.shader@.uniforms_data,
        fr.projection,
        fr.shadow_proj,
        nm,
        m.color,
        fr.shadow_cascades,
        casters,
        split,
        m.metallic,
        m.roughness,
        fr.camera_position,
    )
}

/// How many data/material pairs a node draws.
pub open spec fn node_pairs(n: &Node) -> int {
    if n.data@.len() <= n.materials@.len() {
        n.data@.len() as int
    } else {
        n.materials@.len() as int
    }
}

/// The commands of one node from pair `k` on.
pub open spec fn node_cmds_from(
    n: &Node,
    k: int,
    nm: NodeMat,
    fr: &FrameParams,
    casters: int,
    split: int,
    white: u64,
    black: u64,
) -> Seq<FrameCommandV>
    decreases node_pairs(n) - k,
{
    if k < 0 || k >= node_pairs(n) {
        Seq::empty()
    } else {
        pair_cmds(
            &n.data@[k],
            &n.materials@[k],
            pair_bytes(&n.materials@[k], fr, nm, casters, split),
            fr.environment,
            white,
            black,
            fr.shadowmap,
        ) + node_cmds_from(n, k + 1, nm, fr, casters, split, white, black)
    }
}

/// The commands of one placed model from node `j` on.
pub open spec fn model_cmds_from(
    m: &Model2,
    j: int,
    mats: Seq<NodeMat>,
    fr: &FrameParams,
    casters: int,
    split: int,
    white: u64,
    black: u64,
) -> Seq<FrameCommandV>
    decreases m.model.nodes@.len() - j,
{
    if j < 0 || j >= m.model.nodes@.len() {
        Seq::empty()
    } else {
        node_cmds_from(&m.model.nodes@[j], 0, mats[j], fr, casters, split, white, black)
            + model_cmds_from(m, j + 1, mats, fr, casters, split, white, black)
    }
}

/// The commands of one placed model: nothing when a clip plane fully
/// excludes its world box, else its nodes' pair commands in order.
pub open spec fn model_cmds(
    m: &Model2,
    cull: CullState,
    mats: Seq<NodeMat>,
    fr: &FrameParams,
    casters: int,
    split: int,
    white: u64,
    black: u64,
) -> Seq<FrameCommandV> {
    if cull_excluded(cull) {
        Seq::empty()
    } else {
        model_cmds_from(m, 0, mats, fr, casters, split, white, black)
    }
}

/// The clear action of the colour pass: a solid-colour environment clears
/// to its colour; a skybox was already drawn, so nothing is cleared.
pub open spec fn clear_of(env: Environment) -> Option<Vec4B> {
    match env {
        Environment::SolidColor(c) => Some(c),
        Environment::Skybox(_) => None,
    }
}

/// The whole colour pass from model `i` on.
pub open spec fn frame_cmds_from(
    models: Seq<Model2>,
    i: int,
    fr: &FrameParams,
    casters: int,
    split: int,
    white: u64,
    black: u64,
) -> Seq<FrameCommandV>
    decreases models.len() - i,
{
    if i < 0 || i >= models.len() {
        Seq::empty()
    } else {
        model_cmds(&models[i], fr.culls@[i], fr.matrices@[i]@, fr, casters, split, white, black)
            + frame_cmds_from(models, i + 1, fr, casters, split, white, black)
    }
}

/// One material after the merged upload: everything as before but the
/// uniform buffer, which now holds the upload's bytes.
pub open spec fn mat_updated(
    o: &Material2,
    n: &Material2,
    fr: &FrameParams,
    nm: NodeMat,
    casters: int,
    split: int,
) -> bool {
    &&& n.color == o.color
    &&& n.base_color_texture == o.base_color_texture
    &&& n.emissive_texture == o.emissive_texture
    &&& n.normal_texture == o.normal_texture
    &&& n.occlusion_texture == o.occlusion_texture
    &&& n.metallic_roughness_texture == o.metallic_roughness_texture
    &&& n.metallic == o.metallic
    &&& n.roughness == o.roughness
    &&& n.shader@.shader == o.shader@.shader
    &&& n.shader@.pipeline == o.shader@.pipeline
    &&& n.shader@.uniforms == o.shader@.uniforms
    &&& n.shader@.uniforms_data == pair_bytes(o, fr, nm, casters, split)
}

/// One node after its draws: geometry untouched, each drawn pair's
/// material updated, the rest untouched.
pub open spec fn node_updated(
    o: &Node,
    n: &Node,
    nm: NodeMat,
    fr: &FrameParams,
    casters: int,
    split: int,
) -> bool {
    &&& n.name == o.name
    &&& n.data == o.data
    &&& n.transform == o.transform
    &&& n.materials@.len() == o.materials@.len()
    &&& forall|k: int|
        0 <= k < node_pairs(o) ==> mat_updated(
            &o.materials@[k],
            #[trigger] &n.materials@[k],
            fr,
            nm,
            casters,
            split,
        )
    &&& forall|k: int|
        node_pairs(o) <= k < o.materials@.len() ==> n.materials@[k] == o.materials@[k]
}

/// One placed model after its draws: untouched when culled away, else
/// every node updated.
pub open spec fn model_updated(
    o: &Model2,
    n: &Model2,
    cull: CullState,
    mats: Seq<NodeMat>,
    fr: &FrameParams,
    casters: int,
    split: int,
) -> bool {
    &&& n.transform == o.transform
    &&& n.world_aabb == o.world_aabb
    &&& n.model.aabb == o.model.aabb
    &&& n.model.nodes@.len() == o.model.nodes@.len()
    &&& if cull_excluded(cull) {
        n.model.nodes@ == o.model.nodes@
    } else {
        forall|j: int|
            0 <= j < o.model.nodes@.len() ==> node_updated(
                &o.model.nodes@[j],
                #[trigger] &n.model.nodes@[j],
                mats[j],
                fr,
                casters,
                split,
            )
    }
}

/// Every drawn pair of the model has a well-formed shader with the base
/// uniform table present, and its four vertex buffers in place.
pub open spec fn model_wf(m: &Model2) -> bool {
    forall|j: int, k: int|
        0 <= j < m.model.nodes@.len() && 0 <= k < node_pairs(&m.model.nodes@[j])
            ==> crate::shader::shader_wf((#[trigger] m.model.nodes@[j].materials@[k]).shader@)
            && base_bound(m.model.nodes@[j].materials@[k].shader@.uniforms)
            && m.model.nodes@[j].data@[k].vertex_buffers@.len() == 4
}

/// Draws one placed model: nothing when a clip plane fully excludes its
/// world box, else per node and per data/material pair one pipeline bind,
/// one buffer/texture bind, one merged uniform upload and one draw, the
/// uploads persisting in each material's buffer.
#[verifier::rlimit(100)]
pub fn draw_model(
    white_texture: u64,
    black_texture: u64,
    model: &mut Model2,
    fr: &FrameParams,
    cull: &CullState,
    mats: &Vec<NodeMat>,
    casters: i32,
    split: i32,
) -> (cmds: Vec<FrameCommand>)
    requires
        mats@.len() == old(model).model.nodes@.len(),
        model_wf(old(model)),
    ensures
        cmds_view(cmds@) == model_cmds(
            old(model),
            *cull,
            mats@,
            fr,
            casters as int,
            split as int,
            white_texture,
            black_texture,
        ),
        model_updated(old(model), final(model), *cull, mats@, fr, casters as int, split as int),
{
    let mut cmds: Vec<FrameCommand> = Vec::new();
    let excluded = cull.outside[0] || cull.outside[1] || cull.outside[2] || cull.outside[3]
        || cull.outside[4] || cull.outside[5];
    if excluded {
        proof {
            assert(cmds_view(cmds@) =~= Seq::<FrameCommandV>::empty());
        }
        return cmds;
    }
    let ghost om = *old(model);
    let nnodes = model.model.nodes.len();
    let mut j: usize = 0;
    while j < nnodes
        invariant
            !cull_excluded(*cull),
            nnodes == om.model.nodes@.len(),
            j <= nnodes,
            mats@.len() == om.model.nodes@.len(),
            model_wf(&om),
            model.transform == om.transform,
            model.world_aabb == om.world_aabb,
            model.model.aabb == om.model.aabb,
            model.model.nodes@.len() == om.model.nodes@.len(),
            forall|j2: int|
                0 <= j2 < j ==> node_updated(
                    &om.model.nodes@[j2],
                    #[trigger] &model.model.nodes@[j2],
                    mats@[j2],
                    fr,
                    casters as int,
                    split as int,
                ),
            forall|j2: int|
                j <= j2 < nnodes ==> model.model.nodes@[j2] == om.model.nodes@[j2],
            cmds_view(cmds@) + model_cmds_from(
                &om,
                j as int,
                mats@,
                fr,
                casters as int,
                split as int,
                white_texture,
                black_texture,
            ) == model_cmds_from(
                &om,
                0,
                mats@,
                fr,
                casters as int,
                split as int,
                white_texture,
                black_texture,
            ),
        decreases nnodes - j,
    {
        let ghost onode = om.model.nodes@[j as int];
        let npairs = if model.model.nodes[j].data.len() <= model.model.nodes[j].materials.len() {
            model.model.nodes[j].data.len()
        } else {
            model.model.nodes[j].materials.len()
        };
        proof {
            assert(model.model.nodes@[j as int] == onode);
            assert(npairs == node_pairs(&onode));
        }
        let mut k: usize = 0;
        while k < npairs
            invariant
                !cull_excluded(*cull),
                nnodes == om.model.nodes@.len(),
                j < nnodes,
                k <= npairs,
                mats@.len() == om.model.nodes@.len(),
                model_wf(&om),
                npairs == node_pairs(&om.model.nodes@[j as int]),
                model.transform == om.transform,
                model.world_aabb == om.world_aabb,
                model.model.aabb == om.model.aabb,
                model.model.nodes@.len() == om.model.nodes@.len(),
                forall|j2: int|
                    0 <= j2 < j ==> node_updated(
                        &om.model.nodes@[j2],
                        #[trigger] &model.model.nodes@[j2],
                        mats@[j2],
                        fr,
                        casters as int,
                        split as int,
                    ),
                forall|j2: int|
                    j < j2 < nnodes ==> model.model.nodes@[j2] == om.model.nodes@[j2],
                model.model.nodes@[j as int].name == om.model.nodes@[j as int].name,
                model.model.nodes@[j as int].data == om.model.nodes@[j as int].data,
                model.model.nodes@[j as int].transform == om.model.nodes@[j as int].transform,
                model.model.nodes@[j as int].materials@.len()
                    == om.model.nodes@[j as int].materials@.len(),
                forall|k2: int|
                    0 <= k2 < k ==> mat_updated(
                        &om.model.nodes@[j as int].materials@[k2],
                        #[trigger] &model.model.nodes@[j as int].materials@[k2],
                        fr,
                        mats@[j as int],
                        casters as int,
                        split as int,
                    ),
                forall|k2: int|
                    k <= k2 < om.model.nodes@[j as int].materials@.len()
                        ==> model.model.nodes@[j as int].materials@[k2]
                        == om.model.nodes@[j as int].materials@[k2],
                cmds_view(cmds@) + (node_cmds_from(
                    &om.model.nodes@[j as int],
                    k as int,
                    mats@[j as int],
                    fr,
                    casters as int,
                    split as int,
                    white_texture,
                    black_texture,
                ) + model_cmds_from(
                    &om,
                    j as int + 1,
                    mats@,
                    fr,
                    casters as int,
                    split as int,
                    white_texture,
                    black_texture,
                )) == model_cmds_from(
                    &om,
                    0,
                    mats@,
                    fr,
                    casters as int,
                    split as int,
                    white_texture,
                    black_texture,
                ),
            decreases npairs - k,
        {
            let ghost omat = om.model.nodes@[j as int].materials@[k as int];
            let ghost ond = om.model.nodes@[j as int].data@[k as int];
            proof {
                assert(model.model.nodes@[j as int].materials@[k as int] == omat);
                assert(model.model.nodes@[j as int].data@[k as int] == ond);
                assert(crate::shader::shader_wf(omat.shader@) && base_bound(omat.shader@.uniforms)
                    && ond.vertex_buffers@.len() == 4);
            }
            // bind the pipeline
            let pipeline = model.model.nodes[j].materials[k].shader.pipeline;
            cmds.push(FrameCommand::ApplyPipeline { pipeline });
            // bind buffers and textures
            let nd = &model.model.nodes[j].data[k];
            let mut vbs: Vec<u64> = Vec::new();
            vbs.push(nd.vertex_buffers[0]);
            vbs.push(nd.vertex_buffers[1]);
            vbs.push(nd.vertex_buffers[2]);
            vbs.push(nd.vertex_buffers[3]);
            proof {
                assert(vbs@ =~= ond.vertex_buffers@);
            }
            let index_buffer = nd.index_buffer;
            let instances_buffer = nd.vertex_buffers[3];
            let m = &model.model.nodes[j].materials[k];
            let cubemap: u64 = match fr.environment {
                Environment::Skybox(c) => c,
                Environment::SolidColor(_) => white_texture,
            };
            let images: [u64; 10] = [
                match m.base_color_texture {
                    Some(t) => t,
                    None => white_texture,
                },
                match m.emissive_texture {
                    Some(t) => t,
                    None => black_texture,
                },
                match m.occlusion_texture {
                    Some(t) => t,
                    None => white_texture,
                },
                match m.normal_texture {
                    Some(t) => t,
                    None => white_texture,
                },
                match m.metallic_roughness_texture {
                    Some(t) => t,
                    None => white_texture,
                },
                cubemap,
                fr.shadowmap[0],
                fr.shadowmap[1],
                fr.shadowmap[2],
                fr.shadowmap[3],
            ];
            proof {
                assert(images@ =~= images_of(
                    &omat,
                    fr.environment,
                    white_texture,
                    black_texture,
                    fr.shadowmap,
                ));
            }
            cmds.push(FrameCommand::ApplyBindings { vertex_buffers: vbs, index_buffer, images });
            // the merged uniform upload
            let nm = mats[j];
            let color = model.model.nodes[j].materials[k].color;
            let metallic = model.model.nodes[j].materials[k].metallic;
            let roughness = model.model.nodes[j].materials[k].roughness;
            apply_material_uniforms(
                &mut model.model.nodes[j].materials[k].shader,
                &fr.projection,
                &fr.shadow_proj,
                &nm,
                &color,
                &fr.shadow_cascades,
                casters,
                split,
                metallic,
                roughness,
                &fr.camera_position,
            );
            let bytes = clone_bytes(model.model.nodes[j].materials[k].shader.uniform_bytes());
            cmds.push(FrameCommand::ApplyUniforms { bytes });
            cmds.push(FrameCommand::Draw { index_buffer, instances_buffer });
            k = k + 1;
            proof {
                assert(mat_updated(
                    &omat,
                    &model.model.nodes@[j as int].materials@[k - 1],
                    fr,
                    mats@[j as int],
                    casters as int,
                    split as int,
                ));
                assert(node_cmds_from(
                    &om.model.nodes@[j as int],
                    k - 1,
                    mats@[j as int],
                    fr,
                    casters as int,
                    split as int,
                    white_texture,
                    black_texture,
                ) == pair_cmds(
                    &ond,
                    &omat,
                    pair_bytes(&omat, fr, mats@[j as int], casters as int, split as int),
                    fr.environment,
                    white_texture,
                    black_texture,
                    fr.shadowmap,
                ) + node_cmds_from(
                    &om.model.nodes@[j as int],
                    k as int,
                    mats@[j as int],
                    fr,
                    casters as int,
                    split as int,
                    white_texture,
                    black_texture,
                ));
                assert(cmds_view(cmds@) =~= cmds_view(cmds@.subrange(0, cmds@.len() - 4))
                    + pair_cmds(
                    &ond,
                    &omat,
                    pair_bytes(&omat, fr, mats@[j as int], casters as int, split as int),
                    fr.environment,
                    white_texture,
                    black_texture,
                    fr.shadowmap,
                ));
            }
        }
        j = j + 1;
        proof {
            assert(node_cmds_from(
                &om.model.nodes@[j - 1],
                npairs as int,
                mats@[j - 1],
                fr,
                casters as int,
                split as int,
                white_texture,
                black_texture,
            ) =~= Seq::<FrameCommandV>::empty());
            assert(model_cmds_from(
                &om,
                j - 1,
                mats@,
                fr,
                casters as int,
                split as int,
                white_texture,
                black_texture,
            ) == node_cmds_from(
                &om.model.nodes@[j - 1],
                0,
                mats@[j - 1],
                fr,
                casters as int,
                split as int,
                white_texture,
                black_texture,
            ) + model_cmds_from(
                &om,
                j as int,
                mats@,
                fr,
                casters as int,
                split as int,
                white_texture,
                black_texture,
            ));
            assert(node_updated(
                &om.model.nodes@[j - 1],
                &model.model.nodes@[j - 1],
                mats@[j - 1],
                fr,
                casters as int,
                split as int,
            ));
        }
    }
    proof {
        assert(model_cmds_from(
            &om,
            nnodes as int,
            mats@,
            fr,
            casters as int,
            split as int,
            white_texture,
            black_texture,
        ) =~= Seq::<FrameCommandV>::empty());
        assert(cmds_view(cmds@) + Seq::<FrameCommandV>::empty() =~= cmds_view(cmds@));
    }
    cmds
}

/// Well-formed inputs for one frame: one cull result and one matrix list
/// per model, one matrix per node, every drawn material's shader intact,
/// and a caster count within the signed-word range the uniform carries.
pub open spec fn frame_wf(models: Seq<Model2>, casters_len: nat, fr: &FrameParams) -> bool {
    &&& fr.culls@.len() == models.len()
    &&& fr.matrices@.len() == models.len()
    &&& forall|i: int|
        0 <= i < models.len() ==> (#[trigger] fr.matrices@[i])@.len()
            == models[i].model.nodes@.len()
    &&& forall|i: int| 0 <= i < models.len() ==> model_wf(#[trigger] &models[i])
    &&& casters_len < 0x8000_0000
}

impl Scene {
    /// What runs before the shadow pass: a skybox environment draws its
    /// backdrop first; a solid colour waits for the colour pass's clear.
    pub fn begin_frame(&self, environment: &Environment) -> (cmds: Vec<FrameCommand>)
        ensures
            cmds_view(cmds@) == (match *environment {
                Environment::Skybox(c) => seq![FrameCommandV::DrawSkybox { cubemap: c }],
                Environment::SolidColor(_) => Seq::<FrameCommandV>::empty(),
            }),
    {
        let mut cmds: Vec<FrameCommand> = Vec::new();
        match environment {
            Environment::Skybox(c) => {
                cmds.push(FrameCommand::DrawSkybox { cubemap: *c });
                proof {
                    assert(cmds_view(cmds@) =~= seq![
                        FrameCommandV::DrawSkybox { cubemap: environment->Skybox_0 },
                    ]);
                }
            },
            Environment::SolidColor(_) => {
                proof {
                    assert(cmds_view(cmds@) =~= Seq::<FrameCommandV>::empty());
                }
            },
        }
        cmds
    }

    /// The colour pass of one frame, in the fixed order: begin the pass
    /// (clearing only for a solid-colour environment), then for every
    /// registered model its culled or emitted draws, then end the pass.
    /// Every draw's merged uniform upload carries the caster count and
    /// the first caster's split count.
    pub fn draw(&mut self, fr: &FrameParams) -> (cmds: Vec<FrameCommand>)
        requires
            frame_wf(old(self).models@, old(self).shadow_casters@.len(), fr),
        ensures
            final(self).shadow_casters == old(self).shadow_casters,
            final(self).white_texture == old(self).white_texture,
            final(self).black_texture == old(self).black_texture,
            final(self).models@.len() == old(self).models@.len(),
            forall|i: int|
                0 <= i < old(self).models@.len() ==> model_updated(
                    &old(self).models@[i],
                    #[trigger] &final(self).models@[i],
                    fr.culls@[i],
                    fr.matrices@[i]@,
                    fr,
                    old(self).shadow_casters@.len() as int,
                    frame_split(old(self).shadow_casters@),
                ),
            cmds_view(cmds@) == seq![
                FrameCommandV::BeginPass {
                    render_pass: fr.render_pass,
                    clear_color: clear_of(fr.environment),
                },
            ] + frame_cmds_from(
                old(self).models@,
                0,
                fr,
                old(self).shadow_casters@.len() as int,
                frame_split(old(self).shadow_casters@),
                old(self).white_texture,
                old(self).black_texture,
            ) + seq![FrameCommandV::EndPass],
    {
        let casters: i32 = self.shadow_casters.len() as i32;
        let split: i32 = if self.shadow_casters.len() == 0 {
            0
        } else {
            match self.shadow_casters[0].split {
                ShadowSplit::Orthogonal => 1,
                ShadowSplit::PSSM2 => 2,
                ShadowSplit::PSSM4 => 4,
            }
        };
        let ghost oldm = old(self).models@;
        let white = self.white_texture;
        let black = self.black_texture;
        let mut cmds: Vec<FrameCommand> = Vec::new();
        let clear: Option<Vec4B> = match fr.environment {
            Environment::SolidColor(c) => Some(c),
            Environment::Skybox(_) => None,
        };
        cmds.push(FrameCommand::BeginPass { render_pass: fr.render_pass, clear_color: clear });
        let ghost begin = seq![
            FrameCommandV::BeginPass {
                render_pass: fr.render_pass,
                clear_color: clear_of(fr.environment),
            },
        ];
        proof {
            assert(cmds_view(cmds@) =~= begin);
        }
        let n = self.models.len();
        let mut i: usize = 0;
        while i < n
            invariant
                i <= n,
                n == oldm.len(),
                oldm == old(self).models@,
                frame_wf(oldm, old(self).shadow_casters@.len(), fr),
                casters as int == old(self).shadow_casters@.len() as int,
                split as int == frame_split(old(self).shadow_casters@),
                white == old(self).white_texture,
                black == old(self).black_texture,
                self.shadow_casters == old(self).shadow_casters,
                self.white_texture == old(self).white_texture,
                self.black_texture == old(self).black_texture,
                self.models@.len() == oldm.len(),
                forall|i2: int|
                    0 <= i2 < i ==> model_updated(
                        &oldm[i2],
                        #[trigger] &self.models@[i2],
                        fr.culls@[i2],
                        fr.matrices@[i2]@,
                        fr,
                        casters as int,
                        split as int,
                    ),
                forall|i2: int| i <= i2 < n ==> self.models@[i2] == oldm[i2],
                cmds_view(cmds@) + frame_cmds_from(
                    oldm,
                    i as int,
                    fr,
                    casters as int,
                    split as int,
                    white,
                    black,
                ) == begin + frame_cmds_from(
                    oldm,
                    0,
                    fr,
                    casters as int,
                    split as int,
                    white,
                    black,
                ),
            decreases n - i,
        {
            proof {
                assert(self.models@[i as int] == oldm[i as int]);
                assert(model_wf(&oldm[i as int]));
            }
            let cull = fr.culls[i];
            let ghost pre = cmds_view(cmds@);
            let mut part = draw_model(
                white,
                black,
                &mut self.models[i],
                fr,
                &cull,
                &fr.matrices[i],
                casters,
                split,
            );
            let ghost partv = cmds_view(part@);
            cmds.append(&mut part);
            i = i + 1;
            proof {
                assert(cmds_view(cmds@) =~= pre + partv);
                assert(frame_cmds_from(oldm, i - 1, fr, casters as int, split as int, white, black)
                    == partv + frame_cmds_from(
                    oldm,
                    i as int,
                    fr,
                    casters as int,
                    split as int,
                    white,
                    black,
                ));
                assert(cmds_view(cmds@) + frame_cmds_from(
                    oldm,
                    i as int,
                    fr,
                    casters as int,
                    split as int,
                    white,
                    black,
                ) =~= begin + frame_cmds_from(
                    oldm,
                    0,
                    fr,
                    casters as int,
                    split as int,
                    white,
                    black,
                ));
            }
        }
        cmds.push(FrameCommand::EndPass);
        proof {
            assert(frame_cmds_from(oldm, n as int, fr, casters as int, split as int, white, black)
                =~= Seq::<FrameCommandV>::empty());
            assert(cmds_view(cmds@) =~= begin + frame_cmds_from(
                oldm,
                0,
                fr,
                casters as int,
                split as int,
                white,
                black,
            ) + seq![FrameCommandV::EndPass]);
        }
        cmds
    }
}

/// The split count the merged upload carries: zero without a caster,
/// else the first caster's cascade count.
pub open spec fn frame_split(casters: Seq<ShadowCaster>) -> int {
    if casters.len() == 0 {
        0
    } else {
        split_count(casters[0].split)
    }
}

// ---------------------------------------------------------------------
// the frustum culling law
// ---------------------------------------------------------------------
/// The number of indexed draws in a command list.
pub open spec fn draw_count(s: Seq<FrameCommandV>) -> nat
    decreases s.len(),
{
    if s.len() == 0 {
        0
    } else {
        (match s[0] {
            FrameCommandV::Draw { .. } => 1nat,
            _ => 0nat,
        }) + draw_count(s.drop_first())
    }
}

proof fn lemma_draw_count_concat(a: Seq<FrameCommandV>, b: Seq<FrameCommandV>)
    ensures
        draw_count(a + b) == draw_count(a) + draw_count(b),
    decreases a.len(),
{
    if a.len() == 0 {
        assert(a + b =~= b);
    } else {
        lemma_draw_count_concat(a.drop_first(), b);
        assert((a + b).drop_first() =~= a.drop_first() + b);
        assert((a + b)[0] == a[0]);
    }
}

/// The data/material pairs a whole model draws when visible.
pub open spec fn model_pairs(m: &Model2) -> int
    decreases m.model.nodes@.len(),
{
    model_pairs_from(m, 0)
}

pub open spec fn model_pairs_from(m: &Model2, j: int) -> int
    decreases m.model.nodes@.len() - j,
{
    if j < 0 || j >= m.model.nodes@.len() {
        0
    } else {
        node_pairs(&m.model.nodes@[j]) + model_pairs_from(m, j + 1)
    }
}

proof fn lemma_node_draw_count(
    n: &Node,
    k: int,
    nm: NodeMat,
    fr: &FrameParams,
    casters: int,
    split: int,
    white: u64,
    black: u64,
)
    requires
        0 <= k <= node_pairs(n),
    ensures
        draw_count(node_cmds_from(n, k, nm, fr, casters, split, white, black)) == node_pairs(n)
            - k,
    decreases node_pairs(n) - k,
{
    if k < node_pairs(n) {
        lemma_node_draw_count(n, k + 1, nm, fr, casters, split, white, black);
        let pc = pair_cmds(
            &n.data@[k],
            &n.materials@[k],
            pair_bytes(&n.materials@[k], fr, nm, casters, split),
            fr.environment,
            white,
            black,
            fr.shadowmap,
        );
        lemma_draw_count_concat(
            pc,
            node_cmds_from(n, k + 1, nm, fr, casters, split, white, black),
        );
        assert(pc.drop_first() =~= pc.subrange(1, 4));
        assert(pc.subrange(1, 4).drop_first() =~= pc.subrange(2, 4));
        assert(pc.subrange(2, 4).drop_first() =~= pc.subrange(3, 4));
        assert(pc.subrange(3, 4).drop_first() =~= Seq::<FrameCommandV>::empty());
        assert(draw_count(Seq::<FrameCommandV>::empty()) == 0);
        assert(pc.subrange(3, 4)[0] == pc[3]);
        assert(pc.subrange(2, 4)[0] == pc[2]);
        assert(pc.subrange(1, 4)[0] == pc[1]);
        assert(draw_count(pc.subrange(3, 4)) == 1);
        assert(draw_count(pc.subrange(2, 4)) == 1);
        assert(draw_count(pc.subrange(1, 4)) == 1);
        assert(draw_count(pc) == 1);
    }
}

proof fn lemma_model_draw_count(
    m: &Model2,
    j: int,
    mats: Seq<NodeMat>,
    fr: &FrameParams,
    casters: int,
    split: int,
    white: u64,
    black: u64,
)
    requires
        0 <= j <= m.model.nodes@.len(),
    ensures
        draw_count(model_cmds_from(m, j, mats, fr, casters, split, white, black))
            == model_pairs_from(m, j),
    decreases m.model.nodes@.len() - j,
{
    if j < m.model.nodes@.len() {
        lemma_model_draw_count(m, j + 1, mats, fr, casters, split, white, black);
        lemma_node_draw_count(&m.model.nodes@[j], 0, mats[j], fr, casters, split, white, black);
        lemma_draw_count_concat(
            node_cmds_from(&m.model.nodes@[j], 0, mats[j], fr, casters, split, white, black),
            model_cmds_from(m, j + 1, mats, fr, casters, split, white, black),
        );
    }
}

/// Frustum culling is exact: a model whose world box lies entirely
/// outside any one of the six camera clip planes produces no command at
/// all — in particular zero draw calls — while a model inside or
/// straddling every plane produces exactly one indexed draw per
/// node-data/material pair.
pub proof fn lemma_frustum_culling(
    m: &Model2,
    cull: CullState,
    mats: Seq<NodeMat>,
    fr: &FrameParams,
    casters: int,
    split: int,
    white: u64,
    black: u64,
)
    ensures
        cull_excluded(cull) ==> model_cmds(m, cull, mats, fr, casters, split, white, black)
            == Seq::<FrameCommandV>::empty(),
        !cull_excluded(cull) ==> draw_count(
            model_cmds(m, cull, mats, fr, casters, split, white, black),
        ) == model_pairs(m),
{
    if !cull_excluded(cull) {
        lemma_model_draw_count(m, 0, mats, fr, casters, split, white, black);
    }
}

// ---------------------------------------------------------------------
// where the caster counts land in the buffer
// ---------------------------------------------------------------------
/// In a table built from the base set plus any extensions, the three
/// trailing base uniforms sit at their fixed offsets.
#[verifier::rlimit(100)]
#[verifier::spinoff_prover]
pub proof fn lemma_base_layout(ext: Seq<(Seq<char>, crate::meta::UniformType, nat)>)
    ensures
        find_uniform(layout_from(base_reqs() + ext, 0), "ShadowCasters"@) == Some(
            UniformV {
                name: "ShadowCasters"@,
                uniform_type: crate::meta::UniformType::Int4,
                byte_offset: 480,
                byte_size: 16,
            },
        ),
        find_uniform(layout_from(base_reqs() + ext, 0), "Material"@) == Some(
            UniformV {
                name: "Material"@,
                uniform_type: crate::meta::UniformType::Float4,
                byte_offset: 496,
                byte_size: 16,
            },
        ),
        find_uniform(layout_from(base_reqs() + ext, 0), "CameraPosition"@) == Some(
            UniformV {
                name: "CameraPosition"@,
                uniform_type: crate::meta::UniformType::Float3,
                byte_offset: 512,
                byte_size: 12,
            },
        ),
        layout_end(base_reqs() + ext, 0) >= 524,
        base_bound(layout_from(base_reqs() + ext, 0)),
{
    reveal_strlit("Projection");
    reveal_strlit("ShadowProjection");
    reveal_strlit("Model");
    reveal_strlit("ModelInverse");
    reveal_strlit("Color");
    reveal_strlit("ShadowCascades");
    reveal_strlit("ShadowCasters");
    reveal_strlit("Material");
    reveal_strlit("CameraPosition");
    assert("Projection"@.len() == 10);
    assert("ShadowProjection"@.len() == 16);
    assert("Model"@.len() == 5);
    assert("ModelInverse"@.len() == 12);
    assert("Color"@.len() == 5);
    assert("ShadowCascades"@.len() == 14);
    assert("ShadowCasters"@.len() == 13);
    assert("Material"@.len() == 8);
    assert("CameraPosition"@.len() == 14);
    assert("Model"@ != "Color"@) by {
        assert("Model"@[0] == 'M');
        assert("Color"@[0] == 'C');
    }
    let br = base_reqs();
    assert(br[0] == ("Projection"@, crate::meta::UniformType::Mat4, 1nat));
    assert(br[1] == ("ShadowProjection"@, crate::meta::UniformType::Mat4, 4nat));
    assert(br[2] == ("Model"@, crate::meta::UniformType::Mat4, 1nat));
    assert(br[3] == ("ModelInverse"@, crate::meta::UniformType::Mat4, 1nat));
    assert(br[4] == ("Color"@, crate::meta::UniformType::Float4, 1nat));
    assert(br[5] == ("ShadowCascades"@, crate::meta::UniformType::Float4, 1nat));
    assert(br[6] == ("ShadowCasters"@, crate::meta::UniformType::Int4, 1nat));
    assert(br[7] == ("Material"@, crate::meta::UniformType::Float4, 1nat));
    assert(br[8] == ("CameraPosition"@, crate::meta::UniformType::Float3, 1nat));
    assert(crate::shader::req_size(br[0]) == 64) by {
        assert(br[0].1.spec_size() == 64 && br[0].2 == 1);
        assert(br[0].1.spec_size() * br[0].2 == 64) by (nonlinear_arith)
            requires
                br[0].1.spec_size() == 64 && br[0].2 == 1,
        ;
    }
    assert(crate::shader::req_size(br[1]) == 256) by {
        assert(br[1].1.spec_size() == 64 && br[1].2 == 4);
        assert(br[1].1.spec_size() * br[1].2 == 256) by (nonlinear_arith)
            requires
                br[1].1.spec_size() == 64 && br[1].2 == 4,
        ;
    }
    assert(crate::shader::req_size(br[2]) == 64) by {
        assert(br[2].1.spec_size() == 64 && br[2].2 == 1);
        assert(br[2].1.spec_size() * br[2].2 == 64) by (nonlinear_arith)
            requires
                br[2].1.spec_size() == 64 && br[2].2 == 1,
        ;
    }
    assert(crate::shader::req_size(br[3]) == 64) by {
        assert(br[3].1.spec_size() == 64 && br[3].2 == 1);
        assert(br[3].1.spec_size() * br[3].2 == 64) by (nonlinear_arith)
            requires
                br[3].1.spec_size() == 64 && br[3].2 == 1,
        ;
    }
    assert(crate::shader::req_size(br[4]) == 16) by {
        assert(br[4].1.spec_size() == 16 && br[4].2 == 1);
        assert(br[4].1.spec_size() * br[4].2 == 16) by (nonlinear_arith)
            requires
                br[4].1.spec_size() == 16 && br[4].2 == 1,
        ;
    }
    assert(crate::shader::req_size(br[5]) == 16) by {
        assert(br[5].1.spec_size() == 16 && br[5].2 == 1);
        assert(br[5].1.spec_size() * br[5].2 == 16) by (nonlinear_arith)
            requires
                br[5].1.spec_size() == 16 && br[5].2 == 1,
        ;
    }
    assert(crate::shader::req_size(br[6]) == 16) by {
        assert(br[6].1.spec_size() == 16 && br[6].2 == 1);
        assert(br[6].1.spec_size() * br[6].2 == 16) by (nonlinear_arith)
            requires
                br[6].1.spec_size() == 16 && br[6].2 == 1,
        ;
    }
    assert(crate::shader::req_size(br[7]) == 16) by {
        assert(br[7].1.spec_size() == 16 && br[7].2 == 1);
        assert(br[7].1.spec_size() * br[7].2 == 16) by (nonlinear_arith)
            requires
                br[7].1.spec_size() == 16 && br[7].2 == 1,
        ;
    }
    assert(crate::shader::req_size(br[8]) == 12) by {
        assert(br[8].1.spec_size() == 12 && br[8].2 == 1);
        assert(br[8].1.spec_size() * br[8].2 == 12) by (nonlinear_arith)
            requires
                br[8].1.spec_size() == 12 && br[8].2 == 1,
        ;
    }
    let all = base_reqs() + ext;
    let a1 = all.drop_first();
    let a2 = a1.drop_first();
    let a3 = a2.drop_first();
    let a4 = a3.drop_first();
    let a5 = a4.drop_first();
    let a6 = a5.drop_first();
    let a7 = a6.drop_first();
    let a8 = a7.drop_first();
    let a9 = a8.drop_first();
    assert(all[0] == base_reqs()[0]);
    assert(a1 =~= base_reqs().drop_first() + ext);
    assert(a1[0] == base_reqs()[1]);
    assert(a2 =~= base_reqs().drop_first().drop_first() + ext);
    assert(a2[0] == base_reqs()[2]);
    assert(a3 =~= base_reqs().skip(3) + ext);
    assert(a3[0] == base_reqs()[3]);
    assert(a4 =~= base_reqs().skip(4) + ext);
    assert(a4[0] == base_reqs()[4]);
    assert(a5 =~= base_reqs().skip(5) + ext);
    assert(a5[0] == base_reqs()[5]);
    assert(a6 =~= base_reqs().skip(6) + ext);
    assert(a6[0] == base_reqs()[6]);
    assert(a7 =~= base_reqs().skip(7) + ext);
    assert(a7[0] == base_reqs()[7]);
    assert(a8 =~= base_reqs().skip(8) + ext);
    assert(a8[0] == base_reqs()[8]);
    assert(a9 =~= ext);
    let l0 = layout_from(all, 0);
    let l1 = layout_from(a1, 64);
    let l2 = layout_from(a2, 320);
    let l3 = layout_from(a3, 384);
    let l4 = layout_from(a4, 448);
    let l5 = layout_from(a5, 464);
    let l6 = layout_from(a6, 480);
    let l7 = layout_from(a7, 496);
    let l8 = layout_from(a8, 512);
    assert(l0.drop_first() =~= l1);
    assert(l1.drop_first() =~= l2);
    assert(l2.drop_first() =~= l3);
    assert(l3.drop_first() =~= l4);
    assert(l4.drop_first() =~= l5);
    assert(l5.drop_first() =~= l6);
    assert(l6.drop_first() =~= l7);
    assert(l7.drop_first() =~= l8);
    assert(l8.drop_first() =~= layout_from(a9, 524));
    assert(l0[0].name == "Projection"@);
    assert(l1[0].name == "ShadowProjection"@);
    assert(l2[0].name == "Model"@);
    assert(l3[0].name == "ModelInverse"@);
    assert(l4[0].name == "Color"@);
    assert(l5[0].name == "ShadowCascades"@);
    assert(l6[0].name == "ShadowCasters"@);
    assert(l7[0].name == "Material"@);
    assert(l8[0].name == "CameraPosition"@);
    assert(l0.len() > 0 && l1.len() > 0 && l2.len() > 0 && l3.len() > 0 && l4.len() > 0 && l5.len()
        > 0 && l6.len() > 0 && l7.len() > 0 && l8.len() > 0);
    assert(find_uniform(l6, "ShadowCasters"@) == Some(l6[0]));
    assert(find_uniform(l0, "ShadowCasters"@) == find_uniform(l1, "ShadowCasters"@));
    assert(find_uniform(l1, "ShadowCasters"@) == find_uniform(l2, "ShadowCasters"@));
    assert(find_uniform(l2, "ShadowCasters"@) == find_uniform(l3, "ShadowCasters"@));
    assert(find_uniform(l3, "ShadowCasters"@) == find_uniform(l4, "ShadowCasters"@));
    assert(find_uniform(l4, "ShadowCasters"@) == find_uniform(l5, "ShadowCasters"@));
    assert(find_uniform(l5, "ShadowCasters"@) == find_uniform(l6, "ShadowCasters"@));
    assert(find_uniform(l7, "Material"@) == Some(l7[0]));
    assert(find_uniform(l0, "Material"@) == find_uniform(l1, "Material"@));
    assert(find_uniform(l1, "Material"@) == find_uniform(l2, "Material"@));
    assert(find_uniform(l2, "Material"@) == find_uniform(l3, "Material"@));
    assert(find_uniform(l3, "Material"@) == find_uniform(l4, "Material"@));
    assert(find_uniform(l4, "Material"@) == find_uniform(l5, "Material"@));
    assert(find_uniform(l5, "Material"@) == find_uniform(l6, "Material"@));
    assert(find_uniform(l6, "Material"@) == find_uniform(l7, "Material"@));
    assert(find_uniform(l8, "CameraPosition"@) == Some(l8[0]));
    assert(find_uniform(l0, "CameraPosition"@) == find_uniform(l1, "CameraPosition"@));
    assert(find_uniform(l1, "CameraPosition"@) == find_uniform(l2, "CameraPosition"@));
    assert(find_uniform(l2, "CameraPosition"@) == find_uniform(l3, "CameraPosition"@));
    assert(find_uniform(l3, "CameraPosition"@) == find_uniform(l4, "CameraPosition"@));
    assert(find_uniform(l4, "CameraPosition"@) == find_uniform(l5, "CameraPosition"@));
    assert("ShadowCascades"@ != "CameraPosition"@) by {
        assert("ShadowCascades"@[0] == 'S');
        assert("CameraPosition"@[0] == 'C');
    }
    assert(find_uniform(l5, "CameraPosition"@) == find_uniform(l6, "CameraPosition"@));
    assert(find_uniform(l6, "CameraPosition"@) == find_uniform(l7, "CameraPosition"@));
    assert(find_uniform(l7, "CameraPosition"@) == find_uniform(l8, "CameraPosition"@));
    assert(find_uniform(l0, "Projection"@) == Some(l0[0]));
    assert(find_uniform(l1, "ShadowProjection"@) == Some(l1[0]));
    assert(find_uniform(l0, "ShadowProjection"@) == find_uniform(l1, "ShadowProjection"@));
    assert(find_uniform(l2, "Model"@) == Some(l2[0]));
    assert(find_uniform(l0, "Model"@) == find_uniform(l1, "Model"@));
    assert(find_uniform(l1, "Model"@) == find_uniform(l2, "Model"@));
    assert(find_uniform(l3, "ModelInverse"@) == Some(l3[0]));
    assert(find_uniform(l0, "ModelInverse"@) == find_uniform(l1, "ModelInverse"@));
    assert(find_uniform(l1, "ModelInverse"@) == find_uniform(l2, "ModelInverse"@));
    assert(find_uniform(l2, "ModelInverse"@) == find_uniform(l3, "ModelInverse"@));
    assert(find_uniform(l4, "Color"@) == Some(l4[0]));
    assert(find_uniform(l0, "Color"@) == find_uniform(l1, "Color"@));
    assert(find_uniform(l1, "Color"@) == find_uniform(l2, "Color"@));
    assert(find_uniform(l2, "Color"@) == find_uniform(l3, "Color"@));
    assert(find_uniform(l3, "Color"@) == find_uniform(l4, "Color"@));
    assert(find_uniform(l5, "ShadowCascades"@) == Some(l5[0]));
    assert(find_uniform(l0, "ShadowCascades"@) == find_uniform(l1, "ShadowCascades"@));
    assert(find_uniform(l1, "ShadowCascades"@) == find_uniform(l2, "ShadowCascades"@));
    assert(find_uniform(l2, "ShadowCascades"@) == find_uniform(l3, "ShadowCascades"@));
    assert(find_uniform(l3, "ShadowCascades"@) == find_uniform(l4, "ShadowCascades"@));
    assert(find_uniform(l4, "ShadowCascades"@) == find_uniform(l5, "ShadowCascades"@));
    assert(layout_end(all, 0) == layout_end(a1, 64));
    assert(layout_end(a1, 64) == layout_end(a2, 320));
    assert(layout_end(a2, 320) == layout_end(a3, 384));
    assert(layout_end(a3, 384) == layout_end(a4, 448));
    assert(layout_end(a4, 448) == layout_end(a5, 464));
    assert(layout_end(a5, 464) == layout_end(a6, 480));
    assert(layout_end(a6, 480) == layout_end(a7, 496));
    assert(layout_end(a7, 496) == layout_end(a8, 512));
    assert(layout_end(a8, 512) == layout_end(a9, 524));
    assert(layout_end(all, 0) == layout_end(a9, 524));
    crate::shader::lemma_layout_in_bounds(a9, 524);
}

/// What one caster with a given split mode leaves in every drawn
/// material's buffer: for a table built from the base set, the sixteen
/// bytes at the `ShadowCasters` offset of the merged upload encode
/// exactly the caster count and the split count, and no later write of
/// the upload disturbs them.
pub proof fn lemma_shadow_casters_visible(
    ext: Seq<(Seq<char>, crate::meta::UniformType, nat)>,
    data0: Seq<u8>,
    projection: Mat4B,
    shadow_proj: [Mat4B; 4],
    nm: NodeMat,
    color: Vec4B,
    shadow_cascades: Vec4B,
    casters: int,
    split: int,
    metallic: u32,
    roughness: u32,
    campos: Vec3B,
)
    requires
        data0.len() >= 524,
    ensures
        uploaded_data(
            layout_from(base_reqs() + ext, 0),
            data0,
            projection,
            shadow_proj,
            nm,
            color,
            shadow_cascades,
            casters,
            split,
            metallic,
            roughness,
            campos,
        ).subrange(480, 496) == casters_bytes(casters, split),
{
    lemma_base_layout(ext);
    let us = layout_from(base_reqs() + ext, 0);
    let d1 = cond_write(us, data0, "Projection"@, words_bytes(projection@));
    let d2 = cond_write(
        us,
        d1,
        "ShadowProjection"@,
        words_bytes(shadow_proj[0]@ + shadow_proj[1]@ + shadow_proj[2]@ + shadow_proj[3]@),
    );
    let d3 = cond_write(us, d2, "Model"@, words_bytes(nm.model@));
    let d4 = cond_write(us, d3, "ModelInverse"@, words_bytes(nm.model_inverse@));
    let d5 = cond_write(us, d4, "Color"@, words_bytes(color@));
    let d6 = cond_write(us, d5, "ShadowCascades"@, words_bytes(shadow_cascades@));
    let d7 = cond_write(us, d6, "ShadowCasters"@, casters_bytes(casters, split));
    let d8 = cond_write(us, d7, "Material"@, words_bytes(seq![metallic, roughness, 0u32, 0u32]));
    let d9 = cond_write(us, d8, "CameraPosition"@, words_bytes(campos@));
    assert(d1.len() == data0.len());
    assert(d2.len() == data0.len());
    assert(d3.len() == data0.len());
    assert(d4.len() == data0.len());
    assert(d5.len() == data0.len());
    assert(d6.len() == data0.len());
    assert(d7.len() == data0.len());
    assert(d8.len() == data0.len());
    assert(d9.len() == data0.len());
    let cb = casters_bytes(casters, split);
    assert(cb.len() == 16);
    assert(d7 == write_bytes(d6, 480, cb, 16));
    assert(forall|i: int| 480 <= i < 496 ==> d7[i] == cb[i - 480]);
    assert(forall|i: int| 480 <= i < 496 ==> d8[i] == d7[i]);
    assert(forall|i: int| 480 <= i < 496 ==> d9[i] == d8[i]);
    assert(d9.subrange(480, 496) =~= cb);
}

fn clone_bytes(v: &Vec<u8>) -> (r: Vec<u8>)
    ensures
        r@ == v@,
{
    let mut r: Vec<u8> = Vec::new();
    let mut i: usize = 0;
    while i < v.len()
        invariant
            i <= v.len(),
            r@ == v@.subrange(0, i as int),
        decreases v.len() - i,
    {
        r.push(v[i]);
        i = i + 1;
        assert(r@ =~= v@.subrange(0, i as int));
    }
    proof {
        assert(r@ =~= v@);
    }
    r
}

} // verus!
