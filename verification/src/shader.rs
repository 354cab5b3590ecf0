//! The runtime shader object: an ordered uniform table whose byte offsets
//! accumulate in declaration order, and the backing byte buffer uniform
//! values are written into before each draw.

use vstd::prelude::*;

use crate::meta::{ShaderMeta, UniformBlockLayout, UniformDesc, UniformType};

verus! {

/// The ghost image of one table entry.
pub struct UniformV {
    pub name: Seq<char>,
    pub uniform_type: UniformType,
    pub byte_offset: nat,
    pub byte_size: nat,
}

/// One entry of the uniform table: a name bound to an offset and size in
/// the backing buffer.
#[derive(Debug)]
pub struct Uniform {
    name: String,
    uniform_type: UniformType,
    byte_offset: usize,
    byte_size: usize,
}

impl View for Uniform {
    type V = UniformV;

    closed spec fn view(&self) -> UniformV {
        UniformV {
            name: self.name@,
            uniform_type: self.uniform_type,
            byte_offset: self.byte_offset as nat,
            byte_size: self.byte_size as nat,
        }
    }
}

/// One requested uniform: name, type and array count.
pub type UniformRequest = (String, UniformType, usize);

/// The ghost image of a requested uniform.
pub open spec fn req_view(r: UniformRequest) -> (Seq<char>, UniformType, nat) {
    (r.0@, r.1, r.2 as nat)
}

pub open spec fn reqs_view(rs: Seq<UniformRequest>) -> Seq<(Seq<char>, UniformType, nat)> {
    Seq::new(rs.len(), |i: int| req_view(rs[i]))
}

/// The byte size of one request: element size times array count.
pub open spec fn req_size(r: (Seq<char>, UniformType, nat)) -> nat {
    r.1.spec_size() * r.2
}

/// The uniform table laid out from `off` on: offsets accumulate in
/// declaration order, each entry's size being its type size times its
/// array count.
pub open spec fn layout_from(rs: Seq<(Seq<char>, UniformType, nat)>, off: nat) -> Seq<UniformV>
    decreases rs.len(),
{
    if rs.len() == 0 {
        Seq::empty()
    } else {
        seq![
            UniformV {
                name: rs[0].0,
                uniform_type: rs[0].1,
                byte_offset: off,
                byte_size: req_size(rs[0]),
            },
        ] + layout_from(rs.drop_first(), off + req_size(rs[0]))
    }
}

/// One past the last byte the table laid out from `off` uses.
pub open spec fn layout_end(rs: Seq<(Seq<char>, UniformType, nat)>, off: nat) -> nat
    decreases rs.len(),
{
    if rs.len() == 0 {
        off
    } else {
        layout_end(rs.drop_first(), off + req_size(rs[0]))
    }
}

/// Every entry of a layout lies within its end.
pub proof fn lemma_layout_in_bounds(rs: Seq<(Seq<char>, UniformType, nat)>, off: nat)
    ensures
        forall|k: int|
            0 <= k < layout_from(rs, off).len() ==> (#[trigger] layout_from(rs, off)[k]).byte_offset
                + layout_from(rs, off)[k].byte_size <= layout_end(rs, off),
        layout_from(rs, off).len() == rs.len(),
        off <= layout_end(rs, off),
    decreases rs.len(),
{
    if rs.len() > 0 {
        lemma_layout_in_bounds(rs.drop_first(), off + req_size(rs[0]));
        let l = layout_from(rs, off);
        let rest = layout_from(rs.drop_first(), off + req_size(rs[0]));
        assert forall|k: int| 0 <= k < l.len() implies (#[trigger] l[k]).byte_offset
            + l[k].byte_size <= layout_end(rs, off) by {
            if k > 0 {
                assert(l[k] == rest[k - 1]);
            }
        }
    }
}

/// The base uniform table every material shares, before its own
/// extensions: projection, four shadow-cascade projections, model and
/// inverse-model matrices, base colour, cascade distances, caster counts,
/// material parameters and the camera position.
pub open spec fn base_reqs() -> Seq<(Seq<char>, UniformType, nat)> {
    seq![
        ("Projection"@, UniformType::Mat4, 1nat),
        ("ShadowProjection"@, UniformType::Mat4, 4nat),
        ("Model"@, UniformType::Mat4, 1nat),
        ("ModelInverse"@, UniformType::Mat4, 1nat),
        ("Color"@, UniformType::Float4, 1nat),
        ("ShadowCascades"@, UniformType::Float4, 1nat),
        ("ShadowCasters"@, UniformType::Int4, 1nat),
        ("Material"@, UniformType::Float4, 1nat),
        ("CameraPosition"@, UniformType::Float3, 1nat),
    ]
}

/// The texture binding names and uniform block every material starts
/// from.
pub fn meta() -> (r: ShaderMeta)
    ensures
        r@.images =~= seq![
            "Albedo"@,
            "Emissive"@,
            "Occlusion"@,
            "Normal"@,
            "MetallicRoughness"@,
            "Environment"@,
            "ShadowMap0"@,
            "ShadowMap1"@,
            "ShadowMap2"@,
            "ShadowMap3"@,
        ],
        reqs_of_meta(r@.uniforms) =~= base_reqs(),
{
    let mut images: Vec<String> = Vec::new();
    images.push("Albedo".to_owned());
    images.push("Emissive".to_owned());
    images.push("Occlusion".to_owned());
    images.push("Normal".to_owned());
    images.push("MetallicRoughness".to_owned());
    images.push("Environment".to_owned());
    images.push("ShadowMap0".to_owned());
    images.push("ShadowMap1".to_owned());
    images.push("ShadowMap2".to_owned());
    images.push("ShadowMap3".to_owned());
    let mut uniforms: Vec<UniformDesc> = Vec::new();
    uniforms.push(UniformDesc::new("Projection", UniformType::Mat4));
    uniforms.push(UniformDesc::new("ShadowProjection", UniformType::Mat4).array(4));
    uniforms.push(UniformDesc::new("Model", UniformType::Mat4));
    uniforms.push(UniformDesc::new("ModelInverse", UniformType::Mat4));
    uniforms.push(UniformDesc::new("Color", UniformType::Float4));
    uniforms.push(UniformDesc::new("ShadowCascades", UniformType::Float4));
    uniforms.push(UniformDesc::new("ShadowCasters", UniformType::Int4));
    uniforms.push(UniformDesc::new("Material", UniformType::Float4));
    uniforms.push(UniformDesc::new("CameraPosition", UniformType::Float3));
    let r = ShaderMeta { images, uniforms: UniformBlockLayout { uniforms } };
    proof {
        assert(r@.images =~= seq![
            "Albedo"@,
            "Emissive"@,
            "Occlusion"@,
            "Normal"@,
            "MetallicRoughness"@,
            "Environment"@,
            "ShadowMap0"@,
            "ShadowMap1"@,
            "ShadowMap2"@,
            "ShadowMap3"@,
        ]);
    }
    r
}

/// The requests a metadata uniform block stands for.
pub open spec fn reqs_of_meta(us: Seq<crate::meta::UniformDescV>) -> Seq<
    (Seq<char>, UniformType, nat),
> {
    Seq::new(us.len(), |i: int| (us[i].name, us[i].uniform_type, us[i].array_count))
}

/// The bytes after writing `size` bytes of `v` at `off`.
pub open spec fn write_bytes(data: Seq<u8>, off: nat, v: Seq<u8>, size: nat) -> Seq<u8> {
    Seq::new(
        data.len(),
        |i: int| if off <= i < off + size {
            v[i - off]
        } else {
            data[i]
        },
    )
}

/// A uniform value written into the buffer can be read back from its
/// recorded offset and size exactly, and no byte outside that range
/// moves: writes never alias a neighbouring uniform.
pub proof fn lemma_set_uniform_roundtrip(data: Seq<u8>, off: nat, size: nat, v: Seq<u8>)
    requires
        off + size <= data.len(),
        size <= v.len(),
    ensures
        write_bytes(data, off, v, size).subrange(off as int, (off + size) as int) == v.subrange(
            0,
            size as int,
        ),
        forall|i: int| 0 <= i < off ==> write_bytes(data, off, v, size)[i] == data[i],
        forall|i: int|
            off + size <= i < data.len() ==> write_bytes(data, off, v, size)[i] == data[i],
{
    assert(write_bytes(data, off, v, size).subrange(off as int, (off + size) as int) =~= v.subrange(
        0,
        size as int,
    ));
}

/// The ghost image of a whole shader object.
pub struct ShaderV {
    pub shader: u64,
    pub pipeline: u64,
    pub uniforms: Seq<UniformV>,
    pub uniforms_data: Seq<u8>,
}

/// A compiled material shader: its backend handles, its uniform table and
/// the byte buffer holding current uniform values.
#[derive(Debug)]
pub struct Shader {
    pub shader: u64,
    pub pipeline: u64,
    pub uniforms: Vec<Uniform>,
    pub uniforms_data: Vec<u8>,
}

impl View for Shader {
    type V = ShaderV;

    closed spec fn view(&self) -> ShaderV {
        ShaderV {
            shader: self.shader,
            pipeline: self.pipeline,
            uniforms: Seq::new(self.uniforms@.len(), |i: int| self.uniforms@[i]@),
            uniforms_data: self.uniforms_data@,
        }
    }
}

/// Every table entry lies within the backing buffer.
pub open spec fn shader_wf(s: ShaderV) -> bool {
    forall|k: int|
        0 <= k < s.uniforms.len() ==> (#[trigger] s.uniforms[k]).byte_offset
            + s.uniforms[k].byte_size <= s.uniforms_data.len()
}

/// The first table entry carrying `name`, as a search from the front
/// finds it.
pub open spec fn find_uniform(us: Seq<UniformV>, name: Seq<char>) -> Option<UniformV>
    decreases us.len(),
{
    if us.len() == 0 {
        None
    } else if us[0].name == name {
        Some(us[0])
    } else {
        find_uniform(us.drop_first(), name)
    }
}

impl Shader {
    /// Builds the uniform table: the base set first, then the requested
    /// extensions, offsets accumulating in order; the backing buffer is
    /// zeroed and sized to the table's end.
    pub fn new(shader: u64, pipeline: u64, uniforms: Vec<UniformRequest>) -> (r: Shader)
        requires
            layout_end(base_reqs() + reqs_view(uniforms@), 0) <= usize::MAX,
        ensures
            r@.shader == shader,
            r@.pipeline == pipeline,
            r@.uniforms == layout_from(base_reqs() + reqs_view(uniforms@), 0),
            r@.uniforms_data == Seq::new(
                layout_end(base_reqs() + reqs_view(uniforms@), 0),
                |i: int| 0u8,
            ),
            shader_wf(r@),
    {
        let mut reqs: Vec<UniformRequest> = Vec::new();
        reqs.push(("Projection".to_owned(), UniformType::Mat4, 1));
        reqs.push(("ShadowProjection".to_owned(), UniformType::Mat4, 4));
        reqs.push(("Model".to_owned(), UniformType::Mat4, 1));
        reqs.push(("ModelInverse".to_owned(), UniformType::Mat4, 1));
        reqs.push(("Color".to_owned(), UniformType::Float4, 1));
        reqs.push(("ShadowCascades".to_owned(), UniformType::Float4, 1));
        reqs.push(("ShadowCasters".to_owned(), UniformType::Int4, 1));
        reqs.push(("Material".to_owned(), UniformType::Float4, 1));
        reqs.push(("CameraPosition".to_owned(), UniformType::Float3, 1));
        let mut i: usize = 0;
        proof {
            assert(reqs_view(reqs@) =~= base_reqs());
            assert(reqs_view(reqs@) + reqs_view(uniforms@).subrange(0, 0) =~= reqs_view(reqs@));
        }
        let ghost all = base_reqs() + reqs_view(uniforms@);
        while i < uniforms.len()
            invariant
                i <= uniforms.len(),
                all == base_reqs() + reqs_view(uniforms@),
                reqs_view(reqs@) == base_reqs() + reqs_view(uniforms@).subrange(0, i as int),
            decreases uniforms.len() - i,
        {
            let (n, t, c) = &uniforms[i];
            let ghost prev = reqs_view(reqs@);
            reqs.push((n.clone(), *t, *c));
            i = i + 1;
            proof {
                assert(reqs_view(reqs@) =~= prev.push(req_view(uniforms@[i - 1])));
                assert(reqs_view(reqs@) =~= base_reqs() + reqs_view(uniforms@).subrange(
                    0,
                    i as int,
                ));
            }
        }
        proof {
            assert(reqs_view(uniforms@).subrange(0, uniforms@.len() as int) =~= reqs_view(
                uniforms@,
            ));
            assert(reqs_view(reqs@) == all);
        }
        // lay the table out, accumulating offsets
        let mut table: Vec<Uniform> = Vec::new();
        let mut offset: usize = 0;
        let mut j: usize = 0;
        proof {
            assert(reqs_view(reqs@).skip(0) =~= all);
            assert(Seq::new(table@.len(), |k: int| table@[k]@) + layout_from(all, 0)
                =~= layout_from(all, 0));
        }
        while j < reqs.len()
            invariant
                j <= reqs.len(),
                reqs_view(reqs@) == all,
                layout_from(all, 0) == Seq::new(table@.len(), |k: int| table@[k]@) + layout_from(
                    reqs_view(reqs@).skip(j as int),
                    offset as nat,
                ),
                table@.len() == j,
                layout_end(all, 0) == layout_end(reqs_view(reqs@).skip(j as int), offset as nat),
                layout_end(all, 0) <= usize::MAX,
                offset <= layout_end(all, 0),
            decreases reqs.len() - j,
        {
            let ghost tail = reqs_view(reqs@).skip(j as int);
            proof {
                assert(tail[0] == req_view(reqs@[j as int]));
                assert(tail.drop_first() =~= reqs_view(reqs@).skip(j as int + 1));
                lemma_layout_in_bounds(tail, offset as nat);
                assert(layout_from(tail, offset as nat)[0].byte_offset + layout_from(
                    tail,
                    offset as nat,
                )[0].byte_size <= layout_end(tail, offset as nat));
            }
            let rq = &reqs[j];
            let sz = rq.1.size();
            let byte_size: usize = sz * rq.2;
            let u = Uniform {
                name: rq.0.clone(),
                uniform_type: rq.1,
                byte_offset: offset,
                byte_size,
            };
            let ghost prev_tbl = Seq::new(table@.len(), |k: int| table@[k]@);
            let ghost head = layout_from(tail, offset as nat)[0];
            proof {
                assert(u@ == head);
            }
            table.push(u);
            offset = offset + byte_size;
            j = j + 1;
            proof {
                assert(Seq::new(table@.len(), |k: int| table@[k]@) =~= prev_tbl.push(head));
                assert(layout_from(tail, (offset - byte_size) as nat) == seq![head] + layout_from(
                    tail.drop_first(),
                    offset as nat,
                ));
                assert(prev_tbl + (seq![head] + layout_from(
                    reqs_view(reqs@).skip(j as int),
                    offset as nat,
                )) =~= prev_tbl.push(head) + layout_from(
                    reqs_view(reqs@).skip(j as int),
                    offset as nat,
                ));
            }
        }
        proof {
            assert(reqs_view(reqs@).skip(j as int) =~= Seq::<(Seq<char>, UniformType, nat)>::empty());
            assert(Seq::new(table@.len(), |k: int| table@[k]@) + Seq::<UniformV>::empty()
                =~= Seq::new(table@.len(), |k: int| table@[k]@));
            assert(offset == layout_end(all, 0));
        }
        let total = offset;
        let mut data: Vec<u8> = Vec::new();
        let mut k: usize = 0;
        while k < total
            invariant
                k <= total,
                data@ == Seq::new(k as nat, |i: int| 0u8),
            decreases total - k,
        {
            data.push(0);
            k = k + 1;
            assert(data@ =~= Seq::new(k as nat, |i: int| 0u8));
        }
        let r = Shader { shader, pipeline, uniforms: table, uniforms_data: data };
        proof {
            assert(reqs_view(reqs@).subrange(0, reqs@.len() as int) =~= all);
            assert(layout_from(all, 0).subrange(0, all.len() as int) =~= layout_from(all, 0));
            assert(r@.uniforms =~= layout_from(all, 0));
            lemma_layout_in_bounds(all, 0);
        }
        r
    }

    /// The backing byte buffer holding the current uniform values.
    pub fn uniform_bytes(&self) -> (r: &Vec<u8>)
        ensures
            r@ == self@.uniforms_data,
    {
        &self.uniforms_data
    }

    /// Writes a uniform value by name: the declared number of bytes is
    /// copied to the declared offset.  An unknown name leaves the buffer
    /// untouched — the write is skipped, not an error.
    pub fn set_uniform(&mut self, name: &str, uniform: &[u8])
        requires
            shader_wf(old(self)@),
            match find_uniform(old(self)@.uniforms, name@) {
                Some(u) => uniform@.len() >= u.byte_size,
                None => true,
            },
        ensures
            final(self)@.shader == old(self)@.shader,
            final(self)@.pipeline == old(self)@.pipeline,
            final(self)@.uniforms == old(self)@.uniforms,
            shader_wf(final(self)@),
            match find_uniform(old(self)@.uniforms, name@) {
                Some(u) => final(self)@.uniforms_data == write_bytes(
                    old(self)@.uniforms_data,
                    u.byte_offset,
                    uniform@,
                    u.byte_size,
                ),
                None => final(self)@.uniforms_data == old(self)@.uniforms_data,
            },
    {
        let nv = crate::text::chars_of(name);
        let mut i: usize = 0;
        let n = self.uniforms.len();
        proof {
            assert(old(self)@.uniforms.skip(0) =~= old(self)@.uniforms);
        }
        while i < n
            invariant
                i <= n,
                n == self.uniforms.len(),
                nv@ == name@,
                *self == *old(self),
                shader_wf(old(self)@),
                match find_uniform(old(self)@.uniforms, name@) {
                    Some(u) => uniform@.len() >= u.byte_size,
                    None => true,
                },
                find_uniform(old(self)@.uniforms, name@) == find_uniform(
                    old(self)@.uniforms.skip(i as int),
                    name@,
                ),
            decreases n - i,
        {
            let ghost tail = old(self)@.uniforms.skip(i as int);
            proof {
                assert(tail[0] == old(self)@.uniforms[i as int]);
                assert(tail.drop_first() =~= old(self)@.uniforms.skip(i as int + 1));
            }
            let eq = str_eq_chars(self.uniforms[i].name.as_str(), &nv);
            if eq {
                let off = self.uniforms[i].byte_offset;
                let size = self.uniforms[i].byte_size;
                proof {
                    assert(find_uniform(old(self)@.uniforms, name@) == Some(
                        old(self)@.uniforms[i as int],
                    ));
                }
                let mut k: usize = 0;
                while k < size
                    invariant
                        k <= size,
                        off + size <= self.uniforms_data.len(),
                        size <= uniform@.len(),
                        self.shader == old(self).shader,
                        self.pipeline == old(self).pipeline,
                        self.uniforms == old(self).uniforms,
                        off == old(self)@.uniforms[i as int].byte_offset,
                        size == old(self)@.uniforms[i as int].byte_size,
                        i < old(self)@.uniforms.len(),
                        self.uniforms_data@.len() == old(self)@.uniforms_data.len(),
                        forall|m: int|
                            0 <= m < self.uniforms_data@.len() ==> self.uniforms_data@[m] == (
                            if off <= m < off + k {
                                uniform@[m - off]
                            } else {
                                old(self)@.uniforms_data[m]
                            }),
                    decreases size - k,
                {
                    let b = uniform[k];
                    self.uniforms_data.set(off + k, b);
                    k = k + 1;
                }
                proof {
                    assert(self.uniforms_data@ =~= write_bytes(
                        old(self)@.uniforms_data,
                        off as nat,
                        uniform@,
                        size as nat,
                    ));
                    assert(final(self)@.uniforms =~= old(self)@.uniforms);
                }
                return ;
            }
            i = i + 1;
        }
        proof {
            assert(old(self)@.uniforms.skip(i as int) =~= Seq::<UniformV>::empty());
            assert(find_uniform(old(self)@.uniforms, name@) is None);
            assert(final(self)@.uniforms =~= old(self)@.uniforms);
        }
    }
}

fn str_eq_chars(a: &str, b: &Vec<char>) -> (r: bool)
    ensures
        r == (a@ == b@),
{
    let av = crate::text::chars_of(a);
    if av.len() != b.len() {
        return false;
    }
    let mut i: usize = 0;
    while i < av.len()
        invariant
            i <= av.len(),
            av.len() == b.len(),
            av@ == a@,
            forall|k: int| 0 <= k < i ==> av@[k] == b@[k],
        decreases av.len() - i,
    {
        if av[i] != b[i] {
            assert(a@ != b@);
            return false;
        }
        i = i + 1;
    }
    proof {
        assert(a@ =~= b@);
    }
    true
}

} // verus!
