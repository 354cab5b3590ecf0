//! The five GLSL dialect emitters and the transpiler entry point.
//!
//! Each emitter is a pure line-by-line rewrite: a fixed dialect header
//! (version pragma, shims, requested `#define`s) followed by exactly one
//! output line per input line.

use vstd::prelude::*;

use crate::text::{chars_of, extend_chars, extend_str, replace, split_lines, string_of};
use crate::text::{replace_spec, spec_lines};

verus! {

/// One injected preprocessor line.
pub open spec fn define_line(d: Seq<char>) -> Seq<char> {
    "#define "@ + d + " 1\n"@
}

/// The injected `#define` lines for the requested symbols, in order.
pub open spec fn defines_block(ds: Seq<Seq<char>>) -> Seq<char>
    decreases ds.len(),
{
    if ds.len() == 0 {
        Seq::empty()
    } else {
        defines_block(ds.drop_last()) + define_line(ds.last())
    }
}

pub(crate) fn defines_block_exec(out: &mut Vec<char>, defines: &Vec<String>)
    ensures
        final(out)@ == old(out)@ + defines_block(defines.deep_view()),
{
    let mut i: usize = 0;
    proof {
        assert(old(out)@ + defines_block(defines.deep_view().subrange(0, 0)) =~= old(out)@);
    }
    while i < defines.len()
        invariant
            i <= defines.len(),
            out@ == old(out)@ + defines_block(defines.deep_view().subrange(0, i as int)),
        decreases defines.len() - i,
    {
        extend_str(out, "#define ");
        extend_str(out, defines[i].as_str());
        extend_str(out, " 1\n");
        i = i + 1;
        proof {
            assert(defines.deep_view().subrange(0, i as int).drop_last()
                =~= defines.deep_view().subrange(0, i - 1));
            assert(defines.deep_view().subrange(0, i as int).last() == defines@[i - 1].deep_view());
            assert(defines@[i - 1].deep_view() == defines@[i - 1]@);
        }
    }
    proof {
        assert(defines.deep_view().subrange(0, defines@.len() as int) =~= defines.deep_view());
    }
}

/// A structured transpiler error.  The current pipeline is total over its
/// admitted inputs, so no constructor of this type is ever produced by
/// `transform`; it is part of the public surface for callers that match on
/// the result.
#[derive(Debug)]
pub struct Error {
    pub error: String,
    pub line: Option<u32>,
}

/// One vertex/fragment pair of emitted dialect text.
#[derive(Debug)]
pub struct GlslOutput {
    pub vertex: String,
    pub fragment: String,
}

impl Default for GlslOutput {
    fn default() -> (r: GlslOutput)
        ensures
            r.vertex@ == Seq::<char>::empty(),
            r.fragment@ == Seq::<char>::empty(),
    {
        GlslOutput { vertex: String::new(), fragment: String::new() }
    }
}

/// The whole transpiled bundle: one pair per GLSL dialect plus the
/// struct-based backend blob.
pub struct Output {
    pub v100: GlslOutput,
    pub v100_webgl: GlslOutput,
    pub v130: GlslOutput,
    pub v330: GlslOutput,
    pub v300es: GlslOutput,
    pub metal: String,
}

impl Default for Output {
    fn default() -> (r: Output)
        ensures
            r.v100.vertex@ == Seq::<char>::empty(),
            r.v100.fragment@ == Seq::<char>::empty(),
            r.v100_webgl.vertex@ == Seq::<char>::empty(),
            r.v100_webgl.fragment@ == Seq::<char>::empty(),
            r.v130.vertex@ == Seq::<char>::empty(),
            r.v130.fragment@ == Seq::<char>::empty(),
            r.v330.vertex@ == Seq::<char>::empty(),
            r.v330.fragment@ == Seq::<char>::empty(),
            r.v300es.vertex@ == Seq::<char>::empty(),
            r.v300es.fragment@ == Seq::<char>::empty(),
            r.metal@ == Seq::<char>::empty(),
    {
        Output {
            v100: GlslOutput::default(),
            v100_webgl: GlslOutput::default(),
            v130: GlslOutput::default(),
            v330: GlslOutput::default(),
            v300es: GlslOutput::default(),
            metal: String::new(),
        }
    }
}

/// Transpile configuration.
#[derive(Debug, PartialEq)]
pub struct Options {
    /// Placeholder, read by no emitter.
    pub precision: String,
    /// Invert the clip-space Y axis in the struct-based backend, so shaders
    /// rendering to a framebuffer need no per-backend conditional.
    pub metal_flip_y: bool,
    /// Preprocessor symbols injected as `#define NAME 1`, in order.
    pub defines: Vec<String>,
}

impl Default for Options {
    fn default() -> (r: Options)
        ensures
            r.precision@ == Seq::<char>::empty(),
            r.metal_flip_y == false,
            r.defines.deep_view() == Seq::<Seq<char>>::empty(),
    {
        let r = Options { precision: String::new(), metal_flip_y: false, defines: Vec::new() };
        proof {
            assert(r.defines.deep_view() =~= Seq::<Seq<char>>::empty());
        }
        r
    }
}

/// Which pipeline stage a source string belongs to.
#[derive(Clone, Copy, Debug, PartialEq, Eq, Structural)]
pub enum ShaderKind {
    Vertex,
    Fragment,
}

/// The `transpose(mat3)` shim GLSL versions below 330 lack.
pub open spec fn gl_math_text() -> Seq<char> {
    "mat3 transpose(mat3 m) {\n    return mat3(vec3(m[0].x, m[1].x, m[2].x),\n                vec3(m[0].y, m[1].y, m[2].y),\n                vec3(m[0].z, m[1].z, m[2].z));\n}\n"@
}

pub fn lower_gl_missing_math() -> (r: &'static str)
    ensures
        r@ == gl_math_text(),
{
    "mat3 transpose(mat3 m) {\n    return mat3(vec3(m[0].x, m[1].x, m[2].x),\n                vec3(m[0].y, m[1].y, m[2].y),\n                vec3(m[0].z, m[1].z, m[2].z));\n}\n"
}

/// The source lines, each emitted back with a terminating newline.
pub open spec fn plain_body(ls: Seq<Seq<char>>) -> Seq<char>
    decreases ls.len(),
{
    if ls.len() == 0 {
        Seq::empty()
    } else {
        plain_body(ls.drop_last()) + ls.last() + "\n"@
    }
}

fn emit_plain_body(out: &mut Vec<char>, ls: &Vec<Vec<char>>)
    ensures
        final(out)@ == old(out)@ + plain_body(ls.deep_view()),
{
    let mut i: usize = 0;
    proof {
        assert(old(out)@ + plain_body(ls.deep_view().subrange(0, 0)) =~= old(out)@);
    }
    while i < ls.len()
        invariant
            i <= ls.len(),
            out@ == old(out)@ + plain_body(ls.deep_view().subrange(0, i as int)),
        decreases ls.len() - i,
    {
        extend_chars(out, &ls[i]);
        extend_str(out, "\n");
        i = i + 1;
        proof {
            assert(ls.deep_view().subrange(0, i as int).drop_last() =~= ls.deep_view().subrange(
                0,
                i - 1,
            ));
            assert(ls.deep_view().subrange(0, i as int).last() == ls@[i - 1].deep_view());
            assert(ls@[i - 1].deep_view() =~= ls@[i - 1]@);
        }
    }
    proof {
        assert(ls.deep_view().subrange(0, ls@.len() as int) =~= ls.deep_view());
    }
}

/// One v100-webgl body line: the LOD cube sample is renamed to the
/// extension-suffixed call.
pub open spec fn webgl_line(l: Seq<char>) -> Seq<char> {
    replace_spec(l, "textureCubeLod"@, "textureCubeLodEXT"@)
}

pub open spec fn webgl_body(ls: Seq<Seq<char>>) -> Seq<char>
    decreases ls.len(),
{
    if ls.len() == 0 {
        Seq::empty()
    } else {
        webgl_body(ls.drop_last()) + webgl_line(ls.last()) + "\n"@
    }
}

fn emit_webgl_body(out: &mut Vec<char>, ls: &Vec<Vec<char>>)
    ensures
        final(out)@ == old(out)@ + webgl_body(ls.deep_view()),
{
    let mut i: usize = 0;
    proof {
        reveal_strlit("textureCubeLod");
        assert(old(out)@ + webgl_body(ls.deep_view().subrange(0, 0)) =~= old(out)@);
    }
    while i < ls.len()
        invariant
            i <= ls.len(),
            out@ == old(out)@ + webgl_body(ls.deep_view().subrange(0, i as int)),
        decreases ls.len() - i,
    {
        proof {
            reveal_strlit("textureCubeLod");
        }
        let from = chars_of("textureCubeLod");
        let to = chars_of("textureCubeLodEXT");
        let line = replace(&ls[i], &from, &to);
        extend_chars(out, &line);
        extend_str(out, "\n");
        i = i + 1;
        proof {
            assert(ls.deep_view().subrange(0, i as int).drop_last() =~= ls.deep_view().subrange(
                0,
                i - 1,
            ));
            assert(ls.deep_view().subrange(0, i as int).last() == ls@[i - 1].deep_view());
            assert(ls@[i - 1].deep_view() =~= ls@[i - 1]@);
        }
    }
    proof {
        assert(ls.deep_view().subrange(0, ls@.len() as int) =~= ls.deep_view());
    }
}

/// One v330 / v300es body line: `attribute` becomes `in`; the sampling
/// builtins lose their type suffix; `varying` becomes `out` in the vertex
/// stage and `in` in the fragment stage; `gl_FragColor` is renamed to the
/// synthesized output variable.  Replacements run in this exact order.
pub open spec fn v330_line(l: Seq<char>, kind: ShaderKind) -> Seq<char> {
    replace_spec(
        replace_spec(
            replace_spec(
                replace_spec(replace_spec(l, "attribute"@, "in"@), "texture2D"@, "texture"@),
                "varying"@,
                if kind == ShaderKind::Vertex {
                    "out"@
                } else {
                    "in"@
                },
            ),
            "textureCube"@,
            "texture"@,
        ),
        "gl_FragColor"@,
        "output_FragColor"@,
    )
}

pub open spec fn v330_body(ls: Seq<Seq<char>>, kind: ShaderKind) -> Seq<char>
    decreases ls.len(),
{
    if ls.len() == 0 {
        Seq::empty()
    } else {
        v330_body(ls.drop_last(), kind) + v330_line(ls.last(), kind) + "\n"@
    }
}

fn emit_v330_body(out: &mut Vec<char>, ls: &Vec<Vec<char>>, kind: ShaderKind)
    ensures
        final(out)@ == old(out)@ + v330_body(ls.deep_view(), kind),
{
    let mut i: usize = 0;
    proof {
        reveal_strlit("attribute");
        reveal_strlit("texture2D");
        reveal_strlit("varying");
        reveal_strlit("textureCube");
        reveal_strlit("gl_FragColor");
        assert(old(out)@ + v330_body(ls.deep_view().subrange(0, 0), kind) =~= old(out)@);
    }
    while i < ls.len()
        invariant
            i <= ls.len(),
            out@ == old(out)@ + v330_body(ls.deep_view().subrange(0, i as int), kind),
        decreases ls.len() - i,
    {
        proof {
            reveal_strlit("attribute");
            reveal_strlit("texture2D");
            reveal_strlit("varying");
            reveal_strlit("textureCube");
            reveal_strlit("gl_FragColor");
        }
        let f1 = chars_of("attribute");
        let t1 = chars_of("in");
        let line = replace(&ls[i], &f1, &t1);
        let f2 = chars_of("texture2D");
        let t2 = chars_of("texture");
        let line = replace(&line, &f2, &t2);
        let f3 = chars_of("varying");
        let t3 = if let ShaderKind::Vertex = kind {
            chars_of("out")
        } else {
            chars_of("in")
        };
        let line = replace(&line, &f3, &t3);
        let f4 = chars_of("textureCube");
        let t4 = chars_of("texture");
        let line = replace(&line, &f4, &t4);
        let f5 = chars_of("gl_FragColor");
        let t5 = chars_of("output_FragColor");
        let line = replace(&line, &f5, &t5);
        extend_chars(out, &line);
        extend_str(out, "\n");
        i = i + 1;
        proof {
            assert(ls.deep_view().subrange(0, i as int).drop_last() =~= ls.deep_view().subrange(
                0,
                i - 1,
            ));
            assert(ls.deep_view().subrange(0, i as int).last() == ls@[i - 1].deep_view());
            assert(ls@[i - 1].deep_view() =~= ls@[i - 1]@);
        }
    }
    proof {
        assert(ls.deep_view().subrange(0, ls@.len() as int) =~= ls.deep_view());
    }
}

/// Header of the v100 variant: no derivative support, so zero-returning
/// stubs and a `NO_DERIVATIVES` marker are injected, and the LOD cube sample
/// is aliased to its non-LOD form.
pub open spec fn v100_header(ds: Seq<Seq<char>>) -> Seq<char> {
    "#version 100\n"@ + "precision mediump float;\n"@ + "float dFdx(float x) {return 0.0;}\n"@
        + "float dFdy(float x) {return 0.0;}\n"@ + "vec2 dFdx(vec2 x) {return vec2(0.0);}\n"@
        + "vec2 dFdy(vec2 x) {return vec2(0.0);}\n"@ + "vec3 dFdx(vec3 x) {return vec3(0.0);}\n"@
        + "vec3 dFdy(vec3 x) {return vec3(0.0);}\n"@ + "#define NO_DERIVATIVES 1\n"@
        + "#define textureCubeLod(x, y, z) textureCube(x, y)\n"@ + "#define sm_level(x) x\n"@
        + gl_math_text() + defines_block(ds) + "#define __GL 1\n"@
}

pub open spec fn spec_glsl_v100(input: Seq<char>, ds: Seq<Seq<char>>) -> Seq<char> {
    v100_header(ds) + plain_body(spec_lines(input))
}

/// The v100 emitter.  The stage is not consulted: both stages share one
/// header and the body lines pass through unchanged.
pub fn glsl_v100(input: &str, _kind: ShaderKind, defines: &Vec<String>) -> (r: String)
    ensures
        r@ == spec_glsl_v100(input@, defines.deep_view()),
{
    let mut out = chars_of("#version 100\n");
    extend_str(&mut out, "precision mediump float;\n");
    extend_str(&mut out, "float dFdx(float x) {return 0.0;}\n");
    extend_str(&mut out, "float dFdy(float x) {return 0.0;}\n");
    extend_str(&mut out, "vec2 dFdx(vec2 x) {return vec2(0.0);}\n");
    extend_str(&mut out, "vec2 dFdy(vec2 x) {return vec2(0.0);}\n");
    extend_str(&mut out, "vec3 dFdx(vec3 x) {return vec3(0.0);}\n");
    extend_str(&mut out, "vec3 dFdy(vec3 x) {return vec3(0.0);}\n");
    extend_str(&mut out, "#define NO_DERIVATIVES 1\n");
    extend_str(&mut out, "#define textureCubeLod(x, y, z) textureCube(x, y)\n");
    extend_str(&mut out, "#define sm_level(x) x\n");
    extend_str(&mut out, lower_gl_missing_math());
    defines_block_exec(&mut out, defines);
    extend_str(&mut out, "#define __GL 1\n");
    let iv = chars_of(input);
    let ls = split_lines(&iv);
    emit_plain_body(&mut out, &ls);
    string_of(&out)
}

/// Header of the v100-webgl variant: texture-LOD and standard-derivative
/// extensions are assumed present and enabled.
pub open spec fn v100_webgl_header(ds: Seq<Seq<char>>) -> Seq<char> {
    "#version 100\n"@ + "#extension GL_EXT_shader_texture_lod: enable\n"@
        + "#extension GL_OES_standard_derivatives: enable\n"@ + "precision mediump float;\n"@
        + gl_math_text() + defines_block(ds) + "#define __GL 1\n"@ + "#define sm_level(x) x\n"@
}

pub open spec fn spec_glsl_v100_webgl(input: Seq<char>, ds: Seq<Seq<char>>) -> Seq<char> {
    v100_webgl_header(ds) + webgl_body(spec_lines(input))
}

/// The v100-webgl emitter.
pub fn glsl_v100_webgl(input: &str, _kind: ShaderKind, defines: &Vec<String>) -> (r: String)
    ensures
        r@ == spec_glsl_v100_webgl(input@, defines.deep_view()),
{
    let mut out = chars_of("#version 100\n");
    extend_str(&mut out, "#extension GL_EXT_shader_texture_lod: enable\n");
    extend_str(&mut out, "#extension GL_OES_standard_derivatives: enable\n");
    extend_str(&mut out, "precision mediump float;\n");
    extend_str(&mut out, lower_gl_missing_math());
    defines_block_exec(&mut out, defines);
    extend_str(&mut out, "#define __GL 1\n");
    extend_str(&mut out, "#define sm_level(x) x\n");
    let iv = chars_of(input);
    let ls = split_lines(&iv);
    emit_webgl_body(&mut out, &ls);
    string_of(&out)
}

/// Header of the v130 variant: only the `transpose(mat3)` shim is needed.
pub open spec fn v130_header(ds: Seq<Seq<char>>) -> Seq<char> {
    "#version 130\n"@ + "#define sm_level(x) x\n"@ + gl_math_text() + defines_block(ds)
        + "#define __GL 1\n"@
}

pub open spec fn spec_glsl_v130(input: Seq<char>, ds: Seq<Seq<char>>) -> Seq<char> {
    v130_header(ds) + plain_body(spec_lines(input))
}

/// The v130 emitter.
pub fn glsl_v130(input: &str, _kind: ShaderKind, defines: &Vec<String>) -> (r: String)
    ensures
        r@ == spec_glsl_v130(input@, defines.deep_view()),
{
    let mut out = chars_of("#version 130\n");
    extend_str(&mut out, "#define sm_level(x) x\n");
    extend_str(&mut out, lower_gl_missing_math());
    defines_block_exec(&mut out, defines);
    extend_str(&mut out, "#define __GL 1\n");
    let iv = chars_of(input);
    let ls = split_lines(&iv);
    emit_plain_body(&mut out, &ls);
    string_of(&out)
}

/// Header of the v330 variant: the fragment stage additionally declares the
/// synthesized colour output before `main`.
pub open spec fn v330_header(ds: Seq<Seq<char>>, kind: ShaderKind) -> Seq<char> {
    "#version 330\n"@ + defines_block(ds) + "#define __GL 1\n"@ + (if kind == ShaderKind::Fragment {
        "out vec4 output_FragColor;\n"@
    } else {
        Seq::<char>::empty()
    }) + "#define sm_level(x) x\n"@
}

pub open spec fn spec_glsl_v330(input: Seq<char>, kind: ShaderKind, ds: Seq<Seq<char>>) -> Seq<
    char,
> {
    v330_header(ds, kind) + v330_body(spec_lines(input), kind)
}

/// The v330 emitter: attributes and varyings are renamed to `in`/`out` and
/// sampling calls to the unified `texture(` form.
pub fn glsl_v330(input: &str, kind: ShaderKind, defines: &Vec<String>) -> (r: String)
    ensures
        r@ == spec_glsl_v330(input@, kind, defines.deep_view()),
{
    let mut out = chars_of("#version 330\n");
    defines_block_exec(&mut out, defines);
    extend_str(&mut out, "#define __GL 1\n");
    if let ShaderKind::Fragment = kind {
        extend_str(&mut out, "out vec4 output_FragColor;\n");
    } else {
        proof {
            assert(out@ + Seq::<char>::empty() =~= out@);
        }
    }
    extend_str(&mut out, "#define sm_level(x) x\n");
    let iv = chars_of(input);
    let ls = split_lines(&iv);
    emit_v330_body(&mut out, &ls, kind);
    string_of(&out)
}

/// Header of the v300es variant: as v330, plus a forced mediump default.
pub open spec fn v300es_header(ds: Seq<Seq<char>>, kind: ShaderKind) -> Seq<char> {
    "#version 300 es\n"@ + "precision mediump float;\n"@ + defines_block(ds) + "#define __GL 1\n"@
        + (if kind == ShaderKind::Fragment {
        "out vec4 output_FragColor;\n"@
    } else {
        Seq::<char>::empty()
    }) + "#define sm_level(x) x\n"@
}

pub open spec fn spec_glsl_v300es(input: Seq<char>, kind: ShaderKind, ds: Seq<Seq<char>>) -> Seq<
    char,
> {
    v300es_header(ds, kind) + v330_body(spec_lines(input), kind)
}

/// The v300es emitter: the same line rewrite as v330 under the ES header.
pub fn glsl_v300es(input: &str, kind: ShaderKind, defines: &Vec<String>) -> (r: String)
    ensures
        r@ == spec_glsl_v300es(input@, kind, defines.deep_view()),
{
    let mut out = chars_of("#version 300 es\n");
    extend_str(&mut out, "precision mediump float;\n");
    defines_block_exec(&mut out, defines);
    extend_str(&mut out, "#define __GL 1\n");
    if let ShaderKind::Fragment = kind {
        extend_str(&mut out, "out vec4 output_FragColor;\n");
    } else {
        proof {
            assert(out@ + Seq::<char>::empty() =~= out@);
        }
    }
    extend_str(&mut out, "#define sm_level(x) x\n");
    let iv = chars_of(input);
    let ls = split_lines(&iv);
    emit_v330_body(&mut out, &ls, kind);
    string_of(&out)
}

/// Transpiles one vertex/fragment pair into every dialect of the bundle.
/// The transformation is total over its admitted inputs and pure: the
/// bundle is a function of the arguments alone.
pub fn transform(
    fragment: &str,
    vertex: &str,
    meta: &crate::meta::ShaderMeta,
    options: &Options,
) -> (r: Result<Output, Error>)
    requires
        crate::msl::wf_metal(fragment@, vertex@, meta@),
    ensures
        r matches Ok(o) && bundle_view(&o) == spec_transform(
            fragment@,
            vertex@,
            meta@,
            options.defines.deep_view(),
            options.metal_flip_y,
        ),
{
    let output = Output {
        v100: GlslOutput {
            fragment: glsl_v100(fragment, ShaderKind::Fragment, &options.defines),
            vertex: glsl_v100(vertex, ShaderKind::Vertex, &options.defines),
        },
        v130: GlslOutput {
            fragment: glsl_v130(fragment, ShaderKind::Fragment, &options.defines),
            vertex: glsl_v130(vertex, ShaderKind::Vertex, &options.defines),
        },
        v100_webgl: GlslOutput {
            fragment: glsl_v100_webgl(fragment, ShaderKind::Fragment, &options.defines),
            vertex: glsl_v100_webgl(vertex, ShaderKind::Vertex, &options.defines),
        },
        v330: GlslOutput {
            fragment: glsl_v330(fragment, ShaderKind::Fragment, &options.defines),
            vertex: glsl_v330(vertex, ShaderKind::Vertex, &options.defines),
        },
        v300es: GlslOutput {
            fragment: glsl_v300es(fragment, ShaderKind::Fragment, &options.defines),
            vertex: glsl_v300es(vertex, ShaderKind::Vertex, &options.defines),
        },
        metal: crate::msl::metal(fragment, vertex, meta, options),
    };
    Ok(output)
}

// ---------------------------------------------------------------------
// the line-count law
// ---------------------------------------------------------------------
proof fn lemma_plain_body_count(ls: Seq<Seq<char>>)
    requires
        forall|i: int| 0 <= i < ls.len() ==> crate::text::no_nl(#[trigger] ls[i]),
    ensures
        crate::text::spec_lines(plain_body(ls)).len() == ls.len(),
        plain_body(ls).len() == 0 || plain_body(ls).last() == '\n',
    decreases ls.len(),
{
    reveal_strlit("\n");
    if ls.len() > 0 {
        assert(forall|i: int|
            0 <= i < ls.drop_last().len() ==> crate::text::no_nl(#[trigger] ls.drop_last()[i]));
        lemma_plain_body_count(ls.drop_last());
        let a = plain_body(ls.drop_last());
        let l = ls.last();
        assert(crate::text::no_nl(l));
        assert("\n"@ =~= seq!['\n']);
        crate::text::lemma_lines_single(l);
        if a.len() == 0 {
            assert(plain_body(ls) =~= l + seq!['\n']);
            assert(crate::text::spec_lines(plain_body(ls)) == seq![crate::text::strip_cr(l)]);
        } else {
            crate::text::lemma_lines_concat(a, l + seq!['\n']);
            assert(plain_body(ls) =~= a + (l + seq!['\n']));
        }
    } else {
        assert(plain_body(ls) =~= Seq::<char>::empty());
        assert(crate::text::spec_lines(Seq::<char>::empty()) =~= Seq::<Seq<char>>::empty());
    }
}

proof fn lemma_webgl_body_count(ls: Seq<Seq<char>>)
    requires
        forall|i: int| 0 <= i < ls.len() ==> crate::text::no_nl(#[trigger] ls[i]),
    ensures
        crate::text::spec_lines(webgl_body(ls)).len() == ls.len(),
        webgl_body(ls).len() == 0 || webgl_body(ls).last() == '\n',
    decreases ls.len(),
{
    reveal_strlit("\n");
    reveal_strlit("textureCubeLodEXT");
    if ls.len() > 0 {
        assert(forall|i: int|
            0 <= i < ls.drop_last().len() ==> crate::text::no_nl(#[trigger] ls.drop_last()[i]));
        lemma_webgl_body_count(ls.drop_last());
        let a = webgl_body(ls.drop_last());
        let l = webgl_line(ls.last());
        assert(crate::text::no_nl("textureCubeLodEXT"@));
        crate::text::lemma_replace_no_nl(ls.last(), "textureCubeLod"@, "textureCubeLodEXT"@);
        assert("\n"@ =~= seq!['\n']);
        crate::text::lemma_lines_single(l);
        if a.len() == 0 {
            assert(webgl_body(ls) =~= l + seq!['\n']);
            assert(crate::text::spec_lines(webgl_body(ls)) == seq![crate::text::strip_cr(l)]);
        } else {
            crate::text::lemma_lines_concat(a, l + seq!['\n']);
            assert(webgl_body(ls) =~= a + (l + seq!['\n']));
        }
    } else {
        assert(webgl_body(ls) =~= Seq::<char>::empty());
        assert(crate::text::spec_lines(Seq::<char>::empty()) =~= Seq::<Seq<char>>::empty());
    }
}

proof fn lemma_v330_line_no_nl(l: Seq<char>, kind: ShaderKind)
    requires
        crate::text::no_nl(l),
    ensures
        crate::text::no_nl(v330_line(l, kind)),
{
    reveal_strlit("in");
    reveal_strlit("out");
    reveal_strlit("texture");
    reveal_strlit("output_FragColor");
    let l1 = replace_spec(l, "attribute"@, "in"@);
    crate::text::lemma_replace_no_nl(l, "attribute"@, "in"@);
    let l2 = replace_spec(l1, "texture2D"@, "texture"@);
    crate::text::lemma_replace_no_nl(l1, "texture2D"@, "texture"@);
    let vk = if kind == ShaderKind::Vertex {
        "out"@
    } else {
        "in"@
    };
    let l3 = replace_spec(l2, "varying"@, vk);
    crate::text::lemma_replace_no_nl(l2, "varying"@, vk);
    let l4 = replace_spec(l3, "textureCube"@, "texture"@);
    crate::text::lemma_replace_no_nl(l3, "textureCube"@, "texture"@);
    crate::text::lemma_replace_no_nl(l4, "gl_FragColor"@, "output_FragColor"@);
}

proof fn lemma_v330_body_count(ls: Seq<Seq<char>>, kind: ShaderKind)
    requires
        forall|i: int| 0 <= i < ls.len() ==> crate::text::no_nl(#[trigger] ls[i]),
    ensures
        crate::text::spec_lines(v330_body(ls, kind)).len() == ls.len(),
        v330_body(ls, kind).len() == 0 || v330_body(ls, kind).last() == '\n',
    decreases ls.len(),
{
    reveal_strlit("\n");
    if ls.len() > 0 {
        assert(forall|i: int|
            0 <= i < ls.drop_last().len() ==> crate::text::no_nl(#[trigger] ls.drop_last()[i]));
        lemma_v330_body_count(ls.drop_last(), kind);
        let a = v330_body(ls.drop_last(), kind);
        let l = v330_line(ls.last(), kind);
        lemma_v330_line_no_nl(ls.last(), kind);
        assert("\n"@ =~= seq!['\n']);
        crate::text::lemma_lines_single(l);
        if a.len() == 0 {
            assert(v330_body(ls, kind) =~= l + seq!['\n']);
            assert(crate::text::spec_lines(v330_body(ls, kind)) == seq![crate::text::strip_cr(l)]);
        } else {
            crate::text::lemma_lines_concat(a, l + seq!['\n']);
            assert(v330_body(ls, kind) =~= a + (l + seq!['\n']));
        }
    } else {
        assert(v330_body(ls, kind) =~= Seq::<char>::empty());
        assert(crate::text::spec_lines(Seq::<char>::empty()) =~= Seq::<Seq<char>>::empty());
    }
}

/// Each dialect emitter maps lines one to one: beyond its fixed header,
/// the output holds exactly one line per input line.  Stated here for the
/// v100 emitter.
pub proof fn lemma_glsl_v100_line_count(input: Seq<char>, ds: Seq<Seq<char>>)
    ensures
        crate::text::spec_lines(spec_glsl_v100(input, ds)).len() == crate::text::spec_lines(
            v100_header(ds),
        ).len() + crate::text::spec_lines(input).len(),
{
    reveal_strlit("#define __GL 1\n");
    let h = v100_header(ds);
    assert(h.len() > 0 && h.last() == '\n');
    crate::text::lemma_lines_no_nl(input, 0);
    lemma_plain_body_count(crate::text::spec_lines(input));
    crate::text::lemma_lines_concat(h, plain_body(crate::text::spec_lines(input)));
}

/// The one-to-one line mapping of the v100-webgl emitter.
pub proof fn lemma_glsl_v100_webgl_line_count(input: Seq<char>, ds: Seq<Seq<char>>)
    ensures
        crate::text::spec_lines(spec_glsl_v100_webgl(input, ds)).len() == crate::text::spec_lines(
            v100_webgl_header(ds),
        ).len() + crate::text::spec_lines(input).len(),
{
    reveal_strlit("#define sm_level(x) x\n");
    let h = v100_webgl_header(ds);
    assert(h.len() > 0 && h.last() == '\n');
    crate::text::lemma_lines_no_nl(input, 0);
    lemma_webgl_body_count(crate::text::spec_lines(input));
    crate::text::lemma_lines_concat(h, webgl_body(crate::text::spec_lines(input)));
}

/// The one-to-one line mapping of the v130 emitter.
pub proof fn lemma_glsl_v130_line_count(input: Seq<char>, ds: Seq<Seq<char>>)
    ensures
        crate::text::spec_lines(spec_glsl_v130(input, ds)).len() == crate::text::spec_lines(
            v130_header(ds),
        ).len() + crate::text::spec_lines(input).len(),
{
    reveal_strlit("#define __GL 1\n");
    let h = v130_header(ds);
    assert(h.len() > 0 && h.last() == '\n');
    crate::text::lemma_lines_no_nl(input, 0);
    lemma_plain_body_count(crate::text::spec_lines(input));
    crate::text::lemma_lines_concat(h, plain_body(crate::text::spec_lines(input)));
}

/// The one-to-one line mapping of the v330 emitter.
pub proof fn lemma_glsl_v330_line_count(input: Seq<char>, kind: ShaderKind, ds: Seq<Seq<char>>)
    ensures
        crate::text::spec_lines(spec_glsl_v330(input, kind, ds)).len() == crate::text::spec_lines(
            v330_header(ds, kind),
        ).len() + crate::text::spec_lines(input).len(),
{
    reveal_strlit("#define sm_level(x) x\n");
    let h = v330_header(ds, kind);
    assert(h.len() > 0 && h.last() == '\n');
    crate::text::lemma_lines_no_nl(input, 0);
    lemma_v330_body_count(crate::text::spec_lines(input), kind);
    crate::text::lemma_lines_concat(h, v330_body(crate::text::spec_lines(input), kind));
}

/// The one-to-one line mapping of the v300es emitter.
pub proof fn lemma_glsl_v300es_line_count(input: Seq<char>, kind: ShaderKind, ds: Seq<Seq<char>>)
    ensures
        crate::text::spec_lines(spec_glsl_v300es(input, kind, ds)).len()
            == crate::text::spec_lines(v300es_header(ds, kind)).len() + crate::text::spec_lines(
            input,
        ).len(),
{
    reveal_strlit("#define sm_level(x) x\n");
    let h = v300es_header(ds, kind);
    assert(h.len() > 0 && h.last() == '\n');
    crate::text::lemma_lines_no_nl(input, 0);
    lemma_v330_body_count(crate::text::spec_lines(input), kind);
    crate::text::lemma_lines_concat(h, v330_body(crate::text::spec_lines(input), kind));
}

// ---------------------------------------------------------------------
// the purity law
// ---------------------------------------------------------------------
/// The ghost image of a whole transpiled bundle.
pub struct OutputV {
    pub v100_vertex: Seq<char>,
    pub v100_fragment: Seq<char>,
    pub v100_webgl_vertex: Seq<char>,
    pub v100_webgl_fragment: Seq<char>,
    pub v130_vertex: Seq<char>,
    pub v130_fragment: Seq<char>,
    pub v330_vertex: Seq<char>,
    pub v330_fragment: Seq<char>,
    pub v300es_vertex: Seq<char>,
    pub v300es_fragment: Seq<char>,
    pub metal: Seq<char>,
}

/// The texts a bundle holds.
pub open spec fn bundle_view(o: &Output) -> OutputV {
    OutputV {
        v100_vertex: o.v100.vertex@,
        v100_fragment: o.v100.fragment@,
        v100_webgl_vertex: o.v100_webgl.vertex@,
        v100_webgl_fragment: o.v100_webgl.fragment@,
        v130_vertex: o.v130.vertex@,
        v130_fragment: o.v130.fragment@,
        v330_vertex: o.v330.vertex@,
        v330_fragment: o.v330.fragment@,
        v300es_vertex: o.v300es.vertex@,
        v300es_fragment: o.v300es.fragment@,
        metal: o.metal@,
    }
}

/// The bundle the transpiler produces: a function of the sources, the
/// metadata and the options alone.
pub open spec fn spec_transform(
    fragment: Seq<char>,
    vertex: Seq<char>,
    meta: crate::meta::ShaderMetaV,
    ds: Seq<Seq<char>>,
    flip: bool,
) -> OutputV {
    OutputV {
        v100_vertex: spec_glsl_v100(vertex, ds),
        v100_fragment: spec_glsl_v100(fragment, ds),
        v100_webgl_vertex: spec_glsl_v100_webgl(vertex, ds),
        v100_webgl_fragment: spec_glsl_v100_webgl(fragment, ds),
        v130_vertex: spec_glsl_v130(vertex, ds),
        v130_fragment: spec_glsl_v130(fragment, ds),
        v330_vertex: spec_glsl_v330(vertex, ShaderKind::Vertex, ds),
        v330_fragment: spec_glsl_v330(fragment, ShaderKind::Fragment, ds),
        v300es_vertex: spec_glsl_v300es(vertex, ShaderKind::Vertex, ds),
        v300es_fragment: spec_glsl_v300es(fragment, ShaderKind::Fragment, ds),
        metal: crate::msl::spec_metal(fragment, vertex, meta, ds, flip),
    }
}

/// Transpilation is pure: two bundles produced from the same sources,
/// metadata and options hold byte-identical text in every variant.
pub proof fn lemma_transform_deterministic(
    o1: &Output,
    o2: &Output,
    fragment: Seq<char>,
    vertex: Seq<char>,
    meta: crate::meta::ShaderMetaV,
    ds: Seq<Seq<char>>,
    flip: bool,
)
    requires
        bundle_view(o1) == spec_transform(fragment, vertex, meta, ds, flip),
        bundle_view(o2) == spec_transform(fragment, vertex, meta, ds, flip),
    ensures
        bundle_view(o1) == bundle_view(o2),
{
}

} // verus!
