use quad_gl::glsl::{glsl_v100, glsl_v100_webgl, glsl_v130, glsl_v300es, glsl_v330};
use quad_gl::glsl::{transform, Options, ShaderKind};
use quad_gl::meta::{ShaderMeta, UniformBlockLayout, UniformDesc, UniformType};
use quad_gl::msl::metal;
use quad_gl::select::{choose_appropriate_shader, Backend, ContextInfo, GlslSupport, ShaderSource};

fn no_defines() -> Vec<String> {
    Vec::new()
}

fn small_meta() -> ShaderMeta {
    let mut images: Vec<String> = Vec::new();
    images.push("Albedo".to_owned());
    images.push("Environment".to_owned());
    let mut uniforms: Vec<UniformDesc> = Vec::new();
    uniforms.push(UniformDesc::new("Projection", UniformType::Mat4));
    uniforms.push(UniformDesc::new("Color", UniformType::Float4));
    ShaderMeta { images, uniforms: UniformBlockLayout { uniforms } }
}

const VERTEX_SRC: &str = "attribute vec4 in_pos x [[attribute(0)]];\nvarying vec2 uv1 y [[user(locn0)]];\nvoid main() {\ngl_Position = in_pos;\nuv1 = vec2(0.0, 0.0);\n}\n";

const FRAGMENT_SRC: &str = "uniform sampler2D Albedo;\nuniform samplerCube Environment;\nvoid main() {\ngl_FragColor = texture2D(Albedo, uv1);\n}\n";

#[test]
fn v100_header_and_body() {
    let out = glsl_v100("void main() {\n}", ShaderKind::Vertex, &no_defines());
    let expected = "#version 100\nprecision mediump float;\nfloat dFdx(float x) {return 0.0;}\nfloat dFdy(float x) {return 0.0;}\nvec2 dFdx(vec2 x) {return vec2(0.0);}\nvec2 dFdy(vec2 x) {return vec2(0.0);}\nvec3 dFdx(vec3 x) {return vec3(0.0);}\nvec3 dFdy(vec3 x) {return vec3(0.0);}\n#define NO_DERIVATIVES 1\n#define textureCubeLod(x, y, z) textureCube(x, y)\n#define sm_level(x) x\nmat3 transpose(mat3 m) {\n    return mat3(vec3(m[0].x, m[1].x, m[2].x),\n                vec3(m[0].y, m[1].y, m[2].y),\n                vec3(m[0].z, m[1].z, m[2].z));\n}\n#define __GL 1\nvoid main() {\n}\n";
    assert_eq!(out, expected);
}

#[test]
fn defines_injected_in_order() {
    let defines = vec!["HAS_A".to_owned(), "HAS_B".to_owned()];
    let out = glsl_v130("x", ShaderKind::Fragment, &defines);
    assert!(out.contains("#define HAS_A 1\n#define HAS_B 1\n#define __GL 1\n"));
}

#[test]
fn v330_renames_by_stage() {
    let src = "attribute vec3 pos;\nvarying vec2 t;\nvoid main() {\ngl_FragColor = texture2D(a, t);\n}";
    let v = glsl_v330(src, ShaderKind::Vertex, &no_defines());
    assert!(v.contains("in vec3 pos;\n"));
    assert!(v.contains("out vec2 t;\n"));
    assert!(!v.contains("out vec4 output_FragColor;\n"));
    let f = glsl_v330(src, ShaderKind::Fragment, &no_defines());
    assert!(f.contains("in vec3 pos;\n"));
    assert!(f.contains("in vec2 t;\n"));
    assert!(f.contains("out vec4 output_FragColor;\n"));
    assert!(f.contains("output_FragColor = texture(a, t);\n"));
}

#[test]
fn v100_webgl_renames_lod_call() {
    let src = "x = textureCubeLod(Environment, n, 1.0);";
    let out = glsl_v100_webgl(src, ShaderKind::Fragment, &no_defines());
    assert!(out.contains("x = textureCubeLodEXT(Environment, n, 1.0);\n"));
}

// one output line per input line, beyond the fixed header: the header is
// exactly what an empty input produces
#[test]
fn line_counts_are_preserved() {
    let src = "attribute vec3 pos;\nvarying vec2 t;\nvoid main() {\ngl_Position = vec4(pos, 1.0);\n}\n";
    let n = src.lines().count();
    let d = no_defines();
    for kind in [ShaderKind::Vertex, ShaderKind::Fragment] {
        let h = glsl_v100("", kind, &d).lines().count();
        assert_eq!(glsl_v100(src, kind, &d).lines().count(), h + n);
        let h = glsl_v100_webgl("", kind, &d).lines().count();
        assert_eq!(glsl_v100_webgl(src, kind, &d).lines().count(), h + n);
        let h = glsl_v130("", kind, &d).lines().count();
        assert_eq!(glsl_v130(src, kind, &d).lines().count(), h + n);
        let h = glsl_v330("", kind, &d).lines().count();
        assert_eq!(glsl_v330(src, kind, &d).lines().count(), h + n);
        let h = glsl_v300es("", kind, &d).lines().count();
        assert_eq!(glsl_v300es(src, kind, &d).lines().count(), h + n);
    }
}

// a carriage return before a line feed is stripped with its line, as the
// line splitter reads Windows line endings
#[test]
fn carriage_returns_are_stripped() {
    let out = glsl_v130("a\r\nb", ShaderKind::Vertex, &no_defines());
    assert!(out.ends_with("#define __GL 1\na\nb\n"));
}

#[test]
fn transform_is_pure() {
    let meta = small_meta();
    let opts = Options::default();
    let a = transform(FRAGMENT_SRC, VERTEX_SRC, &meta, &opts).unwrap();
    let b = transform(FRAGMENT_SRC, VERTEX_SRC, &meta, &opts).unwrap();
    assert_eq!(a.v100.vertex, b.v100.vertex);
    assert_eq!(a.v100.fragment, b.v100.fragment);
    assert_eq!(a.v100_webgl.vertex, b.v100_webgl.vertex);
    assert_eq!(a.v100_webgl.fragment, b.v100_webgl.fragment);
    assert_eq!(a.v130.vertex, b.v130.vertex);
    assert_eq!(a.v130.fragment, b.v130.fragment);
    assert_eq!(a.v330.vertex, b.v330.vertex);
    assert_eq!(a.v330.fragment, b.v330.fragment);
    assert_eq!(a.v300es.vertex, b.v300es.vertex);
    assert_eq!(a.v300es.fragment, b.v300es.fragment);
    assert_eq!(a.metal, b.metal);
}

#[test]
fn metal_synthesizes_structs() {
    let meta = small_meta();
    let out = metal(FRAGMENT_SRC, VERTEX_SRC, &meta, &Options::default());
    assert!(out.starts_with("#include <metal_stdlib>\nusing namespace metal;\n#define __METAL 1\n"));
    assert!(out.contains("struct Uniforms {\n    float4x4 Projection;\n    float4 Color;\n};\n"));
    assert!(out.contains("struct Vertex {\n    float4 in_pos [[attribute(0)]];\n};\n"));
    assert!(out.contains(
        "struct RasterizerData {\n    float4 position [[position]];\n    float2 uv1 [[user(locn0)]];\n};\n"
    ));
    assert!(out.contains("vertex RasterizerData vertexShader(\n"));
    assert!(out.contains("msl_vertex_out.position = v.in_pos;\n"));
    assert!(out.contains("msl_vertex_out.uv1 = float2(0.0, 0.0);\n"));
    assert!(out.contains("return msl_vertex_out;\n"));
    assert!(out.contains("fragment float4 fragmentShader(\n"));
    assert!(out.contains("    texture2d<float> Albedo [[texture(0)]],\n"));
    assert!(out.contains("    sampler AlbedoSmplr [[sampler(0)]],\n"));
    assert!(out.contains("    texturecube<float> Environment [[texture(1)]],\n"));
    assert!(out.contains("    sampler EnvironmentSmplr [[sampler(1)]]"));
    assert!(out.contains("msl_out_color = Albedo.sample(AlbedoSmplr, in.uv1);\n"));
    assert!(out.contains("return msl_out_color;\n"));
}

// qualification never doubles a prefix, even when a name occurs twice on
// one line
#[test]
fn metal_substitution_stays_single() {
    let meta = small_meta();
    let vsrc = "attribute vec4 in_pos x [[attribute(0)]];\nvoid main() {\ngl_Position = in_pos + in_pos;\n}\n";
    let out = metal("void main() {\ngl_FragColor = Color;\n}\n", vsrc, &meta, &Options::default());
    assert!(out.contains("msl_vertex_out.position = v.in_pos + v.in_pos;\n"));
    assert!(!out.contains("v.v.in_pos"));
    assert!(out.contains("msl_out_color = uniforms.Color;\n"));
    assert!(!out.contains("uniforms.uniforms."));
}

#[test]
fn metal_multiple_render_targets() {
    let meta = small_meta();
    let fsrc = "layout (location = 1) out vec4 extra;\nvoid main() {\nextra = vec4(1.0);\ngl_FragColor = vec4(0.0);\n}\n";
    let out = metal(fsrc, VERTEX_SRC, &meta, &Options::default());
    assert!(out.contains("struct FragmentOutput {\n    float4 extra [[color(1)]];\n};\n"));
    assert!(out.contains("fragment FragmentOutput fragmentShader(\n"));
    assert!(out.contains("msl_out_color.extra = float4(1.0);\n"));
    assert!(out.contains("msl_out_color = float4(0.0);\n"));
}

#[test]
fn metal_flip_y_injected() {
    let meta = small_meta();
    let mut opts = Options::default();
    opts.metal_flip_y = true;
    let out = metal(FRAGMENT_SRC, VERTEX_SRC, &meta, &opts);
    assert!(out.contains("msl_vertex_out.position.y = -msl_vertex_out.position.y;\nreturn msl_vertex_out;\n"));
    let plain = metal(FRAGMENT_SRC, VERTEX_SRC, &meta, &Options::default());
    assert!(!plain.contains("msl_vertex_out.position.y = -msl_vertex_out.position.y;\n"));
}

fn bundle() -> quad_gl::glsl::Output {
    transform(FRAGMENT_SRC, VERTEX_SRC, &small_meta(), &Options::default()).unwrap()
}

// capability flags {v300es:false, v330:true, v130:true, v100_ext:true}
// must pick the v330 variant, never a lower tier
#[test]
fn selection_picks_highest_tier() {
    let out = bundle();
    let info = ContextInfo {
        backend: Backend::OpenGl,
        glsl_support: GlslSupport { v100_ext: true, v130: true, v300es: false, v330: true },
    };
    match choose_appropriate_shader(&out, &info) {
        ShaderSource::Glsl { vertex, fragment } => {
            assert_eq!(vertex, out.v330.vertex.as_str());
            assert_eq!(fragment, out.v330.fragment.as_str());
        }
        ShaderSource::Msl { .. } => panic!("a GLSL backend must receive GLSL"),
    }
}

#[test]
fn selection_orders_all_tiers() {
    let out = bundle();
    let pick = |s: GlslSupport| {
        let info = ContextInfo { backend: Backend::OpenGl, glsl_support: s };
        match choose_appropriate_shader(&out, &info) {
            ShaderSource::Glsl { vertex, .. } => vertex.to_owned(),
            ShaderSource::Msl { .. } => panic!("a GLSL backend must receive GLSL"),
        }
    };
    let all = GlslSupport { v100_ext: true, v130: true, v300es: true, v330: true };
    assert_eq!(pick(all), out.v300es.vertex);
    assert_eq!(
        pick(GlslSupport { v300es: false, ..all }),
        out.v330.vertex
    );
    assert_eq!(
        pick(GlslSupport { v300es: false, v330: false, ..all }),
        out.v130.vertex
    );
    assert_eq!(
        pick(GlslSupport { v300es: false, v330: false, v130: false, ..all }),
        out.v100_webgl.vertex
    );
    assert_eq!(
        pick(GlslSupport { v100_ext: false, v130: false, v300es: false, v330: false }),
        out.v100.vertex
    );
}

#[test]
fn selection_metal_backend() {
    let out = bundle();
    let info = ContextInfo {
        backend: Backend::Metal,
        glsl_support: GlslSupport { v100_ext: true, v130: true, v300es: true, v330: true },
    };
    match choose_appropriate_shader(&out, &info) {
        ShaderSource::Msl { program } => assert_eq!(program, out.metal.as_str()),
        ShaderSource::Glsl { .. } => panic!("the struct-based backend must receive its blob"),
    }
}
