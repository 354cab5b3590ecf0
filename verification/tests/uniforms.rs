use quad_gl::meta::UniformType;
use quad_gl::shader::{meta, Shader};

// base layout: Projection 0..64, ShadowProjection 64..320, Model 320..384,
// ModelInverse 384..448, Color 448..464, ShadowCascades 464..480,
// ShadowCasters 480..496, Material 496..512, CameraPosition 512..524

#[test]
fn meta_lists_the_base_bindings() {
    let m = meta();
    let names: Vec<&str> = m.images.iter().map(|s| s.as_str()).collect();
    assert_eq!(
        names,
        vec![
            "Albedo",
            "Emissive",
            "Occlusion",
            "Normal",
            "MetallicRoughness",
            "Environment",
            "ShadowMap0",
            "ShadowMap1",
            "ShadowMap2",
            "ShadowMap3",
        ]
    );
    assert_eq!(m.uniforms.uniforms.len(), 9);
    assert_eq!(m.uniforms.uniforms[0].name, "Projection");
    assert_eq!(m.uniforms.uniforms[1].array_count, 4);
}

#[test]
fn shader_buffer_is_zeroed_and_sized() {
    let s = Shader::new(1, 2, Vec::new());
    assert_eq!(s.shader, 1);
    assert_eq!(s.pipeline, 2);
    assert_eq!(s.uniforms_data.len(), 524);
    assert!(s.uniforms_data.iter().all(|b| *b == 0));
}

#[test]
fn shader_extension_extends_the_buffer() {
    let s = Shader::new(0, 0, vec![("Wobble".to_owned(), UniformType::Float2, 3)]);
    assert_eq!(s.uniforms_data.len(), 524 + 24);
}

// a value written by name reads back from its recorded offset and size,
// and no neighbouring byte moves
#[test]
fn set_uniform_round_trip() {
    let mut s = Shader::new(0, 0, Vec::new());
    let v: Vec<u8> = (1..=16).collect();
    s.set_uniform("Color", &v);
    assert_eq!(&s.uniforms_data[448..464], &v[..]);
    assert!(s.uniforms_data[..448].iter().all(|b| *b == 0));
    assert!(s.uniforms_data[464..].iter().all(|b| *b == 0));
}

// writing a red colour leaves the projection bytes alone and stores the
// platform's float encoding at the colour's offset
#[test]
fn uniform_write_leaves_neighbours() {
    let mut s = Shader::new(0, 0, Vec::new());
    let proj: Vec<u8> = (0..64).map(|i| i as u8).collect();
    s.set_uniform("Projection", &proj);
    let red = [1.0f32, 0.0, 0.0, 1.0];
    let mut bytes: Vec<u8> = Vec::new();
    for c in red {
        bytes.extend_from_slice(&c.to_ne_bytes());
    }
    s.set_uniform("Color", &bytes);
    assert_eq!(&s.uniforms_data[0..64], &proj[..]);
    assert_eq!(&s.uniforms_data[448..464], &bytes[..]);
}

#[test]
fn set_uniform_unknown_name_is_a_no_op() {
    let mut s = Shader::new(0, 0, Vec::new());
    let before = s.uniforms_data.clone();
    s.set_uniform("NoSuchUniform", &[1, 2, 3, 4]);
    assert_eq!(s.uniforms_data, before);
}

#[test]
fn set_uniform_writes_declared_size_only() {
    let mut s = Shader::new(0, 0, Vec::new());
    let big: Vec<u8> = vec![7; 64];
    // CameraPosition is twelve bytes; the rest of the value is ignored
    s.set_uniform("CameraPosition", &big);
    assert!(s.uniforms_data[512..524].iter().all(|b| *b == 7));
    assert_eq!(s.uniforms_data.len(), 524);
}

#[test]
fn uniform_type_sizes() {
    assert_eq!(UniformType::Float1.size(), 4);
    assert_eq!(UniformType::Float2.size(), 8);
    assert_eq!(UniformType::Float3.size(), 12);
    assert_eq!(UniformType::Float4.size(), 16);
    assert_eq!(UniformType::Int1.size(), 4);
    assert_eq!(UniformType::Int2.size(), 8);
    assert_eq!(UniformType::Int3.size(), 12);
    assert_eq!(UniformType::Int4.size(), 16);
    assert_eq!(UniformType::Mat4.size(), 64);
}
