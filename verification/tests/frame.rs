use quad_gl::scene::{
    AABB, CullState, Environment, FrameCommand, FrameParams, Material2, Model, Model2, Node,
    NodeData, NodeMat, Scene, ShadowCaster, ShadowSplit,
};
use quad_gl::shader::Shader;

const WHITE: u64 = 100;
const BLACK: u64 = 101;

fn ident_mat() -> [u32; 16] {
    let one = 1.0f32.to_bits();
    let mut m = [0u32; 16];
    m[0] = one;
    m[5] = one;
    m[10] = one;
    m[15] = one;
    m
}

fn one_node_model() -> Model {
    let material = Material2 {
        color: [1.0f32.to_bits(); 4],
        base_color_texture: None,
        emissive_texture: Some(55),
        normal_texture: None,
        occlusion_texture: None,
        metallic_roughness_texture: None,
        metallic: 0.01f32.to_bits(),
        roughness: 0.8f32.to_bits(),
        shader: Shader::new(7, 8, Vec::new()),
    };
    let data = NodeData { vertex_buffers: vec![1, 2, 3, 4], index_buffer: 5 };
    Model {
        nodes: vec![Node {
            name: "root".to_owned(),
            data: vec![data],
            materials: vec![material],
            transform: Default::default(),
        }],
        aabb: AABB { min: [0, 0, 0], max: [0, 0, 0] },
    }
}

fn frame(cull: CullState) -> FrameParams {
    FrameParams {
        projection: ident_mat(),
        camera_position: [0, 0, 0],
        environment: Environment::SolidColor([0, 0, 0, 0]),
        render_pass: None,
        shadow_proj: [ident_mat(); 4],
        shadow_cascades: [0; 4],
        shadowmap: [90, 91, 92, 93],
        culls: vec![cull],
        matrices: vec![vec![NodeMat { model: ident_mat(), model_inverse: ident_mat() }]],
    }
}

#[test]
fn shadow_plan_counts_cascades() {
    let mut scene = Scene::new(WHITE, BLACK);
    assert!(scene.shadow_plan().is_none());
    scene.add_shadow_caster(ShadowCaster { direction: [0, 0, 0], split: ShadowSplit::PSSM4 });
    let (caster, splits) = scene.shadow_plan().unwrap();
    assert_eq!(splits, 4);
    assert!(matches!(caster.split, ShadowSplit::PSSM4));
    let mut scene2 = Scene::new(WHITE, BLACK);
    scene2.add_shadow_caster(ShadowCaster { direction: [0, 0, 0], split: ShadowSplit::Orthogonal });
    assert_eq!(scene2.shadow_plan().unwrap().1, 1);
    let mut scene3 = Scene::new(WHITE, BLACK);
    scene3.add_shadow_caster(ShadowCaster { direction: [0, 0, 0], split: ShadowSplit::PSSM2 });
    assert_eq!(scene3.shadow_plan().unwrap().1, 2);
}

#[test]
fn begin_frame_draws_the_skybox_first() {
    let scene = Scene::new(WHITE, BLACK);
    let cmds = scene.begin_frame(&Environment::Skybox(77));
    assert_eq!(cmds.len(), 1);
    assert!(matches!(cmds[0], FrameCommand::DrawSkybox { cubemap: 77 }));
    let none = scene.begin_frame(&Environment::SolidColor([0, 0, 0, 0]));
    assert!(none.is_empty());
}

// a visible model produces exactly one draw per node/material pair, with
// one caster and four splits carried in the merged upload
#[test]
fn draw_emits_one_draw_per_pair() {
    let mut scene = Scene::new(WHITE, BLACK);
    scene.add_shadow_caster(ShadowCaster { direction: [0, 0, 0], split: ShadowSplit::PSSM4 });
    let h = scene.add_model(one_node_model());
    assert_eq!(h.0, 0);
    let fr = frame(CullState { outside: [false; 6] });
    let cmds = scene.draw(&fr);
    assert_eq!(cmds.len(), 6);
    assert!(matches!(
        cmds[0],
        FrameCommand::BeginPass { render_pass: None, clear_color: Some(_) }
    ));
    assert!(matches!(cmds[1], FrameCommand::ApplyPipeline { pipeline: 8 }));
    match &cmds[2] {
        FrameCommand::ApplyBindings { vertex_buffers, index_buffer, images } => {
            assert_eq!(vertex_buffers, &vec![1, 2, 3, 4]);
            assert_eq!(*index_buffer, 5);
            // fallbacks: white for missing colour maps, black for the
            // missing emissive map, white for the solid-colour cubemap
            assert_eq!(images, &[WHITE, 55, WHITE, WHITE, WHITE, WHITE, 90, 91, 92, 93]);
        }
        _ => panic!("the second command must bind buffers"),
    }
    match &cmds[3] {
        FrameCommand::ApplyUniforms { bytes } => {
            assert_eq!(bytes.len(), 524);
            // the caster counts land at the ShadowCasters offset: one
            // caster, four splits
            let mut expected: Vec<u8> = Vec::new();
            for w in [1i32, 4, 0, 0] {
                expected.extend_from_slice(&w.to_le_bytes());
            }
            assert_eq!(&bytes[480..496], &expected[..]);
            // the projection matrix bytes land at offset zero
            let mut proj: Vec<u8> = Vec::new();
            for w in ident_mat() {
                proj.extend_from_slice(&w.to_le_bytes());
            }
            assert_eq!(&bytes[0..64], &proj[..]);
        }
        _ => panic!("the third command must upload uniforms"),
    }
    assert!(matches!(
        cmds[4],
        FrameCommand::Draw { index_buffer: 5, instances_buffer: 4 }
    ));
    assert!(matches!(cmds[5], FrameCommand::EndPass));
    // the upload persists in the material's buffer
    let shader = &scene.models[0].model.nodes[0].materials[0].shader;
    assert_eq!(&shader.uniforms_data[480..484], &1i32.to_le_bytes());
    assert_eq!(&shader.uniforms_data[484..488], &4i32.to_le_bytes());
}

// a model fully outside one clip plane produces no command at all
#[test]
fn draw_culls_excluded_models() {
    let mut scene = Scene::new(WHITE, BLACK);
    let _ = scene.add_model(one_node_model());
    let mut outside = [false; 6];
    outside[2] = true;
    let cmds = scene.draw(&frame(CullState { outside }));
    assert_eq!(cmds.len(), 2);
    assert!(matches!(cmds[0], FrameCommand::BeginPass { .. }));
    assert!(matches!(cmds[1], FrameCommand::EndPass));
}

#[test]
fn transforms_update_and_read_back() {
    let mut scene = Scene::new(WHITE, BLACK);
    let h = scene.add_model(one_node_model());
    let pos = [1.5f32.to_bits(), 2.0f32.to_bits(), 0];
    let world = AABB { min: [9, 9, 9], max: [10, 10, 10] };
    scene.set_translation(&h, pos, world);
    assert_eq!(scene.translation(&h), pos);
    assert_eq!(scene.aabb(&h), world);
    let rot = [0, 0, 0, 1.0f32.to_bits()];
    scene.set_rotation(&h, rot, world);
    assert_eq!(scene.rotation(&h), rot);
    scene.set_scale(&h, [1, 2, 3], world);
    assert_eq!(scene.models[h.0].transform.scale, [1, 2, 3]);
}

#[test]
fn skybox_environment_keeps_the_backdrop() {
    let mut scene = Scene::new(WHITE, BLACK);
    let h = scene.add_model(one_node_model());
    let _ = h;
    let mut fr = frame(CullState { outside: [false; 6] });
    fr.environment = Environment::Skybox(77);
    let cmds = scene.draw(&fr);
    // no clear under a skybox, and the cubemap is bound for the draw
    assert!(matches!(
        cmds[0],
        FrameCommand::BeginPass { render_pass: None, clear_color: None }
    ));
    match &cmds[2] {
        FrameCommand::ApplyBindings { images, .. } => {
            assert_eq!(images[5], 77);
        }
        _ => panic!("the second command must bind buffers"),
    }
}
