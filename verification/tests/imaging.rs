use quad_gl::filters::{mirror, Mirror, MirrorMode};
use quad_gl::gizmos::{draw_gizmos, gizmos_add_line, init_gizmos};
use quad_gl::image::{Color, Image, Rect};
use quad_gl::texture::{Texture2D, TextureHandle, TexturesContext};

fn c(r: u8, g: u8, b: u8, a: u8) -> Color {
    Color { r, g, b, a }
}

#[test]
fn empty_image() {
    let img = Image::empty();
    assert_eq!(img.width(), 0);
    assert_eq!(img.height(), 0);
    assert!(img.bytes.is_empty());
}

#[test]
fn gen_image_color_fills_every_pixel() {
    let img = Image::gen_image_color(2, 3, c(1, 2, 3, 4));
    assert_eq!(img.width(), 2);
    assert_eq!(img.height(), 3);
    assert_eq!(img.bytes, vec![1, 2, 3, 4].repeat(6));
}

#[test]
fn update_overwrites_pixels() {
    let mut img = Image::gen_image_color(2, 1, c(0, 0, 0, 0));
    img.update(&[c(10, 11, 12, 13), c(20, 21, 22, 23)]);
    assert_eq!(img.bytes, vec![10, 11, 12, 13, 20, 21, 22, 23]);
}

#[test]
fn set_and_get_pixel() {
    let mut img = Image::gen_image_color(3, 2, c(0, 0, 0, 0));
    img.set_pixel(2, 1, c(9, 8, 7, 6));
    assert_eq!(img.get_pixel(2, 1), c(9, 8, 7, 6));
    assert_eq!(img.get_pixel(0, 0), c(0, 0, 0, 0));
    // the flat index 5 is the last pixel: bytes 20..24
    assert_eq!(&img.bytes[20..24], &[9, 8, 7, 6]);
}

#[test]
fn sub_image_copies_the_rectangle() {
    let mut img = Image::gen_image_color(3, 3, c(0, 0, 0, 0));
    for y in 0..3u32 {
        for x in 0..3u32 {
            img.set_pixel(x, y, c((10 * y + x) as u8, 0, 0, 255));
        }
    }
    let sub = img.sub_image(Rect { x: 1, y: 1, w: 2, h: 2 });
    assert_eq!(sub.width(), 2);
    assert_eq!(sub.height(), 2);
    assert_eq!(sub.get_pixel(0, 0).r, 11);
    assert_eq!(sub.get_pixel(1, 0).r, 12);
    assert_eq!(sub.get_pixel(0, 1).r, 21);
    assert_eq!(sub.get_pixel(1, 1).r, 22);
}

#[test]
fn export_reverses_rows() {
    let mut img = Image::gen_image_color(1, 3, c(0, 0, 0, 0));
    img.set_pixel(0, 0, c(1, 1, 1, 1));
    img.set_pixel(0, 1, c(2, 2, 2, 2));
    img.set_pixel(0, 2, c(3, 3, 3, 3));
    let out = img.export_png();
    assert_eq!(out, vec![3, 3, 3, 3, 2, 2, 2, 2, 1, 1, 1, 1]);
}

// a 3x3 grid
// 1 2 3
// 4 5 6
// 7 8 9
fn grid() -> Vec<u8> {
    vec![1, 2, 3, 4, 5, 6, 7, 8, 9]
}

#[test]
fn mirror_east_copies_right_onto_left() {
    let mut px = grid();
    mirror(&mut px, 3, 3, MirrorMode::East);
    assert_eq!(px, vec![3, 2, 3, 6, 5, 6, 9, 8, 9]);
}

#[test]
fn mirror_west_copies_left_onto_right() {
    let mut px = grid();
    mirror(&mut px, 3, 3, MirrorMode::West);
    assert_eq!(px, vec![1, 2, 1, 4, 5, 4, 7, 8, 7]);
}

#[test]
fn mirror_north_copies_top_onto_bottom() {
    let mut px = grid();
    mirror(&mut px, 3, 3, MirrorMode::North);
    assert_eq!(px, vec![1, 2, 3, 4, 5, 6, 1, 2, 3]);
}

#[test]
fn mirror_south_copies_bottom_onto_top() {
    let mut px = grid();
    mirror(&mut px, 3, 3, MirrorMode::South);
    assert_eq!(px, vec![7, 8, 9, 4, 5, 6, 7, 8, 9]);
}

#[test]
fn mirror_even_width() {
    let mut px = vec![1, 2, 3, 4];
    mirror(&mut px, 4, 1, MirrorMode::East);
    assert_eq!(px, vec![4, 3, 3, 4]);
}

#[test]
fn mirror_filter_carries_its_mode() {
    let m = Mirror::new(MirrorMode::North);
    assert!(matches!(m.mode, MirrorMode::North));
}

#[test]
fn gizmo_lines_drain_to_persistent() {
    let mut g = init_gizmos();
    gizmos_add_line(&mut g, false, [1, 2, 3], [4, 5, 6]);
    gizmos_add_line(&mut g, true, [7, 8, 9], [10, 11, 12]);
    let drawn = draw_gizmos(&mut g);
    assert_eq!(drawn.len(), 2);
    assert_eq!(drawn[0].p0, [1, 2, 3]);
    assert_eq!(drawn[1].p1, [10, 11, 12]);
    assert_eq!(g.lines.len(), 1);
    assert!(g.lines[0].persist);
    let drawn2 = draw_gizmos(&mut g);
    assert_eq!(drawn2.len(), 1);
    assert_eq!(g.lines.len(), 1);
}

#[test]
fn texture_registry_stores_and_resolves() {
    let mut ctx = TexturesContext::new();
    assert_eq!(ctx.len(), 0);
    let h = ctx.store_texture((42, 16, 16));
    assert_eq!(ctx.len(), 1);
    let k = match h {
        TextureHandle::Managed(k) => k,
        _ => panic!("stored textures are managed"),
    };
    assert_eq!(ctx.texture(k), Some((42, 16, 16)));
    let tex = Texture2D { texture: h };
    assert_eq!(tex.raw_miniquad_id(&ctx), 42);
    ctx.remove(k);
    assert_eq!(ctx.len(), 0);
    assert_eq!(ctx.texture(k), None);
}

#[test]
fn weak_clone_never_owns() {
    let mut ctx = TexturesContext::new();
    let h = ctx.store_texture((5, 1, 1));
    let tex = Texture2D { texture: h };
    let weak = tex.weak_clone();
    match (tex.texture, weak.texture) {
        (TextureHandle::Managed(a), TextureHandle::ManagedWeak(b)) => assert_eq!(a, b),
        _ => panic!("a managed handle weakens to its key"),
    }
    let unmanaged = Texture2D::unmanaged(9);
    assert!(matches!(unmanaged.weak_clone().texture, TextureHandle::Unmanaged(9)));
    assert_eq!(unmanaged.raw_miniquad_id(&ctx), 9);
    assert!(matches!(
        Texture2D::from_miniquad_texture(77).texture,
        TextureHandle::Unmanaged(77)
    ));
}
