use softrast::texture::{pack_rgb, Material, Rgb, Texture};

fn rgb(r: u8, g: u8, b: u8) -> Rgb {
    Rgb { r, g, b }
}

#[test]
fn pack_is_zero_red_green_blue() {
    assert_eq!(pack_rgb(rgb(0x12, 0x34, 0x56)), 0x0012_3456);
    assert_eq!(pack_rgb(rgb(255, 255, 255)), 0x00FF_FFFF);
    assert_eq!(pack_rgb(rgb(0, 0, 0)), 0);
}

#[test]
fn texel_lookup_and_white_fallback() {
    let t = Texture::new(vec![rgb(1, 0, 0), rgb(2, 0, 0), rgb(3, 0, 0), rgb(4, 0, 0)], 2, 2);
    assert_eq!(t.get_pixel(0, 0), rgb(1, 0, 0));
    assert_eq!(t.get_pixel(1, 0), rgb(2, 0, 0));
    assert_eq!(t.get_pixel(0, 1), rgb(3, 0, 0));
    assert_eq!(t.get_pixel(1, 1), rgb(4, 0, 0));
    assert_eq!(t.get_pixel(2, 0), rgb(255, 255, 255));
    assert_eq!(t.get_pixel(0, 2), rgb(255, 255, 255));
}

#[test]
fn rgba_bytes_drop_alpha() {
    let raw = vec![10, 20, 30, 40, 50, 60, 70, 80];
    let t = Texture::from_rgba8(&raw, 2, 1);
    assert_eq!(t.width(), 2);
    assert_eq!(t.height(), 1);
    assert_eq!(t.get_pixel(0, 0), rgb(10, 20, 30));
    assert_eq!(t.get_pixel(1, 0), rgb(50, 60, 70));
}

#[test]
fn material_holds_its_texture() {
    let m = Material::new(Texture::new(vec![rgb(9, 8, 7)], 1, 1));
    assert_eq!(m.diffuse_texture.get_pixel(0, 0), rgb(9, 8, 7));
}
