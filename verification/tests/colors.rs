use raytracer_rust::colors::Color;

#[test]
fn color_channels_and_view() {
    let c = Color::new(3, 5, 7);
    assert_eq!((c.r(), c.g(), c.b()), (3, 5, 7));
    let v = c.rgb();
    assert_eq!((v.r, v.g, v.b), (3, 5, 7));
}

#[test]
fn color_default_is_black() {
    let c = Color::default();
    assert_eq!(c, Color::new(0, 0, 0));
}

#[test]
fn color_arithmetic() {
    let c1 = Color::new(9, 6, 75);
    let c2 = Color::new(7, 1, 25);
    assert_eq!(c1 + c2, Color::new(16, 7, 100));
    assert_eq!(c1 - c2, Color::new(2, 5, 50));
    assert_eq!(c1 * 2, Color::new(18, 12, 150));
    assert_eq!(c1 / 3, Color::new(3, 2, 25));
}

#[test]
fn hadamard_product() {
    let c1 = Color::new(10, 2, 4);
    let c2 = Color::new(9, 10, 1);
    assert_eq!(c1 * c2, Color::new(90, 20, 4));
}

#[test]
fn color_channel_writes_alias_slots() {
    let mut c = Color::new(1, 2, 3);
    c.set_r(100);
    c.set_b(-7);
    assert_eq!((c.r(), c.g(), c.b()), (100, 2, -7));
    assert_eq!(c.rgb().b, -7);
    c.set_g(55);
    assert_eq!(c.rgb().g, 55);
}
