use softrender::color::Color;

#[test]
fn new_sets_channels() {
    let c = Color::new(10, 20, 30);
    assert_eq!(c.r, 10);
    assert_eq!(c.g, 20);
    assert_eq!(c.b, 30);
}

#[test]
fn black_is_zero() {
    let c = Color::black();
    assert_eq!((c.r, c.g, c.b), (0, 0, 0));
}

#[test]
fn from_hex_unpacks() {
    let c = Color::from_hex(0xAABBCC);
    assert_eq!((c.r, c.g, c.b), (0xAA, 0xBB, 0xCC));
}

#[test]
fn from_hex_ignores_high_bits() {
    let c = Color::from_hex(0xFFAABBCC);
    assert_eq!((c.r, c.g, c.b), (0xAA, 0xBB, 0xCC));
}

#[test]
fn to_hex_packs() {
    assert_eq!(Color::new(0x12, 0x34, 0x56).to_hex(), 0x123456);
}

#[test]
fn hex_round_trip() {
    for hex in [0x000000u32, 0xFFFFFF, 0x123456, 0x00FF00] {
        assert_eq!(Color::from_hex(hex).to_hex(), hex);
    }
    let c = Color::new(7, 130, 255);
    let d = Color::from_hex(c.to_hex());
    assert_eq!((d.r, d.g, d.b), (7, 130, 255));
}

#[test]
fn saturating_add_saturates() {
    let a = Color::new(200, 100, 0);
    let b = Color::new(100, 100, 5);
    let c = a.saturating_add(&b);
    assert_eq!((c.r, c.g, c.b), (255, 200, 5));
}
