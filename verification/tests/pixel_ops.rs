use metaballs::pixel::{Pixel, WEIGHT_SCALE};

#[test]
fn from_hex_splits_channels() {
    let p = Pixel::from_hex(0x11111B);
    assert_eq!((p.r, p.g, p.b), (0x11, 0x11, 0x1B));
    let q = Pixel::from_hex(0xD20F39);
    assert_eq!((q.r, q.g, q.b), (0xD2, 0x0F, 0x39));
    let z = Pixel::from_hex(0x000000);
    assert_eq!((z.r, z.g, z.b), (0, 0, 0));
    let w = Pixel::from_hex(0xFFFFFF);
    assert_eq!((w.r, w.g, w.b), (255, 255, 255));
}

#[test]
fn blend_full_weight_keeps_self() {
    let a = Pixel { r: 200, g: 100, b: 50 };
    let b = Pixel { r: 10, g: 20, b: 30 };
    let out = a.blend(b, WEIGHT_SCALE);
    assert_eq!((out.r, out.g, out.b), (200, 100, 50));
}

#[test]
fn blend_zero_weight_keeps_other() {
    let a = Pixel { r: 200, g: 100, b: 50 };
    let b = Pixel { r: 10, g: 20, b: 30 };
    let out = a.blend(b, 0);
    assert_eq!((out.r, out.g, out.b), (10, 20, 30));
}

#[test]
fn blend_quarter_weight_truncates() {
    let a = Pixel { r: 200, g: 100, b: 50 };
    let b = Pixel { r: 0, g: 0, b: 0 };
    let out = a.blend(b, 250);
    // each channel is a quarter of a's, truncated
    assert_eq!((out.r, out.g, out.b), (50, 25, 12));
    let half = a.blend(Pixel { r: 101, g: 3, b: 0 }, 500);
    // 200*0.5 + 101*0.5 = 150.5 -> 150; 100*0.5 + 3*0.5 = 51.5 -> 51
    assert_eq!((half.r, half.g, half.b), (150, 51, 25));
}
