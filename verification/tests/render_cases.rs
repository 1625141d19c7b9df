use metaballs::field::{pixel_color, render, Ball};
use metaballs::pixel::Pixel;

fn black() -> Pixel {
    Pixel { r: 0, g: 0, b: 0 }
}

#[test]
fn lone_source_scene() {
    // one source at (5,5), radius 10, black background, 10x10 buffer
    let color = Pixel { r: 200, g: 100, b: 50 };
    let balls = vec![Ball { x: 5, y: 5, r: 10, color }];
    let mut buf = vec![black(); 100];
    render(&balls, 10, 10, black(), &mut buf);
    // at the source itself the clamped distance is 1: its exact color
    let at_source = buf[5 * 10 + 5];
    assert_eq!((at_source.r, at_source.g, at_source.b), (200, 100, 50));
    // the far corner is still about 7 pixels away: field 10000/7 is far
    // above the threshold, and a lone source paints its exact color
    let corner = buf[0];
    assert_eq!((corner.r, corner.g, corner.b), (200, 100, 50));
}

#[test]
fn weak_far_source_is_background() {
    // radius 1 at distance 10: field 0.1 stays under the threshold 0.2
    let balls = vec![Ball { x: 5, y: 5, r: 1, color: Pixel { r: 9, g: 9, b: 9 } }];
    let bg = Pixel { r: 1, g: 2, b: 3 };
    let p = pixel_color(&balls, bg, 15, 5);
    assert_eq!((p.r, p.g, p.b), (1, 2, 3));
}

#[test]
fn far_pixel_shows_exact_background() {
    // radius 5, one source: anything beyond distance 25 is background
    let balls = vec![Ball { x: 0, y: 0, r: 5, color: Pixel { r: 255, g: 255, b: 255 } }];
    let bg = Pixel { r: 0x11, g: 0x11, b: 0x1B };
    let p = pixel_color(&balls, bg, 30, 0);
    assert_eq!((p.r, p.g, p.b), (0x11, 0x11, 0x1B));
}

#[test]
fn two_source_ratio_blend() {
    // fields at (0,0): 5000/1 and 500 from ten pixels away; ratio law
    let balls = vec![
        Ball { x: 0, y: 0, r: 5, color: Pixel { r: 255, g: 0, b: 0 } },
        Ball { x: 10, y: 0, r: 5, color: Pixel { r: 0, g: 0, b: 255 } },
    ];
    let p = pixel_color(&balls, black(), 0, 0);
    // r = 5000*255/5500 = 231, b = 500*255/5500 = 23
    assert_eq!((p.r, p.g, p.b), (231, 0, 23));
    // the source standing at the pixel dominates the distant one
    assert!(p.r > p.b);
}

#[test]
fn nearest_of_three_dominates() {
    // distance-complement law: weights 200/201, 101/201, 101/201
    let balls = vec![
        Ball { x: 0, y: 0, r: 5, color: Pixel { r: 255, g: 0, b: 0 } },
        Ball { x: 100, y: 0, r: 5, color: Pixel { r: 0, g: 255, b: 0 } },
        Ball { x: 0, y: 100, r: 5, color: Pixel { r: 0, g: 0, b: 255 } },
    ];
    let p = pixel_color(&balls, black(), 0, 0);
    assert_eq!((p.r, p.g, p.b), (253, 128, 128));
    assert!(p.r > p.g && p.r > p.b);
}
