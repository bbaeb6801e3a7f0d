use chronograph::icon::{icon_rgba, viewport_icon, ICON_SIZE};

fn on_hand(dx: f32, dy: f32, angle: f32, length: f32, half_width: f32) -> bool {
    let ux = angle.cos();
    let uy = angle.sin();
    let along = dx * ux + dy * uy;
    let perp = (-dx * uy + dy * ux).abs();
    along >= -0.5 && along <= length && perp <= half_width
}

/// The icon as the floating-point drawing describes it.
fn float_icon() -> Vec<u8> {
    const W: u32 = 32;
    const H: u32 = 32;
    let mut pixels = vec![0u8; (W * H * 4) as usize];
    let cx = 15.5f32;
    let cy = 15.5f32;
    for y in 0..H {
        for x in 0..W {
            let idx = ((y * W + x) * 4) as usize;
            let dx = x as f32 - cx;
            let dy = y as f32 - cy;
            let dist = (dx * dx + dy * dy).sqrt();
            let on_ring = dist >= 13.2 && dist <= 15.5;
            let inside = dist < 13.2;
            let hour_angle: f32 = -std::f32::consts::PI / 2.0 - std::f32::consts::PI / 6.0;
            let on_hour = on_hand(dx, dy, hour_angle, 5.5, 1.3);
            let min_angle: f32 = -std::f32::consts::PI / 2.0 + std::f32::consts::PI / 2.0;
            let on_min = on_hand(dx, dy, min_angle, 8.5, 1.0);
            let on_center = dist < 1.8;
            let (r, g, b, a) = if on_ring {
                (220, 220, 220, 255)
            } else if inside && (on_hour || on_min || on_center) {
                (255, 255, 255, 255)
            } else if inside {
                (45, 45, 55, 230)
            } else {
                (0, 0, 0, 0)
            };
            pixels[idx] = r;
            pixels[idx + 1] = g;
            pixels[idx + 2] = b;
            pixels[idx + 3] = a;
        }
    }
    pixels
}

#[test]
fn icon_is_32_by_32_rgba() {
    let (rgba, w, h) = icon_rgba();
    assert_eq!(w, 32);
    assert_eq!(h, 32);
    assert_eq!(ICON_SIZE, 32);
    assert_eq!(rgba.len(), 32 * 32 * 4);
    assert_eq!(rgba.len() % 4, 0);
    assert_eq!(rgba.len() / 4, (w * h) as usize);
}

#[test]
fn icon_matches_the_floating_point_drawing() {
    let (rgba, _, _) = icon_rgba();
    assert_eq!(rgba, float_icon());
}

#[test]
fn icon_has_a_transparent_corner_a_rim_and_a_white_centre() {
    let (rgba, _, _) = icon_rgba();
    let px = |x: usize, y: usize| {
        let i = (y * 32 + x) * 4;
        (rgba[i], rgba[i + 1], rgba[i + 2], rgba[i + 3])
    };
    assert_eq!(px(0, 0), (0, 0, 0, 0));
    assert_eq!(px(15, 1), (220, 220, 220, 255));
    assert_eq!(px(15, 15), (255, 255, 255, 255));
    assert_eq!(px(20, 15), (255, 255, 255, 255));
    assert_eq!(px(10, 25), (45, 45, 55, 230));
}

#[test]
fn viewport_icon_carries_the_pixels() {
    let icon = viewport_icon();
    let (rgba, w, h) = icon_rgba();
    assert_eq!(icon.width, w);
    assert_eq!(icon.height, h);
    assert_eq!(icon.rgba, rgba);
}
