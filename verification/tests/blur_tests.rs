use dwmlock::blur::blur_buffer;

fn uniform_buffer(width: usize, height: usize, color: [u8; 4]) -> Vec<u8> {
    let mut pixels = Vec::with_capacity(width * height * 4);
    for _ in 0..width * height {
        pixels.extend_from_slice(&color);
    }
    pixels
}

#[test]
fn zero_radius_is_identity() {
    for (w, h) in [(0usize, 0usize), (1, 1), (3, 2), (5, 7)] {
        let mut pixels: Vec<u8> = (0..w * h * 4).map(|i| (i * 37 % 256) as u8).collect();
        let before = pixels.clone();
        blur_buffer(&mut pixels, w, h, 0);
        assert_eq!(pixels, before);
    }
}

#[test]
fn degenerate_dimensions_are_identity() {
    let mut empty: Vec<u8> = Vec::new();
    blur_buffer(&mut empty, 0, 5, 3);
    assert!(empty.is_empty());
    blur_buffer(&mut empty, 5, 0, 3);
    assert!(empty.is_empty());
}

#[test]
fn uniform_input_is_fixed_point() {
    for radius in [1usize, 2, 10] {
        let mut pixels = uniform_buffer(4, 3, [10, 20, 30, 40]);
        let before = pixels.clone();
        blur_buffer(&mut pixels, 4, 3, radius);
        assert_eq!(pixels, before);
    }
}

#[test]
fn repeated_blur_of_uniform_is_fixed_point() {
    let mut pixels = uniform_buffer(3, 3, [200, 100, 50, 255]);
    let before = pixels.clone();
    blur_buffer(&mut pixels, 3, 3, 2);
    blur_buffer(&mut pixels, 3, 3, 2);
    assert_eq!(pixels, before);
}

#[test]
fn width_one_blurs_vertically_only() {
    // One column, three rows; channel 0 carries 10, 20, 40.
    let mut pixels = vec![
        10, 0, 0, 0, //
        20, 0, 0, 0, //
        40, 0, 0, 0,
    ];
    blur_buffer(&mut pixels, 1, 3, 1);
    // Clamped windows: (10+20)/2, (10+20+40)/3, (20+40)/2 — truncating.
    assert_eq!(pixels[0], 15);
    assert_eq!(pixels[4], 23);
    assert_eq!(pixels[8], 30);
}

#[test]
fn height_one_blurs_horizontally_only() {
    let mut pixels = vec![
        10, 0, 0, 0, //
        20, 0, 0, 0, //
        40, 0, 0, 0,
    ];
    blur_buffer(&mut pixels, 3, 1, 1);
    assert_eq!(pixels[0], 15);
    assert_eq!(pixels[4], 23);
    assert_eq!(pixels[8], 30);
}

#[test]
fn two_by_two_exact_two_pass_average() {
    // Channel 0 of the four pixels: 10 15 / 33 64. The horizontal pass gives
    // 12 12 / 48 48 (truncating), the vertical pass 30 everywhere.
    let mut pixels = vec![
        10, 0, 0, 0, 15, 0, 0, 0, //
        33, 0, 0, 0, 64, 0, 0, 0,
    ];
    blur_buffer(&mut pixels, 2, 2, 1);
    for px in 0..4 {
        assert_eq!(pixels[px * 4], 30);
        assert_eq!(pixels[px * 4 + 1], 0);
    }
}

#[test]
fn large_radius_clamps_to_image() {
    // Radius far beyond the image: every window covers the whole axis.
    let mut pixels = vec![
        0, 0, 0, 0, 30, 0, 0, 0, 90, 0, 0, 0,
    ];
    blur_buffer(&mut pixels, 3, 1, 100);
    // Horizontal: every pixel becomes (0+30+90)/3 = 40; vertical is identity.
    for px in 0..3 {
        assert_eq!(pixels[px * 4], 40);
    }
}
