use gaussian_blur::convolve::convolve;
use gaussian_blur::errors::BlurError;
use gaussian_blur::image_buffer::ImageBuffer;
use gaussian_blur::kernel::generate;

fn uniform_image(width: u32, height: u32, r: u8, g: u8, b: u8, a: u8) -> ImageBuffer {
    let mut data: Vec<u8> = Vec::new();
    for _ in 0..(width as usize) * (height as usize) {
        data.push(r);
        data.push(g);
        data.push(b);
        data.push(a);
    }
    ImageBuffer::from_raw(width, height, data).unwrap()
}

#[test]
fn uniform_interior_is_preserved() {
    // A normalized kernel over a constant field is the identity, away
    // from the edges.
    let src = uniform_image(6, 6, 123, 45, 67, 9);
    let kernel = generate(1).unwrap();
    let out = convolve(&src, &kernel);
    for y in 1..5u32 {
        for x in 1..5u32 {
            assert_eq!(out.channel_at(x, y, 0), 123);
            assert_eq!(out.channel_at(x, y, 1), 45);
            assert_eq!(out.channel_at(x, y, 2), 67);
            assert_eq!(out.channel_at(x, y, 3), 255);
        }
    }
}

#[test]
fn small_image_matches_expected_output() {
    // 4x4 uniform gray 200, radius 1: the interior keeps the value, the
    // border rows darken because out-of-bounds taps are skipped and their
    // weight is lost from the local normalization.
    let src = uniform_image(4, 4, 200, 200, 200, 255);
    let kernel = generate(1).unwrap();
    let out = convolve(&src, &kernel);
    let expected: [[u8; 4]; 4] = [
        [105, 145, 145, 105],
        [145, 200, 200, 145],
        [145, 200, 200, 145],
        [105, 145, 145, 105],
    ];
    for y in 0..4u32 {
        for x in 0..4u32 {
            for ch in 0..3u32 {
                assert_eq!(out.channel_at(x, y, ch), expected[y as usize][x as usize]);
            }
        }
    }
    // Documented edge darkening: every border pixel is strictly darker
    // than the interior value.
    for i in 0..4u32 {
        assert!(out.channel_at(i, 0, 0) < 200);
        assert!(out.channel_at(i, 3, 0) < 200);
        assert!(out.channel_at(0, i, 0) < 200);
        assert!(out.channel_at(3, i, 0) < 200);
    }
}

#[test]
fn alpha_always_opaque() {
    // Input alpha is 0 everywhere; output alpha must still be 255.
    let src = uniform_image(3, 2, 10, 20, 30, 0);
    let kernel = generate(1).unwrap();
    let out = convolve(&src, &kernel);
    for y in 0..2u32 {
        for x in 0..3u32 {
            assert_eq!(out.channel_at(x, y, 3), 255);
        }
    }
}

#[test]
fn radius_zero_preserves_colors() {
    let mut data: Vec<u8> = Vec::new();
    for v in [
        1u8, 2, 3, 4, 50, 60, 70, 80, 200, 210, 220, 0, 255, 128, 7, 77,
    ] {
        data.push(v);
    }
    let src = ImageBuffer::from_raw(2, 2, data).unwrap();
    let kernel = generate(0).unwrap();
    let out = convolve(&src, &kernel);
    for y in 0..2u32 {
        for x in 0..2u32 {
            for ch in 0..3u32 {
                assert_eq!(out.channel_at(x, y, ch), src.channel_at(x, y, ch));
            }
            assert_eq!(out.channel_at(x, y, 3), 255);
        }
    }
}

#[test]
fn output_dimensions_match_source() {
    let src = uniform_image(5, 3, 9, 9, 9, 9);
    let kernel = generate(2).unwrap();
    let out = convolve(&src, &kernel);
    let (w, h, bytes) = out.into_raw();
    assert_eq!(w, 5);
    assert_eq!(h, 3);
    assert_eq!(bytes.len(), 4 * 5 * 3);
}

#[test]
fn empty_image_convolves_to_empty() {
    let src = ImageBuffer::from_raw(0, 0, Vec::new()).unwrap();
    let kernel = generate(1).unwrap();
    let out = convolve(&src, &kernel);
    let (w, h, bytes) = out.into_raw();
    assert_eq!(w, 0);
    assert_eq!(h, 0);
    assert_eq!(bytes.len(), 0);
}

#[test]
fn from_raw_rejects_wrong_length() {
    let r = ImageBuffer::from_raw(2, 2, vec![0u8; 15]);
    assert_eq!(r.err().unwrap(), BlurError::InvalidParameter);
    assert!(ImageBuffer::from_raw(2, 2, vec![0u8; 16]).is_ok());
}

#[test]
fn cross_path_tolerance_comparison() {
    // The check applied to the two execution paths' outputs: equal
    // dimensions and every channel within the tolerance.
    let a = ImageBuffer::from_raw(2, 1, vec![10, 20, 30, 255, 40, 50, 60, 255]).unwrap();
    let b = ImageBuffer::from_raw(2, 1, vec![12, 18, 30, 255, 40, 52, 58, 255]).unwrap();
    assert!(a.within_tolerance(&b, 2));
    assert!(b.within_tolerance(&a, 2));
    assert!(!a.within_tolerance(&b, 1));

    let c = ImageBuffer::from_raw(1, 2, vec![10, 20, 30, 255, 40, 50, 60, 255]).unwrap();
    assert!(!a.within_tolerance(&c, 255));

    let d = convolve(&a, &generate(1).unwrap());
    assert!(d.within_tolerance(&d, 0));
}

#[test]
fn zeroed_buffer_is_black() {
    let img = ImageBuffer::new_zeroed(3, 3);
    for y in 0..3u32 {
        for x in 0..3u32 {
            for ch in 0..4u32 {
                assert_eq!(img.channel_at(x, y, ch), 0);
            }
        }
    }
}
