use nixlock::theme::{blend, draw_glyph, Glyph, Rgb, RED, TEXT};

fn by_floats(over: u8, under: u8, cov: u8) -> u8 {
    let sa = cov as f32 / 255.0;
    let ia = 1.0 - sa;
    (over as f32 * sa + under as f32 * ia).round() as u8
}

#[test]
fn blending_rounds_to_the_nearest_value() {
    for cov in 1..=255u8 {
        for under in 0..=255u8 {
            for over in (0..=255u8).step_by(3) {
                let mut data = [under; 4];
                blend(&mut data, 0, (over, over, over), cov);
                assert_eq!(data[0], by_floats(over, under, cov), "{over} {under} {cov}");
            }
        }
    }
}

#[test]
fn blending_touches_one_pixel() {
    let mut data = [10; 12];
    blend(&mut data, 4, (250, 0, 100), 51);
    assert_eq!(data, [10, 10, 10, 10, 58, 8, 28, 59, 10, 10, 10, 10]);
    blend(&mut data, 4, (1, 2, 3), 255);
    assert_eq!(&data[4..8], &[1, 2, 3, 255]);
    blend(&mut data, 0, (1, 2, 3), 0);
    assert_eq!(&data[0..4], &[10; 4]);
}

#[test]
fn no_coverage_needs_no_room() {
    let mut data: [u8; 0] = [];
    blend(&mut data, 100, TEXT, 0);
}

fn painted(left: i32, top: i32, c: Rgb) -> Vec<u8> {
    let glyph = Glyph { left, top, width: 2, height: 2, coverage: vec![255, 0, 128, 255] };
    let mut data = vec![0; 2 * 2 * 4];
    draw_glyph(&mut data, 2, 2, &glyph, c);
    data
}

#[test]
fn a_glyph_is_painted_by_its_coverage() {
    assert_eq!(
        painted(0, 0, RED),
        [0xf4, 0x53, 0x53, 255, 0, 0, 0, 0, 122, 42, 42, 128, 0xf4, 0x53, 0x53, 255]
    );
}

#[test]
fn a_glyph_is_clipped_at_every_edge() {
    assert_eq!(painted(1, 0, RED)[4..8], [0xf4, 0x53, 0x53, 255]);
    assert_eq!(painted(1, 0, RED)[12..16], [122, 42, 42, 128]);
    assert_eq!(painted(-1, -1, RED)[0..4], [0xf4, 0x53, 0x53, 255]);
    assert_eq!(painted(-1, -1, RED)[4..16], [0; 12]);
    assert_eq!(painted(2, 0, RED), [0; 16]);
    assert_eq!(painted(0, -2, RED), [0; 16]);
    assert_eq!(painted(i32::MAX, i32::MAX, RED), [0; 16]);
    assert_eq!(painted(i32::MIN, i32::MIN, RED), [0; 16]);
}
