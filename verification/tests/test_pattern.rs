use vcam_server::bmp::bgra_to_bmp_bytes;
use vcam_server::error::VcamError;
use vcam_server::test_pattern::{
    bgra_bmp_for_format, fill_color_bars, overlay_guides, set_pixel, validate_dump_path, StaticTestPattern,
};
use vcam_server::video_format::VideoFormat;

fn small() -> VideoFormat {
    VideoFormat { width: 64, height: 48, fps_num: 30, fps_den: 1 }
}

fn ramp(width: u32) -> Vec<u8> {
    (0..width).map(|x| ((x as f32 / width as f32) * 255.0) as u8).collect()
}

/// A stand-in converter: keeps the first three eighths of the frame.
fn fake_nv12(bgra: &[u8]) -> Vec<u8> {
    bgra[..bgra.len() * 3 / 8].to_vec()
}

fn px(frame: &[u8], width: usize, x: usize, y: usize) -> [u8; 4] {
    let i = (y * width + x) * 4;
    [frame[i], frame[i + 1], frame[i + 2], frame[i + 3]]
}

#[test]
fn pattern_bars_guides_ramp_and_box() {
    let f = small();
    let p = StaticTestPattern::with_format(f, &ramp(64), |b: &[u8]| fake_nv12(b));
    assert_eq!(p.format(), f);
    let bgra = p.rgb32_bytes();
    assert_eq!(bgra.len(), 64 * 48 * 4);
    // Colour bars, eight pixels wide.
    assert_eq!(px(bgra, 64, 5, 1), [255, 255, 255, 255]);
    assert_eq!(px(bgra, 64, 10, 2), [0, 255, 255, 255]);
    assert_eq!(px(bgra, 64, 20, 2), [255, 255, 0, 255]);
    assert_eq!(px(bgra, 64, 60, 5), [0, 0, 0, 255]);
    // Centre cross and diagonals.
    assert_eq!(px(bgra, 64, 32, 3), [32, 32, 32, 255]);
    assert_eq!(px(bgra, 64, 7, 24), [32, 32, 32, 255]);
    assert_eq!(px(bgra, 64, 1, 1), [32, 32, 32, 255]);
    assert_eq!(px(bgra, 64, 62, 1), [32, 32, 32, 255]);
    // Grey ramp below the bars, lowered by 16 and floored at zero.
    assert_eq!(px(bgra, 64, 12, 40), [31, 31, 31, 255]);
    assert_eq!(px(bgra, 64, 2, 45), [0, 0, 0, 255]);
    // The box: white border, dark inside, drawn over the guides.
    assert_eq!(px(bgra, 64, 26, 22), [255, 255, 255, 255]);
    assert_eq!(px(bgra, 64, 37, 27), [255, 255, 255, 255]);
    assert_eq!(px(bgra, 64, 30, 23), [24, 24, 24, 255]);
    assert_eq!(px(bgra, 64, 32, 23), [24, 24, 24, 255]);
    assert_eq!(px(bgra, 64, 38, 23), [255, 0, 255, 255]);
}

#[test]
fn pattern_keeps_its_nv12_conversion() {
    let p = StaticTestPattern::with_format(small(), &ramp(64), |b: &[u8]| fake_nv12(b));
    assert_eq!(p.nv12_bytes(), &fake_nv12(p.rgb32_bytes())[..]);
    assert_eq!(p.nv12_arc(), p.nv12_bytes().to_vec());
    assert_eq!(p.rgb32_arc(), p.rgb32_bytes().to_vec());
}

#[test]
fn default_pattern_is_1080p() {
    let p = StaticTestPattern::new(&ramp(1920), |b: &[u8]| fake_nv12(b));
    assert_eq!(p.format(), VideoFormat::default());
    assert_eq!(p.rgb32_bytes().len(), 8_294_400);
    assert_eq!(px(p.rgb32_bytes(), 1920, 5, 1), [255, 255, 255, 255]);
}

#[test]
fn pattern_copies_to_surfaces() {
    let f = VideoFormat { width: 16, height: 8, fps_num: 30, fps_den: 1 };
    let p = StaticTestPattern::with_format(f, &ramp(16), |b: &[u8]| b[..16 * 8 * 3 / 2].to_vec());
    let mut surface = vec![0u8; 64 * 8];
    assert_eq!(p.copy_to_rgb32_surface(&mut surface, Some(0), 64, 64 * 8), Ok(()));
    assert_eq!(surface, p.rgb32_bytes().to_vec());
    let mut nv12_surface = vec![0u8; 16 * 12];
    assert_eq!(p.copy_to_nv12_surface(&mut nv12_surface, Some(0), true, 16, 16 * 12), Ok(()));
    assert_eq!(nv12_surface, p.nv12_bytes().to_vec());
    assert_eq!(p.copy_to_rgb32_surface(&mut surface, None, 64, 64 * 8), Err(VcamError::SurfaceNull));
}

#[test]
fn bars_then_guides() {
    let f = small();
    let mut buffer = vec![0u8; 64 * 48 * 4];
    fill_color_bars(&mut buffer, f, &ramp(64));
    assert_eq!(px(&buffer, 64, 32, 3), [255, 0, 255, 255]);
    assert_eq!(px(&buffer, 64, 30, 23), [0, 255, 0, 255]);
    overlay_guides(&mut buffer, f);
    assert_eq!(px(&buffer, 64, 32, 3), [32, 32, 32, 255]);
    assert_eq!(px(&buffer, 64, 30, 23), [24, 24, 24, 255]);
}

#[test]
fn set_pixel_ignores_pixels_outside_the_frame() {
    let f = VideoFormat { width: 2, height: 2, fps_num: 30, fps_den: 1 };
    let mut buffer = vec![0u8; 16];
    set_pixel(&mut buffer, f, 1, 1, [1, 2, 3, 4]);
    assert_eq!(&buffer[12..16], &[1, 2, 3, 4]);
    set_pixel(&mut buffer, f, 2, 0, [9, 9, 9, 9]);
    set_pixel(&mut buffer, f, 0, 2, [9, 9, 9, 9]);
    assert_eq!(&buffer[0..12], &[0u8; 12]);
}

#[test]
fn bitmap_of_a_two_by_two_frame() {
    let f = VideoFormat { width: 2, height: 2, fps_num: 30, fps_den: 1 };
    let bgra: Vec<u8> = (1..17).collect();
    let bmp = bgra_to_bmp_bytes(f, &bgra);
    let mut expected = vec![
        0x42, 0x4d, 70, 0, 0, 0, 0, 0, 0, 0, 54, 0, 0, 0, // file header
        40, 0, 0, 0, 2, 0, 0, 0, 2, 0, 0, 0, 1, 0, 32, 0, 0, 0, 0, 0, 16, 0, 0, 0, 0x13, 0x0b, 0, 0, 0x13, 0x0b,
        0, 0, 0, 0, 0, 0, 0, 0, 0, 0,
    ];
    // Rows bottom-up.
    expected.extend_from_slice(&bgra[8..16]);
    expected.extend_from_slice(&bgra[0..8]);
    assert_eq!(bmp, expected);
    assert_eq!(bgra_bmp_for_format(f, &bgra), Ok(expected));
}

#[test]
fn bitmap_needs_a_whole_frame() {
    let f = VideoFormat { width: 2, height: 2, fps_num: 30, fps_den: 1 };
    assert_eq!(bgra_bmp_for_format(f, &[0; 12]), Err(VcamError::Rgb32FrameSizeMismatch { expected: 16, actual: 12 }));
    let bad = VideoFormat { width: 0, height: 2, fps_num: 30, fps_den: 1 };
    assert_eq!(bgra_bmp_for_format(bad, &[]), Err(VcamError::ZeroFrameDimensions));
}

#[test]
fn pattern_bitmap_size() {
    let p = StaticTestPattern::with_format(small(), &ramp(64), |b: &[u8]| fake_nv12(b));
    let bmp = p.bmp_file().unwrap();
    assert_eq!(bmp.len(), 54 + 64 * 48 * 4);
    // The last bitmap row is the top frame row.
    let last_row = &bmp[54 + 47 * 256..54 + 48 * 256];
    assert_eq!(last_row, &p.rgb32_bytes()[0..256]);
}

#[test]
fn dump_path_must_not_be_empty() {
    assert_eq!(validate_dump_path(""), Err(VcamError::DumpPathEmpty));
    assert_eq!(validate_dump_path("frame.bmp"), Ok(()));
}

#[test]
fn clone_keeps_the_pattern() {
    let p = StaticTestPattern::with_format(small(), &ramp(64), |b: &[u8]| fake_nv12(b));
    let q = p.clone();
    assert_eq!(q.format(), p.format());
    assert_eq!(q.rgb32_bytes(), p.rgb32_bytes());
    assert_eq!(q.nv12_bytes(), p.nv12_bytes());
}

#[test]
fn pattern_is_opaque_fixed_and_sized() {
    let p = StaticTestPattern::new(&ramp(1920), |b: &[u8]| fake_nv12(b));
    assert_eq!(p.nv12_bytes().len(), 3_110_400);
    assert!(p.rgb32_bytes().chunks(4).all(|px| px[3] == 255));
    let again = StaticTestPattern::new(&ramp(1920), |b: &[u8]| fake_nv12(b));
    assert!(again.rgb32_bytes() == p.rgb32_bytes());
}
