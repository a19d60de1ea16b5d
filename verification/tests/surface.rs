use vcam_server::error::VcamError;
use vcam_server::surface::{
    copy_bgra_to_surface, copy_nv12_to_surface, copy_rows_to_surface, surface_rows_in_bounds,
    validate_bgra_frame, validate_nv12_frame,
};
use vcam_server::video_format::VideoFormat;

fn two_by_two() -> VideoFormat {
    VideoFormat { width: 2, height: 2, fps_num: 30, fps_den: 1 }
}

#[test]
fn rows_are_copied_pitch_apart() {
    let src: Vec<u8> = (0..8).collect();
    let mut dst = vec![0u8; 10];
    assert_eq!(copy_rows_to_surface(&src, 4, &mut dst, Some(1), 5, 3, 2, 8), Ok(()));
    assert_eq!(dst, vec![0, 0, 1, 2, 0, 0, 4, 5, 6, 0]);
}

#[test]
fn negative_pitch_runs_upward() {
    let src: Vec<u8> = (1..9).collect();
    let mut dst = vec![0u8; 10];
    assert_eq!(copy_rows_to_surface(&src, 4, &mut dst, Some(5), -5, 3, 2, 8), Ok(()));
    assert_eq!(dst, vec![5, 6, 7, 0, 0, 1, 2, 3, 0, 0]);
}

#[test]
fn surface_checks_come_in_order() {
    let src: Vec<u8> = (0..8).collect();
    let mut dst = vec![0u8; 10];
    assert_eq!(copy_rows_to_surface(&src, 4, &mut dst, None, 5, 3, 2, 8), Err(VcamError::SurfaceNull));
    assert_eq!(copy_rows_to_surface(&src, 4, &mut dst, Some(0), 0, 3, 2, 8), Err(VcamError::SurfacePitchZero));
    assert_eq!(copy_rows_to_surface(&src, 4, &mut dst, Some(0), 2, 3, 2, 8), Err(VcamError::SurfacePitchTooSmall));
    assert_eq!(copy_rows_to_surface(&src, 4, &mut dst, Some(0), -2, 3, 2, 8), Err(VcamError::SurfacePitchTooSmall));
    assert_eq!(copy_rows_to_surface(&src, 4, &mut dst, Some(0), 5, 3, 2, 7), Err(VcamError::SurfaceTooSmall));
    assert_eq!(dst, vec![0u8; 10]);
}

#[test]
fn row_bounds() {
    assert!(surface_rows_in_bounds(10, 1, 5, 3, 2));
    assert!(!surface_rows_in_bounds(10, 3, 5, 3, 2));
    assert!(surface_rows_in_bounds(10, 5, -5, 3, 2));
    assert!(!surface_rows_in_bounds(10, 4, -5, 3, 2));
    assert!(surface_rows_in_bounds(0, 99, 5, 3, 0));
}

#[test]
fn frame_sizes_are_checked() {
    let f = two_by_two();
    assert_eq!(validate_bgra_frame(f, &[0; 16]), Ok(()));
    assert_eq!(validate_bgra_frame(f, &[0; 15]), Err(VcamError::Rgb32FrameSizeMismatch { expected: 16, actual: 15 }));
    assert_eq!(validate_nv12_frame(f, &[0; 6]), Ok(()));
    assert_eq!(validate_nv12_frame(f, &[0; 8]), Err(VcamError::Nv12FrameSizeMismatch { expected: 6, actual: 8 }));
    let odd = VideoFormat { width: 3, height: 2, fps_num: 30, fps_den: 1 };
    assert_eq!(validate_bgra_frame(odd, &[0; 24]), Err(VcamError::OddFrameDimensions));
}

#[test]
fn bgra_frame_into_a_padded_surface() {
    let f = two_by_two();
    let bgra: Vec<u8> = (1..17).collect();
    let mut surface = vec![0u8; 20];
    assert_eq!(copy_bgra_to_surface(f, &bgra, &mut surface, Some(0), 12, 20), Ok(()));
    let mut expected = vec![0u8; 20];
    expected[0..8].copy_from_slice(&bgra[0..8]);
    expected[12..20].copy_from_slice(&bgra[8..16]);
    assert_eq!(surface, expected);
}

#[test]
fn bgra_frame_into_a_bottom_up_surface() {
    let f = two_by_two();
    let bgra: Vec<u8> = (1..17).collect();
    let mut surface = vec![0u8; 16];
    assert_eq!(copy_bgra_to_surface(f, &bgra, &mut surface, Some(8), -8, 16), Ok(()));
    let mut expected = bgra[8..16].to_vec();
    expected.extend_from_slice(&bgra[0..8]);
    assert_eq!(surface, expected);
}

#[test]
fn bgra_surface_errors() {
    let f = two_by_two();
    let mut surface = vec![0u8; 20];
    assert_eq!(
        copy_bgra_to_surface(f, &[0; 4], &mut surface, Some(0), 12, 20),
        Err(VcamError::Rgb32FrameSizeMismatch { expected: 16, actual: 4 })
    );
    assert_eq!(copy_bgra_to_surface(f, &[0; 16], &mut surface, Some(0), 12, 19), Err(VcamError::SurfaceTooSmall));
    assert_eq!(copy_bgra_to_surface(f, &[0; 16], &mut surface, Some(0), 4, 20), Err(VcamError::SurfacePitchTooSmall));
}

#[test]
fn nv12_frame_into_a_surface() {
    let f = two_by_two();
    let nv12 = vec![1u8, 2, 3, 4, 5, 6];
    let mut surface = vec![0u8; 12];
    assert_eq!(copy_nv12_to_surface(f, &nv12, &mut surface, Some(0), true, 4, 12), Ok(()));
    assert_eq!(surface, vec![1, 2, 0, 0, 3, 4, 0, 0, 5, 6, 0, 0]);
}

#[test]
fn nv12_surface_errors() {
    let f = two_by_two();
    let nv12 = vec![1u8, 2, 3, 4, 5, 6];
    let mut surface = vec![0u8; 12];
    assert_eq!(copy_nv12_to_surface(f, &nv12, &mut surface, Some(0), true, 0, 12), Err(VcamError::Nv12PitchNotPositive));
    assert_eq!(copy_nv12_to_surface(f, &nv12, &mut surface, Some(0), true, -4, 12), Err(VcamError::Nv12PitchNotPositive));
    assert_eq!(copy_nv12_to_surface(f, &nv12, &mut surface, None, true, 4, 12), Err(VcamError::Nv12SurfaceNull));
    assert_eq!(copy_nv12_to_surface(f, &nv12, &mut surface, Some(0), false, 4, 12), Err(VcamError::Nv12SurfaceNull));
    assert_eq!(copy_nv12_to_surface(f, &nv12, &mut surface, Some(0), true, 4, 11), Err(VcamError::Nv12SurfaceTooSmall));
    assert_eq!(copy_nv12_to_surface(f, &nv12, &mut surface, Some(0), true, 1, 12), Err(VcamError::SurfacePitchTooSmall));
    assert_eq!(
        copy_nv12_to_surface(f, &nv12[..5], &mut surface, Some(0), true, 4, 12),
        Err(VcamError::Nv12FrameSizeMismatch { expected: 6, actual: 5 })
    );
    assert_eq!(surface, vec![0u8; 12]);
}
