use vcam_server::error::VcamError;
use vcam_server::video_format::VideoFormat;

fn format(width: u32, height: u32, fps_num: u32, fps_den: u32) -> VideoFormat {
    VideoFormat { width, height, fps_num, fps_den }
}

#[test]
fn default_format_is_1080p60() {
    let f = VideoFormat::default();
    assert_eq!(f, format(1920, 1080, 60, 1));
    assert_eq!(f.validate(), Ok(()));
}

#[test]
fn new_accepts_a_valid_format() {
    assert_eq!(VideoFormat::new(640, 480, 30, 1), Ok(format(640, 480, 30, 1)));
}

#[test]
fn new_rejects_zero_dimensions() {
    assert_eq!(VideoFormat::new(0, 480, 30, 1), Err(VcamError::ZeroFrameDimensions));
    assert_eq!(VideoFormat::new(640, 0, 30, 1), Err(VcamError::ZeroFrameDimensions));
}

#[test]
fn new_rejects_zero_frame_rate() {
    assert_eq!(VideoFormat::new(640, 480, 0, 1), Err(VcamError::ZeroFrameRate));
    assert_eq!(VideoFormat::new(640, 480, 30, 0), Err(VcamError::ZeroFrameRate));
}

#[test]
fn new_rejects_odd_dimensions() {
    assert_eq!(VideoFormat::new(641, 480, 30, 1), Err(VcamError::OddFrameDimensions));
    assert_eq!(VideoFormat::new(640, 481, 30, 1), Err(VcamError::OddFrameDimensions));
}

#[test]
fn validate_checks_zero_dimensions_before_frame_rate() {
    assert_eq!(format(0, 3, 0, 0).validate(), Err(VcamError::ZeroFrameDimensions));
    assert_eq!(format(3, 3, 0, 1).validate(), Err(VcamError::ZeroFrameRate));
}

#[test]
fn frame_duration_is_rounded_down() {
    assert_eq!(format(1920, 1080, 60, 1).frame_duration_100ns(), 166_666);
    assert_eq!(format(640, 480, 30000, 1001).frame_duration_100ns(), 333_666);
    assert_eq!(format(640, 480, 1, 1).frame_duration_100ns(), 10_000_000);
}

#[test]
fn buffer_sizes_of_1080p() {
    let f = VideoFormat::default();
    assert_eq!(f.bgra_stride(), 7680);
    assert_eq!(f.bgra_frame_bytes(), 8_294_400);
    assert_eq!(f.nv12_stride(), 1920);
    assert_eq!(f.nv12_frame_bytes(), 3_110_400);
}

#[test]
fn nv12_holds_three_eighths_of_bgra() {
    let f = format(640, 480, 30, 1);
    assert_eq!(f.nv12_frame_bytes() * 8, f.bgra_frame_bytes() * 3);
}
