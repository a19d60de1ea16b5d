use vcam_server::constants::{VCAM_FEED_MAGIC, VCAM_FEED_SLOT_COUNT, VCAM_FEED_VERSION, VCAM_INVALID_SLOT_INDEX};
use vcam_server::error::VcamError;
use vcam_server::feed::{
    deactivate_stale_session_locked, feed_layout, feed_stale_threshold_ms, is_control_heartbeat_fresh,
    is_valid_control, read_control_active, read_control_active_bit, read_control_heartbeat_ms,
    read_state_locked, reset_feed_session, slot_region_bytes, split_mapping_size, start_feed_session,
    stop_feed_session, write_control_header, write_control_heartbeat_ms, FeedLayout, VcamSharedFeedControl,
    VCAM_FEED_CONFIG, VCAM_FEED_STATE, CONTROL_HEADER_BYTES, SLOT_HEADER_BYTES,
};
use vcam_server::video_format::VideoFormat;

fn config(width: u32, height: u32, fps_num: u32, fps_den: u32) -> VCAM_FEED_CONFIG {
    VCAM_FEED_CONFIG::bgra8(width, height, fps_num, fps_den).unwrap()
}

fn started(cfg: VCAM_FEED_CONFIG, now_ms: u64) -> VcamSharedFeedControl {
    start_feed_session(cfg, false, VcamSharedFeedControl::default(), now_ms).unwrap()
}

#[test]
fn header_sizes_match_the_shared_layout() {
    assert_eq!(CONTROL_HEADER_BYTES, 72);
    assert_eq!(SLOT_HEADER_BYTES, 24);
}

#[test]
fn bgra8_config_is_tightly_packed() {
    let c = config(640, 480, 30, 1);
    assert_eq!(c.input_stride, 2560);
    assert_eq!(c.input_format, 1);
    assert_eq!(c.validate(), Ok(()));
    assert_eq!(c.payload_bytes(), Ok(1_228_800));
    assert_eq!(c.video_format(), Ok(VideoFormat { width: 640, height: 480, fps_num: 30, fps_den: 1 }));
    let f = VideoFormat { width: 640, height: 480, fps_num: 30, fps_den: 1 };
    assert_eq!(VCAM_FEED_CONFIG::from_video_format(f), c);
}

#[test]
fn bgra8_rejects_a_bad_format() {
    assert_eq!(VCAM_FEED_CONFIG::bgra8(641, 480, 30, 1), Err(VcamError::OddFrameDimensions));
}

#[test]
fn validate_rejects_other_input_formats() {
    let mut c = config(640, 480, 30, 1);
    c.input_format = 2;
    assert_eq!(c.validate(), Err(VcamError::UnsupportedInputFormat));
    assert_eq!(c.payload_bytes(), Err(VcamError::UnsupportedInputFormat));
}

#[test]
fn validate_rejects_a_short_stride() {
    let mut c = config(640, 480, 30, 1);
    c.input_stride = 2559;
    assert_eq!(c.validate(), Err(VcamError::InputStrideTooSmall));
    c.input_stride = 0;
    assert_eq!(c.validate(), Err(VcamError::InputStrideTooSmall));
    assert_eq!(c.payload_bytes(), Err(VcamError::ZeroInputStride));
}

#[test]
fn padded_stride_sizes_the_payload() {
    let mut c = config(640, 480, 30, 1);
    c.input_stride = 4096;
    assert_eq!(c.validate(), Ok(()));
    assert_eq!(c.payload_bytes(), Ok(4096 * 480));
}

#[test]
fn default_state_is_inactive_and_empty() {
    let s = VCAM_FEED_STATE::default();
    assert!(!s.is_active());
    assert_eq!(s.committed_frame_id, 0);
    assert_eq!(s.config(), Err(VcamError::ZeroFrameDimensions));
}

#[test]
fn state_config_is_checked() {
    let mut s = VCAM_FEED_STATE::default();
    s.active = 1;
    s.width = 320;
    s.height = 240;
    s.fps_num = 15;
    s.fps_den = 1;
    s.input_format = 1;
    s.input_stride = 1280;
    assert!(s.is_active());
    assert_eq!(s.config(), Ok(config(320, 240, 15, 1)));
}

#[test]
fn heartbeat_is_stored_in_two_halves() {
    let mut c = VcamSharedFeedControl::default();
    write_control_heartbeat_ms(&mut c, 0x0000_0123_4567_89ab);
    assert_eq!(c.reserved0, 0x4567_89ab);
    assert_eq!(c.reserved1, 0x0000_0123);
    assert_eq!(read_control_heartbeat_ms(&c), 0x0000_0123_4567_89ab);
}

#[test]
fn stale_threshold_is_four_frames_or_the_grace_period() {
    assert_eq!(feed_stale_threshold_ms(config(640, 480, 30, 1)), 1_500);
    assert_eq!(feed_stale_threshold_ms(config(640, 480, 1, 1)), 4_000);
    assert_eq!(feed_stale_threshold_ms(config(640, 480, 2, 1)), 2_000);
    assert_eq!(feed_stale_threshold_ms(config(640, 480, 3, 2)), 2_667);
    let mut c = config(640, 480, 1, 1);
    c.fps_num = 0;
    assert_eq!(feed_stale_threshold_ms(c), 1_500);
}

#[test]
fn heartbeat_freshness() {
    let c = started(config(640, 480, 30, 1), 10_000);
    assert!(is_control_heartbeat_fresh(&c, 10_000));
    assert!(is_control_heartbeat_fresh(&c, 11_500));
    assert!(!is_control_heartbeat_fresh(&c, 11_501));
    // A clock that reads earlier than the heartbeat counts as no time passed.
    assert!(is_control_heartbeat_fresh(&c, 5));
    let never = VcamSharedFeedControl::default();
    assert!(!is_control_heartbeat_fresh(&never, 0));
}

#[test]
fn active_needs_the_flag_and_a_fresh_heartbeat() {
    let c = started(config(640, 480, 30, 1), 10_000);
    assert!(read_control_active_bit(&c));
    assert!(read_control_active(&c, 10_100));
    assert!(!read_control_active(&c, 20_000));
    let stopped = stop_feed_session(c);
    assert!(!read_control_active(&stopped, 10_100));
}

#[test]
fn stale_sessions_are_deactivated_once() {
    let mut c = started(config(640, 480, 30, 1), 10_000);
    let fresh = c;
    deactivate_stale_session_locked(&mut c, 10_500);
    assert_eq!(c, fresh);
    deactivate_stale_session_locked(&mut c, 50_000);
    assert_eq!(c.active, 0);
    let once = c;
    deactivate_stale_session_locked(&mut c, 50_000);
    assert_eq!(c, once);
    assert_eq!(read_control_heartbeat_ms(&c), 10_000);
}

#[test]
fn control_header_of_a_new_session() {
    let cfg = config(640, 480, 30, 1);
    let mut c = VcamSharedFeedControl::default();
    assert!(!is_valid_control(&c));
    write_control_header(&mut c, &cfg, 1_228_800, 42);
    assert!(is_valid_control(&c));
    assert_eq!(c.magic, VCAM_FEED_MAGIC);
    assert_eq!(c.version, VCAM_FEED_VERSION);
    assert_eq!(c.active, 1);
    assert_eq!(c.config, cfg);
    assert_eq!(c.slot_count, VCAM_FEED_SLOT_COUNT);
    assert_eq!(c.slot_bytes, 1_228_800);
    assert_eq!(c.committed_slot, VCAM_INVALID_SLOT_INDEX);
    assert_eq!(c.committed_frame_id, 0);
    assert_eq!(read_control_heartbeat_ms(&c), 42);
}

#[test]
fn state_of_a_missing_or_blank_header() {
    let (s, c) = read_state_locked(None, 1);
    assert_eq!(s, VCAM_FEED_STATE::default());
    assert!(c.is_none());
    let blank = VcamSharedFeedControl::default();
    let (s, c) = read_state_locked(Some(blank), 1);
    assert_eq!(s, VCAM_FEED_STATE::default());
    assert_eq!(c, Some(blank));
}

#[test]
fn state_of_a_live_and_a_stale_session() {
    let cfg = config(320, 240, 10, 1);
    let mut c = started(cfg, 1_000);
    c.committed_frame_id = 9;
    c.last_timestamp_100ns = 77;
    let (s, after) = read_state_locked(Some(c), 2_000);
    assert_eq!(s.active, 1);
    assert_eq!((s.width, s.height, s.fps_num, s.fps_den), (320, 240, 10, 1));
    assert_eq!((s.input_format, s.input_stride, s.slot_count), (1, 1280, 3));
    assert_eq!((s.committed_frame_id, s.last_timestamp_100ns), (9, 77));
    assert_eq!(after, Some(c));
    let (s, after) = read_state_locked(Some(c), 100_000);
    assert_eq!(s.active, 0);
    assert_eq!(after.unwrap().active, 0);
}

#[test]
fn layout_of_a_session() {
    let cfg = config(640, 480, 30, 1);
    assert_eq!(
        feed_layout(cfg),
        Ok(FeedLayout { payload_bytes: 1_228_800, slot_span_bytes: 1_228_824, data_bytes: 3_686_472 })
    );
    assert_eq!(slot_region_bytes(100), Ok(124));
    assert_eq!(slot_region_bytes(usize::MAX - 23), Err(VcamError::SlotRegionOverflow));
}

#[test]
fn layout_rejects_a_slot_ring_that_overflows() {
    let mut cfg = config(2, 2, 30, 1);
    cfg.input_stride = u32::MAX;
    cfg.height = u32::MAX - 1;
    // input_stride * height fits a 64-bit usize, three slots of it do not.
    assert_eq!(feed_layout(cfg), Err(VcamError::DataMappingOverflow));
}

#[test]
fn mapping_sizes_split_into_halves() {
    assert_eq!(split_mapping_size(3_686_472), (0, 3_686_472));
    assert_eq!(split_mapping_size(0x1_0000_0005), (1, 5));
}

#[test]
fn start_refuses_a_live_session_unless_forced() {
    let cfg = config(640, 480, 30, 1);
    let live = started(cfg, 10_000);
    assert_eq!(start_feed_session(cfg, false, live, 10_100), Err(VcamError::SessionBusy));
    let forced = start_feed_session(cfg, true, live, 10_100).unwrap();
    assert_eq!(read_control_heartbeat_ms(&forced), 10_100);
    assert_eq!(forced.committed_slot, VCAM_INVALID_SLOT_INDEX);
    // A stale session no longer blocks.
    assert!(start_feed_session(cfg, false, live, 60_000).is_ok());
    // Nor does a stopped one.
    assert!(start_feed_session(cfg, false, stop_feed_session(live), 10_100).is_ok());
}

#[test]
fn start_rejects_a_bad_config() {
    let mut cfg = config(640, 480, 30, 1);
    cfg.input_format = 7;
    assert_eq!(
        start_feed_session(cfg, true, VcamSharedFeedControl::default(), 1),
        Err(VcamError::UnsupportedInputFormat)
    );
}

#[test]
fn stop_clears_flag_and_heartbeat_only() {
    let live = started(config(640, 480, 30, 1), 10_000);
    let stopped = stop_feed_session(live);
    assert_eq!(stopped.active, 0);
    assert_eq!(read_control_heartbeat_ms(&stopped), 0);
    assert_eq!(stopped.config, live.config);
    let blank = VcamSharedFeedControl::default();
    assert_eq!(stop_feed_session(blank), blank);
}

#[test]
fn reset_clears_the_ring_a_header_describes() {
    let live = started(config(640, 480, 30, 1), 10_000);
    assert_eq!(reset_feed_session(live), Ok(3 * (1_228_800 + 24)));
    assert_eq!(reset_feed_session(VcamSharedFeedControl::default()), Ok(0));
    let mut huge = live;
    huge.slot_bytes = u32::MAX;
    huge.slot_count = u32::MAX;
    assert_eq!(reset_feed_session(huge), Err(VcamError::DataMappingOverflow));
}
