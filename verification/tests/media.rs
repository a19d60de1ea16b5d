use vcam_server::error::VcamError;
use vcam_server::feed_session::FeedFrame;
use vcam_server::media::{
    check_start_time_format, check_stream_id, choose_frame, choose_sample_time, copy_frame_to_buffer,
    media_type_values, pack_u32_pair, provided_from_feed, provider_matches, FrameLayout, MediaTypeValues,
    Nv12Cache, ProvidedFrame, SharedFrameCache, SourceState, StaticPatternProvider, StreamAnnouncement,
    StreamShared, STREAM_STATE_RUNNING, STREAM_STATE_STOPPED,
};
use vcam_server::video_format::VideoFormat;

fn feed_frame(id: u64, ts: i64, bytes: &[u8]) -> FeedFrame {
    FeedFrame { frame_id: id, timestamp_100ns: ts, bgra: bytes.to_vec() }
}

#[test]
fn new_stream_is_stopped_and_live() {
    let s = StreamShared::new();
    assert_eq!(s, StreamShared { stream_state: STREAM_STATE_STOPPED, shutdown: false });
    assert_eq!(s.ensure_active(), Ok(()));
    assert_eq!(s.current_stream_state(), Ok(STREAM_STATE_STOPPED));
}

#[test]
fn started_stream_serves_samples_and_stopped_one_does_not() {
    let mut s = StreamShared::new();
    assert_eq!(s.check_sample_request(), Err(VcamError::InvalidRequest));
    assert_eq!(s.start(), Ok(()));
    assert_eq!(s.current_stream_state(), Ok(STREAM_STATE_RUNNING));
    assert_eq!(s.check_sample_request(), Ok(()));
    assert_eq!(s.stop(), Ok(()));
    assert_eq!(s.current_stream_state(), Ok(STREAM_STATE_STOPPED));
    assert_eq!(s.check_sample_request(), Err(VcamError::InvalidRequest));
    assert_eq!(s.set_stream_state(1), Ok(()));
    assert_eq!(s.current_stream_state(), Ok(1));
}

#[test]
fn stream_shutdown_is_final() {
    let mut s = StreamShared::new();
    s.start().unwrap();
    assert!(s.shutdown());
    assert!(!s.shutdown());
    assert_eq!(s.ensure_active(), Err(VcamError::Shutdown));
    assert_eq!(s.start(), Err(VcamError::Shutdown));
    assert_eq!(s.stop(), Err(VcamError::Shutdown));
    assert_eq!(s.set_stream_state(0), Err(VcamError::Shutdown));
    assert_eq!(s.current_stream_state(), Err(VcamError::Shutdown));
    assert_eq!(s.check_sample_request(), Err(VcamError::Shutdown));
    assert_eq!(s, StreamShared { stream_state: STREAM_STATE_RUNNING, shutdown: true });
}

#[test]
fn source_announces_new_then_updated_stream() {
    let mut s = SourceState::Stopped;
    assert_eq!(s.ensure_active(), Ok(()));
    assert_eq!(s.start_announcement(), Ok(StreamAnnouncement::NewStream));
    assert_eq!(s.stop_needed(), Ok(false));
    s = SourceState::Started;
    assert_eq!(s.start_announcement(), Ok(StreamAnnouncement::UpdatedStream));
    assert_eq!(s.stop_needed(), Ok(true));
    assert!(s.shutdown());
    assert_eq!(s, SourceState::Shutdown);
    assert!(!s.shutdown());
    assert_eq!(s.ensure_active(), Err(VcamError::Shutdown));
    assert_eq!(s.start_announcement(), Err(VcamError::Shutdown));
    assert_eq!(s.stop_needed(), Err(VcamError::Shutdown));
}

#[test]
fn start_accepts_only_the_default_time_format() {
    assert_eq!(check_start_time_format(false, false), Ok(()));
    assert_eq!(check_start_time_format(true, true), Ok(()));
    assert_eq!(check_start_time_format(true, false), Err(VcamError::UnsupportedTimeFormat));
}

#[test]
fn only_stream_zero_exists() {
    assert_eq!(check_stream_id(0), Ok(()));
    assert_eq!(check_stream_id(1), Err(VcamError::InvalidRequest));
}

#[test]
fn pairs_pack_high_first() {
    assert_eq!(pack_u32_pair(1920, 1080), (1920u64 << 32) | 1080);
    assert_eq!(pack_u32_pair(1, 1), 0x1_0000_0001);
    assert_eq!(pack_u32_pair(u32::MAX, u32::MAX), u64::MAX);
    let v = pack_u32_pair(30000, 1001);
    assert_eq!(((v >> 32) as u32, v as u32), (30000, 1001));
}

#[test]
fn media_type_values_of_1080p60() {
    let f = VideoFormat::default();
    assert_eq!(
        media_type_values(f, FrameLayout::Rgb32),
        MediaTypeValues {
            sample_size: 8_294_400,
            default_stride: 7680,
            frame_size: pack_u32_pair(1920, 1080),
            frame_rate: pack_u32_pair(60, 1),
            pixel_aspect_ratio: pack_u32_pair(1, 1),
            avg_bitrate: 3_981_312_000,
        }
    );
    let nv12 = media_type_values(f, FrameLayout::Nv12);
    assert_eq!(nv12.sample_size, 3_110_400);
    assert_eq!(nv12.default_stride, 1920);
    assert_eq!(nv12.avg_bitrate, 1_492_992_000);
}

#[test]
fn bitrate_saturates() {
    let f = VideoFormat { width: 4096, height: 4096, fps_num: 240, fps_den: 1 };
    assert_eq!(media_type_values(f, FrameLayout::Rgb32).avg_bitrate, u32::MAX);
}

#[test]
fn static_provider_serves_the_pattern_without_a_timestamp() {
    let f = VideoFormat { width: 16, height: 8, fps_num: 30, fps_den: 1 };
    let gradient: Vec<u8> = (0..16).map(|x| ((x as f32 / 16.0) * 255.0) as u8).collect();
    let provider = StaticPatternProvider::new(f, &gradient, |b: &[u8]| b[..b.len() * 3 / 8].to_vec());
    let frame = provider.current_frame();
    assert_eq!(frame.frame_id, 0);
    assert_eq!(frame.sample_time_100ns, None);
    assert_eq!(frame.bgra, provider.pattern.rgb32_bytes().to_vec());
    assert_eq!(frame.nv12, Some(provider.pattern.nv12_bytes().to_vec()));
    assert_eq!(frame.nv12.unwrap().len(), 192);
}

#[test]
fn feed_frames_carry_their_timestamp() {
    let p = provided_from_feed(&feed_frame(7, 123, &[1, 2, 3, 4]));
    assert_eq!(p.frame_id, 7);
    assert_eq!(p.sample_time_100ns, Some(123));
    assert_eq!(p.bgra, vec![1, 2, 3, 4]);
    assert!(p.nv12.is_none());
}

#[test]
fn shared_cache_serves_the_last_frame_until_the_feed_stops() {
    let mut cache = SharedFrameCache::new();
    assert!(cache.provide(true, None).is_none());
    let p = cache.provide(true, Some(feed_frame(1, 10, &[5]))).unwrap();
    assert_eq!((p.frame_id, p.sample_time_100ns, p.bgra), (1, Some(10), vec![5]));
    let again = cache.provide(true, None).unwrap();
    assert_eq!((again.frame_id, again.sample_time_100ns, again.bgra), (1, Some(10), vec![5]));
    let newer = cache.provide(true, Some(feed_frame(2, 20, &[6]))).unwrap();
    assert_eq!(newer.frame_id, 2);
    assert!(cache.provide(false, Some(feed_frame(3, 30, &[7]))).is_none());
    assert!(cache.last_successful.is_none());
    assert!(cache.provide(true, None).is_none());
}

#[test]
fn shared_frames_win_over_the_static_one() {
    let fallback = ProvidedFrame { frame_id: 0, sample_time_100ns: None, bgra: vec![0], nv12: Some(vec![0]) };
    let shared = ProvidedFrame { frame_id: 9, sample_time_100ns: Some(1), bgra: vec![1], nv12: None };
    assert_eq!(choose_frame(Some(shared), fallback).frame_id, 9);
    let fallback = ProvidedFrame { frame_id: 0, sample_time_100ns: None, bgra: vec![0], nv12: Some(vec![0]) };
    assert_eq!(choose_frame(None, fallback).frame_id, 0);
}

#[test]
fn feed_must_match_the_stream_format() {
    let a = VideoFormat { width: 640, height: 480, fps_num: 30, fps_den: 1 };
    let b = VideoFormat { width: 640, height: 480, fps_num: 60, fps_den: 1 };
    assert!(provider_matches(a, a));
    assert!(!provider_matches(a, b));
}

#[test]
fn sample_time_falls_back_to_the_clock() {
    assert_eq!(choose_sample_time(Some(5), 100), 5);
    assert_eq!(choose_sample_time(None, 100), 100);
}

#[test]
fn nv12_cache_reuses_a_conversion_of_the_same_frame() {
    let mut cache = Nv12Cache::new();
    let frame = ProvidedFrame { frame_id: 4, sample_time_100ns: Some(1), bgra: vec![1; 8], nv12: None };
    assert!(cache.lookup(&frame).is_none());
    cache.store(4, &[9, 9, 9]);
    assert_eq!(cache.lookup(&frame), Some(vec![9, 9, 9]));
    let other = ProvidedFrame { frame_id: 5, sample_time_100ns: Some(1), bgra: vec![1; 8], nv12: None };
    assert!(cache.lookup(&other).is_none());
    let ready = ProvidedFrame { frame_id: 5, sample_time_100ns: None, bgra: vec![1; 8], nv12: Some(vec![3]) };
    assert_eq!(cache.lookup(&ready), Some(vec![3]));
}

#[test]
fn frames_are_copied_into_large_enough_buffers() {
    let mut buffer = vec![0u8; 6];
    assert_eq!(copy_frame_to_buffer(&mut buffer, 6, &[1, 2, 3, 4]), Ok(()));
    assert_eq!(buffer, vec![1, 2, 3, 4, 0, 0]);
    let mut small = vec![0u8; 6];
    assert_eq!(copy_frame_to_buffer(&mut small, 3, &[1, 2, 3, 4]), Err(VcamError::BufferTooSmall));
    assert_eq!(small, vec![0u8; 6]);
}
