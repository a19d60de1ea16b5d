use vcam_server::broker::FrameBroker;
use vcam_server::constants::VCAM_INVALID_SLOT_INDEX;
use vcam_server::error::VcamError;
use vcam_server::feed::{
    read_control_heartbeat_ms, start_feed_session, stop_feed_session, VcamSharedFeedControl,
    VcamSharedFeedSlotHeader, VCAM_FEED_CONFIG,
};
use vcam_server::feed_session::{
    copy_bytes, latest_frame_step, pack_rows, settle_read, CommittedRead, FeedFrame, FeedSessionProducer,
    FeedSessionReader, ReadStep, LATEST_FRAME_READ_ATTEMPTS,
};

fn tiny_config() -> VCAM_FEED_CONFIG {
    VCAM_FEED_CONFIG::bgra8(2, 2, 30, 1).unwrap()
}

fn padded_config() -> VCAM_FEED_CONFIG {
    let mut c = tiny_config();
    c.input_stride = 12;
    c
}

fn session(cfg: VCAM_FEED_CONFIG) -> VcamSharedFeedControl {
    start_feed_session(cfg, false, VcamSharedFeedControl::default(), 5_000).unwrap()
}

fn payload(len: usize, seed: u8) -> Vec<u8> {
    (0..len).map(|i| seed.wrapping_add(i as u8)).collect()
}

#[test]
fn producer_open_checks_the_header() {
    let cfg = tiny_config();
    assert_eq!(
        FeedSessionProducer::open(cfg, &VcamSharedFeedControl::default()).err(),
        Some(VcamError::ControlNotInitialized)
    );
    let other = session(VCAM_FEED_CONFIG::bgra8(4, 2, 30, 1).unwrap());
    assert_eq!(FeedSessionProducer::open(cfg, &other).err(), Some(VcamError::ProducerConfigMismatch));
    let mut bad = cfg;
    bad.input_format = 0;
    assert_eq!(FeedSessionProducer::open(bad, &session(cfg)).err(), Some(VcamError::UnsupportedInputFormat));
    let p = FeedSessionProducer::open(cfg, &session(cfg)).unwrap();
    assert_eq!(p.config(), cfg);
    assert_eq!(p.layout().payload_bytes, 16);
    assert_eq!(p.layout().slot_span_bytes, 40);
    assert_eq!(p.layout().data_bytes, 120);
}

#[test]
fn reader_open_checks_the_header() {
    let cfg = tiny_config();
    assert_eq!(
        FeedSessionReader::open(cfg, &VcamSharedFeedControl::default()).err(),
        Some(VcamError::ControlNotInitialized)
    );
    let other = session(VCAM_FEED_CONFIG::bgra8(4, 2, 30, 1).unwrap());
    assert_eq!(FeedSessionReader::open(cfg, &other).err(), Some(VcamError::ReaderConfigMismatch));
    let r = FeedSessionReader::open(cfg, &session(cfg)).unwrap();
    assert_eq!(r.config(), cfg);
    assert!(r.is_active(&session(cfg), 5_500));
    assert!(!r.is_active(&stop_feed_session(session(cfg)), 5_500));
}

#[test]
fn publish_rejects_a_payload_of_the_wrong_size() {
    let cfg = tiny_config();
    let control = session(cfg);
    let p = FeedSessionProducer::open(cfg, &control).unwrap();
    let mut data = vec![0u8; 120];
    let r = p.publish_bgra_frame(&control, &mut data, 1, 10, &payload(15, 0), 5_100);
    assert_eq!(r, Err(VcamError::PayloadSizeMismatch { expected: 16, actual: 15 }));
    assert_eq!(data, vec![0u8; 120]);
}

#[test]
fn publish_rejects_an_inactive_session() {
    let cfg = tiny_config();
    let control = session(cfg);
    let p = FeedSessionProducer::open(cfg, &control).unwrap();
    let stopped = stop_feed_session(control);
    let mut data = vec![0u8; 120];
    let r = p.publish_bgra_frame(&stopped, &mut data, 1, 10, &payload(16, 0), 5_100);
    assert_eq!(r, Err(VcamError::SessionInactive));
    assert_eq!(data, vec![0u8; 120]);
}

#[test]
fn publish_fills_the_slot_of_the_frame_and_commits_it() {
    let cfg = tiny_config();
    let control = session(cfg);
    let p = FeedSessionProducer::open(cfg, &control).unwrap();
    let mut data = vec![0u8; 120];
    let frame = payload(16, 100);
    let commit = p.publish_bgra_frame(&control, &mut data, 4, 1234, &frame, 6_000).unwrap();
    // Frame 4 goes to slot 1, whose payload starts after its 24-byte header.
    assert_eq!(commit.slot_index, 1);
    assert_eq!(commit.slot_offset, 40);
    assert_eq!(commit.header, VcamSharedFeedSlotHeader { frame_id: 4, timestamp_100ns: 1234, bytes_written: 16, reserved: 0 });
    assert_eq!(&data[64..80], &frame[..]);
    assert!(data[..64].iter().all(|b| *b == 0));
    assert!(data[80..].iter().all(|b| *b == 0));
    assert_eq!(commit.control.committed_slot, 1);
    assert_eq!(commit.control.committed_frame_id, 4);
    assert_eq!(commit.control.last_timestamp_100ns, 1234);
    assert_eq!(read_control_heartbeat_ms(&commit.control), 6_000);
    assert_eq!(commit.control.config, control.config);
}

#[test]
fn published_frame_reads_back() {
    let cfg = tiny_config();
    let control = session(cfg);
    let p = FeedSessionProducer::open(cfg, &control).unwrap();
    let r = FeedSessionReader::open(cfg, &control).unwrap();
    let mut data = vec![0u8; 120];
    let frame = payload(16, 7);
    let commit = p.publish_bgra_frame(&control, &mut data, 5, 99, &frame, 6_000).unwrap();
    let read = r.copy_slot_frame(&data, commit.slot_index as usize, 5, commit.header).unwrap();
    assert_eq!(read.frame_id, 5);
    assert_eq!(read.timestamp_100ns, 99);
    assert_eq!(read.bgra, frame);
}

#[test]
fn padded_rows_are_packed_on_read() {
    let cfg = padded_config();
    let control = session(cfg);
    let p = FeedSessionProducer::open(cfg, &control).unwrap();
    let r = FeedSessionReader::open(cfg, &control).unwrap();
    assert_eq!(p.layout().payload_bytes, 24);
    let mut data = vec![0u8; p.layout().data_bytes];
    let frame = payload(24, 0);
    let commit = p.publish_bgra_frame(&control, &mut data, 0, 1, &frame, 6_000).unwrap();
    let read = r.copy_slot_frame(&data, 0, 0, commit.header).unwrap();
    let mut expected = frame[0..8].to_vec();
    expected.extend_from_slice(&frame[12..20]);
    assert_eq!(read.bgra, expected);
}

#[test]
fn copy_checks_the_slot_header() {
    let cfg = tiny_config();
    let r = FeedSessionReader::open(cfg, &session(cfg)).unwrap();
    let data = vec![0u8; 120];
    let header = VcamSharedFeedSlotHeader { frame_id: 3, timestamp_100ns: 0, bytes_written: 16, reserved: 0 };
    assert_eq!(r.copy_slot_frame(&data, 0, 4, header).err(), Some(VcamError::SlotFrameChanged));
    let short = VcamSharedFeedSlotHeader { bytes_written: 15, ..header };
    assert_eq!(r.copy_slot_frame(&data, 0, 3, short).err(), Some(VcamError::SlotPayloadSizeMismatch));
}

#[test]
fn read_committed_outcomes() {
    let cfg = tiny_config();
    let control = session(cfg);
    let p = FeedSessionProducer::open(cfg, &control).unwrap();
    let r = FeedSessionReader::open(cfg, &control).unwrap();
    let mut data = vec![0u8; 120];
    let frame = payload(16, 3);
    let commit = p.publish_bgra_frame(&control, &mut data, 2, 50, &frame, 6_000).unwrap();
    let header = commit.header;
    assert!(matches!(r.read_committed(VCAM_INVALID_SLOT_INDEX, 0, header, &data), Ok(CommittedRead::NoFrame)));
    assert!(matches!(r.read_committed(3, 2, header, &data), Err(VcamError::SlotIndexOutOfRange)));
    // The slot names frame 2 while frame 1 was committed: it was written
    // over during the read, which is no error.
    assert!(matches!(r.read_committed(2, 1, header, &data), Ok(CommittedRead::Torn)));
    let bad = VcamSharedFeedSlotHeader { bytes_written: 15, ..header };
    assert!(matches!(
        r.read_committed(commit.control.committed_slot, 2, bad, &data),
        Err(VcamError::SlotPayloadSizeMismatch)
    ));
    let f = match r.read_committed(commit.control.committed_slot, 2, header, &data) {
        Ok(CommittedRead::Copied(f)) => f,
        _ => panic!("the committed frame should be copied"),
    };
    assert_eq!(f.frame_id, 2);
    assert_eq!(f.timestamp_100ns, 50);
    assert_eq!(f.bgra, frame);
    assert_eq!(LATEST_FRAME_READ_ATTEMPTS, 2);
}

#[test]
fn reads_stand_only_if_nothing_was_committed_meanwhile() {
    let f = FeedFrame { frame_id: 2, timestamp_100ns: 5, bgra: vec![1] };
    assert_eq!(settle_read(f.clone(), 2, 2).map(|g| g.frame_id), Some(2));
    assert!(settle_read(f, 2, 3).is_none());
}

#[test]
fn pack_rows_takes_the_front_of_each_row() {
    let src: Vec<u8> = (0..12).collect();
    assert_eq!(pack_rows(&src, 4, 2, 3), vec![0, 1, 4, 5, 8, 9]);
    assert_eq!(pack_rows(&src, 4, 4, 3), src);
    assert_eq!(pack_rows(&src, 4, 2, 0), Vec::<u8>::new());
}

#[test]
fn frames_clone_and_copy_exactly() {
    let f = FeedFrame { frame_id: 1, timestamp_100ns: -2, bgra: vec![1, 2, 3] };
    let g = f.clone();
    assert_eq!((g.frame_id, g.timestamp_100ns, g.bgra), (1, -2, vec![1, 2, 3]));
    assert_eq!(copy_bytes(&[9, 8]), vec![9, 8]);
}

#[test]
fn broker_refuses_missing_pointers() {
    let broker = FrameBroker::create();
    let cfg = tiny_config();
    assert_eq!(
        broker.start_session(None, false, VcamSharedFeedControl::default(), 1),
        Err(VcamError::NullPointer)
    );
    assert_eq!(broker.session_state(false, None, 1).err(), Some(VcamError::NullPointer));
    let control = broker.start_session(Some(cfg), false, VcamSharedFeedControl::default(), 1_000).unwrap();
    assert_eq!(broker.start_session(Some(cfg), false, control, 1_100), Err(VcamError::SessionBusy));
    let (state, _) = broker.session_state(true, Some(control), 1_100).unwrap();
    assert_eq!(state.active, 1);
    assert_eq!(state.width, 2);
    let stopped = broker.stop_session(control);
    assert_eq!(stopped.active, 0);
    let (state, _) = broker.session_state(true, Some(stopped), 1_100).unwrap();
    assert_eq!(state.active, 0);
    assert_eq!(broker.reset_session(stopped), Ok(120));
}

#[test]
fn latest_frame_steps() {
    let frame = || FeedFrame { frame_id: 4, timestamp_100ns: 9, bgra: vec![1, 2] };
    // A whole copy with no commit meanwhile is delivered, on either attempt.
    for attempt in 1..=LATEST_FRAME_READ_ATTEMPTS {
        match latest_frame_step(attempt, CommittedRead::Copied(frame()), 4, 4) {
            ReadStep::Deliver(Some(f)) => assert_eq!((f.frame_id, f.timestamp_100ns, f.bgra), (4, 9, vec![1, 2])),
            _ => panic!("expected the frame"),
        }
    }
    // No frame committed: nothing, at once.
    assert!(matches!(latest_frame_step(1, CommittedRead::NoFrame, 0, 0), ReadStep::Deliver(None)));
    // Torn slot or a commit during the copy: retry first, then give up cleanly.
    assert!(matches!(latest_frame_step(1, CommittedRead::Torn, 4, 4), ReadStep::Retry));
    assert!(matches!(latest_frame_step(2, CommittedRead::Torn, 4, 4), ReadStep::Deliver(None)));
    assert!(matches!(latest_frame_step(1, CommittedRead::Copied(frame()), 4, 5), ReadStep::Retry));
    assert!(matches!(latest_frame_step(2, CommittedRead::Copied(frame()), 4, 5), ReadStep::Deliver(None)));
}
