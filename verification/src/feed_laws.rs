use vstd::prelude::*;

use crate::error::VcamError;
use crate::feed::{
    config_check, config_format, control_is_valid, spec_config_from_format, spec_control_active,
    spec_deactivate_stale, spec_feed_layout, spec_heartbeat, spec_initial_control, spec_read_state,
    spec_stale_threshold, spec_start_session, spec_stop_session, spec_with_heartbeat,
    VcamSharedFeedControl, VCAM_FEED_CONFIG, FEED_STALE_GRACE_MS_MIN,
};
use crate::constants::VCAM_FEED_SLOT_COUNT;
use crate::feed::VcamSharedFeedSlotHeader;
use crate::feed_session::{
    packed_rows, spec_commit, spec_committed_read, spec_copy_slot, spec_read_step, CommittedRead, ReadStep,
    LATEST_FRAME_READ_ATTEMPTS, spec_payload_offset, spec_slot_index, spliced,
    FeedSessionProducer, FeedSessionReader,
};
use crate::video_format::{format_is_valid, spec_bgra_stride, VideoFormat};

verus! {

/// Reading the heartbeat gives back what was last written into it.
pub proof fn heartbeat_round_trip(c: VcamSharedFeedControl, value: u64)
    ensures
        spec_heartbeat(spec_with_heartbeat(c, value)) == value,
{
}

/// Rows packed at their own length are the first `rows * row_bytes` bytes
/// unchanged.
pub proof fn packed_rows_of_tight_rows(src: Seq<u8>, row_bytes: int, rows: nat)
    requires
        row_bytes >= 0,
        row_bytes * rows <= src.len(),
    ensures
        packed_rows(src, row_bytes, row_bytes, rows) == src.subrange(0, row_bytes * rows),
    decreases rows,
{
    if rows > 0 {
        let r = (rows - 1) as nat;
        assert(row_bytes * r + row_bytes == row_bytes * rows) by (nonlinear_arith)
            requires r + 1 == rows;
        assert(row_bytes * r <= row_bytes * rows) by (nonlinear_arith)
            requires r <= rows, row_bytes >= 0;
        packed_rows_of_tight_rows(src, row_bytes, r);
        let before = src.subrange(0, row_bytes * r);
        let last = src.subrange(row_bytes * r, row_bytes * r + row_bytes);
        assert(r * row_bytes == row_bytes * r) by (nonlinear_arith);
        assert(packed_rows(src, row_bytes, row_bytes, rows) == before + last);
        assert(before + last =~= src.subrange(0, row_bytes * rows));
    }
}

/// A frame that a producer publishes is what a reader of the same session
/// copies out of the committed slot, with the slot header the producer
/// wrote: same id, same timestamp, and the payload rows packed to the
/// frame width. The payload must fit the 32-bit byte count of the slot
/// header.
pub proof fn published_frame_reads_back(
    producer: FeedSessionProducer,
    reader: FeedSessionReader,
    control: VcamSharedFeedControl,
    data: Seq<u8>,
    frame_id: u64,
    timestamp_100ns: i64,
    payload: Seq<u8>,
    now_ms: u64,
)
    requires
        producer.wf(),
        reader.wf(),
        producer.spec_config() == reader.spec_config(),
        data.len() >= producer.spec_layout().data_bytes,
        control.active != 0,
        payload.len() == producer.spec_layout().payload_bytes,
        payload.len() <= 0xffff_ffff,
    ensures
        ({
            let layout = producer.spec_layout();
            let commit = spec_commit(layout, control, frame_id, timestamp_100ns, payload.len() as int, now_ms);
            let written = spliced(data, spec_payload_offset(layout, spec_slot_index(frame_id)), payload);
            let config = reader.spec_config();
            &&& commit.slot_index == spec_slot_index(frame_id)
            &&& commit.control.committed_slot == commit.slot_index
            &&& commit.control.committed_frame_id == frame_id
            &&& spec_copy_slot(config, reader.spec_layout(), written, commit.slot_index as int, commit.control.committed_frame_id, commit.header)
                == Ok::<(u64, i64, Seq<u8>), VcamError>((
                    frame_id,
                    timestamp_100ns,
                    packed_rows(payload, config.input_stride as int, spec_bgra_stride(config_format(config)), config.height as nat),
                ))
        }),
{
    let layout = producer.spec_layout();
    producer.lemma_wf();
    reader.lemma_wf();
    assert(reader.spec_layout() == layout);
    let slot = spec_slot_index(frame_id);
    assert(0 <= slot < 3);
    let start = spec_payload_offset(layout, slot);
    assert(slot * layout.slot_span_bytes <= 2 * layout.slot_span_bytes) by (nonlinear_arith)
        requires 0 <= slot <= 2, layout.slot_span_bytes >= 0;
    assert(layout.data_bytes == layout.slot_span_bytes * 3);
    assert(layout.slot_span_bytes == layout.payload_bytes + 24);
    let written = spliced(data, start, payload);
    assert(written.subrange(start, start + layout.payload_bytes) =~= payload);
}

/// Frames go round the three slots, so publishing either of the two frames
/// after the committed one leaves the committed frame's payload untouched:
/// a reader still copying it reads it whole.
pub proof fn next_frames_leave_committed_payload_alone(
    producer: FeedSessionProducer,
    data: Seq<u8>,
    committed_id: u64,
    next_id: u64,
    payload: Seq<u8>,
)
    requires
        producer.wf(),
        data.len() >= producer.spec_layout().data_bytes,
        payload.len() == producer.spec_layout().payload_bytes,
        committed_id < next_id,
        next_id <= committed_id + 2,
    ensures
        ({
            let layout = producer.spec_layout();
            let start = spec_payload_offset(layout, spec_slot_index(committed_id));
            let written = spliced(data, spec_payload_offset(layout, spec_slot_index(next_id)), payload);
            written.subrange(start, start + layout.payload_bytes) == data.subrange(start, start + layout.payload_bytes)
        }),
{
    let layout = producer.spec_layout();
    producer.lemma_wf();
    let a = spec_slot_index(committed_id);
    let b = spec_slot_index(next_id);
    assert(a != b) by {
        let d = next_id - committed_id;
        assert(1 <= d <= 2);
        assert(next_id as int % 3 != committed_id as int % 3) by (nonlinear_arith)
            requires next_id as int == committed_id as int + d, 1 <= d <= 2;
    }
    let span = layout.slot_span_bytes as int;
    let n = layout.payload_bytes as int;
    assert(span == n + 24);
    let start_a = spec_payload_offset(layout, a);
    let start_b = spec_payload_offset(layout, b);
    assert(start_a + n <= start_b || start_b + n <= start_a) by (nonlinear_arith)
        requires start_a == a * span + 24, start_b == b * span + 24, a != b, span == n + 24, n >= 0;
    assert(0 <= a <= 2 && 0 <= b <= 2);
    assert(a * span <= 2 * span && b * span <= 2 * span) by (nonlinear_arith)
        requires 0 <= a <= 2, 0 <= b <= 2, span >= 0;
    assert(layout.data_bytes == span * 3);
    let written = spliced(data, start_b, payload);
    assert(written.subrange(start_a, start_a + n) =~= data.subrange(start_a, start_a + n));
}

/// For a session whose rows are tightly packed, as `from_video_format`
/// configures it, the frame read back is exactly the published payload.
pub proof fn tight_frame_reads_back_unchanged(format: VideoFormat, payload: Seq<u8>)
    requires
        format_is_valid(format),
        spec_bgra_stride(format) <= 0xffff_ffff,
        payload.len() == spec_bgra_stride(format) * format.height,
    ensures
        ({
            let config = spec_config_from_format(format);
            packed_rows(payload, config.input_stride as int, spec_bgra_stride(config_format(config)), config.height as nat)
                == payload
        }),
{
    let k = spec_bgra_stride(format);
    packed_rows_of_tight_rows(payload, k, format.height as nat);
    assert(payload.subrange(0, k * format.height) =~= payload);
}

/// A config built from a valid format whose rows fit a 32-bit stride and
/// whose frames fit `usize` passes validation and gives the format back.
pub proof fn config_from_valid_format_is_valid(format: VideoFormat)
    requires
        format_is_valid(format),
        spec_bgra_stride(format) <= 0xffff_ffff,
        spec_bgra_stride(format) * format.height <= usize::MAX,
    ensures
        config_check(spec_config_from_format(format)) == Ok::<(), VcamError>(()),
        config_format(spec_config_from_format(format)) == format,
{
}

/// A session that was just started is live at the moment it started, as
/// long as the clock reads after the epoch.
pub proof fn started_session_is_active(config: VCAM_FEED_CONFIG, slot_bytes: u32, now_ms: u64)
    requires
        now_ms != 0,
    ensures
        spec_control_active(spec_initial_control(config, slot_bytes, now_ms), now_ms),
{
    let c = spec_initial_control(config, slot_bytes, now_ms);
    assert(spec_heartbeat(c) == now_ms);
}

/// A stopped session is never live again until it is restarted, and the
/// broker reports it inactive.
pub proof fn stopped_session_is_inactive(control: VcamSharedFeedControl, now_ms: u64)
    requires
        control_is_valid(control),
    ensures
        !spec_control_active(spec_stop_session(control), now_ms),
        spec_read_state(Some(spec_stop_session(control)), now_ms).0.active == 0,
{
}

/// Starting a session over a live one fails with `SessionBusy` unless a
/// reset is forced; with a reset, or over a stale or dead session, it
/// succeeds for every valid config.
pub proof fn start_session_busy_rule(
    config: VCAM_FEED_CONFIG,
    existing: VcamSharedFeedControl,
    now_ms: u64,
)
    requires
        spec_feed_layout(config) is Ok,
    ensures
        spec_control_active(existing, now_ms) && control_is_valid(existing)
            ==> spec_start_session(config, false, existing, now_ms) == Err::<VcamSharedFeedControl, VcamError>(VcamError::SessionBusy),
        spec_start_session(config, true, existing, now_ms) is Ok,
        !spec_control_active(existing, now_ms) ==> spec_start_session(config, false, existing, now_ms) is Ok,
{
}

/// Deactivating a stale session only ever clears the active flag, and a
/// second pass changes nothing.
pub proof fn deactivation_is_idempotent(control: VcamSharedFeedControl, now_ms: u64)
    ensures
        spec_deactivate_stale(spec_deactivate_stale(control, now_ms), now_ms) == spec_deactivate_stale(control, now_ms),
        spec_deactivate_stale(control, now_ms) == (VcamSharedFeedControl { active: spec_deactivate_stale(control, now_ms).active, ..control }),
        spec_control_active(spec_deactivate_stale(control, now_ms), now_ms) == spec_control_active(control, now_ms),
{
}

/// The stale threshold is never below the grace period, and never below
/// four frame periods of the configured rate.
pub proof fn stale_threshold_bounds(config: VCAM_FEED_CONFIG)
    ensures
        spec_stale_threshold(config) >= FEED_STALE_GRACE_MS_MIN,
        config.fps_num != 0 ==> spec_stale_threshold(config) as int * config.fps_num as int >= 4000 * config.fps_den as int,
{
    if config.fps_num != 0 {
        let n = config.fps_num as int;
        let x = config.fps_den as int * 4000 + n - 1;
        let q = x / n;
        assert(q * n >= 4000 * config.fps_den as int) by (nonlinear_arith)
            requires n >= 1, q == x / n, x == config.fps_den as int * 4000 + n - 1;
        assert(spec_stale_threshold(config) as int >= q);
        assert(spec_stale_threshold(config) as int * n >= q * n) by (nonlinear_arith)
            requires spec_stale_threshold(config) as int >= q, n >= 1;
    }
}

/// A producer writing over the committed slot while a reader copies it
/// never makes the read fail: the slot header then names another frame than
/// the one committed, and the copy reads as torn, which is retried.
pub proof fn racing_write_reads_as_torn(
    reader: FeedSessionReader,
    committed_slot: u32,
    frame_id_before: u64,
    header: VcamSharedFeedSlotHeader,
    data: Seq<u8>,
)
    requires
        committed_slot < VCAM_FEED_SLOT_COUNT,
        header.frame_id != frame_id_before,
    ensures
        spec_committed_read(reader.spec_config(), reader.spec_layout(), committed_slot, frame_id_before, header, data)
            == Ok::<CommittedRead<(u64, i64, Seq<u8>)>, VcamError>(CommittedRead::Torn),
{
}

/// A read of the latest frame ends within its attempts: the last attempt
/// always delivers, a retry comes only from a torn slot or a commit during
/// the copy, and a delivered frame is one that was copied whole while no
/// other frame was committed.
pub proof fn latest_read_ends_with_a_whole_frame_or_none<F>(
    attempt: int,
    read: CommittedRead<F>,
    frame_id_before: u64,
    frame_id_after: u64,
)
    requires
        1 <= attempt <= LATEST_FRAME_READ_ATTEMPTS,
    ensures
        attempt == LATEST_FRAME_READ_ATTEMPTS ==> spec_read_step(attempt, read, frame_id_before, frame_id_after) is Deliver,
        spec_read_step(attempt, read, frame_id_before, frame_id_after) is Retry ==> (read is Torn
            || (read is Copied && frame_id_before != frame_id_after)),
        spec_read_step(attempt, read, frame_id_before, frame_id_after) matches ReadStep::Deliver(Some(f)) ==> (read
            == CommittedRead::Copied(f) && frame_id_before == frame_id_after),
{
}

} // verus!
