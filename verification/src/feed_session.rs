use vstd::prelude::*;

use crate::constants::{VCAM_FEED_SLOT_COUNT, VCAM_INVALID_SLOT_INDEX};
use crate::error::VcamError;
use crate::feed::{
    config_payload, config_is_valid, control_is_valid, feed_layout, is_valid_control,
    read_control_active, spec_control_active, spec_feed_layout, spec_with_heartbeat,
    write_control_heartbeat_ms, FeedLayout, VcamSharedFeedControl, VcamSharedFeedSlotHeader,
    VCAM_FEED_CONFIG, SLOT_HEADER_BYTES,
};
use crate::video_format::{spec_bgra_stride, VideoFormat};

verus! {

/// A frame copied out of the slot ring with tightly packed BGRA rows.
#[derive(Debug)]
pub struct FeedFrame {
    pub frame_id: u64,
    pub timestamp_100ns: i64,
    pub bgra: Vec<u8>,
}

impl Clone for FeedFrame {
    fn clone(&self) -> (r: Self)
        ensures
            r.frame_id == self.frame_id,
            r.timestamp_100ns == self.timestamp_100ns,
            r.bgra@ == self.bgra@,
    {
        FeedFrame { frame_id: self.frame_id, timestamp_100ns: self.timestamp_100ns, bgra: copy_bytes(&self.bgra) }
    }
}

/// A fresh vector with the bytes of `src`.
pub fn copy_bytes(src: &[u8]) -> (v: Vec<u8>)
    ensures
        v@ == src@,
{
    let mut v: Vec<u8> = Vec::with_capacity(src.len());
    let mut i: usize = 0;
    while i < src.len()
        invariant
            i <= src@.len(),
            v@ == src@.subrange(0, i as int),
        decreases src@.len() - i,
    {
        v.push(src[i]);
        i = i + 1;
        assert(v@ =~= src@.subrange(0, i as int));
    }
    assert(src@.subrange(0, src@.len() as int) =~= src@);
    v
}

/// `rows` rows of `row_bytes` bytes each, taken `stride` bytes apart from
/// `src`, placed one after another.
pub open spec fn packed_rows(src: Seq<u8>, stride: int, row_bytes: int, rows: nat) -> Seq<u8>
    decreases rows,
{
    if rows == 0 {
        Seq::<u8>::empty()
    } else {
        let r = rows - 1;
        packed_rows(src, stride, row_bytes, r as nat) + src.subrange(r * stride, r * stride + row_bytes)
    }
}

/// `data` with `bytes` written over it from `offset` on.
pub open spec fn spliced(data: Seq<u8>, offset: int, bytes: Seq<u8>) -> Seq<u8> {
    data.subrange(0, offset) + bytes + data.subrange(offset + bytes.len(), data.len() as int)
}

/// The ring slot that carries the frame with id `frame_id`.
pub open spec fn spec_slot_index(frame_id: u64) -> int {
    frame_id as int % VCAM_FEED_SLOT_COUNT as int
}

/// Where in the slot ring a slot's payload starts.
pub open spec fn spec_payload_offset(layout: FeedLayout, slot_index: int) -> int {
    slot_index * layout.slot_span_bytes + SLOT_HEADER_BYTES
}

/// A layout that `feed_layout` produced for `config`.
pub open spec fn layout_of(config: VCAM_FEED_CONFIG, layout: FeedLayout) -> bool {
    spec_feed_layout(config) == Ok::<FeedLayout, VcamError>(layout)
}

/// What a producer writes where, once a frame is in its slot.
#[derive(Clone, Copy, Debug, PartialEq, Eq, Structural)]
pub struct SlotCommit {
    /// The slot the frame went to.
    pub slot_index: u32,
    /// Offset of that slot in the ring; its header starts there.
    pub slot_offset: usize,
    /// The slot header to write, reserved word aside.
    pub header: VcamSharedFeedSlotHeader,
    /// The control header after the commit.
    pub control: VcamSharedFeedControl,
}

/// The producer end of a session: it fills the slot ring and commits frames.
pub struct FeedSessionProducer {
    config: VCAM_FEED_CONFIG,
    layout: FeedLayout,
}

/// The consumer end of a session: it copies committed frames out.
pub struct FeedSessionReader {
    config: VCAM_FEED_CONFIG,
    layout: FeedLayout,
}

pub open spec fn spec_open_error(
    config: VCAM_FEED_CONFIG,
    control: VcamSharedFeedControl,
    mismatch: VcamError,
) -> Option<VcamError> {
    match spec_feed_layout(config) {
        Err(e) => Some(e),
        Ok(_) => if !control_is_valid(control) {
            Some(VcamError::ControlNotInitialized)
        } else if control.config != config {
            Some(mismatch)
        } else {
            None
        },
    }
}

/// The commit that publishing a frame makes.
pub open spec fn spec_commit(
    layout: FeedLayout,
    control: VcamSharedFeedControl,
    frame_id: u64,
    timestamp_100ns: i64,
    payload_len: int,
    now_ms: u64,
) -> SlotCommit {
    let slot = spec_slot_index(frame_id);
    SlotCommit {
        slot_index: slot as u32,
        slot_offset: (slot * layout.slot_span_bytes) as usize,
        header: VcamSharedFeedSlotHeader {
            frame_id,
            timestamp_100ns,
            bytes_written: payload_len as u32,
            reserved: 0,
        },
        control: VcamSharedFeedControl {
            last_timestamp_100ns: timestamp_100ns,
            committed_slot: slot as u32,
            committed_frame_id: frame_id,
            ..spec_with_heartbeat(control, now_ms)
        },
    }
}

impl FeedSessionProducer {
    pub closed spec fn spec_config(&self) -> VCAM_FEED_CONFIG {
        self.config
    }

    /// What well-formedness says of the config and layout.
    pub proof fn lemma_wf(&self)
        requires
            self.wf(),
        ensures
            config_is_valid(self.spec_config()),
            layout_of(self.spec_config(), self.spec_layout()),
            self.spec_layout().payload_bytes == config_payload(self.spec_config())->Ok_0,
            self.spec_layout().slot_span_bytes == self.spec_layout().payload_bytes + SLOT_HEADER_BYTES,
            self.spec_layout().data_bytes == self.spec_layout().slot_span_bytes * 3,
    {
    }

    pub closed spec fn spec_layout(&self) -> FeedLayout {
        self.layout
    }

    pub closed spec fn wf(&self) -> bool {
        config_is_valid(self.config) && layout_of(self.config, self.layout)
    }

    /// Attaches to the session that `control` describes, which must have
    /// been started with exactly `config`.
    pub fn open(config: VCAM_FEED_CONFIG, control: &VcamSharedFeedControl) -> (r: Result<Self, VcamError>)
        ensures
            match spec_open_error(config, *control, VcamError::ProducerConfigMismatch) {
                Some(e) => r == Err::<Self, VcamError>(e),
                None => r matches Ok(p) && p.wf() && p.spec_config() == config
                    && layout_of(config, p.spec_layout()),
            },
    {
        let layout = feed_layout(config)?;
        if !is_valid_control(control) {
            return Err(VcamError::ControlNotInitialized);
        }
        if control.config != config {
            return Err(VcamError::ProducerConfigMismatch);
        }
        Ok(FeedSessionProducer { config, layout })
    }

    pub fn config(&self) -> (c: VCAM_FEED_CONFIG)
        ensures
            c == self.spec_config(),
    {
        self.config
    }

    pub fn layout(&self) -> (l: FeedLayout)
        ensures
            l == self.spec_layout(),
    {
        self.layout
    }

    /// Copies `payload` into the slot of `frame_id` and returns the slot
    /// header and the control header that commit it. The payload must have
    /// the configured size and the session's active flag must be set.
    pub fn publish_bgra_frame(
        &self,
        control: &VcamSharedFeedControl,
        data: &mut [u8],
        frame_id: u64,
        timestamp_100ns: i64,
        payload: &[u8],
        now_ms: u64,
    ) -> (r: Result<SlotCommit, VcamError>)
        requires
            self.wf(),
            old(data)@.len() >= self.spec_layout().data_bytes,
        ensures
            payload@.len() != self.spec_layout().payload_bytes ==> r == Err::<SlotCommit, VcamError>(
                VcamError::PayloadSizeMismatch {
                    expected: self.spec_layout().payload_bytes,
                    actual: payload@.len() as usize,
                },
            ),
            payload@.len() == self.spec_layout().payload_bytes && control.active == 0
                ==> r == Err::<SlotCommit, VcamError>(VcamError::SessionInactive),
            r is Err ==> final(data)@ == old(data)@,
            payload@.len() == self.spec_layout().payload_bytes && control.active != 0 ==> {
                &&& r == Ok::<SlotCommit, VcamError>(
                    spec_commit(self.spec_layout(), *control, frame_id, timestamp_100ns, payload@.len() as int, now_ms),
                )
                &&& final(data)@ == spliced(
                    old(data)@,
                    spec_payload_offset(self.spec_layout(), spec_slot_index(frame_id)),
                    payload@,
                )
            },
    {
        let layout = self.layout;
        if payload.len() != layout.payload_bytes {
            return Err(VcamError::PayloadSizeMismatch { expected: layout.payload_bytes, actual: payload.len() });
        }
        if control.active == 0 {
            return Err(VcamError::SessionInactive);
        }
        let slot_index = (frame_id % VCAM_FEED_SLOT_COUNT as u64) as usize;
        assert(slot_index * layout.slot_span_bytes <= 2 * layout.slot_span_bytes) by (nonlinear_arith)
            requires slot_index <= 2;
        let slot_offset = slot_index * layout.slot_span_bytes;
        let payload_offset = slot_offset + SLOT_HEADER_BYTES;
        write_bytes_at(data, payload_offset, payload);
        let mut committed = *control;
        write_control_heartbeat_ms(&mut committed, now_ms);
        committed.last_timestamp_100ns = timestamp_100ns;
        committed.committed_slot = slot_index as u32;
        committed.committed_frame_id = frame_id;
        Ok(SlotCommit {
            slot_index: slot_index as u32,
            slot_offset,
            header: VcamSharedFeedSlotHeader {
                frame_id,
                timestamp_100ns,
                bytes_written: payload.len() as u32,
                reserved: 0,
            },
            control: committed,
        })
    }
}

/// Writes `bytes` into `data` from `offset` on.
fn write_bytes_at(data: &mut [u8], offset: usize, bytes: &[u8])
    requires
        offset + bytes@.len() <= old(data)@.len(),
    ensures
        final(data)@ == spliced(old(data)@, offset as int, bytes@),
{
    let n = data.len();
    let mut i: usize = 0;
    while i < bytes.len()
        invariant
            n == data@.len(),
            offset + bytes@.len() <= old(data)@.len(),
            data@.len() == old(data)@.len(),
            i <= bytes@.len(),
            forall|k: int| 0 <= k < data@.len() ==> #[trigger] data@[k] == if offset <= k < offset + i {
                bytes@[k - offset]
            } else {
                old(data)@[k]
            },
        decreases bytes@.len() - i,
    {
        assert(offset + i < data@.len());
        data[offset + i] = bytes[i];
        i = i + 1;
    }
    assert(data@ =~= spliced(old(data)@, offset as int, bytes@));
}

/// What a reader gets from slot `slot_index` of the ring `data` when it
/// expects frame `expected_frame_id` and the slot header reads `header`.
pub open spec fn spec_copy_slot(
    config: VCAM_FEED_CONFIG,
    layout: FeedLayout,
    data: Seq<u8>,
    slot_index: int,
    expected_frame_id: u64,
    header: VcamSharedFeedSlotHeader,
) -> Result<(u64, i64, Seq<u8>), VcamError> {
    if header.frame_id != expected_frame_id {
        Err(VcamError::SlotFrameChanged)
    } else if header.bytes_written as int != layout.payload_bytes as int {
        Err(VcamError::SlotPayloadSizeMismatch)
    } else {
        let start = spec_payload_offset(layout, slot_index);
        Ok((
            header.frame_id,
            header.timestamp_100ns,
            packed_rows(
                data.subrange(start, start + layout.payload_bytes),
                config.input_stride as int,
                spec_bgra_stride(crate::feed::config_format(config)),
                config.height as nat,
            ),
        ))
    }
}

impl FeedSessionReader {
    pub closed spec fn spec_config(&self) -> VCAM_FEED_CONFIG {
        self.config
    }

    /// What well-formedness says of the config and layout.
    pub proof fn lemma_wf(&self)
        requires
            self.wf(),
        ensures
            config_is_valid(self.spec_config()),
            layout_of(self.spec_config(), self.spec_layout()),
            self.spec_layout().payload_bytes == config_payload(self.spec_config())->Ok_0,
            self.spec_layout().slot_span_bytes == self.spec_layout().payload_bytes + SLOT_HEADER_BYTES,
            self.spec_layout().data_bytes == self.spec_layout().slot_span_bytes * 3,
    {
    }

    pub closed spec fn spec_layout(&self) -> FeedLayout {
        self.layout
    }

    pub closed spec fn wf(&self) -> bool {
        config_is_valid(self.config) && layout_of(self.config, self.layout)
    }

    /// Attaches to the session that `control` describes, which must have
    /// been started with exactly `config`.
    pub fn open(config: VCAM_FEED_CONFIG, control: &VcamSharedFeedControl) -> (r: Result<Self, VcamError>)
        ensures
            match spec_open_error(config, *control, VcamError::ReaderConfigMismatch) {
                Some(e) => r == Err::<Self, VcamError>(e),
                None => r matches Ok(p) && p.wf() && p.spec_config() == config
                    && layout_of(config, p.spec_layout()),
            },
    {
        let layout = feed_layout(config)?;
        if !is_valid_control(control) {
            return Err(VcamError::ControlNotInitialized);
        }
        if control.config != config {
            return Err(VcamError::ReaderConfigMismatch);
        }
        Ok(FeedSessionReader { config, layout })
    }

    pub fn config(&self) -> (c: VCAM_FEED_CONFIG)
        ensures
            c == self.spec_config(),
    {
        self.config
    }

    pub fn layout(&self) -> (l: FeedLayout)
        ensures
            l == self.spec_layout(),
    {
        self.layout
    }

    /// The session is live: active flag set and heartbeat fresh.
    pub fn is_active(&self, control: &VcamSharedFeedControl, now_ms: u64) -> (b: bool)
        ensures
            b == spec_control_active(*control, now_ms),
    {
        read_control_active(control, now_ms)
    }

    /// Copies the frame in slot `slot_index` out of the ring, after checking
    /// that the slot holds the expected frame with the configured size. Rows
    /// of `input_stride` bytes are packed to `width * 4` bytes.
    pub fn copy_slot_frame(
        &self,
        data: &[u8],
        slot_index: usize,
        expected_frame_id: u64,
        header: VcamSharedFeedSlotHeader,
    ) -> (r: Result<FeedFrame, VcamError>)
        requires
            self.wf(),
            data@.len() >= self.spec_layout().data_bytes,
            slot_index < VCAM_FEED_SLOT_COUNT,
            spec_bgra_stride(crate::feed::config_format(self.spec_config())) <= self.spec_config().input_stride,
        ensures
            match spec_copy_slot(self.spec_config(), self.spec_layout(), data@, slot_index as int, expected_frame_id, header) {
                Err(e) => r == Err::<FeedFrame, VcamError>(e),
                Ok((id, ts, bytes)) => r matches Ok(f) && f.frame_id == id && f.timestamp_100ns == ts
                    && f.bgra@ == bytes,
            },
    {
        let layout = self.layout;
        let config = self.config;
        if header.frame_id != expected_frame_id {
            return Err(VcamError::SlotFrameChanged);
        }
        if header.bytes_written as usize != layout.payload_bytes {
            return Err(VcamError::SlotPayloadSizeMismatch);
        }
        assert(slot_index * layout.slot_span_bytes <= 2 * layout.slot_span_bytes) by (nonlinear_arith)
            requires slot_index <= 2;
        let start = slot_index * layout.slot_span_bytes + SLOT_HEADER_BYTES;
        let payload = &data[start..start + layout.payload_bytes];
        let tight = config.width as usize * 4;
        let bgra = pack_rows(payload, config.input_stride as usize, tight, config.height as usize);
        Ok(FeedFrame { frame_id: header.frame_id, timestamp_100ns: header.timestamp_100ns, bgra })
    }
}

/// How many times a reader tries to copy the committed frame before it
/// gives up for this request.
pub const LATEST_FRAME_READ_ATTEMPTS: u32 = 2;

/// What one copy of the committed frame found: no frame committed yet, a
/// slot that the producer was writing over while it was read (its header
/// names another frame than the one committed), or the frame.
pub enum CommittedRead<F> {
    NoFrame,
    Torn,
    Copied(F),
}

/// What a copy attempt gives, from the committed slot and frame id read
/// before the copy and the slot header and ring as copied. A slot whose
/// header names another frame is torn: a producer wrote over it during the
/// read, which calls for another attempt, not an error.
pub open spec fn spec_committed_read(
    config: VCAM_FEED_CONFIG,
    layout: FeedLayout,
    committed_slot: u32,
    frame_id_before: u64,
    header: VcamSharedFeedSlotHeader,
    data: Seq<u8>,
) -> Result<CommittedRead<(u64, i64, Seq<u8>)>, VcamError> {
    if committed_slot == VCAM_INVALID_SLOT_INDEX {
        Ok(CommittedRead::NoFrame)
    } else if committed_slot >= VCAM_FEED_SLOT_COUNT {
        Err(VcamError::SlotIndexOutOfRange)
    } else if header.frame_id != frame_id_before {
        Ok(CommittedRead::Torn)
    } else {
        match spec_copy_slot(config, layout, data, committed_slot as int, frame_id_before, header) {
            Err(e) => Err(e),
            Ok(frame) => Ok(CommittedRead::Copied(frame)),
        }
    }
}

impl FeedSessionReader {
    /// Copies the committed frame out of the ring: nothing when no frame is
    /// committed, `Torn` when the slot was being written over, and an error
    /// only when the control header names a slot outside the ring or the
    /// slot holds the wrong byte count.
    pub fn read_committed(
        &self,
        committed_slot: u32,
        frame_id_before: u64,
        header: VcamSharedFeedSlotHeader,
        data: &[u8],
    ) -> (r: Result<CommittedRead<FeedFrame>, VcamError>)
        requires
            self.wf(),
            data@.len() >= self.spec_layout().data_bytes,
            spec_bgra_stride(crate::feed::config_format(self.spec_config())) <= self.spec_config().input_stride,
        ensures
            match spec_committed_read(self.spec_config(), self.spec_layout(), committed_slot, frame_id_before,
                header, data@) {
                Err(e) => r == Err::<CommittedRead<FeedFrame>, VcamError>(e),
                Ok(CommittedRead::NoFrame) => r matches Ok(CommittedRead::NoFrame),
                Ok(CommittedRead::Torn) => r matches Ok(CommittedRead::Torn),
                Ok(CommittedRead::Copied((id, ts, bytes))) => r matches Ok(CommittedRead::Copied(f))
                    && f.frame_id == id && f.timestamp_100ns == ts && f.bgra@ == bytes,
            },
    {
        if committed_slot == VCAM_INVALID_SLOT_INDEX {
            return Ok(CommittedRead::NoFrame);
        }
        if committed_slot >= VCAM_FEED_SLOT_COUNT {
            return Err(VcamError::SlotIndexOutOfRange);
        }
        if header.frame_id != frame_id_before {
            return Ok(CommittedRead::Torn);
        }
        proof { self.lemma_wf(); }
        let frame = self.copy_slot_frame(data, committed_slot as usize, frame_id_before, header)?;
        Ok(CommittedRead::Copied(frame))
    }
}

/// A frame copied while the committed frame id read `frame_id_before`
/// stands only if the id still reads the same afterwards (`frame_id_after`);
/// otherwise another frame was committed during the copy and the frame is
/// dropped.
pub fn settle_read(frame: FeedFrame, frame_id_before: u64, frame_id_after: u64) -> (r: Option<FeedFrame>)
    ensures
        frame_id_before == frame_id_after ==> r == Some(frame),
        frame_id_before != frame_id_after ==> r is None,
{
    if frame_id_before == frame_id_after {
        Some(frame)
    } else {
        None
    }
}

/// What a reader does after an attempt at the latest frame: hand a frame,
/// or none, to the stream, or try once more.
pub enum ReadStep<F> {
    Deliver(Option<F>),
    Retry,
}

/// The decision after attempt `attempt` (counted from 1), given what the
/// copy found and the committed frame id read before and after it: a frame
/// copied while no other frame was committed is delivered; with no frame
/// committed there is nothing to deliver; a torn slot or a commit during
/// the copy is retried, and after the last attempt gives no frame.
pub open spec fn spec_read_step<F>(attempt: int, read: CommittedRead<F>, frame_id_before: u64, frame_id_after: u64) -> ReadStep<F> {
    let give_up_or_retry = if attempt < LATEST_FRAME_READ_ATTEMPTS { ReadStep::Retry } else { ReadStep::Deliver(None) };
    match read {
        CommittedRead::NoFrame => ReadStep::Deliver(None),
        CommittedRead::Torn => give_up_or_retry,
        CommittedRead::Copied(f) => if frame_id_before == frame_id_after {
            ReadStep::Deliver(Some(f))
        } else {
            give_up_or_retry
        },
    }
}

/// Decides what attempt `attempt` (counted from 1) of reading the latest
/// frame leads to; see `spec_read_step`. A retry is only ever asked for
/// before the last attempt, so a read ends within
/// `LATEST_FRAME_READ_ATTEMPTS` attempts.
pub fn latest_frame_step(attempt: u32, read: CommittedRead<FeedFrame>, frame_id_before: u64, frame_id_after: u64)
    -> (s: ReadStep<FeedFrame>)
    requires
        1 <= attempt <= LATEST_FRAME_READ_ATTEMPTS,
    ensures
        s == spec_read_step(attempt as int, read, frame_id_before, frame_id_after),
        s is Retry ==> attempt < LATEST_FRAME_READ_ATTEMPTS,
{
    let give_up = attempt >= LATEST_FRAME_READ_ATTEMPTS;
    match read {
        CommittedRead::NoFrame => ReadStep::Deliver(None),
        CommittedRead::Torn => if give_up { ReadStep::Deliver(None) } else { ReadStep::Retry },
        CommittedRead::Copied(frame) => match settle_read(frame, frame_id_before, frame_id_after) {
            Some(f) => ReadStep::Deliver(Some(f)),
            None => if give_up { ReadStep::Deliver(None) } else { ReadStep::Retry },
        },
    }
}

/// Packs `rows` rows of `row_bytes` bytes, `stride` bytes apart in `src`.
pub fn pack_rows(src: &[u8], stride: usize, row_bytes: usize, rows: usize) -> (v: Vec<u8>)
    requires
        row_bytes <= stride,
        stride * rows <= src@.len(),
    ensures
        v@ == packed_rows(src@, stride as int, row_bytes as int, rows as nat),
{
    let n = src.len();
    let mut v: Vec<u8> = Vec::new();
    let mut row: usize = 0;
    while row < rows
        invariant
            n == src@.len(),
            row <= rows,
            row_bytes <= stride,
            stride * rows <= src@.len(),
            v@ == packed_rows(src@, stride as int, row_bytes as int, row as nat),
        decreases rows - row,
    {
        assert(row * stride + stride <= stride * rows) by (nonlinear_arith)
            requires row < rows;
        let begin = row * stride;
        let piece = &src[begin..begin + row_bytes];
        let ghost before = v@;
        v.extend_from_slice(piece);
        assert(v@ =~= before + piece@);
        row = row + 1;
    }
    v
}

} // verus!
