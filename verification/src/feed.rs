use vstd::prelude::*;

use crate::constants::{
    VCAM_FEED_INPUT_FORMAT_BGRA8, VCAM_FEED_MAGIC, VCAM_FEED_SLOT_COUNT, VCAM_FEED_VERSION,
    VCAM_INVALID_SLOT_INDEX,
};
use crate::error::VcamError;
use crate::video_format::{format_check, spec_bgra_stride, VideoFormat};

verus! {

/// The configuration of a shared-memory feed session, as it is laid out in
/// the control header.
#[allow(non_camel_case_types)]
#[derive(Clone, Copy, Debug, PartialEq, Eq, Structural)]
pub struct VCAM_FEED_CONFIG {
    pub width: u32,
    pub height: u32,
    pub fps_num: u32,
    pub fps_den: u32,
    pub input_format: u32,
    pub input_stride: u32,
}

pub open spec fn config_format(c: VCAM_FEED_CONFIG) -> VideoFormat {
    VideoFormat { width: c.width, height: c.height, fps_num: c.fps_num, fps_den: c.fps_den }
}

/// The tight BGRA row length truncated to 32 bits, as the header stores it.
pub open spec fn tight_stride_u32(width: u32) -> u32 {
    ((width as int * 4) % 0x1_0000_0000) as u32
}

/// What `VCAM_FEED_CONFIG::payload_bytes` returns.
pub open spec fn config_payload(c: VCAM_FEED_CONFIG) -> Result<usize, VcamError> {
    match format_check(config_format(c)) {
        Err(e) => Err(e),
        Ok(()) => if c.input_format != VCAM_FEED_INPUT_FORMAT_BGRA8 {
            Err(VcamError::UnsupportedInputFormat)
        } else if c.input_stride == 0 {
            Err(VcamError::ZeroInputStride)
        } else if c.input_stride as int * c.height as int > usize::MAX {
            Err(VcamError::PayloadOverflow)
        } else {
            Ok((c.input_stride as int * c.height as int) as usize)
        },
    }
}

/// What `VCAM_FEED_CONFIG::validate` returns.
pub open spec fn config_check(c: VCAM_FEED_CONFIG) -> Result<(), VcamError> {
    match format_check(config_format(c)) {
        Err(e) => Err(e),
        Ok(()) => if c.input_format != VCAM_FEED_INPUT_FORMAT_BGRA8 {
            Err(VcamError::UnsupportedInputFormat)
        } else if c.input_stride < tight_stride_u32(c.width) {
            Err(VcamError::InputStrideTooSmall)
        } else {
            match config_payload(c) {
                Ok(_) => Ok(()),
                Err(e) => Err(e),
            }
        },
    }
}

pub open spec fn config_is_valid(c: VCAM_FEED_CONFIG) -> bool {
    config_check(c) is Ok
}

impl VCAM_FEED_CONFIG {
    /// A BGRA8 config with tightly packed rows for a checked format.
    pub fn bgra8(width: u32, height: u32, fps_num: u32, fps_den: u32) -> (r: Result<Self, VcamError>)
        ensures
            ({
                let f = VideoFormat { width, height, fps_num, fps_den };
                match format_check(f) {
                    Ok(()) => r == Ok::<VCAM_FEED_CONFIG, VcamError>(spec_config_from_format(f)),
                    Err(e) => r == Err::<VCAM_FEED_CONFIG, VcamError>(e),
                }
            }),
    {
        let format = VideoFormat::new(width, height, fps_num, fps_den)?;
        Ok(Self::from_video_format(format))
    }

    pub fn from_video_format(format: VideoFormat) -> (c: Self)
        ensures
            c == spec_config_from_format(format),
    {
        VCAM_FEED_CONFIG {
            width: format.width,
            height: format.height,
            fps_num: format.fps_num,
            fps_den: format.fps_den,
            input_format: VCAM_FEED_INPUT_FORMAT_BGRA8,
            input_stride: tight_stride(format.width),
        }
    }

    /// Rejects a bad frame format, a non-BGRA8 input, a stride below
    /// `width * 4`, and a payload that cannot be addressed.
    pub fn validate(self) -> (r: Result<(), VcamError>)
        ensures
            r == config_check(self),
    {
        self.video_format()?;
        if self.input_format != VCAM_FEED_INPUT_FORMAT_BGRA8 {
            return Err(VcamError::UnsupportedInputFormat);
        }
        if self.input_stride < tight_stride(self.width) {
            return Err(VcamError::InputStrideTooSmall);
        }
        self.payload_bytes()?;
        Ok(())
    }

    pub fn video_format(self) -> (r: Result<VideoFormat, VcamError>)
        ensures
            match format_check(config_format(self)) {
                Ok(()) => r == Ok::<VideoFormat, VcamError>(config_format(self)),
                Err(e) => r == Err::<VideoFormat, VcamError>(e),
            },
    {
        VideoFormat::new(self.width, self.height, self.fps_num, self.fps_den)
    }

    /// Bytes of one published frame: `input_stride * height`.
    pub fn payload_bytes(self) -> (r: Result<usize, VcamError>)
        ensures
            r == config_payload(self),
    {
        self.validate_stride_only()?;
        match (self.input_stride as usize).checked_mul(self.height as usize) {
            Some(n) => Ok(n),
            None => Err(VcamError::PayloadOverflow),
        }
    }

    fn validate_stride_only(self) -> (r: Result<(), VcamError>)
        ensures
            r is Ok <==> (format_check(config_format(self)) is Ok
                && self.input_format == VCAM_FEED_INPUT_FORMAT_BGRA8 && self.input_stride != 0),
            r is Err ==> config_payload(self) == Err::<usize, VcamError>(r->Err_0),
    {
        self.video_format()?;
        if self.input_format != VCAM_FEED_INPUT_FORMAT_BGRA8 {
            return Err(VcamError::UnsupportedInputFormat);
        }
        if self.input_stride == 0 {
            return Err(VcamError::ZeroInputStride);
        }
        Ok(())
    }
}

pub open spec fn spec_config_from_format(f: VideoFormat) -> VCAM_FEED_CONFIG {
    VCAM_FEED_CONFIG {
        width: f.width,
        height: f.height,
        fps_num: f.fps_num,
        fps_den: f.fps_den,
        input_format: VCAM_FEED_INPUT_FORMAT_BGRA8,
        input_stride: tight_stride_u32(f.width),
    }
}

/// `width * 4` truncated to 32 bits.
fn tight_stride(width: u32) -> (s: u32)
    ensures
        s == tight_stride_u32(width),
{
    let wide: u64 = width as u64 * 4;
    (wide % 0x1_0000_0000) as u32
}

/// A snapshot of the feed session, as the broker reports it.
#[allow(non_camel_case_types)]
#[derive(Clone, Copy, Debug, PartialEq, Eq, Structural)]
pub struct VCAM_FEED_STATE {
    pub active: u32,
    pub width: u32,
    pub height: u32,
    pub fps_num: u32,
    pub fps_den: u32,
    pub input_format: u32,
    pub input_stride: u32,
    pub slot_count: u32,
    pub committed_frame_id: u64,
    pub last_timestamp_100ns: i64,
}

pub open spec fn spec_empty_state() -> VCAM_FEED_STATE {
    VCAM_FEED_STATE {
        active: 0,
        width: 0,
        height: 0,
        fps_num: 0,
        fps_den: 0,
        input_format: 0,
        input_stride: 0,
        slot_count: 0,
        committed_frame_id: 0,
        last_timestamp_100ns: 0,
    }
}

pub open spec fn state_config(s: VCAM_FEED_STATE) -> VCAM_FEED_CONFIG {
    VCAM_FEED_CONFIG {
        width: s.width,
        height: s.height,
        fps_num: s.fps_num,
        fps_den: s.fps_den,
        input_format: s.input_format,
        input_stride: s.input_stride,
    }
}

impl Default for VCAM_FEED_STATE {
    /// The state of a session that was never started: all zero.
    fn default() -> (s: Self)
        ensures
            s == spec_empty_state(),
    {
        VCAM_FEED_STATE {
            active: 0,
            width: 0,
            height: 0,
            fps_num: 0,
            fps_den: 0,
            input_format: 0,
            input_stride: 0,
            slot_count: 0,
            committed_frame_id: 0,
            last_timestamp_100ns: 0,
        }
    }
}

impl VCAM_FEED_STATE {
    pub fn is_active(&self) -> (b: bool)
        ensures
            b == (self.active != 0),
    {
        self.active != 0
    }

    /// The session's config, if it is a valid one.
    pub fn config(&self) -> (r: Result<VCAM_FEED_CONFIG, VcamError>)
        ensures
            match config_check(state_config(*self)) {
                Ok(()) => r == Ok::<VCAM_FEED_CONFIG, VcamError>(state_config(*self)),
                Err(e) => r == Err::<VCAM_FEED_CONFIG, VcamError>(e),
            },
    {
        let config = VCAM_FEED_CONFIG {
            width: self.width,
            height: self.height,
            fps_num: self.fps_num,
            fps_den: self.fps_den,
            input_format: self.input_format,
            input_stride: self.input_stride,
        };
        config.validate()?;
        Ok(config)
    }
}

/// The control header of the shared feed. `reserved0` and `reserved1` hold
/// the low and high halves of the producer's heartbeat, in milliseconds
/// since the Unix epoch.
#[derive(Clone, Copy, Debug, PartialEq, Eq, Structural)]
pub struct VcamSharedFeedControl {
    pub magic: u32,
    pub version: u32,
    pub active: u32,
    pub reserved0: u32,
    pub config: VCAM_FEED_CONFIG,
    pub slot_count: u32,
    pub slot_bytes: u32,
    pub committed_slot: u32,
    pub reserved1: u32,
    pub committed_frame_id: u64,
    pub last_timestamp_100ns: i64,
}

/// The header that precedes each payload in the slot ring.
#[derive(Clone, Copy, Debug, PartialEq, Eq, Structural)]
pub struct VcamSharedFeedSlotHeader {
    pub frame_id: u64,
    pub timestamp_100ns: i64,
    pub bytes_written: u32,
    pub reserved: u32,
}

/// Bytes of the control header in shared memory.
pub const CONTROL_HEADER_BYTES: usize = 72;
/// Bytes of a slot header in shared memory.
pub const SLOT_HEADER_BYTES: usize = 24;
/// The least time a producer may stay silent before its session is stale.
pub const FEED_STALE_GRACE_MS_MIN: u64 = 1_500;

pub open spec fn spec_zero_config() -> VCAM_FEED_CONFIG {
    VCAM_FEED_CONFIG {
        width: 0,
        height: 0,
        fps_num: 0,
        fps_den: 0,
        input_format: 0,
        input_stride: 0,
    }
}

/// A control header whose bytes are all zero.
pub open spec fn spec_zero_control() -> VcamSharedFeedControl {
    VcamSharedFeedControl {
        magic: 0,
        version: 0,
        active: 0,
        reserved0: 0,
        config: spec_zero_config(),
        slot_count: 0,
        slot_bytes: 0,
        committed_slot: 0,
        reserved1: 0,
        committed_frame_id: 0,
        last_timestamp_100ns: 0,
    }
}

impl Default for VcamSharedFeedControl {
    fn default() -> (c: Self)
        ensures
            c == spec_zero_control(),
    {
        VcamSharedFeedControl {
            magic: 0,
            version: 0,
            active: 0,
            reserved0: 0,
            config: VCAM_FEED_CONFIG {
                width: 0,
                height: 0,
                fps_num: 0,
                fps_den: 0,
                input_format: 0,
                input_stride: 0,
            },
            slot_count: 0,
            slot_bytes: 0,
            committed_slot: 0,
            reserved1: 0,
            committed_frame_id: 0,
            last_timestamp_100ns: 0,
        }
    }
}

pub open spec fn control_is_valid(c: VcamSharedFeedControl) -> bool {
    c.magic == VCAM_FEED_MAGIC && c.version == VCAM_FEED_VERSION
}

pub open spec fn spec_heartbeat(c: VcamSharedFeedControl) -> u64 {
    (c.reserved1 as int * 0x1_0000_0000 + c.reserved0 as int) as u64
}

/// `max(ceil(4000 * fps_den / fps_num), 1500)`: four frame periods, but never
/// less than the grace period; the grace period alone when `fps_num` is 0.
pub open spec fn spec_stale_threshold(c: VCAM_FEED_CONFIG) -> u64 {
    if c.fps_num == 0 {
        FEED_STALE_GRACE_MS_MIN
    } else {
        let frame_ms = (c.fps_den as int * 4000 + c.fps_num as int - 1) / (c.fps_num as int);
        if frame_ms < FEED_STALE_GRACE_MS_MIN { FEED_STALE_GRACE_MS_MIN } else { frame_ms as u64 }
    }
}

pub open spec fn spec_heartbeat_fresh(c: VcamSharedFeedControl, now_ms: u64) -> bool {
    let hb = spec_heartbeat(c);
    hb != 0 && (if now_ms >= hb { now_ms - hb } else { 0 }) <= spec_stale_threshold(c.config)
}

pub open spec fn spec_control_active(c: VcamSharedFeedControl, now_ms: u64) -> bool {
    c.active != 0 && spec_heartbeat_fresh(c, now_ms)
}

pub open spec fn spec_with_heartbeat(c: VcamSharedFeedControl, value: u64) -> VcamSharedFeedControl {
    VcamSharedFeedControl {
        reserved0: (value as int % 0x1_0000_0000) as u32,
        reserved1: (value as int / 0x1_0000_0000) as u32,
        ..c
    }
}

/// The header minus its active flag if the producer has gone silent.
pub open spec fn spec_deactivate_stale(c: VcamSharedFeedControl, now_ms: u64) -> VcamSharedFeedControl {
    if c.active == 0 || spec_heartbeat_fresh(c, now_ms) {
        c
    } else {
        VcamSharedFeedControl { active: 0, ..c }
    }
}

pub fn is_valid_control(control: &VcamSharedFeedControl) -> (b: bool)
    ensures
        b == control_is_valid(*control),
{
    control.magic == VCAM_FEED_MAGIC && control.version == VCAM_FEED_VERSION
}

pub fn read_control_active_bit(control: &VcamSharedFeedControl) -> (b: bool)
    ensures
        b == (control.active != 0),
{
    control.active != 0
}

/// The session is live: its active flag is set and its heartbeat is fresh.
pub fn read_control_active(control: &VcamSharedFeedControl, now_ms: u64) -> (b: bool)
    ensures
        b == spec_control_active(*control, now_ms),
{
    read_control_active_bit(control) && is_control_heartbeat_fresh(control, now_ms)
}

pub fn read_control_heartbeat_ms(control: &VcamSharedFeedControl) -> (v: u64)
    ensures
        v == spec_heartbeat(*control),
{
    let low = control.reserved0 as u64;
    let high = control.reserved1 as u64;
    let v = (high << 32u64) | low;
    assert(v == high * 0x1_0000_0000 + low) by (bit_vector)
        requires
            low <= 0xffff_ffffu64,
            high <= 0xffff_ffffu64,
            v == (high << 32u64) | low;
    v
}

pub fn write_control_heartbeat_ms(control: &mut VcamSharedFeedControl, value: u64)
    ensures
        *final(control) == spec_with_heartbeat(*old(control), value),
{
    control.reserved0 = (value % 0x1_0000_0000) as u32;
    control.reserved1 = (value / 0x1_0000_0000) as u32;
}

pub fn feed_stale_threshold_ms(config: VCAM_FEED_CONFIG) -> (t: u64)
    ensures
        t == spec_stale_threshold(config),
{
    if config.fps_num == 0 {
        return FEED_STALE_GRACE_MS_MIN;
    }
    let frame_ms: u64 = (config.fps_den as u64 * 4_000 + (config.fps_num as u64 - 1)) / config.fps_num as u64;
    if frame_ms < FEED_STALE_GRACE_MS_MIN { FEED_STALE_GRACE_MS_MIN } else { frame_ms }
}

/// A heartbeat of zero was never written; otherwise the heartbeat is fresh
/// while no more than the stale threshold has passed since it.
pub fn is_control_heartbeat_fresh(control: &VcamSharedFeedControl, now_ms: u64) -> (b: bool)
    ensures
        b == spec_heartbeat_fresh(*control, now_ms),
{
    let heartbeat_ms = read_control_heartbeat_ms(control);
    if heartbeat_ms == 0 {
        return false;
    }
    let threshold_ms = feed_stale_threshold_ms(control.config);
    now_ms.saturating_sub(heartbeat_ms) <= threshold_ms
}

/// Clears the active flag of a session whose producer has gone silent.
pub fn deactivate_stale_session_locked(control: &mut VcamSharedFeedControl, now_ms: u64)
    ensures
        *final(control) == spec_deactivate_stale(*old(control), now_ms),
{
    if !read_control_active_bit(control) || is_control_heartbeat_fresh(control, now_ms) {
        return;
    }
    control.active = 0;
}

/// The header a freshly started session writes over an all-zero header.
pub open spec fn spec_initial_control(
    config: VCAM_FEED_CONFIG,
    slot_bytes: u32,
    now_ms: u64,
) -> VcamSharedFeedControl {
    VcamSharedFeedControl {
        magic: VCAM_FEED_MAGIC,
        version: VCAM_FEED_VERSION,
        active: 1,
        reserved0: (now_ms as int % 0x1_0000_0000) as u32,
        config,
        slot_count: VCAM_FEED_SLOT_COUNT,
        slot_bytes,
        committed_slot: VCAM_INVALID_SLOT_INDEX,
        reserved1: (now_ms as int / 0x1_0000_0000) as u32,
        committed_frame_id: 0,
        last_timestamp_100ns: 0,
    }
}

/// Writes the header of a new session: magic, version, config, slot
/// geometry, no committed frame, a heartbeat of `now_ms`, and the active
/// flag.
pub fn write_control_header(
    control: &mut VcamSharedFeedControl,
    config: &VCAM_FEED_CONFIG,
    slot_bytes: u32,
    now_ms: u64,
)
    ensures
        *final(control) == spec_initial_control(*config, slot_bytes, now_ms),
{
    control.magic = VCAM_FEED_MAGIC;
    control.version = VCAM_FEED_VERSION;
    control.config = *config;
    control.slot_count = VCAM_FEED_SLOT_COUNT;
    control.slot_bytes = slot_bytes;
    control.committed_slot = VCAM_INVALID_SLOT_INDEX;
    control.committed_frame_id = 0;
    control.last_timestamp_100ns = 0;
    write_control_heartbeat_ms(control, now_ms);
    control.active = 1;
}

/// The state the broker reports for a control header (`None` when the
/// control file does not exist), together with the header as it stands
/// afterwards: a stale session is deactivated on the way.
pub open spec fn spec_read_state(
    control: Option<VcamSharedFeedControl>,
    now_ms: u64,
) -> (VCAM_FEED_STATE, Option<VcamSharedFeedControl>) {
    match control {
        None => (spec_empty_state(), None),
        Some(c) => if !control_is_valid(c) {
            (spec_empty_state(), Some(c))
        } else {
            let d = spec_deactivate_stale(c, now_ms);
            (
                VCAM_FEED_STATE {
                    active: if spec_control_active(d, now_ms) { 1 } else { 0 },
                    width: d.config.width,
                    height: d.config.height,
                    fps_num: d.config.fps_num,
                    fps_den: d.config.fps_den,
                    input_format: d.config.input_format,
                    input_stride: d.config.input_stride,
                    slot_count: d.slot_count,
                    committed_frame_id: d.committed_frame_id,
                    last_timestamp_100ns: d.last_timestamp_100ns,
                },
                Some(d),
            )
        },
    }
}

pub fn read_state_locked(
    control: Option<VcamSharedFeedControl>,
    now_ms: u64,
) -> (r: (VCAM_FEED_STATE, Option<VcamSharedFeedControl>))
    ensures
        r == spec_read_state(control, now_ms),
{
    match control {
        None => (VCAM_FEED_STATE::default(), None),
        Some(c) => {
            if !is_valid_control(&c) {
                return (VCAM_FEED_STATE::default(), Some(c));
            }
            let mut d = c;
            deactivate_stale_session_locked(&mut d, now_ms);
            let config = d.config;
            let state = VCAM_FEED_STATE {
                active: if read_control_active(&d, now_ms) { 1 } else { 0 },
                width: config.width,
                height: config.height,
                fps_num: config.fps_num,
                fps_den: config.fps_den,
                input_format: config.input_format,
                input_stride: config.input_stride,
                slot_count: d.slot_count,
                committed_frame_id: d.committed_frame_id,
                last_timestamp_100ns: d.last_timestamp_100ns,
            };
            (state, Some(d))
        },
    }
}

/// Sizes of the shared regions of a session.
#[derive(Clone, Copy, Debug, PartialEq, Eq, Structural)]
pub struct FeedLayout {
    /// Bytes of one frame payload.
    pub payload_bytes: usize,
    /// Bytes of one slot: header plus payload.
    pub slot_span_bytes: usize,
    /// Bytes of the whole slot ring.
    pub data_bytes: usize,
}

pub open spec fn spec_slot_region(payload_bytes: int) -> Result<usize, VcamError> {
    if SLOT_HEADER_BYTES + payload_bytes > usize::MAX {
        Err(VcamError::SlotRegionOverflow)
    } else {
        Ok((SLOT_HEADER_BYTES + payload_bytes) as usize)
    }
}

/// What `feed_layout` returns for a config.
pub open spec fn spec_feed_layout(c: VCAM_FEED_CONFIG) -> Result<FeedLayout, VcamError> {
    match config_check(c) {
        Err(e) => Err(e),
        Ok(()) => {
            let payload = config_payload(c)->Ok_0;
            match spec_slot_region(payload as int) {
                Err(e) => Err(e),
                Ok(span) => if span as int * VCAM_FEED_SLOT_COUNT as int > usize::MAX {
                    Err(VcamError::DataMappingOverflow)
                } else {
                    Ok(FeedLayout {
                        payload_bytes: payload,
                        slot_span_bytes: span,
                        data_bytes: (span as int * VCAM_FEED_SLOT_COUNT as int) as usize,
                    })
                },
            }
        },
    }
}

/// A mapping size as the high and low 32-bit halves that the Windows
/// file-mapping call takes.
pub fn split_mapping_size(size: usize) -> (halves: (u32, u32))
    ensures
        halves.0 as int * 0x1_0000_0000 + halves.1 as int == size as int,
{
    let wide = size as u64;
    let high = (wide >> 32u64) as u32;
    let low = (wide & 0xffff_ffffu64) as u32;
    assert(high as u64 * 0x1_0000_0000u64 + low as u64 == wide) by (bit_vector)
        requires
            high == (wide >> 32u64) as u32,
            low == (wide & 0xffff_ffffu64) as u32;
    (high, low)
}

/// Bytes of a slot that carries `payload_bytes` bytes of frame data.
pub fn slot_region_bytes(payload_bytes: usize) -> (r: Result<usize, VcamError>)
    ensures
        r == spec_slot_region(payload_bytes as int),
{
    match SLOT_HEADER_BYTES.checked_add(payload_bytes) {
        Some(n) => Ok(n),
        None => Err(VcamError::SlotRegionOverflow),
    }
}

/// Checks a config and sizes the regions of a session that uses it.
pub fn feed_layout(config: VCAM_FEED_CONFIG) -> (r: Result<FeedLayout, VcamError>)
    ensures
        r == spec_feed_layout(config),
{
    config.validate()?;
    let payload_bytes = config.payload_bytes()?;
    let slot_span_bytes = slot_region_bytes(payload_bytes)?;
    match slot_span_bytes.checked_mul(VCAM_FEED_SLOT_COUNT as usize) {
        Some(data_bytes) => Ok(FeedLayout { payload_bytes, slot_span_bytes, data_bytes }),
        None => Err(VcamError::DataMappingOverflow),
    }
}

/// Whether an existing header blocks a new session: a valid header whose
/// session is still live. A stale session never blocks.
pub open spec fn spec_session_busy(existing: VcamSharedFeedControl, now_ms: u64) -> bool {
    control_is_valid(existing) && spec_deactivate_stale(existing, now_ms).active != 0
}

/// What `start_feed_session` returns.
pub open spec fn spec_start_session(
    config: VCAM_FEED_CONFIG,
    force_reset: bool,
    existing: VcamSharedFeedControl,
    now_ms: u64,
) -> Result<VcamSharedFeedControl, VcamError> {
    match spec_feed_layout(config) {
        Err(e) => Err(e),
        Ok(layout) => if spec_session_busy(existing, now_ms) && !force_reset {
            Err(VcamError::SessionBusy)
        } else {
            Ok(spec_initial_control(config, layout.payload_bytes as u32, now_ms))
        },
    }
}

/// Starts a session over the header `existing`: checks the config, refuses
/// to replace a live session unless `force_reset` is set, and returns the
/// header of the new session, to be written over a zeroed control region.
pub fn start_feed_session(
    config: VCAM_FEED_CONFIG,
    force_reset: bool,
    existing: VcamSharedFeedControl,
    now_ms: u64,
) -> (r: Result<VcamSharedFeedControl, VcamError>)
    ensures
        r == spec_start_session(config, force_reset, existing, now_ms),
{
    let layout = feed_layout(config)?;
    let mut current = existing;
    if is_valid_control(&current) {
        deactivate_stale_session_locked(&mut current, now_ms);
    }
    if is_valid_control(&current) && read_control_active_bit(&current) && !force_reset {
        return Err(VcamError::SessionBusy);
    }
    let mut control = VcamSharedFeedControl::default();
    write_control_header(&mut control, &config, layout.payload_bytes as u32, now_ms);
    Ok(control)
}

pub open spec fn spec_stop_session(c: VcamSharedFeedControl) -> VcamSharedFeedControl {
    if control_is_valid(c) {
        VcamSharedFeedControl { active: 0, reserved0: 0, reserved1: 0, ..c }
    } else {
        c
    }
}

/// Ends a session: clears the active flag and the heartbeat of a valid
/// header and leaves anything else as it is.
pub fn stop_feed_session(control: VcamSharedFeedControl) -> (c: VcamSharedFeedControl)
    ensures
        c == spec_stop_session(control),
{
    let mut c = control;
    if is_valid_control(&c) {
        c.active = 0;
        c.reserved0 = 0;
        c.reserved1 = 0;
    }
    c
}

pub open spec fn spec_reset_data_size(c: VcamSharedFeedControl) -> Result<usize, VcamError> {
    if control_is_valid(c) {
        match spec_slot_region(c.slot_bytes as int) {
            Err(e) => Err(e),
            Ok(span) => if span as int * c.slot_count as int > usize::MAX {
                Err(VcamError::DataMappingOverflow)
            } else {
                Ok((span as int * c.slot_count as int) as usize)
            },
        }
    } else {
        Ok(0)
    }
}

/// Bytes of the slot ring to clear when a session is reset: the ring that a
/// valid header describes, or nothing. The header itself is then cleared.
pub fn reset_feed_session(control: VcamSharedFeedControl) -> (r: Result<usize, VcamError>)
    ensures
        r == spec_reset_data_size(control),
{
    if is_valid_control(&control) {
        let span = slot_region_bytes(control.slot_bytes as usize)?;
        match span.checked_mul(control.slot_count as usize) {
            Some(n) => Ok(n),
            None => Err(VcamError::DataMappingOverflow),
        }
    } else {
        Ok(0)
    }
}

} // verus!
