use vstd::prelude::*;

use crate::constants::STREAM_ID;
use crate::error::VcamError;
use crate::feed_session::{copy_bytes, FeedFrame};
use crate::test_pattern::{frame_matches, pattern_pixel, StaticTestPattern};
use crate::video_format::{
    format_check, format_fits, spec_bgra_frame_bytes, spec_bgra_stride, spec_nv12_frame_bytes, VideoFormat,
};

verus! {

/// Raw value of a stream that is stopped.
pub const STREAM_STATE_STOPPED: i32 = 0;
/// Raw value of a stream that is running.
pub const STREAM_STATE_RUNNING: i32 = 2;

/// State of the camera's single stream: its raw stream state and whether
/// it has been shut down.
#[derive(Clone, Copy, Debug, PartialEq, Eq, Structural)]
pub struct StreamShared {
    pub stream_state: i32,
    pub shutdown: bool,
}

pub open spec fn active_check(s: StreamShared) -> Result<(), VcamError> {
    if s.shutdown { Err(VcamError::Shutdown) } else { Ok(()) }
}

/// The stream with its raw state set to `state`.
pub open spec fn with_stream_state(s: StreamShared, state: i32) -> StreamShared {
    StreamShared { stream_state: state, ..s }
}

/// The stream after a shutdown.
pub open spec fn shut_down(s: StreamShared) -> StreamShared {
    StreamShared { shutdown: true, ..s }
}

/// What a sample request is answered: the stream must be live and running.
pub open spec fn sample_check(s: StreamShared) -> Result<(), VcamError> {
    if s.shutdown {
        Err(VcamError::Shutdown)
    } else if s.stream_state != STREAM_STATE_RUNNING {
        Err(VcamError::InvalidRequest)
    } else {
        Ok(())
    }
}

impl StreamShared {
    /// A new stream is stopped and live.
    pub fn new() -> (s: Self)
        ensures
            s == (StreamShared { stream_state: STREAM_STATE_STOPPED, shutdown: false }),
    {
        StreamShared { stream_state: STREAM_STATE_STOPPED, shutdown: false }
    }

    pub fn ensure_active(&self) -> (r: Result<(), VcamError>)
        ensures
            r == active_check(*self),
    {
        if self.shutdown {
            return Err(VcamError::Shutdown);
        }
        Ok(())
    }

    /// Records a stream state set by the pipeline.
    pub fn set_stream_state(&mut self, state: i32) -> (r: Result<(), VcamError>)
        ensures
            r == active_check(*old(self)),
            r is Ok ==> *final(self) == with_stream_state(*old(self), state),
            r is Err ==> *final(self) == *old(self),
    {
        self.ensure_active()?;
        self.stream_state = state;
        Ok(())
    }

    pub fn current_stream_state(&self) -> (r: Result<i32, VcamError>)
        ensures
            match active_check(*self) {
                Ok(()) => r == Ok::<i32, VcamError>(self.stream_state),
                Err(e) => r == Err::<i32, VcamError>(e),
            },
    {
        self.ensure_active()?;
        Ok(self.stream_state)
    }

    /// Marks the stream running; the caller then queues the started event.
    pub fn start(&mut self) -> (r: Result<(), VcamError>)
        ensures
            r == active_check(*old(self)),
            r is Ok ==> *final(self) == with_stream_state(*old(self), STREAM_STATE_RUNNING),
            r is Err ==> *final(self) == *old(self),
    {
        self.set_stream_state(STREAM_STATE_RUNNING)
    }

    /// Marks the stream stopped; the caller then queues the stopped event.
    pub fn stop(&mut self) -> (r: Result<(), VcamError>)
        ensures
            r == active_check(*old(self)),
            r is Ok ==> *final(self) == with_stream_state(*old(self), STREAM_STATE_STOPPED),
            r is Err ==> *final(self) == *old(self),
    {
        self.set_stream_state(STREAM_STATE_STOPPED)
    }

    /// Shuts the stream down. Returns whether this call did it, in which
    /// case the caller drops the sample allocator and shuts the event queue
    /// down; a second shutdown does nothing.
    pub fn shutdown(&mut self) -> (first: bool)
        ensures
            first == !old(self).shutdown,
            *final(self) == shut_down(*old(self)),
    {
        if self.shutdown {
            return false;
        }
        self.shutdown = true;
        true
    }

    /// Checks that a sample may be requested: the stream is live and
    /// running.
    pub fn check_sample_request(&self) -> (r: Result<(), VcamError>)
        ensures
            r == sample_check(*self),
    {
        self.ensure_active()?;
        if self.current_stream_state()? != STREAM_STATE_RUNNING {
            return Err(VcamError::InvalidRequest);
        }
        Ok(())
    }
}

/// State of the media source.
#[derive(Clone, Copy, Debug, PartialEq, Eq, Structural)]
pub enum SourceState {
    Stopped,
    Started,
    Shutdown,
}

/// Which event announces the stream when the source starts.
#[derive(Clone, Copy, Debug, PartialEq, Eq, Structural)]
pub enum StreamAnnouncement {
    /// The stream is new to the pipeline.
    NewStream,
    /// The stream was already running and is restarted.
    UpdatedStream,
}

pub open spec fn source_active_check(s: SourceState) -> Result<(), VcamError> {
    if s == SourceState::Shutdown { Err(VcamError::Shutdown) } else { Ok(()) }
}

impl SourceState {
    pub fn ensure_active(&self) -> (r: Result<(), VcamError>)
        ensures
            r == source_active_check(*self),
    {
        if *self == SourceState::Shutdown {
            return Err(VcamError::Shutdown);
        }
        Ok(())
    }

    /// The announcement a start makes: a restart of a started source
    /// updates the stream, a first start announces a new one.
    pub fn start_announcement(&self) -> (r: Result<StreamAnnouncement, VcamError>)
        ensures
            match *self {
                SourceState::Shutdown => r == Err::<StreamAnnouncement, VcamError>(VcamError::Shutdown),
                SourceState::Started => r == Ok::<StreamAnnouncement, VcamError>(StreamAnnouncement::UpdatedStream),
                SourceState::Stopped => r == Ok::<StreamAnnouncement, VcamError>(StreamAnnouncement::NewStream),
            },
    {
        self.ensure_active()?;
        if *self == SourceState::Started {
            Ok(StreamAnnouncement::UpdatedStream)
        } else {
            Ok(StreamAnnouncement::NewStream)
        }
    }

    /// Whether a stop has work to do: none for a stopped source, an error
    /// for a shut-down one.
    pub fn stop_needed(&self) -> (r: Result<bool, VcamError>)
        ensures
            match *self {
                SourceState::Shutdown => r == Err::<bool, VcamError>(VcamError::Shutdown),
                SourceState::Started => r == Ok::<bool, VcamError>(true),
                SourceState::Stopped => r == Ok::<bool, VcamError>(false),
            },
    {
        self.ensure_active()?;
        Ok(*self != SourceState::Stopped)
    }

    /// Shuts the source down; returns whether this call did it.
    pub fn shutdown(&mut self) -> (first: bool)
        ensures
            first == (*old(self) != SourceState::Shutdown),
            *final(self) == SourceState::Shutdown,
    {
        if *self == SourceState::Shutdown {
            return false;
        }
        *self = SourceState::Shutdown;
        true
    }
}

/// A start may only use the default time format: no format, or the zero
/// format identifier.
pub fn check_start_time_format(time_format_given: bool, time_format_is_zero: bool) -> (r: Result<(), VcamError>)
    ensures
        r is Ok <==> (!time_format_given || time_format_is_zero),
        r is Err ==> r == Err::<(), VcamError>(VcamError::UnsupportedTimeFormat),
{
    if time_format_given && !time_format_is_zero {
        return Err(VcamError::UnsupportedTimeFormat);
    }
    Ok(())
}

/// Only the camera's one stream has attributes and an allocator.
pub fn check_stream_id(stream_id: u32) -> (r: Result<(), VcamError>)
    ensures
        r is Ok <==> stream_id == STREAM_ID,
        r is Err ==> r == Err::<(), VcamError>(VcamError::InvalidRequest),
{
    if stream_id != STREAM_ID {
        return Err(VcamError::InvalidRequest);
    }
    Ok(())
}

pub open spec fn spec_pack(high: u32, low: u32) -> u64 {
    (high as int * 0x1_0000_0000 + low as int) as u64
}

/// Packs two 32-bit values into one 64-bit attribute value, `high` first.
pub fn pack_u32_pair(high: u32, low: u32) -> (v: u64)
    ensures
        v == spec_pack(high, low),
{
    let h = high as u64;
    let l = low as u64;
    let v = (h << 32u64) | l;
    assert(v == h * 0x1_0000_0000 + l) by (bit_vector)
        requires
            l <= 0xffff_ffffu64,
            h <= 0xffff_ffffu64,
            v == (h << 32u64) | l;
    v
}

/// The sample layouts the stream offers.
#[derive(Clone, Copy, Debug, PartialEq, Eq, Structural)]
pub enum FrameLayout {
    Rgb32,
    Nv12,
}

/// The attribute values of a media type the stream offers.
#[derive(Clone, Copy, Debug, PartialEq, Eq, Structural)]
pub struct MediaTypeValues {
    pub sample_size: u32,
    pub default_stride: u32,
    pub frame_size: u64,
    pub frame_rate: u64,
    pub pixel_aspect_ratio: u64,
    pub avg_bitrate: u32,
}

pub open spec fn sat_mul_u32(a: int, b: int) -> u32 {
    if a * b > u32::MAX { u32::MAX } else { (a * b) as u32 }
}

pub open spec fn spec_media_type_values(f: VideoFormat, layout: FrameLayout) -> MediaTypeValues {
    let sample_size = match layout {
        FrameLayout::Nv12 => spec_nv12_frame_bytes(f) as u32,
        FrameLayout::Rgb32 => spec_bgra_frame_bytes(f) as u32,
    };
    let stride = match layout {
        FrameLayout::Nv12 => f.width,
        FrameLayout::Rgb32 => spec_bgra_stride(f) as u32,
    };
    MediaTypeValues {
        sample_size,
        default_stride: stride,
        frame_size: spec_pack(f.width, f.height),
        frame_rate: spec_pack(f.fps_num, f.fps_den),
        pixel_aspect_ratio: spec_pack(1, 1),
        avg_bitrate: sat_mul_u32(sat_mul_u32(sample_size as int, f.fps_num as int) as int, 8),
    }
}

fn saturating_mul_u32(a: u32, b: u32) -> (r: u32)
    ensures
        r == sat_mul_u32(a as int, b as int),
{
    assert(a as u64 * b as u64 <= 0xffff_ffffu64 * 0xffff_ffffu64) by (nonlinear_arith)
        requires a <= 0xffff_ffffu32, b <= 0xffff_ffffu32;
    let wide = a as u64 * b as u64;
    if wide > 0xffff_ffff { 0xffff_ffff } else { wide as u32 }
}

/// The attribute values of the media type for `layout`: sample size and
/// default stride (both truncated to 32 bits), frame size and frame rate as
/// packed pairs, square pixels, and the bit rate, saturating at `u32::MAX`.
pub fn media_type_values(format: VideoFormat, layout: FrameLayout) -> (v: MediaTypeValues)
    requires
        format_fits(format),
    ensures
        v == spec_media_type_values(format, layout),
{
    assert(format.width * format.height * 3 <= format.width * 4 * format.height) by (nonlinear_arith);
    let sample_size = match layout {
        FrameLayout::Nv12 => format.nv12_frame_bytes() as u32,
        FrameLayout::Rgb32 => format.bgra_frame_bytes() as u32,
    };
    let stride = match layout {
        FrameLayout::Nv12 => format.nv12_stride() as u32,
        FrameLayout::Rgb32 => format.bgra_stride() as u32,
    };
    MediaTypeValues {
        sample_size,
        default_stride: stride,
        frame_size: pack_u32_pair(format.width, format.height),
        frame_rate: pack_u32_pair(format.fps_num, format.fps_den),
        pixel_aspect_ratio: pack_u32_pair(1, 1),
        avg_bitrate: saturating_mul_u32(saturating_mul_u32(sample_size, format.fps_num), 8),
    }
}

/// A frame handed to the stream: from the shared feed (with its timestamp)
/// or the static pattern (with no timestamp and a ready NV12 copy).
pub struct ProvidedFrame {
    pub frame_id: u64,
    pub sample_time_100ns: Option<i64>,
    pub bgra: Vec<u8>,
    pub nv12: Option<Vec<u8>>,
}

/// The stream's fallback source of frames: the static test pattern of the
/// stream's format.
pub struct StaticPatternProvider {
    pub pattern: StaticTestPattern,
}

impl StaticPatternProvider {
    /// Renders the pattern for `format`; see `StaticTestPattern::with_format`.
    pub fn new<F: Fn(&[u8]) -> Vec<u8>>(format: VideoFormat, gradient: &[u8], to_nv12: F) -> (p: Self)
        requires
            format_check(format) is Ok,
            format_fits(format),
            gradient@.len() == format.width,
            forall|b: &[u8]| #[trigger] to_nv12.requires((b,)),
            forall|b: &[u8], v: Vec<u8>| b@.len() == spec_bgra_frame_bytes(format) && #[trigger] to_nv12.ensures((b,), v)
                ==> v@.len() == spec_nv12_frame_bytes(format),
        ensures
            p.pattern.spec_format() == format,
            p.pattern.spec_gradient() == gradient@,
            p.pattern.spec_bgra().len() == spec_bgra_frame_bytes(format),
            p.pattern.spec_nv12().len() == spec_nv12_frame_bytes(format),
            p.pattern.spec_nv12() == p.pattern.nv12_value()@,
            frame_matches(p.pattern.spec_bgra(), format, |x: int, y: int| pattern_pixel(format, gradient@, x, y)),
            exists|b: &[u8]| b@ == p.pattern.spec_bgra() && #[trigger] to_nv12.ensures((b,), p.pattern.nv12_value()),
    {
        StaticPatternProvider { pattern: StaticTestPattern::with_format(format, gradient, to_nv12) }
    }

    /// The pattern as a frame: id 0, no timestamp of its own, with its
    /// NV12 copy ready.
    pub fn current_frame(&self) -> (f: ProvidedFrame)
        ensures
            f.frame_id == 0,
            f.sample_time_100ns is None,
            f.bgra@ == self.pattern.spec_bgra(),
            f.nv12 matches Some(n) && n@ == self.pattern.spec_nv12(),
    {
        ProvidedFrame {
            frame_id: 0,
            sample_time_100ns: None,
            bgra: self.pattern.rgb32_arc(),
            nv12: Some(self.pattern.nv12_arc()),
        }
    }
}

/// A feed frame as the stream takes it: its id and timestamp, BGRA only.
pub fn provided_from_feed(frame: &FeedFrame) -> (f: ProvidedFrame)
    ensures
        f.frame_id == frame.frame_id,
        f.sample_time_100ns == Some(frame.timestamp_100ns),
        f.bgra@ == frame.bgra@,
        f.nv12 is None,
{
    ProvidedFrame {
        frame_id: frame.frame_id,
        sample_time_100ns: Some(frame.timestamp_100ns),
        bgra: copy_bytes(frame.bgra.as_slice()),
        nv12: None,
    }
}

/// The last frame read from the shared feed, served again while no newer
/// frame is committed.
pub struct SharedFrameCache {
    pub last_successful: Option<FeedFrame>,
}

impl SharedFrameCache {
    pub fn new() -> (c: Self)
        ensures
            c.last_successful is None,
    {
        SharedFrameCache { last_successful: None }
    }

    /// The frame to show, given whether the feed is live and the latest
    /// frame read from it: nothing (and a cleared cache) when the feed is
    /// down, the latest frame (which is cached) when there is one, and the
    /// cached frame otherwise.
    pub fn provide(&mut self, feed_active: bool, latest: Option<FeedFrame>) -> (r: Option<ProvidedFrame>)
        ensures
            !feed_active ==> r is None && final(self).last_successful is None,
            feed_active && latest is Some ==> {
                let f = latest->Some_0;
                &&& final(self).last_successful matches Some(c) && c.frame_id == f.frame_id
                    && c.timestamp_100ns == f.timestamp_100ns && c.bgra@ == f.bgra@
                &&& r matches Some(p) && p.frame_id == f.frame_id && p.sample_time_100ns == Some(f.timestamp_100ns)
                    && p.bgra@ == f.bgra@ && p.nv12 is None
            },
            feed_active && latest is None ==> {
                &&& final(self).last_successful == old(self).last_successful
                &&& match old(self).last_successful {
                    None => r is None,
                    Some(c) => r matches Some(p) && p.frame_id == c.frame_id
                        && p.sample_time_100ns == Some(c.timestamp_100ns) && p.bgra@ == c.bgra@ && p.nv12 is None,
                }
            },
    {
        if !feed_active {
            self.last_successful = None;
            return None;
        }
        match latest {
            Some(frame) => {
                let provided = provided_from_feed(&frame);
                self.last_successful = Some(frame);
                Some(provided)
            },
            None => match &self.last_successful {
                Some(cached) => Some(provided_from_feed(cached)),
                None => None,
            },
        }
    }
}

/// The frame the stream serves: the shared frame if there is one, the
/// static one otherwise.
pub fn choose_frame(shared: Option<ProvidedFrame>, fallback: ProvidedFrame) -> (f: ProvidedFrame)
    ensures
        match shared {
            Some(s) => f == s,
            None => f == fallback,
        },
{
    match shared {
        Some(s) => s,
        None => fallback,
    }
}

/// A shared feed serves the stream only if its frames have the stream's
/// format.
pub fn provider_matches(provider_format: VideoFormat, stream_format: VideoFormat) -> (b: bool)
    ensures
        b == (provider_format == stream_format),
{
    provider_format == stream_format
}

/// The sample time of a frame: its own timestamp, or the system time when
/// it has none.
pub open spec fn spec_sample_time(frame_time: Option<i64>, system_time_100ns: i64) -> i64 {
    match frame_time {
        Some(v) => v,
        None => system_time_100ns,
    }
}

pub fn choose_sample_time(frame_time: Option<i64>, system_time_100ns: i64) -> (t: i64)
    ensures
        t == spec_sample_time(frame_time, system_time_100ns),
{
    match frame_time {
        Some(v) => v,
        None => system_time_100ns,
    }
}

/// The NV12 copy of the last frame that had to be converted.
pub struct Nv12Cache {
    pub entry: Option<(u64, Vec<u8>)>,
}

impl Nv12Cache {
    pub fn new() -> (c: Self)
        ensures
            c.entry is None,
    {
        Nv12Cache { entry: None }
    }

    /// The NV12 bytes of `frame` if no conversion is needed: its own NV12
    /// copy, or the cached conversion of a frame with the same id.
    pub fn lookup(&self, frame: &ProvidedFrame) -> (r: Option<Vec<u8>>)
        ensures
            match frame.nv12 {
                Some(n) => r matches Some(v) && v@ == n@,
                None => match self.entry {
                    Some((id, bytes)) => if id == frame.frame_id {
                        r matches Some(v) && v@ == bytes@
                    } else {
                        r is None
                    },
                    None => r is None,
                },
            },
    {
        if let Some(nv12) = &frame.nv12 {
            return Some(copy_bytes(nv12.as_slice()));
        }
        match &self.entry {
            Some((id, bytes)) => if *id == frame.frame_id { Some(copy_bytes(bytes.as_slice())) } else { None },
            None => None,
        }
    }

    /// Remembers the conversion of frame `frame_id`.
    pub fn store(&mut self, frame_id: u64, bytes: &[u8])
        ensures
            final(self).entry matches Some((id, b)) && id == frame_id && b@ == bytes@,
    {
        self.entry = Some((frame_id, copy_bytes(bytes)));
    }
}

/// Copies a frame into a locked media buffer that holds `max_len` bytes;
/// refuses a buffer smaller than the frame.
pub fn copy_frame_to_buffer(buffer: &mut [u8], max_len: u32, frame: &[u8]) -> (r: Result<(), VcamError>)
    requires
        max_len as int >= (frame@.len() as int % 0x1_0000_0000) ==> old(buffer)@.len() >= frame@.len(),
    ensures
        r is Err <==> (max_len as int) < (frame@.len() as int % 0x1_0000_0000),
        r is Err ==> r == Err::<(), VcamError>(VcamError::BufferTooSmall) && final(buffer)@ == old(buffer)@,
        r is Ok ==> final(buffer)@ == old(buffer)@.subrange(0, 0) + frame@
            + old(buffer)@.subrange(frame@.len() as int, old(buffer)@.len() as int),
{
    let len32: u32 = (frame.len() as u64 % 0x1_0000_0000) as u32;
    if max_len < len32 {
        return Err(VcamError::BufferTooSmall);
    }
    let n = buffer.len();
    let mut i: usize = 0;
    while i < frame.len()
        invariant
            n == buffer@.len(),
            n == old(buffer)@.len(),
            n >= frame@.len(),
            i <= frame@.len(),
            forall|k: int| 0 <= k < n ==> #[trigger] buffer@[k] == if k < i { frame@[k] } else { old(buffer)@[k] },
        decreases frame@.len() - i,
    {
        buffer[i] = frame[i];
        i = i + 1;
    }
    assert(buffer@ =~= old(buffer)@.subrange(0, 0) + frame@ + old(buffer)@.subrange(frame@.len() as int, n as int));
    Ok(())
}

} // verus!
