use vstd::prelude::*;

use crate::decimal::{append_decimal, spec_decimal_text};

verus! {

/// Every failure the library reports.
#[derive(Clone, Copy, Debug, PartialEq, Eq, Structural)]
pub enum VcamError {
    /// A frame width or height is zero.
    ZeroFrameDimensions,
    /// A frame-rate numerator or denominator is zero.
    ZeroFrameRate,
    /// A frame width or height is odd, which NV12 cannot carry.
    OddFrameDimensions,
    /// The feed input format is not BGRA8.
    UnsupportedInputFormat,
    /// The feed input stride is smaller than `width * 4`.
    InputStrideTooSmall,
    /// The feed input stride is zero.
    ZeroInputStride,
    /// `input_stride * height` does not fit in `usize`.
    PayloadOverflow,
    /// A slot (header plus payload) does not fit in `usize`.
    SlotRegionOverflow,
    /// The whole slot ring does not fit in `usize`.
    DataMappingOverflow,
    /// A live session is already running and no reset was asked for.
    SessionBusy,
    /// The control header does not carry the feed magic and version.
    ControlNotInitialized,
    /// The session's config differs from the producer's config.
    ProducerConfigMismatch,
    /// The session's config differs from the reader's config.
    ReaderConfigMismatch,
    /// A published payload has the wrong length.
    PayloadSizeMismatch { expected: usize, actual: usize },
    /// The session is not active.
    SessionInactive,
    /// The slot's frame id is not the committed one.
    SlotFrameChanged,
    /// The slot's byte count is not the configured payload size.
    SlotPayloadSizeMismatch,
    /// A BGRA frame does not have `width * 4 * height` bytes.
    Rgb32FrameSizeMismatch { expected: usize, actual: usize },
    /// An NV12 frame does not have `width * height * 3 / 2` bytes.
    Nv12FrameSizeMismatch { expected: usize, actual: usize },
    /// An NV12 surface has a pitch of zero or below.
    Nv12PitchNotPositive,
    /// An NV12 surface has no scanline or no buffer.
    Nv12SurfaceNull,
    /// An NV12 surface buffer is smaller than both planes.
    Nv12SurfaceTooSmall,
    /// A surface has no first scanline.
    SurfaceNull,
    /// A surface pitch is zero.
    SurfacePitchZero,
    /// A surface pitch is shorter than a frame row.
    SurfacePitchTooSmall,
    /// A surface buffer is smaller than the rows it must hold.
    SurfaceTooSmall,
    /// A dump path is empty.
    DumpPathEmpty,
    /// The object has been shut down.
    Shutdown,
    /// The request is not valid in the current state.
    InvalidRequest,
    /// A start time format other than the default was asked for.
    UnsupportedTimeFormat,
    /// A media buffer is smaller than the frame.
    BufferTooSmall,
    /// A caller handed no place to read from or write to.
    NullPointer,
    /// The control header names a committed slot outside the ring.
    SlotIndexOutOfRange,
}

/// `E_FAIL` (0x80004005): an unspecified failure.
pub const E_FAIL: i32 = -2147467259;
/// `E_INVALIDARG` (0x80070057): an argument is not valid.
pub const E_INVALIDARG: i32 = -2147024809;
/// `E_POINTER` (0x80004003): a pointer or buffer is not usable.
pub const E_POINTER: i32 = -2147467261;
/// `ERROR_BUSY` as a result code (0x800700AA).
pub const HRESULT_ERROR_BUSY: i32 = -2147024726;
/// `MF_E_SHUTDOWN` (0xC00D3E85).
pub const MF_E_SHUTDOWN: i32 = -1072873851;
/// `MF_E_INVALIDREQUEST` (0xC00D36B2).
pub const MF_E_INVALIDREQUEST: i32 = -1072875854;
/// `MF_E_UNSUPPORTED_TIME_FORMAT` (0xC00D36C5).
pub const MF_E_UNSUPPORTED_TIME_FORMAT: i32 = -1072875835;

/// The result code each failure is reported with: bad arguments and frame
/// sizes are invalid arguments, a live session makes the feed busy, a feed
/// that cannot be read is a plain failure, and the media pipeline's own
/// states have Media Foundation's codes.
pub open spec fn spec_error_code(e: VcamError) -> i32 {
    match e {
        VcamError::SessionBusy => HRESULT_ERROR_BUSY,
        VcamError::ControlNotInitialized
        | VcamError::ProducerConfigMismatch
        | VcamError::ReaderConfigMismatch
        | VcamError::SessionInactive
        | VcamError::SlotFrameChanged
        | VcamError::SlotPayloadSizeMismatch
        | VcamError::SlotIndexOutOfRange => E_FAIL,
        VcamError::Shutdown => MF_E_SHUTDOWN,
        VcamError::InvalidRequest => MF_E_INVALIDREQUEST,
        VcamError::UnsupportedTimeFormat => MF_E_UNSUPPORTED_TIME_FORMAT,
        VcamError::BufferTooSmall | VcamError::NullPointer => E_POINTER,
        _ => E_INVALIDARG,
    }
}

/// "`prefix`expected `expected` bytes, got `actual`".
pub open spec fn size_mismatch_text(prefix: Seq<char>, expected: usize, actual: usize) -> Seq<char> {
    prefix + "expected "@ + spec_decimal_text(expected as nat) + " bytes, got "@ + spec_decimal_text(actual as nat)
}

/// The message each failure is reported with.
pub open spec fn spec_error_message(e: VcamError) -> Seq<char> {
    match e {
        VcamError::ZeroFrameDimensions => "frame dimensions must be non-zero"@,
        VcamError::ZeroFrameRate => "frame rate must be non-zero"@,
        VcamError::OddFrameDimensions => "frame dimensions must be even for NV12 output"@,
        VcamError::UnsupportedInputFormat => "only BGRA8 shared-memory input is supported"@,
        VcamError::InputStrideTooSmall => "input stride is smaller than width * 4"@,
        VcamError::ZeroInputStride => "input stride must be non-zero"@,
        VcamError::PayloadOverflow => "payload byte count overflow"@,
        VcamError::SlotRegionOverflow => "slot region byte count overflow"@,
        VcamError::DataMappingOverflow => "data mapping size overflow"@,
        VcamError::SessionBusy => "a shared-memory feed session is already active"@,
        VcamError::ControlNotInitialized => "shared-memory control header is not initialized"@,
        VcamError::ProducerConfigMismatch => "shared-memory session config does not match the requested producer config"@,
        VcamError::ReaderConfigMismatch => "shared-memory session config does not match the requested reader config"@,
        VcamError::PayloadSizeMismatch { expected, actual } =>
            size_mismatch_text("frame payload size mismatch: "@, expected, actual),
        VcamError::SessionInactive => "shared-memory feed session is inactive"@,
        VcamError::SlotFrameChanged => "slot frame id changed during copy"@,
        VcamError::SlotPayloadSizeMismatch => "slot payload size does not match the configured feed size"@,
        VcamError::Rgb32FrameSizeMismatch { expected, actual } =>
            size_mismatch_text("RGB32 frame size mismatch: "@, expected, actual),
        VcamError::Nv12FrameSizeMismatch { expected, actual } =>
            size_mismatch_text("NV12 frame size mismatch: "@, expected, actual),
        VcamError::Nv12PitchNotPositive => "NV12 surface pitch must be positive"@,
        VcamError::Nv12SurfaceNull => "NV12 surface pointer is null"@,
        VcamError::Nv12SurfaceTooSmall => "NV12 surface buffer is smaller than expected"@,
        VcamError::SurfaceNull => "surface pointer is null"@,
        VcamError::SurfacePitchZero => "surface pitch must not be zero"@,
        VcamError::SurfacePitchTooSmall => "surface pitch is smaller than a frame row"@,
        VcamError::SurfaceTooSmall => "surface buffer is smaller than expected"@,
        VcamError::DumpPathEmpty => "dump path is empty"@,
        VcamError::Shutdown => "the object has been shut down"@,
        VcamError::InvalidRequest => "the request is not valid in the current state"@,
        VcamError::UnsupportedTimeFormat => "only the default time format is supported"@,
        VcamError::BufferTooSmall => "media buffer is smaller than the frame"@,
        VcamError::NullPointer => "a required pointer is null"@,
        VcamError::SlotIndexOutOfRange => "committed slot index is outside the slot ring"@,
    }
}

fn size_mismatch_message(prefix: &str, expected: usize, actual: usize) -> (s: String)
    ensures
        s@ == size_mismatch_text(prefix@, expected, actual),
{
    let mut s = String::from_str(prefix);
    s.append("expected ");
    append_decimal(&mut s, expected as u64);
    s.append(" bytes, got ");
    append_decimal(&mut s, actual as u64);
    s
}

impl VcamError {
    /// The result code this failure is reported with; every one is a
    /// failure code, with the sign bit set.
    pub fn code(self) -> (c: i32)
        ensures
            c == spec_error_code(self),
            c < 0,
    {
        match self {
            VcamError::SessionBusy => HRESULT_ERROR_BUSY,
            VcamError::ControlNotInitialized
            | VcamError::ProducerConfigMismatch
            | VcamError::ReaderConfigMismatch
            | VcamError::SessionInactive
            | VcamError::SlotFrameChanged
            | VcamError::SlotPayloadSizeMismatch
            | VcamError::SlotIndexOutOfRange => E_FAIL,
            VcamError::Shutdown => MF_E_SHUTDOWN,
            VcamError::InvalidRequest => MF_E_INVALIDREQUEST,
            VcamError::UnsupportedTimeFormat => MF_E_UNSUPPORTED_TIME_FORMAT,
            VcamError::BufferTooSmall | VcamError::NullPointer => E_POINTER,
            _ => E_INVALIDARG,
        }
    }

    /// The message this failure is reported with.
    pub fn message(self) -> (s: String)
        ensures
            s@ == spec_error_message(self),
    {
        match self {
            VcamError::ZeroFrameDimensions => String::from_str("frame dimensions must be non-zero"),
            VcamError::ZeroFrameRate => String::from_str("frame rate must be non-zero"),
            VcamError::OddFrameDimensions => String::from_str("frame dimensions must be even for NV12 output"),
            VcamError::UnsupportedInputFormat => String::from_str("only BGRA8 shared-memory input is supported"),
            VcamError::InputStrideTooSmall => String::from_str("input stride is smaller than width * 4"),
            VcamError::ZeroInputStride => String::from_str("input stride must be non-zero"),
            VcamError::PayloadOverflow => String::from_str("payload byte count overflow"),
            VcamError::SlotRegionOverflow => String::from_str("slot region byte count overflow"),
            VcamError::DataMappingOverflow => String::from_str("data mapping size overflow"),
            VcamError::SessionBusy => String::from_str("a shared-memory feed session is already active"),
            VcamError::ControlNotInitialized => String::from_str("shared-memory control header is not initialized"),
            VcamError::ProducerConfigMismatch => String::from_str(
                "shared-memory session config does not match the requested producer config",
            ),
            VcamError::ReaderConfigMismatch => String::from_str(
                "shared-memory session config does not match the requested reader config",
            ),
            VcamError::PayloadSizeMismatch { expected, actual } =>
                size_mismatch_message("frame payload size mismatch: ", expected, actual),
            VcamError::SessionInactive => String::from_str("shared-memory feed session is inactive"),
            VcamError::SlotFrameChanged => String::from_str("slot frame id changed during copy"),
            VcamError::SlotPayloadSizeMismatch => String::from_str(
                "slot payload size does not match the configured feed size",
            ),
            VcamError::Rgb32FrameSizeMismatch { expected, actual } =>
                size_mismatch_message("RGB32 frame size mismatch: ", expected, actual),
            VcamError::Nv12FrameSizeMismatch { expected, actual } =>
                size_mismatch_message("NV12 frame size mismatch: ", expected, actual),
            VcamError::Nv12PitchNotPositive => String::from_str("NV12 surface pitch must be positive"),
            VcamError::Nv12SurfaceNull => String::from_str("NV12 surface pointer is null"),
            VcamError::Nv12SurfaceTooSmall => String::from_str("NV12 surface buffer is smaller than expected"),
            VcamError::SurfaceNull => String::from_str("surface pointer is null"),
            VcamError::SurfacePitchZero => String::from_str("surface pitch must not be zero"),
            VcamError::SurfacePitchTooSmall => String::from_str("surface pitch is smaller than a frame row"),
            VcamError::SurfaceTooSmall => String::from_str("surface buffer is smaller than expected"),
            VcamError::DumpPathEmpty => String::from_str("dump path is empty"),
            VcamError::Shutdown => String::from_str("the object has been shut down"),
            VcamError::InvalidRequest => String::from_str("the request is not valid in the current state"),
            VcamError::UnsupportedTimeFormat => String::from_str("only the default time format is supported"),
            VcamError::BufferTooSmall => String::from_str("media buffer is smaller than the frame"),
            VcamError::NullPointer => String::from_str("a required pointer is null"),
            VcamError::SlotIndexOutOfRange => String::from_str("committed slot index is outside the slot ring"),
        }
    }
}

} // verus!
