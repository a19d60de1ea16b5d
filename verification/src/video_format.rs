use vstd::prelude::*;

use crate::constants::{
    BGRA_BYTES_PER_PIXEL, DEFAULT_FRAME_HEIGHT, DEFAULT_FRAME_RATE_DENOMINATOR,
    DEFAULT_FRAME_RATE_NUMERATOR, DEFAULT_FRAME_WIDTH,
};
use crate::error::VcamError;

verus! {

/// Frame geometry and frame rate of a video stream.
#[derive(Clone, Copy, Debug, PartialEq, Eq, Structural)]
pub struct VideoFormat {
    pub width: u32,
    pub height: u32,
    pub fps_num: u32,
    pub fps_den: u32,
}

/// What `VideoFormat::validate` reports for a format.
pub open spec fn format_check(f: VideoFormat) -> Result<(), VcamError> {
    if f.width == 0 || f.height == 0 {
        Err(VcamError::ZeroFrameDimensions)
    } else if f.fps_num == 0 || f.fps_den == 0 {
        Err(VcamError::ZeroFrameRate)
    } else if f.width % 2 != 0 || f.height % 2 != 0 {
        Err(VcamError::OddFrameDimensions)
    } else {
        Ok(())
    }
}

pub open spec fn format_is_valid(f: VideoFormat) -> bool {
    format_check(f) is Ok
}

/// Bytes in one tightly packed BGRA row.
pub open spec fn spec_bgra_stride(f: VideoFormat) -> int {
    f.width * 4
}

/// Bytes in one tightly packed BGRA frame.
pub open spec fn spec_bgra_frame_bytes(f: VideoFormat) -> int {
    f.width * 4 * f.height
}

/// Bytes in one NV12 frame: a full-resolution luma plane followed by an
/// interleaved chroma plane of half the height.
pub open spec fn spec_nv12_frame_bytes(f: VideoFormat) -> int {
    (f.width * f.height * 3) / 2
}

/// The frame buffers of this format can be addressed with `usize`.
pub open spec fn format_fits(f: VideoFormat) -> bool {
    &&& spec_bgra_stride(f) <= usize::MAX
    &&& spec_bgra_frame_bytes(f) <= usize::MAX
}

pub open spec fn spec_frame_duration_100ns(f: VideoFormat) -> int {
    (10_000_000 * f.fps_den) / (f.fps_num as int)
}

pub open spec fn spec_default_format() -> VideoFormat {
    VideoFormat {
        width: DEFAULT_FRAME_WIDTH,
        height: DEFAULT_FRAME_HEIGHT,
        fps_num: DEFAULT_FRAME_RATE_NUMERATOR,
        fps_den: DEFAULT_FRAME_RATE_DENOMINATOR,
    }
}

impl Default for VideoFormat {
    fn default() -> (f: Self)
        ensures
            f == spec_default_format(),
    {
        VideoFormat {
            width: DEFAULT_FRAME_WIDTH,
            height: DEFAULT_FRAME_HEIGHT,
            fps_num: DEFAULT_FRAME_RATE_NUMERATOR,
            fps_den: DEFAULT_FRAME_RATE_DENOMINATOR,
        }
    }
}

impl VideoFormat {
    /// Builds a format and checks it.
    pub fn new(width: u32, height: u32, fps_num: u32, fps_den: u32) -> (r: Result<Self, VcamError>)
        ensures
            ({
                let f = VideoFormat { width, height, fps_num, fps_den };
                match format_check(f) {
                    Ok(()) => r == Ok::<VideoFormat, VcamError>(f),
                    Err(e) => r == Err::<VideoFormat, VcamError>(e),
                }
            }),
    {
        let format = VideoFormat { width, height, fps_num, fps_den };
        match format.validate() {
            Ok(()) => Ok(format),
            Err(e) => Err(e),
        }
    }

    /// Rejects zero dimensions, a zero frame rate, and odd dimensions, in
    /// that order.
    pub fn validate(self) -> (r: Result<(), VcamError>)
        ensures
            r == format_check(self),
    {
        if self.width == 0 || self.height == 0 {
            return Err(VcamError::ZeroFrameDimensions);
        }
        if self.fps_num == 0 || self.fps_den == 0 {
            return Err(VcamError::ZeroFrameRate);
        }
        if self.width % 2 != 0 || self.height % 2 != 0 {
            return Err(VcamError::OddFrameDimensions);
        }
        Ok(())
    }

    /// Duration of one frame in 100-nanosecond units, rounded down.
    pub fn frame_duration_100ns(self) -> (d: i64)
        requires
            self.fps_num != 0,
        ensures
            d == spec_frame_duration_100ns(self),
    {
        assert(10_000_000 * (self.fps_den as int) <= 10_000_000 * 0xffff_ffff) by (nonlinear_arith)
            requires self.fps_den <= 0xffff_ffffu32;
        let total: u64 = 10_000_000u64 * self.fps_den as u64;
        let d: u64 = total / self.fps_num as u64;
        assert(d <= total) by (nonlinear_arith)
            requires d == total / (self.fps_num as u64), self.fps_num >= 1;
        d as i64
    }

    pub fn bgra_stride(self) -> (s: usize)
        requires
            spec_bgra_stride(self) <= usize::MAX,
        ensures
            s == spec_bgra_stride(self),
    {
        self.width as usize * BGRA_BYTES_PER_PIXEL
    }

    pub fn bgra_frame_bytes(self) -> (n: usize)
        requires
            format_fits(self),
        ensures
            n == spec_bgra_frame_bytes(self),
    {
        self.bgra_stride() * self.height as usize
    }

    pub fn nv12_stride(self) -> (s: usize)
        ensures
            s == self.width,
    {
        self.width as usize
    }

    pub fn nv12_frame_bytes(self) -> (n: usize)
        requires
            self.width * self.height * 3 <= usize::MAX,
        ensures
            n == spec_nv12_frame_bytes(self),
    {
        assert(self.width * self.height <= self.width * self.height * 3) by (nonlinear_arith);
        self.width as usize * self.height as usize * 3 / 2
    }
}

} // verus!
