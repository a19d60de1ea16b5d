use vstd::prelude::*;

use crate::error::VcamError;
use crate::feed_session::spliced;
use crate::video_format::{
    format_check, format_fits, spec_bgra_frame_bytes, spec_bgra_stride, spec_nv12_frame_bytes,
    VideoFormat,
};

verus! {

/// Where row `r` of a surface starts when its first scanline is at
/// `offset` and rows are `pitch` bytes apart (a negative pitch runs upward).
pub open spec fn row_dest(offset: int, pitch: int, r: int) -> int {
    offset + r * pitch
}

/// Rows `0..rows` of `row_bytes` bytes all lie inside a buffer of `len`
/// bytes.
pub open spec fn rows_in_bounds(len: int, offset: int, pitch: int, row_bytes: int, rows: int) -> bool {
    rows <= 0 || {
        let last = row_dest(offset, pitch, rows - 1);
        &&& 0 <= offset
        &&& offset + row_bytes <= len
        &&& 0 <= last
        &&& last + row_bytes <= len
    }
}

/// The buffer `dst` after rows `0..rows` of `src` (`src_stride` bytes apart,
/// `row_bytes` long) are copied to the surface rows.
pub open spec fn copied_rows(
    dst: Seq<u8>,
    src: Seq<u8>,
    src_stride: int,
    offset: int,
    pitch: int,
    row_bytes: int,
    rows: nat,
) -> Seq<u8>
    decreases rows,
{
    if rows == 0 {
        dst
    } else {
        let r = rows - 1;
        spliced(
            copied_rows(dst, src, src_stride, offset, pitch, row_bytes, r as nat),
            row_dest(offset, pitch, r),
            src.subrange(r * src_stride, r * src_stride + row_bytes),
        )
    }
}

pub open spec fn abs(x: int) -> int {
    if x < 0 { -x } else { x }
}

/// Bytes a surface must have: `|pitch| * (rows - 1) + row_bytes`, each
/// step saturating at `usize::MAX`.
pub open spec fn required_surface_len(pitch: int, row_bytes: int, rows: int) -> int {
    let below = if rows >= 1 { rows - 1 } else { 0 };
    let product = if abs(pitch) * below > usize::MAX { usize::MAX as int } else { abs(pitch) * below };
    if product + row_bytes > usize::MAX { usize::MAX as int } else { product + row_bytes }
}

/// The outcome of the checks before rows are copied to a surface.
pub open spec fn surface_check(
    scanline: Option<usize>,
    pitch: i32,
    row_bytes: int,
    rows: int,
    dst_len: int,
) -> Result<(), VcamError> {
    if scanline is None {
        Err(VcamError::SurfaceNull)
    } else if pitch == 0 {
        Err(VcamError::SurfacePitchZero)
    } else if abs(pitch as int) < row_bytes {
        Err(VcamError::SurfacePitchTooSmall)
    } else if dst_len < required_surface_len(pitch as int, row_bytes, rows) {
        Err(VcamError::SurfaceTooSmall)
    } else {
        Ok(())
    }
}

/// Whether rows `0..rows` of `row_bytes` bytes, the first at `offset` and
/// the others `pitch` bytes apart, all lie inside `len` bytes.
pub fn surface_rows_in_bounds(len: usize, offset: usize, pitch: i32, row_bytes: usize, rows: usize) -> (b: bool)
    ensures
        b == rows_in_bounds(len as int, offset as int, pitch as int, row_bytes as int, rows as int),
{
    if rows == 0 {
        return true;
    }
    let off = offset as i128;
    let k: i128 = rows as i128 - 1;
    let p: i128 = pitch as i128;
    assert(-0x8000_0000 * 0x1_0000_0000_0000_0000 <= k * p <= 0x8000_0000 * 0x1_0000_0000_0000_0000)
        by (nonlinear_arith)
        requires 0 <= k < 0x1_0000_0000_0000_0000, -0x8000_0000 <= p < 0x8000_0000;
    let last: i128 = off + k * p;
    off + row_bytes as i128 <= len as i128 && 0 <= last && last + row_bytes as i128 <= len as i128
}

pub proof fn lemma_row_in_bounds(len: int, offset: int, pitch: int, row_bytes: int, rows: int, r: int)
    requires
        rows_in_bounds(len, offset, pitch, row_bytes, rows),
        0 <= r < rows,
    ensures
        0 <= row_dest(offset, pitch, r),
        row_dest(offset, pitch, r) + row_bytes <= len,
{
    let last = row_dest(offset, pitch, rows - 1);
    if pitch >= 0 {
        assert(0 <= r * pitch <= (rows - 1) * pitch) by (nonlinear_arith)
            requires 0 <= r <= rows - 1, pitch >= 0;
    } else {
        assert((rows - 1) * pitch <= r * pitch <= 0) by (nonlinear_arith)
            requires 0 <= r <= rows - 1, pitch < 0;
    }
}

pub proof fn lemma_copied_rows_len(
    dst: Seq<u8>,
    src: Seq<u8>,
    src_stride: int,
    offset: int,
    pitch: int,
    row_bytes: int,
    rows: nat,
)
    requires
        rows_in_bounds(dst.len() as int, offset, pitch, row_bytes, rows as int),
        0 <= row_bytes,
        0 <= src_stride,
        rows == 0 || (rows - 1) * src_stride + row_bytes <= src.len(),
    ensures
        copied_rows(dst, src, src_stride, offset, pitch, row_bytes, rows).len() == dst.len(),
    decreases rows,
{
    if rows > 0 {
        let r = (rows - 1) as nat;
        lemma_row_in_bounds(dst.len() as int, offset, pitch, row_bytes, rows as int, r as int);
        if r > 0 {
            lemma_row_in_bounds(dst.len() as int, offset, pitch, row_bytes, rows as int, r - 1);
            lemma_row_in_bounds(dst.len() as int, offset, pitch, row_bytes, rows as int, 0);
            assert((r - 1) * src_stride + row_bytes <= (rows - 1) * src_stride + row_bytes) by (nonlinear_arith)
                requires r - 1 <= rows - 1, src_stride >= 0;
        }
        lemma_copied_rows_len(dst, src, src_stride, offset, pitch, row_bytes, r);
        assert(r * src_stride >= 0) by (nonlinear_arith)
            requires r >= 0, src_stride >= 0;
    }
}

/// Copies `rows` rows of `row_bytes` bytes from `src` (`src_stride` bytes
/// apart) to a surface whose first scanline is at `scanline` in `dst` and
/// whose rows are `pitch` bytes apart. `dst_len` is the byte count the
/// surface claims to have; it must cover `|pitch| * (rows - 1) + row_bytes`.
pub fn copy_rows_to_surface(
    src: &[u8],
    src_stride: usize,
    dst: &mut [u8],
    scanline: Option<usize>,
    dst_pitch: i32,
    row_bytes: usize,
    rows: usize,
    dst_len: usize,
) -> (r: Result<(), VcamError>)
    requires
        rows == 0 || (rows - 1) * src_stride + row_bytes <= src@.len(),
        surface_check(scanline, dst_pitch, row_bytes as int, rows as int, dst_len as int) is Ok
            ==> rows_in_bounds(old(dst)@.len() as int, scanline->Some_0 as int, dst_pitch as int, row_bytes as int, rows as int),
    ensures
        r == surface_check(scanline, dst_pitch, row_bytes as int, rows as int, dst_len as int),
        r is Err ==> final(dst)@ == old(dst)@,
        r is Ok ==> final(dst)@ == copied_rows(
            old(dst)@, src@, src_stride as int, scanline->Some_0 as int, dst_pitch as int, row_bytes as int, rows as nat,
        ),
{
    let start = match scanline {
        None => { return Err(VcamError::SurfaceNull); },
        Some(s) => s,
    };
    if dst_pitch == 0 {
        return Err(VcamError::SurfacePitchZero);
    }
    let abs_pitch: usize = if dst_pitch < 0 { (0i64 - dst_pitch as i64) as usize } else { dst_pitch as usize };
    if abs_pitch < row_bytes {
        return Err(VcamError::SurfacePitchTooSmall);
    }
    let below: usize = if rows >= 1 { rows - 1 } else { 0 };
    let product: usize = match abs_pitch.checked_mul(below) {
        Some(p) => p,
        None => usize::MAX,
    };
    let required_len: usize = match product.checked_add(row_bytes) {
        Some(n) => n,
        None => usize::MAX,
    };
    if dst_len < required_len {
        return Err(VcamError::SurfaceTooSmall);
    }

    let n = dst.len();
    let sn = src.len();
    let mut row: usize = 0;
    while row < rows
        invariant
            sn == src@.len(),
            n == dst@.len(),
            n == old(dst)@.len(),
            row <= rows,
            rows == 0 || (rows - 1) * src_stride + row_bytes <= src@.len(),
            rows_in_bounds(n as int, start as int, dst_pitch as int, row_bytes as int, rows as int),
            dst@ == copied_rows(old(dst)@, src@, src_stride as int, start as int, dst_pitch as int, row_bytes as int, row as nat),
        decreases rows - row,
    {
        proof {
            lemma_row_in_bounds(n as int, start as int, dst_pitch as int, row_bytes as int, rows as int, row as int);
            assert(row * src_stride + row_bytes <= (rows - 1) * src_stride + row_bytes) by (nonlinear_arith)
                requires row <= rows - 1, src_stride >= 0;
        }
        let src_offset = row * src_stride;
        let dest: usize = ((start as i128) + (row as i128) * (dst_pitch as i128)) as usize;
        let piece = &src[src_offset..src_offset + row_bytes];
        write_slice_at(dst, dest, piece);
        row = row + 1;
    }
    Ok(())
}

/// Writes `bytes` into `data` from `offset` on.
fn write_slice_at(data: &mut [u8], offset: usize, bytes: &[u8])
    requires
        offset + bytes@.len() <= old(data)@.len(),
    ensures
        final(data)@ == spliced(old(data)@, offset as int, bytes@),
{
    let n = data.len();
    let mut i: usize = 0;
    while i < bytes.len()
        invariant
            n == data@.len(),
            offset + bytes@.len() <= old(data)@.len(),
            data@.len() == old(data)@.len(),
            i <= bytes@.len(),
            forall|k: int| 0 <= k < data@.len() ==> #[trigger] data@[k] == if offset <= k < offset + i {
                bytes@[k - offset]
            } else {
                old(data)@[k]
            },
        decreases bytes@.len() - i,
    {
        data[offset + i] = bytes[i];
        i = i + 1;
    }
    assert(data@ =~= spliced(old(data)@, offset as int, bytes@));
}

/// What `validate_bgra_frame` reports.
pub open spec fn bgra_frame_check(f: VideoFormat, len: int) -> Result<(), VcamError> {
    match format_check(f) {
        Err(e) => Err(e),
        Ok(()) => if len != spec_bgra_frame_bytes(f) {
            Err(VcamError::Rgb32FrameSizeMismatch {
                expected: spec_bgra_frame_bytes(f) as usize,
                actual: len as usize,
            })
        } else {
            Ok(())
        },
    }
}

/// What `validate_nv12_frame` reports.
pub open spec fn nv12_frame_check(f: VideoFormat, len: int) -> Result<(), VcamError> {
    match format_check(f) {
        Err(e) => Err(e),
        Ok(()) => if len != spec_nv12_frame_bytes(f) {
            Err(VcamError::Nv12FrameSizeMismatch {
                expected: spec_nv12_frame_bytes(f) as usize,
                actual: len as usize,
            })
        } else {
            Ok(())
        },
    }
}

/// Checks the format and that `bgra` holds exactly one frame of it.
pub fn validate_bgra_frame(format: VideoFormat, bgra: &[u8]) -> (r: Result<(), VcamError>)
    requires
        format_check(format) is Ok ==> format_fits(format),
    ensures
        r == bgra_frame_check(format, bgra@.len() as int),
{
    format.validate()?;
    let expected = format.bgra_frame_bytes();
    if bgra.len() != expected {
        return Err(VcamError::Rgb32FrameSizeMismatch { expected, actual: bgra.len() });
    }
    Ok(())
}

/// Checks the format and that `nv12` holds exactly one frame of it.
pub fn validate_nv12_frame(format: VideoFormat, nv12: &[u8]) -> (r: Result<(), VcamError>)
    requires
        format_check(format) is Ok ==> format_fits(format),
    ensures
        r == nv12_frame_check(format, nv12@.len() as int),
{
    format.validate()?;
    assert(format.width * format.height * 3 <= format.width * 4 * format.height) by (nonlinear_arith);
    let expected = format.nv12_frame_bytes();
    if nv12.len() != expected {
        return Err(VcamError::Nv12FrameSizeMismatch { expected, actual: nv12.len() });
    }
    Ok(())
}

/// What `copy_bgra_to_surface` reports.
pub open spec fn bgra_surface_check(
    f: VideoFormat,
    len: int,
    scanline: Option<usize>,
    pitch: i32,
    buffer_len: u32,
) -> Result<(), VcamError> {
    match bgra_frame_check(f, len) {
        Err(e) => Err(e),
        Ok(()) => surface_check(scanline, pitch, spec_bgra_stride(f), f.height as int, buffer_len as int),
    }
}

/// Copies a BGRA frame into a locked surface: `surface` is the whole
/// buffer, `scanline` the offset of its first scanline (`None` when the
/// surface has none), `pitch` the signed distance between scanlines, and
/// `buffer_len` the byte count the surface reports.
pub fn copy_bgra_to_surface(
    format: VideoFormat,
    bgra: &[u8],
    surface: &mut [u8],
    scanline: Option<usize>,
    pitch: i32,
    buffer_len: u32,
) -> (r: Result<(), VcamError>)
    requires
        format_check(format) is Ok ==> format_fits(format),
        bgra_surface_check(format, bgra@.len() as int, scanline, pitch, buffer_len) is Ok
            ==> rows_in_bounds(old(surface)@.len() as int, scanline->Some_0 as int, pitch as int,
                spec_bgra_stride(format), format.height as int),
    ensures
        r == bgra_surface_check(format, bgra@.len() as int, scanline, pitch, buffer_len),
        r is Err ==> final(surface)@ == old(surface)@,
        r is Ok ==> final(surface)@ == copied_rows(old(surface)@, bgra@, spec_bgra_stride(format),
            scanline->Some_0 as int, pitch as int, spec_bgra_stride(format), format.height as nat),
{
    validate_bgra_frame(format, bgra)?;
    let stride = format.bgra_stride();
    proof {
        assert(format.height >= 1);
        assert((format.height - 1) * stride + stride == stride * format.height) by (nonlinear_arith);
    }
    copy_rows_to_surface(bgra, stride, surface, scanline, pitch, stride, format.height as usize, buffer_len as usize)
}

/// What `copy_nv12_to_surface` reports.
pub open spec fn nv12_surface_check(
    f: VideoFormat,
    len: int,
    scanline: Option<usize>,
    buffer_present: bool,
    pitch: i32,
    buffer_len: u32,
) -> Result<(), VcamError> {
    match nv12_frame_check(f, len) {
        Err(e) => Err(e),
        Ok(()) => if pitch <= 0 {
            Err(VcamError::Nv12PitchNotPositive)
        } else if scanline is None || !buffer_present {
            Err(VcamError::Nv12SurfaceNull)
        } else if (buffer_len as int) < pitch * f.height + pitch * (f.height / 2) {
            Err(VcamError::Nv12SurfaceTooSmall)
        } else {
            match surface_check(scanline, pitch, f.width as int, f.height as int, pitch * f.height) {
                Err(e) => Err(e),
                Ok(()) => surface_check(Some((pitch * f.height) as usize), pitch, f.width as int,
                    (f.height / 2) as int, pitch * (f.height / 2)),
            }
        },
    }
}

/// The surface after an NV12 frame is copied: the luma plane row by row
/// from the first scanline, then the chroma plane from the end of a luma
/// plane of `pitch * height` bytes.
pub open spec fn nv12_surface_after(
    f: VideoFormat,
    nv12: Seq<u8>,
    surface: Seq<u8>,
    scanline: int,
    pitch: int,
) -> Seq<u8> {
    let w = f.width as int;
    let h = f.height as int;
    let luma = nv12.subrange(0, w * h);
    let chroma = nv12.subrange(w * h, nv12.len() as int);
    let after_luma = copied_rows(surface, luma, w, scanline, pitch, w, h as nat);
    copied_rows(after_luma, chroma, w, pitch * h, pitch, w, (h / 2) as nat)
}

/// Copies an NV12 frame into a locked surface: `surface` is the buffer from
/// its start (`buffer_present` is false when the surface has no buffer),
/// `scanline` the offset of its first luma scanline, `pitch` the distance
/// between scanlines, which must be positive, and `buffer_len` the byte
/// count the surface reports, which must cover both planes.
pub fn copy_nv12_to_surface(
    format: VideoFormat,
    nv12: &[u8],
    surface: &mut [u8],
    scanline: Option<usize>,
    buffer_present: bool,
    pitch: i32,
    buffer_len: u32,
) -> (r: Result<(), VcamError>)
    requires
        format_check(format) is Ok ==> format_fits(format),
        old(surface)@.len() >= buffer_len,
        nv12_surface_check(format, nv12@.len() as int, scanline, buffer_present, pitch, buffer_len) is Ok
            ==> rows_in_bounds(old(surface)@.len() as int, scanline->Some_0 as int, pitch as int,
                format.width as int, format.height as int),
    ensures
        r == nv12_surface_check(format, nv12@.len() as int, scanline, buffer_present, pitch, buffer_len),
        r is Err ==> final(surface)@ == old(surface)@,
        r is Ok ==> final(surface)@ == nv12_surface_after(format, nv12@, old(surface)@,
            scanline->Some_0 as int, pitch as int),
{
    validate_nv12_frame(format, nv12)?;
    if pitch <= 0 {
        return Err(VcamError::Nv12PitchNotPositive);
    }
    let scan = match scanline {
        None => { return Err(VcamError::Nv12SurfaceNull); },
        Some(s) => s,
    };
    if !buffer_present {
        return Err(VcamError::Nv12SurfaceNull);
    }
    let pitch_bytes = pitch as usize;
    let width = format.width as usize;
    let height = format.height as usize;
    proof {
        assert(format.width * format.height * 3 <= format.width * 4 * format.height) by (nonlinear_arith);
        assert(pitch_bytes * height <= 0x8000_0000 * 0x1_0000_0000) by (nonlinear_arith)
            requires pitch_bytes < 0x8000_0000, height <= 0xffff_ffff;
        assert(pitch_bytes * (height / 2) <= pitch_bytes * height) by (nonlinear_arith)
            requires height / 2 <= height;
    }
    let wide_y: u128 = pitch_bytes as u128 * height as u128;
    let wide_uv: u128 = pitch_bytes as u128 * (height / 2) as u128;
    if (buffer_len as u128) < wide_y + wide_uv {
        return Err(VcamError::Nv12SurfaceTooSmall);
    }
    let y_plane_bytes = pitch_bytes * height;
    let uv_plane_bytes = pitch_bytes * (height / 2);
    proof {
        assert(width * height <= nv12@.len()) by (nonlinear_arith)
            requires nv12@.len() == (width * height * 3) / 2;
        assert((height - 1) * width + width == width * height) by (nonlinear_arith)
            requires height >= 1;
        assert(width * height + (height / 2 - 1) * width + width <= nv12@.len()) by (nonlinear_arith)
            requires nv12@.len() == (width * height * 3) / 2, height % 2 == 0, height >= 2;
    }
    let split = width * height;
    let luma = &nv12[0..split];
    let chroma = &nv12[split..nv12.len()];
    proof {
        let hh = (height / 2) as int;
        if surface_check(Some(scan), pitch, width as int, height as int, y_plane_bytes as int) is Ok {
            assert(width <= pitch_bytes);
            assert(pitch_bytes * (hh - 1) + width <= pitch_bytes * hh) by (nonlinear_arith)
                requires width <= pitch_bytes, hh >= 1;
            assert(pitch_bytes * (hh - 1) <= pitch_bytes * hh) by (nonlinear_arith)
                requires hh >= 1;
            assert(required_surface_len(pitch as int, width as int, hh) == pitch_bytes * (hh - 1) + width);
            assert(surface_check(Some(y_plane_bytes), pitch, width as int, hh, uv_plane_bytes as int) is Ok);
        }
    }
    let ghost before = surface@;
    copy_rows_to_surface(luma, width, surface, Some(scan), pitch, width, height, y_plane_bytes)?;
    proof {
        lemma_copied_rows_len(before, luma@, width as int, scan as int, pitch as int, width as int, height as nat);
        let w = width as int;
        let hh = (height / 2) as int;
        if hh > 0 {
            assert(y_plane_bytes + (hh - 1) * pitch_bytes + width <= y_plane_bytes + uv_plane_bytes)
                by (nonlinear_arith)
                requires uv_plane_bytes == pitch_bytes * hh, width <= pitch_bytes, hh >= 1;
        }
    }
    copy_rows_to_surface(chroma, width, surface, Some(y_plane_bytes), pitch, width, height / 2, uv_plane_bytes)
}

} // verus!
