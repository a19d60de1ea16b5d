use vstd::prelude::*;

use crate::video_format::{format_fits, spec_bgra_frame_bytes, spec_bgra_stride, VideoFormat};

verus! {

/// Little-endian bytes of a 16-bit value.
pub open spec fn le16(x: u16) -> Seq<u8> {
    seq![(x % 256) as u8, (x / 256) as u8]
}

/// Little-endian bytes of a 32-bit value.
pub open spec fn le32(x: u32) -> Seq<u8> {
    seq![
        (x % 256) as u8,
        ((x / 256) % 256) as u8,
        ((x / 0x1_0000) % 256) as u8,
        (x / 0x100_0000) as u8,
    ]
}

/// Bytes of the file header and the 40-byte info header of a 32-bit
/// uncompressed bitmap of `width` x `height` pixels with `pixel_bytes` bytes
/// of pixel data.
pub open spec fn bmp_header(width: u32, height: u32, pixel_bytes: u32) -> Seq<u8> {
    seq![0x42u8, 0x4du8] + le32((54 + pixel_bytes) as u32) + le16(0) + le16(0) + le32(54)
        + le32(40) + le32(width) + le32(height) + le16(1) + le16(32) + le32(0)
        + le32(pixel_bytes) + le32(2835) + le32(2835) + le32(0) + le32(0)
}

/// Rows `hi - 1` down to `lo` of `src`, each `stride` bytes long.
pub open spec fn flipped_rows(src: Seq<u8>, stride: int, lo: int, hi: int) -> Seq<u8>
    decreases hi - lo,
{
    if lo >= hi {
        Seq::<u8>::empty()
    } else {
        flipped_rows(src, stride, lo + 1, hi) + src.subrange(lo * stride, lo * stride + stride)
    }
}

/// The bitmap file of a BGRA frame: headers, then the rows bottom-up.
pub open spec fn spec_bmp_file(f: VideoFormat, bgra: Seq<u8>) -> Seq<u8> {
    bmp_header(f.width, f.height, bgra.len() as u32)
        + flipped_rows(bgra, spec_bgra_stride(f), 0, f.height as int)
}

fn push_le16(out: &mut Vec<u8>, x: u16)
    ensures
        final(out)@ == old(out)@ + le16(x),
{
    out.push((x % 256) as u8);
    out.push((x / 256) as u8);
    assert(final(out)@ =~= old(out)@ + le16(x));
}

fn push_le32(out: &mut Vec<u8>, x: u32)
    ensures
        final(out)@ == old(out)@ + le32(x),
{
    out.push((x % 256) as u8);
    out.push(((x / 256) % 256) as u8);
    out.push(((x / 0x1_0000) % 256) as u8);
    out.push((x / 0x100_0000) as u8);
    assert(final(out)@ =~= old(out)@ + le32(x));
}

/// Encodes a tightly packed BGRA frame as a 32-bit bitmap file.
pub fn bgra_to_bmp_bytes(format: VideoFormat, bgra: &[u8]) -> (out: Vec<u8>)
    requires
        format_fits(format),
        bgra@.len() == spec_bgra_frame_bytes(format),
        54 + bgra@.len() <= u32::MAX,
    ensures
        out@ == spec_bmp_file(format, bgra@),
        out@.len() == 54 + bgra@.len(),
{
    let file_header_size: u32 = 14;
    let dib_header_size: u32 = 40;
    let pixel_offset = file_header_size + dib_header_size;
    let file_size = pixel_offset + bgra.len() as u32;

    let mut out: Vec<u8> = Vec::with_capacity(file_size as usize);
    out.push(0x42u8);
    out.push(0x4du8);
    push_le32(&mut out, file_size);
    push_le16(&mut out, 0);
    push_le16(&mut out, 0);
    push_le32(&mut out, pixel_offset);
    push_le32(&mut out, dib_header_size);
    push_le32(&mut out, format.width);
    push_le32(&mut out, format.height);
    push_le16(&mut out, 1);
    push_le16(&mut out, 32);
    push_le32(&mut out, 0);
    push_le32(&mut out, bgra.len() as u32);
    push_le32(&mut out, 2835);
    push_le32(&mut out, 2835);
    push_le32(&mut out, 0);
    push_le32(&mut out, 0);
    let ghost header = out@;
    assert(header =~= bmp_header(format.width, format.height, bgra@.len() as u32));

    let row_bytes = format.bgra_stride();
    let mut row = format.height as usize;
    while row > 0
        invariant
            format_fits(format),
            bgra@.len() == spec_bgra_frame_bytes(format),
            row_bytes == spec_bgra_stride(format),
            row <= format.height,
            out@ == header + flipped_rows(bgra@, row_bytes as int, row as int, format.height as int),
        decreases row,
    {
        row = row - 1;
        assert(row * row_bytes + row_bytes <= row_bytes * format.height) by (nonlinear_arith)
            requires row < format.height;
        assert(row_bytes * format.height == spec_bgra_frame_bytes(format)) by (nonlinear_arith)
            requires row_bytes == format.width * 4;
        let start = row * row_bytes;
        let end = start + row_bytes;
        out.extend_from_slice(&bgra[start..end]);
        assert(out@ =~= header + flipped_rows(bgra@, row_bytes as int, row as int, format.height as int));
    }
    proof {
        lemma_flipped_rows_len(bgra@, row_bytes as int, 0, format.height as int);
        assert(row_bytes * format.height == spec_bgra_frame_bytes(format)) by (nonlinear_arith)
            requires row_bytes == format.width * 4;
    }
    out
}

pub proof fn lemma_flipped_rows_len(src: Seq<u8>, stride: int, lo: int, hi: int)
    requires
        0 <= lo <= hi,
        stride >= 0,
        stride * hi <= src.len(),
    ensures
        flipped_rows(src, stride, lo, hi).len() == stride * (hi - lo),
    decreases hi - lo,
{
    if lo < hi {
        assert(lo * stride + stride <= stride * hi) by (nonlinear_arith)
            requires lo < hi, stride >= 0;
        lemma_flipped_rows_len(src, stride, lo + 1, hi);
        assert(stride * (hi - (lo + 1)) + stride == stride * (hi - lo)) by (nonlinear_arith);
    } else {
        assert(stride * (hi - lo) == 0) by (nonlinear_arith)
            requires lo == hi;
    }
}

} // verus!
