use vstd::prelude::*;

use crate::bmp::{flipped_rows, spec_bmp_file};
use crate::demo::anim_pixel;
use crate::test_pattern::{frame_matches, lemma_frame_determined, lemma_frame_opaque, pattern_pixel};
use crate::cli::{spec_parse_subtype, spec_subtype_id, spec_subtype_label, spec_subtype_of_id, FrameSubtype};
use crate::error::VcamError;
use crate::media::{
    active_check, sample_check, shut_down, spec_pack, spec_sample_time, with_stream_state, StreamShared,
    STREAM_STATE_RUNNING, STREAM_STATE_STOPPED,
};
use crate::paths::{spec_clsid_path, spec_inproc_path};
use crate::surface::{abs, copied_rows, lemma_copied_rows_len, lemma_row_in_bounds, row_dest, rows_in_bounds};
use crate::video_format::{
    format_check, spec_bgra_frame_bytes, spec_bgra_stride, spec_nv12_frame_bytes, VideoFormat,
};

verus! {

/// A live stream that was started answers sample requests, and reads back
/// as running.
pub proof fn started_stream_serves_samples(s: StreamShared)
    requires
        active_check(s) is Ok,
    ensures
        active_check(with_stream_state(s, STREAM_STATE_RUNNING)) is Ok,
        with_stream_state(s, STREAM_STATE_RUNNING).stream_state == STREAM_STATE_RUNNING,
        sample_check(with_stream_state(s, STREAM_STATE_RUNNING)) is Ok,
{
}

/// A live stream that was stopped refuses sample requests as invalid.
pub proof fn stopped_stream_refuses_samples(s: StreamShared)
    requires
        active_check(s) is Ok,
    ensures
        sample_check(with_stream_state(s, STREAM_STATE_STOPPED)) == Err::<(), VcamError>(VcamError::InvalidRequest),
{
}

/// Shutdown is final: a second shutdown changes nothing, and the stream
/// then refuses every request with `Shutdown`, whatever its raw state.
pub proof fn stream_shutdown_is_final(s: StreamShared, state: i32)
    ensures
        shut_down(shut_down(s)) == shut_down(s),
        active_check(shut_down(s)) == Err::<(), VcamError>(VcamError::Shutdown),
        sample_check(shut_down(s)) == Err::<(), VcamError>(VcamError::Shutdown),
        shut_down(with_stream_state(shut_down(s), state)).shutdown,
{
}

/// Each subtype label parses back to its subtype.
pub proof fn subtype_label_round_trip(t: FrameSubtype)
    ensures
        spec_parse_subtype(spec_subtype_label(t)) == Some(t),
{
    reveal_strlit("rgb32");
    reveal_strlit("nv12");
    assert("nv12"@ != "rgb32"@) by {
        assert("nv12"@.len() != "rgb32"@.len());
    }
}

/// Each subtype's media identifier names that subtype again.
pub proof fn subtype_id_round_trip(t: FrameSubtype)
    ensures
        spec_subtype_of_id(spec_subtype_id(t)) == Some(t),
{
}

/// A packed pair splits back into its two halves, so packing is one to one.
pub proof fn packed_pair_splits_back(high: u32, low: u32)
    ensures
        spec_pack(high, low) as int / 0x1_0000_0000 == high,
        spec_pack(high, low) as int % 0x1_0000_0000 == low,
{
    assert(high as int * 0x1_0000_0000 + low as int <= u64::MAX) by (nonlinear_arith)
        requires high <= u32::MAX, low <= u32::MAX;
    let v = high as int * 0x1_0000_0000 + low as int;
    assert(v / 0x1_0000_0000 == high && v % 0x1_0000_0000 == low) by (nonlinear_arith)
        requires v == high as int * 0x1_0000_0000 + low as int, 0 <= low < 0x1_0000_0000;
}

/// Removing a class's key removes its server key with it: the server key
/// lies under the class key.
pub proof fn unregistration_covers_registration(clsid: Seq<char>)
    ensures
        spec_clsid_path(clsid).is_prefix_of(spec_inproc_path(clsid)),
{
    assert(spec_inproc_path(clsid).subrange(0, spec_clsid_path(clsid).len() as int) =~= spec_clsid_path(clsid));
}

/// An NV12 frame of a valid format holds three eighths of the bytes of the
/// BGRA frame.
pub proof fn nv12_is_three_eighths_of_bgra(f: VideoFormat)
    requires
        format_check(f) is Ok,
    ensures
        spec_nv12_frame_bytes(f) * 8 == spec_bgra_frame_bytes(f) * 3,
{
    let w = f.width as int;
    let h = f.height as int;
    let half = w / 2;
    assert(w == 2 * half);
    assert(w * h * 3 == 2 * (half * h * 3)) by (nonlinear_arith)
        requires w == 2 * half;
    assert((w * h * 3) / 2 == half * h * 3);
    assert(half * h * 3 * 8 == w * 4 * h * 3) by (nonlinear_arith)
        requires w == 2 * half;
}

proof fn lemma_flipped_row_bytes(src: Seq<u8>, stride: int, lo: int, hi: int, j: int, k: int)
    requires
        0 <= lo <= hi,
        stride > 0,
        stride * hi <= src.len(),
        0 <= j < hi - lo,
        0 <= k < stride,
    ensures
        j * stride + k < flipped_rows(src, stride, lo, hi).len(),
        flipped_rows(src, stride, lo, hi)[j * stride + k] == src[(hi - 1 - j) * stride + k],
    decreases hi - lo,
{
    crate::bmp::lemma_flipped_rows_len(src, stride, lo, hi);
    crate::bmp::lemma_flipped_rows_len(src, stride, lo + 1, hi);
    assert(lo * stride + stride <= stride * hi) by (nonlinear_arith)
        requires lo < hi, stride > 0;
    let first = flipped_rows(src, stride, lo + 1, hi);
    assert(j * stride + k < stride * (hi - lo)) by (nonlinear_arith)
        requires 0 <= j < hi - lo, 0 <= k < stride;
    if j < hi - lo - 1 {
        lemma_flipped_row_bytes(src, stride, lo + 1, hi, j, k);
        assert(j * stride + k < stride * (hi - (lo + 1))) by (nonlinear_arith)
            requires 0 <= j < hi - lo - 1, 0 <= k < stride;
    } else {
        assert(j * stride + k - stride * (hi - (lo + 1)) == k) by (nonlinear_arith)
            requires j == hi - lo - 1;
        assert(hi - 1 - j == lo);
    }
}

/// The bitmap stores the frame bottom-up: byte `k` of bitmap row `y` is
/// byte `k` of frame row `height - 1 - y`.
pub proof fn bitmap_rows_are_bottom_up(f: VideoFormat, bgra: Seq<u8>, y: int, k: int)
    requires
        f.width > 0,
        bgra.len() == spec_bgra_frame_bytes(f),
        0 <= y < f.height,
        0 <= k < spec_bgra_stride(f),
    ensures
        54 + y * spec_bgra_stride(f) + k < spec_bmp_file(f, bgra).len(),
        spec_bmp_file(f, bgra)[54 + y * spec_bgra_stride(f) + k]
            == bgra[(f.height - 1 - y) * spec_bgra_stride(f) + k],
{
    let stride = spec_bgra_stride(f);
    assert(stride * f.height == bgra.len()) by (nonlinear_arith)
        requires stride == f.width * 4, bgra.len() == f.width * 4 * f.height;
    lemma_flipped_row_bytes(bgra, stride, 0, f.height as int, y, k);
    let header = crate::bmp::bmp_header(f.width, f.height, bgra.len() as u32);
    assert(header.len() == 54);
}

/// Each source row lands where the pitch puts it: once `rows` rows are
/// copied to a surface whose pitch is at least a row long, the `row_bytes`
/// bytes at `offset + r * pitch` are row `r` of the source, whether the
/// surface runs downward or upward.
pub proof fn copied_rows_land_at_their_pitch(
    dst: Seq<u8>,
    src: Seq<u8>,
    src_stride: int,
    offset: int,
    pitch: int,
    row_bytes: int,
    rows: nat,
    r: int,
)
    requires
        rows_in_bounds(dst.len() as int, offset, pitch, row_bytes, rows as int),
        0 <= row_bytes,
        0 <= src_stride,
        abs(pitch) >= row_bytes,
        (rows - 1) * src_stride + row_bytes <= src.len(),
        0 <= r < rows,
    ensures
        copied_rows(dst, src, src_stride, offset, pitch, row_bytes, rows).subrange(
            row_dest(offset, pitch, r),
            row_dest(offset, pitch, r) + row_bytes,
        ) == src.subrange(r * src_stride, r * src_stride + row_bytes),
    decreases rows,
{
    let k = rows - 1;
    let len = dst.len() as int;
    lemma_row_in_bounds(len, offset, pitch, row_bytes, rows as int, k);
    lemma_row_in_bounds(len, offset, pitch, row_bytes, rows as int, r);
    assert(r * src_stride + row_bytes <= src.len()) by (nonlinear_arith)
        requires 0 <= r <= rows - 1, (rows - 1) * src_stride + row_bytes <= src.len(), src_stride >= 0;
    assert(k * src_stride + row_bytes <= src.len());
    let prev_rows = k as nat;
    if k > 0 {
        lemma_row_in_bounds(len, offset, pitch, row_bytes, rows as int, k - 1);
        lemma_row_in_bounds(len, offset, pitch, row_bytes, rows as int, 0);
        assert(rows_in_bounds(len, offset, pitch, row_bytes, k as int));
        assert((k - 1) * src_stride + row_bytes <= src.len()) by (nonlinear_arith)
            requires k - 1 <= rows - 1, (rows - 1) * src_stride + row_bytes <= src.len(), src_stride >= 0;
    }
    lemma_copied_rows_len(dst, src, src_stride, offset, pitch, row_bytes, prev_rows);
    let prev = copied_rows(dst, src, src_stride, offset, pitch, row_bytes, prev_rows);
    let dk = row_dest(offset, pitch, k);
    let dr = row_dest(offset, pitch, r);
    let row_k = src.subrange(k * src_stride, k * src_stride + row_bytes);
    let cur = copied_rows(dst, src, src_stride, offset, pitch, row_bytes, rows);
    assert(cur == crate::feed_session::spliced(prev, dk, row_k));
    if r == k {
        assert(cur.subrange(dr, dr + row_bytes) =~= row_k);
    } else {
        assert(dr + row_bytes <= dk || dk + row_bytes <= dr) by (nonlinear_arith)
            requires
                dr == offset + r * pitch,
                dk == offset + k * pitch,
                0 <= r < k,
                abs(pitch) >= row_bytes,
                abs(pitch) == (if pitch < 0 { -pitch } else { pitch }),
        {
            if pitch >= 0 {
                assert(k * pitch - r * pitch == (k - r) * pitch);
                assert((k - r) * pitch >= pitch);
            } else {
                assert(r * pitch - k * pitch == (k - r) * (-pitch));
                assert((k - r) * (-pitch) >= -pitch);
            }
        }
        copied_rows_land_at_their_pitch(dst, src, src_stride, offset, pitch, row_bytes, prev_rows, r);
        assert(cur.subrange(dr, dr + row_bytes) =~= prev.subrange(dr, dr + row_bytes));
    }
}

/// While the feed is live, a sample is stamped with the timestamp of the
/// feed frame it carries; a frame of the static pattern, which has none,
/// is stamped with the system clock.
pub proof fn samples_carry_the_feed_timestamp(frame_timestamp: i64, system_time_100ns: i64)
    ensures
        spec_sample_time(Some(frame_timestamp), system_time_100ns) == frame_timestamp,
        spec_sample_time(None, system_time_100ns) == system_time_100ns,
{
}

/// The static test pattern is opaque: the alpha byte of every pixel is 255.
pub proof fn static_pattern_is_opaque(f: VideoFormat, gradient: Seq<u8>, bgra: Seq<u8>)
    requires
        format_check(f) is Ok,
        bgra.len() == spec_bgra_frame_bytes(f),
        frame_matches(bgra, f, |x: int, y: int| pattern_pixel(f, gradient, x, y)),
    ensures
        forall|i: int| 0 <= i < bgra.len() / 4 ==> #[trigger] bgra[4 * i + 3] == 255,
{
    let color = |x: int, y: int| pattern_pixel(f, gradient, x, y);
    assert forall|x: int, y: int| 0 <= x < f.width && 0 <= y < f.height implies (#[trigger] color(x, y)).len() == 4
        && color(x, y)[3] == 255 by {}
    lemma_frame_opaque(bgra, f, color);
}

/// The static test pattern is fixed by its format and ramp levels alone:
/// any two renderings of it are equal byte for byte.
pub proof fn static_pattern_is_fixed(f: VideoFormat, gradient: Seq<u8>, a: Seq<u8>, b: Seq<u8>)
    requires
        format_check(f) is Ok,
        a.len() == spec_bgra_frame_bytes(f),
        b.len() == spec_bgra_frame_bytes(f),
        frame_matches(a, f, |x: int, y: int| pattern_pixel(f, gradient, x, y)),
        frame_matches(b, f, |x: int, y: int| pattern_pixel(f, gradient, x, y)),
    ensures
        a == b,
{
    lemma_frame_determined(a, b, f, |x: int, y: int| pattern_pixel(f, gradient, x, y));
}

/// Every frame of the animated feed is opaque: the alpha byte of every
/// pixel is 255.
pub proof fn animated_frame_is_opaque(f: VideoFormat, frame_id: u64, frame: Seq<u8>)
    requires
        format_check(f) is Ok,
        frame.len() == spec_bgra_frame_bytes(f),
        frame_matches(frame, f, |x: int, y: int| anim_pixel(f, frame_id, x, y)),
    ensures
        forall|i: int| 0 <= i < frame.len() / 4 ==> #[trigger] frame[4 * i + 3] == 255,
{
    let color = |x: int, y: int| anim_pixel(f, frame_id, x, y);
    assert forall|x: int, y: int| 0 <= x < f.width && 0 <= y < f.height implies (#[trigger] color(x, y)).len() == 4
        && color(x, y)[3] == 255 by {}
    lemma_frame_opaque(frame, f, color);
}

/// A frame of the animated feed depends on the format and the frame id
/// alone: two renderings of the same frame are equal byte for byte.
pub proof fn animated_frame_is_fixed(f: VideoFormat, frame_id: u64, a: Seq<u8>, b: Seq<u8>)
    requires
        format_check(f) is Ok,
        a.len() == spec_bgra_frame_bytes(f),
        b.len() == spec_bgra_frame_bytes(f),
        frame_matches(a, f, |x: int, y: int| anim_pixel(f, frame_id, x, y)),
        frame_matches(b, f, |x: int, y: int| anim_pixel(f, frame_id, x, y)),
    ensures
        a == b,
{
    lemma_frame_determined(a, b, f, |x: int, y: int| anim_pixel(f, frame_id, x, y));
}

} // verus!
