use vstd::prelude::*;
use vstd::arithmetic::div_mod::lemma_fundamental_div_mod_converse;

use crate::bmp::spec_bmp_file;
use crate::decimal::{digit_char, lemma_decimal_digit_value, lemma_decimal_len_u64, pow10, spec_decimal};
use crate::demo::{counter_hit, glyph_bit, glyph_hit, spec_digit_pattern};
use crate::cli::{default_stream_options, spec_parse_stream, spec_parse_u32, StreamOptions};
use crate::media::{spec_media_type_values, FrameLayout};
use crate::test_pattern::{in_box, on_guide, pattern_pixel};
use crate::video_format::{format_check, spec_bgra_frame_bytes, VideoFormat};

verus! {

/// The unsigned little-endian value of the four bytes of `b` at `at`.
pub open spec fn le32_at(b: Seq<u8>, at: int) -> int {
    b[at] + 256 * b[at + 1] + 0x1_0000 * b[at + 2] + 0x100_0000 * b[at + 3]
}

/// The unsigned little-endian value of the two bytes of `b` at `at`.
pub open spec fn le16_at(b: Seq<u8>, at: int) -> int {
    b[at] + 256 * b[at + 1]
}

proof fn lemma_split_u64(v: u64, high: u32, low: u32)
    requires
        v == high * 0x1_0000_0000 + low,
    ensures
        v / 0x1_0000_0000 == high,
        v % 0x1_0000_0000 == low,
{
    lemma_fundamental_div_mod_converse(v as int, 0x1_0000_0000, high as int, low as int);
}

/// The media type's packed attributes split back into the format: the
/// frame size into width and height, the frame rate into numerator and
/// denominator, and the pixel aspect ratio into 1:1; the default stride is
/// `width * 4` bytes for RGB32 and `width` for NV12.
pub proof fn media_type_attributes_split_back(f: VideoFormat, layout: FrameLayout)
    ensures
        ({
            let v = spec_media_type_values(f, layout);
            &&& v.frame_size / 0x1_0000_0000 == f.width
            &&& v.frame_size % 0x1_0000_0000 == f.height
            &&& v.frame_rate / 0x1_0000_0000 == f.fps_num
            &&& v.frame_rate % 0x1_0000_0000 == f.fps_den
            &&& v.pixel_aspect_ratio / 0x1_0000_0000 == 1
            &&& v.pixel_aspect_ratio % 0x1_0000_0000 == 1
            &&& (layout == FrameLayout::Nv12 ==> v.default_stride == f.width)
            &&& (layout == FrameLayout::Rgb32 && f.width * 4 <= u32::MAX ==> v.default_stride == f.width * 4)
        }),
{
    let v = spec_media_type_values(f, layout);
    assert(f.width * 0x1_0000_0000 + f.height <= u64::MAX) by (nonlinear_arith)
        requires f.width <= u32::MAX, f.height <= u32::MAX;
    assert(f.fps_num * 0x1_0000_0000 + f.fps_den <= u64::MAX) by (nonlinear_arith)
        requires f.fps_num <= u32::MAX, f.fps_den <= u32::MAX;
    lemma_split_u64(v.frame_size, f.width, f.height);
    lemma_split_u64(v.frame_rate, f.fps_num, f.fps_den);
    lemma_split_u64(v.pixel_aspect_ratio, 1, 1);
}

/// The sample size is the size of one frame in the layout, and the bit
/// rate is the sample size times the frame rate numerator times eight,
/// whenever these fit in 32 bits.
pub proof fn media_type_sizes_follow_the_format(f: VideoFormat, layout: FrameLayout)
    ensures
        ({
            let v = spec_media_type_values(f, layout);
            let frame = if layout == FrameLayout::Rgb32 { f.width * 4 * f.height } else { f.width * f.height * 3 / 2 };
            &&& frame <= u32::MAX ==> v.sample_size == frame
            &&& frame * f.fps_num * 8 <= u32::MAX ==> v.avg_bitrate == frame * f.fps_num * 8
        }),
{
    let v = spec_media_type_values(f, layout);
    let frame = if layout == FrameLayout::Rgb32 { f.width * 4 * f.height } else { f.width * f.height * 3 / 2 };
    assert(frame >= 0) by (nonlinear_arith)
        requires frame == (if layout == FrameLayout::Rgb32 { f.width * 4 * f.height } else { f.width * f.height * 3 / 2 }),
            f.width >= 0, f.height >= 0;
    if frame <= u32::MAX {
        assert(v.sample_size == frame);
    }
    if frame * f.fps_num * 8 <= u32::MAX {
        if f.fps_num == 0 {
            assert(frame * f.fps_num * 8 == 0) by (nonlinear_arith)
                requires f.fps_num == 0;
            assert(v.sample_size * f.fps_num == 0) by (nonlinear_arith)
                requires f.fps_num == 0;
        } else {
            assert(frame <= u32::MAX) by (nonlinear_arith)
                requires frame * f.fps_num * 8 <= u32::MAX, frame >= 0, f.fps_num >= 1;
            assert(v.sample_size == frame);
            assert(frame * f.fps_num <= u32::MAX) by (nonlinear_arith)
                requires frame * f.fps_num * 8 <= u32::MAX, frame >= 0, f.fps_num >= 0;
            assert((frame * f.fps_num) * 8 == frame * f.fps_num * 8);
        }
    }
}

/// The bitmap headers describe the frame: the file starts with `BM`, its
/// size field is the file's length, the pixels start at byte 54 after a
/// 40-byte info header, and the little-endian width at byte 18 and height
/// at byte 22 are the frame's, with one plane of 32 bits per pixel and the
/// pixel byte count at byte 34.
pub proof fn bitmap_header_describes_the_frame(f: VideoFormat, bgra: Seq<u8>)
    requires
        54 + bgra.len() <= u32::MAX,
    ensures
        ({
            let b = spec_bmp_file(f, bgra);
            &&& b[0] == 0x42 && b[1] == 0x4d
            &&& le32_at(b, 2) == 54 + bgra.len()
            &&& le32_at(b, 10) == 54
            &&& le32_at(b, 14) == 40
            &&& le32_at(b, 18) == f.width
            &&& le32_at(b, 22) == f.height
            &&& le16_at(b, 26) == 1
            &&& le16_at(b, 28) == 32
            &&& le32_at(b, 30) == 0
            &&& le32_at(b, 34) == bgra.len()
        }),
{
    let w = f.width;
    let h = f.height;
    let n = bgra.len() as u32;
    let size = (54 + n) as u32;
    assert(w % 256 + 256 * ((w / 256) % 256) + 0x1_0000 * ((w / 0x1_0000) % 256) + 0x100_0000 * (w / 0x100_0000) == w)
        by (bit_vector);
    assert(h % 256 + 256 * ((h / 256) % 256) + 0x1_0000 * ((h / 0x1_0000) % 256) + 0x100_0000 * (h / 0x100_0000) == h)
        by (bit_vector);
    assert(n % 256 + 256 * ((n / 256) % 256) + 0x1_0000 * ((n / 0x1_0000) % 256) + 0x100_0000 * (n / 0x100_0000) == n)
        by (bit_vector);
    assert(size % 256 + 256 * ((size / 256) % 256) + 0x1_0000 * ((size / 0x1_0000) % 256)
        + 0x100_0000 * (size / 0x100_0000) == size) by (bit_vector);
}

/// Off the guides and the box, the static pattern shows eight bars across
/// its top two thirds, each an eighth of the width (at least one pixel)
/// and the last one running to the right edge: white, yellow, cyan, green,
/// magenta, red, blue and black, in BGRA; below them, a grey whose level
/// is the ramp level lowered by 16, floored at zero.
pub proof fn static_pattern_bars_in_order(f: VideoFormat, gradient: Seq<u8>, x: int, y: int)
    requires
        format_check(f) is Ok,
        0 <= x < f.width,
        0 <= y < f.height,
        !in_box(f, x, y),
        !on_guide(f, x, y),
    ensures
        ({
            let bar_w = if f.width / 8 >= 1 { f.width / 8 } else { 1 };
            let bar = x / (bar_w as int);
            let p = pattern_pixel(f, gradient, x, y);
            let top = y < f.height * 2 / 3;
            &&& top && bar == 0 ==> p == seq![255u8, 255, 255, 255]
            &&& top && bar == 1 ==> p == seq![0u8, 255, 255, 255]
            &&& top && bar == 2 ==> p == seq![255u8, 255, 0, 255]
            &&& top && bar == 3 ==> p == seq![0u8, 255, 0, 255]
            &&& top && bar == 4 ==> p == seq![255u8, 0, 255, 255]
            &&& top && bar == 5 ==> p == seq![0u8, 0, 255, 255]
            &&& top && bar == 6 ==> p == seq![255u8, 0, 0, 255]
            &&& top && bar >= 7 ==> p == seq![0u8, 0, 0, 255]
            &&& !top ==> p == seq![
                (if gradient[x] >= 16 { gradient[x] - 16 } else { 0 }) as u8,
                (if gradient[x] >= 16 { gradient[x] - 16 } else { 0 }) as u8,
                (if gradient[x] >= 16 { gradient[x] - 16 } else { 0 }) as u8,
                255u8,
            ]
        }),
{
}

/// Each option of the animated demo sets its own field and no other: given
/// alone with a valid number, it changes that field of the defaults
/// (1920 x 1080 at 60 frames a second for 10 seconds, no reset), and
/// `--force-reset` only sets the reset; given all together, each lands in
/// its own field.
pub proof fn stream_options_set_their_own_fields(
    a: Seq<char>,
    b: Seq<char>,
    c: Seq<char>,
    d: Seq<char>,
    na: u32,
    nb: u32,
    nc: u32,
    nd: u32,
)
    requires
        spec_parse_u32(a) == Ok::<u32, crate::cli::NumberError>(na),
        spec_parse_u32(b) == Ok::<u32, crate::cli::NumberError>(nb),
        spec_parse_u32(c) == Ok::<u32, crate::cli::NumberError>(nc),
        spec_parse_u32(d) == Ok::<u32, crate::cli::NumberError>(nd),
    ensures
        spec_parse_stream(seq!["--width"@, a], 0, default_stream_options()) == Ok::<StreamOptions, crate::cli::CliError>(
            StreamOptions { width: na, height: 1080, fps: 60, duration_seconds: 10, force_reset: false }),
        spec_parse_stream(seq!["--height"@, a], 0, default_stream_options()) == Ok::<StreamOptions, crate::cli::CliError>(
            StreamOptions { width: 1920, height: na, fps: 60, duration_seconds: 10, force_reset: false }),
        spec_parse_stream(seq!["--fps"@, a], 0, default_stream_options()) == Ok::<StreamOptions, crate::cli::CliError>(
            StreamOptions { width: 1920, height: 1080, fps: na, duration_seconds: 10, force_reset: false }),
        spec_parse_stream(seq!["--duration-seconds"@, a], 0, default_stream_options())
            == Ok::<StreamOptions, crate::cli::CliError>(
            StreamOptions { width: 1920, height: 1080, fps: 60, duration_seconds: na, force_reset: false }),
        spec_parse_stream(seq!["--force-reset"@], 0, default_stream_options()) == Ok::<StreamOptions, crate::cli::CliError>(
            StreamOptions { width: 1920, height: 1080, fps: 60, duration_seconds: 10, force_reset: true }),
        spec_parse_stream(
            seq!["--duration-seconds"@, d, "--force-reset"@, "--fps"@, c, "--height"@, b, "--width"@, a],
            0,
            default_stream_options(),
        ) == Ok::<StreamOptions, crate::cli::CliError>(
            StreamOptions { width: na, height: nb, fps: nc, duration_seconds: nd, force_reset: true }),
{
    reveal_strlit("--width");
    reveal_strlit("--height");
    reveal_strlit("--fps");
    reveal_strlit("--duration-seconds");
    reveal_strlit("--force-reset");
    reveal_with_fuel(spec_parse_stream, 6);
}

/// The frame counter reads left to right, most significant digit first:
/// the glyph cell `(r, c)` of the `i`-th glyph from the left, a square of
/// `s` pixels at `(start_x + i * 4 * s + c * s, start_y + r * s)`, is lit
/// exactly when that cell is lit in the glyph of the decimal digit
/// `frame_id / 10^(len - 1 - i) % 10`. The glyphs sit `s` pixels apart,
/// with `s` the frame height over 180 (at least 2), and the block of
/// `len` glyphs ends 16 pixels in from the right and bottom edges.
pub proof fn counter_reads_most_significant_first(
    width: int,
    height: int,
    frame_id: u64,
    i: int,
    r: int,
    c: int,
    dx: int,
    dy: int,
)
    requires
        width >= 0,
        height >= 0,
        0 <= i < spec_decimal(frame_id as nat).len(),
        0 <= r < 5,
        0 <= c < 3,
        0 <= dx < (if height / 180 >= 2 { height / 180 } else { 2 }),
        0 <= dy < (if height / 180 >= 2 { height / 180 } else { 2 }),
    ensures
        ({
            let len = spec_decimal(frame_id as nat).len() as int;
            let s = if height / 180 >= 2 { height / 180 } else { 2 };
            let start_x = if width >= len * 4 * s + 16 { width - (len * 4 * s + 16) } else { 0 };
            let start_y = if height >= 6 * s + 16 { height - (6 * s + 16) } else { 0 };
            let digit = ((frame_id as nat / pow10((len - 1 - i) as nat)) % 10) as u8;
            counter_hit(width, height, frame_id, start_x + i * 4 * s + c * s + dx, start_y + r * s + dy)
                == glyph_bit(spec_digit_pattern(digit_char(digit))->Some_0[r], c)
        }),
{
    let ds = spec_decimal(frame_id as nat);
    let len = ds.len() as int;
    let s = if height / 180 >= 2 { height / 180 } else { 2 };
    let start_x = if width >= len * 4 * s + 16 { width - (len * 4 * s + 16) } else { 0 };
    let start_y = if height >= 6 * s + 16 { height - (6 * s + 16) } else { 0 };
    let px = start_x + i * 4 * s + c * s + dx;
    let py = start_y + r * s + dy;
    lemma_decimal_len_u64(frame_id);
    lemma_decimal_digit_value(frame_id as nat, i);
    let digit = ((frame_id as nat / pow10((len - 1 - i) as nat)) % 10) as u8;
    assert(ds[i] == digit);
    let x0 = start_x + i * 4 * s;
    lemma_fundamental_div_mod_converse(c * s + dx, s, c, dx);
    lemma_fundamental_div_mod_converse(r * s + dy, s, r, dy);
    assert(px - x0 == c * s + dx);
    assert(py - start_y == r * s + dy);
    assert(c * s >= 0) by (nonlinear_arith) requires c >= 0, s >= 0;
    assert(r * s >= 0) by (nonlinear_arith) requires r >= 0, s >= 0;
    let p = spec_digit_pattern(digit_char(ds[i]))->Some_0;
    assert(glyph_hit(p, x0, start_y, s, px, py) == glyph_bit(p[r], c));
    let hit = counter_hit(width, height, frame_id, px, py);
    if glyph_bit(p[r], c) {
        assert(glyph_hit(spec_digit_pattern(digit_char(ds[i]))->Some_0, start_x + i * 4 * s, start_y, s, px, py));
        assert(hit);
    }
    if hit {
        let j = choose|j: int| 0 <= j < len && #[trigger] glyph_hit(
            spec_digit_pattern(digit_char(ds[j]))->Some_0, start_x + j * 4 * s, start_y, s, px, py);
        if j < i {
            assert(px - (start_x + j * 4 * s) >= 4 * s) by (nonlinear_arith)
                requires px == start_x + i * 4 * s + c * s + dx, j < i, c * s >= 0, dx >= 0, s >= 0;
            assert((px - (start_x + j * 4 * s)) / s >= 4) by (nonlinear_arith)
                requires px - (start_x + j * 4 * s) >= 4 * s, s >= 1;
            assert(false);
        } else if j > i {
            assert(c * s + dx < 3 * s) by (nonlinear_arith) requires 0 <= c <= 2, dx < s, s >= 0;
            assert(px < start_x + j * 4 * s) by (nonlinear_arith)
                requires px == start_x + i * 4 * s + c * s + dx, j >= i + 1, c * s + dx < 3 * s, s >= 0;
            assert(false);
        }
        assert(glyph_bit(p[r], c));
    }
}

} // verus!
