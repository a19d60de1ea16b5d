use vstd::prelude::*;

use crate::bmp::{bgra_to_bmp_bytes, spec_bmp_file};
use crate::error::VcamError;
use crate::feed_session::{copy_bytes, spliced};
use crate::surface::{
    bgra_surface_check, copied_rows, copy_bgra_to_surface, copy_nv12_to_surface, nv12_surface_after,
    nv12_surface_check, rows_in_bounds, validate_bgra_frame, bgra_frame_check,
};
use crate::video_format::{
    format_check, format_fits, spec_bgra_frame_bytes, spec_bgra_stride, spec_default_format, spec_nv12_frame_bytes,
    VideoFormat,
};

verus! {

/// Index of pixel `(x, y)` in a frame `w` pixels wide.
pub open spec fn pixel_index(w: int, x: int, y: int) -> int {
    y * w + x
}

/// The four bytes of pixel `(x, y)` of a BGRA frame `w` pixels wide.
pub open spec fn pixel(buf: Seq<u8>, w: int, x: int, y: int) -> Seq<u8> {
    buf.subrange(4 * pixel_index(w, x, y), 4 * pixel_index(w, x, y) + 4)
}

pub open spec fn bgra(b: u8, g: u8, r: u8, a: u8) -> Seq<u8> {
    seq![b, g, r, a]
}

/// The eight colour bars, left to right: white, yellow, cyan, green,
/// magenta, red, blue, black.
pub open spec fn bar_color(i: int) -> Seq<u8> {
    if i == 0 {
        bgra(255, 255, 255, 255)
    } else if i == 1 {
        bgra(0, 255, 255, 255)
    } else if i == 2 {
        bgra(255, 255, 0, 255)
    } else if i == 3 {
        bgra(0, 255, 0, 255)
    } else if i == 4 {
        bgra(255, 0, 255, 255)
    } else if i == 5 {
        bgra(0, 0, 255, 255)
    } else if i == 6 {
        bgra(255, 0, 0, 255)
    } else {
        bgra(0, 0, 0, 255)
    }
}

pub open spec fn sat_sub(a: int, b: int) -> int {
    if a >= b { a - b } else { 0 }
}

/// Width of one colour bar: an eighth of the frame, at least one pixel.
pub open spec fn spec_bar_width(w: int) -> int {
    if w / 8 >= 1 { w / 8 } else { 1 }
}

/// The background: colour bars over the top two thirds, then a grey ramp
/// whose level at column `x` is `gradient[x] - 16`, floored at zero.
pub open spec fn bars_pixel(f: VideoFormat, gradient: Seq<u8>, x: int, y: int) -> Seq<u8> {
    let w = f.width as int;
    let h = f.height as int;
    if y < h * 2 / 3 {
        let i = x / spec_bar_width(w);
        bar_color(if i < 7 { i } else { 7 })
    } else {
        let v = sat_sub(gradient[x] as int, 16) as u8;
        bgra(v, v, v, 255)
    }
}

/// Column of the falling diagonal in row `y`.
pub open spec fn diag_x(f: VideoFormat, y: int) -> int {
    y * (f.width as int) / (f.height as int)
}

/// Pixel `(x, y)` lies on the centre cross or on one of the two diagonals.
pub open spec fn on_guide(f: VideoFormat, x: int, y: int) -> bool {
    let w = f.width as int;
    ||| x == w / 2
    ||| x == diag_x(f, y)
    ||| x == sat_sub(w - 1, diag_x(f, y))
    ||| y == (f.height as int) / 2
}

pub open spec fn spec_box_w(f: VideoFormat) -> int {
    if f.width / 5 >= 8 { (f.width / 5) as int } else { 8 }
}

pub open spec fn spec_box_h(f: VideoFormat) -> int {
    if f.height / 8 >= 8 { (f.height / 8) as int } else { 8 }
}

pub open spec fn box_x0(f: VideoFormat) -> int {
    sat_sub((f.width / 2) as int, spec_box_w(f) / 2)
}

pub open spec fn box_y0(f: VideoFormat) -> int {
    sat_sub(f.height as int, spec_box_h(f) + 20)
}

pub open spec fn min(a: int, b: int) -> int {
    if a <= b { a } else { b }
}

/// Pixel `(x, y)` lies in the label box near the bottom centre.
pub open spec fn in_box(f: VideoFormat, x: int, y: int) -> bool {
    &&& box_x0(f) <= x < min(box_x0(f) + spec_box_w(f), f.width as int)
    &&& box_y0(f) <= y < min(box_y0(f) + spec_box_h(f), f.height as int)
}

pub open spec fn on_box_border(f: VideoFormat, x: int, y: int) -> bool {
    ||| x == box_x0(f)
    ||| x == min(box_x0(f) + spec_box_w(f) - 1, f.width - 1)
    ||| y == box_y0(f)
    ||| y == min(box_y0(f) + spec_box_h(f) - 1, f.height - 1)
}

/// The static test pattern: a white-bordered dark box, over dark-grey
/// guides, over the background.
pub open spec fn pattern_pixel(f: VideoFormat, gradient: Seq<u8>, x: int, y: int) -> Seq<u8> {
    if in_box(f, x, y) {
        if on_box_border(f, x, y) { bgra(255, 255, 255, 255) } else { bgra(24, 24, 24, 255) }
    } else if on_guide(f, x, y) {
        bgra(32, 32, 32, 255)
    } else {
        bars_pixel(f, gradient, x, y)
    }
}

/// Every pixel of `buf` satisfies `color`, as a frame of `f`.
pub open spec fn frame_matches(buf: Seq<u8>, f: VideoFormat, color: spec_fn(int, int) -> Seq<u8>) -> bool {
    forall|x: int, y: int|
        0 <= x < f.width && 0 <= y < f.height ==> #[trigger] pixel(buf, f.width as int, x, y) == color(x, y)
}

pub proof fn lemma_index_injective(w: int, x1: int, y1: int, x2: int, y2: int)
    requires
        0 <= x1 < w,
        0 <= x2 < w,
        0 <= y1,
        0 <= y2,
        pixel_index(w, x1, y1) == pixel_index(w, x2, y2),
    ensures
        x1 == x2,
        y1 == y2,
{
    if y1 < y2 {
        assert(y1 * w + w <= y2 * w) by (nonlinear_arith)
            requires y1 + 1 <= y2, w >= 0;
    } else if y2 < y1 {
        assert(y2 * w + w <= y1 * w) by (nonlinear_arith)
            requires y2 + 1 <= y1, w >= 0;
    }
}

pub proof fn lemma_index_in_frame(w: int, h: int, x: int, y: int)
    requires
        0 <= x < w,
        0 <= y < h,
    ensures
        0 <= pixel_index(w, x, y),
        4 * pixel_index(w, x, y) + 4 <= w * 4 * h,
{
    assert(y * w + x + 1 <= w * h) by (nonlinear_arith)
        requires 0 <= x < w, 0 <= y < h;
    assert(0 <= y * w) by (nonlinear_arith)
        requires 0 <= y, 0 <= w;
    assert(4 * (w * h) == w * 4 * h) by (nonlinear_arith);
}

/// A pixel inside a frame lies inside a buffer of the frame's size.
pub proof fn lemma_frame_holds_pixel(f: VideoFormat, x: int, y: int)
    ensures
        (0 <= x < f.width && 0 <= y < f.height) ==> 4 * pixel_index(f.width as int, x, y) + 4
            <= spec_bgra_frame_bytes(f),
{
    if 0 <= x < f.width && 0 <= y < f.height {
        lemma_index_in_frame(f.width as int, f.height as int, x, y);
    }
}

/// Writing pixel `(x0, y0)` changes that pixel and no other.
pub proof fn lemma_write_pixel(old_buf: Seq<u8>, w: int, h: int, x0: int, y0: int, c: Seq<u8>)
    requires
        0 <= x0 < w,
        0 <= y0 < h,
        c.len() == 4,
        old_buf.len() == w * 4 * h,
    ensures
        ({
            let new_buf = spliced(old_buf, 4 * pixel_index(w, x0, y0), c);
            &&& new_buf.len() == old_buf.len()
            &&& pixel(new_buf, w, x0, y0) == c
            &&& forall|x: int, y: int|
                0 <= x < w && 0 <= y < h && !(x == x0 && y == y0)
                    ==> #[trigger] pixel(new_buf, w, x, y) == pixel(old_buf, w, x, y)
        }),
{
    lemma_index_in_frame(w, h, x0, y0);
    let p0 = pixel_index(w, x0, y0);
    let new_buf = spliced(old_buf, 4 * p0, c);
    assert(pixel(new_buf, w, x0, y0) =~= c);
    assert forall|x: int, y: int|
        0 <= x < w && 0 <= y < h && !(x == x0 && y == y0)
            implies #[trigger] pixel(new_buf, w, x, y) == pixel(old_buf, w, x, y) by {
        lemma_index_in_frame(w, h, x, y);
        if pixel_index(w, x, y) == p0 {
            lemma_index_injective(w, x, y, x0, y0);
        }
        assert(pixel(new_buf, w, x, y) =~= pixel(old_buf, w, x, y));
    }
}

/// Byte `k` of a frame of `f` is byte `k % 4` of pixel
/// `((k / 4) % width, (k / 4) / width)`.
pub proof fn lemma_byte_in_pixel(f: VideoFormat, k: int)
    requires
        f.width > 0,
        0 <= k < spec_bgra_frame_bytes(f),
    ensures
        ({
            let w = f.width as int;
            let x = (k / 4) % w;
            let y = (k / 4) / w;
            &&& 0 <= x < w
            &&& 0 <= y < f.height
            &&& 4 * pixel_index(w, x, y) + k % 4 == k
        }),
{
    let w = f.width as int;
    let h = f.height as int;
    let p = k / 4;
    assert(p < w * h) by (nonlinear_arith)
        requires p == k / 4, 0 <= k < w * 4 * h;
    assert(p == (p / w) * w + p % w) by (nonlinear_arith)
        requires w > 0;
    assert(0 <= p % w < w) by (nonlinear_arith)
        requires w > 0;
    assert(0 <= p / w < h) by (nonlinear_arith)
        requires w > 0, 0 <= p < w * h;
    assert(4 * p + k % 4 == k) by (nonlinear_arith)
        requires p == k / 4, k >= 0;
}

/// A frame of `f` is fixed by the colour of each pixel: two buffers of the
/// frame's size that match the same colouring are equal.
pub proof fn lemma_frame_determined(a: Seq<u8>, b: Seq<u8>, f: VideoFormat, color: spec_fn(int, int) -> Seq<u8>)
    requires
        f.width > 0,
        a.len() == spec_bgra_frame_bytes(f),
        b.len() == spec_bgra_frame_bytes(f),
        frame_matches(a, f, color),
        frame_matches(b, f, color),
    ensures
        a == b,
{
    let w = f.width as int;
    assert forall|k: int| 0 <= k < a.len() implies a[k] == b[k] by {
        lemma_byte_in_pixel(f, k);
        let x = (k / 4) % w;
        let y = (k / 4) / w;
        let o = 4 * pixel_index(w, x, y);
        lemma_index_in_frame(w, f.height as int, x, y);
        assert(0 <= k % 4 < 4);
        assert(o + k % 4 == k);
        assert(pixel(a, w, x, y) == pixel(b, w, x, y));
        assert(a[k] == pixel(a, w, x, y)[k % 4]);
        assert(b[k] == pixel(b, w, x, y)[k % 4]);
    }
    assert(a =~= b);
}

/// Every pixel of a frame whose colouring is opaque has alpha 255.
pub proof fn lemma_frame_opaque(buf: Seq<u8>, f: VideoFormat, color: spec_fn(int, int) -> Seq<u8>)
    requires
        f.width > 0,
        buf.len() == spec_bgra_frame_bytes(f),
        frame_matches(buf, f, color),
        forall|x: int, y: int| 0 <= x < f.width && 0 <= y < f.height ==> (#[trigger] color(x, y)).len() == 4
            && color(x, y)[3] == 255,
    ensures
        forall|i: int| 0 <= i < buf.len() / 4 ==> #[trigger] buf[4 * i + 3] == 255,
{
    let w = f.width as int;
    assert forall|i: int| 0 <= i < buf.len() / 4 implies #[trigger] buf[4 * i + 3] == 255 by {
        let k = 4 * i + 3;
        assert(k < buf.len());
        lemma_byte_in_pixel(f, k);
        let x = (k / 4) % w;
        let y = (k / 4) / w;
        assert(k % 4 == 3);
        assert(pixel(buf, w, x, y) == color(x, y));
        assert(buf[k] == pixel(buf, w, x, y)[3]);
    }
}

/// Writes `color` to pixel `(x, y)` of a BGRA frame of `format`; a pixel
/// outside the frame is ignored.
pub fn set_pixel(buffer: &mut Vec<u8>, format: VideoFormat, x: usize, y: usize, color: [u8; 4])
    requires
        (x < format.width && y < format.height) ==> 4 * pixel_index(format.width as int, x as int, y as int) + 4
            <= old(buffer)@.len(),
    ensures
        (x < format.width && y < format.height) ==> final(buffer)@ == spliced(
            old(buffer)@, 4 * pixel_index(format.width as int, x as int, y as int), color@,
        ),
        !(x < format.width && y < format.height) ==> final(buffer)@ == old(buffer)@,
{
    let width = format.width as usize;
    let height = format.height as usize;
    if x >= width || y >= height {
        return;
    }
    let n = buffer.len();
    proof {
        assert(4 * (y * width + x) + 4 <= usize::MAX && y * width <= usize::MAX) by (nonlinear_arith)
            requires
                4 * (y * width + x) + 4 <= n,
                n <= usize::MAX,
                x >= 0;
    }
    let offset = (y * width + x) * 4;
    buffer.set(offset, color[0]);
    buffer.set(offset + 1, color[1]);
    buffer.set(offset + 2, color[2]);
    buffer.set(offset + 3, color[3]);
    assert(buffer@ =~= spliced(old(buffer)@, 4 * pixel_index(format.width as int, x as int, y as int), color@));
}

/// Colour bar `i`, the last bar for any larger index.
fn bar_color_at(i: usize) -> (c: [u8; 4])
    ensures
        c@ == bar_color(i as int),
{
    let c: [u8; 4] = if i == 0 {
        [255, 255, 255, 255]
    } else if i == 1 {
        [0, 255, 255, 255]
    } else if i == 2 {
        [255, 255, 0, 255]
    } else if i == 3 {
        [0, 255, 0, 255]
    } else if i == 4 {
        [255, 0, 255, 255]
    } else if i == 5 {
        [0, 0, 255, 255]
    } else if i == 6 {
        [255, 0, 0, 255]
    } else {
        [0, 0, 0, 255]
    };
    assert(c@ =~= bar_color(i as int));
    c
}

/// Pixels before `(x, y)` in row-major order match the background.
pub open spec fn bars_done(buf: Seq<u8>, f: VideoFormat, gradient: Seq<u8>, x: int, y: int) -> bool {
    forall|xx: int, yy: int|
        0 <= xx < f.width && 0 <= yy < f.height && (yy < y || (yy == y && xx < x))
            ==> #[trigger] pixel(buf, f.width as int, xx, yy) == bars_pixel(f, gradient, xx, yy)
}

/// Paints the background of the test pattern: eight colour bars over the
/// top two thirds, a grey ramp below. `gradient[x]` is the ramp level at
/// column `x` before the ramp is lowered by 16.
pub fn fill_color_bars(buffer: &mut Vec<u8>, format: VideoFormat, gradient: &[u8])
    requires
        format_check(format) is Ok,
        format_fits(format),
        old(buffer)@.len() == spec_bgra_frame_bytes(format),
        gradient@.len() == format.width,
    ensures
        final(buffer)@.len() == old(buffer)@.len(),
        frame_matches(final(buffer)@, format, |x: int, y: int| bars_pixel(format, gradient@, x, y)),
{
    let width = format.width as usize;
    let height = format.height as usize;
    let top_rows = (format.height as u64 * 2 / 3) as usize;
    let bar_width: usize = if width / 8 >= 1 { width / 8 } else { 1 };
    let mut y: usize = 0;
    while y < height
        invariant
            width == format.width,
            height == format.height,
            top_rows == height * 2 / 3,
            bar_width == spec_bar_width(width as int),
            gradient@.len() == width,
            y <= height,
            buffer@.len() == spec_bgra_frame_bytes(format),
            bars_done(buffer@, format, gradient@, 0, y as int),
        decreases height - y,
    {
        let mut x: usize = 0;
        while x < width
            invariant
                width == format.width,
                height == format.height,
                top_rows == height * 2 / 3,
                bar_width == spec_bar_width(width as int),
                gradient@.len() == width,
                y < height,
                x <= width,
                buffer@.len() == spec_bgra_frame_bytes(format),
                bars_done(buffer@, format, gradient@, x as int, y as int),
            decreases width - x,
        {
            let color: [u8; 4] = if y < top_rows {
                let i = x / bar_width;
                bar_color_at(if i < 7 { i } else { 7 })
            } else {
                let v = gradient[x].saturating_sub(16);
                [v, v, v, 255]
            };
            assert(color@ =~= bars_pixel(format, gradient@, x as int, y as int));
            let ghost before = buffer@;
            proof {
                lemma_write_pixel(before, width as int, height as int, x as int, y as int, color@);
            }
            proof { lemma_frame_holds_pixel(format, x as int, y as int); }
            set_pixel(buffer, format, x, y, color);
            x = x + 1;
        }
        y = y + 1;
    }
}

/// Writing one pixel of a frame that matches `color` gives a frame that
/// matches `color` with that one pixel replaced.
pub proof fn lemma_write_matches(
    buf: Seq<u8>,
    f: VideoFormat,
    color: spec_fn(int, int) -> Seq<u8>,
    x0: int,
    y0: int,
    c: Seq<u8>,
)
    requires
        frame_matches(buf, f, color),
        0 <= x0 < f.width,
        0 <= y0 < f.height,
        c.len() == 4,
        buf.len() == f.width * 4 * f.height,
    ensures
        spliced(buf, 4 * pixel_index(f.width as int, x0, y0), c).len() == buf.len(),
        frame_matches(
            spliced(buf, 4 * pixel_index(f.width as int, x0, y0), c),
            f,
            |x: int, y: int| if x == x0 && y == y0 { c } else { color(x, y) },
        ),
{
    lemma_write_pixel(buf, f.width as int, f.height as int, x0, y0, c);
}

pub open spec fn guide_color() -> Seq<u8> {
    bgra(32, 32, 32, 255)
}

/// Pixel `(x, y)` lies on the vertical centre line or a diagonal.
pub open spec fn on_slant_or_vertical(f: VideoFormat, x: int, y: int) -> bool {
    let w = f.width as int;
    ||| x == w / 2
    ||| x == diag_x(f, y)
    ||| x == sat_sub(w - 1, diag_x(f, y))
}

/// The frame once the vertical line and diagonals are drawn in rows
/// `0..rows` and the horizontal line in columns `0..cols`.
pub open spec fn guides_drawn(f: VideoFormat, base: Seq<u8>, rows: int, cols: int, x: int, y: int) -> Seq<u8> {
    if (y < rows && on_slant_or_vertical(f, x, y)) || (y == (f.height as int) / 2 && x < cols) {
        guide_color()
    } else {
        pixel(base, f.width as int, x, y)
    }
}

pub open spec fn box_color(f: VideoFormat, x: int, y: int) -> Seq<u8> {
    if on_box_border(f, x, y) { bgra(255, 255, 255, 255) } else { bgra(24, 24, 24, 255) }
}

/// The frame once the box is drawn up to `(bx, by)` in row-major order.
pub open spec fn box_drawn(f: VideoFormat, base: Seq<u8>, by: int, bx: int, x: int, y: int) -> Seq<u8> {
    if in_box(f, x, y) && (y < by || (y == by && x < bx)) {
        box_color(f, x, y)
    } else {
        guides_drawn(f, base, f.height as int, f.width as int, x, y)
    }
}

/// Pixel `(x, y)` of the frame `base` once the guides and the box are drawn
/// over it.
pub open spec fn overlay_pixel(f: VideoFormat, base: Seq<u8>, x: int, y: int) -> Seq<u8> {
    if in_box(f, x, y) {
        box_color(f, x, y)
    } else if on_guide(f, x, y) {
        guide_color()
    } else {
        pixel(base, f.width as int, x, y)
    }
}

proof fn lemma_diag_in_frame(f: VideoFormat, y: int)
    requires
        format_check(f) is Ok,
        0 <= y < f.height,
    ensures
        0 <= diag_x(f, y) < f.width,
        diag_x(f, y) * (f.height as int) <= y * (f.width as int),
{
    let w = f.width as int;
    let h = f.height as int;
    assert(y * w < h * w) by (nonlinear_arith)
        requires 0 <= y < h, w > 0;
    assert(0 <= y * w) by (nonlinear_arith)
        requires 0 <= y, w > 0;
    assert((y * w) / h < w) by (nonlinear_arith)
        requires 0 <= y * w < h * w, h > 0;
    assert(0 <= (y * w) / h) by (nonlinear_arith)
        requires 0 <= y * w, h > 0;
    assert(((y * w) / h) * h <= y * w) by (nonlinear_arith)
        requires 0 <= y * w, h > 0;
}

/// Draws the guides over the background: a vertical line through the
/// centre, the two diagonals, a horizontal line through the centre, and a
/// dark box with a white border near the bottom centre.
pub fn overlay_guides(buffer: &mut Vec<u8>, format: VideoFormat)
    requires
        format_check(format) is Ok,
        format_fits(format),
        old(buffer)@.len() == spec_bgra_frame_bytes(format),
    ensures
        final(buffer)@.len() == old(buffer)@.len(),
        frame_matches(final(buffer)@, format, |x: int, y: int| overlay_pixel(format, old(buffer)@, x, y)),
{
    let ghost g = buffer@;
    let width = format.width as usize;
    let height = format.height as usize;
    let center_x = width / 2;
    let center_y = height / 2;
    let guide: [u8; 4] = [32, 32, 32, 255];
    assert(guide@ =~= guide_color());
    proof {
        assert forall|x: int, y: int| 0 <= x < format.width && 0 <= y < format.height implies
            #[trigger] pixel(buffer@, format.width as int, x, y) == guides_drawn(format, g, 0, 0, x, y) by {
        }
    }

    let mut y: usize = 0;
    while y < height
        invariant
            format_check(format) is Ok,
            format_fits(format),
            width == format.width,
            height == format.height,
            center_x == width / 2,
            guide@ == guide_color(),
            y <= height,
            buffer@.len() == spec_bgra_frame_bytes(format),
            frame_matches(buffer@, format, |x: int, yy: int| guides_drawn(format, g, y as int, 0, x, yy)),
        decreases height - y,
    {
        proof {
            lemma_diag_in_frame(format, y as int);
            assert(y * width <= height * width) by (nonlinear_arith)
                requires y < height;
            assert(height * width <= width * 4 * height) by (nonlinear_arith);
        }
        let diag = y * width / height;
        let anti = width.saturating_sub(1).saturating_sub(diag);
        let ghost b0 = buffer@;
        let ghost f0 = |x: int, yy: int| guides_drawn(format, g, y as int, 0, x, yy);
        proof { lemma_write_matches(b0, format, f0, center_x as int, y as int, guide@); }
        proof { lemma_frame_holds_pixel(format, center_x as int, y as int); }
        set_pixel(buffer, format, center_x, y, guide);
        let ghost b1 = buffer@;
        let ghost f1 = |x: int, yy: int| if x == center_x && yy == y { guide@ } else { f0(x, yy) };
        proof { lemma_write_matches(b1, format, f1, diag as int, y as int, guide@); }
        proof { lemma_frame_holds_pixel(format, diag as int, y as int); }
        set_pixel(buffer, format, diag, y, guide);
        let ghost b2 = buffer@;
        let ghost f2 = |x: int, yy: int| if x == diag && yy == y { guide@ } else { f1(x, yy) };
        proof { lemma_write_matches(b2, format, f2, anti as int, y as int, guide@); }
        proof { lemma_frame_holds_pixel(format, anti as int, y as int); }
        set_pixel(buffer, format, anti, y, guide);
        let ghost f3 = |x: int, yy: int| if x == anti && yy == y { guide@ } else { f2(x, yy) };
        proof {
            assert forall|x: int, yy: int| 0 <= x < format.width && 0 <= yy < format.height implies
                #[trigger] pixel(buffer@, format.width as int, x, yy) == guides_drawn(format, g, y + 1, 0, x, yy) by {
                assert(pixel(buffer@, format.width as int, x, yy) == f3(x, yy));
            }
        }
        y = y + 1;
    }

    let mut x: usize = 0;
    while x < width
        invariant
            format_check(format) is Ok,
            format_fits(format),
            width == format.width,
            height == format.height,
            center_y == height / 2,
            guide@ == guide_color(),
            x <= width,
            buffer@.len() == spec_bgra_frame_bytes(format),
            frame_matches(buffer@, format, |xx: int, yy: int| guides_drawn(format, g, height as int, x as int, xx, yy)),
        decreases width - x,
    {
        let ghost b0 = buffer@;
        let ghost f0 = |xx: int, yy: int| guides_drawn(format, g, height as int, x as int, xx, yy);
        proof { lemma_write_matches(b0, format, f0, x as int, center_y as int, guide@); }
        proof { lemma_frame_holds_pixel(format, x as int, center_y as int); }
        set_pixel(buffer, format, x, center_y, guide);
        let ghost f1 = |xx: int, yy: int| if xx == x && yy == center_y { guide@ } else { f0(xx, yy) };
        proof {
            assert forall|xx: int, yy: int| 0 <= xx < format.width && 0 <= yy < format.height implies
                #[trigger] pixel(buffer@, format.width as int, xx, yy) == guides_drawn(format, g, height as int, x + 1, xx, yy) by {
                assert(pixel(buffer@, format.width as int, xx, yy) == f1(xx, yy));
            }
        }
        x = x + 1;
    }

    let box_w: usize = if width / 5 >= 8 { width / 5 } else { 8 };
    let box_h: usize = if height / 8 >= 8 { height / 8 } else { 8 };
    let start_x = center_x.saturating_sub(box_w / 2);
    let start_y = height.saturating_sub(box_h + 20);
    let end_x = if start_x + box_w <= width { start_x + box_w } else { width };
    let end_y = if start_y + box_h <= height { start_y + box_h } else { height };
    let last_x = if start_x + box_w - 1 <= width - 1 { start_x + box_w - 1 } else { width - 1 };
    let last_y = if start_y + box_h - 1 <= height - 1 { start_y + box_h - 1 } else { height - 1 };
    let white: [u8; 4] = [255, 255, 255, 255];
    let dark: [u8; 4] = [24, 24, 24, 255];
    proof {
        assert forall|xx: int, yy: int| 0 <= xx < format.width && 0 <= yy < format.height implies
            #[trigger] pixel(buffer@, format.width as int, xx, yy) == box_drawn(format, g, start_y as int, start_x as int, xx, yy) by {
            assert(pixel(buffer@, format.width as int, xx, yy) == guides_drawn(format, g, height as int, width as int, xx, yy));
        }
    }
    let mut by = start_y;
    while by < end_y
        invariant
            format_check(format) is Ok,
            format_fits(format),
            width == format.width,
            height == format.height,
            start_x == box_x0(format),
            start_y == box_y0(format),
            end_x == min(box_x0(format) + spec_box_w(format), format.width as int),
            end_y == min(box_y0(format) + spec_box_h(format), format.height as int),
            last_x == min(box_x0(format) + spec_box_w(format) - 1, format.width - 1),
            last_y == min(box_y0(format) + spec_box_h(format) - 1, format.height - 1),
            white@ == bgra(255, 255, 255, 255),
            dark@ == bgra(24, 24, 24, 255),
            start_y <= by <= end_y,
            buffer@.len() == spec_bgra_frame_bytes(format),
            frame_matches(buffer@, format, |xx: int, yy: int| box_drawn(format, g, by as int, start_x as int, xx, yy)),
        decreases end_y - by,
    {
        let mut bx = start_x;
        while bx < end_x
            invariant
                format_check(format) is Ok,
                format_fits(format),
                width == format.width,
                height == format.height,
                start_x == box_x0(format),
                start_y == box_y0(format),
                end_x == min(box_x0(format) + spec_box_w(format), format.width as int),
                end_y == min(box_y0(format) + spec_box_h(format), format.height as int),
                last_x == min(box_x0(format) + spec_box_w(format) - 1, format.width - 1),
                last_y == min(box_y0(format) + spec_box_h(format) - 1, format.height - 1),
                white@ == bgra(255, 255, 255, 255),
                dark@ == bgra(24, 24, 24, 255),
                start_y <= by < end_y,
                start_x <= bx <= end_x,
                buffer@.len() == spec_bgra_frame_bytes(format),
                frame_matches(buffer@, format, |xx: int, yy: int| box_drawn(format, g, by as int, bx as int, xx, yy)),
            decreases end_x - bx,
        {
            let border = bx == start_x || bx == last_x || by == start_y || by == last_y;
            let color = if border { white } else { dark };
            assert(color@ == box_color(format, bx as int, by as int));
            let ghost b0 = buffer@;
            let ghost f0 = |xx: int, yy: int| box_drawn(format, g, by as int, bx as int, xx, yy);
            proof { lemma_write_matches(b0, format, f0, bx as int, by as int, color@); }
            proof { lemma_frame_holds_pixel(format, bx as int, by as int); }
            set_pixel(buffer, format, bx, by, color);
            let ghost f1 = |xx: int, yy: int| if xx == bx && yy == by { color@ } else { f0(xx, yy) };
            proof {
                assert forall|xx: int, yy: int| 0 <= xx < format.width && 0 <= yy < format.height implies
                    #[trigger] pixel(buffer@, format.width as int, xx, yy) == box_drawn(format, g, by as int, bx + 1, xx, yy) by {
                    assert(pixel(buffer@, format.width as int, xx, yy) == f1(xx, yy));
                }
            }
            bx = bx + 1;
        }
        proof {
            assert forall|xx: int, yy: int| 0 <= xx < format.width && 0 <= yy < format.height implies
                #[trigger] pixel(buffer@, format.width as int, xx, yy) == box_drawn(format, g, by + 1, start_x as int, xx, yy) by {
                assert(pixel(buffer@, format.width as int, xx, yy) == box_drawn(format, g, by as int, end_x as int, xx, yy));
            }
        }
        by = by + 1;
    }
    proof {
        assert forall|xx: int, yy: int| 0 <= xx < format.width && 0 <= yy < format.height implies
            #[trigger] pixel(buffer@, format.width as int, xx, yy) == overlay_pixel(format, g, xx, yy) by {
            assert(pixel(buffer@, format.width as int, xx, yy) == box_drawn(format, g, end_y as int, start_x as int, xx, yy));
        }
    }
}

/// The static test pattern of one format, in BGRA and in NV12.
pub struct StaticTestPattern {
    format: VideoFormat,
    bgra: Vec<u8>,
    nv12: Vec<u8>,
    gradient: Ghost<Seq<u8>>,
}

impl StaticTestPattern {
    #[verifier::type_invariant]
    spec fn inv(self) -> bool {
        &&& format_check(self.format) is Ok
        &&& format_fits(self.format)
        &&& self.bgra@.len() == spec_bgra_frame_bytes(self.format)
        &&& self.nv12@.len() == spec_nv12_frame_bytes(self.format)
        &&& self.gradient@.len() == self.format.width
        &&& frame_matches(self.bgra@, self.format, |x: int, y: int| pattern_pixel(self.format, self.gradient@, x, y))
    }

    pub closed spec fn spec_format(&self) -> VideoFormat {
        self.format
    }

    pub closed spec fn spec_bgra(&self) -> Seq<u8> {
        self.bgra@
    }

    pub closed spec fn spec_nv12(&self) -> Seq<u8> {
        self.nv12@
    }

    /// The ramp levels the background was painted with.
    pub closed spec fn spec_gradient(&self) -> Seq<u8> {
        self.gradient@
    }

    /// The pattern in the default format.
    pub fn new<F: Fn(&[u8]) -> Vec<u8>>(gradient: &[u8], to_nv12: F) -> (p: Self)
        requires
            gradient@.len() == spec_default_format().width,
            forall|b: &[u8]| #[trigger] to_nv12.requires((b,)),
            forall|b: &[u8], v: Vec<u8>| b@.len() == spec_bgra_frame_bytes(spec_default_format())
                && #[trigger] to_nv12.ensures((b,), v) ==> v@.len() == spec_nv12_frame_bytes(spec_default_format()),
        ensures
            p.spec_format() == spec_default_format(),
            p.spec_gradient() == gradient@,
            p.spec_bgra().len() == spec_bgra_frame_bytes(spec_default_format()),
            p.spec_nv12().len() == spec_nv12_frame_bytes(spec_default_format()),
            p.spec_nv12() == p.nv12_value()@,
            frame_matches(p.spec_bgra(), spec_default_format(),
                |x: int, y: int| pattern_pixel(spec_default_format(), gradient@, x, y)),
            exists|b: &[u8]| b@ == p.spec_bgra() && #[trigger] to_nv12.ensures((b,), p.nv12_value()),
    {
        Self::with_format(VideoFormat::default(), gradient, to_nv12)
    }

    /// Renders the pattern for `format`: colour bars over the top two
    /// thirds and a grey ramp below (`gradient[x]` is the ramp level at
    /// column `x` before it is lowered by 16), a dark-grey centre cross and
    /// diagonals, and a white-bordered dark box near the bottom centre.
    /// `to_nv12` converts the BGRA frame to NV12.
    pub fn with_format<F: Fn(&[u8]) -> Vec<u8>>(format: VideoFormat, gradient: &[u8], to_nv12: F) -> (p: Self)
        requires
            format_check(format) is Ok,
            format_fits(format),
            gradient@.len() == format.width,
            forall|b: &[u8]| #[trigger] to_nv12.requires((b,)),
            forall|b: &[u8], v: Vec<u8>| b@.len() == spec_bgra_frame_bytes(format) && #[trigger] to_nv12.ensures((b,), v)
                ==> v@.len() == spec_nv12_frame_bytes(format),
        ensures
            p.spec_format() == format,
            p.spec_gradient() == gradient@,
            p.spec_bgra().len() == spec_bgra_frame_bytes(format),
            p.spec_nv12().len() == spec_nv12_frame_bytes(format),
            p.spec_nv12() == p.nv12_value()@,
            frame_matches(p.spec_bgra(), format, |x: int, y: int| pattern_pixel(format, gradient@, x, y)),
            exists|b: &[u8]| b@ == p.spec_bgra() && #[trigger] to_nv12.ensures((b,), p.nv12_value()),
    {
        let n = format.bgra_frame_bytes();
        let mut bgra: Vec<u8> = vec![0u8; n];
        fill_color_bars(&mut bgra, format, gradient);
        let ghost bars = bgra@;
        overlay_guides(&mut bgra, format);
        proof {
            assert forall|x: int, y: int| 0 <= x < format.width && 0 <= y < format.height implies
                #[trigger] pixel(bgra@, format.width as int, x, y) == pattern_pixel(format, gradient@, x, y) by {
                assert(pixel(bgra@, format.width as int, x, y) == overlay_pixel(format, bars, x, y));
                assert(pixel(bars, format.width as int, x, y) == bars_pixel(format, gradient@, x, y));
            }
        }
        let frame = bgra.as_slice();
        let nv12 = to_nv12(frame);
        let ghost frame_view = frame;
        let p = StaticTestPattern { format, bgra, nv12, gradient: Ghost(gradient@) };
        assert(frame_view@ == p.spec_bgra() && to_nv12.ensures((frame_view,), p.nv12_value()));
        p
    }

    /// The NV12 frame as the converter handed it back.
    pub closed spec fn nv12_value(&self) -> Vec<u8> {
        self.nv12
    }

    /// The NV12 bytes the pattern hands out are the converter's output that
    /// the constructors speak of.
    pub proof fn lemma_nv12_is_converted(&self)
        ensures
            self.spec_nv12() == self.nv12_value()@,
    {
    }

    pub fn format(&self) -> (f: VideoFormat)
        ensures
            f == self.spec_format(),
    {
        self.format
    }

    pub fn rgb32_bytes(&self) -> (b: &[u8])
        ensures
            b@ == self.spec_bgra(),
            b@.len() == spec_bgra_frame_bytes(self.spec_format()),
    {
        proof { use_type_invariant(self); }
        self.bgra.as_slice()
    }

    /// An owned copy of the BGRA frame.
    pub fn rgb32_arc(&self) -> (b: Vec<u8>)
        ensures
            b@ == self.spec_bgra(),
    {
        copy_bytes(self.bgra.as_slice())
    }

    pub fn nv12_bytes(&self) -> (b: &[u8])
        ensures
            b@ == self.spec_nv12(),
            b@.len() == spec_nv12_frame_bytes(self.spec_format()),
    {
        proof { use_type_invariant(self); }
        self.nv12.as_slice()
    }

    /// An owned copy of the NV12 frame.
    pub fn nv12_arc(&self) -> (b: Vec<u8>)
        ensures
            b@ == self.spec_nv12(),
    {
        copy_bytes(self.nv12.as_slice())
    }

    /// Copies the BGRA frame into a locked surface; see
    /// `copy_bgra_to_surface`.
    pub fn copy_to_rgb32_surface(
        &self,
        surface: &mut [u8],
        scanline: Option<usize>,
        pitch: i32,
        buffer_len: u32,
    ) -> (r: Result<(), VcamError>)
        requires
            bgra_surface_check(self.spec_format(), self.spec_bgra().len() as int, scanline, pitch, buffer_len) is Ok
                ==> rows_in_bounds(old(surface)@.len() as int, scanline->Some_0 as int, pitch as int,
                    spec_bgra_stride(self.spec_format()), self.spec_format().height as int),
        ensures
            r == bgra_surface_check(self.spec_format(), self.spec_bgra().len() as int, scanline, pitch, buffer_len),
            r is Err ==> final(surface)@ == old(surface)@,
            r is Ok ==> final(surface)@ == copied_rows(old(surface)@, self.spec_bgra(),
                spec_bgra_stride(self.spec_format()), scanline->Some_0 as int, pitch as int,
                spec_bgra_stride(self.spec_format()), self.spec_format().height as nat),
    {
        proof { use_type_invariant(self); }
        copy_bgra_to_surface(self.format, self.bgra.as_slice(), surface, scanline, pitch, buffer_len)
    }

    /// Copies the NV12 frame into a locked surface; see
    /// `copy_nv12_to_surface`.
    pub fn copy_to_nv12_surface(
        &self,
        surface: &mut [u8],
        scanline: Option<usize>,
        buffer_present: bool,
        pitch: i32,
        buffer_len: u32,
    ) -> (r: Result<(), VcamError>)
        requires
            old(surface)@.len() >= buffer_len,
            nv12_surface_check(self.spec_format(), self.spec_nv12().len() as int, scanline, buffer_present, pitch, buffer_len) is Ok
                ==> rows_in_bounds(old(surface)@.len() as int, scanline->Some_0 as int, pitch as int,
                    self.spec_format().width as int, self.spec_format().height as int),
        ensures
            r == nv12_surface_check(self.spec_format(), self.spec_nv12().len() as int, scanline, buffer_present, pitch, buffer_len),
            r is Err ==> final(surface)@ == old(surface)@,
            r is Ok ==> final(surface)@ == nv12_surface_after(self.spec_format(), self.spec_nv12(), old(surface)@,
                scanline->Some_0 as int, pitch as int),
    {
        proof { use_type_invariant(self); }
        copy_nv12_to_surface(self.format, self.nv12.as_slice(), surface, scanline, buffer_present, pitch, buffer_len)
    }

    /// The bitmap file of the BGRA frame.
    pub fn bmp_file(&self) -> (r: Result<Vec<u8>, VcamError>)
        requires
            54 + self.spec_bgra().len() <= u32::MAX,
        ensures
            r matches Ok(v) && v@ == spec_bmp_file(self.spec_format(), self.spec_bgra()),
    {
        proof { use_type_invariant(self); }
        bgra_bmp_for_format(self.format, self.bgra.as_slice())
    }
}

impl Clone for StaticTestPattern {
    /// A copy with the same format, ramp, and BGRA and NV12 frames.
    fn clone(&self) -> (r: Self)
        ensures
            r.spec_format() == self.spec_format(),
            r.spec_gradient() == self.spec_gradient(),
            r.spec_bgra() == self.spec_bgra(),
            r.spec_nv12() == self.spec_nv12(),
    {
        proof { use_type_invariant(self); }
        StaticTestPattern {
            format: self.format,
            bgra: copy_bytes(self.bgra.as_slice()),
            nv12: copy_bytes(self.nv12.as_slice()),
            gradient: Ghost(self.gradient@),
        }
    }
}

/// The bitmap file of a BGRA frame of `format`, once the frame is checked.
pub fn bgra_bmp_for_format(format: VideoFormat, bgra: &[u8]) -> (r: Result<Vec<u8>, VcamError>)
    requires
        format_check(format) is Ok ==> format_fits(format),
        bgra_frame_check(format, bgra@.len() as int) is Ok ==> 54 + bgra@.len() <= u32::MAX,
    ensures
        match bgra_frame_check(format, bgra@.len() as int) {
            Err(e) => r == Err::<Vec<u8>, VcamError>(e),
            Ok(()) => r matches Ok(v) && v@ == spec_bmp_file(format, bgra@),
        },
{
    validate_bgra_frame(format, bgra)?;
    Ok(bgra_to_bmp_bytes(format, bgra))
}

/// Checks that a dump path names something.
pub fn validate_dump_path(path: &str) -> (r: Result<(), VcamError>)
    ensures
        r is Ok <==> path@.len() != 0,
        r is Err ==> r == Err::<(), VcamError>(VcamError::DumpPathEmpty),
{
    if path.is_empty() {
        return Err(VcamError::DumpPathEmpty);
    }
    Ok(())
}

} // verus!
