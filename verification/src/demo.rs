use vstd::prelude::*;

use crate::decimal::{decimal_digits, digit_char, lemma_decimal_len_u64, spec_decimal};
use crate::feed_session::spliced;
use crate::test_pattern::{
    bgra, frame_matches, lemma_write_pixel, pixel,
    pixel_index,
};
use crate::video_format::{format_check, format_fits, spec_bgra_frame_bytes, VideoFormat};
use vstd::arithmetic::div_mod::{lemma_fundamental_div_mod, lemma_fundamental_div_mod_converse};

verus! {

/// Byte offset of pixel `(x, y)` in a frame whose rows are `stride` bytes
/// apart.
pub open spec fn px_offset(stride: int, x: int, y: int) -> int {
    y * stride + 4 * x
}

/// The four bytes of pixel `(x, y)`.
pub open spec fn px_bytes(buf: Seq<u8>, stride: int, x: int, y: int) -> Seq<u8> {
    buf.subrange(px_offset(stride, x, y), px_offset(stride, x, y) + 4)
}

/// Pixel `(x, y)` lies in the frame: a row holds `stride / 4` whole pixels
/// and a buffer of `len` bytes holds `len / stride` whole rows.
pub open spec fn in_grid(stride: int, len: int, x: int, y: int) -> bool {
    0 <= x < stride / 4 && 0 <= y < len / stride
}

/// Byte `k` belongs to no pixel: it lies past the last whole row or past
/// the last whole pixel of its row.
pub open spec fn off_grid(stride: int, len: int, k: int) -> bool {
    k >= (len / stride) * stride || k % stride >= 4 * (stride / 4)
}

/// A pixel of the frame lies inside the buffer, inside its row.
pub proof fn lemma_pixel_in_buffer(stride: int, len: int, x: int, y: int)
    requires
        stride > 0,
        len >= 0,
        in_grid(stride, len, x, y),
    ensures
        0 <= px_offset(stride, x, y),
        px_offset(stride, x, y) + 4 <= (y + 1) * stride,
        (y + 1) * stride <= (len / stride) * stride,
        (len / stride) * stride <= len,
        4 * x + 4 <= stride,
{
    let q = stride / 4;
    let rows = len / stride;
    assert(4 * q <= stride) by (nonlinear_arith)
        requires q == stride / 4, stride > 0;
    assert(4 * x + 4 <= stride) by (nonlinear_arith)
        requires 0 <= x < q, 4 * q <= stride;
    assert(0 <= y * stride) by (nonlinear_arith)
        requires y >= 0, stride > 0;
    assert((y + 1) * stride <= rows * stride) by (nonlinear_arith)
        requires y + 1 <= rows, stride > 0;
    assert(rows * stride <= len) by (nonlinear_arith)
        requires rows == len / stride, stride > 0, len >= 0;
    assert((y + 1) * stride == y * stride + stride) by (nonlinear_arith);
}

/// Two different pixels of the frame share no byte.
pub proof fn lemma_pixels_apart(stride: int, len: int, x1: int, y1: int, x2: int, y2: int)
    requires
        stride > 0,
        len >= 0,
        in_grid(stride, len, x1, y1),
        in_grid(stride, len, x2, y2),
        x1 != x2 || y1 != y2,
    ensures
        px_offset(stride, x1, y1) + 4 <= px_offset(stride, x2, y2)
            || px_offset(stride, x2, y2) + 4 <= px_offset(stride, x1, y1),
{
    lemma_pixel_in_buffer(stride, len, x1, y1);
    lemma_pixel_in_buffer(stride, len, x2, y2);
    if y1 < y2 {
        assert((y1 + 1) * stride <= y2 * stride) by (nonlinear_arith)
            requires y1 + 1 <= y2, stride > 0;
    } else if y2 < y1 {
        assert((y2 + 1) * stride <= y1 * stride) by (nonlinear_arith)
            requires y2 + 1 <= y1, stride > 0;
    }
}

/// The bytes of a pixel of the frame belong to that pixel's place.
pub proof fn lemma_pixel_bytes_on_grid(stride: int, len: int, x: int, y: int, j: int)
    requires
        stride > 0,
        len >= 0,
        in_grid(stride, len, x, y),
        0 <= j < 4,
    ensures
        !off_grid(stride, len, px_offset(stride, x, y) + j),
{
    lemma_pixel_in_buffer(stride, len, x, y);
    let q = stride / 4;
    assert(4 * q <= stride) by (nonlinear_arith)
        requires q == stride / 4, stride > 0;
    assert(4 * x + j < 4 * q) by (nonlinear_arith)
        requires 0 <= x < q, 0 <= j < 4;
    lemma_fundamental_div_mod_converse(y * stride + (4 * x + j), stride, y, 4 * x + j);
}

/// Writes `color` to pixel `(x, y)` of a frame with rows of `stride` bytes;
/// a pixel outside the frame is ignored.
pub fn set_pixel(frame: &mut Vec<u8>, stride: usize, x: usize, y: usize, color: [u8; 4])
    requires
        stride > 0,
    ensures
        in_grid(stride as int, old(frame)@.len() as int, x as int, y as int) ==> final(frame)@ == spliced(
            old(frame)@, px_offset(stride as int, x as int, y as int), color@),
        !in_grid(stride as int, old(frame)@.len() as int, x as int, y as int) ==> final(frame)@ == old(frame)@,
{
    let width = stride / 4;
    let height = frame.len() / stride;
    if x >= width || y >= height {
        return;
    }
    let n = frame.len();
    proof {
        lemma_pixel_in_buffer(stride as int, n as int, x as int, y as int);
    }
    let offset = y * stride + x * 4;
    frame.set(offset, color[0]);
    frame.set(offset + 1, color[1]);
    frame.set(offset + 2, color[2]);
    frame.set(offset + 3, color[3]);
    assert(frame@ =~= spliced(old(frame)@, px_offset(stride as int, x as int, y as int), color@));
}

/// `new_buf` is `buf` with the pixels where `hit` holds painted `c`; every
/// other byte is unchanged.
pub open spec fn painted(
    buf: Seq<u8>,
    new_buf: Seq<u8>,
    stride: int,
    hit: spec_fn(int, int) -> bool,
    c: Seq<u8>,
) -> bool {
    &&& new_buf.len() == buf.len()
    &&& forall|x: int, y: int| in_grid(stride, buf.len() as int, x, y) ==> #[trigger] px_bytes(new_buf, stride, x, y)
        == if hit(x, y) { c } else { px_bytes(buf, stride, x, y) }
    &&& forall|k: int| 0 <= k < buf.len() && off_grid(stride, buf.len() as int, k) ==> #[trigger] new_buf[k] == buf[k]
}

/// Painting through `set_pixel` extends a painted region by one pixel.
pub proof fn lemma_set_extends(
    start: Seq<u8>,
    buf: Seq<u8>,
    new_buf: Seq<u8>,
    stride: int,
    hit: spec_fn(int, int) -> bool,
    x0: int,
    y0: int,
    c: Seq<u8>,
)
    requires
        stride > 0,
        painted(start, buf, stride, hit, c),
        c.len() == 4,
        in_grid(stride, buf.len() as int, x0, y0) ==> new_buf == spliced(buf, px_offset(stride, x0, y0), c),
        !in_grid(stride, buf.len() as int, x0, y0) ==> new_buf == buf,
    ensures
        painted(start, new_buf, stride, |x: int, y: int| hit(x, y) || (x == x0 && y == y0), c),
{
    let len = start.len() as int;
    if in_grid(stride, len, x0, y0) {
        let o0 = px_offset(stride, x0, y0);
        lemma_pixel_in_buffer(stride, len, x0, y0);
        assert(new_buf.len() == buf.len());
        assert forall|x: int, y: int| in_grid(stride, len, x, y) implies #[trigger] px_bytes(new_buf, stride, x, y)
            == if hit(x, y) || (x == x0 && y == y0) { c } else { px_bytes(start, stride, x, y) } by {
            lemma_pixel_in_buffer(stride, len, x, y);
            if x == x0 && y == y0 {
                assert(px_bytes(new_buf, stride, x, y) =~= c);
            } else {
                lemma_pixels_apart(stride, len, x, y, x0, y0);
                assert(px_bytes(new_buf, stride, x, y) =~= px_bytes(buf, stride, x, y));
            }
        }
        assert forall|k: int| 0 <= k < len && off_grid(stride, len, k) implies #[trigger] new_buf[k] == start[k] by {
            if o0 <= k < o0 + 4 {
                lemma_pixel_bytes_on_grid(stride, len, x0, y0, k - o0);
            }
        }
    }
}

/// A painted region may be described by any predicate that agrees with the
/// first one on the pixels of the frame.
pub proof fn lemma_painted_same(
    start: Seq<u8>,
    buf: Seq<u8>,
    stride: int,
    hit1: spec_fn(int, int) -> bool,
    hit2: spec_fn(int, int) -> bool,
    c: Seq<u8>,
)
    requires
        painted(start, buf, stride, hit1, c),
        forall|x: int, y: int| in_grid(stride, start.len() as int, x, y) ==> #[trigger] hit1(x, y) == hit2(x, y),
    ensures
        painted(start, buf, stride, hit2, c),
{
    assert forall|x: int, y: int| in_grid(stride, start.len() as int, x, y) implies #[trigger] px_bytes(buf, stride, x, y)
        == if hit2(x, y) { c } else { px_bytes(start, stride, x, y) } by {
        assert(hit1(x, y) == hit2(x, y));
    }
}

/// Pixel `(x, y)` lies in the `w` x `h` rectangle at `(x0, y0)`.
pub open spec fn in_rect(x0: int, y0: int, w: int, h: int, x: int, y: int) -> bool {
    x0 <= x < x0 + w && y0 <= y < y0 + h
}

pub open spec fn sat_sub(a: int, b: int) -> int {
    if a >= b { a - b } else { 0 }
}

pub open spec fn on_rect_border(x0: int, y0: int, w: int, h: int, x: int, y: int) -> bool {
    ||| y - y0 == 0
    ||| y - y0 == sat_sub(h, 1)
    ||| x - x0 == 0
    ||| x - x0 == sat_sub(w, 1)
}

/// The pixels `draw_rect` paints.
pub open spec fn rect_hit(x0: int, y0: int, w: int, h: int, border_only: bool, x: int, y: int) -> bool {
    in_rect(x0, y0, w, h, x, y) && (!border_only || on_rect_border(x0, y0, w, h, x, y))
}

/// Paints the `width` x `height` rectangle at `(x, y)`, or only its
/// one-pixel border; pixels outside the frame are ignored.
pub fn draw_rect(
    frame: &mut Vec<u8>,
    stride: usize,
    x: usize,
    y: usize,
    width: usize,
    height: usize,
    color: [u8; 4],
    border_only: bool,
)
    requires
        stride > 0,
        (width > 0 && height > 0) ==> x + width <= usize::MAX + 1 && y + height <= usize::MAX + 1,
    ensures
        painted(old(frame)@, final(frame)@, stride as int,
            |px: int, py: int| rect_hit(x as int, y as int, width as int, height as int, border_only, px, py),
            color@),
{
    let ghost len = frame@.len() as int;
    let ghost start = frame@;
    let ghost x0 = x as int;
    let ghost y0 = y as int;
    let ghost w = width as int;
    let ghost h = height as int;
    let mut row: usize = 0;
    while row < height
        invariant
            stride > 0,
            start.len() == len,
            row <= height,
            (width > 0 && height > 0) ==> x + width <= usize::MAX + 1 && y + height <= usize::MAX + 1,
            x0 == x && y0 == y && w == width && h == height,
            painted(start, frame@, stride as int,
                |px: int, py: int| rect_hit(x0, y0, w, h, border_only, px, py) && py < y0 + row, color@),
        decreases height - row,
    {
        let mut col: usize = 0;
        while col < width
            invariant
                stride > 0,
                start.len() == len,
                row < height,
                col <= width,
                (width > 0 && height > 0) ==> x + width <= usize::MAX + 1 && y + height <= usize::MAX + 1,
                x0 == x && y0 == y && w == width && h == height,
                painted(start, frame@, stride as int,
                    |px: int, py: int| rect_hit(x0, y0, w, h, border_only, px, py)
                        && (py < y0 + row || (py == y0 + row && px < x0 + col)), color@),
            decreases width - col,
        {
            let skip = border_only && row != 0 && row != height.saturating_sub(1) && col != 0
                && col != width.saturating_sub(1);
            let ghost hit = |px: int, py: int| rect_hit(x0, y0, w, h, border_only, px, py)
                && (py < y0 + row || (py == y0 + row && px < x0 + col));
            let ghost next = |px: int, py: int| rect_hit(x0, y0, w, h, border_only, px, py)
                && (py < y0 + row || (py == y0 + row && px < x0 + col + 1));
            if !skip {
                let ghost before = frame@;
                set_pixel(frame, stride, x + col, y + row, color);
                proof {
                    lemma_set_extends(start, before, frame@, stride as int, hit, (x + col) as int, (y + row) as int, color@);
                    lemma_painted_same(start, frame@, stride as int,
                        |px: int, py: int| hit(px, py) || (px == x + col && py == y + row), next, color@);
                }
            } else {
                proof {
                    lemma_painted_same(start, frame@, stride as int, hit, next, color@);
                }
            }
            col = col + 1;
        }
        proof {
            lemma_painted_same(start, frame@, stride as int,
                |px: int, py: int| rect_hit(x0, y0, w, h, border_only, px, py)
                    && (py < y0 + row || (py == y0 + row && px < x0 + width)),
                |px: int, py: int| rect_hit(x0, y0, w, h, border_only, px, py) && py < y0 + row + 1, color@);
        }
        row = row + 1;
    }
    proof {
        lemma_painted_same(start, frame@, stride as int,
            |px: int, py: int| rect_hit(x0, y0, w, h, border_only, px, py) && py < y0 + height,
            |px: int, py: int| rect_hit(x0, y0, w, h, border_only, px, py), color@);
    }
}

/// Whether column `col` (0 on the left) of a three-column glyph row is lit.
pub open spec fn glyph_bit(b: u8, col: int) -> bool {
    if col == 0 {
        b & 4 != 0
    } else if col == 1 {
        b & 2 != 0
    } else if col == 2 {
        b & 1 != 0
    } else {
        false
    }
}

/// Pixel `(px, py)` is lit by the 3 x 5 glyph `p` drawn at `(x0, y0)` with
/// square cells of `s` pixels.
pub open spec fn glyph_hit(p: Seq<u8>, x0: int, y0: int, s: int, px: int, py: int) -> bool {
    &&& s >= 1
    &&& px >= x0
    &&& py >= y0
    &&& (py - y0) / s < 5
    &&& (px - x0) / s < 3
    &&& glyph_bit(p[(py - y0) / s], (px - x0) / s)
}

/// The cell row, cell column, and offsets in the cell of `(px, py)` come
/// before `(r, c, dy, dx)` in drawing order.
pub open spec fn drawn_before(x0: int, y0: int, s: int, px: int, py: int, r: int, c: int, dy: int, dx: int) -> bool {
    let kr = (py - y0) / s;
    let kc = (px - x0) / s;
    let kdy = (py - y0) % s;
    let kdx = (px - x0) % s;
    ||| kr < r
    ||| (kr == r && kc < c)
    ||| (kr == r && kc == c && kdy < dy)
    ||| (kr == r && kc == c && kdy == dy && kdx < dx)
}

pub open spec fn glyph_done(p: Seq<u8>, x0: int, y0: int, s: int, r: int, c: int, dy: int, dx: int) -> spec_fn(int, int) -> bool {
    |px: int, py: int| glyph_hit(p, x0, y0, s, px, py) && drawn_before(x0, y0, s, px, py, r, c, dy, dx)
}

proof fn lemma_cell_coords(x0: int, s: int, px: int)
    requires
        s >= 1,
        px >= x0,
    ensures
        px == x0 + ((px - x0) / s) * s + (px - x0) % s,
        0 <= (px - x0) % s < s,
        0 <= (px - x0) / s,
{
    lemma_fundamental_div_mod(px - x0, s);
    assert(s * ((px - x0) / s) == ((px - x0) / s) * s) by (nonlinear_arith);
    assert(0 <= (px - x0) / s) by (nonlinear_arith)
        requires s >= 1, px - x0 >= 0;
}

proof fn lemma_cell_of(x0: int, s: int, c: int, d: int)
    requires
        s >= 1,
        0 <= d < s,
        0 <= c,
    ensures
        (x0 + c * s + d - x0) / s == c,
        (x0 + c * s + d - x0) % s == d,
{
    lemma_fundamental_div_mod_converse(c * s + d, s, c, d);
}

/// Every lit cell of `pattern`, drawn at `(x, y)` with cells of `s` pixels,
/// has coordinates that fit in `usize`.
pub open spec fn glyph_fits(pattern: Seq<u8>, x: int, y: int, s: int) -> bool {
    forall|r: int, c: int| 0 <= r < 5 && 0 <= c < 3 && #[trigger] glyph_bit(pattern[r], c) ==>
        x + c * s + s <= usize::MAX + 1 && y + r * s + s <= usize::MAX + 1
}

/// Draws a 3 x 5 glyph at `(x, y)` in white, each glyph cell a square of
/// `scale` pixels; `pattern[row]` holds the three cells of a row, the
/// leftmost in bit 2.
pub fn draw_digit(frame: &mut Vec<u8>, stride: usize, x: usize, y: usize, scale: usize, pattern: [u8; 5])
    requires
        stride > 0,
        scale > 0 ==> glyph_fits(pattern@, x as int, y as int, scale as int),
    ensures
        painted(old(frame)@, final(frame)@, stride as int,
            |px: int, py: int| glyph_hit(pattern@, x as int, y as int, scale as int, px, py),
            bgra(255, 255, 255, 255)),
{
    let ghost len = frame@.len() as int;
    let ghost start = frame@;
    let ghost p = pattern@;
    let ghost x0 = x as int;
    let ghost y0 = y as int;
    let ghost s = scale as int;
    let white: [u8; 4] = [255, 255, 255, 255];
    assert(white@ =~= bgra(255, 255, 255, 255));
    if scale == 0 {
        proof {
            assert forall|px: int, py: int| in_grid(stride as int, len, px, py) implies
                #[trigger] px_bytes(frame@, stride as int, px, py) == if glyph_hit(p, x0, y0, s, px, py) {
                    white@
                } else {
                    px_bytes(start, stride as int, px, py)
                } by {}
        }
        return;
    }
    proof {
        lemma_painted_same(start, frame@, stride as int, |px: int, py: int| false, glyph_done(p, x0, y0, s, 0, 0, 0, 0), white@);
    }
    let mut row: usize = 0;
    while row < 5
        invariant
            stride > 0,
            start.len() == len,
            x0 == x && y0 == y && s == scale && p == pattern@,
            scale >= 1,
            glyph_fits(p, x0, y0, s),
            white@ == bgra(255, 255, 255, 255),
            row <= 5,
            painted(start, frame@, stride as int, glyph_done(p, x0, y0, s, row as int, 0, 0, 0), white@),
        decreases 5 - row,
    {
        let bits = pattern[row];
        let mut col: usize = 0;
        while col < 3
            invariant
                stride > 0,
                start.len() == len,
                x0 == x && y0 == y && s == scale && p == pattern@,
                scale >= 1,
                glyph_fits(p, x0, y0, s),
                white@ == bgra(255, 255, 255, 255),
                row < 5,
                bits == pattern@[row as int],
                col <= 3,
                painted(start, frame@, stride as int, glyph_done(p, x0, y0, s, row as int, col as int, 0, 0), white@),
            decreases 3 - col,
        {
            let mask: u8 = if col == 0 { 4 } else if col == 1 { 2 } else { 1 };
            if bits & mask == 0 {
                proof {
                    assert forall|px: int, py: int| in_grid(stride as int, len, px, py) implies
                        #[trigger] glyph_done(p, x0, y0, s, row as int, col as int, 0, 0)(px, py)
                            == glyph_done(p, x0, y0, s, row as int, col + 1, 0, 0)(px, py) by {
                        if glyph_hit(p, x0, y0, s, px, py) {
                            lemma_cell_coords(x0, s, px);
                            lemma_cell_coords(y0, s, py);
                        }
                    }
                    lemma_painted_same(start, frame@, stride as int, glyph_done(p, x0, y0, s, row as int, col as int, 0, 0),
                        glyph_done(p, x0, y0, s, row as int, col + 1, 0, 0), white@);
                }
            } else {
                proof {
                    assert forall|px: int, py: int| in_grid(stride as int, len, px, py) implies
                        #[trigger] glyph_done(p, x0, y0, s, row as int, col as int, 0, 0)(px, py)
                            == glyph_done(p, x0, y0, s, row as int, col as int, 0, 0)(px, py) by {}
                }
                let mut dy: usize = 0;
                while dy < scale
                    invariant
                        stride > 0,
                        start.len() == len,
                        x0 == x && y0 == y && s == scale && p == pattern@,
                        scale >= 1,
                        glyph_fits(p, x0, y0, s),
                        white@ == bgra(255, 255, 255, 255),
                        row < 5,
                        col < 3,
                        glyph_bit(pattern@[row as int], col as int),
                        dy <= scale,
                        painted(start, frame@, stride as int, glyph_done(p, x0, y0, s, row as int, col as int, dy as int, 0), white@),
                    decreases scale - dy,
                {
                    let mut dx: usize = 0;
                    while dx < scale
                        invariant
                            stride > 0,
                            start.len() == len,
                            x0 == x && y0 == y && s == scale && p == pattern@,
                            scale >= 1,
                            glyph_fits(p, x0, y0, s),
                            white@ == bgra(255, 255, 255, 255),
                            row < 5,
                            col < 3,
                            glyph_bit(pattern@[row as int], col as int),
                            dy < scale,
                            dx <= scale,
                            painted(start, frame@, stride as int, glyph_done(p, x0, y0, s, row as int, col as int, dy as int, dx as int), white@),
                        decreases scale - dx,
                    {
                        proof {
                            assert(glyph_bit(p[row as int], col as int));
                            assert(x + col * scale + scale <= usize::MAX + 1 && y + row * scale + scale <= usize::MAX + 1);
                        }
                        let px = x + col * scale + dx;
                        let py = y + row * scale + dy;
                        let ghost before = frame@;
                        let ghost hit = glyph_done(p, x0, y0, s, row as int, col as int, dy as int, dx as int);
                        set_pixel(frame, stride, px, py, white);
                        proof {
                            lemma_set_extends(start, before, frame@, stride as int, hit, px as int, py as int, white@);
                            lemma_cell_of(x0, s, col as int, dx as int);
                            lemma_cell_of(y0, s, row as int, dy as int);
                            assert forall|qx: int, qy: int| in_grid(stride as int, len, qx, qy) implies
                                #[trigger] glyph_done(p, x0, y0, s, row as int, col as int, dy as int, dx + 1)(qx, qy)
                                    == (hit(qx, qy) || (qx == px && qy == py)) by {
                                if qx >= x0 && qy >= y0 {
                                    lemma_cell_coords(x0, s, qx);
                                    lemma_cell_coords(y0, s, qy);
                                }
                            }
                            lemma_painted_same(start, frame@, stride as int, |a: int, b: int| hit(a, b) || (a == px && b == py),
                                glyph_done(p, x0, y0, s, row as int, col as int, dy as int, dx + 1), white@);
                        }
                        dx = dx + 1;
                    }
                    proof {
                        assert forall|qx: int, qy: int| in_grid(stride as int, len, qx, qy) implies
                            #[trigger] glyph_done(p, x0, y0, s, row as int, col as int, dy as int, s)(qx, qy)
                                == glyph_done(p, x0, y0, s, row as int, col as int, dy + 1, 0)(qx, qy) by {
                            if qx >= x0 && qy >= y0 {
                                lemma_cell_coords(x0, s, qx);
                                lemma_cell_coords(y0, s, qy);
                            }
                        }
                        lemma_painted_same(start, frame@, stride as int, glyph_done(p, x0, y0, s, row as int, col as int, dy as int, s),
                            glyph_done(p, x0, y0, s, row as int, col as int, dy + 1, 0), white@);
                    }
                    dy = dy + 1;
                }
                proof {
                    assert forall|qx: int, qy: int| in_grid(stride as int, len, qx, qy) implies
                        #[trigger] glyph_done(p, x0, y0, s, row as int, col as int, s, 0)(qx, qy)
                            == glyph_done(p, x0, y0, s, row as int, col + 1, 0, 0)(qx, qy) by {
                        if qx >= x0 && qy >= y0 {
                            lemma_cell_coords(x0, s, qx);
                            lemma_cell_coords(y0, s, qy);
                        }
                    }
                    lemma_painted_same(start, frame@, stride as int, glyph_done(p, x0, y0, s, row as int, col as int, s, 0),
                        glyph_done(p, x0, y0, s, row as int, col + 1, 0, 0), white@);
                }
            }
            col = col + 1;
        }
        proof {
            assert forall|qx: int, qy: int| in_grid(stride as int, len, qx, qy) implies
                #[trigger] glyph_done(p, x0, y0, s, row as int, 3, 0, 0)(qx, qy)
                    == glyph_done(p, x0, y0, s, row + 1, 0, 0, 0)(qx, qy) by {
                if qx >= x0 && qy >= y0 {
                    lemma_cell_coords(x0, s, qx);
                    lemma_cell_coords(y0, s, qy);
                }
            }
            lemma_painted_same(start, frame@, stride as int, glyph_done(p, x0, y0, s, row as int, 3, 0, 0),
                glyph_done(p, x0, y0, s, row + 1, 0, 0, 0), white@);
        }
        row = row + 1;
    }
    proof {
        assert forall|qx: int, qy: int| in_grid(stride as int, len, qx, qy) implies
            #[trigger] glyph_done(p, x0, y0, s, 5, 0, 0, 0)(qx, qy) == glyph_hit(p, x0, y0, s, qx, qy) by {}
        lemma_painted_same(start, frame@, stride as int, glyph_done(p, x0, y0, s, 5, 0, 0, 0),
            |px: int, py: int| glyph_hit(p, x0, y0, s, px, py), white@);
    }
}

/// Painting `h1` and then `h2` in the same colour paints their union.
pub proof fn lemma_painted_compose(
    a: Seq<u8>,
    b: Seq<u8>,
    c2: Seq<u8>,
    stride: int,
    h1: spec_fn(int, int) -> bool,
    h2: spec_fn(int, int) -> bool,
    c: Seq<u8>,
)
    requires
        painted(a, b, stride, h1, c),
        painted(b, c2, stride, h2, c),
    ensures
        painted(a, c2, stride, |x: int, y: int| h1(x, y) || h2(x, y), c),
{
    let len = a.len() as int;
    assert forall|x: int, y: int| in_grid(stride, len, x, y) implies #[trigger] px_bytes(c2, stride, x, y)
        == if h1(x, y) || h2(x, y) { c } else { px_bytes(a, stride, x, y) } by {
        assert(px_bytes(c2, stride, x, y) == if h2(x, y) { c } else { px_bytes(b, stride, x, y) });
        assert(px_bytes(b, stride, x, y) == if h1(x, y) { c } else { px_bytes(a, stride, x, y) });
    }
    assert forall|k: int| 0 <= k < len && off_grid(stride, len, k) implies #[trigger] c2[k] == a[k] by {
        assert(c2[k] == b[k]);
        assert(b[k] == a[k]);
    }
}

/// A frame of `f` that matches `color` and then gets the pixels where
/// `hit` holds painted `c` matches the painted colours.
pub proof fn lemma_painted_over(
    a: Seq<u8>,
    b: Seq<u8>,
    f: VideoFormat,
    stride: int,
    hit: spec_fn(int, int) -> bool,
    c: Seq<u8>,
    color: spec_fn(int, int) -> Seq<u8>,
)
    requires
        painted(a, b, stride, hit, c),
        frame_matches(a, f, color),
        f.width > 0,
        stride == f.width * 4,
        a.len() == f.width * 4 * f.height,
    ensures
        frame_matches(b, f, |x: int, y: int| if hit(x, y) { c } else { color(x, y) }),
{
    let w = f.width as int;
    let h = f.height as int;
    let len = a.len() as int;
    assert(len / stride == h) by (nonlinear_arith)
        requires len == w * 4 * h, stride == w * 4, w > 0, h >= 0;
    assert(stride / 4 == w);
    assert forall|x: int, y: int| 0 <= x < f.width && 0 <= y < f.height implies #[trigger] pixel(b, w, x, y)
        == (|x: int, y: int| if hit(x, y) { c } else { color(x, y) })(x, y) by {
        assert(px_offset(stride, x, y) == 4 * pixel_index(w, x, y)) by (nonlinear_arith)
            requires stride == w * 4;
        assert(in_grid(stride, len, x, y));
        assert(pixel(b, w, x, y) == px_bytes(b, stride, x, y));
        assert(pixel(a, w, x, y) == px_bytes(a, stride, x, y));
        assert(pixel(a, w, x, y) == color(x, y));
    }
}

/// The glyph of a decimal digit, three cells wide and five tall.
pub open spec fn spec_digit_pattern(ch: char) -> Option<Seq<u8>> {
    if ch == '0' {
        Some(seq![7u8, 5, 5, 5, 7])
    } else if ch == '1' {
        Some(seq![2u8, 6, 2, 2, 7])
    } else if ch == '2' {
        Some(seq![7u8, 1, 7, 4, 7])
    } else if ch == '3' {
        Some(seq![7u8, 1, 7, 1, 7])
    } else if ch == '4' {
        Some(seq![5u8, 5, 7, 1, 1])
    } else if ch == '5' {
        Some(seq![7u8, 4, 7, 1, 7])
    } else if ch == '6' {
        Some(seq![7u8, 4, 7, 5, 7])
    } else if ch == '7' {
        Some(seq![7u8, 1, 2, 2, 2])
    } else if ch == '8' {
        Some(seq![7u8, 5, 7, 5, 7])
    } else if ch == '9' {
        Some(seq![7u8, 5, 7, 1, 7])
    } else {
        None
    }
}

pub fn digit_pattern(ch: char) -> (r: Option<[u8; 5]>)
    ensures
        match spec_digit_pattern(ch) {
            Some(p) => r matches Some(a) && a@ == p,
            None => r is None,
        },
{
    let r: Option<[u8; 5]> = if ch == '0' {
        Some([0b111, 0b101, 0b101, 0b101, 0b111])
    } else if ch == '1' {
        Some([0b010, 0b110, 0b010, 0b010, 0b111])
    } else if ch == '2' {
        Some([0b111, 0b001, 0b111, 0b100, 0b111])
    } else if ch == '3' {
        Some([0b111, 0b001, 0b111, 0b001, 0b111])
    } else if ch == '4' {
        Some([0b101, 0b101, 0b111, 0b001, 0b001])
    } else if ch == '5' {
        Some([0b111, 0b100, 0b111, 0b001, 0b111])
    } else if ch == '6' {
        Some([0b111, 0b100, 0b111, 0b101, 0b111])
    } else if ch == '7' {
        Some([0b111, 0b001, 0b010, 0b010, 0b010])
    } else if ch == '8' {
        Some([0b111, 0b101, 0b111, 0b101, 0b111])
    } else if ch == '9' {
        Some([0b111, 0b101, 0b111, 0b001, 0b111])
    } else {
        None
    };
    proof {
        if let Some(a) = r {
            assert(a@ =~= spec_digit_pattern(ch)->Some_0);
        }
    }
    r
}

pub open spec fn counter_scale(height: int) -> int {
    if height / 180 >= 2 { height / 180 } else { 2 }
}

/// Pixel `(px, py)` is lit by one of the first `k` digits of `ds`, digit
/// `i` drawn at `(sx + 4 * i * sc, sy)` with cells of `sc` pixels.
pub open spec fn digits_hit(ds: Seq<u8>, sx: int, sy: int, sc: int, k: int, px: int, py: int) -> bool {
    exists|i: int| 0 <= i < k && #[trigger] glyph_hit(
        spec_digit_pattern(digit_char(ds[i]))->Some_0, sx + i * 4 * sc, sy, sc, px, py)
}

/// Pixel `(px, py)` is lit by the frame counter: the decimal digits of
/// `frame_id` drawn in the bottom-right corner, 16 pixels in from both
/// edges, each digit in a cell four glyph cells wide.
pub open spec fn counter_hit(width: int, height: int, frame_id: u64, px: int, py: int) -> bool {
    let digits = spec_decimal(frame_id as nat);
    let s = counter_scale(height);
    let start_x = sat_sub(width, digits.len() * 4 * s + 16);
    let start_y = sat_sub(height, 6 * s + 16);
    digits_hit(digits, start_x, start_y, s, digits.len() as int, px, py)
}

/// Draws the decimal frame counter in white in the bottom-right corner of
/// a `width` x `height` frame.
pub fn draw_counter(frame: &mut Vec<u8>, stride: usize, width: usize, height: usize, frame_id: u64)
    requires
        stride > 0,
    ensures
        painted(old(frame)@, final(frame)@, stride as int,
            |px: int, py: int| counter_hit(width as int, height as int, frame_id, px, py),
            bgra(255, 255, 255, 255)),
{
    let ghost len = frame@.len() as int;
    let ghost start = frame@;
    let digits = decimal_digits(frame_id);
    proof { lemma_decimal_len_u64(frame_id); }
    let glyph_w: usize = 4;
    let glyph_h: usize = 6;
    let scale: usize = if height / 180 >= 2 { height / 180 } else { 2 };
    proof {
        assert(digits@.len() * 4 * scale <= 80 * scale) by (nonlinear_arith)
            requires digits@.len() <= 20;
        assert(80 * scale + 16 <= usize::MAX) by (nonlinear_arith)
            requires scale == 2 || scale == height / 180, height <= usize::MAX, usize::MAX >= 0xffff_ffff;
    }
    let total_w = digits.len() * glyph_w * scale;
    let start_x = width.saturating_sub(total_w + 16);
    let start_y = height.saturating_sub(glyph_h * scale + 16);
    let ghost sx = start_x as int;
    let ghost sy = start_y as int;
    let ghost sc = scale as int;
    let ghost ds = digits@;
    let ghost white = bgra(255, 255, 255, 255);
    proof {
        lemma_painted_same(start, frame@, stride as int, |px: int, py: int| false,
            |px: int, py: int| digits_hit(ds, sx, sy, sc, 0, px, py), white);
    }
    let mut index: usize = 0;
    while index < digits.len()
        invariant
            stride > 0,
            start.len() == len,
            ds == digits@,
            ds == spec_decimal(frame_id as nat),
            1 <= ds.len() <= 20,
            forall|i: int| 0 <= i < ds.len() ==> #[trigger] ds[i] < 10,
            sx == start_x && sy == start_y && sc == scale,
            start_x <= width,
            start_x == 0 || start_x + total_w + 16 == width,
            start_y == 0 || start_y + 6 * scale + 16 == height,
            total_w == ds.len() * 4 * scale,
            80 * scale + 16 <= usize::MAX,
            white == bgra(255, 255, 255, 255),
            index <= ds.len(),
            painted(start, frame@, stride as int, |px: int, py: int| digits_hit(ds, sx, sy, sc, index as int, px, py), white),
        decreases ds.len() - index,
    {
        let d = digits[index];
        let ch = (d + 48) as char;
        assert(ch == digit_char(ds[index as int]));
        match digit_pattern(ch) {
            Some(pattern) => {
                proof {
                    assert(index * 4 * scale + 3 * scale <= total_w) by (nonlinear_arith)
                        requires index < ds.len(), total_w == ds.len() * 4 * scale;
                    assert(index * 4 * scale + 3 * scale <= 80 * scale) by (nonlinear_arith)
                        requires index < 20;
                    assert(total_w <= 80 * scale) by (nonlinear_arith)
                        requires total_w == ds.len() * 4 * scale, ds.len() <= 20;
                    assert(start_x + index * 4 * scale + 3 * scale <= usize::MAX);
                    assert(start_y + 5 * scale <= usize::MAX);
                }
                let x = start_x + index * 4 * scale;
                proof {
                    assert forall|r: int, c: int| 0 <= r < 5 && 0 <= c < 3 && #[trigger] glyph_bit(pattern@[r], c) implies
                        x + c * scale + scale <= usize::MAX + 1 && start_y + r * scale + scale <= usize::MAX + 1 by {
                        assert(c * scale + scale <= 3 * scale) by (nonlinear_arith)
                            requires 0 <= c < 3, scale >= 0;
                        assert(r * scale + scale <= 5 * scale) by (nonlinear_arith)
                            requires 0 <= r < 5, scale >= 0;
                    }
                }
                let ghost before = frame@;
                draw_digit(frame, stride, x, start_y, scale, pattern);
                proof {
                    let k = index as int;
                    let prev = |px: int, py: int| digits_hit(ds, sx, sy, sc, k, px, py);
                    let cur = |px: int, py: int| glyph_hit(pattern@, x as int, start_y as int, scale as int, px, py);
                    lemma_painted_compose(start, before, frame@, stride as int, prev, cur, white);
                    assert(x == sx + k * 4 * sc) by (nonlinear_arith)
                        requires x == start_x + index * 4 * scale, k == index, sx == start_x, sc == scale;
                    assert forall|px: int, py: int| in_grid(stride as int, len, px, py) implies
                        #[trigger] digits_hit(ds, sx, sy, sc, k + 1, px, py) == (prev(px, py) || cur(px, py)) by {
                        if cur(px, py) {
                            assert(glyph_hit(spec_digit_pattern(digit_char(ds[k]))->Some_0, sx + k * 4 * sc, sy, sc, px, py));
                        }
                    }
                    lemma_painted_same(start, frame@, stride as int, |px: int, py: int| prev(px, py) || cur(px, py),
                        |px: int, py: int| digits_hit(ds, sx, sy, sc, k + 1, px, py), white);
                }
            },
            None => {
                assert(false);
            },
        }
        index = index + 1;
    }
    proof {
        lemma_painted_same(start, frame@, stride as int, |px: int, py: int| digits_hit(ds, sx, sy, sc, ds.len() as int, px, py),
            |px: int, py: int| counter_hit(width as int, height as int, frame_id, px, py), white);
    }
}

/// The moving background of frame `frame_id`: blue rises left to right,
/// green top to bottom, and red is a diagonal wave that shifts by three
/// levels per frame.
pub open spec fn anim_base(f: VideoFormat, frame_id: u64, x: int, y: int) -> Seq<u8> {
    bgra(
        ((x * 255) / (f.width as int)) as u8,
        ((y * 255) / (f.height as int)) as u8,
        ((3 * frame_id + x / 8 + y / 4) % 256) as u8,
        255,
    )
}

pub open spec fn clamp_box(v: int, limit: int) -> int {
    let at_least = if v >= 32 { v } else { 32 };
    if at_least <= limit { at_least } else { limit }
}

pub open spec fn anim_box_w(f: VideoFormat) -> int {
    clamp_box((f.width / 6) as int, f.width as int)
}

pub open spec fn anim_box_h(f: VideoFormat) -> int {
    clamp_box((f.height / 6) as int, f.height as int)
}

pub open spec fn travel(size: int, box_size: int) -> int {
    if sat_sub(size, box_size) >= 1 { sat_sub(size, box_size) } else { 1 }
}

/// Left edge of the bouncing box: it steps 7 pixels a frame, wrapping.
pub open spec fn anim_box_x(f: VideoFormat, frame_id: u64) -> int {
    ((frame_id * 7) as usize) as int % travel(f.width as int, anim_box_w(f))
}

/// Top edge of the bouncing box: it steps 5 pixels a frame, wrapping.
pub open spec fn anim_box_y(f: VideoFormat, frame_id: u64) -> int {
    ((frame_id * 5) as usize) as int % travel(f.height as int, anim_box_h(f))
}

/// Frame `frame_id` of the animated feed: the background, a white box
/// outline with a dark-grey inside that bounces across the frame, a
/// darker centre cross, and the frame counter in white.
pub open spec fn anim_pixel(f: VideoFormat, frame_id: u64, x: int, y: int) -> Seq<u8> {
    let bx = anim_box_x(f, frame_id);
    let by = anim_box_y(f, frame_id);
    let bw = anim_box_w(f);
    let bh = anim_box_h(f);
    if counter_hit(f.width as int, f.height as int, frame_id, x, y) {
        bgra(255, 255, 255, 255)
    } else if x == (f.width as int) / 2 || y == (f.height as int) / 2 {
        bgra(16, 16, 16, 255)
    } else if rect_hit(bx + 4, by + 4, sat_sub(bw, 8), sat_sub(bh, 8), false, x, y) {
        bgra(32, 32, 32, 255)
    } else if rect_hit(bx, by, bw, bh, true, x, y) {
        bgra(255, 255, 255, 255)
    } else {
        anim_base(f, frame_id, x, y)
    }
}

/// Renders frame `frame_id` of the animated feed.
pub fn render_animated_frame(format: VideoFormat, frame_id: u64) -> (frame: Vec<u8>)
    requires
        format_check(format) is Ok,
        format_fits(format),
        frame_id <= u64::MAX / 7,
    ensures
        frame@.len() == spec_bgra_frame_bytes(format),
        frame_matches(frame@, format, |x: int, y: int| anim_pixel(format, frame_id, x, y)),
{
    let width = format.width as usize;
    let height = format.height as usize;
    let stride = format.bgra_stride();
    let n = format.bgra_frame_bytes();
    let mut frame: Vec<u8> = vec![0u8; n];
    let ghost f = format;
    proof {
        assert(n == stride * height) by (nonlinear_arith)
            requires n == format.width * 4 * format.height, stride == format.width * 4, height == format.height;
        assert(n % stride == 0 && n / stride == height) by (nonlinear_arith)
            requires n == stride * height, stride > 0;
        assert(f.width == format.width && f.height == format.height);
        assert(stride / 4 == width);
    }
    let wave_base: u64 = (frame_id * 3) % 256;
    let mut y: usize = 0;
    while y < height
        invariant
            width == format.width,
            height == format.height,
            stride == width * 4,
            frame@.len() == n,
            n == stride * height,
            n / stride == height && stride / 4 == width,
            f == format,
            f.width == format.width && f.height == format.height,
            stride > 0,
            wave_base == (frame_id * 3) % 256,
            y <= height,
            forall|xx: int, yy: int| 0 <= xx < width && 0 <= yy < y ==>
                #[trigger] pixel(frame@, width as int, xx, yy) == anim_base(format, frame_id, xx, yy),
        decreases height - y,
    {
        let mut x: usize = 0;
        while x < width
            invariant
                width == format.width,
                height == format.height,
                stride == width * 4,
                frame@.len() == n,
                n == stride * height,
                n / stride == height && stride / 4 == width,
                f == format,
                f.width == format.width && f.height == format.height,
                stride > 0,
                wave_base == (frame_id * 3) % 256,
                y < height,
                x <= width,
                forall|xx: int, yy: int| 0 <= xx < width && 0 <= yy < height && (yy < y || (yy == y && xx < x)) ==>
                    #[trigger] pixel(frame@, width as int, xx, yy) == anim_base(format, frame_id, xx, yy),
            decreases width - x,
        {
            proof {
                assert(x * 255 < width * 255) by (nonlinear_arith) requires x < width;
                assert(y * 255 < height * 255) by (nonlinear_arith) requires y < height;
                assert((x as int * 255) / (width as int) < 255) by (nonlinear_arith)
                    requires x < width, width > 0;
                assert((y as int * 255) / (height as int) < 255) by (nonlinear_arith)
                    requires y < height, height > 0;
            }
            let blue = ((x as u64 * 255) / width as u64) as u8;
            let green = ((y as u64 * 255) / height as u64) as u8;
            let red = ((wave_base + (x / 8) as u64 % 256 + (y / 4) as u64 % 256) % 256) as u8;
            let color: [u8; 4] = [blue, green, red, 255];
            proof {
                assert(((3 * frame_id + x / 8 + y / 4) % 256) == ((frame_id * 3) % 256 + (x / 8) % 256 + (y / 4) % 256) % 256)
                    by (nonlinear_arith);
                assert(color@ =~= anim_base(format, frame_id, x as int, y as int));
                assert(px_offset(stride as int, x as int, y as int) == 4 * pixel_index(width as int, x as int, y as int))
                    by (nonlinear_arith)
                    requires stride == width * 4;
                assert(in_grid(stride as int, n as int, x as int, y as int));
                lemma_write_pixel(frame@, width as int, height as int, x as int, y as int, color@);
            }
            set_pixel(&mut frame, stride, x, y, color);
            x = x + 1;
        }
        y = y + 1;
    }

    let box_w: usize = {
        let a = if width / 6 >= 32 { width / 6 } else { 32 };
        if a <= width { a } else { width }
    };
    let box_h: usize = {
        let a = if height / 6 >= 32 { height / 6 } else { 32 };
        if a <= height { a } else { height }
    };
    let travel_x: usize = if width.saturating_sub(box_w) >= 1 { width.saturating_sub(box_w) } else { 1 };
    let travel_y: usize = if height.saturating_sub(box_h) >= 1 { height.saturating_sub(box_h) } else { 1 };
    let box_x = ((frame_id * 7) as usize) % travel_x;
    let box_y = ((frame_id * 5) as usize) % travel_y;
    let white: [u8; 4] = [255, 255, 255, 255];
    let inner: [u8; 4] = [32, 32, 32, 255];
    let cross: [u8; 4] = [16, 16, 16, 255];
    let ghost base_frame = frame@;
    proof {
        assert(frame_matches(base_frame, f, |x: int, y: int| anim_base(format, frame_id, x, y)));
    }
    draw_rect(&mut frame, stride, box_x, box_y, box_w, box_h, white, true);
    let ghost outer_frame = frame@;
    proof {
        lemma_painted_over(base_frame, outer_frame, f, stride as int,
            |px: int, py: int| rect_hit(box_x as int, box_y as int, box_w as int, box_h as int, true, px, py),
            white@, |x: int, y: int| anim_base(format, frame_id, x, y));
    }
    draw_rect(&mut frame, stride, box_x + 4, box_y + 4, box_w.saturating_sub(8), box_h.saturating_sub(8), inner, false);
    let ghost inner_frame = frame@;
    let ghost layer2 = |x: int, y: int| if rect_hit(box_x as int, box_y as int, box_w as int, box_h as int, true, x, y) {
        white@
    } else {
        anim_base(format, frame_id, x, y)
    };
    proof {
        lemma_painted_over(outer_frame, inner_frame, f, stride as int,
            |px: int, py: int| rect_hit((box_x + 4) as int, (box_y + 4) as int, sat_sub(box_w as int, 8), sat_sub(box_h as int, 8), false, px, py),
            inner@, layer2);
    }
    let ghost layer3 = |x: int, y: int| if rect_hit((box_x + 4) as int, (box_y + 4) as int, sat_sub(box_w as int, 8), sat_sub(box_h as int, 8), false, x, y) {
        inner@
    } else {
        layer2(x, y)
    };

    let cross_x = width / 2;
    let cross_y = height / 2;
    let ghost cross_start = frame@;
    let mut yy: usize = 0;
    while yy < height
        invariant
            width == format.width,
            height == format.height,
            frame@.len() == n,
            cross_start.len() == n,
            f == format,
            f.width == format.width && f.height == format.height,
            stride > 0,
            cross_x == width / 2,
            yy <= height,
            painted(cross_start, frame@, stride as int, |px: int, py: int| px == cross_x && py < yy, cross@),
        decreases height - yy,
    {
        let ghost before = frame@;
        set_pixel(&mut frame, stride, cross_x, yy, cross);
        proof {
            lemma_set_extends(cross_start, before, frame@, stride as int,
                |px: int, py: int| px == cross_x && py < yy, cross_x as int, yy as int, cross@);
            lemma_painted_same(cross_start, frame@, stride as int,
                |px: int, py: int| (px == cross_x && py < yy) || (px == cross_x && py == yy),
                |px: int, py: int| px == cross_x && py < yy + 1, cross@);
        }
        yy = yy + 1;
    }
    let mut xx: usize = 0;
    while xx < width
        invariant
            width == format.width,
            height == format.height,
            frame@.len() == n,
            cross_start.len() == n,
            f == format,
            f.width == format.width && f.height == format.height,
            stride > 0,
            cross_x == width / 2,
            cross_y == height / 2,
            xx <= width,
            painted(cross_start, frame@, stride as int, |px: int, py: int| px == cross_x || (py == cross_y && px < xx), cross@),
        decreases width - xx,
    {
        let ghost before = frame@;
        set_pixel(&mut frame, stride, xx, cross_y, cross);
        proof {
            lemma_set_extends(cross_start, before, frame@, stride as int,
                |px: int, py: int| px == cross_x || (py == cross_y && px < xx), xx as int, cross_y as int, cross@);
            lemma_painted_same(cross_start, frame@, stride as int,
                |px: int, py: int| (px == cross_x || (py == cross_y && px < xx)) || (px == xx && py == cross_y),
                |px: int, py: int| px == cross_x || (py == cross_y && px < xx + 1), cross@);
        }
        xx = xx + 1;
    }
    let ghost cross_frame = frame@;
    proof {
        assert(frame_matches(inner_frame, f, layer3));
        lemma_painted_over(cross_start, cross_frame, f, stride as int,
            |px: int, py: int| px == cross_x || (py == cross_y && px < xx), cross@, layer3);
    }
    let ghost layer4 = |x: int, y: int| if x == cross_x || (y == cross_y && x < xx) { cross@ } else { layer3(x, y) };
    draw_counter(&mut frame, stride, width, height, frame_id);
    proof {
        lemma_painted_over(cross_frame, frame@, f, stride as int,
            |px: int, py: int| counter_hit(width as int, height as int, frame_id, px, py), white@, layer4);
        assert(box_w == anim_box_w(format));
        assert(box_h == anim_box_h(format));
        assert(box_x == anim_box_x(format, frame_id));
        assert(box_y == anim_box_y(format, frame_id));
        assert forall|x: int, y: int| 0 <= x < format.width && 0 <= y < format.height implies
            #[trigger] pixel(frame@, format.width as int, x, y) == anim_pixel(format, frame_id, x, y) by {
            assert(pixel(frame@, f.width as int, x, y)
                == if counter_hit(width as int, height as int, frame_id, x, y) { white@ } else { layer4(x, y) });
        }
    }
    frame
}

} // verus!
