//! Packed monochrome canvas.
//!
//! Pixels are stored 8 per byte in row-major order with the
//! most-significant bit of each byte encoding the leftmost pixel of the
//! group. A set bit is a white pixel, a cleared bit a black one; drawing
//! calls take a `color` byte where `0` means black and any other value
//! means white.

use vstd::prelude::*;
use crate::bresenham::{bres_err, bres_rem_pts, lemma_bres_err_step, lemma_bres_no_overshoot, line_pts};
use crate::font::{FONT, glyph_row};
use vstd::string::StrSliceExecFns;
use vstd::arithmetic::div_mod::{
    lemma_fundamental_div_mod, lemma_fundamental_div_mod_converse, lemma_mod_multiples_vanish,
    lemma_multiply_divide_lt,
};

verus! {

/// True when bit `k` of `b`, counted from the most-significant end
/// (bit 0 is the leftmost pixel of the byte's pixel group), is set.
pub open spec fn bit_at(b: u8, k: u8) -> bool
    recommends
        k < 8,
{
    b & (0x80u8 >> k) != 0
}

/// True when the pixel at `(x, y)` of a packed canvas of the given width
/// is white. The canvas is one continuous bit stream: pixel `(x, y)` is
/// bit `x + y*width` of it, most-significant bit first within each byte.
pub open spec fn pixel_set(bytes: Seq<u8>, width: int, x: int, y: int) -> bool
    recommends
        width % 8 == 0,
        0 <= x < width,
        0 <= y,
        (x + y * width) / 8 < bytes.len(),
{
    bit_at(bytes[(x + y * width) / 8], ((x + y * width) % 8) as u8)
}

proof fn lemma_set_bit(b: u8, k: u8, j: u8)
    by (bit_vector)
    requires
        k < 8,
        j < 8,
    ensures
        bit_at(b | (0x80u8 >> k), j) == (j == k || bit_at(b, j)),
{
}

proof fn lemma_clear_bit(b: u8, k: u8, j: u8)
    by (bit_vector)
    requires
        k < 8,
        j < 8,
    ensures
        bit_at(b & !(0x80u8 >> k), j) == (j != k && bit_at(b, j)),
{
}

proof fn lemma_linear_index_bound(w: int, h: int, x: int, y: int)
    by (nonlinear_arith)
    requires
        0 <= x < w,
        0 <= y < h,
    ensures
        0 <= x + y * w < w * h,
{
}

proof fn lemma_linear_index_inj(w: int, x1: int, y1: int, x2: int, y2: int)
    by (nonlinear_arith)
    requires
        0 <= x1 < w,
        0 <= x2 < w,
        0 <= y1,
        0 <= y2,
        x1 + y1 * w == x2 + y2 * w,
    ensures
        x1 == x2,
        y1 == y2,
{
}

/// With byte-aligned rows, a pixel's bit position inside its byte depends
/// on its column alone.
proof fn lemma_stream_mod(w: int, x: int, y: int)
    requires
        w % 8 == 0,
        0 <= x,
        0 <= y,
    ensures
        (x + y * w) % 8 == x % 8,
{
    lemma_fundamental_div_mod(w, 8);
    assert(y * w == 8 * (y * (w / 8))) by (nonlinear_arith)
        requires
            w == 8 * (w / 8),
    ;
    lemma_mod_multiples_vanish(y * (w / 8), x, 8);
    assert(8 * (y * (w / 8)) + x == x + y * w);
}

proof fn lemma_area_mod8(w: int, h: int)
    requires
        w % 8 == 0,
        0 <= w,
        0 <= h,
    ensures
        (w * h) % 8 == 0,
{
    lemma_fundamental_div_mod(w, 8);
    assert(w * h == 8 * ((w / 8) * h)) by (nonlinear_arith)
        requires
            w == 8 * (w / 8),
    ;
    lemma_mod_multiples_vanish((w / 8) * h, 0, 8);
}

/// A bit index below the stream's bit length lies in a byte below its
/// byte length.
proof fn lemma_stream_div_bound(e: int, n: int)
    requires
        0 <= e,
        n % 8 == 0,
        e < n,
    ensures
        0 <= e / 8 < n / 8,
        0 <= e % 8 < 8,
{
    lemma_fundamental_div_mod(n, 8);
    lemma_multiply_divide_lt(e, 8, n / 8);
    lemma_fundamental_div_mod(e, 8);
}

/// The pixels of a horizontal run of `len` pixels starting at `(x, y)`.
pub open spec fn hline_pts(x: int, y: int, len: int) -> Set<(int, int)> {
    Set::new(|p: (int, int)| p.1 == y && x <= p.0 < x + len)
}

/// The pixels of a vertical run of `len` pixels starting at `(x, y)`.
pub open spec fn vline_pts(x: int, y: int, len: int) -> Set<(int, int)> {
    Set::new(|p: (int, int)| p.0 == x && y <= p.1 < y + len)
}

/// The border pixels of the `w`-by-`h` rectangle whose top-left corner
/// is `(x, y)`.
pub open spec fn rect_pts(x: int, y: int, w: int, h: int) -> Set<(int, int)> {
    Set::new(
        |p: (int, int)|
            (x <= p.0 < x + w && (p.1 == y || p.1 == y + h - 1)) || (y <= p.1 < y + h && (p.0 == x
                || p.0 == x + w - 1)),
    )
}

/// All pixels of the `w`-by-`h` rectangle whose top-left corner is `(x, y)`.
pub open spec fn fill_rect_pts(x: int, y: int, w: int, h: int) -> Set<(int, int)> {
    Set::new(|p: (int, int)| x <= p.0 < x + w && y <= p.1 < y + h)
}

/// The pixels the glyph for character `ch` covers with its top-left
/// corner at `(gx, gy)`: none unless `ch` is a printable ASCII code
/// point in `[32, 128)`.
pub open spec fn glyph_pts(ch: char, gx: int, gy: int) -> Set<(int, int)> {
    Set::new(
        |p: (int, int)|
            (32 <= ch as int) && ((ch as int) < 128) && (gx <= p.0 < gx + 8) && (gy <= p.1 < gy
                + 8) && bit_at(
                glyph_row(ch as int, p.1 - gy),
                (p.0 - gx) as u8,
            ),
    )
}

/// All pixels a text run paints: the glyph of character `k` has its
/// top-left corner at `(x + 8*k, y)`. Characters outside the printable
/// range paint nothing but still advance the cursor by 8 pixels.
pub open spec fn text_pts(s: Seq<char>, x: int, y: int) -> Set<(int, int)> {
    Set::new(
        |p: (int, int)|
            exists|k: int|
                0 <= k < s.len() && #[trigger] glyph_pts(s[k], x + 8 * k, y).contains(p),
    )
}

/// The first `rows` full rows of a glyph.
spec fn glyph_rows_pts(ch: char, gx: int, gy: int, rows: int) -> Set<(int, int)> {
    Set::new(
        |p: (int, int)|
            gx <= p.0 < gx + 8 && gy <= p.1 < gy + rows && bit_at(
                glyph_row(ch as int, p.1 - gy),
                (p.0 - gx) as u8,
            ),
    )
}

/// The first `cols` columns of row `r` of a glyph.
spec fn glyph_row_prefix_pts(ch: char, gx: int, gy: int, r: int, cols: int) -> Set<(int, int)> {
    Set::new(
        |p: (int, int)|
            p.1 == gy + r && gx <= p.0 < gx + cols && bit_at(
                glyph_row(ch as int, r),
                (p.0 - gx) as u8,
            ),
    )
}

/// Appending one character to a text run adds exactly its glyph's
/// pixels, shifted 8 columns per preceding character.
proof fn lemma_text_pts_snoc(s: Seq<char>, x: int, y: int, k: int)
    requires
        0 <= k < s.len(),
    ensures
        text_pts(s.take(k), x, y).union(glyph_pts(s[k], x + 8 * k, y)) == text_pts(
            s.take(k + 1),
            x,
            y,
        ),
{
    let tk = text_pts(s.take(k), x, y);
    let gp = glyph_pts(s[k], x + 8 * k, y);
    let tk1 = text_pts(s.take(k + 1), x, y);
    assert forall|p: (int, int)| tk1.contains(p) implies tk.union(gp).contains(p) by {
        let kk = choose|kk: int|
            0 <= kk < s.take(k + 1).len() && #[trigger] glyph_pts(
                s.take(k + 1)[kk],
                x + 8 * kk,
                y,
            ).contains(p);
        if kk < k {
            assert(s.take(k)[kk] == s.take(k + 1)[kk]);
            assert(glyph_pts(s.take(k)[kk], x + 8 * kk, y).contains(p));
            assert(tk.contains(p));
        } else {
            assert(s.take(k + 1)[k] == s[k]);
            assert(gp.contains(p));
        }
    }
    assert forall|p: (int, int)| tk.union(gp).contains(p) implies tk1.contains(p) by {
        if tk.contains(p) {
            let kk = choose|kk: int|
                0 <= kk < s.take(k).len() && #[trigger] glyph_pts(
                    s.take(k)[kk],
                    x + 8 * kk,
                    y,
                ).contains(p);
            assert(s.take(k + 1)[kk] == s.take(k)[kk]);
            assert(glyph_pts(s.take(k + 1)[kk], x + 8 * kk, y).contains(p));
        } else {
            assert(gp.contains(p));
            assert(s.take(k + 1)[k] == s[k]);
            assert(glyph_pts(s.take(k + 1)[k], x + 8 * k, y).contains(p));
        }
    }
    assert(tk.union(gp) =~= tk1);
}

/// Painting `p1` and then `p2` in the same color paints their union.
proof fn lemma_draws_seq(
    a: FrameBuffer,
    b: FrameBuffer,
    c: FrameBuffer,
    p1: Set<(int, int)>,
    p2: Set<(int, int)>,
    color: u8,
)
    requires
        draws(a, b, p1, color),
        draws(b, c, p2, color),
    ensures
        draws(a, c, p1.union(p2), color),
{
    assert forall|i: int, j: int|
        0 <= i < a.spec_width() && 0 <= j < a.spec_height() implies #[trigger] c.pix(i, j) == (if p1.union(
        p2,
    ).contains((i, j)) {
        color != 0
    } else {
        a.pix(i, j)
    }) by {
        assert(b.pix(i, j) == (if p1.contains((i, j)) {
            color != 0
        } else {
            a.pix(i, j)
        }));
    }
}

/// An owned packed canvas of `width * height` one-bit pixels.
pub struct FrameBuffer {
    buffer: Vec<u8>,
    width: u32,
    height: u32,
}

/// The common contract of every drawing call: `post` is `pre` with
/// exactly the pixels of `pts` (clipped to the canvas) painted in
/// `color` — white when `color` is nonzero, black when it is zero —
/// and every other pixel untouched.
pub open spec fn draws(pre: FrameBuffer, post: FrameBuffer, pts: Set<(int, int)>, color: u8) -> bool {
    &&& post.wf()
    &&& post.spec_width() == pre.spec_width()
    &&& post.spec_height() == pre.spec_height()
    &&& forall|i: int, j: int|
        0 <= i < pre.spec_width() && 0 <= j < pre.spec_height() ==> #[trigger] post.pix(i, j)
            == (if pts.contains((i, j)) {
            color != 0
        } else {
            pre.pix(i, j)
        })
}

impl FrameBuffer {
    /// Width in pixels.
    pub closed spec fn spec_width(self) -> u32 {
        self.width
    }

    /// Height in pixels.
    pub closed spec fn spec_height(self) -> u32 {
        self.height
    }

    /// The packed bytes.
    pub closed spec fn bytes(self) -> Seq<u8> {
        self.buffer@
    }

    /// Structural invariant: byte-aligned rows and the exact packed size.
    pub open spec fn wf(self) -> bool {
        &&& self.spec_width() % 8 == 0
        &&& self.spec_width() * self.spec_height() <= u32::MAX
        &&& self.bytes().len() == self.spec_width() * self.spec_height() / 8
    }

    /// True when the pixel at `(x, y)` is white.
    pub open spec fn pix(self, x: int, y: int) -> bool {
        pixel_set(self.bytes(), self.spec_width() as int, x, y)
    }

    /// A fresh canvas, filled white (every byte `0xFF`).
    pub fn new(width: u32, height: u32) -> (fb: FrameBuffer)
        requires
            width % 8 == 0,
            width * height <= u32::MAX,
        ensures
            fb.wf(),
            fb.spec_width() == width,
            fb.spec_height() == height,
            forall|k: int| 0 <= k < fb.bytes().len() ==> fb.bytes()[k] == 0xFFu8,
    {
        let size = (width * height / 8) as usize;
        let mut buffer: Vec<u8> = Vec::new();
        for i in 0..size
            invariant
                buffer@.len() == i,
                forall|k: int| 0 <= k < i ==> buffer@[k] == 0xFFu8,
        {
            buffer.push(0xFF);
        }
        FrameBuffer { buffer, width, height }
    }

    /// Paints the single pixel `(x, y)`. A coordinate at or beyond the
    /// canvas edge is ignored: the buffer is left unchanged.
    pub fn pixel(&mut self, x: u32, y: u32, color: u8)
        requires
            old(self).wf(),
        ensures
            draws(*old(self), *final(self), Set::empty().insert((x as int, y as int)), color),
            x >= old(self).spec_width() || y >= old(self).spec_height() ==> final(self).bytes()
                == old(self).bytes(),
    {
        if x >= self.width || y >= self.height {
            return;
        }
        let ghost w = self.width as int;
        let ghost h = self.height as int;
        proof {
            lemma_linear_index_bound(w, h, x as int, y as int);
            lemma_area_mod8(w, h);
        }
        let e = x + y * self.width;
        proof {
            lemma_stream_div_bound(e as int, w * h);
            lemma_stream_mod(w, x as int, y as int);
        }
        let idx = (e / 8) as usize;
        let k: u8 = (x % 8) as u8;
        let bit: u8 = 0x80u8 >> k;
        let b = self.buffer[idx];
        if color == 0 {
            self.buffer.set(idx, b & !bit);
        } else {
            self.buffer.set(idx, b | bit);
        }
        proof {
            let pts = Set::empty().insert((x as int, y as int));
            assert forall|i: int, j: int| 0 <= i < w && 0 <= j < h implies #[trigger] self.pix(i, j)
                == (if pts.contains((i, j)) {
                color != 0
            } else {
                old(self).pix(i, j)
            }) by {
                lemma_linear_index_bound(w, h, i, j);
                lemma_area_mod8(w, h);
                lemma_stream_div_bound(i + j * w, w * h);
                lemma_stream_mod(w, i, j);
                let eij = i + j * w;
                if eij / 8 == idx {
                    if i == x && j == y {
                        if color == 0 {
                            lemma_clear_bit(b, k, k);
                        } else {
                            lemma_set_bit(b, k, k);
                        }
                    } else {
                        if eij == e as int {
                            lemma_linear_index_inj(w, i, j, x as int, y as int);
                        }
                        lemma_fundamental_div_mod(eij, 8);
                        lemma_fundamental_div_mod(e as int, 8);
                        if color == 0 {
                            lemma_clear_bit(b, k, (eij % 8) as u8);
                        } else {
                            lemma_set_bit(b, k, (eij % 8) as u8);
                        }
                    }
                }
            }
        }
    }

    /// Sets every byte to `0x00` (black) or `0xFF` (white).
    pub fn fill(&mut self, color: u8)
        requires
            old(self).wf(),
        ensures
            final(self).wf(),
            final(self).spec_width() == old(self).spec_width(),
            final(self).spec_height() == old(self).spec_height(),
            forall|k: int|
                0 <= k < final(self).bytes().len() ==> final(self).bytes()[k] == (if color == 0 {
                    0x00u8
                } else {
                    0xFFu8
                }),
    {
        let fill_byte: u8 = if color == 0 {
            0x00
        } else {
            0xFF
        };
        let n = self.buffer.len();
        for i in 0..n
            invariant
                self.buffer@.len() == n,
                self.width == old(self).width,
                self.height == old(self).height,
                n == old(self).bytes().len(),
                forall|k: int| 0 <= k < i ==> self.buffer@[k] == fill_byte,
        {
            self.buffer.set(i, fill_byte);
        }
    }

    /// Paints a horizontal run of `length` pixels to the right of
    /// `(x, y)`, clipped at the canvas edges.
    pub fn hline(&mut self, x: u32, y: u32, length: u32, color: u8)
        requires
            old(self).wf(),
            x + length <= u32::MAX,
        ensures
            draws(*old(self), *final(self), hline_pts(x as int, y as int, length as int), color),
    {
        for i in 0..length
            invariant
                x + length <= u32::MAX,
                draws(*old(self), *self, hline_pts(x as int, y as int, i as int), color),
        {
            let ghost mid = *self;
            self.pixel(x + i, y, color);
            proof {
                lemma_draws_seq(
                    *old(self),
                    mid,
                    *self,
                    hline_pts(x as int, y as int, i as int),
                    Set::empty().insert(((x + i) as int, y as int)),
                    color,
                );
                assert(hline_pts(x as int, y as int, i as int).union(
                    Set::empty().insert(((x + i) as int, y as int)),
                ) =~= hline_pts(x as int, y as int, i + 1 as int));
            }
        }
    }

    /// Paints a vertical run of `length` pixels below `(x, y)`, clipped
    /// at the canvas edges.
    pub fn vline(&mut self, x: u32, y: u32, length: u32, color: u8)
        requires
            old(self).wf(),
            y + length <= u32::MAX,
        ensures
            draws(*old(self), *final(self), vline_pts(x as int, y as int, length as int), color),
    {
        for i in 0..length
            invariant
                y + length <= u32::MAX,
                draws(*old(self), *self, vline_pts(x as int, y as int, i as int), color),
        {
            let ghost mid = *self;
            self.pixel(x, y + i, color);
            proof {
                lemma_draws_seq(
                    *old(self),
                    mid,
                    *self,
                    vline_pts(x as int, y as int, i as int),
                    Set::empty().insert((x as int, (y + i) as int)),
                    color,
                );
                assert(vline_pts(x as int, y as int, i as int).union(
                    Set::empty().insert((x as int, (y + i) as int)),
                ) =~= vline_pts(x as int, y as int, i + 1 as int));
            }
        }
    }

    /// Paints the one-pixel-wide border of a `w`-by-`h` rectangle with
    /// its top-left corner at `(x, y)`, clipped at the canvas edges.
    pub fn rect(&mut self, x: u32, y: u32, w: u32, h: u32, color: u8)
        requires
            old(self).wf(),
            1 <= w,
            1 <= h,
            x + w <= u32::MAX,
            y + h <= u32::MAX,
        ensures
            draws(
                *old(self),
                *final(self),
                rect_pts(x as int, y as int, w as int, h as int),
                color,
            ),
    {
        let ghost s0 = *self;
        self.hline(x, y, w, color);
        let ghost s1 = *self;
        self.hline(x, y + h - 1, w, color);
        let ghost s2 = *self;
        self.vline(x, y, h, color);
        let ghost s3 = *self;
        self.vline(x + w - 1, y, h, color);
        proof {
            let top = hline_pts(x as int, y as int, w as int);
            let bottom = hline_pts(x as int, y + h - 1 as int, w as int);
            let left = vline_pts(x as int, y as int, h as int);
            let right = vline_pts(x + w - 1 as int, y as int, h as int);
            lemma_draws_seq(s0, s1, s2, top, bottom, color);
            lemma_draws_seq(s0, s2, s3, top.union(bottom), left, color);
            lemma_draws_seq(s0, s3, *self, top.union(bottom).union(left), right, color);
            assert(top.union(bottom).union(left).union(right) =~= rect_pts(
                x as int,
                y as int,
                w as int,
                h as int,
            ));
        }
    }

    /// Traces the integer Bresenham segment from `(x0, y0)` to
    /// `(x1, y1)`, both endpoints included. Points with a negative
    /// coordinate are skipped, and the rest are clipped at the canvas
    /// edges.
    pub fn line(&mut self, x0: i32, y0: i32, x1: i32, y1: i32, color: u8)
        requires
            old(self).wf(),
        ensures
            draws(
                *old(self),
                *final(self),
                line_pts(x0 as int, y0 as int, x1 as int, y1 as int),
                color,
            ),
    {
        let tx: i64 = x1 as i64;
        let ty: i64 = y1 as i64;
        let dx: i64 = if x1 >= x0 {
            tx - (x0 as i64)
        } else {
            (x0 as i64) - tx
        };
        let dy: i64 = if y1 >= y0 {
            (y0 as i64) - ty
        } else {
            ty - (y0 as i64)
        };
        let sx: i64 = if x0 < x1 {
            1
        } else {
            -1
        };
        let sy: i64 = if y0 < y1 {
            1
        } else {
            -1
        };
        let mut err: i64 = dx + dy;
        let mut x: i64 = x0 as i64;
        let mut y: i64 = y0 as i64;
        let ghost a = dx as int;
        let ghost b = -(dy as int);
        let ghost gtx = tx as int;
        let ghost gty = ty as int;
        let ghost gsx = sx as int;
        let ghost gsy = sy as int;
        let ghost target = line_pts(x0 as int, y0 as int, x1 as int, y1 as int);
        let ghost mut plotted: Set<(int, int)> = Set::empty();
        proof {
            if sx == 1 {
                assert((gtx - x as int) * gsx == a);
            } else {
                assert((gtx - x as int) * gsx == a);
            }
            if sy == 1 {
                assert((gty - y as int) * gsy == b);
            } else {
                assert((gty - y as int) * gsy == b);
            }
            assert(bres_err(a, b, a, b) == a - b);
            assert(target == bres_rem_pts(gtx, gty, gsx, gsy, a, b, a, b));
            assert(plotted.union(bres_rem_pts(gtx, gty, gsx, gsy, a, b, a, b)) =~= target);
            assert(draws(*old(self), *self, plotted, color));
        }
        loop
            invariant_except_break
                old(self).wf(),
                gsx == 1 || gsx == -1,
                gsy == 1 || gsy == -1,
                gsx == sx as int,
                gsy == sy as int,
                gtx == tx as int,
                gty == ty as int,
                a == dx as int,
                b == -(dy as int),
                0 <= a < 0x1_0000_0000,
                0 <= b < 0x1_0000_0000,
                x0 as int == gtx - gsx * a,
                y0 as int == gty - gsy * b,
                i32::MIN <= tx <= i32::MAX,
                i32::MIN <= ty <= i32::MAX,
                0 <= (gtx - x as int) * gsx <= a,
                0 <= (gty - y as int) * gsy <= b,
                err as int == bres_err(a, b, (gtx - x as int) * gsx, (gty - y as int) * gsy),
                -2 * b <= err as int <= 2 * a,
                draws(*old(self), *self, plotted, color),
                plotted.union(
                    bres_rem_pts(
                        gtx,
                        gty,
                        gsx,
                        gsy,
                        a,
                        b,
                        (gtx - x as int) * gsx,
                        (gty - y as int) * gsy,
                    ),
                ) == target,
                target == line_pts(x0 as int, y0 as int, x1 as int, y1 as int),
            ensures
                draws(*old(self), *self, target, color),
            decreases (gtx - x as int) * gsx + (gty - y as int) * gsy,
        {
            let ghost p = (gtx - x as int) * gsx;
            let ghost q = (gty - y as int) * gsy;
            let ghost pt = (x as int, y as int);
            let ghost rem = bres_rem_pts(gtx, gty, gsx, gsy, a, b, p, q);
            let ghost plotted0 = plotted;
            proof {
                if sx == 1 {
                    assert(x0 as int <= x as int <= gtx);
                } else {
                    assert(gtx <= x as int <= x0 as int);
                }
                if sy == 1 {
                    assert(y0 as int <= y as int <= gty);
                } else {
                    assert(gty <= y as int <= y0 as int);
                }
                assert(i32::MIN as int <= x as int <= i32::MAX as int);
                assert(i32::MIN as int <= y as int <= i32::MAX as int);
            }
            if x >= 0 && y >= 0 {
                let ghost mid = *self;
                self.pixel(x as u32, y as u32, color);
                proof {
                    assert((x as u32) as int == x as int);
                    assert((y as u32) as int == y as int);
                    lemma_draws_seq(
                        *old(self),
                        mid,
                        *self,
                        plotted0,
                        Set::empty().insert(pt),
                        color,
                    );
                    assert(plotted0.union(Set::empty().insert(pt)) =~= plotted0.insert(pt));
                    plotted = plotted0.insert(pt);
                }
            } else {
                proof {
                    assert forall|i: int, j: int|
                        0 <= i < old(self).spec_width() && 0 <= j < old(
                            self,
                        ).spec_height() implies #[trigger] self.pix(i, j) == (if plotted0.insert(
                        pt,
                    ).contains((i, j)) {
                        color != 0
                    } else {
                        old(self).pix(i, j)
                    }) by {
                        assert(self.pix(i, j) == (if plotted0.contains((i, j)) {
                            color != 0
                        } else {
                            old(self).pix(i, j)
                        }));
                        assert((i, j) != pt);
                    }
                    plotted = plotted0.insert(pt);
                    assert(draws(*old(self), *self, plotted, color));
                }
            }
            if x == tx && y == ty {
                proof {
                    assert(p == 0);
                    assert(q == 0);
                    assert(rem == Set::empty().insert((gtx - gsx * 0, gty - gsy * 0)));
                    assert(rem =~= Set::empty().insert(pt));
                    assert(plotted0.union(rem) =~= plotted);
                    assert(target == plotted);
                }
                break;
            }
            proof {
                if x != tx {
                    if sx == 1 {
                        assert(p != 0);
                    } else {
                        assert(p != 0);
                    }
                } else {
                    if sy == 1 {
                        assert(q != 0);
                    } else {
                        assert(q != 0);
                    }
                }
                lemma_bres_no_overshoot(a, b, p, q);
                lemma_bres_err_step(a, b, p, q);
            }
            let e2: i64 = 2 * err;
            if e2 >= dy {
                err = err + dy;
                x = x + sx;
            }
            if e2 <= dx {
                err = err + dx;
                y = y + sy;
            }
            proof {
                let p2 = (gtx - x as int) * gsx;
                let q2 = (gty - y as int) * gsy;
                if e2 as int >= -b {
                    if sx == 1 {
                        assert(p2 == p - 1);
                    } else {
                        assert(p2 == p - 1);
                    }
                } else {
                    assert(p2 == p);
                }
                if e2 as int <= a {
                    if sy == 1 {
                        assert(q2 == q - 1);
                    } else {
                        assert(q2 == q - 1);
                    }
                } else {
                    assert(q2 == q);
                }
                assert(e2 as int == 2 * bres_err(a, b, p, q));
                assert(0 <= p2 && 0 <= q2);
                assert(err as int == bres_err(a, b, p2, q2));
                assert(-2 * b <= err as int <= 2 * a);
                assert(rem == bres_rem_pts(gtx, gty, gsx, gsy, a, b, p2, q2).insert(pt));
                assert(plotted.union(bres_rem_pts(gtx, gty, gsx, gsy, a, b, p2, q2)) =~= plotted0.union(rem));
            }
        }
    }

    /// Paints every pixel of a `w`-by-`h` rectangle with its top-left
    /// corner at `(x, y)`, clipped at the canvas edges.
    pub fn fill_rect(&mut self, x: u32, y: u32, w: u32, h: u32, color: u8)
        requires
            old(self).wf(),
            x + w <= u32::MAX,
            y + h <= u32::MAX,
        ensures
            draws(
                *old(self),
                *final(self),
                fill_rect_pts(x as int, y as int, w as int, h as int),
                color,
            ),
    {
        for dy in 0..h
            invariant
                x + w <= u32::MAX,
                y + h <= u32::MAX,
                draws(
                    *old(self),
                    *self,
                    fill_rect_pts(x as int, y as int, w as int, dy as int),
                    color,
                ),
        {
            let ghost mid = *self;
            self.hline(x, y + dy, w, color);
            proof {
                lemma_draws_seq(
                    *old(self),
                    mid,
                    *self,
                    fill_rect_pts(x as int, y as int, w as int, dy as int),
                    hline_pts(x as int, (y + dy) as int, w as int),
                    color,
                );
                assert(fill_rect_pts(x as int, y as int, w as int, dy as int).union(
                    hline_pts(x as int, (y + dy) as int, w as int),
                ) =~= fill_rect_pts(x as int, y as int, w as int, dy + 1 as int));
            }
        }
    }

    /// Renders `s` left to right with the 8x8 glyph table, the first
    /// glyph's top-left corner at `(x, y)`. Every character advances
    /// the cursor by 8 columns; only printable ASCII characters paint
    /// pixels.
    #[verifier::loop_isolation(false)]
    pub fn text(&mut self, s: &str, x: u32, y: u32, color: u8)
        requires
            old(self).wf(),
            x + 8 * s@.len() <= u32::MAX,
            y + 8 <= u32::MAX,
        ensures
            draws(*old(self), *final(self), text_pts(s@, x as int, y as int), color),
    {
        let ghost gx = x as int;
        let ghost gy = y as int;
        let n = s.unicode_len();
        for k in 0..n
            invariant
                draws(*old(self), *self, text_pts(s@.take(k as int), gx, gy), color),
        {
            let ch = s.get_char(k);
            let cx = x + 8 * (k as u32);
            let ghost mid = *self;
            let ghost gcx = cx as int;
            let code = ch as u32;
            if 32 <= code && code < 128 {
                let g = FONT[(code - 32) as usize];
                proof {
                    assert(forall|r: int| 0 <= r < 8 ==> g[r] == glyph_row(ch as int, r));
                }
                for r in 0..8usize
                    invariant
                        draws(mid, *self, glyph_rows_pts(ch, gcx, gy, r as int), color),
                {
                    let row_bits = g[r];
                    for c in 0..8usize
                        invariant
                            draws(
                                mid,
                                *self,
                                glyph_rows_pts(ch, gcx, gy, r as int).union(
                                    glyph_row_prefix_pts(ch, gcx, gy, r as int, c as int),
                                ),
                                color,
                            ),
                    {
                        let ghost cur = glyph_rows_pts(ch, gcx, gy, r as int).union(
                            glyph_row_prefix_pts(ch, gcx, gy, r as int, c as int),
                        );
                        let ghost nxt = glyph_rows_pts(ch, gcx, gy, r as int).union(
                            glyph_row_prefix_pts(ch, gcx, gy, r as int, c as int + 1),
                        );
                        let mask: u8 = 0x80u8 >> (c as u8);
                        if row_bits & mask != 0 {
                            let ghost mid2 = *self;
                            self.pixel(cx + (c as u32), y + (r as u32), color);
                            proof {
                                assert(bit_at(glyph_row(ch as int, r as int), c as u8));
                                lemma_draws_seq(
                                    mid,
                                    mid2,
                                    *self,
                                    cur,
                                    Set::empty().insert((gcx + c as int, gy + r as int)),
                                    color,
                                );
                                assert(cur.union(
                                    Set::empty().insert((gcx + c as int, gy + r as int)),
                                ) =~= nxt);
                            }
                        } else {
                            proof {
                                assert(!bit_at(glyph_row(ch as int, r as int), c as u8));
                                assert(cur =~= nxt);
                            }
                        }
                    }
                    proof {
                        assert(glyph_rows_pts(ch, gcx, gy, r as int).union(
                            glyph_row_prefix_pts(ch, gcx, gy, r as int, 8),
                        ) =~= glyph_rows_pts(ch, gcx, gy, r as int + 1));
                    }
                }
                proof {
                    assert(glyph_rows_pts(ch, gcx, gy, 8) =~= glyph_pts(ch, gcx, gy));
                }
            } else {
                proof {
                    assert(glyph_pts(ch, gcx, gy) =~= Set::<(int, int)>::empty());
                }
            }
            proof {
                lemma_draws_seq(
                    *old(self),
                    mid,
                    *self,
                    text_pts(s@.take(k as int), gx, gy),
                    glyph_pts(ch, gcx, gy),
                    color,
                );
                lemma_text_pts_snoc(s@, gx, gy, k as int);
            }
        }
        proof {
            assert(s@.take(n as int) =~= s@);
        }
    }

    /// The raw packed bytes, ready to hand to the panel's display call.
    pub fn buffer(&self) -> (r: &[u8])
        ensures
            r@ == self.bytes(),
    {
        self.buffer.as_slice()
    }
}

} // verus!
