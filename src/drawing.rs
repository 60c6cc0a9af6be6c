//! Monochrome rasterizer for packed frame buffers: 8 pixels per byte, most
//! significant bit first, rows of `ceil(width / 8)` bytes, top row first.
use vstd::prelude::*;
use vstd::arithmetic::div_mod::lemma_fundamental_div_mod_converse;
use crate::font::{get_glyph_row, glyph_bit};

verus! {

/// The two colors of the panel. A white pixel is a set bit.
#[derive(Copy, Clone, Debug, PartialEq, Eq, Structural)]
pub enum Color {
    Black,
    White,
}

impl Color {
    /// Value of a pixel's bit in this color.
    pub open spec fn is_set(self) -> bool {
        self == Color::White
    }

    /// A byte whose eight pixels all have this color.
    pub open spec fn spec_full_byte(self) -> u8 {
        if self.is_set() {
            0xff
        } else {
            0x00
        }
    }

    /// Returns the bit of a pixel in this color.
    pub fn get_bit_value(&self) -> (r: u8)
        ensures
            r == (if self.is_set() { 1u8 } else { 0u8 }),
    {
        match self {
            Color::White => 1,
            Color::Black => 0,
        }
    }

    /// Returns a byte whose eight pixels all have this color.
    pub fn get_full_byte(&self) -> (r: u8)
        ensures
            r == self.spec_full_byte(),
    {
        match self {
            Color::White => 0xff,
            Color::Black => 0x00,
        }
    }
}

/// Mask of the bit that holds column `x` within its byte.
pub open spec fn bit_mask(x: int) -> u8 {
    0x80u8 >> ((x % 8) as u8)
}

/// Whether `v` lies between `a` and `b`, in either order, ends included.
pub open spec fn between(v: int, a: int, b: int) -> bool {
    (a <= v && v <= b) || (b <= v && v <= a)
}

/// Signed distance covered from `a0` to `a` in the given direction.
pub open spec fn step_from(a0: int, a: int, forward: bool) -> int {
    if forward {
        a - a0
    } else {
        a0 - a
    }
}

/// The point `off` away from `b0` in the given direction.
pub open spec fn offset_to(b0: int, off: int, forward: bool) -> int {
    if forward {
        b0 + off
    } else {
        b0 - off
    }
}

/// Offset along the minor axis at step `i` of a segment that covers `da`
/// steps on its major axis and `db` on its minor one: `i * db / da`, rounded
/// to the nearest integer, halves up.
pub open spec fn line_offset(i: int, da: int, db: int) -> int {
    if da == 0 {
        0
    } else {
        (2 * i * db + da) / (2 * da)
    }
}

/// Whether (`px`, `py`) is one of the first `n` points of a segment walked
/// from (`a0`, `b0`) along its major axis `a`; with `swap` the major axis is y.
pub open spec fn on_segment(
    a0: int,
    b0: int,
    da: int,
    db: int,
    fa: bool,
    fb: bool,
    swap: bool,
    n: int,
    px: int,
    py: int,
) -> bool {
    let pa = if swap { py } else { px };
    let pb = if swap { px } else { py };
    let i = step_from(a0, pa, fa);
    0 <= i < n && pb == offset_to(b0, line_offset(i, da, db), fb)
}

/// The pixels of the segment from (`x0`, `y0`) to (`x1`, `y1`) as walked
/// from the first end: one pixel per step of the major axis.
pub open spec fn walk(x0: int, y0: int, x1: int, y1: int, px: int, py: int) -> bool {
    let dx = if x1 >= x0 { x1 - x0 } else { x0 - x1 };
    let dy = if y1 >= y0 { y1 - y0 } else { y0 - y1 };
    if dx >= dy {
        on_segment(x0, y0, dx, dy, x1 >= x0, y1 >= y0, false, dx + 1, px, py)
    } else {
        on_segment(y0, x0, dy, dx, y1 >= y0, x1 >= x0, true, dy + 1, px, py)
    }
}

/// The pixels of a line: the walk from the end that comes first, by x and
/// then by y, so that both orders of the ends give the same pixels.
pub open spec fn line_shape(x0: int, y0: int, x1: int, y1: int, px: int, py: int) -> bool {
    if x0 < x1 || (x0 == x1 && y0 <= y1) {
        walk(x0, y0, x1, y1, px, py)
    } else {
        walk(x1, y1, x0, y0, px, py)
    }
}

/// A canvas of `width` by `height` pixels.
#[derive(Copy, Clone, Debug, PartialEq, Eq, Structural)]
pub struct Graphics {
    pub width: u16,
    pub height: u16,
}

impl Graphics {
    /// Bytes in one row.
    pub open spec fn row_bytes(self) -> int {
        (self.width + 7) / 8
    }

    /// Bytes in a buffer of this canvas.
    pub open spec fn buffer_len(self) -> int {
        self.row_bytes() * self.height
    }

    /// Whether (`x`, `y`) is a pixel of the canvas.
    pub open spec fn in_bounds(self, x: int, y: int) -> bool {
        0 <= x < self.width && 0 <= y < self.height
    }

    /// Index of the byte that holds pixel (`x`, `y`).
    pub open spec fn byte_index(self, x: int, y: int) -> int {
        y * self.row_bytes() + x / 8
    }

    /// Whether pixel (`x`, `y`) of `buf` is set (white).
    pub open spec fn pixel(self, buf: Seq<u8>, x: int, y: int) -> bool {
        buf[self.byte_index(x, y)] & bit_mask(x) != 0
    }

    /// `new` is `old` with the pixels of `shape` in the canvas set to `color`
    /// and every other pixel as it was.
    pub open spec fn painted(
        self,
        old: Seq<u8>,
        new: Seq<u8>,
        shape: spec_fn(int, int) -> bool,
        color: Color,
    ) -> bool {
        &&& new.len() == old.len()
        &&& forall|x: int, y: int|
            self.in_bounds(x, y) ==> #[trigger] self.pixel(new, x, y) == if shape(x, y) {
                color.is_set()
            } else {
                self.pixel(old, x, y)
            }
    }

    proof fn lemma_index(self, x: int, y: int)
        requires
            self.in_bounds(x, y),
        ensures
            0 <= self.byte_index(x, y) < self.buffer_len(),
    {
        let rb = self.row_bytes();
        assert(x / 8 < rb);
        assert(0 <= y * rb) by (nonlinear_arith)
            requires
                0 <= y,
                0 <= rb,
        ;
        assert(y * rb + x / 8 < self.height * rb) by (nonlinear_arith)
            requires
                0 <= x / 8 < rb,
                0 <= y < self.height,
        ;
    }

    proof fn lemma_index_distinct(self, x1: int, y1: int, x2: int, y2: int)
        requires
            self.in_bounds(x1, y1),
            self.in_bounds(x2, y2),
            self.byte_index(x1, y1) == self.byte_index(x2, y2),
        ensures
            y1 == y2,
            x1 / 8 == x2 / 8,
    {
        let rb = self.row_bytes();
        assert(y1 == y2) by (nonlinear_arith)
            requires
                0 <= x1 / 8 < rb,
                0 <= x2 / 8 < rb,
                0 <= y1,
                0 <= y2,
                y1 * rb + x1 / 8 == y2 * rb + x2 / 8,
        ;
    }

    /// Lemma: painting `s1` and then `s2` paints their union.
    pub proof fn lemma_painted_union(
        self,
        a: Seq<u8>,
        b: Seq<u8>,
        c: Seq<u8>,
        s1: spec_fn(int, int) -> bool,
        s2: spec_fn(int, int) -> bool,
        color: Color,
    )
        requires
            self.painted(a, b, s1, color),
            self.painted(b, c, s2, color),
        ensures
            self.painted(a, c, |x: int, y: int| s1(x, y) || s2(x, y), color),
    {
        assert forall|x: int, y: int| self.in_bounds(x, y) implies #[trigger] self.pixel(c, x, y)
            == if s1(x, y) || s2(x, y) {
            color.is_set()
        } else {
            self.pixel(a, x, y)
        } by {
            assert(self.pixel(c, x, y) == if s2(x, y) {
                color.is_set()
            } else {
                self.pixel(b, x, y)
            });
            assert(self.pixel(b, x, y) == if s1(x, y) {
                color.is_set()
            } else {
                self.pixel(a, x, y)
            });
        }
    }

    /// Lemma: a painting is described as well by any shape that has the same
    /// pixels in the canvas.
    pub proof fn lemma_painted_same_shape(
        self,
        a: Seq<u8>,
        b: Seq<u8>,
        s1: spec_fn(int, int) -> bool,
        s2: spec_fn(int, int) -> bool,
        color: Color,
    )
        requires
            self.painted(a, b, s1, color),
            forall|x: int, y: int| self.in_bounds(x, y) ==> s1(x, y) == s2(x, y),
        ensures
            self.painted(a, b, s2, color),
    {
        assert forall|x: int, y: int| self.in_bounds(x, y) implies #[trigger] self.pixel(b, x, y)
            == if s2(x, y) {
            color.is_set()
        } else {
            self.pixel(a, x, y)
        } by {
            assert(self.pixel(b, x, y) == if s1(x, y) {
                color.is_set()
            } else {
                self.pixel(a, x, y)
            });
        }
    }

    /// Creates a canvas of `width` by `height` pixels.
    pub fn new(width: u16, height: u16) -> (r: Self)
        ensures
            r.width == width,
            r.height == height,
    {
        Graphics { width, height }
    }

    /// Returns the number of bytes of a buffer of this canvas.
    pub fn get_buffer_len(&self) -> (r: usize)
        ensures
            r == self.buffer_len(),
    {
        let row: usize = (self.width as usize + 7) / 8;
        assert(row * (self.height as usize) <= 8192 * 65535) by (nonlinear_arith)
            requires
                row <= 8192,
        ;
        row * self.height as usize
    }

    /// Sets pixel (`x`, `y`) to `color`; a pixel outside the canvas is left out.
    fn put(&self, buffer: &mut Vec<u8>, x: i64, y: i64, color: Color)
        requires
            old(buffer)@.len() == self.buffer_len(),
        ensures
            self.painted(old(buffer)@, final(buffer)@, |px: int, py: int| px == x && py == y, color),
            !self.in_bounds(x as int, y as int) ==> final(buffer)@ == old(buffer)@,
    {
        if x < 0 || y < 0 || x >= self.width as i64 || y >= self.height as i64 {
            return;
        }
        proof {
            self.lemma_index(x as int, y as int);
        }
        let row: usize = (self.width as usize + 7) / 8;
        let len: usize = buffer.len();
        assert((y as usize) * row <= self.byte_index(x as int, y as int) < len) by (nonlinear_arith)
            requires
                row == self.row_bytes(),
                0 <= y,
                0 <= x,
                self.byte_index(x as int, y as int) < len,
                self.byte_index(x as int, y as int) == y * self.row_bytes() + x / 8,
        ;
        let idx: usize = y as usize * row + x as usize / 8;
        let k: u8 = (x % 8) as u8;
        let mask: u8 = 0x80u8 >> k;
        let b: u8 = buffer[idx];
        let nb: u8 = match color {
            Color::White => b | mask,
            Color::Black => b & !mask,
        };
        buffer.set(idx, nb);
        proof {
            let ob = old(buffer)@;
            let nbuf = buffer@;
            assert forall|px: int, py: int| self.in_bounds(px, py) implies #[trigger] self.pixel(nbuf, px, py)
                == if px == x && py == y {
                color.is_set()
            } else {
                self.pixel(ob, px, py)
            } by {
                self.lemma_index(px, py);
                let j = (px % 8) as u8;
                if self.byte_index(px, py) == idx as int {
                    self.lemma_index_distinct(px, py, x as int, y as int);
                    assert(px % 8 == x % 8 <==> px == x);
                    lemma_bits(b, k, j);
                }
            }
        }
    }

    /// Sets every pixel to `color`.
    pub fn clear(&self, buffer: &mut Vec<u8>, color: &Color)
        requires
            old(buffer)@.len() == self.buffer_len(),
        ensures
            final(buffer)@ == filled(old(buffer)@.len(), *color),
    {
        let byte = color.get_full_byte();
        let n = buffer.len();
        let mut i: usize = 0;
        while i < n
            invariant
                n == buffer@.len(),
                i <= n,
                forall|j: int| 0 <= j < i ==> buffer@[j] == byte,
            decreases n - i,
        {
            buffer.set(i, byte);
            i = i + 1;
        }
        assert(buffer@ =~= filled(n as nat, *color));
    }

    /// Sets pixel (`x`, `y`) to `color`. A pixel outside the canvas is left
    /// out and the buffer stays as it was.
    pub fn draw_pixel(&self, buffer: &mut Vec<u8>, x: u16, y: u16, color: &Color)
        requires
            old(buffer)@.len() == self.buffer_len(),
        ensures
            self.painted(old(buffer)@, final(buffer)@, |px: int, py: int| px == x && py == y, *color),
            !self.in_bounds(x as int, y as int) ==> final(buffer)@ == old(buffer)@,
    {
        self.put(buffer, x as i64, y as i64, *color);
    }

    /// Walks a segment from (`a0`, `b0`) for `da` steps on its major axis,
    /// setting one pixel per step; with `swap` the major axis is y.
    fn walk_segment(
        &self,
        buffer: &mut Vec<u8>,
        a0: i64,
        b0: i64,
        da: i64,
        db: i64,
        fa: bool,
        fb: bool,
        swap: bool,
        color: Color,
    )
        requires
            old(buffer)@.len() == self.buffer_len(),
            0 <= a0 <= 0xffff,
            0 <= b0 <= 0xffff,
            0 <= db <= da <= 0xffff,
        ensures
            self.painted(
                old(buffer)@,
                final(buffer)@,
                |px: int, py: int| on_segment(a0 as int, b0 as int, da as int, db as int, fa, fb, swap, da + 1, px, py),
                color,
            ),
    {
        let ghost start = buffer@;
        let mut i: i64 = 0;
        let mut m: i64 = 0;
        let mut err: i64 = da;
        proof {
            if da > 0 {
                assert(2 * 0 * db == 0);
                lemma_fundamental_div_mod_converse(da as int, 2 * da, 0, da as int);
            }
        }
        assert(self.painted(start, buffer@, |px: int, py: int| on_segment(a0 as int, b0 as int, da as int, db as int, fa, fb, swap, 0, px, py), color));
        while i <= da
            invariant
                buffer@.len() == self.buffer_len(),
                0 <= a0 <= 0xffff,
                0 <= b0 <= 0xffff,
                0 <= db <= da <= 0xffff,
                0 <= i <= da + 1,
                0 <= m <= i,
                i <= da ==> m == line_offset(i as int, da as int, db as int),
                err == 2 * i * db + da - 2 * da * m,
                0 <= err,
                da > 0 ==> err < 2 * da,
                self.painted(start, buffer@, |px: int, py: int| on_segment(a0 as int, b0 as int, da as int, db as int, fa, fb, swap, i as int, px, py), color),
            decreases da + 1 - i,
        {
            let a: i64 = if fa { a0 + i } else { a0 - i };
            let b: i64 = if fb { b0 + m } else { b0 - m };
            let ghost mid = buffer@;
            if swap {
                self.put(buffer, b, a, color);
            } else {
                self.put(buffer, a, b, color);
            }
            proof {
                let s1 = |px: int, py: int| on_segment(a0 as int, b0 as int, da as int, db as int, fa, fb, swap, i as int, px, py);
                let pt = |px: int, py: int| if swap { px == b && py == a } else { px == a && py == b };
                let s2 = |px: int, py: int| on_segment(a0 as int, b0 as int, da as int, db as int, fa, fb, swap, i + 1, px, py);
                if swap {
                    assert(self.painted(mid, buffer@, pt, color));
                } else {
                    assert(self.painted(mid, buffer@, pt, color));
                }
                self.lemma_painted_union(start, mid, buffer@, s1, pt, color);
                self.lemma_painted_same_shape(start, buffer@, |px: int, py: int| s1(px, py) || pt(px, py), s2, color);
            }
            let ghost (oi, om, oerr) = (i as int, m as int, err as int);
            i = i + 1;
            err = err + 2 * db;
            if err >= 2 * da {
                err = err - 2 * da;
                m = m + 1;
            }
            proof {
                assert(err == 2 * i * db + da - 2 * da * m) by (nonlinear_arith)
                    requires
                        oerr == 2 * oi * db + da - 2 * da * om,
                        i == oi + 1,
                        (m == om && err == oerr + 2 * db) || (m == om + 1 && err == oerr + 2 * db - 2 * da),
                ;
                if i <= da {
                    assert(2 * i * db + da == m * (2 * da) + err) by (nonlinear_arith)
                        requires
                            err == 2 * i * db + da - 2 * da * m,
                    ;
                    lemma_fundamental_div_mod_converse(2 * i * db + da, 2 * da, m as int, err as int);
                }
            }
        }
    }

    /// Draws the line from (`x0`, `y0`) to (`x1`, `y1`), both ends included,
    /// with the incremental integer (Bresenham) walk. Both orders of the ends
    /// give the same pixels.
    pub fn draw_line(&self, buffer: &mut Vec<u8>, x0: u16, y0: u16, x1: u16, y1: u16, color: &Color)
        requires
            old(buffer)@.len() == self.buffer_len(),
        ensures
            self.painted(
                old(buffer)@,
                final(buffer)@,
                |px: int, py: int| line_shape(x0 as int, y0 as int, x1 as int, y1 as int, px, py),
                *color,
            ),
    {
        let (sx, sy, ex, ey) = if x0 < x1 || (x0 == x1 && y0 <= y1) {
            (x0 as i64, y0 as i64, x1 as i64, y1 as i64)
        } else {
            (x1 as i64, y1 as i64, x0 as i64, y0 as i64)
        };
        let dx: i64 = if ex >= sx { ex - sx } else { sx - ex };
        let dy: i64 = if ey >= sy { ey - sy } else { sy - ey };
        let ghost start = buffer@;
        if dx >= dy {
            self.walk_segment(buffer, sx, sy, dx, dy, ex >= sx, ey >= sy, false, *color);
        } else {
            self.walk_segment(buffer, sy, sx, dy, dx, ey >= sy, ex >= sx, true, *color);
        }
        proof {
            let s = |px: int, py: int| walk(sx as int, sy as int, ex as int, ey as int, px, py);
            if dx >= dy {
                self.lemma_painted_same_shape(start, buffer@, |px: int, py: int| on_segment(sx as int, sy as int, dx as int, dy as int, ex >= sx, ey >= sy, false, dx + 1, px, py), s, *color);
            } else {
                self.lemma_painted_same_shape(start, buffer@, |px: int, py: int| on_segment(sy as int, sx as int, dy as int, dx as int, ey >= sy, ex >= sx, true, dy + 1, px, py), s, *color);
            }
            self.lemma_painted_same_shape(start, buffer@, s, |px: int, py: int| line_shape(x0 as int, y0 as int, x1 as int, y1 as int, px, py), *color);
        }
    }

    /// Draws the outline of the rectangle with corners (`x0`, `y0`) and
    /// (`x1`, `y1`).
    pub fn draw_rectangle(&self, buffer: &mut Vec<u8>, x0: u16, y0: u16, x1: u16, y1: u16, color: &Color)
        requires
            old(buffer)@.len() == self.buffer_len(),
        ensures
            self.painted(
                old(buffer)@,
                final(buffer)@,
                |px: int, py: int| rect_outline(x0 as int, y0 as int, x1 as int, y1 as int, px, py),
                *color,
            ),
    {
        let ghost b0 = buffer@;
        self.draw_line(buffer, x0, y0, x1, y0, color);
        let ghost b1 = buffer@;
        self.draw_line(buffer, x1, y0, x1, y1, color);
        let ghost b2 = buffer@;
        self.draw_line(buffer, x1, y1, x0, y1, color);
        let ghost b3 = buffer@;
        self.draw_line(buffer, x0, y1, x0, y0, color);
        proof {
            let (a0, c0, a1, c1) = (x0 as int, y0 as int, x1 as int, y1 as int);
            let l1 = |px: int, py: int| line_shape(a0, c0, a1, c0, px, py);
            let l2 = |px: int, py: int| line_shape(a1, c0, a1, c1, px, py);
            let l3 = |px: int, py: int| line_shape(a1, c1, a0, c1, px, py);
            let l4 = |px: int, py: int| line_shape(a0, c1, a0, c0, px, py);
            self.lemma_painted_union(b0, b1, b2, l1, l2, *color);
            let u2 = |px: int, py: int| l1(px, py) || l2(px, py);
            self.lemma_painted_union(b0, b2, b3, u2, l3, *color);
            let u3 = |px: int, py: int| u2(px, py) || l3(px, py);
            self.lemma_painted_union(b0, b3, buffer@, u3, l4, *color);
            lemma_axis_line(a0, a1, c0);
            lemma_axis_line(c0, c1, a1);
            lemma_axis_line(a1, a0, c1);
            lemma_axis_line(c1, c0, a0);
            self.lemma_painted_same_shape(
                b0,
                buffer@,
                |px: int, py: int| u3(px, py) || l4(px, py),
                |px: int, py: int| rect_outline(a0, c0, a1, c1, px, py),
                *color,
            );
        }
    }

    /// Fills the rectangle with corners (`x0`, `y0`) and (`x1`, `y1`),
    /// boundary included: exactly the pixels between the corners' columns
    /// and between their rows.
    pub fn draw_filled_rectangle(&self, buffer: &mut Vec<u8>, x0: u16, y0: u16, x1: u16, y1: u16, color: &Color)
        requires
            old(buffer)@.len() == self.buffer_len(),
        ensures
            self.painted(
                old(buffer)@,
                final(buffer)@,
                |px: int, py: int| rect_fill(x0 as int, y0 as int, x1 as int, y1 as int, px, py),
                *color,
            ),
    {
        let ghost start = buffer@;
        let (top, bottom) = if y0 <= y1 { (y0, y1) } else { (y1, y0) };
        let mut y: u32 = top as u32;
        while y <= bottom as u32
            invariant
                buffer@.len() == self.buffer_len(),
                top <= y <= bottom + 1,
                top == if y0 <= y1 { y0 } else { y1 },
                bottom == if y0 <= y1 { y1 } else { y0 },
                self.painted(
                    start,
                    buffer@,
                    |px: int, py: int| between(px, x0 as int, x1 as int) && top <= py < y,
                    *color,
                ),
            decreases bottom + 1 - y,
        {
            let ghost mid = buffer@;
            self.draw_line(buffer, x0, y as u16, x1, y as u16, color);
            proof {
                lemma_axis_line(x0 as int, x1 as int, y as int);
                self.lemma_painted_union(
                    start,
                    mid,
                    buffer@,
                    |px: int, py: int| between(px, x0 as int, x1 as int) && top <= py < y,
                    |px: int, py: int| line_shape(x0 as int, y as int, x1 as int, y as int, px, py),
                    *color,
                );
                self.lemma_painted_same_shape(
                    start,
                    buffer@,
                    |px: int, py: int| (between(px, x0 as int, x1 as int) && top <= py < y)
                        || line_shape(x0 as int, y as int, x1 as int, y as int, px, py),
                    |px: int, py: int| between(px, x0 as int, x1 as int) && top <= py < y + 1,
                    *color,
                );
            }
            y = y + 1;
        }
        proof {
            self.lemma_painted_same_shape(
                start,
                buffer@,
                |px: int, py: int| between(px, x0 as int, x1 as int) && top <= py < y,
                |px: int, py: int| rect_fill(x0 as int, y0 as int, x1 as int, y1 as int, px, py),
                *color,
            );
        }
    }

    /// Sets the eight mirror images of (`a`, `b`) around (`cx`, `cy`).
    fn put_mirrored(&self, buffer: &mut Vec<u8>, cx: i64, cy: i64, a: i64, b: i64, color: Color)
        requires
            old(buffer)@.len() == self.buffer_len(),
            0 <= cx <= 0xffff,
            0 <= cy <= 0xffff,
            0 <= a <= 0x1ffff,
            0 <= b <= 0x1ffff,
        ensures
            self.painted(
                old(buffer)@,
                final(buffer)@,
                |px: int, py: int| mirrored(cx as int, cy as int, a as int, b as int, px, py),
                color,
            ),
    {
        let ghost b0 = buffer@;
        let ghost mut acc: spec_fn(int, int) -> bool = |qx: int, qy: int| false;
        self.put(buffer, cx + a, cy + b, color);
        proof {
            let pt = |qx: int, qy: int| qx == cx + a && qy == cy + b;
            self.lemma_painted_same_shape(b0, buffer@, pt, |qx: int, qy: int| acc(qx, qy) || pt(qx, qy), color);
            acc = |qx: int, qy: int| acc(qx, qy) || pt(qx, qy);
        }
        let ghost mid = buffer@;
        self.put(buffer, cx - a, cy + b, color);
        proof {
            let pt = |qx: int, qy: int| qx == cx - a && qy == cy + b;
            self.lemma_painted_union(b0, mid, buffer@, acc, pt, color);
            acc = |qx: int, qy: int| acc(qx, qy) || pt(qx, qy);
        }
        let ghost mid = buffer@;
        self.put(buffer, cx + a, cy - b, color);
        proof {
            let pt = |qx: int, qy: int| qx == cx + a && qy == cy - b;
            self.lemma_painted_union(b0, mid, buffer@, acc, pt, color);
            acc = |qx: int, qy: int| acc(qx, qy) || pt(qx, qy);
        }
        let ghost mid = buffer@;
        self.put(buffer, cx - a, cy - b, color);
        proof {
            let pt = |qx: int, qy: int| qx == cx - a && qy == cy - b;
            self.lemma_painted_union(b0, mid, buffer@, acc, pt, color);
            acc = |qx: int, qy: int| acc(qx, qy) || pt(qx, qy);
        }
        let ghost mid = buffer@;
        self.put(buffer, cx + b, cy + a, color);
        proof {
            let pt = |qx: int, qy: int| qx == cx + b && qy == cy + a;
            self.lemma_painted_union(b0, mid, buffer@, acc, pt, color);
            acc = |qx: int, qy: int| acc(qx, qy) || pt(qx, qy);
        }
        let ghost mid = buffer@;
        self.put(buffer, cx - b, cy + a, color);
        proof {
            let pt = |qx: int, qy: int| qx == cx - b && qy == cy + a;
            self.lemma_painted_union(b0, mid, buffer@, acc, pt, color);
            acc = |qx: int, qy: int| acc(qx, qy) || pt(qx, qy);
        }
        let ghost mid = buffer@;
        self.put(buffer, cx + b, cy - a, color);
        proof {
            let pt = |qx: int, qy: int| qx == cx + b && qy == cy - a;
            self.lemma_painted_union(b0, mid, buffer@, acc, pt, color);
            acc = |qx: int, qy: int| acc(qx, qy) || pt(qx, qy);
        }
        let ghost mid = buffer@;
        self.put(buffer, cx - b, cy - a, color);
        proof {
            let pt = |qx: int, qy: int| qx == cx - b && qy == cy - a;
            self.lemma_painted_union(b0, mid, buffer@, acc, pt, color);
            acc = |qx: int, qy: int| acc(qx, qy) || pt(qx, qy);
        }
        proof {
            assert forall|qx: int, qy: int| self.in_bounds(qx, qy) implies acc(qx, qy) == mirrored(cx as int, cy as int, a as int, b as int, qx, qy) by {}
            self.lemma_painted_same_shape(b0, buffer@, acc, |qx: int, qy: int| mirrored(cx as int, cy as int, a as int, b as int, qx, qy), color);
        }
    }

    /// Draws the outline of the circle of radius `radius` around
    /// (`x_center`, `y_center`) with the midpoint walk over the first octant,
    /// mirrored eight ways.
    pub fn draw_circle(&self, buffer: &mut Vec<u8>, x_center: u16, y_center: u16, radius: u16, color: &Color)
        requires
            old(buffer)@.len() == self.buffer_len(),
        ensures
            self.painted(
                old(buffer)@,
                final(buffer)@,
                |px: int, py: int| circle_shape(x_center as int, y_center as int, radius as int, px, py),
                *color,
            ),
    {
        let ghost start = buffer@;
        let ghost (gcx, gcy, r) = (x_center as int, y_center as int, radius as int);
        let cx: i64 = x_center as i64;
        let cy: i64 = y_center as i64;
        let mut x: i64 = 0;
        let mut y: i64 = radius as i64;
        let mut d: i64 = 1 - radius as i64;
        proof {
            assert(on_arc(0, r, r)) by (nonlinear_arith)
                requires
                    r >= 0,
            ;
            assert(d == (0 + 1) * (0 + 1) + r * r - r - r * r) by (nonlinear_arith)
                requires
                    d == 1 - r,
            ;
        }
        while x <= y
            invariant
                buffer@.len() == self.buffer_len(),
                cx == gcx,
                cy == gcy,
                0 <= gcx <= 0xffff,
                0 <= gcy <= 0xffff,
                0 <= r <= 0xffff,
                0 <= x <= r + 1,
                -1 <= y <= r,
                x <= y ==> on_arc(x as int, y as int, r),
                x <= y ==> d == (x + 1) * (x + 1) + y * y - y - r * r,
                x > y ==> x >= 1 && 4 * x * x + (2 * x - 1) * (2 * x - 1) >= 4 * r * r,
                self.painted(
                    start,
                    buffer@,
                    |px: int, py: int| (on_arc(abs(px - gcx), abs(py - gcy), r) && abs(px - gcx) < x)
                        || (on_arc(abs(py - gcy), abs(px - gcx), r) && abs(py - gcy) < x),
                    *color,
                ),
            decreases r + 1 - x,
        {
            let ghost mid = buffer@;
            self.put_mirrored(buffer, cx, cy, x, y, *color);
            proof {
                let s1 = |px: int, py: int| (on_arc(abs(px - gcx), abs(py - gcy), r) && abs(px - gcx) < x)
                    || (on_arc(abs(py - gcy), abs(px - gcx), r) && abs(py - gcy) < x);
                let s2 = |px: int, py: int| (on_arc(abs(px - gcx), abs(py - gcy), r) && abs(px - gcx) < x + 1)
                    || (on_arc(abs(py - gcy), abs(px - gcx), r) && abs(py - gcy) < x + 1);
                let m = |px: int, py: int| mirrored(gcx, gcy, x as int, y as int, px, py);
                self.lemma_painted_union(start, mid, buffer@, s1, m, *color);
                assert forall|px: int, py: int| self.in_bounds(px, py) implies (s1(px, py) || m(px, py)) == s2(px, py) by {
                    let u = abs(px - gcx);
                    let v = abs(py - gcy);
                    if u == x && on_arc(u, v, r) {
                        lemma_arc_unique(x as int, v, y as int, r);
                    }
                    if v == x && on_arc(v, u, r) {
                        lemma_arc_unique(x as int, u, y as int, r);
                    }
                }
                self.lemma_painted_same_shape(start, buffer@, |px: int, py: int| s1(px, py) || m(px, py), s2, *color);
                lemma_arc_step(x as int, y as int, r, d as int);
            }
            assert(-0x2_0000_0000 <= d <= 0x2_0000_0000) by (nonlinear_arith)
                requires
                    d == (x + 1) * (x + 1) + y * y - y - r * r,
                    0 <= x <= y,
                    y <= 0xffff,
                    0 <= r <= 0xffff,
            ;
            if d < 0 {
                d = d + 2 * x + 3;
            } else {
                d = d + 2 * (x - y) + 5;
                y = y - 1;
            }
            x = x + 1;
            proof {
                if x <= y {
                    assert(d == (x + 1) * (x + 1) + y * y - y - r * r) by (nonlinear_arith)
                        requires
                            x >= 1,
                            ({
                                let ox = x - 1;
                                ||| (d - 2 * ox - 3 == (ox + 1) * (ox + 1) + y * y - y - r * r)
                                ||| (d - 2 * (ox - (y + 1)) - 5 == (ox + 1) * (ox + 1) + (y + 1) * (y + 1) - (y + 1) - r * r)
                            }),
                    ;
                }
            }
        }
        proof {
            assert forall|px: int, py: int| self.in_bounds(px, py) implies
                ((on_arc(abs(px - gcx), abs(py - gcy), r) && abs(px - gcx) < x)
                || (on_arc(abs(py - gcy), abs(px - gcx), r) && abs(py - gcy) < x))
                == circle_shape(gcx, gcy, r, px, py) by {
                let u = abs(px - gcx);
                let v = abs(py - gcy);
                if on_arc(u, v, r) && u >= x {
                    lemma_arc_beyond(x as int, u, v, r);
                }
                if on_arc(v, u, r) && v >= x {
                    lemma_arc_beyond(x as int, v, u, r);
                }
            }
            self.lemma_painted_same_shape(
                start,
                buffer@,
                |px: int, py: int| (on_arc(abs(px - gcx), abs(py - gcy), r) && abs(px - gcx) < x)
                    || (on_arc(abs(py - gcy), abs(px - gcx), r) && abs(py - gcy) < x),
                |px: int, py: int| circle_shape(gcx, gcy, r, px, py),
                *color,
            );
        }
    }

    /// Sets the pixels of row `row` from column `from` to column `to`.
    fn put_row(&self, buffer: &mut Vec<u8>, row: i64, from: i64, to: i64, color: Color)
        requires
            old(buffer)@.len() == self.buffer_len(),
            -0x20000 <= from,
            to <= 0x20000,
            -0x20000 <= row <= 0x20000,
        ensures
            self.painted(old(buffer)@, final(buffer)@, |px: int, py: int| py == row && from <= px <= to, color),
    {
        let ghost start = buffer@;
        let mut x: i64 = from;
        while x <= to
            invariant
                buffer@.len() == self.buffer_len(),
                -0x20000 <= from,
                to <= 0x20000,
                -0x20000 <= row <= 0x20000,
                from <= x,
                x <= to + 1 || x == from,
                self.painted(start, buffer@, |px: int, py: int| py == row && from <= px < x, color),
            decreases to + 1 - x,
        {
            let ghost mid = buffer@;
            self.put(buffer, x, row, color);
            proof {
                self.lemma_painted_union(
                    start,
                    mid,
                    buffer@,
                    |px: int, py: int| py == row && from <= px < x,
                    |px: int, py: int| px == x && py == row,
                    color,
                );
                self.lemma_painted_same_shape(
                    start,
                    buffer@,
                    |px: int, py: int| (py == row && from <= px < x) || (px == x && py == row),
                    |px: int, py: int| py == row && from <= px < x + 1,
                    color,
                );
            }
            x = x + 1;
        }
        proof {
            self.lemma_painted_same_shape(
                start,
                buffer@,
                |px: int, py: int| py == row && from <= px < x,
                |px: int, py: int| py == row && from <= px <= to,
                color,
            );
        }
    }

    /// Sets the four rows that a filled circle spans for (`a`, `b`).
    fn put_spans(&self, buffer: &mut Vec<u8>, cx: i64, cy: i64, a: i64, b: i64, color: Color)
        requires
            old(buffer)@.len() == self.buffer_len(),
            0 <= cx <= 0xffff,
            0 <= cy <= 0xffff,
            0 <= a <= 0xffff,
            0 <= b <= 0xffff,
        ensures
            self.painted(
                old(buffer)@,
                final(buffer)@,
                |px: int, py: int| spans(cx as int, cy as int, a as int, b as int, px, py),
                color,
            ),
    {
        let ghost b0 = buffer@;
        self.put_row(buffer, cy + b, cx - a, cx + a, color);
        let ghost b1 = buffer@;
        self.put_row(buffer, cy - b, cx - a, cx + a, color);
        let ghost b2 = buffer@;
        self.put_row(buffer, cy + a, cx - b, cx + b, color);
        let ghost b3 = buffer@;
        self.put_row(buffer, cy - a, cx - b, cx + b, color);
        proof {
            let r1 = |px: int, py: int| py == cy + b && cx - a <= px <= cx + a;
            let r2 = |px: int, py: int| py == cy - b && cx - a <= px <= cx + a;
            let r3 = |px: int, py: int| py == cy + a && cx - b <= px <= cx + b;
            let r4 = |px: int, py: int| py == cy - a && cx - b <= px <= cx + b;
            self.lemma_painted_union(b0, b1, b2, r1, r2, color);
            let u2 = |px: int, py: int| r1(px, py) || r2(px, py);
            self.lemma_painted_union(b0, b2, b3, u2, r3, color);
            let u3 = |px: int, py: int| u2(px, py) || r3(px, py);
            self.lemma_painted_union(b0, b3, buffer@, u3, r4, color);
            self.lemma_painted_same_shape(
                b0,
                buffer@,
                |px: int, py: int| u3(px, py) || r4(px, py),
                |px: int, py: int| spans(cx as int, cy as int, a as int, b as int, px, py),
                color,
            );
        }
    }

    /// Fills the disk of radius `radius` around (`x_center`, `y_center`):
    /// the same midpoint walk as `draw_circle`, each point joined to its
    /// mirror image by a row of pixels.
    pub fn draw_filled_circle(&self, buffer: &mut Vec<u8>, x_center: u16, y_center: u16, radius: u16, color: &Color)
        requires
            old(buffer)@.len() == self.buffer_len(),
        ensures
            self.painted(
                old(buffer)@,
                final(buffer)@,
                |px: int, py: int| disk_shape(x_center as int, y_center as int, radius as int, px, py),
                *color,
            ),
    {
        let ghost start = buffer@;
        let ghost (gcx, gcy, r) = (x_center as int, y_center as int, radius as int);
        let cx: i64 = x_center as i64;
        let cy: i64 = y_center as i64;
        let mut x: i64 = 0;
        let mut y: i64 = radius as i64;
        let mut d: i64 = 1 - radius as i64;
        proof {
            assert(on_arc(0, r, r)) by (nonlinear_arith)
                requires
                    r >= 0,
            ;
            assert(d == (0 + 1) * (0 + 1) + r * r - r - r * r) by (nonlinear_arith)
                requires
                    d == 1 - r,
            ;
        }
        while x <= y
            invariant
                buffer@.len() == self.buffer_len(),
                cx == gcx,
                cy == gcy,
                0 <= gcx <= 0xffff,
                0 <= gcy <= 0xffff,
                0 <= r <= 0xffff,
                0 <= x <= r + 1,
                -1 <= y <= r,
                x <= y ==> on_arc(x as int, y as int, r),
                x <= y ==> d == (x + 1) * (x + 1) + y * y - y - r * r,
                x > y ==> x >= 1 && 4 * x * x + (2 * x - 1) * (2 * x - 1) >= 4 * r * r,
                self.painted(
                    start,
                    buffer@,
                    |px: int, py: int| exists|a: int, b: int| a < x && on_arc(a, b, r) && #[trigger] spans(gcx, gcy, a, b, px, py),
                    *color,
                ),
            decreases r + 1 - x,
        {
            let ghost mid = buffer@;
            self.put_spans(buffer, cx, cy, x, y, *color);
            proof {
                let s1 = |px: int, py: int| exists|a: int, b: int| a < x && on_arc(a, b, r) && #[trigger] spans(gcx, gcy, a, b, px, py);
                let s2 = |px: int, py: int| exists|a: int, b: int| a < x + 1 && on_arc(a, b, r) && #[trigger] spans(gcx, gcy, a, b, px, py);
                let m = |px: int, py: int| spans(gcx, gcy, x as int, y as int, px, py);
                self.lemma_painted_union(start, mid, buffer@, s1, m, *color);
                assert forall|px: int, py: int| self.in_bounds(px, py) implies (s1(px, py) || m(px, py)) == s2(px, py) by {
                    if m(px, py) {
                        assert(x < x + 1 && on_arc(x as int, y as int, r) && spans(gcx, gcy, x as int, y as int, px, py));
                    }
                    if s1(px, py) {
                        let (a, b) = choose|a: int, b: int| a < x && on_arc(a, b, r) && #[trigger] spans(gcx, gcy, a, b, px, py);
                        assert(a < x + 1 && on_arc(a, b, r) && spans(gcx, gcy, a, b, px, py));
                    }
                    if s2(px, py) {
                        let (a, b) = choose|a: int, b: int| a < x + 1 && on_arc(a, b, r) && #[trigger] spans(gcx, gcy, a, b, px, py);
                        if a == x {
                            lemma_arc_unique(x as int, b, y as int, r);
                        } else {
                            assert(a < x && on_arc(a, b, r) && spans(gcx, gcy, a, b, px, py));
                        }
                    }
                }
                self.lemma_painted_same_shape(start, buffer@, |px: int, py: int| s1(px, py) || m(px, py), s2, *color);
                lemma_arc_step(x as int, y as int, r, d as int);
            }
            assert(-0x2_0000_0000 <= d <= 0x2_0000_0000) by (nonlinear_arith)
                requires
                    d == (x + 1) * (x + 1) + y * y - y - r * r,
                    0 <= x <= y,
                    y <= 0xffff,
                    0 <= r <= 0xffff,
            ;
            if d < 0 {
                d = d + 2 * x + 3;
            } else {
                d = d + 2 * (x - y) + 5;
                y = y - 1;
            }
            x = x + 1;
            proof {
                if x <= y {
                    assert(d == (x + 1) * (x + 1) + y * y - y - r * r) by (nonlinear_arith)
                        requires
                            x >= 1,
                            ({
                                let ox = x - 1;
                                ||| (d - 2 * ox - 3 == (ox + 1) * (ox + 1) + y * y - y - r * r)
                                ||| (d - 2 * (ox - (y + 1)) - 5 == (ox + 1) * (ox + 1) + (y + 1) * (y + 1) - (y + 1) - r * r)
                            }),
                    ;
                }
            }
        }
        proof {
            assert forall|px: int, py: int| self.in_bounds(px, py) implies
                (exists|a: int, b: int| a < x && on_arc(a, b, r) && #[trigger] spans(gcx, gcy, a, b, px, py))
                == disk_shape(gcx, gcy, r, px, py) by {
                if disk_shape(gcx, gcy, r, px, py) {
                    let (a, b) = choose|a: int, b: int| on_arc(a, b, r) && #[trigger] spans(gcx, gcy, a, b, px, py);
                    if a >= x {
                        lemma_arc_beyond(x as int, a, b, r);
                    }
                    assert(a < x && on_arc(a, b, r) && spans(gcx, gcy, a, b, px, py));
                }
            }
            self.lemma_painted_same_shape(
                start,
                buffer@,
                |px: int, py: int| exists|a: int, b: int| a < x && on_arc(a, b, r) && #[trigger] spans(gcx, gcy, a, b, px, py),
                |px: int, py: int| disk_shape(gcx, gcy, r, px, py),
                *color,
            );
        }
    }

    /// Sets the pixels of the glyph of `c` with its top left corner at (`x`, `y`).
    fn put_glyph(&self, buffer: &mut Vec<u8>, x: i64, y: i64, c: char, color: Color)
        requires
            old(buffer)@.len() == self.buffer_len(),
            0 <= x <= 0x20000,
            0 <= y <= 0xffff,
        ensures
            self.painted(old(buffer)@, final(buffer)@, |px: int, py: int| glyph_shape(c, x as int, y as int, px, py), color),
    {
        let ghost start = buffer@;
        let mut row: usize = 0;
        while row < 8
            invariant
                buffer@.len() == self.buffer_len(),
                0 <= x <= 0x20000,
                0 <= y <= 0xffff,
                row <= 8,
                self.painted(start, buffer@, |px: int, py: int| glyph_shape(c, x as int, y as int, px, py) && py - y < row, color),
            decreases 8 - row,
        {
            let bits = get_glyph_row(c, row);
            let mut col: usize = 0;
            while col < 8
                invariant
                    buffer@.len() == self.buffer_len(),
                    0 <= x <= 0x20000,
                    0 <= y <= 0xffff,
                    row < 8,
                    col <= 8,
                    bits == crate::font::glyph_row(c, row as int),
                    self.painted(
                        start,
                        buffer@,
                        |px: int, py: int| glyph_shape(c, x as int, y as int, px, py) && (py - y < row || (py - y == row && px - x < col)),
                        color,
                    ),
                decreases 8 - col,
            {
                let ghost s1 = |px: int, py: int| glyph_shape(c, x as int, y as int, px, py) && (py - y < row || (py - y == row && px - x < col));
                let ghost s2 = |px: int, py: int| glyph_shape(c, x as int, y as int, px, py) && (py - y < row || (py - y == row && px - x < col + 1));
                let px: i64 = x + col as i64;
                let py: i64 = y + row as i64;
                if (bits >> col as u8) & 1 == 1 {
                    let ghost mid = buffer@;
                    self.put(buffer, px, py, color);
                    proof {
                        self.lemma_painted_union(start, mid, buffer@, s1, |qx: int, qy: int| qx == px && qy == py, color);
                        self.lemma_painted_same_shape(start, buffer@, |qx: int, qy: int| s1(qx, qy) || (qx == px && qy == py), s2, color);
                    }
                } else {
                    proof {
                        self.lemma_painted_same_shape(start, buffer@, s1, s2, color);
                    }
                }
                col = col + 1;
            }
            proof {
                self.lemma_painted_same_shape(
                    start,
                    buffer@,
                    |px: int, py: int| glyph_shape(c, x as int, y as int, px, py) && (py - y < row || (py - y == row && px - x < 8)),
                    |px: int, py: int| glyph_shape(c, x as int, y as int, px, py) && py - y < row + 1,
                    color,
                );
            }
            row = row + 1;
        }
        proof {
            self.lemma_painted_same_shape(
                start,
                buffer@,
                |px: int, py: int| glyph_shape(c, x as int, y as int, px, py) && py - y < 8,
                |px: int, py: int| glyph_shape(c, x as int, y as int, px, py),
                color,
            );
        }
    }

    /// Draws the glyph of `c` with its top left corner at (`x`, `y`); a
    /// character without a glyph draws nothing.
    pub fn draw_char(&self, buffer: &mut Vec<u8>, x: u16, y: u16, c: char, color: &Color)
        requires
            old(buffer)@.len() == self.buffer_len(),
        ensures
            self.painted(old(buffer)@, final(buffer)@, |px: int, py: int| glyph_shape(c, x as int, y as int, px, py), *color),
    {
        self.put_glyph(buffer, x as i64, y as i64, c, *color);
    }

    /// Writes `text` left to right from (`x0`, `y0`), one 8-pixel cell per
    /// character; characters without a glyph leave their cell blank.
    pub fn draw_string(&self, buffer: &mut Vec<u8>, x0: u16, y0: u16, text: &[char], color: &Color)
        requires
            old(buffer)@.len() == self.buffer_len(),
        ensures
            self.painted(old(buffer)@, final(buffer)@, |px: int, py: int| string_shape(text@, x0 as int, y0 as int, px, py), *color),
    {
        let ghost start = buffer@;
        let ghost t = text@;
        let n: usize = if text.len() < 8192 { text.len() } else { 8192 };
        let mut i: usize = 0;
        while i < n
            invariant
                buffer@.len() == self.buffer_len(),
                t == text@,
                n <= 8192,
                n <= t.len(),
                i <= n,
                self.painted(start, buffer@, |px: int, py: int| string_shape(t, x0 as int, y0 as int, px, py) && (px - x0) / 8 < i, *color),
            decreases n - i,
        {
            let ghost mid = buffer@;
            let cx: i64 = x0 as i64 + 8 * i as i64;
            self.put_glyph(buffer, cx, y0 as i64, text[i], *color);
            proof {
                let s1 = |px: int, py: int| string_shape(t, x0 as int, y0 as int, px, py) && (px - x0) / 8 < i;
                let g = |px: int, py: int| glyph_shape(t[i as int], cx as int, y0 as int, px, py);
                let s2 = |px: int, py: int| string_shape(t, x0 as int, y0 as int, px, py) && (px - x0) / 8 < i + 1;
                self.lemma_painted_union(start, mid, buffer@, s1, g, *color);
                assert forall|px: int, py: int| self.in_bounds(px, py) implies (s1(px, py) || g(px, py)) == s2(px, py) by {
                    if cx <= px < cx + 8 {
                        lemma_fundamental_div_mod_converse(px - x0, 8, i as int, px - cx);
                    } else if px >= x0 {
                        assert((px - x0) / 8 != i as int) by {
                            if (px - x0) / 8 == i as int {
                                assert(px - x0 == 8 * ((px - x0) / 8) + (px - x0) % 8);
                            }
                        }
                    }
                }
                self.lemma_painted_same_shape(start, buffer@, |px: int, py: int| s1(px, py) || g(px, py), s2, *color);
            }
            i = i + 1;
        }
        proof {
            assert forall|px: int, py: int| self.in_bounds(px, py) implies
                (string_shape(t, x0 as int, y0 as int, px, py) && (px - x0) / 8 < n)
                == string_shape(t, x0 as int, y0 as int, px, py) by {
                if px >= x0 {
                    assert((px - x0) / 8 < 8192);
                }
            }
            self.lemma_painted_same_shape(
                start,
                buffer@,
                |px: int, py: int| string_shape(t, x0 as int, y0 as int, px, py) && (px - x0) / 8 < n,
                |px: int, py: int| string_shape(t, x0 as int, y0 as int, px, py),
                *color,
            );
        }
    }

    /// Draws `length` pixels from (`x`, `y`) rightwards: the pixels of
    /// `draw_line` from (`x`, `y`) to (`x + length - 1`, `y`).
    pub fn draw_horizontal_line(&self, buffer: &mut Vec<u8>, x: u16, y: u16, length: u16, color: &Color)
        requires
            old(buffer)@.len() == self.buffer_len(),
        ensures
            self.painted(
                old(buffer)@,
                final(buffer)@,
                |px: int, py: int| hline_shape(x as int, y as int, length as int, px, py),
                *color,
            ),
    {
        let ghost start = buffer@;
        let mut i: u32 = 0;
        while i < length as u32
            invariant
                buffer@.len() == self.buffer_len(),
                i <= length,
                self.painted(start, buffer@, |px: int, py: int| hline_shape(x as int, y as int, i as int, px, py), *color),
            decreases length - i,
        {
            let ghost mid = buffer@;
            self.put(buffer, x as i64 + i as i64, y as i64, *color);
            proof {
                self.lemma_painted_union(
                    start,
                    mid,
                    buffer@,
                    |px: int, py: int| hline_shape(x as int, y as int, i as int, px, py),
                    |px: int, py: int| px == x + i && py == y,
                    *color,
                );
                self.lemma_painted_same_shape(
                    start,
                    buffer@,
                    |px: int, py: int| hline_shape(x as int, y as int, i as int, px, py) || (px == x + i && py == y),
                    |px: int, py: int| hline_shape(x as int, y as int, i + 1, px, py),
                    *color,
                );
            }
            i = i + 1;
        }
    }

    /// Draws `length` pixels from (`x`, `y`) downwards: the pixels of
    /// `draw_line` from (`x`, `y`) to (`x`, `y + length - 1`).
    pub fn draw_vertical_line(&self, buffer: &mut Vec<u8>, x: u16, y: u16, length: u16, color: &Color)
        requires
            old(buffer)@.len() == self.buffer_len(),
        ensures
            self.painted(
                old(buffer)@,
                final(buffer)@,
                |px: int, py: int| vline_shape(x as int, y as int, length as int, px, py),
                *color,
            ),
    {
        let ghost start = buffer@;
        let mut i: u32 = 0;
        while i < length as u32
            invariant
                buffer@.len() == self.buffer_len(),
                i <= length,
                self.painted(start, buffer@, |px: int, py: int| vline_shape(x as int, y as int, i as int, px, py), *color),
            decreases length - i,
        {
            let ghost mid = buffer@;
            self.put(buffer, x as i64, y as i64 + i as i64, *color);
            proof {
                self.lemma_painted_union(
                    start,
                    mid,
                    buffer@,
                    |px: int, py: int| vline_shape(x as int, y as int, i as int, px, py),
                    |px: int, py: int| px == x && py == y + i,
                    *color,
                );
                self.lemma_painted_same_shape(
                    start,
                    buffer@,
                    |px: int, py: int| vline_shape(x as int, y as int, i as int, px, py) || (px == x && py == y + i),
                    |px: int, py: int| vline_shape(x as int, y as int, i + 1, px, py),
                    *color,
                );
            }
            i = i + 1;
        }
    }
}

/// The pixels of a horizontal run of `length` pixels from (`x`, `y`) rightwards.
pub open spec fn hline_shape(x: int, y: int, length: int, px: int, py: int) -> bool {
    py == y && x <= px < x + length
}

/// The pixels of a vertical run of `length` pixels from (`x`, `y`) downwards.
pub open spec fn vline_shape(x: int, y: int, length: int, px: int, py: int) -> bool {
    px == x && y <= py < y + length
}

/// The minor offset of a segment with no minor extent is zero.
proof fn lemma_flat_offset(i: int, da: int)
    requires
        da >= 0,
    ensures
        line_offset(i, da, 0) == 0,
{
    if da > 0 {
        assert(2 * i * 0 == 0) by (nonlinear_arith);
        lemma_fundamental_div_mod_converse(da, 2 * da, 0, da);
    }

}

/// The outline of the rectangle with corners (`x0`, `y0`) and (`x1`, `y1`).
pub open spec fn rect_outline(x0: int, y0: int, x1: int, y1: int, px: int, py: int) -> bool {
    ((py == y0 || py == y1) && between(px, x0, x1)) || ((px == x0 || px == x1) && between(py, y0, y1))
}

/// The rectangle with corners (`x0`, `y0`) and (`x1`, `y1`), boundary included.
pub open spec fn rect_fill(x0: int, y0: int, x1: int, y1: int, px: int, py: int) -> bool {
    between(px, x0, x1) && between(py, y0, y1)
}

/// A buffer of `len` bytes with every pixel in `color`.
pub open spec fn filled(len: nat, color: Color) -> Seq<u8> {
    Seq::new(len, |i: int| color.spec_full_byte())
}

/// A line with both ends on one row or one column is the run between them.
pub proof fn lemma_axis_line(a: int, b: int, c: int)
    ensures
        forall|px: int, py: int| #[trigger] line_shape(a, c, b, c, px, py) == (py == c && between(px, a, b)),
        forall|px: int, py: int| #[trigger] line_shape(c, a, c, b, px, py) == (px == c && between(py, a, b)),
{
    assert forall|px: int, py: int| #[trigger] line_shape(a, c, b, c, px, py) == (py == c && between(px, a, b)) by {
        let (s, e) = if a <= b { (a, b) } else { (b, a) };
        lemma_flat_offset(px - s, e - s);
    }
    assert forall|px: int, py: int| #[trigger] line_shape(c, a, c, b, px, py) == (px == c && between(py, a, b)) by {
        let (s, e) = if a <= b { (a, b) } else { (b, a) };
        lemma_flat_offset(py - s, e - s);
    }
}

/// Law: a horizontal run of `length` pixels has exactly the pixels of the
/// line between its first and its last pixel.
pub proof fn lemma_horizontal_line_is_line(x: int, y: int, length: int)
    requires
        length >= 1,
    ensures
        forall|px: int, py: int| hline_shape(x, y, length, px, py) == #[trigger] line_shape(x, y, x + length - 1, y, px, py),
{
    lemma_axis_line(x, x + length - 1, y);
}

/// Law: a vertical run of `length` pixels has exactly the pixels of the line
/// between its first and its last pixel.
pub proof fn lemma_vertical_line_is_line(x: int, y: int, length: int)
    requires
        length >= 1,
    ensures
        forall|px: int, py: int| vline_shape(x, y, length, px, py) == #[trigger] line_shape(x, y, x, y + length - 1, px, py),
{
    lemma_axis_line(y, y + length - 1, x);
}

/// Law: a line drawn from either end sets the same pixels.
pub proof fn lemma_line_symmetric(
    g: Graphics,
    start: Seq<u8>,
    forward: Seq<u8>,
    backward: Seq<u8>,
    x0: int,
    y0: int,
    x1: int,
    y1: int,
    color: Color,
)
    requires
        g.painted(start, forward, |px: int, py: int| line_shape(x0, y0, x1, y1, px, py), color),
        g.painted(start, backward, |px: int, py: int| line_shape(x1, y1, x0, y0, px, py), color),
    ensures
        forall|px: int, py: int| g.in_bounds(px, py) ==> #[trigger] g.pixel(forward, px, py) == g.pixel(backward, px, py),
{
    assert forall|px: int, py: int| g.in_bounds(px, py) implies #[trigger] g.pixel(forward, px, py) == g.pixel(backward, px, py) by {
        assert(line_shape(x0, y0, x1, y1, px, py) == line_shape(x1, y1, x0, y0, px, py));
        assert(g.pixel(backward, px, py) == if line_shape(x1, y1, x0, y0, px, py) {
            color.is_set()
        } else {
            g.pixel(start, px, py)
        });
    }
}

/// Law: after `draw_pixel` at a pixel of the canvas, that pixel reads back
/// in the color drawn.
pub proof fn lemma_pixel_read_back(g: Graphics, start: Seq<u8>, after: Seq<u8>, x: int, y: int, color: Color)
    requires
        g.painted(start, after, |px: int, py: int| px == x && py == y, color),
        g.in_bounds(x, y),
    ensures
        g.pixel(after, x, y) == color.is_set(),
{
}

/// Law: clearing overwrites: two clears in a row leave every pixel in the
/// second color, whatever the first was.
pub proof fn lemma_clear_overwrites(g: Graphics, b0: Seq<u8>, b1: Seq<u8>, b2: Seq<u8>, c1: Color, c2: Color)
    requires
        b0.len() == g.buffer_len(),
        b1 == filled(b0.len(), c1),
        b2 == filled(b1.len(), c2),
    ensures
        b2 == filled(b0.len(), c2),
        forall|x: int, y: int| g.in_bounds(x, y) ==> #[trigger] g.pixel(b2, x, y) == c2.is_set(),
{
    assert forall|x: int, y: int| g.in_bounds(x, y) implies #[trigger] g.pixel(b2, x, y) == c2.is_set() by {
        g.lemma_index(x, y);
        let k = (x % 8) as u8;
        assert(0xffu8 & (0x80u8 >> k) != 0) by (bit_vector)
            requires
                k < 8,
        ;
        assert(0x00u8 & (0x80u8 >> k) == 0) by (bit_vector);
    }
}

/// Absolute value.
pub open spec fn abs(v: int) -> int {
    if v >= 0 {
        v
    } else {
        -v
    }
}

/// Whether (`a`, `b`), with `0 <= a <= b`, is the point of the first octant
/// of the circle of radius `r` in column `a`: the row `b` is the largest one
/// whose midpoint `b - 1/2` lies strictly inside the circle (at the top,
/// (0, `r`) itself).
pub open spec fn on_arc(a: int, b: int, r: int) -> bool {
    &&& 0 <= a <= b
    &&& (4 * a * a + (2 * b - 1) * (2 * b - 1) < 4 * r * r || (a == 0 && b == r))
    &&& 4 * a * a + (2 * b + 1) * (2 * b + 1) >= 4 * r * r
}

/// The pixels of the circle of radius `r` around (`cx`, `cy`): the points
/// of the first octant, mirrored in both axes and in the diagonal.
pub open spec fn circle_shape(cx: int, cy: int, r: int, px: int, py: int) -> bool {
    on_arc(abs(px - cx), abs(py - cy), r) || on_arc(abs(py - cy), abs(px - cx), r)
}

/// The eight mirror images of (`a`, `b`) around (`cx`, `cy`).
pub open spec fn mirrored(cx: int, cy: int, a: int, b: int, px: int, py: int) -> bool {
    (abs(px - cx) == a && abs(py - cy) == b) || (abs(px - cx) == b && abs(py - cy) == a)
}

/// A column of the first octant holds at most one point of the circle.
proof fn lemma_arc_unique(a: int, b1: int, b2: int, r: int)
    requires
        r >= 0,
        on_arc(a, b1, r),
        on_arc(a, b2, r),
    ensures
        b1 == b2,
{
    if b1 < b2 {
        lemma_arc_order(a, b1, b2, r);
    } else if b2 < b1 {
        lemma_arc_order(a, b2, b1, r);
    }
}

proof fn lemma_arc_order(a: int, lo: int, hi: int, r: int)
    requires
        r >= 0,
        on_arc(a, lo, r),
        lo < hi,
    ensures
        !on_arc(a, hi, r),
{
    assert((2 * lo + 1) * (2 * lo + 1) <= (2 * hi - 1) * (2 * hi - 1)) by (nonlinear_arith)
        requires
            0 <= lo,
            lo + 1 <= hi,
    ;
    if a == 0 && hi == r {
        assert(4 * a * a + (2 * lo + 1) * (2 * lo + 1) < 4 * r * r) by (nonlinear_arith)
            requires
                a == 0,
                0 <= lo < r,
        ;
    }
}

/// One step of the midpoint walk keeps the point on the arc while the walk
/// stays in the first octant, and rules out any later column once it leaves.
proof fn lemma_arc_step(x: int, y: int, r: int, d: int)
    requires
        r >= 0,
        on_arc(x, y, r),
        d == (x + 1) * (x + 1) + y * y - y - r * r,
    ensures
        ({
            let ny = if d < 0 { y } else { y - 1 };
            &&& x + 1 <= ny ==> on_arc(x + 1, ny, r)
            &&& x + 1 > ny ==> 4 * (x + 1) * (x + 1) + (2 * x + 1) * (2 * x + 1) >= 4 * r * r
        }),
{
    let ny = if d < 0 { y } else { y - 1 };
    assert(4 * (x + 1) * (x + 1) + (2 * y - 1) * (2 * y - 1) == 4 * d + 4 * r * r + 1) by (nonlinear_arith)
        requires
            d == (x + 1) * (x + 1) + y * y - y - r * r,
    ;
    assert(4 * (x + 1) * (x + 1) + (2 * y + 1) * (2 * y + 1) >= 4 * x * x + (2 * y + 1) * (2 * y + 1)) by (nonlinear_arith)
        requires
            x >= 0,
    ;
    if d >= 0 && x + 1 <= ny {
        assert(4 * (x + 1) * (x + 1) + (2 * y - 3) * (2 * y - 3) == 4 * (x + 1) * (x + 1) + (2 * y - 1) * (2 * y - 1) - 8 * y + 8) by (nonlinear_arith);
        assert(4 * x * x + (2 * y - 1) * (2 * y - 1) == 4 * (x + 1) * (x + 1) + (2 * y - 1) * (2 * y - 1) - 8 * x - 4) by (nonlinear_arith);
        if !(x == 0 && y == r) {
            assert(4 * x * x + (2 * y - 1) * (2 * y - 1) < 4 * r * r);
        } else {
            assert(4 * x * x + (2 * y - 1) * (2 * y - 1) < 4 * r * r) by (nonlinear_arith)
                requires
                    x == 0,
                    y == r,
                    x + 1 <= y - 1,
            ;
        }
        assert(4 * x * x + (2 * y - 1) * (2 * y - 1) == 4 * (x * x + y * y - y) + 1) by (nonlinear_arith);
        assert(4 * x * x + (2 * y - 1) * (2 * y - 1) <= 4 * r * r - 3);
    }
    if x + 1 > ny {
        assert(4 * (x + 1) * (x + 1) + (2 * x + 1) * (2 * x + 1) >= 4 * r * r) by (nonlinear_arith)
            requires
                x >= 0,
                x <= y,
                d < 0 ==> y <= x,
                d >= 0 ==> y <= x + 1,
                4 * x * x + (2 * y + 1) * (2 * y + 1) >= 4 * r * r,
                d >= 0 ==> 4 * (x + 1) * (x + 1) + (2 * y - 1) * (2 * y - 1) >= 4 * r * r,
        ;
    }
}

/// No point of the first octant lies in column `x` or beyond once the walk
/// has left the octant there.
proof fn lemma_arc_beyond(x: int, a: int, b: int, r: int)
    requires
        x >= 1,
        4 * x * x + (2 * x - 1) * (2 * x - 1) >= 4 * r * r,
        a >= x,
        b >= a,
    ensures
        !on_arc(a, b, r),
{
    assert(4 * a * a + (2 * b - 1) * (2 * b - 1) >= 4 * x * x + (2 * x - 1) * (2 * x - 1)) by (nonlinear_arith)
        requires
            x >= 1,
            a >= x,
            b >= a,
    ;
}

/// The four rows that a filled circle spans for the octant point (`a`, `b`)
/// around (`cx`, `cy`).
pub open spec fn spans(cx: int, cy: int, a: int, b: int, px: int, py: int) -> bool {
    (abs(py - cy) == b && abs(px - cx) <= a) || (abs(py - cy) == a && abs(px - cx) <= b)
}

/// The pixels of the disk of radius `r` around (`cx`, `cy`): every row
/// between the mirror images of a point of the circle.
pub open spec fn disk_shape(cx: int, cy: int, r: int, px: int, py: int) -> bool {
    exists|a: int, b: int| on_arc(a, b, r) && #[trigger] spans(cx, cy, a, b, px, py)
}

/// Law: a circle is its own image under a quarter turn about its center.
pub proof fn lemma_circle_quarter_turn(cx: int, cy: int, r: int)
    ensures
        forall|px: int, py: int| #[trigger] circle_shape(cx, cy, r, px, py) == circle_shape(cx, cy, r, cx - (py - cy), cy + (px - cx)),
{
}

/// Law: a circle drawn on a canvas is its own image under a quarter turn
/// about its center, for the pixels whose image is on the canvas too.
pub proof fn lemma_drawn_circle_quarter_turn(
    g: Graphics,
    start: Seq<u8>,
    after: Seq<u8>,
    cx: int,
    cy: int,
    r: int,
    color: Color,
    px: int,
    py: int,
)
    requires
        g.painted(start, after, |qx: int, qy: int| circle_shape(cx, cy, r, qx, qy), color),
        g.in_bounds(px, py),
        g.in_bounds(cx - (py - cy), cy + (px - cx)),
    ensures
        circle_shape(cx, cy, r, px, py) ==> g.pixel(after, px, py) == color.is_set()
            && g.pixel(after, cx - (py - cy), cy + (px - cx)) == color.is_set(),
{
    lemma_circle_quarter_turn(cx, cy, r);
    assert(g.pixel(after, cx - (py - cy), cy + (px - cx)) == if circle_shape(cx, cy, r, cx - (py - cy), cy + (px - cx)) {
        color.is_set()
    } else {
        g.pixel(start, cx - (py - cy), cy + (px - cx))
    });
}

/// The pixels of the glyph of `c` with its top left corner at (`x`, `y`).
pub open spec fn glyph_shape(c: char, x: int, y: int, px: int, py: int) -> bool {
    glyph_bit(c, py - y, px - x)
}

/// The pixels of `text` written left to right from (`x0`, `y0`), one
/// 8-pixel cell per character.
pub open spec fn string_shape(text: Seq<char>, x0: int, y0: int, px: int, py: int) -> bool {
    &&& px >= x0
    &&& (px - x0) / 8 < text.len()
    &&& glyph_bit(text[(px - x0) / 8], py - y0, (px - x0) % 8)
}

/// Setting or clearing bit `k` of a byte changes that bit alone.
proof fn lemma_bits(b: u8, k: u8, j: u8)
    requires
        k < 8,
        j < 8,
    ensures
        ((b | (0x80u8 >> k)) & (0x80u8 >> j) != 0) == (j == k || b & (0x80u8 >> j) != 0),
        ((b & !(0x80u8 >> k)) & (0x80u8 >> j) != 0) == (j != k && b & (0x80u8 >> j) != 0),
{
    assert(((b | (0x80u8 >> k)) & (0x80u8 >> j) != 0) == (j == k || b & (0x80u8 >> j) != 0))
        by (bit_vector)
        requires
            k < 8,
            j < 8,
    ;
    assert(((b & !(0x80u8 >> k)) & (0x80u8 >> j) != 0) == (j != k && b & (0x80u8 >> j) != 0))
        by (bit_vector)
        requires
            k < 8,
            j < 8,
    ;
}

} // verus!
