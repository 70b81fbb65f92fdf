//! A text console drawn with a PSF font onto a linear framebuffer.
use vstd::prelude::*;
use crate::drivers::framebuffer::Framebuffer;
use crate::drivers::logs::sinks::Sink;
use crate::parsers::psf::{PsfFont, is_psf1, describes_psf1};
use vstd::std_specs::iter::IteratorSpec;

verus! {

/// The pixels of a framebuffer, and the cursor's column and row (in glyph cells).
pub type Screen = (Seq<u32>, u32, u32);

pub struct Vga<'a> {
    pub framebuffer: Framebuffer,
    pub font: PsfFont<'a>,
    pub cursor_pos: (u32, u32),
    pub foreground_color: u32,
    pub background_color: u32,
}

impl<'a> Vga<'a> {
    pub open spec fn screen(&self) -> Screen {
        (self.framebuffer.pixels@, self.cursor_pos.0, self.cursor_pos.1)
    }

    pub open spec fn wf(&self) -> bool {
        self.framebuffer.wf()
    }

    /// The constants that drawing text depends on.
    pub open spec fn layout(&self) -> Layout {
        Layout {
            w: self.framebuffer.width as int,
            h: self.framebuffer.height as int,
            gw: self.font.glyph_size.0 as int,
            gh: self.font.glyph_size.1 as int,
            stride: self.font.glyph_stride as int,
            glyphs: self.font.glyphs@,
            fg: self.foreground_color,
            bg: self.background_color,
        }
    }

    /// `after` has the framebuffer size, font and colours of `self`.
    pub open spec fn same_setup(&self, after: &Vga<'a>) -> bool {
        &&& after.framebuffer.width == self.framebuffer.width
        &&& after.framebuffer.height == self.framebuffer.height
        &&& after.font == self.font
        &&& after.foreground_color == self.foreground_color
        &&& after.background_color == self.background_color
    }
}

/// Framebuffer size, glyph geometry, glyph table and colours of a console.
pub ghost struct Layout {
    pub w: int,
    pub h: int,
    pub gw: int,
    pub gh: int,
    pub stride: int,
    pub glyphs: Seq<u8>,
    pub fg: u32,
    pub bg: u32,
}


impl Layout {
    /// Sizes are never negative, as for any layout of a console.
    pub open spec fn sizes_nonneg(&self) -> bool {
        &&& self.w >= 0
        &&& self.h >= 0
        &&& self.gw >= 0
        &&& self.gh >= 0
        &&& self.stride >= 0
    }

    /// First pixel of text line `line`.
    pub open spec fn line_start(&self, line: int) -> int {
        self.w * (line * self.gh)
    }

    /// Number of pixels in one text line.
    pub open spec fn line_len(&self) -> int {
        self.w * self.gh
    }

    pub open spec fn clear_line_ok(&self, line: int) -> bool {
        &&& line * self.gh <= usize::MAX
        &&& self.line_start(line) + self.line_len() <= self.w * self.h
    }

    /// `px` with text line `line` set to 0.
    pub open spec fn cleared_line(&self, px: Seq<u32>, line: int) -> Seq<u32> {
        Seq::new(
            px.len(),
            |i: int|
                if self.line_start(line) <= i < self.line_start(line) + self.line_len() {
                    0u32
                } else {
                    px[i]
                },
        )
    }

    /// `px` moved up by one text line; the last line keeps its pixels.
    pub open spec fn shifted_up(&self, px: Seq<u32>) -> Seq<u32> {
        Seq::new(
            px.len(),
            |i: int|
                if i < self.w * (self.h - self.gh) {
                    px[i + self.line_len()]
                } else {
                    px[i]
                },
        )
    }

    pub open spec fn scroll_ok(&self, line: int) -> bool {
        self.gh <= self.h && self.clear_line_ok(line)
    }

    /// `px` after a scroll with the cursor on text line `line`.
    pub open spec fn scrolled(&self, px: Seq<u32>, line: int) -> Seq<u32> {
        self.cleared_line(self.shifted_up(px), line)
    }
    /// Offset in the glyph table of the bitmap of `c`.
    pub open spec fn glyph_start(&self, c: char) -> int {
        (c as u32) as int * (self.stride * self.gh)
    }

    /// Framebuffer position of pixel (`x`, `y`) of the glyph cell at column `cx`, row `cy`.
    pub open spec fn pixel_index(&self, cx: u32, cy: u32, x: int, y: int) -> int {
        (cy as int * self.gh + y) * self.w + (cx as int * self.gw + x)
    }

    /// The glyph byte that holds pixel (`x`, `y`) of `c`.
    pub open spec fn glyph_byte(&self, c: char, x: int, y: int) -> u8 {
        self.glyphs[self.glyph_start(c) + y * self.stride + x / 8]
    }

    /// Colour of pixel (`x`, `y`) of `c`: the foreground colour where the glyph's
    /// bit is set (most significant bit leftmost), else the background colour.
    pub open spec fn glyph_pixel(&self, c: char, x: int, y: int) -> u32 {
        if self.glyph_byte(c, x, y) & (1u8 << ((7 - x % 8) as u8)) != 0 {
            self.fg
        } else {
            self.bg
        }
    }

    /// `px` after drawing the first `n` pixels of row `y` of `c`, left to right.
    pub open spec fn draw_cols(
        &self,
        px: Seq<u32>,
        c: char,
        cx: u32,
        cy: u32,
        y: int,
        n: int,
    ) -> Seq<u32>
        decreases n,
    {
        if n <= 0 {
            px
        } else {
            self.draw_cols(px, c, cx, cy, y, n - 1).update(
                self.pixel_index(cx, cy, n - 1, y),
                self.glyph_pixel(c, n - 1, y),
            )
        }
    }

    /// `px` after drawing the first `n` rows of `c`, top to bottom.
    pub open spec fn draw_rows(&self, px: Seq<u32>, c: char, cx: u32, cy: u32, n: int) -> Seq<
        u32,
    >
        decreases n,
    {
        if n <= 0 {
            px
        } else {
            self.draw_cols(self.draw_rows(px, c, cx, cy, n - 1), c, cx, cy, n - 1, self.gw)
        }
    }

    /// `px` with the glyph of `c` drawn in the cell at column `cx`, row `cy`.
    pub open spec fn rendered(&self, px: Seq<u32>, c: char, cx: u32, cy: u32) -> Seq<u32> {
        self.draw_rows(px, c, cx, cy, self.gh)
    }

    /// The glyph of `c` exists in the font and its cell lies inside the framebuffer.
    pub open spec fn render_ok(&self, cx: u32, cy: u32, c: char) -> bool {
        &&& (c as u32) as int * (self.stride * self.gh) <= usize::MAX
        &&& self.glyph_start(c) <= self.glyphs.len()
        &&& (self.gw > 0 && self.gh > 0) ==> {
            &&& self.glyph_start(c) + (self.gh - 1) * self.stride + (self.gw - 1) / 8
                < self.glyphs.len()
            &&& self.pixel_index(cx, cy, self.gw - 1, self.gh - 1) < self.w * self.h
        }
    }

    /// The cursor row `cy` is the last one before the bottom of the screen.
    pub open spec fn at_bottom(&self, cy: int) -> bool {
        cy * self.gh >= self.h - self.gh
    }

    /// Writing `c` on `st` stays inside the font, the framebuffer and the cursor's range.
    pub open spec fn char_ok(&self, st: Screen, c: char) -> bool {
        let (px, cx, cy) = st;
        if c == '\n' {
            &&& self.gh <= self.h
            &&& self.at_bottom(cy as int) ==> self.scroll_ok(cy as int)
            &&& !self.at_bottom(cy as int) ==> cy < u32::MAX
        } else {
            &&& self.render_ok(cx, cy, c)
            &&& cx < u32::MAX
            &&& (cx + 1) * self.gw >= self.w ==> {
                &&& cy < u32::MAX
                &&& self.gh <= self.h
                &&& self.at_bottom(cy + 1) ==> self.scroll_ok(cy + 1)
            }
        }
    }

    /// The screen after writing `c` on `st`. A newline moves to the start of the
    /// next line, or scrolls on the last one; any other character is drawn at the
    /// cursor, which then advances, wrapping to the next line at the right edge
    /// and scrolling when that line is the last one.
    pub open spec fn step(&self, st: Screen, c: char) -> Screen {
        let (px, cx, cy) = st;
        if c == '\n' {
            if self.at_bottom(cy as int) {
                (self.scrolled(px, cy as int), 0u32, cy)
            } else {
                (px, 0u32, (cy + 1) as u32)
            }
        } else {
            let drawn = self.rendered(px, c, cx, cy);
            if (cx + 1) * self.gw >= self.w {
                if self.at_bottom(cy + 1) {
                    (self.scrolled(drawn, cy + 1), 0u32, (cy + 1) as u32)
                } else {
                    (drawn, 0u32, (cy + 1) as u32)
                }
            } else {
                (drawn, (cx + 1) as u32, cy)
            }
        }
    }

    /// The screen after writing each character of `cs` in turn.
    pub open spec fn run(&self, st: Screen, cs: Seq<char>) -> Screen
        decreases cs.len(),
    {
        if cs.len() == 0 {
            st
        } else {
            self.run(self.step(st, cs[0]), cs.drop_first())
        }
    }

    /// Every character of `cs`, written in turn from `st`, is accepted.
    pub open spec fn run_ok(&self, st: Screen, cs: Seq<char>) -> bool
        decreases cs.len(),
    {
        cs.len() == 0 || (self.char_ok(st, cs[0]) && self.run_ok(
            self.step(st, cs[0]),
            cs.drop_first(),
        ))
    }
}

/// The characters that writing `s` draws: an escape character followed by `[`
/// is written as the escape character alone; one followed by any other
/// character is written as that character and then the escape character.
pub open spec fn expand_escapes(s: Seq<char>) -> Seq<char>
    decreases s.len(),
{
    if s.len() == 0 {
        Seq::empty()
    } else if s[0] == '\x1b' {
        if s.len() == 1 {
            seq!['\x1b']
        } else if s[1] == '[' {
            seq!['\x1b'] + expand_escapes(s.subrange(2, s.len() as int))
        } else {
            seq![s[1], '\x1b'] + expand_escapes(s.subrange(2, s.len() as int))
        }
    } else {
        seq![s[0]] + expand_escapes(s.subrange(1, s.len() as int))
    }
}

/// `s` does not end inside an escape sequence: read from the front, every
/// escape character has the character after it in `s`.
pub open spec fn escapes_complete(s: Seq<char>) -> bool
    decreases s.len(),
{
    if s.len() == 0 {
        true
    } else if s[0] == '\x1b' {
        s.len() >= 2 && escapes_complete(s.subrange(2, s.len() as int))
    } else {
        escapes_complete(s.subrange(1, s.len() as int))
    }
}

proof fn lemma_expand_append(a: Seq<char>, b: Seq<char>)
    requires
        escapes_complete(a),
    ensures
        expand_escapes(a + b) == expand_escapes(a) + expand_escapes(b),
    decreases a.len(),
{
    if a.len() == 0 {
        assert(a + b =~= b);
        assert(expand_escapes(a) + expand_escapes(b) =~= expand_escapes(b));
    } else {
        let k: int = if a[0] == '\x1b' {
            2
        } else {
            1
        };
        let rest = a.subrange(k, a.len() as int);
        lemma_expand_append(rest, b);
        assert((a + b).subrange(k, (a + b).len() as int) =~= rest + b);
        assert((a + b)[0] == a[0]);
        if k == 2 {
            assert((a + b)[1] == a[1]);
        }
        let head = if a[0] == '\x1b' {
            if a[1] == '[' {
                seq!['\x1b']
            } else {
                seq![a[1], '\x1b']
            }
        } else {
            seq![a[0]]
        };
        assert(expand_escapes(a) == head + expand_escapes(rest));
        assert(expand_escapes(a + b) == head + expand_escapes(rest + b));
        assert(head + (expand_escapes(rest) + expand_escapes(b)) =~= (head + expand_escapes(rest))
            + expand_escapes(b));
    }
}

impl Layout {
    /// Writing `a` and then `b` is writing `a + b`.
    pub proof fn lemma_run_append(&self, st: Screen, a: Seq<char>, b: Seq<char>)
        ensures
            self.run(st, a + b) == self.run(self.run(st, a), b),
            self.run_ok(st, a + b) == (self.run_ok(st, a) && self.run_ok(self.run(st, a), b)),
        decreases a.len(),
    {
        if a.len() == 0 {
            assert(a + b =~= b);
        } else {
            assert((a + b)[0] == a[0]);
            assert((a + b).drop_first() =~= a.drop_first() + b);
            self.lemma_run_append(self.step(st, a[0]), a.drop_first(), b);
        }
    }

    /// Writing a string in two pieces draws the same as writing it at once,
    /// and is accepted exactly when writing it at once is, provided the first
    /// piece does not end inside an escape sequence.
    pub proof fn lemma_text_in_pieces(&self, st: Screen, a: Seq<char>, b: Seq<char>)
        requires
            escapes_complete(a),
        ensures
            self.run(st, expand_escapes(a + b)) == self.run(
                self.run(st, expand_escapes(a)),
                expand_escapes(b),
            ),
            self.run_ok(st, expand_escapes(a + b)) == (self.run_ok(st, expand_escapes(a))
                && self.run_ok(self.run(st, expand_escapes(a)), expand_escapes(b))),
    {
        lemma_expand_append(a, b);
        self.lemma_run_append(st, expand_escapes(a), expand_escapes(b));
    }
}

/// Writing `c` and then `rest` is writing `c`, then writing `rest` from the result.
proof fn lemma_run_cons(lay: Layout, st: Screen, c: char, rest: Seq<char>)
    ensures
        lay.run_ok(st, seq![c] + rest) == (lay.char_ok(st, c) && lay.run_ok(lay.step(st, c), rest)),
        lay.run(st, seq![c] + rest) == lay.run(lay.step(st, c), rest),
{
    assert((seq![c] + rest).drop_first() =~= rest);
}

proof fn lemma_mul_le(a: int, b: int, c: int)
    requires
        a <= b,
        0 <= c,
    ensures
        a * c <= b * c,
        c * a <= c * b,
{
    vstd::arithmetic::mul::lemma_mul_inequality(a, b, c);
    vstd::arithmetic::mul::lemma_mul_is_commutative(a, c);
    vstd::arithmetic::mul::lemma_mul_is_commutative(b, c);
}

proof fn lemma_mul_nonneg(a: int, b: int)
    requires
        0 <= a,
        0 <= b,
    ensures
        0 <= a * b,
{
    vstd::arithmetic::mul::lemma_mul_nonnegative(a, b);
}

proof fn lemma_split_rows(w: int, h: int, g: int)
    ensures
        w * (h - g) + w * g == w * h,
{
    vstd::arithmetic::mul::lemma_mul_is_distributive_sub(w, h, g);
}

impl<'a> Vga<'a> {
    /// Sets the pixels of text line `line` to 0.
    pub fn clear_line(&mut self, line: usize)
        requires
            old(self).wf(),
            old(self).layout().clear_line_ok(line as int),
        ensures
            final(self).wf(),
            old(self).same_setup(final(self)),
            final(self).cursor_pos == old(self).cursor_pos,
            final(self).framebuffer.pixels@ == old(self).layout().cleared_line(
                old(self).framebuffer.pixels@,
                line as int,
            ),
    {
        let ghost px0 = self.framebuffer.pixels@;
        proof {
            lemma_mul_nonneg(line as int, self.layout().gh);
            lemma_mul_nonneg(self.layout().w, line * self.layout().gh);
            lemma_mul_nonneg(self.layout().w, self.layout().gh);
        }
        let w = self.framebuffer.width as usize;
        let gh = self.font.glyph_size.1 as usize;
        let len = self.framebuffer.pixels.len();
        assert(w as int == self.layout().w);
        assert(gh as int == self.layout().gh);
        assert(len == self.layout().w * self.layout().h);
        assert(self.layout().line_start(line as int) <= len);
        assert(w * (line * gh) == self.layout().line_start(line as int));
        let start = w * (line * gh);
        let count = w * gh;
        let mut i: usize = 0;
        while i < count
            invariant
                w == self.layout().w,
                gh == self.layout().gh,
                start == self.layout().line_start(line as int),
                count == self.layout().line_len(),
                start + count <= px0.len(),
                px0.len() <= usize::MAX,
                i <= count,
                self.wf(),
                old(self).same_setup(self),
                self.cursor_pos == old(self).cursor_pos,
                px0 == old(self).framebuffer.pixels@,
                self.framebuffer.pixels@.len() == px0.len(),
                forall|k: int|
                    0 <= k < px0.len() ==> #[trigger] self.framebuffer.pixels@[k] == if start <= k
                        < start + i {
                        0u32
                    } else {
                        px0[k]
                    },
            decreases count - i,
        {
            self.framebuffer.pixels.set(start + i, 0);
            i = i + 1;
        }
        assert(self.framebuffer.pixels@ =~= old(self).layout().cleared_line(px0, line as int));
    }

    /// Moves the picture up by one text line and clears the line the cursor is on.
    pub fn scroll(&mut self)
        requires
            old(self).wf(),
            old(self).layout().scroll_ok(old(self).cursor_pos.1 as int),
        ensures
            final(self).wf(),
            old(self).same_setup(final(self)),
            final(self).cursor_pos == old(self).cursor_pos,
            final(self).framebuffer.pixels@ == old(self).layout().scrolled(
                old(self).framebuffer.pixels@,
                old(self).cursor_pos.1 as int,
            ),
    {
        let ghost px0 = self.framebuffer.pixels@;
        let w = self.framebuffer.width as usize;
        let gh = self.font.glyph_size.1 as usize;
        let h = self.framebuffer.height as usize;
        let len = self.framebuffer.pixels.len();
        proof {
            lemma_mul_le(self.layout().gh, self.layout().h, self.layout().w);
            lemma_split_rows(self.layout().w, self.layout().h, self.layout().gh);
            lemma_mul_nonneg(self.layout().w, self.layout().gh);
            lemma_mul_nonneg(self.layout().w, self.layout().h - self.layout().gh);
        }
        let offset = w * gh;
        let count = w * (h - gh);
        let mut i: usize = 0;
        while i < count
            invariant
                offset == self.layout().line_len(),
                count == self.layout().w * (self.layout().h - self.layout().gh),
                count + offset == px0.len(),
                px0.len() <= usize::MAX,
                i <= count,
                self.wf(),
                old(self).same_setup(self),
                self.cursor_pos == old(self).cursor_pos,
                px0 == old(self).framebuffer.pixels@,
                self.framebuffer.pixels@.len() == px0.len(),
                forall|k: int|
                    0 <= k < px0.len() ==> #[trigger] self.framebuffer.pixels@[k] == if k < i {
                        px0[k + offset]
                    } else {
                        px0[k]
                    },
            decreases count - i,
        {
            let v = self.framebuffer.pixels[i + offset];
            self.framebuffer.pixels.set(i, v);
            i = i + 1;
        }
        assert(self.framebuffer.pixels@ =~= old(self).layout().shifted_up(px0));
        self.clear_line(self.cursor_pos.1 as usize);
    }
}

impl Layout {
    proof fn lemma_draw_cols_len(&self, px: Seq<u32>, c: char, cx: u32, cy: u32, y: int, n: int)
        requires
            self.sizes_nonneg(),
            self.render_ok(cx, cy, c),
            px.len() == self.w * self.h,
            0 <= y < self.gh,
            n <= self.gw,
        ensures
            self.draw_cols(px, c, cx, cy, y, n).len() == px.len(),
        decreases n,
    {
        if n > 0 {
            self.lemma_draw_cols_len(px, c, cx, cy, y, n - 1);
            self.lemma_cell_bounds(cx, cy, c, n - 1, y);
        }
    }

    proof fn lemma_draw_rows_len(&self, px: Seq<u32>, c: char, cx: u32, cy: u32, n: int)
        requires
            self.sizes_nonneg(),
            self.render_ok(cx, cy, c),
            px.len() == self.w * self.h,
            n <= self.gh,
        ensures
            self.draw_rows(px, c, cx, cy, n).len() == px.len(),
        decreases n,
    {
        if n > 0 {
            self.lemma_draw_rows_len(px, c, cx, cy, n - 1);
            self.lemma_draw_cols_len(self.draw_rows(px, c, cx, cy, n - 1), c, cx, cy, n - 1, self.gw);
        }
    }

    /// Every pixel of a glyph cell that `render_ok` admits lies in the
    /// framebuffer, and every byte of its bitmap in the glyph table.
    proof fn lemma_cell_bounds(&self, cx: u32, cy: u32, c: char, x: int, y: int)
        requires
            self.sizes_nonneg(),
            self.render_ok(cx, cy, c),
            0 <= x < self.gw,
            0 <= y < self.gh,
        ensures
            0 <= (cy as int * self.gh + y) * self.w <= self.pixel_index(cx, cy, x, y),
            0 <= self.pixel_index(cx, cy, x, y) < self.w * self.h,
            0 <= y * self.stride + x / 8,
            self.glyph_start(c) + y * self.stride + x / 8 < self.glyphs.len(),
    {
        let row = cy as int * self.gh;
        lemma_mul_nonneg(cy as int, self.gh);
        lemma_mul_le(row + y, row + self.gh - 1, self.w);
        lemma_mul_nonneg(row + y, self.w);
        lemma_mul_nonneg(cx as int, self.gw);
        lemma_mul_le(y, self.gh - 1, self.stride);
        lemma_mul_nonneg(y, self.stride);
        vstd::arithmetic::div_mod::lemma_div_is_ordered(x, self.gw - 1, 8);
    }

}

impl Layout {
    /// The cell at column `cx` lies within one framebuffer row.
    pub open spec fn cell_fits_row(&self, cx: u32) -> bool {
        cx as int * self.gw + self.gw <= self.w
    }

    /// Position `p` holds no pixel of the cell at column `cx`, row `cy`.
    pub open spec fn outside_cell(&self, cx: u32, cy: u32, p: int) -> bool {
        forall|x: int, y: int|
            0 <= x < self.gw && 0 <= y < self.gh ==> #[trigger] self.pixel_index(cx, cy, x, y)
                != p
    }

    /// Distinct pixels of a cell that fits in a row are at distinct positions.
    proof fn lemma_cell_injective(&self, cx: u32, cy: u32, x1: int, y1: int, x2: int, y2: int)
        requires
            self.sizes_nonneg(),
            self.cell_fits_row(cx),
            0 <= x1 < self.gw,
            0 <= x2 < self.gw,
            0 <= y1,
            0 <= y2,
            self.pixel_index(cx, cy, x1, y1) == self.pixel_index(cx, cy, x2, y2),
        ensures
            x1 == x2 && y1 == y2,
    {
        let r = cy as int * self.gh;
        let a1 = cx as int * self.gw + x1;
        let a2 = cx as int * self.gw + x2;
        lemma_mul_nonneg(cy as int, self.gh);
        lemma_mul_nonneg(cx as int, self.gw);
        let w = self.w;
        assert(y1 == y2 && a1 == a2) by (nonlinear_arith)
            requires
                (r + y1) * w + a1 == (r + y2) * w + a2,
                0 <= a1 < w,
                0 <= a2 < w,
                0 <= r,
                0 <= y1,
                0 <= y2,
        {
            if y1 < y2 {
                assert((r + y2) * w >= (r + y1) * w + w);
            } else if y2 < y1 {
                assert((r + y1) * w >= (r + y2) * w + w);
            }
        }
    }

    proof fn lemma_cols_outside(
        &self,
        px: Seq<u32>,
        c: char,
        cx: u32,
        cy: u32,
        y: int,
        n: int,
        p: int,
    )
        requires
            self.sizes_nonneg(),
            self.render_ok(cx, cy, c),
            px.len() == self.w * self.h,
            0 <= y < self.gh,
            n <= self.gw,
            0 <= p < px.len(),
            forall|x: int| 0 <= x < n ==> #[trigger] self.pixel_index(cx, cy, x, y) != p,
        ensures
            self.draw_cols(px, c, cx, cy, y, n)[p] == px[p],
        decreases n,
    {
        if n > 0 {
            self.lemma_cols_outside(px, c, cx, cy, y, n - 1, p);
            self.lemma_draw_cols_len(px, c, cx, cy, y, n - 1);
            self.lemma_cell_bounds(cx, cy, c, n - 1, y);
            assert(self.pixel_index(cx, cy, n - 1, y) != p);
        }
    }

    proof fn lemma_rows_outside(&self, px: Seq<u32>, c: char, cx: u32, cy: u32, n: int, p: int)
        requires
            self.sizes_nonneg(),
            self.render_ok(cx, cy, c),
            px.len() == self.w * self.h,
            n <= self.gh,
            0 <= p < px.len(),
            self.outside_cell(cx, cy, p),
        ensures
            self.draw_rows(px, c, cx, cy, n)[p] == px[p],
        decreases n,
    {
        if n > 0 {
            self.lemma_rows_outside(px, c, cx, cy, n - 1, p);
            self.lemma_draw_rows_len(px, c, cx, cy, n - 1);
            self.lemma_cols_outside(
                self.draw_rows(px, c, cx, cy, n - 1),
                c,
                cx,
                cy,
                n - 1,
                self.gw,
                p,
            );
        }
    }

    proof fn lemma_cols_inside(
        &self,
        px: Seq<u32>,
        c: char,
        cx: u32,
        cy: u32,
        y: int,
        n: int,
        x: int,
    )
        requires
            self.sizes_nonneg(),
            self.render_ok(cx, cy, c),
            self.cell_fits_row(cx),
            px.len() == self.w * self.h,
            0 <= y < self.gh,
            0 <= x < n <= self.gw,
        ensures
            self.draw_cols(px, c, cx, cy, y, n)[self.pixel_index(cx, cy, x, y)]
                == self.glyph_pixel(c, x, y),
        decreases n,
    {
        self.lemma_draw_cols_len(px, c, cx, cy, y, n - 1);
        self.lemma_cell_bounds(cx, cy, c, n - 1, y);
        self.lemma_cell_bounds(cx, cy, c, x, y);
        if x < n - 1 {
            self.lemma_cols_inside(px, c, cx, cy, y, n - 1, x);
            if self.pixel_index(cx, cy, n - 1, y) == self.pixel_index(cx, cy, x, y) {
                self.lemma_cell_injective(cx, cy, n - 1, y, x, y);
            }
        }
    }

    proof fn lemma_rows_inside(
        &self,
        px: Seq<u32>,
        c: char,
        cx: u32,
        cy: u32,
        n: int,
        x: int,
        y: int,
    )
        requires
            self.sizes_nonneg(),
            self.render_ok(cx, cy, c),
            self.cell_fits_row(cx),
            px.len() == self.w * self.h,
            0 <= x < self.gw,
            0 <= y < n <= self.gh,
        ensures
            self.draw_rows(px, c, cx, cy, n)[self.pixel_index(cx, cy, x, y)] == self.glyph_pixel(
                c,
                x,
                y,
            ),
        decreases n,
    {
        let before = self.draw_rows(px, c, cx, cy, n - 1);
        self.lemma_draw_rows_len(px, c, cx, cy, n - 1);
        if y == n - 1 {
            self.lemma_cols_inside(before, c, cx, cy, n - 1, self.gw, x);
        } else {
            self.lemma_rows_inside(px, c, cx, cy, n - 1, x, y);
            self.lemma_cell_bounds(cx, cy, c, x, y);
            assert forall|x2: int| 0 <= x2 < self.gw implies #[trigger] self.pixel_index(
                cx,
                cy,
                x2,
                n - 1,
            ) != self.pixel_index(cx, cy, x, y) by {
                if self.pixel_index(cx, cy, x2, n - 1) == self.pixel_index(cx, cy, x, y) {
                    self.lemma_cell_injective(cx, cy, x2, n - 1, x, y);
                }
            }
            self.lemma_cols_outside(
                before,
                c,
                cx,
                cy,
                n - 1,
                self.gw,
                self.pixel_index(cx, cy, x, y),
            );
        }
    }

    /// Drawing a character changes only the pixels of its cell; when the cell
    /// lies within one framebuffer row, each of its pixels shows the glyph: the
    /// foreground colour where the glyph's bit is set, the background elsewhere.
    pub proof fn lemma_rendered(&self, px: Seq<u32>, c: char, cx: u32, cy: u32)
        requires
            self.sizes_nonneg(),
            self.render_ok(cx, cy, c),
            px.len() == self.w * self.h,
        ensures
            self.rendered(px, c, cx, cy).len() == px.len(),
            forall|p: int|
                0 <= p < px.len() && self.outside_cell(cx, cy, p) ==> #[trigger] self.rendered(
                    px,
                    c,
                    cx,
                    cy,
                )[p] == px[p],
            self.cell_fits_row(cx) ==> forall|x: int, y: int|
                0 <= x < self.gw && 0 <= y < self.gh ==> #[trigger] self.rendered(px, c, cx, cy)[
                self.pixel_index(cx, cy, x, y)] == self.glyph_pixel(c, x, y),
    {
        self.lemma_draw_rows_len(px, c, cx, cy, self.gh);
        assert forall|p: int|
            0 <= p < px.len() && self.outside_cell(cx, cy, p) implies #[trigger] self.rendered(
                px,
                c,
                cx,
                cy,
            )[p] == px[p] by {
            self.lemma_rows_outside(px, c, cx, cy, self.gh, p);
        }
        if self.cell_fits_row(cx) {
            assert forall|x: int, y: int| 0 <= x < self.gw && 0 <= y < self.gh implies #[trigger] self.rendered(
                px,
                c,
                cx,
                cy,
            )[self.pixel_index(cx, cy, x, y)] == self.glyph_pixel(c, x, y) by {
                self.lemma_rows_inside(px, c, cx, cy, self.gh, x, y);
            }
        }
    }
}

impl<'a> Vga<'a> {
    /// Draws the glyph of `c` in the cursor's cell.
    fn draw_glyph(&mut self, c: char)
        requires
            old(self).wf(),
            old(self).layout().render_ok(old(self).cursor_pos.0, old(self).cursor_pos.1, c),
        ensures
            final(self).wf(),
            old(self).same_setup(final(self)),
            final(self).cursor_pos == old(self).cursor_pos,
            final(self).framebuffer.pixels@ == old(self).layout().rendered(
                old(self).framebuffer.pixels@,
                c,
                old(self).cursor_pos.0,
                old(self).cursor_pos.1,
            ),
    {
        let ghost v0 = *old(self);
        let ghost px0 = self.framebuffer.pixels@;
        let cx = self.cursor_pos.0;
        let cy = self.cursor_pos.1;
        let gw = self.font.glyph_size.0;
        let gh = self.font.glyph_size.1;
        let stride = self.font.glyph_stride;
        let width = self.framebuffer.width;
        let fg = self.foreground_color;
        let bg = self.background_color;
        let glyphs: &'a [u8] = self.font.glyphs;
        let len = self.framebuffer.pixels.len();
        proof {
            lemma_mul_nonneg(stride as int, gh as int);
            lemma_mul_le(stride as int, 255, gh as int);
            lemma_mul_le(gh as int, 255, 255);
            lemma_mul_nonneg((c as u32) as int, stride as int * gh as int);
        }
        let glyph_start: usize = (c as u32 as usize) * (stride as usize * gh as usize);
        let glyph_data: &[u8] = &glyphs[glyph_start..glyphs.len()];
        let mut y: u8 = 0;
        while y < gh
            invariant
                v0 == *old(self),
                px0 == v0.framebuffer.pixels@,
                v0.wf(),
                v0.layout().render_ok(cx, cy, c),
                cx == v0.cursor_pos.0,
                cy == v0.cursor_pos.1,
                gw as int == v0.layout().gw,
                gh as int == v0.layout().gh,
                stride as int == v0.layout().stride,
                width as int == v0.layout().w,
                fg == v0.foreground_color,
                bg == v0.background_color,
                glyphs@ == v0.font.glyphs@,
                glyph_start == v0.layout().glyph_start(c),
                glyph_data@ == glyphs@.subrange(glyph_start as int, glyphs@.len() as int),
                len == px0.len(),
                len <= usize::MAX,
                y <= gh,
                self.wf(),
                v0.same_setup(self),
                self.cursor_pos == v0.cursor_pos,
                self.framebuffer.pixels@ == v0.layout().draw_rows(px0, c, cx, cy, y as int),
            decreases gh - y,
        {
            proof {
                v0.layout().lemma_draw_rows_len(px0, c, cx, cy, y as int);
            }
            let ghost row_start = self.framebuffer.pixels@;
            let mut x: u8 = 0;
            while x < gw
                invariant
                    v0 == *old(self),
                    px0 == v0.framebuffer.pixels@,
                    v0.wf(),
                    v0.layout().render_ok(cx, cy, c),
                    cx == v0.cursor_pos.0,
                    cy == v0.cursor_pos.1,
                    gw as int == v0.layout().gw,
                    gh as int == v0.layout().gh,
                    stride as int == v0.layout().stride,
                    width as int == v0.layout().w,
                    fg == v0.foreground_color,
                    bg == v0.background_color,
                    glyphs@ == v0.font.glyphs@,
                    glyph_start == v0.layout().glyph_start(c),
                    glyph_data@ == glyphs@.subrange(glyph_start as int, glyphs@.len() as int),
                    len == px0.len(),
                    len <= usize::MAX,
                    y < gh,
                    x <= gw,
                    self.wf(),
                    v0.same_setup(self),
                    self.cursor_pos == v0.cursor_pos,
                    row_start == v0.layout().draw_rows(px0, c, cx, cy, y as int),
                    row_start.len() == len,
                    self.framebuffer.pixels@ == v0.layout().draw_cols(row_start, c, cx, cy, y as int, x as int),
                decreases gw - x,
            {
                proof {
                    v0.layout().lemma_cell_bounds(cx, cy, c, x as int, y as int);
                    lemma_mul_le(y as int, 255, stride as int);
                    lemma_mul_le(stride as int, 255, 255);
                    lemma_mul_le(cy as int, 0xFFFF_FFFF, gh as int);
                    lemma_mul_le(gh as int, 255, 0xFFFF_FFFF);
                    lemma_mul_le(cx as int, 0xFFFF_FFFF, gw as int);
                    lemma_mul_le(gw as int, 255, 0xFFFF_FFFF);
                    v0.layout().lemma_draw_cols_len(row_start, c, cx, cy, y as int, x as int);
                }
                let byte = glyph_data[y as usize * stride as usize + (x as usize / 8)];
                let pixel_color: u32 = if byte & (1u8 << (7 - (x % 8))) != 0 {
                    fg
                } else {
                    bg
                };
                let absolute_x: u64 = (cx as u64 * gw as u64) + x as u64;
                let absolute_y: u64 = (cy as u64 * gh as u64) + y as u64;
                let index: u64 = absolute_y * width + absolute_x;
                assert(pixel_color == v0.layout().glyph_pixel(c, x as int, y as int));
                self.framebuffer.pixels.set(index as usize, pixel_color);
                x = x + 1;
            }
            y = y + 1;
        }
    }
}

impl<'a> Vga<'a> {
    /// Handles a control sequence introduced by an escape character and `[`.
    /// Sequences are not interpreted: the characters after the introducer are
    /// left in `it` and written like any other text.
    fn handle_csi(&mut self, it: &mut core::str::Chars<'_>)
        ensures
            *final(self) == *old(self),
            *final(it) == *old(it),
    {
    }
}

impl<'a> Vga<'a> {
    /// Whether text line `line` can be scrolled into: `scroll_ok`, computed.
    fn line_scrollable(&self, line: u64) -> (ok: bool)
        requires
            line <= u32::MAX as u64 + 1,
        ensures
            ok == self.layout().scroll_ok(line as int),
    {
        let w = self.framebuffer.width as u128;
        let h = self.framebuffer.height as u128;
        let gh = self.font.glyph_size.1 as u128;
        let line = line as u128;
        proof {
            lemma_mul_le(line as int, 0x1_0000_0000, gh as int);
            lemma_mul_le(gh as int, 255, 0x1_0000_0000);
            lemma_mul_nonneg(line as int, gh as int);
            lemma_mul_le(line as int * gh as int, 0x100_0000_0000, w as int);
            lemma_mul_le(w as int, 0xFFFF_FFFF_FFFF_FFFF, 0x100_0000_0000);
            lemma_mul_le(gh as int, 255, w as int);
            lemma_mul_le(w as int, 0xFFFF_FFFF_FFFF_FFFF, 255);
            lemma_mul_le(h as int, 0xFFFF_FFFF_FFFF_FFFF, w as int);
            lemma_mul_le(w as int, 0xFFFF_FFFF_FFFF_FFFF, 0xFFFF_FFFF_FFFF_FFFF);
        }
        gh <= h && line * gh <= usize::MAX as u128 && w * (line * gh) + w * gh <= w * h
    }

    /// Whether writing `c` with the cursor at column `cx`, row `cy` is accepted:
    /// `char_ok`, computed. It does not depend on the pixels.
    fn cursor_accepts(&self, cx: u32, cy: u32, c: char, Ghost(px): Ghost<Seq<u32>>) -> (ok: bool)
        ensures
            ok == self.layout().char_ok((px, cx, cy), c),
    {
        let w = self.framebuffer.width as u128;
        let h = self.framebuffer.height as u128;
        let gw = self.font.glyph_size.0 as u128;
        let gh = self.font.glyph_size.1 as u128;
        let cxw = cx as u128;
        let cyw = cy as u128;
        proof {
            lemma_mul_le(cyw as int, 0x1_0000_0000, gh as int);
            lemma_mul_le(gh as int, 255, 0x1_0000_0000);
            lemma_mul_le(cxw as int + 1, 0x1_0000_0000, gw as int);
            lemma_mul_le(gw as int, 255, 0x1_0000_0000);
            lemma_mul_nonneg(cyw as int, gh as int);
        }
        if c == '\n' {
            if gh > h {
                return false;
            }
            if cyw * gh >= h - gh {
                self.line_scrollable(cy as u64)
            } else {
                cy < u32::MAX
            }
        } else {
            if !self.cell_renderable(cx, cy, c) || cx == u32::MAX {
                return false;
            }
            if (cxw + 1) * gw >= w {
                if cy == u32::MAX || gh > h {
                    return false;
                }
                proof {
                    lemma_mul_le(cyw as int + 1, 0x1_0000_0000, gh as int);
                }
                if (cyw + 1) * gh >= h - gh {
                    self.line_scrollable(cy as u64 + 1)
                } else {
                    true
                }
            } else {
                true
            }
        }
    }

    /// Whether the glyph of `c` can be drawn in the cell at column `cx`, row
    /// `cy`: `render_ok`, computed.
    fn cell_renderable(&self, cx: u32, cy: u32, c: char) -> (ok: bool)
        ensures
            ok == self.layout().render_ok(cx, cy, c),
    {
        let w = self.framebuffer.width as u128;
        let h = self.framebuffer.height as u128;
        let gw = self.font.glyph_size.0 as u128;
        let gh = self.font.glyph_size.1 as u128;
        let stride = self.font.glyph_stride as u128;
        let glyphs_len = self.font.glyphs.len() as u128;
        let code = c as u32 as u128;
        proof {
            lemma_mul_le(stride as int, 255, gh as int);
            lemma_mul_le(gh as int, 255, 255);
            lemma_mul_nonneg(stride as int, gh as int);
            lemma_mul_le(code as int, 0x1_0000_0000, stride as int * gh as int);
            lemma_mul_le(stride as int * gh as int, 0x1_0000, 0x1_0000_0000);
        }
        let glyph_start = code * (stride * gh);
        if glyph_start > usize::MAX as u128 || glyph_start > glyphs_len {
            return false;
        }
        if gw == 0 || gh == 0 {
            return true;
        }
        proof {
            lemma_mul_le(gh as int - 1, 255, stride as int);
            lemma_mul_le(stride as int, 255, 255);
            lemma_mul_le(cy as int, 0x1_0000_0000, gh as int);
            lemma_mul_le(gh as int, 255, 0x1_0000_0000);
            lemma_mul_le(cx as int, 0x1_0000_0000, gw as int);
            lemma_mul_le(gw as int, 255, 0x1_0000_0000);
            lemma_mul_nonneg(cy as int, gh as int);
            lemma_mul_le(
                cy as int * gh as int + gh as int - 1,
                0x100_0000_0000,
                w as int,
            );
            lemma_mul_le(w as int, 0xFFFF_FFFF_FFFF_FFFF, 0x100_0000_0000);
            lemma_mul_le(h as int, 0xFFFF_FFFF_FFFF_FFFF, w as int);
            lemma_mul_le(w as int, 0xFFFF_FFFF_FFFF_FFFF, 0xFFFF_FFFF_FFFF_FFFF);
        }
        let last_byte = glyph_start + (gh - 1) * stride + (gw - 1) / 8;
        let last_pixel = (cy as u128 * gh + gh - 1) * w + (cx as u128 * gw + gw - 1);
        last_byte < glyphs_len && last_pixel < w * h
    }

    /// The cursor after writing `c` from column `cx`, row `cy`.
    fn next_cursor(&self, cx: u32, cy: u32, c: char, Ghost(px): Ghost<Seq<u32>>) -> (next: (
        u32,
        u32,
    ))
        requires
            self.layout().char_ok((px, cx, cy), c),
        ensures
            next.0 == self.layout().step((px, cx, cy), c).1,
            next.1 == self.layout().step((px, cx, cy), c).2,
    {
        let w = self.framebuffer.width as u128;
        let h = self.framebuffer.height as u128;
        let gw = self.font.glyph_size.0 as u128;
        let gh = self.font.glyph_size.1 as u128;
        proof {
            lemma_mul_le(cy as int, 0x1_0000_0000, gh as int);
            lemma_mul_le(gh as int, 255, 0x1_0000_0000);
            lemma_mul_le(cx as int + 1, 0x1_0000_0000, gw as int);
            lemma_mul_le(gw as int, 255, 0x1_0000_0000);
        }
        if c == '\n' {
            if cy as u128 * gh >= h - gh {
                (0, cy)
            } else {
                (0, cy + 1)
            }
        } else if (cx as u128 + 1) * gw >= w {
            (0, cy + 1)
        } else {
            (cx + 1, cy)
        }
    }

    /// Whether the console accepts `c` now (see [`Sink::accepts_char`]).
    pub fn can_putchar(&self, c: char) -> (ok: bool)
        ensures
            ok == self.accepts_char(c),
    {
        self.framebuffer_consistent() && self.cursor_accepts(
            self.cursor_pos.0,
            self.cursor_pos.1,
            c,
            Ghost(self.framebuffer.pixels@),
        )
    }

    fn framebuffer_consistent(&self) -> (ok: bool)
        ensures
            ok == self.wf(),
    {
        let w = self.framebuffer.width as u128;
        let h = self.framebuffer.height as u128;
        proof {
            lemma_mul_le(h as int, 0xFFFF_FFFF_FFFF_FFFF, w as int);
            lemma_mul_le(w as int, 0xFFFF_FFFF_FFFF_FFFF, 0xFFFF_FFFF_FFFF_FFFF);
        }
        self.framebuffer.pixels.len() as u128 == w * h && w <= usize::MAX as u128 && h
            <= usize::MAX as u128
    }

    /// Whether the console accepts `s` now (see [`Sink::accepts_str`]): every
    /// character that writing `s` draws stays inside the font, the framebuffer
    /// and the cursor's range.
    pub fn can_putstr(&self, s: &str) -> (ok: bool)
        ensures
            ok == self.accepts_str(s@),
    {
        broadcast use vstd::string::group_string_axioms;

        if !self.framebuffer_consistent() {
            return false;
        }
        let ghost lay = self.layout();
        let ghost mut st = self.screen();
        let mut cx = self.cursor_pos.0;
        let mut cy = self.cursor_pos.1;
        let mut it = s.chars();
        let ghost mut n: nat = s@.len();
        loop
            invariant
                self.wf(),
                lay == self.layout(),
                n == it.remaining().len(),
                cx == st.1,
                cy == st.2,
                lay.run_ok(self.screen(), expand_escapes(s@)) == lay.run_ok(
                    st,
                    expand_escapes(it.remaining()),
                ),
            ensures
                lay.run_ok(self.screen(), expand_escapes(s@)),
            decreases n,
        {
            let ghost rem0 = it.remaining();
            match it.next() {
                None => {
                    assert(rem0.len() == 0);
                    break ;
                },
                Some(c) => {
                    proof {
                        n = (n - 1) as nat;
                    }
                    let ghost rem1 = it.remaining();
                    assert(rem1 =~= rem0.subrange(1, rem0.len() as int));
                    if c == '\x1b' {
                        let fc = it.next();
                        let ghost rem2 = it.remaining();
                        match fc {
                            Some('[') => {
                                proof {
                                    n = (n - 1) as nat;
                                }
                                assert(rem2 =~= rem0.subrange(2, rem0.len() as int));
                                assert(expand_escapes(rem0) == seq!['\x1b'] + expand_escapes(rem2));
                            },
                            Some(x) => {
                                proof {
                                    n = (n - 1) as nat;
                                }
                                assert(rem2 =~= rem0.subrange(2, rem0.len() as int));
                                let ghost e = expand_escapes(rem2);
                                assert(expand_escapes(rem0) == seq![x, '\x1b'] + e);
                                assert(seq![x, '\x1b'] + e =~= seq![x] + (seq!['\x1b'] + e));
                                proof {
                                    lemma_run_cons(lay, st, x, seq!['\x1b'] + e);
                                }
                                if !self.cursor_accepts(cx, cy, x, Ghost(st.0)) {
                                    return false;
                                }
                                let next = self.next_cursor(cx, cy, x, Ghost(st.0));
                                cx = next.0;
                                cy = next.1;
                                proof {
                                    st = lay.step(st, x);
                                }
                            },
                            None => {
                                assert(rem2.len() == 0);
                                assert(rem0.len() == 1);
                                assert(expand_escapes(rem0) == seq!['\x1b']);
                                assert(expand_escapes(rem2) =~= Seq::<char>::empty());
                                assert(seq!['\x1b'] + expand_escapes(rem2) =~= seq!['\x1b']);
                            },
                        }
                        proof {
                            lemma_run_cons(lay, st, c, expand_escapes(it.remaining()));
                        }
                        if !self.cursor_accepts(cx, cy, c, Ghost(st.0)) {
                            return false;
                        }
                        let next = self.next_cursor(cx, cy, c, Ghost(st.0));
                        cx = next.0;
                        cy = next.1;
                        proof {
                            st = lay.step(st, c);
                        }
                    } else {
                        assert(expand_escapes(rem0) == seq![c] + expand_escapes(rem1));
                        proof {
                            lemma_run_cons(lay, st, c, expand_escapes(rem1));
                        }
                        if !self.cursor_accepts(cx, cy, c, Ghost(st.0)) {
                            return false;
                        }
                        let next = self.next_cursor(cx, cy, c, Ghost(st.0));
                        cx = next.0;
                        cy = next.1;
                        proof {
                            st = lay.step(st, c);
                        }
                    }
                },
            }
        }
        true
    }
}

impl<'a> Sink for Vga<'a> {
    open spec fn accepts_char(&self, c: char) -> bool {
        self.wf() && self.layout().char_ok(self.screen(), c)
    }

    open spec fn accepts_str(&self, s: Seq<char>) -> bool {
        self.wf() && self.layout().run_ok(self.screen(), expand_escapes(s))
    }

    open spec fn put_char_result(&self, c: char, after: &Self) -> bool {
        &&& after.wf()
        &&& self.same_setup(after)
        &&& after.screen() == self.layout().step(self.screen(), c)
    }

    open spec fn put_str_result(&self, s: Seq<char>, after: &Self) -> bool {
        &&& after.wf()
        &&& self.same_setup(after)
        &&& after.screen() == self.layout().run(self.screen(), expand_escapes(s))
    }

    fn putchar(&mut self, c: char) {
        let gh = self.font.glyph_size.1;
        if c == '\n' {
            if self.cursor_pos.1 as u64 * gh as u64 >= (self.framebuffer.height - (gh as u64)) {
                self.scroll();
                self.cursor_pos.0 = 0;
            } else {
                self.cursor_pos.0 = 0;
                self.cursor_pos.1 = self.cursor_pos.1 + 1;
            }
            return;
        }
        self.draw_glyph(c);
        self.cursor_pos.0 = self.cursor_pos.0 + 1;
        proof {
            lemma_mul_le(self.cursor_pos.0 as int, 0xFFFF_FFFF, self.layout().gw);
            lemma_mul_le(self.layout().gw, 255, 0xFFFF_FFFF);
        }
        if self.cursor_pos.0 as u64 * self.font.glyph_size.0 as u64 >= self.framebuffer.width {
            self.cursor_pos.0 = 0;
            self.cursor_pos.1 = self.cursor_pos.1 + 1;
            if self.cursor_pos.1 as u64 * gh as u64 >= (self.framebuffer.height - (gh as u64)) {
                self.scroll();
                self.cursor_pos.0 = 0;
            }
        }
    }

    fn putstr(&mut self, s: &str) {
        broadcast use vstd::string::group_string_axioms;

        let ghost v0 = *old(self);
        let ghost lay = v0.layout();
        let mut it = s.chars();
        let ghost mut n: nat = s@.len();
        loop
            invariant
                n == it.remaining().len(),
                v0 == *old(self),
                lay == v0.layout(),
                self.wf(),
                v0.same_setup(self),
                lay.run_ok(self.screen(), expand_escapes(it.remaining())),
                lay.run(self.screen(), expand_escapes(it.remaining())) == lay.run(
                    v0.screen(),
                    expand_escapes(s@),
                ),
            ensures
                self.wf(),
                v0.same_setup(self),
                self.screen() == lay.run(v0.screen(), expand_escapes(s@)),
            decreases n,
        {
            let ghost rem0 = it.remaining();
            let ghost st0 = self.screen();
            match it.next() {
                None => {
                    assert(rem0.len() == 0);
                    break ;
                },
                Some(c) => {
                    proof {
                        n = (n - 1) as nat;
                    }
                    let ghost rem1 = it.remaining();
                    assert(rem1 =~= rem0.subrange(1, rem0.len() as int));
                    if c == '\x1b' {
                        let fc = it.next();
                        let ghost rem2 = it.remaining();
                        match fc {
                            Some('[') => {
                                proof {
                                    n = (n - 1) as nat;
                                }
                                assert(rem2 =~= rem0.subrange(2, rem0.len() as int));
                                assert(expand_escapes(rem0) == seq!['\x1b'] + expand_escapes(rem2));
                                self.handle_csi(&mut it);
                            },
                            Some(x) => {
                                proof {
                                    n = (n - 1) as nat;
                                }
                                assert(rem2 =~= rem0.subrange(2, rem0.len() as int));
                                let ghost e = expand_escapes(rem2);
                                assert(expand_escapes(rem0) == seq![x, '\x1b'] + e);
                                assert(seq![x, '\x1b'] + e =~= seq![x] + (seq!['\x1b'] + e));
                                proof {
                                    lemma_run_cons(lay, st0, x, seq!['\x1b'] + e);
                                }
                                self.putchar(x);
                            },
                            None => {
                                assert(rem2.len() == 0);
                                assert(rem0.len() == 1);
                                assert(expand_escapes(rem0) == seq!['\x1b']);
                                assert(expand_escapes(rem2) =~= Seq::<char>::empty());
                                assert(seq!['\x1b'] + expand_escapes(rem2) =~= seq!['\x1b']);
                            },
                        }
                        proof {
                            lemma_run_cons(lay, self.screen(), c, expand_escapes(it.remaining()));
                        }
                        self.putchar(c);
                    } else {
                        assert(expand_escapes(rem0) == seq![c] + expand_escapes(rem1));
                        proof {
                            lemma_run_cons(lay, st0, c, expand_escapes(rem1));
                        }
                        self.putchar(c);
                    }
                },
            }
        }
    }
}

/// Red, green and blue of xterm colour `code`: the sixteen system colours at
/// intensity 205 (grey 127 for code 8, blue 238 for code 4, red and green 92
/// for code 12), black for the colour cube, and 8 + 10 steps for the grey ramp.
pub open spec fn xterm_rgb(code: u8) -> (u8, u8, u8) {
    if code <= 16 {
        let level: u8 = 205;
        let r: u8 = if code == 8 {
            127
        } else if code & 1 != 0 {
            level
        } else if code == 12 {
            92
        } else {
            0
        };
        let g: u8 = if code == 8 {
            127
        } else if code & 2 != 0 {
            level
        } else if code == 12 {
            92
        } else {
            0
        };
        let b: u8 = if code == 8 {
            127
        } else if code == 4 {
            238
        } else if code & 4 != 0 {
            level
        } else {
            0
        };
        (r, g, b)
    } else if code <= 231 {
        (0, 0, 0)
    } else {
        let gray = ((code - 232) * 10 + 8) as u8;
        (gray, gray, gray)
    }
}

/// An opaque 32-bit pixel: alpha 0xFF, then red, green and blue.
pub open spec fn argb(r: u8, g: u8, b: u8) -> u32 {
    (0xFF00_0000 + r * 0x1_0000 + g * 0x100 + b) as u32
}

proof fn lemma_pack_argb(r: u8, g: u8, b: u8)
    ensures
        0xFF00_0000u32 | ((r as u32) << 16u32) | ((g as u32) << 8u32) | (b as u32) == argb(r, g, b),
{
    assert(0xFF00_0000u32 | ((r as u32) << 16u32) | ((g as u32) << 8u32) | (b as u32) == (
    0xFF00_0000 + r * 0x1_0000 + g * 0x100 + b) as u32) by (bit_vector);
}

/// The framebuffer pixel for xterm colour `code`.
pub fn xterm_code_to_color(code: u8) -> (color: u32)
    ensures
        color == argb(xterm_rgb(code).0, xterm_rgb(code).1, xterm_rgb(code).2),
        color >> 24u32 == 0xFF,
{
    let mut r: u8 = 0;
    let mut g: u8 = 0;
    let mut b: u8 = 0;
    if code <= 16 {
        let mut level: u8 = 0;
        level = if level > 8 {
            255
        } else if level == 7 {
            229
        } else {
            205
        };
        r = if code == 8 {
            127
        } else if (code & 1) != 0 {
            level
        } else if code == 12 {
            92
        } else {
            0
        };
        g = if code == 8 {
            127
        } else if (code & 2) != 0 {
            level
        } else if code == 12 {
            92
        } else {
            0
        };
        b = if code == 8 {
            127
        } else if code == 4 {
            238
        } else if (code & 4) != 0 {
            level
        } else {
            0
        };
    } else if code <= 231 {
    } else {
        let gray_level = (code - 232) * 10 + 8;
        r = gray_level;
        g = gray_level;
        b = gray_level;
    }
    proof {
        lemma_pack_argb(r, g, b);
        assert((0xFF00_0000u32 | ((r as u32) << 16u32) | ((g as u32) << 8u32) | (b as u32)) >> 24u32
            == 0xFF) by (bit_vector);
    }
    0xFF00_0000 | ((r as u32) << 16) | ((g as u32) << 8) | b as u32
}

impl<'a> Vga<'a> {
    /// Fills the framebuffer with `color` from row 50 down.
    pub fn clear(framebuffer: &mut Framebuffer, color: u32)
        requires
            old(framebuffer).wf(),
            old(framebuffer).width * 50 <= u64::MAX,
        ensures
            final(framebuffer).wf(),
            final(framebuffer).width == old(framebuffer).width,
            final(framebuffer).height == old(framebuffer).height,
            final(framebuffer).pixels@ == Seq::new(
                old(framebuffer).pixels@.len(),
                |i: int|
                    if old(framebuffer).width * 50 <= i {
                        color
                    } else {
                        old(framebuffer).pixels@[i]
                    },
            ),
    {
        let ghost px0 = framebuffer.pixels@;
        let len = framebuffer.pixels.len();
        let end: u64 = framebuffer.width * framebuffer.height;
        let mut i: u64 = framebuffer.width * 50;
        let ghost first = i;
        while i < end
            invariant
                framebuffer.wf(),
                framebuffer.width == old(framebuffer).width,
                framebuffer.height == old(framebuffer).height,
                px0 == old(framebuffer).pixels@,
                end == px0.len(),
                len == px0.len(),
                first == old(framebuffer).width * 50,
                first <= i || end <= i,
                framebuffer.pixels@.len() == px0.len(),
                forall|k: int|
                    0 <= k < px0.len() ==> #[trigger] framebuffer.pixels@[k] == if first <= k < i {
                        color
                    } else {
                        px0[k]
                    },
            decreases end - i,
        {
            framebuffer.pixels.set(i as usize, color);
            i = i + 1;
        }
        assert(framebuffer.pixels@ =~= Seq::new(
            px0.len(),
            |k: int|
                if first <= k {
                    color
                } else {
                    px0[k]
                },
        ));
    }

    /// A console on `framebuffer` that draws with the PSF font in `font_data`,
    /// blue (0xFF) text on black, with the cursor at the top left.
    pub fn new(framebuffer: Framebuffer, font_data: &'a [u8]) -> (vga: Self)
        requires
            framebuffer.wf(),
            is_psf1(font_data@),
        ensures
            vga.wf(),
            vga.framebuffer == framebuffer,
            describes_psf1(vga.font, font_data@),
            vga.cursor_pos == (0u32, 0u32),
            vga.background_color == 0,
            vga.foreground_color == 0xFF,
    {
        let font = PsfFont::parse(font_data).unwrap();
        Self { framebuffer, font, cursor_pos: (0, 0), background_color: 0x0, foreground_color: 0xFF }
    }
}

} // verus!
