//! A VGA text mode terminal: 25 lines of 80 characters, each with an attribute byte.
pub mod colors;

use vstd::prelude::*;
use crate::vgatty::colors::{Color, color_value};

verus! {

pub const VGA_LINES: usize = 25;

pub const VGA_COLUMNS: usize = 80;

/// One cell of the text buffer: a code page 437 character and its colours.
#[derive(Clone, Copy, PartialEq, Eq, Structural, Debug)]
pub struct Character {
    pub character: u8,
    pub attribute: u8,
}

/// The text buffer, line by line.
pub struct Buffer {
    pub chars: Vec<Character>,
}

pub struct VGATty {
    pub x: usize,
    pub y: usize,
    pub vga_buffer: Buffer,
    pub char_attribute: u8,
}

/// Cursor column, cursor line and cells of a terminal.
pub type TtyState = (usize, usize, Seq<Character>);

/// The terminal after writing byte `c` with attribute `attr`: a newline moves
/// to the start of the next line; any other byte is stored at the cursor, which
/// moves right, and to the next line once it is past the last column.
pub open spec fn write_step(attr: u8, st: TtyState, c: u8) -> TtyState {
    let (x, y, cells) = st;
    if c == 10u8 {
        (0, (y + 1) as usize, cells)
    } else {
        let stored = cells.update(y * VGA_COLUMNS + x, Character { character: c, attribute: attr });
        if x + 1 > VGA_COLUMNS {
            (0, (y + 1) as usize, stored)
        } else {
            ((x + 1) as usize, y, stored)
        }
    }
}

/// Writing byte `c` on `st` stays inside the buffer: a newline needs a line
/// number to move to, any other byte a cursor on the screen.
pub open spec fn write_ok(st: TtyState, c: u8) -> bool {
    let (x, y, cells) = st;
    if c == 10u8 {
        y < usize::MAX
    } else {
        x < VGA_COLUMNS && y < VGA_LINES
    }
}

/// The terminal after writing each byte of `s` in turn.
pub open spec fn write_run(attr: u8, st: TtyState, s: Seq<u8>) -> TtyState
    decreases s.len(),
{
    if s.len() == 0 {
        st
    } else {
        write_run(attr, write_step(attr, st, s[0]), s.drop_first())
    }
}

/// Every byte of `s`, written in turn from `st`, stays inside the buffer.
pub open spec fn write_run_ok(attr: u8, st: TtyState, s: Seq<u8>) -> bool
    decreases s.len(),
{
    s.len() == 0 || (write_ok(st, s[0]) && write_run_ok(
        attr,
        write_step(attr, st, s[0]),
        s.drop_first(),
    ))
}

/// Writing `a` and then `b` leaves the terminal as writing `a + b` does, and
/// is accepted exactly when writing `a + b` is.
pub proof fn lemma_write_in_pieces(attr: u8, st: TtyState, a: Seq<u8>, b: Seq<u8>)
    ensures
        write_run(attr, st, a + b) == write_run(attr, write_run(attr, st, a), b),
        write_run_ok(attr, st, a + b) == (write_run_ok(attr, st, a) && write_run_ok(
            attr,
            write_run(attr, st, a),
            b,
        )),
    decreases a.len(),
{
    if a.len() == 0 {
        assert(a + b =~= b);
    } else {
        assert((a + b)[0] == a[0]);
        assert((a + b).drop_first() =~= a.drop_first() + b);
        lemma_write_in_pieces(attr, write_step(attr, st, a[0]), a.drop_first(), b);
    }
}

impl VGATty {
    /// The buffer holds one cell per position of the screen.
    pub open spec fn wf(&self) -> bool {
        self.vga_buffer.chars@.len() == VGA_LINES * VGA_COLUMNS
    }

    /// The cells of the text buffer, line by line.
    pub open spec fn cells(&self) -> Seq<Character> {
        self.vga_buffer.chars@
    }

    /// Cursor column, cursor line and cells.
    pub open spec fn state(&self) -> TtyState {
        (self.x, self.y, self.vga_buffer.chars@)
    }

    /// The attribute byte new characters get.
    pub open spec fn attribute(&self) -> u8 {
        self.char_attribute
    }

    /// A terminal with the cursor at the top left, white on black, over a
    /// buffer of cells that are all 0.
    pub fn bind() -> (tty: VGATty)
        ensures
            tty.wf(),
            tty.state().0 == 0,
            tty.state().1 == 0,
            tty.attribute() == 0x0F,
            tty.cells() == Seq::new(
                (VGA_LINES * VGA_COLUMNS) as nat,
                |i: int| Character { character: 0, attribute: 0 },
            ),
    {
        let mut chars: Vec<Character> = Vec::new();
        while chars.len() < VGA_LINES * VGA_COLUMNS
            invariant
                chars@.len() <= VGA_LINES * VGA_COLUMNS,
                forall|i: int|
                    0 <= i < chars@.len() ==> #[trigger] chars@[i] == (Character {
                        character: 0,
                        attribute: 0,
                    }),
            decreases VGA_LINES * VGA_COLUMNS - chars@.len(),
        {
            chars.push(Character { character: 0, attribute: 0 });
        }
        let tty = VGATty { x: 0, y: 0, char_attribute: 0x0F, vga_buffer: Buffer { chars } };
        assert(tty.cells() =~= Seq::new(
            (VGA_LINES * VGA_COLUMNS) as nat,
            |i: int| Character { character: 0, attribute: 0 },
        ));
        tty
    }

    /// The cells of the text buffer, for copying to the screen.
    pub fn buffer(&self) -> (cells: &[Character])
        ensures
            cells@ == self.cells(),
    {
        self.vga_buffer.chars.as_slice()
    }

    /// Fills the screen with spaces in the current colours.
    pub fn clear_screen(&mut self)
        requires
            old(self).wf(),
        ensures
            final(self).wf(),
            final(self).state().0 == old(self).state().0,
            final(self).state().1 == old(self).state().1,
            final(self).attribute() == old(self).attribute(),
            final(self).cells() == Seq::new(
                (VGA_LINES * VGA_COLUMNS) as nat,
                |i: int| Character { character: 32, attribute: old(self).attribute() },
            ),
    {
        let mut y: usize = 0;
        while y < VGA_LINES
            invariant
                self.vga_buffer.chars@.len() == VGA_LINES * VGA_COLUMNS,
                self.x == old(self).x,
                self.y == old(self).y,
                self.char_attribute == old(self).char_attribute,
                y <= VGA_LINES,
                forall|i: int|
                    0 <= i < y * VGA_COLUMNS ==> #[trigger] self.vga_buffer.chars@[i] == (Character {
                        character: 32,
                        attribute: old(self).char_attribute,
                    }),
            decreases VGA_LINES - y,
        {
            let mut x: usize = 0;
            while x < VGA_COLUMNS
                invariant
                    self.vga_buffer.chars@.len() == VGA_LINES * VGA_COLUMNS,
                    self.x == old(self).x,
                    self.y == old(self).y,
                    self.char_attribute == old(self).char_attribute,
                    y < VGA_LINES,
                    x <= VGA_COLUMNS,
                    forall|i: int|
                        0 <= i < y * VGA_COLUMNS + x ==> #[trigger] self.vga_buffer.chars@[i]
                            == (Character { character: 32, attribute: old(self).char_attribute }),
                decreases VGA_COLUMNS - x,
            {
                let attribute = self.char_attribute;
                self.vga_buffer.chars.set(y * VGA_COLUMNS + x, Character { character: 0x20, attribute });
                x = x + 1;
            }
            y = y + 1;
        }
        assert(self.cells() =~= Seq::new(
            (VGA_LINES * VGA_COLUMNS) as nat,
            |i: int| Character { character: 32, attribute: old(self).attribute() },
        ));
    }

    /// Adds the bits of `color` to the foreground colour of new characters.
    pub fn set_foreground_color(&mut self, color: Color)
        ensures
            final(self).wf() == old(self).wf(),
            final(self).attribute() == old(self).attribute() | color_value(color),
            final(self).cells() == old(self).cells(),
            final(self).state().0 == old(self).state().0,
            final(self).state().1 == old(self).state().1,
    {
        self.char_attribute = self.char_attribute | color.value();
    }

    /// Adds the bits of `color` to the background colour of new characters.
    pub fn set_background_color(&mut self, color: Color)
        ensures
            final(self).wf() == old(self).wf(),
            final(self).attribute() == old(self).attribute() | ((color_value(color) << 4u8) as u8),
            final(self).cells() == old(self).cells(),
            final(self).state().0 == old(self).state().0,
            final(self).state().1 == old(self).state().1,
    {
        self.char_attribute = self.char_attribute | (color.value() << 4);
    }

    /// Whether writing `str` now stays inside the buffer (see [`write_run_ok`]).
    pub fn can_write(&self, str: &[u8]) -> (ok: bool)
        ensures
            ok == write_run_ok(self.attribute(), self.state(), str@),
    {
        let attr = self.char_attribute;
        let ghost mut st = self.state();
        let mut x = self.x;
        let mut y = self.y;
        let mut i: usize = 0;
        assert(str@.skip(0) =~= str@);
        while i < str.len()
            invariant
                attr == self.attribute(),
                x == st.0,
                y == st.1,
                i <= str@.len(),
                write_run_ok(attr, self.state(), str@) == write_run_ok(attr, st, str@.skip(i as int)),
            decreases str@.len() - i,
        {
            let c = str[i];
            assert(str@.skip(i as int)[0] == c);
            assert(str@.skip(i as int).drop_first() =~= str@.skip(i as int + 1));
            if c == 0x0A {
                if y == usize::MAX {
                    return false;
                }
                x = 0;
                y = y + 1;
            } else {
                if x >= VGA_COLUMNS || y >= VGA_LINES {
                    return false;
                }
                x = x + 1;
                if x > VGA_COLUMNS {
                    x = 0;
                    y = y + 1;
                }
            }
            proof {
                st = write_step(attr, st, c);
            }
            i = i + 1;
        }
        assert(str@.skip(i as int) =~= Seq::<u8>::empty());
        true
    }

    /// Writes the bytes of `str` at the cursor.
    pub fn write(&mut self, str: &[u8])
        requires
            old(self).wf(),
            write_run_ok(old(self).attribute(), old(self).state(), str@),
        ensures
            final(self).wf(),
            final(self).state() == write_run(old(self).attribute(), old(self).state(), str@),
            final(self).attribute() == old(self).attribute(),
    {
        let attr = self.char_attribute;
        let mut i: usize = 0;
        assert(str@.skip(0) =~= str@);
        while i < str.len()
            invariant
                attr == old(self).char_attribute,
                self.char_attribute == attr,
                self.vga_buffer.chars@.len() == VGA_LINES * VGA_COLUMNS,
                i <= str@.len(),
                write_run_ok(attr, (self.x, self.y, self.vga_buffer.chars@), str@.skip(i as int)),
                write_run(attr, (self.x, self.y, self.vga_buffer.chars@), str@.skip(i as int)) == write_run(
                    attr,
                    (old(self).x, old(self).y, old(self).vga_buffer.chars@),
                    str@,
                ),
            decreases str@.len() - i,
        {
            let c = str[i];
            assert(str@.skip(i as int)[0] == c);
            assert(str@.skip(i as int).drop_first() =~= str@.skip(i as int + 1));
            if c == 0x0A {
                self.x = 0;
                self.y = self.y + 1;
            } else {
                self.vga_buffer.chars.set(
                    self.y * VGA_COLUMNS + self.x,
                    Character { character: c, attribute: attr },
                );
                self.x = self.x + 1;
                if self.x > VGA_COLUMNS {
                    self.x = 0;
                    self.y = self.y + 1;
                }
            }
            i = i + 1;
        }
        assert(str@.skip(i as int) =~= Seq::<u8>::empty());
    }
}

} // verus!
