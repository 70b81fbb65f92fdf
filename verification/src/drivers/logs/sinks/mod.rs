pub mod vga;

use vstd::prelude::*;

verus! {

/// Something that text can be written to, one character or one string at a time.
///
/// An implementation says which characters and strings it accepts in its
/// current state (`accepts_char`, `accepts_str`) and what writing one does
/// (`put_char_result`, `put_str_result` relate the state before to the state after).
pub trait Sink: Sized {
    spec fn accepts_char(&self, c: char) -> bool;

    spec fn accepts_str(&self, s: Seq<char>) -> bool;

    spec fn put_char_result(&self, c: char, after: &Self) -> bool;

    spec fn put_str_result(&self, s: Seq<char>, after: &Self) -> bool;

    fn putchar(&mut self, c: char)
        requires
            old(self).accepts_char(c),
        ensures
            old(self).put_char_result(c, final(self)),
    ;

    fn putstr(&mut self, s: &str)
        requires
            old(self).accepts_str(s@),
        ensures
            old(self).put_str_result(s@, final(self)),
    ;
}

} // verus!
