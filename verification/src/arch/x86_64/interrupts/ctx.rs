//! The register state an interrupt handler saves, and its text form.
use vstd::prelude::*;

verus! {

/// The general purpose registers, in the order the interrupt entry code saves them.
#[derive(Clone, Copy)]
pub struct Registers {
    pub r15: u64,
    pub r14: u64,
    pub r13: u64,
    pub r12: u64,
    pub r11: u64,
    pub r10: u64,
    pub r9: u64,
    pub r8: u64,
    pub rsi: u64,
    pub rdi: u64,
    pub rbp: u64,
    pub rdx: u64,
    pub rcx: u64,
    pub rbx: u64,
    pub rax: u64,
}

/// What an interrupt leaves on the stack for its handler.
#[derive(Clone, Copy)]
pub struct Context {
    pub isr_index: u64,
    pub registers: Registers,
    pub error_code: u64,
    pub eip: u64,
    pub cs: u64,
    pub eflags: u64,
}

/// Lower-case hexadecimal digit for `d` in `0..16`.
pub open spec fn hex_digit(d: u64) -> char {
    if d == 0 {
        '0'
    } else if d == 1 {
        '1'
    } else if d == 2 {
        '2'
    } else if d == 3 {
        '3'
    } else if d == 4 {
        '4'
    } else if d == 5 {
        '5'
    } else if d == 6 {
        '6'
    } else if d == 7 {
        '7'
    } else if d == 8 {
        '8'
    } else if d == 9 {
        '9'
    } else if d == 10 {
        'a'
    } else if d == 11 {
        'b'
    } else if d == 12 {
        'c'
    } else if d == 13 {
        'd'
    } else if d == 14 {
        'e'
    } else {
        'f'
    }
}

/// `v` as sixteen hexadecimal digits, most significant first, zero padded.
pub open spec fn hex16(v: u64) -> Seq<char> {
    Seq::new(16, |i: int| hex_digit((v >> ((60 - 4 * i) as u64)) & 0xF))
}

/// A label followed by a register value in hexadecimal.
pub open spec fn field(label: &str, v: u64) -> Seq<char> {
    label@ + hex16(v)
}

/// The text form of the registers: three lines of five registers each.
pub open spec fn registers_text(r: Registers) -> Seq<char> {
    field("RAX: ", r.rax) + field("  RBX: ", r.rbx) + field("  RCX: ", r.rcx) + field(
        "  RDX: ",
        r.rdx,
    ) + field("  RBP: ", r.rbp) + "\n"@ + field("RDI: ", r.rdi) + field("  RSI: ", r.rsi)
        + field("  R8:  ", r.r8) + field("  R9:  ", r.r9) + field("  R10: ", r.r10) + "\n"@
        + field("R11: ", r.r11) + field("  R12: ", r.r12) + field("  R13: ", r.r13) + field(
        "  R14: ",
        r.r14,
    ) + field("  R15: ", r.r15) + "\n"@
}

/// The text form of an interrupt context: instruction pointer, code segment and flags.
pub open spec fn context_text(c: Context) -> Seq<char> {
    field("EIP: ", c.eip) + field("  CS:  ", c.cs) + field("  EFLAGS: ", c.eflags) + "\n"@
}

fn hex_digit_str(d: u64) -> (s: &'static str)
    requires
        d < 16,
    ensures
        s@ == seq![hex_digit(d)],
{
    proof {
        reveal_strlit("0");
        reveal_strlit("1");
        reveal_strlit("2");
        reveal_strlit("3");
        reveal_strlit("4");
        reveal_strlit("5");
        reveal_strlit("6");
        reveal_strlit("7");
        reveal_strlit("8");
        reveal_strlit("9");
        reveal_strlit("a");
        reveal_strlit("b");
        reveal_strlit("c");
        reveal_strlit("d");
        reveal_strlit("e");
        reveal_strlit("f");
    }
    let s = match d {
        0 => "0",
        1 => "1",
        2 => "2",
        3 => "3",
        4 => "4",
        5 => "5",
        6 => "6",
        7 => "7",
        8 => "8",
        9 => "9",
        10 => "a",
        11 => "b",
        12 => "c",
        13 => "d",
        14 => "e",
        _ => "f",
    };
    assert(s@ =~= seq![hex_digit(d)]);
    s
}

/// Appends `label` and then `v` in sixteen hexadecimal digits.
fn push_field(out: &mut String, label: &str, v: u64)
    ensures
        final(out)@ == old(out)@ + field(label, v),
{
    out.append(label);
    let ghost start = out@;
    let mut i: u64 = 0;
    while i < 16
        invariant
            start == old(out)@ + label@,
            i <= 16,
            out@ == start + hex16(v).take(i as int),
        decreases 16 - i,
    {
        let shift: u64 = 60 - 4 * i;
        let d = (v >> shift) & 0xF;
        assert(d < 16) by (bit_vector)
            requires
                d == (v >> shift) & 0xF,
        ;
        out.append(hex_digit_str(d));
        assert(hex16(v).take(i as int + 1) =~= hex16(v).take(i as int).push(hex_digit(d)));
        i = i + 1;
    }
    assert(hex16(v).take(16) =~= hex16(v));
}

impl Registers {
    /// The registers as text, as a crash report prints them.
    pub fn debug_string(&self) -> (s: String)
        ensures
            s@ == registers_text(*self),
    {
        let mut s = String::new();
        push_field(&mut s, "RAX: ", self.rax);
        assert(s@ =~= field("RAX: ", self.rax));
        push_field(&mut s, "  RBX: ", self.rbx);
        push_field(&mut s, "  RCX: ", self.rcx);
        push_field(&mut s, "  RDX: ", self.rdx);
        push_field(&mut s, "  RBP: ", self.rbp);
        s.append("\n");
        push_field(&mut s, "RDI: ", self.rdi);
        push_field(&mut s, "  RSI: ", self.rsi);
        push_field(&mut s, "  R8:  ", self.r8);
        push_field(&mut s, "  R9:  ", self.r9);
        push_field(&mut s, "  R10: ", self.r10);
        s.append("\n");
        push_field(&mut s, "R11: ", self.r11);
        push_field(&mut s, "  R12: ", self.r12);
        push_field(&mut s, "  R13: ", self.r13);
        push_field(&mut s, "  R14: ", self.r14);
        push_field(&mut s, "  R15: ", self.r15);
        s.append("\n");
        s
    }
}

impl Context {
    /// The context as text, as a crash report prints it.
    pub fn debug_string(&self) -> (s: String)
        ensures
            s@ == context_text(*self),
    {
        let mut s = String::new();
        push_field(&mut s, "EIP: ", self.eip);
        assert(s@ =~= field("EIP: ", self.eip));
        push_field(&mut s, "  CS:  ", self.cs);
        push_field(&mut s, "  EFLAGS: ", self.eflags);
        s.append("\n");
        s
    }
}

} // verus!
