//! The textual form of the emitted code: AT&T syntax, one instruction per
//! line, each line led by its line break.
use vstd::prelude::*;
use vstd::string::*;
use crate::machine::Combine;
use crate::machine::Instr;
use crate::machine::InstrView;
use crate::machine::Location;
use crate::machine::Output;
use crate::machine::Register;
use crate::registers::regInfo;
use crate::registers::regList;
use crate::storage::Binding;
use crate::storage::varStList;
use crate::storage::varStoreInfo;

verus! {

/// The character of the decimal digit `d`.
pub open spec fn digit(d: int) -> char {
    if d == 0 {
        '0'
    } else if d == 1 {
        '1'
    } else if d == 2 {
        '2'
    } else if d == 3 {
        '3'
    } else if d == 4 {
        '4'
    } else if d == 5 {
        '5'
    } else if d == 6 {
        '6'
    } else if d == 7 {
        '7'
    } else if d == 8 {
        '8'
    } else {
        '9'
    }
}

/// The decimal digits of `n`, most significant first, without leading zeros.
pub open spec fn digits(n: nat) -> Seq<char>
    decreases n,
{
    if n < 10 {
        seq![digit(n as int)]
    } else {
        digits(n / 10).push(digit((n % 10) as int))
    }
}

/// The decimal numeral of `n`, with a minus sign if it is negative.
pub open spec fn decimal(n: int) -> Seq<char> {
    if n < 0 {
        seq!['-'] + digits((-n) as nat)
    } else {
        digits(n as nat)
    }
}

/// The name of a register as the assembler spells it.
pub open spec fn register_text(reg: Register) -> Seq<char> {
    match reg {
        Register::Rax => "%rax"@,
        Register::Rbx => "%rbx"@,
        Register::Rcx => "%rcx"@,
        Register::Rdx => "%rdx"@,
        Register::Rsp => "%rsp"@,
        Register::Rbp => "%rbp"@,
        Register::Rsi => "%rsi"@,
        Register::Rdi => "%rdi"@,
        Register::R8 => "%r8"@,
        Register::R9 => "%r9"@,
    }
}

/// An operand: a register by its name, a frame slot as a displacement from
/// the frame base.
pub open spec fn location_text(location: Location) -> Seq<char> {
    match location {
        Location::Register(reg) => register_text(reg),
        Location::Frame(offset) => decimal(offset as int) + "(%rbp)"@,
    }
}

/// The mnemonic of a two-operand instruction.
pub open spec fn mnemonic(op: Combine) -> Seq<char> {
    match op {
        Combine::Add => "addq"@,
        Combine::Subtract => "subq"@,
        Combine::Multiply => "imulq"@,
        Combine::Or => "orq"@,
        Combine::And => "andq"@,
        Combine::Xor => "xorq"@,
    }
}

/// The line of one instruction.
pub open spec fn instr_text(instr: InstrView) -> Seq<char> {
    match instr {
        InstrView::Global(name) => "\n.globl "@ + name,
        InstrView::Label(name) => "\n"@ + name + ":"@,
        InstrView::SaveFrameBase => "\npushq %rbp"@,
        InstrView::SetFrameBase => "\nmovq %rsp, %rbp"@,
        InstrView::RestoreFrameBase => "\npopq %rbp"@,
        InstrView::Return => "\nretq\n"@,
        InstrView::Reserve { slots } => "\nsubq $"@ + decimal(8 * slots)
            + ", %rsp  # Allocate stack space"@,
        InstrView::Release { slots } => "\naddq $"@ + decimal(8 * slots)
            + ", %rsp  # Deallocate stack space"@,
        InstrView::Discard { slots } => "\naddq $"@ + decimal(8 * slots)
            + ", %rsp  # Restore stack"@,
        InstrView::LoadImmediate { value, dst } => "\nmovq $"@ + decimal(value as int) + ", "@
            + location_text(dst),
        InstrView::Move { src, dst } => "\nmovq "@ + location_text(src) + ", "@ + location_text(
            dst,
        ),
        InstrView::Push { src } => "\npushq "@ + location_text(src),
        InstrView::Call(name) => "\ncall "@ + name,
        InstrView::SignExtend => "\ncqto"@,
        InstrView::Divide { src } => "\nidivq "@ + location_text(src),
        InstrView::Apply { op, src } => "\n"@ + mnemonic(op) + " "@ + location_text(src)
            + ", %rax"@,
        InstrView::ShiftLeft => "\nshlq %cl, %rax"@,
        InstrView::ShiftRight => "\nsarq %cl, %rax"@,
        InstrView::Negate => "\nnegq %rax"@,
    }
}

/// The lines of a run of instructions, one after the other.
pub open spec fn code_text(code: Seq<InstrView>) -> Seq<char>
    decreases code.len(),
{
    if code.len() == 0 {
        Seq::empty()
    } else {
        code_text(code.drop_last()) + instr_text(code.last())
    }
}

fn digit_text(d: u8) -> (text: &'static str)
    requires
        d < 10,
    ensures
        text@ == seq![digit(d as int)],
{
    proof {
        reveal_strlit("0");
        reveal_strlit("1");
        reveal_strlit("2");
        reveal_strlit("3");
        reveal_strlit("4");
        reveal_strlit("5");
        reveal_strlit("6");
        reveal_strlit("7");
        reveal_strlit("8");
        reveal_strlit("9");
    }
    let text = if d == 0 {
        "0"
    } else if d == 1 {
        "1"
    } else if d == 2 {
        "2"
    } else if d == 3 {
        "3"
    } else if d == 4 {
        "4"
    } else if d == 5 {
        "5"
    } else if d == 6 {
        "6"
    } else if d == 7 {
        "7"
    } else if d == 8 {
        "8"
    } else {
        "9"
    };
    assert(text@ =~= seq![digit(d as int)]);
    text
}

fn push_digits(out: &mut String, n: u128)
    ensures
        final(out)@ == old(out)@ + digits(n as nat),
    decreases n,
{
    if n >= 10 {
        push_digits(out, n / 10);
    }
    out.append(digit_text((n % 10) as u8));
    assert(out@ =~= old(out)@ + digits(n as nat));
}

/// Appends the decimal numeral of `n` to `out`.
pub fn push_decimal(out: &mut String, n: i128)
    ensures
        final(out)@ == old(out)@ + decimal(n as int),
{
    if n < 0 {
        proof {
            reveal_strlit("-");
        }
        out.append("-");
        let magnitude: u128 = (-(n + 1)) as u128 + 1;
        push_digits(out, magnitude);
        assert(out@ =~= old(out)@ + decimal(n as int));
    } else {
        push_digits(out, n as u128);
    }
}

impl Register {
    /// The name of the register as the assembler spells it.
    pub fn text(self) -> (text: &'static str)
        ensures
            text@ == register_text(self),
    {
        match self {
            Register::Rax => "%rax",
            Register::Rbx => "%rbx",
            Register::Rcx => "%rcx",
            Register::Rdx => "%rdx",
            Register::Rsp => "%rsp",
            Register::Rbp => "%rbp",
            Register::Rsi => "%rsi",
            Register::Rdi => "%rdi",
            Register::R8 => "%r8",
            Register::R9 => "%r9",
        }
    }
}

fn push_location(out: &mut String, location: Location)
    ensures
        final(out)@ == old(out)@ + location_text(location),
{
    match location {
        Location::Register(reg) => {
            out.append(reg.text());
        },
        Location::Frame(offset) => {
            push_decimal(out, offset as i128);
            out.append("(%rbp)");
            assert(out@ =~= old(out)@ + location_text(location));
        },
    }
}

fn push_bytes(out: &mut String, slots: u64)
    ensures
        final(out)@ == old(out)@ + decimal(8 * slots),
{
    push_decimal(out, (slots as i128) * 8);
}

impl Combine {
    /// The mnemonic of the instruction.
    pub fn mnemonic(self) -> (text: &'static str)
        ensures
            text@ == mnemonic(self),
    {
        match self {
            Combine::Add => "addq",
            Combine::Subtract => "subq",
            Combine::Multiply => "imulq",
            Combine::Or => "orq",
            Combine::And => "andq",
            Combine::Xor => "xorq",
        }
    }
}

/// Appends the line of `instr` to `out`.
pub fn push_instr(out: &mut String, instr: &Instr)
    ensures
        final(out)@ == old(out)@ + instr_text(instr@),
{
    match instr {
        Instr::Global(name) => {
            out.append("\n.globl ");
            out.append(name.as_str());
        },
        Instr::Label(name) => {
            out.append("\n");
            out.append(name.as_str());
            out.append(":");
        },
        Instr::SaveFrameBase => {
            out.append("\npushq %rbp");
        },
        Instr::SetFrameBase => {
            out.append("\nmovq %rsp, %rbp");
        },
        Instr::RestoreFrameBase => {
            out.append("\npopq %rbp");
        },
        Instr::Return => {
            out.append("\nretq\n");
        },
        Instr::Reserve { slots } => {
            out.append("\nsubq $");
            push_bytes(out, *slots);
            out.append(", %rsp  # Allocate stack space");
        },
        Instr::Release { slots } => {
            out.append("\naddq $");
            push_bytes(out, *slots);
            out.append(", %rsp  # Deallocate stack space");
        },
        Instr::Discard { slots } => {
            out.append("\naddq $");
            push_bytes(out, *slots);
            out.append(", %rsp  # Restore stack");
        },
        Instr::LoadImmediate { value, dst } => {
            out.append("\nmovq $");
            push_decimal(out, *value as i128);
            out.append(", ");
            push_location(out, *dst);
        },
        Instr::Move { src, dst } => {
            out.append("\nmovq ");
            push_location(out, *src);
            out.append(", ");
            push_location(out, *dst);
        },
        Instr::Push { src } => {
            out.append("\npushq ");
            push_location(out, *src);
        },
        Instr::Call(name) => {
            out.append("\ncall ");
            out.append(name.as_str());
        },
        Instr::SignExtend => {
            out.append("\ncqto");
        },
        Instr::Divide { src } => {
            out.append("\nidivq ");
            push_location(out, *src);
        },
        Instr::Apply { op, src } => {
            out.append("\n");
            out.append(op.mnemonic());
            out.append(" ");
            push_location(out, *src);
            out.append(", %rax");
        },
        Instr::ShiftLeft => {
            out.append("\nshlq %cl, %rax");
        },
        Instr::ShiftRight => {
            out.append("\nsarq %cl, %rax");
        },
        Instr::Negate => {
            out.append("\nnegq %rax");
        },
    }
    assert(out@ =~= old(out)@ + instr_text(instr@));
}

impl Location {
    /// The operand as the assembler spells it: a register's name, or a
    /// displacement from the frame base.
    pub fn text(&self) -> (text: String)
        ensures
            text@ == location_text(*self),
    {
        let mut text = String::new();
        push_location(&mut text, *self);
        assert(text@ =~= location_text(*self));
        text
    }
}

impl Instr {
    /// The line of the instruction.
    pub fn text(&self) -> (text: String)
        ensures
            text@ == instr_text(self@),
    {
        let mut text = String::new();
        push_instr(&mut text, self);
        assert(text@ =~= instr_text(self@));
        text
    }
}

impl Output {
    /// The assembly text of everything emitted, in emission order.
    pub fn text(&self) -> (text: String)
        ensures
            text@ == code_text(self@.code),
    {
        let mut text = String::new();
        let mut i: usize = 0;
        assert(self@.code.take(0) =~= Seq::<InstrView>::empty());
        while i < self.code.len()
            invariant
                0 <= i <= self.code.len(),
                text@ == code_text(self@.code.take(i as int)),
            decreases self.code.len() - i,
        {
            proof {
                let upto = self@.code.take(i + 1);
                assert(upto.drop_last() =~= self@.code.take(i as int));
                assert(upto.last() == self.code@[i as int]@);
            }
            push_instr(&mut text, &self.code[i]);
            i += 1;
        }
        assert(self@.code.take(i as int) =~= self@.code);
        text
    }
}

/// One entry of the register table in a listing: the register, then 1 if it
/// is available and 0 if it is not.
pub open spec fn register_entry_text(entry: regInfo) -> Seq<char> {
    "\t "@ + register_text(entry.name) + " : "@ + (if entry.avail {
        "1"@
    } else {
        "0"@
    }) + " -> "@
}

/// The entries of a register table in a listing, in table order.
pub open spec fn register_entries_text(table: Seq<regInfo>) -> Seq<char>
    decreases table.len(),
{
    if table.len() == 0 {
        Seq::empty()
    } else {
        register_entries_text(table.drop_last()) + register_entry_text(table.last())
    }
}

/// The listing of a register table: a notice if it is empty, then its
/// entries on one line.
pub open spec fn register_list_text(table: Seq<regInfo>) -> Seq<char> {
    (if table.len() == 0 {
        "Empty reglist\n"@
    } else {
        Seq::empty()
    }) + register_entries_text(table) + "\n"@
}

/// One binding of the storage table in a listing: the value of a constant or
/// the name of a variable, then its location.
pub open spec fn binding_text(binding: Binding) -> Seq<char> {
    "\t "@ + (if binding.is_const {
        decimal(binding.value as int)
    } else {
        binding.name
    }) + " : "@ + location_text(binding.location) + " -> "@
}

/// The bindings of a storage table in a listing, most recent first.
pub open spec fn bindings_text(table: Seq<Binding>) -> Seq<char>
    decreases table.len(),
{
    if table.len() == 0 {
        Seq::empty()
    } else {
        bindings_text(table.drop_last()) + binding_text(table.last())
    }
}

/// The listing of a storage table: a notice if it is empty, then its
/// bindings on one line.
pub open spec fn storage_list_text(table: Seq<Binding>) -> Seq<char> {
    (if table.len() == 0 {
        "Empty varlist\n"@
    } else {
        Seq::empty()
    }) + bindings_text(table) + "\n"@
}

fn push_register_entry(out: &mut String, entry: &regInfo)
    ensures
        final(out)@ == old(out)@ + register_entry_text(*entry),
{
    out.append("\t ");
    out.append(entry.name.text());
    out.append(" : ");
    if entry.avail {
        out.append("1");
    } else {
        out.append("0");
    }
    out.append(" -> ");
    assert(out@ =~= old(out)@ + register_entry_text(*entry));
}

fn push_binding(out: &mut String, entry: &varStoreInfo)
    ensures
        final(out)@ == old(out)@ + binding_text(entry@),
{
    out.append("\t ");
    if entry.is_const {
        push_decimal(out, entry.value as i128);
    } else {
        out.append(entry.name.as_str());
    }
    out.append(" : ");
    push_location(out, entry.location);
    out.append(" -> ");
    assert(out@ =~= old(out)@ + binding_text(entry@));
}

impl regList {
    /// The listing of the table, for tracing.
    pub fn print_list(&self) -> (text: String)
        ensures
            text@ == register_list_text(self@),
    {
        let mut text = String::new();
        if self.regs.len() == 0 {
            text.append("Empty reglist\n");
        }
        let ghost notice = text@;
        let mut i: usize = 0;
        assert(self@.take(0) =~= Seq::<regInfo>::empty());
        assert(text@ =~= notice + register_entries_text(self@.take(0)));
        while i < self.regs.len()
            invariant
                0 <= i <= self.regs.len(),
                text@ == notice + register_entries_text(self@.take(i as int)),
            decreases self.regs.len() - i,
        {
            proof {
                let upto = self@.take(i + 1);
                assert(upto.drop_last() =~= self@.take(i as int));
                assert(upto.last() == self@[i as int]);
            }
            push_register_entry(&mut text, &self.regs[i]);
            assert(text@ =~= notice + register_entries_text(self@.take(i + 1)));
            i += 1;
        }
        assert(self@.take(i as int) =~= self@);
        text.append("\n");
        text
    }
}

impl varStList {
    /// The listing of the table, for tracing.
    pub fn print_list(&self) -> (text: String)
        ensures
            text@ == storage_list_text(self@),
    {
        let mut text = String::new();
        if self.entries.len() == 0 {
            text.append("Empty varlist\n");
        }
        let ghost notice = text@;
        let mut i: usize = 0;
        assert(self@.take(0) =~= Seq::<Binding>::empty());
        assert(text@ =~= notice + bindings_text(self@.take(0)));
        while i < self.entries.len()
            invariant
                0 <= i <= self.entries.len(),
                text@ == notice + bindings_text(self@.take(i as int)),
            decreases self.entries.len() - i,
        {
            proof {
                let upto = self@.take(i + 1);
                assert(upto.drop_last() =~= self@.take(i as int));
                assert(upto.last() == self.entries@[i as int]@);
            }
            push_binding(&mut text, &self.entries[i]);
            assert(text@ =~= notice + bindings_text(self@.take(i + 1)));
            i += 1;
        }
        assert(self@.take(i as int) =~= self@);
        text.append("\n");
        text
    }
}

} // verus!
