//! The target machine as the generator sees it: registers, storage
//! locations and the instructions that can be emitted.
use vstd::prelude::*;

verus! {

/// A general-purpose or pointer register of the 64-bit target.
#[derive(Clone, Copy, Debug, PartialEq, Eq, Structural)]
pub enum Register {
    Rax,
    Rbx,
    Rcx,
    Rdx,
    Rsp,
    Rbp,
    Rsi,
    Rdi,
    R8,
    R9,
}

impl Register {
    /// The stack pointer and the frame base are never handed out.
    pub open spec fn is_pointer(self) -> bool {
        self == Register::Rsp || self == Register::Rbp
    }

    /// Exec counterpart of [`Register::is_pointer`].
    pub fn pointer(self) -> (res: bool)
        ensures
            res == self.is_pointer(),
    {
        match self {
            Register::Rsp => true,
            Register::Rbp => true,
            _ => false,
        }
    }
}

/// Where a value lives: in a register, or in a slot addressed relative to the
/// frame base.
#[derive(Clone, Copy, Debug, PartialEq, Eq, Structural)]
pub enum Location {
    Register(Register),
    /// Byte displacement from the frame base; local slots are negative
    /// multiples of 8, stack-passed arguments sit on the positive side.
    Frame(i64),
}

/// The register in which an expression's result is left.
pub open spec fn accumulator() -> Location {
    Location::Register(Register::Rax)
}

/// Number of arguments passed in registers.
pub const REGISTER_ARGUMENTS: usize = 6;

/// The register that carries argument `index` of a call, in
/// calling-convention order; it is read for the first six arguments only.
pub open spec fn argument_register(index: int) -> Register {
    if index == 0 {
        Register::Rdi
    } else if index == 1 {
        Register::Rsi
    } else if index == 2 {
        Register::Rdx
    } else if index == 3 {
        Register::Rcx
    } else if index == 4 {
        Register::R8
    } else {
        Register::R9
    }
}

/// The register that carries argument `index` of a call, if it travels in a
/// register at all.
pub fn argument_register_at(index: usize) -> (reg: Option<Register>)
    ensures
        index < REGISTER_ARGUMENTS ==> reg == Some(argument_register(index as int)),
        index >= REGISTER_ARGUMENTS ==> reg is None,
{
    if index == 0 {
        Some(Register::Rdi)
    } else if index == 1 {
        Some(Register::Rsi)
    } else if index == 2 {
        Some(Register::Rdx)
    } else if index == 3 {
        Some(Register::Rcx)
    } else if index == 4 {
        Some(Register::R8)
    } else if index == 5 {
        Some(Register::R9)
    } else {
        None
    }
}

/// Two-operand instructions whose destination is the accumulator.
#[derive(Clone, Copy, Debug, PartialEq, Eq, Structural)]
pub enum Combine {
    Add,
    Subtract,
    Multiply,
    Or,
    And,
    Xor,
}

/// One emitted instruction or directive.
#[derive(Clone, Debug, PartialEq, Eq)]
pub enum Instr {
    /// `.globl name`
    Global(String),
    /// `name:`
    Label(String),
    /// `pushq %rbp`
    SaveFrameBase,
    /// `movq %rsp, %rbp`
    SetFrameBase,
    /// `popq %rbp`
    RestoreFrameBase,
    /// `retq`
    Return,
    /// `subq $8*slots, %rsp`, the reservation for local variables.
    Reserve { slots: u64 },
    /// `addq $8*slots, %rsp`, the bulk deallocation of the frame.
    Release { slots: u64 },
    /// `addq $8*slots, %rsp`, dropping stack-passed arguments after a call.
    Discard { slots: u64 },
    /// `movq $value, dst`
    LoadImmediate { value: i64, dst: Location },
    /// `movq src, dst`
    Move { src: Location, dst: Location },
    /// `pushq src`
    Push { src: Location },
    /// `call name`
    Call(String),
    /// `cqto`: sign-extend the accumulator into the remainder register.
    SignExtend,
    /// `idivq src`: divide the extended accumulator by `src`.
    Divide { src: Location },
    /// `op src, %rax`
    Apply { op: Combine, src: Location },
    /// `shlq %cl, %rax`
    ShiftLeft,
    /// `sarq %cl, %rax`
    ShiftRight,
    /// `negq %rax`
    Negate,
}

/// Mathematical value of an [`Instr`]: symbol names become character
/// sequences.
pub enum InstrView {
    Global(Seq<char>),
    Label(Seq<char>),
    SaveFrameBase,
    SetFrameBase,
    RestoreFrameBase,
    Return,
    Reserve { slots: u64 },
    Release { slots: u64 },
    Discard { slots: u64 },
    LoadImmediate { value: i64, dst: Location },
    Move { src: Location, dst: Location },
    Push { src: Location },
    Call(Seq<char>),
    SignExtend,
    Divide { src: Location },
    Apply { op: Combine, src: Location },
    ShiftLeft,
    ShiftRight,
    Negate,
}

impl View for Instr {
    type V = InstrView;

    open spec fn view(&self) -> InstrView {
        match *self {
            Instr::Global(name) => InstrView::Global(name@),
            Instr::Label(name) => InstrView::Label(name@),
            Instr::SaveFrameBase => InstrView::SaveFrameBase,
            Instr::SetFrameBase => InstrView::SetFrameBase,
            Instr::RestoreFrameBase => InstrView::RestoreFrameBase,
            Instr::Return => InstrView::Return,
            Instr::Reserve { slots } => InstrView::Reserve { slots },
            Instr::Release { slots } => InstrView::Release { slots },
            Instr::Discard { slots } => InstrView::Discard { slots },
            Instr::LoadImmediate { value, dst } => InstrView::LoadImmediate { value, dst },
            Instr::Move { src, dst } => InstrView::Move { src, dst },
            Instr::Push { src } => InstrView::Push { src },
            Instr::Call(name) => InstrView::Call(name@),
            Instr::SignExtend => InstrView::SignExtend,
            Instr::Divide { src } => InstrView::Divide { src },
            Instr::Apply { op, src } => InstrView::Apply { op, src },
            Instr::ShiftLeft => InstrView::ShiftLeft,
            Instr::ShiftRight => InstrView::ShiftRight,
            Instr::Negate => InstrView::Negate,
        }
    }
}

/// A condition met during lowering that leaves a node without code.
#[derive(Clone, Copy, Debug, PartialEq, Eq, Structural)]
pub enum Diagnostic {
    /// An operation node carried an operator the generator has no lowering for.
    UnhandledOperation,
    /// An expression node was of a kind the generator has no lowering for.
    UnsupportedExpression,
}

/// What aborts code generation.
#[derive(Clone, Debug, PartialEq, Eq)]
pub enum CodegenError {
    /// A variable was referenced before anything bound its name.
    UnboundVariable(String),
    /// The next frame-relative displacement does not fit in 64 bits.
    FrameExhausted,
}

/// Mathematical value of a [`CodegenError`].
pub enum ErrorView {
    UnboundVariable(Seq<char>),
    FrameExhausted,
}

impl View for CodegenError {
    type V = ErrorView;

    open spec fn view(&self) -> ErrorView {
        match *self {
            CodegenError::UnboundVariable(name) => ErrorView::UnboundVariable(name@),
            CodegenError::FrameExhausted => ErrorView::FrameExhausted,
        }
    }
}

/// The append-only sink of one generation run.
#[derive(Debug, PartialEq, Eq)]
pub struct Output {
    /// Instructions in emission order.
    pub code: Vec<Instr>,
    /// Conditions reported along the way, in order of occurrence.
    pub diagnostics: Vec<Diagnostic>,
}

/// Mathematical value of an [`Output`].
pub struct OutputView {
    pub code: Seq<InstrView>,
    pub diagnostics: Seq<Diagnostic>,
}

impl OutputView {
    /// The sink after one more instruction.
    pub open spec fn emit(self, instr: InstrView) -> OutputView {
        OutputView { code: self.code.push(instr), diagnostics: self.diagnostics }
    }

    /// The sink after one more diagnostic.
    pub open spec fn report(self, diagnostic: Diagnostic) -> OutputView {
        OutputView { code: self.code, diagnostics: self.diagnostics.push(diagnostic) }
    }
}

impl View for Output {
    type V = OutputView;

    open spec fn view(&self) -> OutputView {
        OutputView {
            code: self.code@.map_values(|i: Instr| i@),
            diagnostics: self.diagnostics@,
        }
    }
}

impl Output {
    /// An empty sink.
    pub fn new() -> (out: Output)
        ensures
            out@.code == Seq::<InstrView>::empty(),
            out@.diagnostics == Seq::<Diagnostic>::empty(),
    {
        let out = Output { code: Vec::new(), diagnostics: Vec::new() };
        assert(out@.code =~= Seq::<InstrView>::empty());
        out
    }

    /// Appends one instruction.
    pub fn emit(&mut self, instr: Instr)
        ensures
            final(self)@ == old(self)@.emit(instr@),
    {
        self.code.push(instr);
        assert(self@.code =~= old(self)@.code.push(instr@));
    }

    /// Appends one diagnostic.
    pub fn report(&mut self, diagnostic: Diagnostic)
        ensures
            final(self)@ == old(self)@.report(diagnostic),
    {
        self.diagnostics.push(diagnostic);
    }
}

} // verus!
