use codegen::machine::{Combine, Instr, Location, Output, Register};

fn name(text: &str) -> String {
    text.to_string()
}

fn reg(register: Register) -> Location {
    Location::Register(register)
}

#[test]
fn registers_are_spelled_as_the_assembler_wants_them() {
    let expected = [
        (Register::Rax, "%rax"),
        (Register::Rbx, "%rbx"),
        (Register::Rcx, "%rcx"),
        (Register::Rdx, "%rdx"),
        (Register::Rsp, "%rsp"),
        (Register::Rbp, "%rbp"),
        (Register::Rsi, "%rsi"),
        (Register::Rdi, "%rdi"),
        (Register::R8, "%r8"),
        (Register::R9, "%r9"),
    ];
    for (register, text) in expected {
        assert_eq!(register.text(), text);
        assert_eq!(reg(register).text(), text);
        assert_eq!(Instr::Push { src: reg(register) }.text(), format!("\npushq {}", text));
    }
}

#[test]
fn mnemonics() {
    assert_eq!(Combine::Add.mnemonic(), "addq");
    assert_eq!(Combine::Subtract.mnemonic(), "subq");
    assert_eq!(Combine::Multiply.mnemonic(), "imulq");
    assert_eq!(Combine::Or.mnemonic(), "orq");
    assert_eq!(Combine::And.mnemonic(), "andq");
    assert_eq!(Combine::Xor.mnemonic(), "xorq");
}

#[test]
fn text_of_every_instruction() {
    let cases = vec![
        (Instr::Global(name("fn_1")), "\n.globl fn_1"),
        (Instr::Label(name("fn_1")), "\nfn_1:"),
        (Instr::SaveFrameBase, "\npushq %rbp"),
        (Instr::SetFrameBase, "\nmovq %rsp, %rbp"),
        (Instr::RestoreFrameBase, "\npopq %rbp"),
        (Instr::Return, "\nretq\n"),
        (Instr::Reserve { slots: 2 }, "\nsubq $16, %rsp  # Allocate stack space"),
        (Instr::Release { slots: 3 }, "\naddq $24, %rsp  # Deallocate stack space"),
        (Instr::Discard { slots: 1 }, "\naddq $8, %rsp  # Restore stack"),
        (
            Instr::LoadImmediate { value: 12, dst: Location::Frame(-8) },
            "\nmovq $12, -8(%rbp)",
        ),
        (Instr::LoadImmediate { value: -12, dst: reg(Register::Rax) }, "\nmovq $-12, %rax"),
        (
            Instr::Move { src: Location::Frame(-16), dst: reg(Register::Rcx) },
            "\nmovq -16(%rbp), %rcx",
        ),
        (
            Instr::Move { src: reg(Register::Rax), dst: Location::Frame(24) },
            "\nmovq %rax, 24(%rbp)",
        ),
        (Instr::Push { src: Location::Frame(-104) }, "\npushq -104(%rbp)"),
        (Instr::Call(name("callee")), "\ncall callee"),
        (Instr::SignExtend, "\ncqto"),
        (Instr::Divide { src: Location::Frame(-8) }, "\nidivq -8(%rbp)"),
        (Instr::Divide { src: reg(Register::Rbx) }, "\nidivq %rbx"),
        (
            Instr::Apply { op: Combine::Add, src: Location::Frame(-8) },
            "\naddq -8(%rbp), %rax",
        ),
        (Instr::Apply { op: Combine::Subtract, src: reg(Register::Rdi) }, "\nsubq %rdi, %rax"),
        (Instr::Apply { op: Combine::Multiply, src: reg(Register::Rsi) }, "\nimulq %rsi, %rax"),
        (Instr::Apply { op: Combine::Or, src: reg(Register::R8) }, "\norq %r8, %rax"),
        (Instr::Apply { op: Combine::And, src: reg(Register::R9) }, "\nandq %r9, %rax"),
        (Instr::Apply { op: Combine::Xor, src: reg(Register::Rdx) }, "\nxorq %rdx, %rax"),
        (Instr::ShiftLeft, "\nshlq %cl, %rax"),
        (Instr::ShiftRight, "\nsarq %cl, %rax"),
        (Instr::Negate, "\nnegq %rax"),
    ];
    let mut out = Output::new();
    let mut whole = String::new();
    for (instr, text) in cases {
        assert_eq!(instr.text(), text);
        whole.push_str(text);
        out.emit(instr);
    }
    assert_eq!(out.text(), whole);
}

#[test]
fn literals_are_written_in_full() {
    let values: [i64; 14] = [
        0,
        1,
        9,
        10,
        11,
        99,
        100,
        -1,
        -10,
        1234567890,
        12345678901,
        -999,
        i64::MAX,
        i64::MIN,
    ];
    for value in values {
        assert_eq!(
            Instr::LoadImmediate { value, dst: Location::Register(Register::Rax) }.text(),
            format!("\nmovq ${}, %rax", value)
        );
        assert_eq!(
            Instr::Push { src: Location::Frame(value) }.text(),
            format!("\npushq {}(%rbp)", value)
        );
    }
    assert_eq!(
        Instr::LoadImmediate { value: i64::MIN, dst: Location::Frame(i64::MAX) }.text(),
        "\nmovq $-9223372036854775808, 9223372036854775807(%rbp)"
    );
}

#[test]
fn stack_adjustments_are_written_in_bytes() {
    for slots in [0u64, 1, 2, 12, 125, 1 << 32, u64::MAX / 8, u64::MAX] {
        let bytes = slots as u128 * 8;
        assert_eq!(
            Instr::Reserve { slots }.text(),
            format!("\nsubq ${}, %rsp  # Allocate stack space", bytes)
        );
        assert_eq!(
            Instr::Release { slots }.text(),
            format!("\naddq ${}, %rsp  # Deallocate stack space", bytes)
        );
        assert_eq!(
            Instr::Discard { slots }.text(),
            format!("\naddq ${}, %rsp  # Restore stack", bytes)
        );
    }
    assert_eq!(
        Instr::Reserve { slots: u64::MAX }.text(),
        "\nsubq $147573952589676412920, %rsp  # Allocate stack space"
    );
}

#[test]
fn frame_slots_are_written_as_displacements() {
    assert_eq!(Location::Frame(-8).text(), "-8(%rbp)");
    assert_eq!(Location::Frame(16).text(), "16(%rbp)");
    assert_eq!(Location::Frame(0).text(), "0(%rbp)");
    assert_eq!(Location::Frame(i64::MIN).text(), "-9223372036854775808(%rbp)");
}

#[test]
fn symbols_are_copied_as_they_are() {
    assert_eq!(Instr::Call(name("")).text(), "\ncall ");
    assert_eq!(Instr::Label(name("weiß_1")).text(), "\nweiß_1:");
    assert_eq!(Instr::Global(name("a b")).text(), "\n.globl a b");
}

#[test]
fn emit_and_report_append() {
    let mut out = Output::new();
    assert!(out.code.is_empty());
    assert!(out.diagnostics.is_empty());
    out.emit(Instr::Negate);
    out.report(codegen::machine::Diagnostic::UnhandledOperation);
    out.emit(Instr::SignExtend);
    out.report(codegen::machine::Diagnostic::UnsupportedExpression);
    assert_eq!(out.code, vec![Instr::Negate, Instr::SignExtend]);
    assert_eq!(
        out.diagnostics,
        vec![
            codegen::machine::Diagnostic::UnhandledOperation,
            codegen::machine::Diagnostic::UnsupportedExpression
        ]
    );
}
