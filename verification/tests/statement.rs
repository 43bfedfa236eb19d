use codegen::ast::{Expr, OpCode, Stmt, StmtKind};
use codegen::frame::globals;
use codegen::machine::{CodegenError, Instr, Location, Output, Register};
use codegen::statement::process_statements;
use codegen::storage::{varStList, INVAL};

fn name(text: &str) -> String {
    text.to_string()
}

fn rax() -> Location {
    Location::Register(Register::Rax)
}

fn var(text: &str) -> Expr {
    Expr::variable(name(text))
}

fn lower(body: &Vec<Stmt>) -> (Result<(), CodegenError>, Output, globals, varStList) {
    let mut out = Output::new();
    let mut glb = globals::new();
    let mut table = varStList::new();
    let res = process_statements(&mut out, body, &mut glb, &mut table);
    (res, out, glb, table)
}

#[test]
fn empty_body_emits_nothing() {
    let (res, out, glb, table) = lower(&vec![]);
    assert_eq!(res, Ok(()));
    assert!(out.code.is_empty());
    assert_eq!(glb, globals::new());
    assert!(table.entries.is_empty());
}

#[test]
fn empty_statements_emit_nothing() {
    let (res, out, _, _) = lower(&vec![Stmt::empty(), Stmt::empty()]);
    assert_eq!(res, Ok(()));
    assert!(out.code.is_empty());
}

#[test]
fn reservation_counts_each_assigned_name_once() {
    let body = vec![
        Stmt::assign(name("a"), Expr::constant(1)),
        Stmt::assign(name("b"), Expr::constant(2)),
        Stmt::empty(),
        Stmt::assign(name("a"), Expr::constant(3)),
        Stmt::assign(name("c"), var("a")),
        Stmt::assign(name("b"), var("c")),
    ];
    let (res, out, _, _) = lower(&body);
    assert_eq!(res, Ok(()));
    assert_eq!(out.code[0], Instr::Reserve { slots: 3 });
    assert_eq!(out.code[0].text(), "\nsubq $24, %rsp  # Allocate stack space");
    let reservations = out.code.iter().filter(|i| matches!(i, Instr::Reserve { .. })).count();
    assert_eq!(reservations, 1);
}

#[test]
fn names_that_are_only_returned_reserve_nothing() {
    let mut out = Output::new();
    let mut glb = globals::new();
    let mut table = varStList::new();
    table.add_var_info(name("a"), Location::Register(Register::Rdi), INVAL, false);
    let body = vec![Stmt::ret(Some(var("a")))];
    assert_eq!(process_statements(&mut out, &body, &mut glb, &mut table), Ok(()));
    assert_eq!(
        out.code,
        vec![
            Instr::Move { src: Location::Register(Register::Rdi), dst: rax() },
            Instr::RestoreFrameBase,
            Instr::Return,
        ]
    );
}

#[test]
fn assignment_stores_the_accumulator_in_a_new_slot() {
    let mut out = Output::new();
    let mut glb = globals::new();
    let mut table = varStList::new();
    table.add_var_info(name("a"), Location::Register(Register::Rdi), INVAL, false);
    let body = vec![Stmt::assign(name("x"), var("a"))];
    assert_eq!(process_statements(&mut out, &body, &mut glb, &mut table), Ok(()));
    assert_eq!(
        out.text(),
        "\nsubq $8, %rsp  # Allocate stack space\
         \nmovq %rdi, %rax\
         \nmovq %rax, -8(%rbp)"
    );
    assert_eq!(table.lookup_var_info(name("x"), INVAL), Some(Location::Frame(-8)));
    assert_eq!(table.entries[0].name, "x");
    assert!(!table.entries[0].is_const);
    assert_eq!(table.entries[0].value, INVAL);
    assert_eq!(glb, globals { last_used_offset: -16, last_offset_used: -8 });
}

#[test]
fn every_assignment_to_one_name_takes_a_new_slot() {
    let body = vec![
        Stmt::assign(name("x"), Expr::call(name("f"), vec![])),
        Stmt::assign(name("x"), Expr::call(name("g"), vec![])),
        Stmt::assign(name("x"), var("x")),
    ];
    let (res, out, glb, table) = lower(&body);
    assert_eq!(res, Ok(()));
    assert_eq!(
        out.text(),
        "\nsubq $8, %rsp  # Allocate stack space\
         \ncall f\
         \nmovq %rax, -8(%rbp)\
         \ncall g\
         \nmovq %rax, -16(%rbp)\
         \nmovq -16(%rbp), %rax\
         \nmovq %rax, -24(%rbp)"
    );
    assert_eq!(table.lookup_var_info(name("x"), INVAL), Some(Location::Frame(-24)));
    assert_eq!(table.entries.len(), 3);
    assert_eq!(glb, globals { last_used_offset: -32, last_offset_used: -24 });
}

#[test]
fn assignment_of_a_literal_caches_it_and_stores_the_accumulator() {
    let (res, out, _, table) = lower(&vec![Stmt::assign(name("x"), Expr::constant(5))]);
    assert_eq!(res, Ok(()));
    assert_eq!(
        out.text(),
        "\nsubq $8, %rsp  # Allocate stack space\
         \nmovq $5, -8(%rbp)\
         \nmovq %rax, -16(%rbp)"
    );
    assert_eq!(table.lookup_var_info(name("x"), INVAL), Some(Location::Frame(-16)));
    assert_eq!(table.lookup_var_info(name(""), 5), Some(Location::Frame(-8)));
}

#[test]
fn assignment_without_a_right_hand_side_still_stores() {
    let body = vec![Stmt { kind: StmtKind::Assign, name: name("x"), expr: None }];
    let (res, out, _, table) = lower(&body);
    assert_eq!(res, Ok(()));
    assert_eq!(
        out.code,
        vec![Instr::Reserve { slots: 1 }, Instr::Move { src: rax(), dst: Location::Frame(-8) }]
    );
    assert_eq!(table.lookup_var_info(name("x"), INVAL), Some(Location::Frame(-8)));
}

#[test]
fn return_of_a_literal_loads_it_directly() {
    let (res, out, glb, table) = lower(&vec![Stmt::ret(Some(Expr::constant(-7)))]);
    assert_eq!(res, Ok(()));
    assert_eq!(
        out.code,
        vec![
            Instr::LoadImmediate { value: -7, dst: rax() },
            Instr::RestoreFrameBase,
            Instr::Return,
        ]
    );
    assert_eq!(out.text(), "\nmovq $-7, %rax\npopq %rbp\nretq\n");
    assert_eq!(glb, globals::new());
    assert!(table.entries.is_empty());
}

#[test]
fn return_without_a_value_is_just_the_epilogue() {
    let (res, out, _, _) = lower(&vec![Stmt::ret(None)]);
    assert_eq!(res, Ok(()));
    assert_eq!(out.code, vec![Instr::RestoreFrameBase, Instr::Return]);
}

#[test]
fn return_releases_every_slot_allocated_so_far() {
    let body = vec![
        Stmt::assign(name("a"), Expr::constant(1)),
        Stmt::assign(name("b"), Expr::binary(OpCode::Add, var("a"), Expr::constant(2))),
        Stmt::ret(Some(var("b"))),
    ];
    let (res, out, glb, _) = lower(&body);
    assert_eq!(res, Ok(()));
    assert_eq!(
        out.text(),
        "\nsubq $16, %rsp  # Allocate stack space\
         \nmovq $1, -8(%rbp)\
         \nmovq %rax, -16(%rbp)\
         \nmovq $2, -24(%rbp)\
         \nmovq -16(%rbp), %rax\
         \naddq -24(%rbp), %rax\
         \nmovq %rax, -32(%rbp)\
         \nmovq -32(%rbp), %rax\
         \naddq $32, %rsp  # Deallocate stack space\
         \npopq %rbp\
         \nretq\n"
    );
    assert_eq!(glb.last_used_offset, -40);
}

#[test]
fn statements_after_a_return_are_still_lowered() {
    let body = vec![Stmt::ret(None), Stmt::assign(name("x"), Expr::call(name("f"), vec![]))];
    let (res, out, _, _) = lower(&body);
    assert_eq!(res, Ok(()));
    assert_eq!(
        out.text(),
        "\nsubq $8, %rsp  # Allocate stack space\
         \npopq %rbp\
         \nretq\n\
         \ncall f\
         \nmovq %rax, -8(%rbp)"
    );
}

#[test]
fn first_failing_statement_stops_the_body() {
    let body = vec![
        Stmt::assign(name("a"), Expr::constant(1)),
        Stmt::assign(name("b"), var("nowhere")),
        Stmt::assign(name("c"), var("elsewhere")),
    ];
    let (res, out, _, table) = lower(&body);
    assert_eq!(res, Err(CodegenError::UnboundVariable(name("nowhere"))));
    assert_eq!(out.code[0], Instr::Reserve { slots: 3 });
    assert_eq!(table.lookup_var_info(name("c"), INVAL), None);
}

#[test]
fn assignment_fails_when_no_slot_is_left_for_the_target() {
    let mut out = Output::new();
    let mut glb = globals { last_used_offset: i64::MIN, last_offset_used: i64::MIN + 8 };
    let mut table = varStList::new();
    let body = vec![Stmt::assign(name("x"), Expr::call(name("f"), vec![]))];
    assert_eq!(
        process_statements(&mut out, &body, &mut glb, &mut table),
        Err(CodegenError::FrameExhausted)
    );
    assert!(table.entries.is_empty());
}
