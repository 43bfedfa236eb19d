//! What holds of every state a generation pass goes through: the sink only
//! grows, the frame cursor only moves down, and every division is
//! sign-extended first.
use vstd::prelude::*;
use crate::ast::Decl;
use crate::ast::DeclKind;
use crate::ast::Expr;
use crate::ast::ExprKind;
use crate::ast::OpCode;
use crate::ast::Stmt;
use crate::ast::StmtKind;
use crate::driver::function_entry;
use crate::driver::lower_program;
use crate::emitter::epilogue;
use crate::emitter::incoming_fits;
use crate::emitter::lemma_bound_arguments;
use crate::emitter::names_of;
use crate::emitter::prologue;
use crate::expression::call_code;
use crate::expression::constant_binding;
use crate::expression::lower;
use crate::expression::lower_constant;
use crate::expression::operator_code;
use crate::expression::resolve;
use crate::expression::resolve_arguments;
use crate::expression::resolve_operand;
use crate::expression::search_value;
use crate::frame::globals;
use crate::frame::lemma_allocation_descends;
use crate::machine::accumulator;
use crate::machine::InstrView;
use crate::machine::Location;
use crate::machine::OutputView;
use crate::state::GenState;
use crate::statement::lower_body;
use crate::statement::lower_statement;
use crate::statement::lower_statements;
use crate::statement::reservation;
use crate::statement::store_assigned;
use crate::statement::variable_binding;
use crate::storage::Binding;
use crate::storage::INVAL;
use crate::storage::lookup;

verus! {

/// `after` starts with all of `before`, in order.
pub open spec fn grows<T>(before: Seq<T>, after: Seq<T>) -> bool {
    &&& before.len() <= after.len()
    &&& forall|i: int| 0 <= i < before.len() ==> (#[trigger] before[i]) == after[i]
}

/// Every single-operand division in `code` comes directly after the
/// instruction that sign-extends the accumulator into the remainder register.
pub open spec fn divisions_extended(code: Seq<InstrView>) -> bool {
    forall|i: int|
        0 <= i < code.len() && (#[trigger] code[i]) is Divide ==> i > 0 && code[i - 1] is SignExtend
}

/// A location a pass may name in the frame `frame`: any register, or a
/// displacement that is a multiple of 8 other than 0 and lies above the
/// cursor, so that no allocation to come will hand it out again.
pub open spec fn within_frame(location: Location, frame: globals) -> bool {
    match location {
        Location::Register(_) => true,
        Location::Frame(offset) => offset % 8 == 0 && offset != 0 && offset
            > frame.last_used_offset,
    }
}

/// The frame is well formed and the table binds nothing outside of it.
pub open spec fn sound(s: GenState) -> bool {
    &&& s.frame.wf()
    &&& forall|i: int|
        0 <= i < s.table.len() ==> within_frame((#[trigger] s.table[i]).location, s.frame)
}

/// How a later state of one pass relates to an earlier one.
pub open spec fn advances(before: GenState, after: GenState) -> bool {
    &&& grows(before.out.code, after.out.code)
    &&& grows(before.out.diagnostics, after.out.diagnostics)
    &&& after.frame.last_used_offset <= before.frame.last_used_offset
    &&& before.frame.wf() ==> after.frame.wf()
    &&& sound(before) ==> sound(after)
    &&& divisions_extended(before.out.code) ==> divisions_extended(after.out.code)
}

/// Code in which divisions are extended stays so when such code is appended.
pub proof fn lemma_divisions_concat(first: Seq<InstrView>, second: Seq<InstrView>)
    requires
        divisions_extended(first),
        divisions_extended(second),
    ensures
        divisions_extended(first + second),
{
    let all = first + second;
    assert forall|i: int| 0 <= i < all.len() && (#[trigger] all[i]) is Divide implies i > 0
        && all[i - 1] is SignExtend by {
        if i < first.len() {
            assert(first[i] is Divide);
        } else {
            assert(second[i - first.len()] is Divide);
            assert(all[i - 1] == second[i - first.len() - 1]);
        }
    }
}

/// The instructions of an operator sign-extend before they divide.
pub proof fn lemma_operator_code_extended(op: OpCode, left: Location, right: Location)
    ensures
        divisions_extended(operator_code(op, left, right)),
{
}

/// Passing arguments and calling divides nothing.
pub proof fn lemma_call_code_extended(callee: Seq<char>, locations: Seq<Location>)
    ensures
        divisions_extended(call_code(callee, locations)),
{
}

/// Emitting a run of instructions in which divisions are extended advances
/// the state.
pub proof fn lemma_emit_all_advances(s: GenState, instrs: Seq<InstrView>)
    requires
        divisions_extended(instrs),
    ensures
        advances(s, s.emit_all(instrs)),
{
    if divisions_extended(s.out.code) {
        lemma_divisions_concat(s.out.code, instrs);
    }
}

/// Emitting one instruction that is no division advances the state.
pub proof fn lemma_emit_advances(s: GenState, instr: InstrView)
    requires
        !(instr is Divide),
    ensures
        advances(s, s.emit(instr)),
{
    assert(s.out.code.push(instr) =~= s.out.code + seq![instr]);
    lemma_emit_all_advances(s, seq![instr]);
    assert(s.emit(instr).out.code == s.emit_all(seq![instr]).out.code);
}

/// Lowering a constant advances the state, and leaves the value within the
/// frame.
pub proof fn lemma_lower_constant_advances(value: i64, s: GenState)
    ensures
        lower_constant(value, s) matches Ok((after, location)) ==> advances(s, after) && (sound(s)
            ==> within_frame(location, after.frame)),
{
    if s.frame.can_allocate() {
        let slot = s.frame.next_slot() as i64;
        let s1 = s.allocate().bind(constant_binding(value, slot));
        if s.frame.wf() {
            lemma_allocation_descends(s.frame);
        }
        lemma_emit_advances(s1, InstrView::LoadImmediate { value, dst: Location::Frame(slot) });
    }
}

/// Lowering an expression advances the state: what was emitted and reported
/// stays, the cursor does not rise, a well-formed frame stays well formed,
/// and divisions stay sign-extended.
pub proof fn lemma_lower_advances(e: Expr, s: GenState)
    ensures
        lower(e, s) matches Ok((after, location)) ==> advances(s, after) && (sound(s)
            ==> within_frame(location, after.frame)),
    decreases e, 1int,
{
    match e.kind {
        ExprKind::Variable => {
            match lookup(s.table, e.name@, INVAL) {
                Some(location) => {
                    lemma_emit_advances(
                        s,
                        InstrView::Move { src: location, dst: accumulator() },
                    );
                },
                None => {},
            }
        },
        ExprKind::Constant => {
            lemma_lower_constant_advances(e.value, s);
        },
        ExprKind::Operation => {
            lemma_resolve_operand_advances(e.left, s);
            match resolve_operand(e.left, s) {
                Err(_) => {},
                Ok((s1, left)) => {
                    lemma_resolve_operand_advances(e.right, s1);
                    match resolve_operand(e.right, s1) {
                        Err(_) => {},
                        Ok((s2, right)) => {
                            if e.op == OpCode::FunctionCall {
                                lemma_resolve_arguments_advances(e, e.arguments.len() as int, s2);
                                match resolve_arguments(e, e.arguments.len() as int, s2) {
                                    Err(_) => {},
                                    Ok((s3, locations)) => {
                                        lemma_call_code_extended(e.name@, locations);
                                        lemma_emit_all_advances(s3, call_code(e.name@, locations));
                                    },
                                }
                            } else if e.op == OpCode::Other {
                            } else {
                                lemma_operator_code_extended(e.op, left, right);
                                lemma_emit_all_advances(s2, operator_code(e.op, left, right));
                            }
                        },
                    }
                },
            }
        },
        ExprKind::Other => {},
    }
}

/// Resolving a node advances the state, and yields a location within the
/// frame.
pub proof fn lemma_resolve_advances(e: Expr, s: GenState)
    ensures
        resolve(e, s) matches Ok((after, location)) ==> advances(s, after) && (sound(s)
            ==> within_frame(location, after.frame)),
    decreases e, 2int,
{
    lemma_lower_advances(e, s);
    lemma_lookup_is_bound(s.table, e.name@, search_value(e));
}

/// Resolving an operand slot advances the state, and yields a location within
/// the frame.
pub proof fn lemma_resolve_operand_advances(operand: Option<Box<Expr>>, s: GenState)
    ensures
        resolve_operand(operand, s) matches Ok((after, location)) ==> advances(s, after) && (sound(
            s,
        ) ==> within_frame(location, after.frame)),
    decreases operand, 0int,
{
    match operand {
        Some(e) => {
            lemma_resolve_advances(*e, s);
        },
        None => {},
    }
}

/// Resolving the arguments of a call advances the state, and yields one
/// location for each argument.
pub proof fn lemma_resolve_arguments_advances(e: Expr, count: int, s: GenState)
    ensures
        resolve_arguments(e, count, s) matches Ok((after, locations)) ==> advances(s, after) && (0
            <= count <= e.arguments.len() ==> locations.len() == count),
    decreases e, 0int, count,
{
    if 0 < count <= e.arguments.len() {
        lemma_resolve_arguments_advances(e, count - 1, s);
        match resolve_arguments(e, count - 1, s) {
            Err(_) => {},
            Ok((s1, _)) => {
                lemma_resolve_advances(e.arguments[count - 1], s1);
            },
        }
    }
}

/// What a lookup finds is the location of a binding of the table.
pub proof fn lemma_lookup_is_bound(table: Seq<Binding>, name: Seq<char>, value: i64)
    ensures
        lookup(table, name, value) matches Some(location) ==> exists|i: int|
            0 <= i < table.len() && (#[trigger] table[i]).location == location,
    decreases table.len(),
{
    if table.len() > 0 && !table[0].answers(name, value) {
        let rest = table.drop_first();
        lemma_lookup_is_bound(rest, name, value);
        match lookup(rest, name, value) {
            Some(location) => {
                let i = choose|i: int|
                    0 <= i < rest.len() && (#[trigger] rest[i]).location == location;
                assert(table[i + 1].location == location);
            },
            None => {},
        }
    }
}

/// The epilogue divides nothing.
pub proof fn lemma_epilogue_extended(frame: globals)
    ensures
        divisions_extended(epilogue(frame)),
{
}

/// Storing an assigned value advances the state.
pub proof fn lemma_store_assigned_advances(name: Seq<char>, s: GenState)
    ensures
        store_assigned(name, s) matches Ok(after) ==> advances(s, after),
{
    if s.frame.can_allocate() {
        let slot = s.frame.next_slot() as i64;
        let s1 = s.allocate().bind(variable_binding(name, slot));
        if s.frame.wf() {
            lemma_allocation_descends(s.frame);
        }
        lemma_emit_advances(
            s1,
            InstrView::Move { src: accumulator(), dst: Location::Frame(slot) },
        );
    }
}

/// Lowering a statement advances the state.
pub proof fn lemma_lower_statement_advances(stmt: Stmt, s: GenState)
    ensures
        lower_statement(stmt, s) matches Ok(after) ==> advances(s, after),
{
    match stmt.kind {
        StmtKind::Assign => match stmt.expr {
            Some(e) => {
                lemma_lower_advances(e, s);
                match lower(e, s) {
                    Err(_) => {},
                    Ok((s1, _)) => {
                        lemma_store_assigned_advances(stmt.name@, s1);
                    },
                }
            },
            None => {
                lemma_store_assigned_advances(stmt.name@, s);
            },
        },
        StmtKind::Return => match stmt.expr {
            Some(e) => {
                if e.kind == ExprKind::Constant {
                    let load = InstrView::LoadImmediate { value: e.value, dst: accumulator() };
                    lemma_emit_advances(s, load);
                    lemma_epilogue_extended(s.frame);
                    lemma_emit_all_advances(s.emit(load), epilogue(s.frame));
                } else {
                    lemma_lower_advances(e, s);
                    match lower(e, s) {
                        Err(_) => {},
                        Ok((s1, _)) => {
                            lemma_epilogue_extended(s1.frame);
                            lemma_emit_all_advances(s1, epilogue(s1.frame));
                        },
                    }
                }
            },
            None => {
                lemma_epilogue_extended(s.frame);
                lemma_emit_all_advances(s, epilogue(s.frame));
            },
        },
        StmtKind::Empty => {},
    }
}

/// Lowering a run of statements advances the state.
pub proof fn lemma_lower_statements_advances(statements: Seq<Stmt>, count: int, s: GenState)
    ensures
        lower_statements(statements, count, s) matches Ok(after) ==> advances(s, after),
    decreases count,
{
    if 0 < count <= statements.len() {
        lemma_lower_statements_advances(statements, count - 1, s);
        match lower_statements(statements, count - 1, s) {
            Err(_) => {},
            Ok(s1) => {
                lemma_lower_statement_advances(statements[count - 1], s1);
            },
        }
    }
}

/// Lowering a function body advances the state.
pub proof fn lemma_lower_body_advances(statements: Seq<Stmt>, s: GenState)
    ensures
        lower_body(statements, s) matches Ok(after) ==> advances(s, after),
{
    lemma_emit_all_advances(s, reservation(statements));
    lemma_lower_statements_advances(
        statements,
        statements.len() as int,
        s.emit_all(reservation(statements)),
    );
}

/// Divide lowering: an operator is divided by exactly three instructions, the
/// dividend loaded into the accumulator, the accumulator sign-extended, and
/// the one-operand division by the divisor.
pub proof fn lemma_divide_lowering(left: Location, right: Location)
    ensures
        operator_code(OpCode::Divide, left, right) == seq![
            InstrView::Move { src: left, dst: accumulator() },
            InstrView::SignExtend,
            InstrView::Divide { src: right },
        ],
{
}

/// Divide lowering, for whole programs: in the code of every program that is
/// generated, each division comes directly after a sign extension.
pub proof fn lemma_program_divisions_extended(worklist: Seq<Decl>, count: int)
    ensures
        lower_program(worklist, count) matches Ok(out) ==> divisions_extended(out.code),
    decreases count,
{
    if 0 < count <= worklist.len() {
        lemma_program_divisions_extended(worklist, count - 1);
        match lower_program(worklist, count - 1) {
            Err(_) => {},
            Ok(out) => {
                let decl = worklist[count - 1];
                if decl.kind == DeclKind::Function {
                    lemma_divisions_concat(out.code, prologue(decl.name@));
                    lemma_lower_body_advances(decl.statements@, function_entry(decl, out));
                }
            },
        }
    }
}

/// The frame cursor of a function pass starts at 0, is well formed at every
/// step, and never rises: lowering any expression from a well-formed frame
/// leaves a well-formed frame whose cursor is no higher.
pub proof fn lemma_lowering_moves_cursor_down(e: Expr, s: GenState)
    requires
        s.frame.wf(),
    ensures
        lower(e, s) matches Ok((after, _)) ==> after.frame.wf() && after.frame.last_used_offset
            <= s.frame.last_used_offset,
{
    lemma_lower_advances(e, s);
}

/// Frame monotonicity, across a pass: a slot handed out in a later state lies
/// strictly below the slot that was handed out last in an earlier state, and
/// is a multiple of 8 like it.
pub proof fn lemma_later_slot_is_lower(before: GenState, after: GenState)
    requires
        before.frame.wf(),
        before.frame.last_offset_used != 0,
        advances(before, after),
        after.frame.can_allocate(),
    ensures
        after.frame.allocated().last_offset_used < before.frame.last_offset_used,
        after.frame.allocated().last_offset_used % 8 == 0,
        before.frame.last_offset_used % 8 == 0,
{
    lemma_allocation_descends(after.frame);
}

/// The state in which a function body is lowered is sound: the frame is
/// untouched and every formal argument lives in a register or above the frame
/// base.
pub proof fn lemma_function_entry_sound(decl: Decl, out: OutputView)
    requires
        incoming_fits(decl.arguments.len() as int),
    ensures
        sound(function_entry(decl, out)),
{
    let names = names_of(decl.arguments@);
    let table = function_entry(decl, out).table;
    if names.len() > 0 {
        lemma_bound_arguments(names, Seq::empty(), 0);
    }
    assert forall|i: int| 0 <= i < table.len() implies within_frame(
        (#[trigger] table[i]).location,
        function_entry(decl, out).frame,
    ) by {
        lemma_bound_arguments(names, Seq::empty(), names.len() - 1 - i);
    }
}

/// Every state of a function pass is sound: from the entry of the function
/// to the end of its body the frame stays well formed, and the table never
/// binds a name to a slot the cursor has not passed.
pub proof fn lemma_function_pass_sound(decl: Decl, out: OutputView, count: int)
    requires
        incoming_fits(decl.arguments.len() as int),
    ensures
        lower_statements(
            decl.statements@,
            count,
            function_entry(decl, out).emit_all(reservation(decl.statements@)),
        ) matches Ok(after) ==> sound(after) && after.frame.last_used_offset <= 0,
{
    let entry = function_entry(decl, out);
    lemma_function_entry_sound(decl, out);
    lemma_emit_all_advances(entry, reservation(decl.statements@));
    lemma_lower_statements_advances(
        decl.statements@,
        count,
        entry.emit_all(reservation(decl.statements@)),
    );
}

} // verus!
