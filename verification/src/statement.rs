//! The statement generator: reserves stack for the local variables of a
//! function body, then lowers its statements in order.
//!
//! Every assignment takes a new frame slot, also when its target has one
//! already, so a name assigned to repeatedly grows the frame each time and
//! its earlier slots stay allocated until the epilogue. Whether an
//! assignment should rather reuse the slot of its target is an open
//! question; the reservation counts each name once either way.
use vstd::prelude::*;
use crate::ast::ExprKind;
use crate::ast::Stmt;
use crate::ast::StmtKind;
use crate::emitter::epilogue;
use crate::emitter::ret_asm;
use crate::expression::lower;
use crate::expression::process_expression;
use crate::frame::globals;
use crate::frame::long_to_char_offset;
use crate::invariants::advances;
use crate::invariants::lemma_lower_body_advances;
use crate::invariants::lemma_lower_statement_advances;
use crate::invariants::lemma_store_assigned_advances;
use crate::machine::accumulator;
use crate::machine::CodegenError;
use crate::machine::ErrorView;
use crate::machine::Instr;
use crate::machine::InstrView;
use crate::machine::Location;
use crate::machine::Output;
use crate::machine::OutputView;
use crate::machine::Register;
use crate::state::GenState;
use crate::state::state_of;
use crate::storage::Binding;
use crate::storage::INVAL;
use crate::storage::varStList;

verus! {

/// The distinct names assigned to in `statements`, in the order in which each
/// is assigned first.
pub open spec fn assigned_names(statements: Seq<Stmt>) -> Seq<Seq<char>>
    decreases statements.len(),
{
    if statements.len() == 0 {
        Seq::empty()
    } else {
        let before = assigned_names(statements.drop_last());
        let last = statements.last();
        if last.kind == StmtKind::Assign && !before.contains(last.name@) {
            before.push(last.name@)
        } else {
            before
        }
    }
}

/// The single upfront reservation for a body: one slot for each distinct
/// assigned name, and nothing where there is none.
pub open spec fn reservation(statements: Seq<Stmt>) -> Seq<InstrView> {
    if assigned_names(statements).len() > 0 {
        seq![InstrView::Reserve { slots: assigned_names(statements).len() as u64 }]
    } else {
        Seq::empty()
    }
}

/// The binding of the variable `name` to the frame slot at `slot`.
pub open spec fn variable_binding(name: Seq<char>, slot: i64) -> Binding {
    Binding { name, is_const: false, value: INVAL, location: Location::Frame(slot) }
}

/// An assignment after its right-hand side was lowered: a new slot for the
/// target, a binding of the target to it in front of the table, and the
/// accumulator stored there.
pub open spec fn store_assigned(name: Seq<char>, s: GenState) -> Result<GenState, ErrorView> {
    if s.frame.can_allocate() {
        let slot = s.frame.next_slot() as i64;
        Ok(
            s.allocate().bind(variable_binding(name, slot)).emit(
                InstrView::Move { src: accumulator(), dst: Location::Frame(slot) },
            ),
        )
    } else {
        Err(ErrorView::FrameExhausted)
    }
}

/// Lowering of one statement from the state `s`.
///
/// An assignment lowers its right-hand side, if it has one, and stores the
/// accumulator in a new slot bound to the target. A return loads a literal
/// directly, or lowers any other expression, and closes the function with the
/// epilogue. An empty statement emits nothing.
pub open spec fn lower_statement(stmt: Stmt, s: GenState) -> Result<GenState, ErrorView> {
    match stmt.kind {
        StmtKind::Assign => match stmt.expr {
            Some(e) => match lower(e, s) {
                Err(error) => Err(error),
                Ok((s1, _)) => store_assigned(stmt.name@, s1),
            },
            None => store_assigned(stmt.name@, s),
        },
        StmtKind::Return => match stmt.expr {
            Some(e) => if e.kind == ExprKind::Constant {
                let s1 = s.emit(InstrView::LoadImmediate { value: e.value, dst: accumulator() });
                Ok(s1.emit_all(epilogue(s1.frame)))
            } else {
                match lower(e, s) {
                    Err(error) => Err(error),
                    Ok((s1, _)) => Ok(s1.emit_all(epilogue(s1.frame))),
                }
            },
            None => Ok(s.emit_all(epilogue(s.frame))),
        },
        StmtKind::Empty => Ok(s),
    }
}

/// Lowering of the first `count` statements of `statements`, in order.
pub open spec fn lower_statements(statements: Seq<Stmt>, count: int, s: GenState) -> Result<
    GenState,
    ErrorView,
>
    decreases count,
{
    if 0 < count <= statements.len() {
        match lower_statements(statements, count - 1, s) {
            Err(error) => Err(error),
            Ok(s1) => lower_statement(statements[count - 1], s1),
        }
    } else {
        Ok(s)
    }
}

/// Lowering of a function body: the reservation, then every statement.
pub open spec fn lower_body(statements: Seq<Stmt>, s: GenState) -> Result<GenState, ErrorView> {
    lower_statements(statements, statements.len() as int, s.emit_all(reservation(statements)))
}

/// A statement that cannot be lowered stops the lowering of every longer run
/// of statements with the same error.
proof fn lemma_statement_error_persists(
    statements: Seq<Stmt>,
    failed: int,
    count: int,
    s: GenState,
)
    requires
        0 < failed <= count <= statements.len(),
        lower_statements(statements, failed, s) is Err,
    ensures
        lower_statements(statements, count, s) == lower_statements(statements, failed, s),
    decreases count - failed,
{
    if failed < count {
        lemma_statement_error_persists(statements, failed, count - 1, s);
    }
}

/// The views of a list of names.
pub open spec fn name_views(names: Seq<String>) -> Seq<Seq<char>> {
    names.map_values(|name: String| name@)
}

fn contains_name(names: &Vec<String>, name: &String) -> (found: bool)
    ensures
        found == name_views(names@).contains(name@),
{
    let mut i: usize = 0;
    while i < names.len()
        invariant
            0 <= i <= names.len(),
            forall|k: int| 0 <= k < i ==> (#[trigger] name_views(names@)[k]) != name@,
        decreases names.len() - i,
    {
        if names[i] == *name {
            assert(name_views(names@)[i as int] == name@);
            return true;
        }
        i += 1;
    }
    false
}

/// Collects the distinct names assigned to in `statements`, first
/// occurrence first.
fn scan_assigned(statements: &Vec<Stmt>) -> (names: Vec<String>)
    ensures
        name_views(names@) == assigned_names(statements@),
{
    let mut local_vars: Vec<String> = Vec::new();
    let mut i: usize = 0;
    assert(statements@.take(0) =~= Seq::<Stmt>::empty());
    assert(name_views(local_vars@) =~= Seq::<Seq<char>>::empty());
    while i < statements.len()
        invariant
            0 <= i <= statements.len(),
            name_views(local_vars@) == assigned_names(statements@.take(i as int)),
        decreases statements.len() - i,
    {
        let node = &statements[i];
        proof {
            let upto = statements@.take(i + 1);
            assert(upto.drop_last() =~= statements@.take(i as int));
            assert(upto.last() == *node);
        }
        match node.kind {
            StmtKind::Assign => {
                if !contains_name(&local_vars, &node.name) {
                    let ghost before = name_views(local_vars@);
                    local_vars.push(node.name.clone());
                    assert(name_views(local_vars@) =~= before.push(node.name@));
                }
            },
            _ => {},
        }
        i += 1;
    }
    assert(statements@.take(i as int) =~= statements@);
    local_vars
}

/// Allocates the slot of an assigned variable, binds the variable to it and
/// stores the accumulator there.
fn store_variable(
    out: &mut Output,
    name: String,
    glb: &mut globals,
    var_list: &mut varStList,
) -> (res: Result<(), CodegenError>)
    ensures
        match res {
            Ok(_) => store_assigned(name@, state_of(*old(out), *old(glb), *old(var_list))) == Ok::<
                GenState,
                ErrorView,
            >(state_of(*final(out), *final(glb), *final(var_list))),
            Err(error) => {
                &&& store_assigned(name@, state_of(*old(out), *old(glb), *old(var_list))) == Err::<
                    GenState,
                    ErrorView,
                >(error@)
                &&& state_of(*final(out), *final(glb), *final(var_list)) == state_of(
                    *old(out),
                    *old(glb),
                    *old(var_list),
                )
            },
        },
        advances(
            state_of(*old(out), *old(glb), *old(var_list)),
            state_of(*final(out), *final(glb), *final(var_list)),
        ),
{
    proof {
        lemma_store_assigned_advances(name@, state_of(*old(out), *old(glb), *old(var_list)));
    }
    let slot = match long_to_char_offset(glb) {
        Ok(slot) => slot,
        Err(error) => {
            return Err(error);
        },
    };
    var_list.add_var_info(name, slot, INVAL, false);
    out.emit(Instr::Move { src: Location::Register(Register::Rax), dst: slot });
    Ok(())
}

/// Lowers one statement.
fn process_statement(
    out: &mut Output,
    node: &Stmt,
    glb: &mut globals,
    var_list: &mut varStList,
) -> (res: Result<(), CodegenError>)
    ensures
        match res {
            Ok(_) => lower_statement(*node, state_of(*old(out), *old(glb), *old(var_list))) == Ok::<
                GenState,
                ErrorView,
            >(state_of(*final(out), *final(glb), *final(var_list))),
            Err(error) => lower_statement(*node, state_of(*old(out), *old(glb), *old(var_list)))
                == Err::<GenState, ErrorView>(error@),
        },
        advances(
            state_of(*old(out), *old(glb), *old(var_list)),
            state_of(*final(out), *final(glb), *final(var_list)),
        ),
{
    proof {
        lemma_lower_statement_advances(*node, state_of(*old(out), *old(glb), *old(var_list)));
    }
    match node.kind {
        StmtKind::Assign => {
            match &node.expr {
                Some(right) => {
                    match process_expression(out, right, glb, var_list) {
                        Ok(_) => {},
                        Err(error) => {
                            return Err(error);
                        },
                    }
                },
                None => {},
            }
            store_variable(out, node.name.clone(), glb, var_list)
        },
        StmtKind::Return => {
            match &node.expr {
                Some(value) => {
                    match value.kind {
                        ExprKind::Constant => {
                            out.emit(
                                Instr::LoadImmediate {
                                    value: value.value,
                                    dst: Location::Register(Register::Rax),
                                },
                            );
                        },
                        _ => {
                            match process_expression(out, value, glb, var_list) {
                                Ok(_) => {},
                                Err(error) => {
                                    return Err(error);
                                },
                            }
                        },
                    }
                },
                None => {},
            }
            let ghost before = out@;
            ret_asm(out, glb);
            assert(out@ == (OutputView {
                code: before.code + epilogue(*glb),
                diagnostics: before.diagnostics,
            }));
            Ok(())
        },
        StmtKind::Empty => Ok(()),
    }
}

/// Lowers a function body: emits one reservation of 8 bytes for each distinct
/// assigned name, then lowers the statements in order.
///
/// Fails with the error of the first statement that cannot be lowered.
/// Whatever the outcome, the state only advances: nothing emitted or reported
/// before is lost, the cursor does not rise, and a sound state stays sound.
pub fn process_statements(
    out: &mut Output,
    statements: &Vec<Stmt>,
    glb: &mut globals,
    var_list: &mut varStList,
) -> (res: Result<(), CodegenError>)
    ensures
        match res {
            Ok(_) => lower_body(statements@, state_of(*old(out), *old(glb), *old(var_list)))
                == Ok::<GenState, ErrorView>(
                state_of(*final(out), *final(glb), *final(var_list)),
            ),
            Err(error) => lower_body(statements@, state_of(*old(out), *old(glb), *old(var_list)))
                == Err::<GenState, ErrorView>(error@),
        },
        advances(
            state_of(*old(out), *old(glb), *old(var_list)),
            state_of(*final(out), *final(glb), *final(var_list)),
        ),
{
    proof {
        lemma_lower_body_advances(statements@, state_of(*old(out), *old(glb), *old(var_list)));
    }
    let local_vars = scan_assigned(statements);
    if local_vars.len() > 0 {
        out.emit(Instr::Reserve { slots: local_vars.len() as u64 });
    }
    assert(out@.code =~= old(out)@.code + reservation(statements@));
    let ghost reserved = state_of(*out, *glb, *var_list);
    let mut i: usize = 0;
    while i < statements.len()
        invariant
            0 <= i <= statements.len(),
            reserved == state_of(*old(out), *old(glb), *old(var_list)).emit_all(
                reservation(statements@),
            ),
            lower_statements(statements@, i as int, reserved) == Ok::<GenState, ErrorView>(
                state_of(*out, *glb, *var_list),
            ),
            advances(
                state_of(*old(out), *old(glb), *old(var_list)),
                state_of(*out, *glb, *var_list),
            ),
        decreases statements.len() - i,
    {
        match process_statement(out, &statements[i], glb, var_list) {
            Ok(_) => {},
            Err(error) => {
                proof {
                    lemma_statement_error_persists(
                        statements@,
                        i + 1,
                        statements.len() as int,
                        reserved,
                    );
                }
                return Err(error);
            },
        }
        i += 1;
    }
    Ok(())
}

} // verus!
