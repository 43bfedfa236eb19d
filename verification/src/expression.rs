//! The expression generator: lowers an expression tree to instructions that
//! leave its value in a known location.
//!
//! Lowering says where it left a value instead of leaving that to a shared
//! "last slot": the slot of a constant, the accumulator for everything else.
//! An operator reads its operands from those locations as they are. Nothing
//! protects the accumulator or an argument register while a later operand or
//! argument is lowered, and no register is saved around a call: which values
//! survive is for a register-saving convention to decide, and none is
//! imposed here.
use vstd::prelude::*;
use crate::ast::Expr;
use crate::ast::ExprKind;
use crate::ast::OpCode;
use crate::emitter::outgoing;
use crate::emitter::push_arg_on_stack;
use crate::emitter::pushed_slots;
use crate::frame::globals;
use crate::frame::long_to_char_offset;
use crate::invariants::advances;
use crate::invariants::lemma_lower_advances;
use crate::invariants::lemma_lower_constant_advances;
use crate::machine::accumulator;
use crate::machine::CodegenError;
use crate::machine::Combine;
use crate::machine::Diagnostic;
use crate::machine::ErrorView;
use crate::machine::Instr;
use crate::machine::InstrView;
use crate::machine::Location;
use crate::machine::Output;
use crate::machine::Register;
use crate::machine::REGISTER_ARGUMENTS;
use crate::state::GenState;
use crate::state::Lowered;
use crate::state::state_of;
use crate::storage::Binding;
use crate::storage::INVAL;
use crate::storage::lemma_lookup_finds_front;
use crate::storage::lookup;
use crate::storage::varStList;

verus! {

/// The binding that caches the constant `value` in the frame slot at `slot`.
pub open spec fn constant_binding(value: i64, slot: i64) -> Binding {
    Binding { name: Seq::empty(), is_const: true, value, location: Location::Frame(slot) }
}

/// Lowering of a constant: a fresh frame slot, the literal stored into it,
/// and an anonymous binding that caches the value at that slot.
pub open spec fn lower_constant(value: i64, s: GenState) -> Lowered {
    if s.frame.can_allocate() {
        let slot = s.frame.next_slot() as i64;
        Ok(
            (
                s.allocate().bind(constant_binding(value, slot)).emit(
                    InstrView::LoadImmediate { value, dst: Location::Frame(slot) },
                ),
                Location::Frame(slot),
            ),
        )
    } else {
        Err(ErrorView::FrameExhausted)
    }
}

/// The value under which the storage table is searched for a node: its
/// literal for a constant, so that a cached literal is found again, and
/// [`INVAL`] for every other node.
pub open spec fn search_value(e: Expr) -> i64 {
    if e.kind == ExprKind::Constant {
        e.value
    } else {
        INVAL
    }
}

/// The instructions of an operator whose operands are found at `left` and
/// `right`; the result is left in the accumulator. Calls and operators
/// without a lowering have none.
pub open spec fn operator_code(op: OpCode, left: Location, right: Location) -> Seq<InstrView> {
    let load = InstrView::Move { src: left, dst: accumulator() };
    let count = InstrView::Move { src: right, dst: Location::Register(Register::Rcx) };
    match op {
        OpCode::Add => seq![load, InstrView::Apply { op: Combine::Add, src: right }],
        OpCode::Subtract => seq![load, InstrView::Apply { op: Combine::Subtract, src: right }],
        OpCode::Multiply => seq![load, InstrView::Apply { op: Combine::Multiply, src: right }],
        OpCode::Divide => seq![load, InstrView::SignExtend, InstrView::Divide { src: right }],
        OpCode::BitOr => seq![load, InstrView::Apply { op: Combine::Or, src: right }],
        OpCode::BitAnd => seq![load, InstrView::Apply { op: Combine::And, src: right }],
        OpCode::BitXor => seq![load, InstrView::Apply { op: Combine::Xor, src: right }],
        OpCode::ShiftLeft => seq![count, InstrView::ShiftLeft],
        OpCode::ShiftRight => seq![count, InstrView::ShiftRight],
        OpCode::Negate => seq![InstrView::Negate],
        OpCode::FunctionCall => Seq::empty(),
        OpCode::Other => Seq::empty(),
    }
}

/// The instructions of a call to `callee` whose arguments are found at
/// `locations`: the arguments passed in order, the call, and the pushed
/// arguments dropped again if there were any.
pub open spec fn call_code(callee: Seq<char>, locations: Seq<Location>) -> Seq<InstrView> {
    let call = outgoing(locations).push(InstrView::Call(callee));
    if locations.len() > REGISTER_ARGUMENTS {
        call.push(InstrView::Discard { slots: pushed_slots(locations.len() as int) as u64 })
    } else {
        call
    }
}

/// Lowering of the expression `e` from the state `s`.
///
/// A variable is loaded from where the table finds it, or is unbound. A
/// constant gets a slot of its own. An operation first resolves its two
/// operands, then emits its operator on their locations; a call resolves its
/// arguments and passes them. Whatever has no lowering is reported and emits
/// nothing. The value of anything but a constant ends in the accumulator.
pub open spec fn lower(e: Expr, s: GenState) -> Lowered
    decreases e, 1int,
{
    match e.kind {
        ExprKind::Variable => match lookup(s.table, e.name@, INVAL) {
            Some(location) => Ok(
                (s.emit(InstrView::Move { src: location, dst: accumulator() }), accumulator()),
            ),
            None => Err(ErrorView::UnboundVariable(e.name@)),
        },
        ExprKind::Constant => lower_constant(e.value, s),
        ExprKind::Operation => match resolve_operand(e.left, s) {
            Err(error) => Err(error),
            Ok((s1, left)) => match resolve_operand(e.right, s1) {
                Err(error) => Err(error),
                Ok((s2, right)) => if e.op == OpCode::FunctionCall {
                    match resolve_arguments(e, e.arguments.len() as int, s2) {
                        Err(error) => Err(error),
                        Ok((s3, locations)) => Ok(
                            (s3.emit_all(call_code(e.name@, locations)), accumulator()),
                        ),
                    }
                } else if e.op == OpCode::Other {
                    Ok((s2.report(Diagnostic::UnhandledOperation), accumulator()))
                } else {
                    Ok((s2.emit_all(operator_code(e.op, left, right)), accumulator()))
                },
            },
        },
        ExprKind::Other => Ok((s.report(Diagnostic::UnsupportedExpression), accumulator())),
    }
}

/// Resolution of the node `e` to a location: where the table finds it, with
/// nothing emitted; else wherever lowering it leaves its value.
pub open spec fn resolve(e: Expr, s: GenState) -> Lowered
    decreases e, 2int,
{
    match lookup(s.table, e.name@, search_value(e)) {
        Some(location) => Ok((s, location)),
        None => lower(e, s),
    }
}

/// Resolution of an operand slot of an operation; an operand that is missing
/// stands for whatever the accumulator holds.
pub open spec fn resolve_operand(operand: Option<Box<Expr>>, s: GenState) -> Lowered
    decreases operand, 0int,
{
    match operand {
        Some(e) => resolve(*e, s),
        None => Ok((s, accumulator())),
    }
}

/// Resolution of the first `count` arguments of the call `e`, in order, to
/// their locations.
pub open spec fn resolve_arguments(e: Expr, count: int, s: GenState) -> Result<
    (GenState, Seq<Location>),
    ErrorView,
>
    decreases e, 0int, count,
{
    if 0 < count <= e.arguments.len() {
        match resolve_arguments(e, count - 1, s) {
            Err(error) => Err(error),
            Ok((s1, locations)) => match resolve(e.arguments[count - 1], s1) {
                Err(error) => Err(error),
                Ok((s2, location)) => Ok((s2, locations.push(location))),
            },
        }
    } else {
        Ok((s, Seq::empty()))
    }
}

/// An argument that cannot be resolved stops the resolution of every longer
/// run of arguments with the same error.
proof fn lemma_argument_error_persists(e: Expr, failed: int, count: int, s: GenState)
    requires
        0 < failed <= count <= e.arguments.len(),
        resolve_arguments(e, failed, s) is Err,
    ensures
        resolve_arguments(e, count, s) == resolve_arguments(e, failed, s),
    decreases count - failed,
{
    if failed < count {
        lemma_argument_error_persists(e, failed, count - 1, s);
    }
}

/// Lowers the constant held by `op_node`: allocates a frame slot, caches the
/// value there under an anonymous binding, and stores the literal.
///
/// Fails, changing nothing, when the frame cursor cannot step.
pub fn process_constant(
    out: &mut Output,
    op_node: &Expr,
    glb: &mut globals,
    var_list: &mut varStList,
) -> (res: Result<Location, CodegenError>)
    ensures
        match res {
            Ok(location) => lower_constant(
                op_node.value,
                state_of(*old(out), *old(glb), *old(var_list)),
            ) == Lowered::Ok((state_of(*final(out), *final(glb), *final(var_list)), location)),
            Err(error) => {
                &&& lower_constant(op_node.value, state_of(*old(out), *old(glb), *old(var_list)))
                    == Lowered::Err(error@)
                &&& state_of(*final(out), *final(glb), *final(var_list)) == state_of(
                    *old(out),
                    *old(glb),
                    *old(var_list),
                )
            },
        },
        advances(
            state_of(*old(out), *old(glb), *old(var_list)),
            state_of(*final(out), *final(glb), *final(var_list)),
        ),
{
    proof {
        lemma_lower_constant_advances(
            op_node.value,
            state_of(*old(out), *old(glb), *old(var_list)),
        );
    }
    let slot = match long_to_char_offset(glb) {
        Ok(slot) => slot,
        Err(error) => {
            return Err(error);
        },
    };
    var_list.add_var_info(String::new(), slot, op_node.value, true);
    out.emit(Instr::LoadImmediate { value: op_node.value, dst: slot });
    Ok(slot)
}

/// Emits the instructions of an operator that is no call.
fn emit_operator(out: &mut Output, op: OpCode, left: Location, right: Location)
    ensures
        final(out)@.code == old(out)@.code + operator_code(op, left, right),
        final(out)@.diagnostics == old(out)@.diagnostics,
{
    let acc = Location::Register(Register::Rax);
    match op {
        OpCode::Add => {
            out.emit(Instr::Move { src: left, dst: acc });
            out.emit(Instr::Apply { op: Combine::Add, src: right });
        },
        OpCode::Subtract => {
            out.emit(Instr::Move { src: left, dst: acc });
            out.emit(Instr::Apply { op: Combine::Subtract, src: right });
        },
        OpCode::Multiply => {
            out.emit(Instr::Move { src: left, dst: acc });
            out.emit(Instr::Apply { op: Combine::Multiply, src: right });
        },
        OpCode::Divide => {
            out.emit(Instr::Move { src: left, dst: acc });
            out.emit(Instr::SignExtend);
            out.emit(Instr::Divide { src: right });
        },
        OpCode::BitOr => {
            out.emit(Instr::Move { src: left, dst: acc });
            out.emit(Instr::Apply { op: Combine::Or, src: right });
        },
        OpCode::BitAnd => {
            out.emit(Instr::Move { src: left, dst: acc });
            out.emit(Instr::Apply { op: Combine::And, src: right });
        },
        OpCode::BitXor => {
            out.emit(Instr::Move { src: left, dst: acc });
            out.emit(Instr::Apply { op: Combine::Xor, src: right });
        },
        OpCode::ShiftLeft => {
            out.emit(Instr::Move { src: right, dst: Location::Register(Register::Rcx) });
            out.emit(Instr::ShiftLeft);
        },
        OpCode::ShiftRight => {
            out.emit(Instr::Move { src: right, dst: Location::Register(Register::Rcx) });
            out.emit(Instr::ShiftRight);
        },
        OpCode::Negate => {
            out.emit(Instr::Negate);
        },
        OpCode::FunctionCall => {},
        OpCode::Other => {},
    }
    assert(out@.code =~= old(out)@.code + operator_code(op, left, right));
}

/// Lowers `expression_node`, appending its instructions to `out`, and returns
/// where its value is left: the slot of a constant, the accumulator for
/// everything else.
///
/// Fails with `UnboundVariable` at the first variable, in evaluation order,
/// that the table does not find, and with `FrameExhausted` where a slot is
/// needed and the cursor cannot step. Whatever the outcome, the state only
/// advances: nothing emitted or reported before is lost, the cursor does not
/// rise, and a sound state stays sound.
#[verifier::loop_isolation(false)]
pub fn process_expression(
    out: &mut Output,
    expression_node: &Expr,
    glb: &mut globals,
    var_list: &mut varStList,
) -> (res: Result<Location, CodegenError>)
    ensures
        match res {
            Ok(location) => lower(
                *expression_node,
                state_of(*old(out), *old(glb), *old(var_list)),
            ) == Lowered::Ok((state_of(*final(out), *final(glb), *final(var_list)), location)),
            Err(error) => lower(*expression_node, state_of(*old(out), *old(glb), *old(var_list)))
                == Lowered::Err(error@),
        },
        advances(
            state_of(*old(out), *old(glb), *old(var_list)),
            state_of(*final(out), *final(glb), *final(var_list)),
        ),
    decreases expression_node, 1int,
{
    let ghost start = state_of(*out, *glb, *var_list);
    proof {
        lemma_lower_advances(*expression_node, start);
    }
    let acc = Location::Register(Register::Rax);
    match expression_node.kind {
        ExprKind::Variable => {
            match var_list.lookup_var_info(expression_node.name.clone(), INVAL) {
                Some(location) => {
                    out.emit(Instr::Move { src: location, dst: acc });
                    Ok(acc)
                },
                None => Err(CodegenError::UnboundVariable(expression_node.name.clone())),
            }
        },
        ExprKind::Constant => {
            process_constant(out, expression_node, glb, var_list)
        },
        ExprKind::Operation => {
            let left = match resolve_operand_at(out, &expression_node.left, glb, var_list) {
                Ok(location) => location,
                Err(error) => {
                    return Err(error);
                },
            };
            let right = match resolve_operand_at(out, &expression_node.right, glb, var_list) {
                Ok(location) => location,
                Err(error) => {
                    return Err(error);
                },
            };
            let ghost resolved = state_of(*out, *glb, *var_list);
            match expression_node.op {
                OpCode::FunctionCall => {
                    let count = expression_node.arguments.len();
                    let mut locations: Vec<Location> = Vec::new();
                    let mut i: usize = 0;
                    while i < count
                        invariant
                            0 <= i <= count,
                            count == expression_node.arguments.len(),
                            locations@.len() == i,
                            resolve_arguments(*expression_node, i as int, resolved) == Ok::<
                                (GenState, Seq<Location>),
                                ErrorView,
                            >((state_of(*out, *glb, *var_list), locations@)),
                            advances(start, state_of(*out, *glb, *var_list)),
                        decreases count - i,
                    {
                        match resolve_at(out, &expression_node.arguments[i], glb, var_list) {
                            Ok(location) => {
                                locations.push(location);
                            },
                            Err(error) => {
                                proof {
                                    lemma_argument_error_persists(
                                        *expression_node,
                                        i + 1,
                                        count as int,
                                        resolved,
                                    );
                                }
                                return Err(error);
                            },
                        }
                        i += 1;
                    }
                    let ghost passed = state_of(*out, *glb, *var_list);
                    push_arg_on_stack(out, &locations);
                    out.emit(Instr::Call(expression_node.name.clone()));
                    if count > REGISTER_ARGUMENTS {
                        out.emit(Instr::Discard { slots: (count - REGISTER_ARGUMENTS) as u64 });
                    }
                    assert(out@.code =~= passed.out.code + call_code(
                        expression_node.name@,
                        locations@,
                    ));
                },
                OpCode::Other => {
                    out.report(Diagnostic::UnhandledOperation);
                },
                _ => {
                    emit_operator(out, expression_node.op, left, right);
                },
            }
            Ok(acc)
        },
        ExprKind::Other => {
            out.report(Diagnostic::UnsupportedExpression);
            Ok(acc)
        },
    }
}

/// Resolves one node to a location: through the table if it finds the node,
/// else by lowering it.
fn resolve_at(
    out: &mut Output,
    node: &Expr,
    glb: &mut globals,
    var_list: &mut varStList,
) -> (res: Result<Location, CodegenError>)
    ensures
        match res {
            Ok(location) => resolve(*node, state_of(*old(out), *old(glb), *old(var_list)))
                == Lowered::Ok((state_of(*final(out), *final(glb), *final(var_list)), location)),
            Err(error) => resolve(*node, state_of(*old(out), *old(glb), *old(var_list)))
                == Lowered::Err(error@),
        },
        advances(
            state_of(*old(out), *old(glb), *old(var_list)),
            state_of(*final(out), *final(glb), *final(var_list)),
        ),
    decreases node, 2int,
{
    let value = match node.kind {
        ExprKind::Constant => node.value,
        _ => INVAL,
    };
    match var_list.lookup_var_info(node.name.clone(), value) {
        Some(location) => Ok(location),
        None => process_expression(out, node, glb, var_list),
    }
}

/// Resolves an operand slot of an operation.
fn resolve_operand_at(
    out: &mut Output,
    operand: &Option<Box<Expr>>,
    glb: &mut globals,
    var_list: &mut varStList,
) -> (res: Result<Location, CodegenError>)
    ensures
        match res {
            Ok(location) => resolve_operand(
                *operand,
                state_of(*old(out), *old(glb), *old(var_list)),
            ) == Lowered::Ok((state_of(*final(out), *final(glb), *final(var_list)), location)),
            Err(error) => resolve_operand(*operand, state_of(*old(out), *old(glb), *old(var_list)))
                == Lowered::Err(error@),
        },
        advances(
            state_of(*old(out), *old(glb), *old(var_list)),
            state_of(*final(out), *final(glb), *final(var_list)),
        ),
    decreases operand, 0int,
{
    match operand {
        Some(node) => resolve_at(out, node, glb, var_list),
        None => Ok(Location::Register(Register::Rax)),
    }
}

/// Idempotent constant caching: once a literal was resolved, a second
/// reference to the same literal resolves to the same location, and neither
/// allocates a slot nor emits or binds anything.
pub proof fn lemma_constant_resolves_once(first: Expr, second: Expr, s: GenState)
    requires
        first.kind == ExprKind::Constant,
        second.kind == ExprKind::Constant,
        first.value == second.value,
        first.name@ == second.name@,
    ensures
        resolve(first, s) matches Ok((cached, location)) ==> resolve(second, cached) == Lowered::Ok(
            (cached, location),
        ),
{
    if lookup(s.table, first.name@, first.value) is None && s.frame.can_allocate() {
        let slot = s.frame.next_slot() as i64;
        lemma_lookup_finds_front(
            s.table,
            constant_binding(first.value, slot),
            second.name@,
            second.value,
        );
    }
}

/// A cached literal stays cached: bindings put in front of the table later
/// that do not answer for it leave its lookup as it was.
pub proof fn lemma_cached_constant_survives(
    table: Seq<Binding>,
    front: Seq<Binding>,
    name: Seq<char>,
    value: i64,
)
    requires
        forall|i: int| 0 <= i < front.len() ==> !(#[trigger] front[i]).answers(name, value),
    ensures
        lookup(front + table, name, value) == lookup(table, name, value),
    decreases front.len(),
{
    if front.len() == 0 {
        assert(front + table =~= table);
    } else {
        assert((front + table).drop_first() =~= front.drop_first() + table);
        assert((front + table)[0] == front[0]);
        assert forall|i: int| 0 <= i < front.drop_first().len() implies !(
        #[trigger] front.drop_first()[i]).answers(name, value) by {
            assert(front.drop_first()[i] == front[i + 1]);
        }
        lemma_cached_constant_survives(table, front.drop_first(), name, value);
    }
}

} // verus!
