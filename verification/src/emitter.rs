//! The function emitter: prologue and epilogue, and the marshalling of
//! arguments on both sides of the calling convention.
use vstd::prelude::*;
use crate::frame::globals;
use crate::frame::long_to_char_offset;
use crate::machine::argument_register;
use crate::machine::argument_register_at;
use crate::machine::CodegenError;
use crate::machine::ErrorView;
use crate::machine::Instr;
use crate::machine::InstrView;
use crate::machine::Location;
use crate::machine::Output;
use crate::machine::Register;
use crate::machine::REGISTER_ARGUMENTS;
use crate::registers::available;
use crate::registers::lemma_claim_is_available;
use crate::registers::next_available;
use crate::registers::regInfo;
use crate::registers::regList;
use crate::registers::well_formed;
use crate::registers::with_availability;
use crate::state::GenState;
use crate::state::state_of;
use crate::storage::Binding;
use crate::storage::INVAL;
use crate::storage::lemma_lookup_finds_front;
use crate::storage::lookup;
use crate::storage::updated;
use crate::storage::varStList;

verus! {

/// What opens a function: the symbol's export, its label, and the frame set
/// up above the caller's.
pub open spec fn prologue(name: Seq<char>) -> Seq<InstrView> {
    seq![
        InstrView::Global(name),
        InstrView::Label(name),
        InstrView::SaveFrameBase,
        InstrView::SetFrameBase,
    ]
}

/// What closes a function: one bulk deallocation if the cursor went beyond
/// its first step, then the caller's frame base back and the return.
pub open spec fn epilogue(frame: globals) -> Seq<InstrView> {
    if frame.slots_to_release() > 0 {
        seq![
            InstrView::Release { slots: frame.slots_to_release() as u64 },
            InstrView::RestoreFrameBase,
            InstrView::Return,
        ]
    } else {
        seq![InstrView::RestoreFrameBase, InstrView::Return]
    }
}

/// Emits the prologue of the function `funcName`.
pub fn init_asm(out: &mut Output, funcName: String)
    ensures
        final(out)@.code == old(out)@.code + prologue(funcName@),
        final(out)@.diagnostics == old(out)@.diagnostics,
{
    out.emit(Instr::Global(funcName.clone()));
    out.emit(Instr::Label(funcName));
    out.emit(Instr::SaveFrameBase);
    out.emit(Instr::SetFrameBase);
    assert(out@.code =~= old(out)@.code + prologue(funcName@));
}

/// Emits the epilogue for the frame as it stands.
pub fn ret_asm(out: &mut Output, glb: &globals)
    ensures
        final(out)@.code == old(out)@.code + epilogue(*glb),
        final(out)@.diagnostics == old(out)@.diagnostics,
{
    if glb.last_used_offset < -8 {
        let bytes: i64 = -(glb.last_used_offset + 8);
        let slots: i64 = bytes / 8;
        if slots > 0 {
            out.emit(Instr::Release { slots: slots as u64 });
        }
    }
    out.emit(Instr::RestoreFrameBase);
    out.emit(Instr::Return);
    assert(out@.code =~= old(out)@.code + epilogue(*glb));
}

/// The instruction that passes the argument at `index`, found at `location`:
/// a move into the argument register of that position for the first six, a
/// push for the rest.
pub open spec fn outgoing_instruction(index: int, location: Location) -> InstrView {
    if index < REGISTER_ARGUMENTS {
        InstrView::Move { src: location, dst: Location::Register(argument_register(index)) }
    } else {
        InstrView::Push { src: location }
    }
}

/// The instructions that pass the arguments found at `locations`, in order.
pub open spec fn outgoing(locations: Seq<Location>) -> Seq<InstrView> {
    Seq::new(locations.len(), |i: int| outgoing_instruction(i, locations[i]))
}

/// Number of 8-byte slots a call with `count` arguments leaves on the stack.
pub open spec fn pushed_slots(count: int) -> int {
    if count > REGISTER_ARGUMENTS {
        count - REGISTER_ARGUMENTS
    } else {
        0
    }
}

/// Passes the materialized arguments of a call, in order: the first six into
/// their registers, the rest onto the stack.
pub fn push_arg_on_stack(out: &mut Output, arguments: &Vec<Location>)
    ensures
        final(out)@.code == old(out)@.code + outgoing(arguments@),
        final(out)@.diagnostics == old(out)@.diagnostics,
{
    let mut argument_index: usize = 0;
    assert(out@.code =~= old(out)@.code + outgoing(arguments@.take(0)));
    while argument_index < arguments.len()
        invariant
            0 <= argument_index <= arguments.len(),
            out@.code == old(out)@.code + outgoing(arguments@.take(argument_index as int)),
            out@.diagnostics == old(out)@.diagnostics,
        decreases arguments.len() - argument_index,
    {
        let location = arguments[argument_index];
        match argument_register_at(argument_index) {
            Some(reg) => {
                out.emit(Instr::Move { src: location, dst: Location::Register(reg) });
            },
            None => {
                out.emit(Instr::Push { src: location });
            },
        }
        assert(out@.code =~= old(out)@.code + outgoing(arguments@.take(argument_index + 1)));
        argument_index += 1;
    }
    assert(arguments@.take(argument_index as int) =~= arguments@);
}

/// Where a callee finds its formal argument at `index`: in the argument
/// register of that position for the first six; the rest above the frame
/// base, one slot further up for each.
pub open spec fn incoming_location(index: int) -> Location {
    if index < REGISTER_ARGUMENTS {
        Location::Register(argument_register(index))
    } else {
        Location::Frame((8 * (index - REGISTER_ARGUMENTS + 1)) as i64)
    }
}

/// Whether the displacement of every one of `count` formal arguments fits.
pub open spec fn incoming_fits(count: int) -> bool {
    8 * (count - REGISTER_ARGUMENTS) <= i64::MAX
}

/// The binding that records the formal argument `name` at `index`.
pub open spec fn incoming_binding(name: Seq<char>, index: int) -> Binding {
    Binding { name, is_const: false, value: INVAL, location: incoming_location(index) }
}

/// The table after the formal arguments `names` were bound in declaration
/// order, each in front of those before it.
pub open spec fn bound_arguments(names: Seq<Seq<char>>, table: Seq<Binding>) -> Seq<Binding>
    decreases names.len(),
{
    if names.len() == 0 {
        table
    } else {
        bound_arguments(names.drop_last(), table).insert(
            0,
            incoming_binding(names.last(), names.len() - 1),
        )
    }
}

/// The names of a list of formal arguments.
pub open spec fn names_of(arguments: Seq<String>) -> Seq<Seq<char>> {
    arguments.map_values(|name: String| name@)
}

/// Records where each formal argument lives on entry. Nothing is moved: the
/// location holds the value already.
///
/// Fails, changing nothing, when a displacement would not fit in `i64`.
pub fn pop_arg_from_stack(arguments: &Vec<String>, var_list: &mut varStList) -> (res: Result<
    (),
    CodegenError,
>)
    ensures
        match res {
            Ok(_) => {
                &&& incoming_fits(arguments@.len() as int)
                &&& final(var_list)@ == bound_arguments(names_of(arguments@), old(var_list)@)
            },
            Err(error) => {
                &&& !incoming_fits(arguments@.len() as int)
                &&& error@ == ErrorView::FrameExhausted
                &&& final(var_list)@ == old(var_list)@
            },
        },
{
    let count = arguments.len();
    if count > REGISTER_ARGUMENTS {
        let on_stack = (count - REGISTER_ARGUMENTS) as u64;
        if on_stack > 0x0fff_ffff_ffff_ffffu64 {
            return Err(CodegenError::FrameExhausted);
        }
    }
    let ghost names = names_of(arguments@);
    let mut argument_index: usize = 0;
    assert(names.take(0) =~= Seq::<Seq<char>>::empty());
    while argument_index < count
        invariant
            0 <= argument_index <= count,
            count == arguments.len(),
            names == names_of(arguments@),
            incoming_fits(count as int),
            var_list@ == bound_arguments(names.take(argument_index as int), old(var_list)@),
        decreases count - argument_index,
    {
        let location = match argument_register_at(argument_index) {
            Some(reg) => Location::Register(reg),
            None => {
                let steps: u64 = (argument_index - REGISTER_ARGUMENTS) as u64 + 1;
                Location::Frame((steps * 8) as i64)
            },
        };
        assert(location == incoming_location(argument_index as int));
        proof {
            let upto = names.take(argument_index + 1);
            assert(upto.drop_last() =~= names.take(argument_index as int));
            assert(upto.last() == arguments@[argument_index as int]@);
        }
        var_list.add_var_info(arguments[argument_index].clone(), location, INVAL, false);
        argument_index += 1;
    }
    assert(names.take(argument_index as int) =~= names);
    Ok(())
}

/// The pieces [`save_val_rax`] leaves, when the frame has room: the value of
/// the accumulator parked in the register a claim yields, or in a fresh frame
/// slot if it yields none, with `name` bound there and the accumulator
/// released.
pub open spec fn saved(name: Seq<char>, s: GenState, registers: Seq<regInfo>) -> (
    GenState,
    Seq<regInfo>,
) {
    match next_available(registers, true) {
        Some(reg) => {
            let home = Location::Register(reg);
            let s1 = s.emit(InstrView::Move { src: Location::Register(Register::Rax), dst: home });
            (
                s1.with_table(updated(s.table, name, home, INVAL, false)),
                with_availability(with_availability(registers, reg, false), Register::Rax, true),
            )
        },
        None => {
            let home = Location::Frame(s.frame.next_slot() as i64);
            let s1 = s.allocate().emit(
                InstrView::Move { src: Location::Register(Register::Rax), dst: home },
            );
            (
                s1.with_table(updated(s.table, name, home, INVAL, false)),
                with_availability(registers, Register::Rax, true),
            )
        },
    }
}

/// Parks the value of the accumulator under `name`: in a claimed register
/// other than the accumulator if one is available, else in a fresh frame
/// slot, and releases the accumulator.
///
/// Fails, changing nothing, when no register is available and the frame
/// cursor cannot step.
pub fn save_val_rax(
    out: &mut Output,
    name: String,
    glb: &mut globals,
    var_list: &mut varStList,
    reg_list: &mut regList,
) -> (res: Result<(), CodegenError>)
    ensures
        well_formed(old(reg_list)@) ==> well_formed(final(reg_list)@),
        final(reg_list)@.len() == old(reg_list)@.len(),
        forall|i: int|
            0 <= i < old(reg_list)@.len() ==> (#[trigger] final(reg_list)@[i]).name == old(
                reg_list,
            )@[i].name,
        match res {
            Ok(_) => {
                &&& next_available(old(reg_list)@, true) is None ==> old(glb).can_allocate()
                &&& next_available(old(reg_list)@, true) matches Some(reg) ==> available(
                    old(reg_list)@,
                    reg,
                ) && reg != Register::Rax && !available(final(reg_list)@, reg)
                &&& (state_of(*final(out), *final(glb), *final(var_list)), final(reg_list)@)
                    == saved(
                    name@,
                    state_of(*old(out), *old(glb), *old(var_list)),
                    old(reg_list)@,
                )
            },
            Err(error) => {
                &&& next_available(old(reg_list)@, true) is None
                &&& !old(glb).can_allocate()
                &&& error@ == ErrorView::FrameExhausted
                &&& state_of(*final(out), *final(glb), *final(var_list)) == state_of(
                    *old(out),
                    *old(glb),
                    *old(var_list),
                )
                &&& final(reg_list)@ == old(reg_list)@
            },
        },
{
    let temp_reg = reg_list.get_next_avail_reg(true);
    proof {
        lemma_claim_is_available(reg_list@, true);
    }
    match temp_reg {
        None => {
            let home = match long_to_char_offset(glb) {
                Ok(slot) => slot,
                Err(error) => {
                    return Err(error);
                },
            };
            out.emit(Instr::Move { src: Location::Register(Register::Rax), dst: home });
            var_list.update_var_info(name, home, INVAL, false);
            reg_list.update_reg_info(Register::Rax, true);
        },
        Some(reg) => {
            let home = Location::Register(reg);
            out.emit(Instr::Move { src: Location::Register(Register::Rax), dst: home });
            reg_list.update_reg_info(reg, false);
            var_list.update_var_info(name, home, INVAL, false);
            reg_list.update_reg_info(Register::Rax, true);
        },
    }
    Ok(())
}

/// Number of pushes among the first `upto` instructions of `code`.
pub open spec fn pushes_among(code: Seq<InstrView>, upto: int) -> int
    decreases upto,
{
    if 0 < upto <= code.len() {
        pushes_among(code, upto - 1) + if code[upto - 1] is Push {
            1int
        } else {
            0int
        }
    } else {
        0
    }
}

/// Passing arguments pushes none of the first six and each one after them.
pub proof fn lemma_outgoing_pushes(locations: Seq<Location>, upto: int)
    requires
        0 <= upto <= locations.len(),
    ensures
        pushes_among(outgoing(locations), upto) == pushed_slots(upto),
    decreases upto,
{
    if upto > 0 {
        lemma_outgoing_pushes(locations, upto - 1);
    }
}

/// Argument marshalling round trip: for a call with as many arguments as the
/// callee has formals, argument `index` is put where the callee looks for its
/// formal `index`. For the first six that is the same register. A later one
/// is pushed, and the callee binds it as many bytes above its frame base as
/// the caller's pushes had taken the stack down once that argument was
/// pushed.
pub proof fn lemma_marshalling_round_trip(
    names: Seq<Seq<char>>,
    locations: Seq<Location>,
    table: Seq<Binding>,
    index: int,
)
    requires
        names.len() == locations.len(),
        0 <= index < names.len(),
        incoming_fits(names.len() as int),
    ensures
        bound_arguments(names, table).len() == table.len() + names.len(),
        bound_arguments(names, table)[names.len() - 1 - index] == incoming_binding(
            names[index],
            index,
        ),
        index < REGISTER_ARGUMENTS ==> outgoing(locations)[index] == (InstrView::Move {
            src: locations[index],
            dst: incoming_location(index),
        }),
        index >= REGISTER_ARGUMENTS ==> outgoing(locations)[index] == (InstrView::Push {
            src: locations[index],
        }) && incoming_location(index) == Location::Frame(
            (8 * pushes_among(outgoing(locations), index + 1)) as i64,
        ),
{
    lemma_bound_arguments(names, table, index);
    lemma_outgoing_pushes(locations, index + 1);
}

/// Binding formals puts one binding per formal in front of the table, the
/// last formal first, and leaves the rest of the table as it was.
pub proof fn lemma_bound_arguments(names: Seq<Seq<char>>, table: Seq<Binding>, index: int)
    requires
        0 <= index < names.len(),
    ensures
        bound_arguments(names, table).len() == table.len() + names.len(),
        bound_arguments(names, table)[names.len() - 1 - index] == incoming_binding(
            names[index],
            index,
        ),
        forall|k: int|
            0 <= k < table.len() ==> (#[trigger] bound_arguments(names, table)[names.len() + k])
                == table[k],
    decreases names.len(),
{
    let rest = names.drop_last();
    let below = bound_arguments(rest, table);
    if rest.len() > 0 {
        lemma_bound_arguments(rest, table, if index < rest.len() { index } else { 0 });
    } else {
        assert(below == table);
    }
    assert forall|k: int| 0 <= k < table.len() implies (#[trigger] bound_arguments(
        names,
        table,
    )[names.len() + k]) == table[k] by {
        assert(bound_arguments(names, table)[names.len() + k] == below[rest.len() + k]);
    }
}

/// A callee finds each of its formals where the convention put it, provided
/// no two formals share a name.
pub proof fn lemma_formal_is_found(names: Seq<Seq<char>>, table: Seq<Binding>, index: int)
    requires
        0 <= index < names.len(),
        forall|i: int, j: int| 0 <= i < j < names.len() ==> names[i] != names[j],
    ensures
        lookup(bound_arguments(names, table), names[index], INVAL) == Some(
            incoming_location(index),
        ),
    decreases names.len(),
{
    let rest = names.drop_last();
    let front = incoming_binding(names.last(), names.len() - 1);
    lemma_lookup_finds_front(
        bound_arguments(rest, table),
        front,
        names[index],
        INVAL,
    );
    if index < names.len() - 1 {
        lemma_formal_is_found(rest, table, index);
    }
}

} // verus!
