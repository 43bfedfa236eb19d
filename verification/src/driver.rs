//! The driver: one pass of the function emitter and the statement generator
//! for each function declaration, all into one sink.
use vstd::prelude::*;
use crate::ast::Decl;
use crate::ast::DeclKind;
use crate::emitter::bound_arguments;
use crate::emitter::incoming_fits;
use crate::emitter::init_asm;
use crate::emitter::names_of;
use crate::emitter::pop_arg_from_stack;
use crate::emitter::prologue;
use crate::frame::globals;
use crate::invariants::divisions_extended;
use crate::invariants::lemma_program_divisions_extended;
use crate::machine::CodegenError;
use crate::machine::ErrorView;
use crate::machine::Output;
use crate::machine::OutputView;
use crate::state::GenState;
use crate::state::state_of;
use crate::statement::lower_body;
use crate::statement::process_statements;
use crate::storage::varStList;

verus! {

/// The state in which the body of `decl` is lowered: the prologue emitted
/// after what `out` holds, a frame with nothing allocated, and a table that
/// holds the formal arguments only.
pub open spec fn function_entry(decl: Decl, out: OutputView) -> GenState {
    GenState {
        out: OutputView { code: out.code + prologue(decl.name@), diagnostics: out.diagnostics },
        frame: globals { last_used_offset: 0, last_offset_used: 0 },
        table: bound_arguments(names_of(decl.arguments@), Seq::empty()),
    }
}

/// Lowering of one function declaration after what `out` holds.
pub open spec fn lower_function(decl: Decl, out: OutputView) -> Result<OutputView, ErrorView> {
    if incoming_fits(decl.arguments.len() as int) {
        match lower_body(decl.statements@, function_entry(decl, out)) {
            Err(error) => Err(error),
            Ok(s) => Ok(s.out),
        }
    } else {
        Err(ErrorView::FrameExhausted)
    }
}

/// Lowering of the first `count` declarations of `worklist`, in order;
/// declarations that are no functions are passed over.
pub open spec fn lower_program(worklist: Seq<Decl>, count: int) -> Result<OutputView, ErrorView>
    decreases count,
{
    if 0 < count <= worklist.len() {
        match lower_program(worklist, count - 1) {
            Err(error) => Err(error),
            Ok(out) => if worklist[count - 1].kind == DeclKind::Function {
                lower_function(worklist[count - 1], out)
            } else {
                Ok(out)
            },
        }
    } else {
        Ok(OutputView { code: Seq::empty(), diagnostics: Seq::empty() })
    }
}

/// A declaration that cannot be lowered stops the lowering of every longer
/// run of declarations with the same error.
proof fn lemma_program_error_persists(worklist: Seq<Decl>, failed: int, count: int)
    requires
        0 < failed <= count <= worklist.len(),
        lower_program(worklist, failed) is Err,
    ensures
        lower_program(worklist, count) == lower_program(worklist, failed),
    decreases count - failed,
{
    if failed < count {
        lemma_program_error_persists(worklist, failed, count - 1);
    }
}

/// Generates one function: prologue, formal arguments, body. Each function
/// starts from a frame and a storage table of its own.
fn generate_function(out: &mut Output, decl: &Decl) -> (res: Result<(), CodegenError>)
    ensures
        match res {
            Ok(_) => lower_function(*decl, old(out)@) == Ok::<OutputView, ErrorView>(final(out)@),
            Err(error) => lower_function(*decl, old(out)@) == Err::<OutputView, ErrorView>(error@),
        },
{
    init_asm(out, decl.name.clone());
    let mut glb = globals::new();
    let mut var_list = varStList::new();
    match pop_arg_from_stack(&decl.arguments, &mut var_list) {
        Ok(_) => {},
        Err(error) => {
            return Err(error);
        },
    }
    assert(state_of(*out, glb, var_list) == function_entry(*decl, old(out)@));
    process_statements(out, &decl.statements, &mut glb, &mut var_list)
}

/// Generates the code of every function declaration in `worklist`, in order,
/// and returns the sink: the instructions of all functions one after the
/// other, and what was reported along the way.
///
/// Fails with the error of the first function that cannot be lowered.
pub fn Codegen(worklist: &Vec<Decl>) -> (res: Result<Output, CodegenError>)
    ensures
        match res {
            Ok(out) => {
                &&& lower_program(worklist@, worklist@.len() as int) == Ok::<
                    OutputView,
                    ErrorView,
                >(out@)
                &&& divisions_extended(out@.code)
            },
            Err(error) => lower_program(worklist@, worklist@.len() as int) == Err::<
                OutputView,
                ErrorView,
            >(error@),
        },
{
    proof {
        lemma_program_divisions_extended(worklist@, worklist@.len() as int);
    }
    let mut out = Output::new();
    let mut i: usize = 0;
    assert(out@ == (OutputView { code: Seq::empty(), diagnostics: Seq::empty() }));
    while i < worklist.len()
        invariant
            0 <= i <= worklist.len(),
            lower_program(worklist@, i as int) == Ok::<OutputView, ErrorView>(out@),
        decreases worklist.len() - i,
    {
        let node = &worklist[i];
        match node.kind {
            DeclKind::Function => {
                match generate_function(&mut out, node) {
                    Ok(_) => {},
                    Err(error) => {
                        proof {
                            lemma_program_error_persists(worklist@, i + 1, worklist.len() as int);
                        }
                        return Err(error);
                    },
                }
            },
            DeclKind::Other => {},
        }
        i += 1;
    }
    Ok(out)
}

} // verus!
