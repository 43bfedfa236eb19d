//! The state one generation pass threads through its steps, as a single
//! mathematical value: the sink, the frame cursor and the storage table.
use vstd::prelude::*;
use crate::frame::globals;
use crate::machine::Diagnostic;
use crate::machine::ErrorView;
use crate::machine::InstrView;
use crate::machine::Location;
use crate::machine::Output;
use crate::machine::OutputView;
use crate::storage::Binding;
use crate::storage::varStList;

verus! {

/// Everything a step of the generator reads and changes.
pub struct GenState {
    pub out: OutputView,
    pub frame: globals,
    pub table: Seq<Binding>,
}

/// What a lowering step yields: the state it leaves and the location of the
/// value it materialized, or the error that stopped it.
pub type Lowered = Result<(GenState, Location), ErrorView>;

impl GenState {
    /// The state after one more instruction.
    pub open spec fn emit(self, instr: InstrView) -> GenState {
        GenState { out: self.out.emit(instr), frame: self.frame, table: self.table }
    }

    /// The state after a run of instructions.
    pub open spec fn emit_all(self, instrs: Seq<InstrView>) -> GenState {
        GenState {
            out: OutputView { code: self.out.code + instrs, diagnostics: self.out.diagnostics },
            frame: self.frame,
            table: self.table,
        }
    }

    /// The state after one more diagnostic.
    pub open spec fn report(self, diagnostic: Diagnostic) -> GenState {
        GenState { out: self.out.report(diagnostic), frame: self.frame, table: self.table }
    }

    /// The state after one allocation of a frame slot.
    pub open spec fn allocate(self) -> GenState {
        GenState { out: self.out, frame: self.frame.allocated(), table: self.table }
    }

    /// The state with a new binding in front of the table.
    pub open spec fn bind(self, binding: Binding) -> GenState {
        GenState { out: self.out, frame: self.frame, table: self.table.insert(0, binding) }
    }

    /// The state with another table.
    pub open spec fn with_table(self, table: Seq<Binding>) -> GenState {
        GenState { out: self.out, frame: self.frame, table }
    }
}

/// The state held in the three pieces the generator passes around.
pub open spec fn state_of(out: Output, glb: globals, var_list: varStList) -> GenState {
    GenState { out: out@, frame: glb, table: var_list@ }
}

} // verus!
