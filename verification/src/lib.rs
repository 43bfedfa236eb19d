//! Backend of a small expression-and-statement compiler: lowers parsed
//! function declarations to x86-64 assembly for a register/stack calling
//! convention.
//!
//! Generation is a pure function of the syntax tree. [`Codegen`] returns the
//! emitted instructions as values; [`machine::Output::text`] gives their
//! assembly text. What is emitted is stated over a mathematical model of the
//! generator's state ([`state::GenState`]), and what holds of every state is
//! proved in [`invariants`].
#![allow(non_camel_case_types)]
#![allow(non_snake_case)]

pub mod ast;
pub mod driver;
pub mod emitter;
pub mod expression;
pub mod frame;
pub mod invariants;
pub mod machine;
pub mod registers;
pub mod state;
pub mod statement;
pub mod storage;
pub mod text;

pub use crate::driver::Codegen;
pub use crate::emitter::init_asm;
pub use crate::emitter::pop_arg_from_stack;
pub use crate::emitter::push_arg_on_stack;
pub use crate::emitter::ret_asm;
pub use crate::emitter::save_val_rax;
pub use crate::expression::process_constant;
pub use crate::expression::process_expression;
pub use crate::frame::globals;
pub use crate::frame::long_to_char_offset;
pub use crate::registers::create_reg_list;
pub use crate::registers::regInfo;
pub use crate::registers::regList;
pub use crate::statement::process_statements;
pub use crate::storage::varStList;
pub use crate::storage::varStoreInfo;
pub use crate::storage::INVAL;
