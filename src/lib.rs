//! An interpreter and a C emitter for the eight-symbol tape language
//! (`<`, `>`, `+`, `-`, `,`, `.`, `[`, `]`), with every step of the
//! shared semantics stated as a contract.
//!
//! - `program`: the alphabet, the bracket validator and the jump resolvers.
//! - `cell`: the four cell widths, their wrapping arithmetic and printing.
//! - `tape`: the cells and the cursor on them.
//! - `interpreter`: the execution engine, one instruction per step.
//! - `converter`: run-length collapsing and the emitted C program.
//! - `config`: cell width and end-of-input policy.
pub mod cell;
pub mod config;
pub mod converter;
pub mod error;
pub mod interpreter;
pub mod program;
pub mod tape;
mod text;

pub use cell::{encode_code_point, surrogate_pair_to_unicode, Cell};
pub use config::{CellSize, EofBehavior, Specifications};
pub use converter::{collapse, convert, render, Command, C_PRELUDE};
pub use error::Error;
pub use interpreter::{Action, Runner};
pub use program::{check_brackets, find_paired_left_bracket, find_paired_right_bracket, minimize};
pub use tape::Tape;
