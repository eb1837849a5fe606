//! A compiler for the Mee language: a lexer and a recursive-descent parser produce
//! the syntax tree, a type checker enforces the typing rules, and three printers
//! lower a checked program to WebAssembly text, x86-64 assembly, or an
//! S-expression IR.
use vstd::prelude::*;

pub mod ast;
pub mod text;
pub mod intrinsics;
pub mod lexer;
pub mod parser;
pub mod typecheck;
pub mod strings;
pub mod usage;
pub mod layout;
pub mod wat;
pub mod x86;
pub mod ir;

pub use ast::{BinOp, Block, Expr, Function, Param, Program, Stmt, StructDecl, Type, UnOp};
pub use ir::emit_ir;
pub use layout::CodegenError;
pub use lexer::{Lexer, Token, TokenKind};
pub use parser::{ParseError, Parser};
pub use typecheck::{typecheck_program, TypeError};
pub use wat::emit_wat;
pub use x86::emit_x86_64_asm;

verus! {

} // verus!
