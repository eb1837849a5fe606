use vstd::prelude::*;
use crate::ast::{Block, Expr, Program, Stmt};
use crate::intrinsics::{intrinsic_of, lookup_intrinsic, Intrinsic};

verus! {

broadcast use vstd::std_specs::vec::group_vec_axioms;

/// What a backend asks of a program before it emits it: does it touch linear memory
/// through the memory intrinsics, or call one of the I/O intrinsics.
#[derive(Clone, Copy)]
pub enum Usage {
    Memory,
    FdWrite,
    FdRead,
    PathOpen,
    FdClose,
}

/// Whether a call of the callee named `n` counts as usage `u`.
pub open spec fn callee_counts(n: Seq<char>, u: Usage) -> bool {
    match (intrinsic_of(n), u) {
        (Some(Intrinsic::MemLoad), Usage::Memory) => true,
        (Some(Intrinsic::MemLoad8), Usage::Memory) => true,
        (Some(Intrinsic::MemStore), Usage::Memory) => true,
        (Some(Intrinsic::MemStore8), Usage::Memory) => true,
        (Some(Intrinsic::FdWrite), Usage::FdWrite) => true,
        (Some(Intrinsic::FdRead), Usage::FdRead) => true,
        (Some(Intrinsic::PathOpen), Usage::PathOpen) => true,
        (Some(Intrinsic::FdClose), Usage::FdClose) => true,
        _ => false,
    }
}

pub open spec fn expr_uses(e: Expr, u: Usage) -> bool
    decreases e, 0nat,
{
    match e {
        Expr::Call { callee, args } => callee_counts(callee@, u) || args_use(args@, 0, u),
        Expr::Binary { op, left, right } => expr_uses(*left, u) || expr_uses(*right, u),
        Expr::Unary { op, expr } => expr_uses(*expr, u),
        Expr::FieldAccess { expr, field } => expr_uses(*expr, u),
        Expr::StructInit { name, fields } => inits_use(fields@, 0, u),
        _ => false,
    }
}

pub open spec fn args_use(args: Seq<Expr>, k: int, u: Usage) -> bool
    decreases args, args.len() - k,
{
    if k < 0 || k >= args.len() {
        false
    } else {
        expr_uses(args[k], u) || args_use(args, k + 1, u)
    }
}

pub open spec fn inits_use(fields: Seq<(String, Expr)>, k: int, u: Usage) -> bool
    decreases fields, fields.len() - k,
{
    if k < 0 || k >= fields.len() {
        false
    } else {
        expr_uses(fields[k].1, u) || inits_use(fields, k + 1, u)
    }
}

pub open spec fn stmt_uses(s: Stmt, u: Usage) -> bool
    decreases s, 0nat,
{
    match s {
        Stmt::Let { name, ty, expr } => expr_uses(expr, u),
        Stmt::Assign { name, expr } => expr_uses(expr, u),
        Stmt::FieldAssign { base, field, expr } => expr_uses(expr, u),
        Stmt::If { cond, then_block, else_block } => expr_uses(cond, u) || block_uses(then_block, 0, u)
            || match else_block {
            Some(eb) => block_uses(eb, 0, u),
            None => false,
        },
        Stmt::While { cond, body } => expr_uses(cond, u) || block_uses(body, 0, u),
        Stmt::Return(e) => expr_uses(e, u),
        Stmt::Expr(e) => expr_uses(e, u),
    }
}

pub open spec fn block_uses(b: Block, k: int, u: Usage) -> bool
    decreases b, b.statements@.len() - k,
{
    if k < 0 || k >= b.statements@.len() {
        false
    } else {
        stmt_uses(b.statements@[k], u) || block_uses(b, k + 1, u)
    }
}

/// Some function of the program makes a call that counts as usage `u`.
pub open spec fn program_uses(p: Program, u: Usage) -> bool {
    exists|i: int| 0 <= i < p.functions@.len() && #[trigger] block_uses(p.functions@[i].body, 0, u)
}

fn callee_counts_exec(callee: &String, u: Usage) -> (r: bool)
    ensures
        r == callee_counts(callee@, u),
{
    match (lookup_intrinsic(callee), u) {
        (Some(Intrinsic::MemLoad), Usage::Memory) => true,
        (Some(Intrinsic::MemLoad8), Usage::Memory) => true,
        (Some(Intrinsic::MemStore), Usage::Memory) => true,
        (Some(Intrinsic::MemStore8), Usage::Memory) => true,
        (Some(Intrinsic::FdWrite), Usage::FdWrite) => true,
        (Some(Intrinsic::FdRead), Usage::FdRead) => true,
        (Some(Intrinsic::PathOpen), Usage::PathOpen) => true,
        (Some(Intrinsic::FdClose), Usage::FdClose) => true,
        _ => false,
    }
}

#[verifier::loop_isolation(false)]
fn expr_uses_exec(e: &Expr, u: Usage) -> (r: bool)
    ensures
        r == expr_uses(*e, u),
    decreases e,
{
    match e {
        Expr::Call { callee, args } => {
            if callee_counts_exec(callee, u) {
                return true;
            }
            let mut i: usize = 0;
            while i < args.len()
                invariant
                    i <= args@.len(),
                    args_use(args@, 0, u) == args_use(args@, i as int, u),
                decreases args@.len() - i,
            {
                if expr_uses_exec(&args[i], u) {
                    return true;
                }
                i = i + 1;
            }
            false
        },
        Expr::Binary { left, right, .. } => expr_uses_exec(left, u) || expr_uses_exec(right, u),
        Expr::Unary { expr, .. } => expr_uses_exec(expr, u),
        Expr::FieldAccess { expr, .. } => expr_uses_exec(expr, u),
        Expr::StructInit { fields, .. } => {
            let mut i: usize = 0;
            while i < fields.len()
                invariant
                    i <= fields@.len(),
                    inits_use(fields@, 0, u) == inits_use(fields@, i as int, u),
                decreases fields@.len() - i,
            {
                if expr_uses_exec(&fields[i].1, u) {
                    return true;
                }
                i = i + 1;
            }
            false
        },
        _ => false,
    }
}

fn stmt_uses_exec(s: &Stmt, u: Usage) -> (r: bool)
    ensures
        r == stmt_uses(*s, u),
    decreases s,
{
    match s {
        Stmt::Let { expr, .. } => expr_uses_exec(expr, u),
        Stmt::Assign { expr, .. } => expr_uses_exec(expr, u),
        Stmt::FieldAssign { expr, .. } => expr_uses_exec(expr, u),
        Stmt::If { cond, then_block, else_block } => {
            expr_uses_exec(cond, u) || block_uses_exec(then_block, u) || match else_block {
                Some(eb) => block_uses_exec(eb, u),
                None => false,
            }
        },
        Stmt::While { cond, body } => expr_uses_exec(cond, u) || block_uses_exec(body, u),
        Stmt::Return(e) => expr_uses_exec(e, u),
        Stmt::Expr(e) => expr_uses_exec(e, u),
    }
}

#[verifier::loop_isolation(false)]
fn block_uses_exec(b: &Block, u: Usage) -> (r: bool)
    ensures
        r == block_uses(*b, 0, u),
    decreases b,
{
    let mut i: usize = 0;
    while i < b.statements.len()
        invariant
            i <= b.statements@.len(),
            block_uses(*b, 0, u) == block_uses(*b, i as int, u),
        decreases b.statements@.len() - i,
    {
        if stmt_uses_exec(&b.statements[i], u) {
            return true;
        }
        i = i + 1;
    }
    false
}

/// Whether some function of the program makes a call that counts as usage `u`.
pub fn program_uses_exec(p: &Program, u: Usage) -> (r: bool)
    ensures
        r == program_uses(*p, u),
{
    let mut i: usize = 0;
    while i < p.functions.len()
        invariant
            i <= p.functions@.len(),
            forall|j: int| 0 <= j < i ==> !(#[trigger] block_uses(p.functions@[j].body, 0, u)),
        decreases p.functions@.len() - i,
    {
        if block_uses_exec(&p.functions[i].body, u) {
            return true;
        }
        i = i + 1;
    }
    false
}

} // verus!
