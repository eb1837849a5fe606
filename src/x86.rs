use vstd::prelude::*;
use crate::ast::{is_scalar_type, BinOp, Block, Expr, Function, Param, Program, Stmt, Type};
use crate::intrinsics::{arity_of, intrinsic_of, lookup_intrinsic, Intrinsic};
use crate::layout::{
    call_pad, frame_size, codegen_error, codegen_error_on, field_local_name, find_init, find_init_index, flatten_call_args,
    field_slot_name, flat_args_from, lemma_call_alignment, lemma_slot_of_v, lnames, lookup_slot, needs_pad, slot_of, slot_of_v, struct_index,
    CodegenError, FlatArg,
};
use crate::strings::{collect_strings_from_program, start_of, string_offsets, string_table, views};
use crate::text::{decimal, int_text, push_char, push_int, push_nat, push_str, string_from};
use crate::typecheck::{env_lookup, find_fn, find_fn_index, find_struct, lookup_var};
use crate::wat::{bind_params, block_names, block_vars, cat, collect_locals_from_block, lemma_numbered_append, numbered, param_names, param_vars, then_text};
use crate::usage::{program_uses, program_uses_exec, Usage};

verus! {

broadcast use vstd::std_specs::vec::group_vec_axioms;

/// How deep expressions may nest before lowering gives up.
pub const MAX_PUSHED: u64 = 1000000;

/// How many locals or fields a function may have before lowering gives up.
pub const MAX_SLOTS: usize = 1000000;

/// A register-passed argument's register, by position (System V order).
fn arg_reg(i: usize) -> (r: &'static str)
    requires
        i < 6,
    ensures
        r@ == reg_text(i as int),
{
    if i == 0 {
        "rdi"
    } else if i == 1 {
        "rsi"
    } else if i == 2 {
        "rdx"
    } else if i == 3 {
        "rcx"
    } else if i == 4 {
        "r8"
    } else {
        "r9"
    }
}

/// Writes a frame offset as an addressing-mode suffix: ` - 8`, ` + 16`, or nothing for 0.
fn fmt_offset(out: &mut String, off: i64)
    requires
        off > i64::MIN,
    ensures
        final(out)@ == old(out)@ + off_text(off as int),
{
    if off < 0 {
        push_str(out, " - ");
        push_int(out, -off);
    } else if off > 0 {
        push_str(out, " + ");
        push_int(out, off);
    }
}

/// The byte that stands for a character in linear memory: the low 8 bits of its code
/// point. Both backends store string literals one byte per character, so offsets count
/// characters and agree between the targets; characters beyond one byte are truncated.
fn byte_of(c: char) -> (r: u64)
    ensures
        r < 256,
        r == byte_val(c),
{
    (c as u32 % 256) as u64
}

/// The target of an I/O intrinsic's thunk.
pub open spec fn thunk_of(k: Intrinsic) -> Seq<char> {
    match k {
        Intrinsic::FdWrite => "__mee_fd_write"@,
        Intrinsic::FdRead => "__mee_fd_read"@,
        Intrinsic::PathOpen => "__mee_path_open"@,
        _ => "__mee_fd_close"@,
    }
}

/// What a function body is lowered against on x86-64.
struct X86Fn<'a> {
    prog: &'a Program,
    locals: Vec<(String, i64)>,
    var_types: Vec<(String, Type)>,
    string_offsets: &'a Vec<(String, i64)>,
    ret_label: String,
    sret: Option<i64>,
}

/// Where a value of a call sequence comes from.
#[derive(Clone, Copy)]
pub enum ArgSource {
    /// The address of the struct-return scratch area.
    Scratch,
    Flat(FlatArg),
}

/// A frame offset as an addressing-mode suffix.
pub open spec fn off_text(k: int) -> Seq<char> {
    if k < 0 {
        " - "@ + int_text(-k)
    } else if k > 0 {
        " + "@ + int_text(k)
    } else {
        seq![]
    }
}

/// `mov rax, <n>`.
pub open spec fn mov_rax(n: int) -> Seq<char> {
    "  mov rax, "@ + int_text(n) + "\n"@
}

/// Loads local `n` into `rax`, where it has a slot.
pub open spec fn load_text(locals: Seq<(Seq<char>, i64)>, n: Seq<char>) -> Option<Seq<char>> {
    match slot_of_v(locals, n) {
        Some(k) => if k == i64::MIN { None } else { Some("  mov rax, QWORD PTR [rbp"@ + off_text(k as int) + "]\n"@) },
        None => None,
    }
}

/// Stores `rax` into local `n`, where it has a slot.
pub open spec fn store_text(locals: Seq<(Seq<char>, i64)>, n: Seq<char>) -> Option<Seq<char>> {
    match slot_of_v(locals, n) {
        Some(k) => if k == i64::MIN { None } else { Some("  mov QWORD PTR [rbp"@ + off_text(k as int) + "], rax\n"@) },
        None => None,
    }
}

/// The register of argument `i < 6`.
pub open spec fn reg_text(i: int) -> Seq<char> {
    if i == 0 {
        "rdi"@
    } else if i == 1 {
        "rsi"@
    } else if i == 2 {
        "rdx"@
    } else if i == 3 {
        "rcx"@
    } else if i == 4 {
        "r8"@
    } else {
        "r9"@
    }
}

/// Pops the evaluated arguments into their registers, from the `q`-th of `rc` on.
pub open spec fn pops_text(q: int, rc: int) -> Seq<char>
    decreases rc - q,
{
    if q < 0 || q >= rc {
        seq![]
    } else {
        "  pop "@ + reg_text(q) + "\n"@ + pops_text(q + 1, rc)
    }
}

/// The instruction that combines the left operand in `rcx` with the right one in `rax`.
pub open spec fn x86_binop(op: BinOp) -> Seq<char> {
    match op {
        BinOp::Add => "  add rax, rcx\n  movsxd rax, eax\n"@,
        BinOp::Sub => "  sub rcx, rax\n  mov rax, rcx\n  movsxd rax, eax\n"@,
        BinOp::Mul => "  imul rax, rcx\n  movsxd rax, eax\n"@,
        BinOp::Div => "  mov r8, rax\n  mov rax, rcx\n  cqo\n  idiv r8\n  movsxd rax, eax\n"@,
        BinOp::Lt => "  cmp rcx, rax\n  setl al\n  movzx rax, al\n"@,
        BinOp::Gt => "  cmp rcx, rax\n  setg al\n  movzx rax, al\n"@,
        BinOp::LtEq => "  cmp rcx, rax\n  setle al\n  movzx rax, al\n"@,
        BinOp::GtEq => "  cmp rcx, rax\n  setge al\n  movzx rax, al\n"@,
        BinOp::Eq => "  cmp rcx, rax\n  sete al\n  movzx rax, al\n"@,
        BinOp::NotEq => "  cmp rcx, rax\n  setne al\n  movzx rax, al\n"@,
        BinOp::And => "  cmp rcx, 0\n  setne cl\n  movzx rcx, cl\n  cmp rax, 0\n  setne al\n  movzx rax, al\n  imul rax, rcx\n"@,
        BinOp::Or => "  cmp rcx, 0\n  setne cl\n  movzx rcx, cl\n  cmp rax, 0\n  setne al\n  movzx rax, al\n  add rax, rcx\n  cmp rax, 0\n  setne al\n  movzx rax, al\n"@,
    }
}

pub const MEM_LOAD_TAIL: &'static str = "  lea rcx, [rip + __mee_memory]\n  add rcx, rax\n  movsxd rax, DWORD PTR [rcx]\n";
pub const MEM_LOAD8_TAIL: &'static str = "  lea rcx, [rip + __mee_memory]\n  add rcx, rax\n  movzx rax, BYTE PTR [rcx]\n";
pub const MEM_STORE_ADDR: &'static str = "  pop rcx\n  lea rdx, [rip + __mee_memory]\n  add rdx, rcx\n";

/// The call-sequence sources of `n` scalar arguments, in order.
pub open spec fn scalar_srcs(n: nat) -> Seq<ArgSource> {
    Seq::new(n, |i: int| ArgSource::Flat(FlatArg::Scalar(i as usize)))
}

/// The call-sequence sources of a flattened argument list.
pub open spec fn flat_srcs(flat: Seq<FlatArg>) -> Seq<ArgSource> {
    flat.map_values(|a: FlatArg| ArgSource::Flat(a))
}

/// What a function body is lowered against on x86-64, as values: the program, the
/// frame slots, the variable types, the string offsets, the struct-return pointer's
/// slot and the return label.
pub struct XCtx {
    pub prog: Program,
    pub locals: Seq<(Seq<char>, i64)>,
    pub vars: Seq<(String, Type)>,
    pub offsets: Seq<(Seq<char>, i64)>,
    pub sret: Option<i64>,
    pub ret_label: Seq<char>,
}

/// The instructions that compute `e` into `rax`, with `pushed` words above the
/// aligned frame, or `None` where the lowering does not support it.
#[verifier::opaque]
pub open spec fn expr_text(c: XCtx, e: Expr, pushed: u64) -> Option<Seq<char>>
    decreases e, 0nat, 0nat,
{
    if pushed >= MAX_PUSHED {
        None
    } else {
        match e {
            Expr::Int(v) => Some(mov_rax(v as int)),
            Expr::Char(c) => Some(mov_rax(c as u32 as int)),
            Expr::Bool(b) => Some(mov_rax(if b { 1 } else { 0 })),
            Expr::StringLit(s) => Some(mov_rax(match slot_of_v(c.offsets, s@) {
                Some(o) => o as int,
                None => 0,
            })),
            Expr::Ident(n) => load_text(c.locals, n@),
            Expr::Binary { op, left, right } => cat(
                then_text(expr_text(c, *left, pushed), "  push rax\n"@),
                then_text(expr_text(c, *right, (pushed + 1) as u64), "  pop rcx\n"@ + x86_binop(op)),
            ),
            Expr::Unary { op, expr } => then_text(expr_text(c, *expr, pushed), "  cmp rax, 0\n  sete al\n  movzx rax, al\n"@),
            Expr::Call { callee, args } => call_text(c, callee, args, pushed),
            Expr::FieldAccess { expr, field } => match *expr {
                Expr::Ident(name) => match env_lookup(c.vars, name@) {
                    Some(Type::Struct(_)) => load_text(c.locals, field_slot_name(name@, field@)),
                    _ => None,
                },
                _ => None,
            },
            Expr::StructInit { .. } => None,
        }
    }
}

/// The instructions that compute one scalar of a flattened argument list.
#[verifier::opaque]
pub open spec fn flat_text(c: XCtx, args: Vec<Expr>, a: FlatArg, ps: Seq<Param>, pushed: u64) -> Option<Seq<char>>
    decreases args, 1nat, 0nat,
{
    match a {
        FlatArg::Scalar(i) => if i < args@.len() { expr_text(c, args@[i as int], pushed) } else { None },
        FlatArg::Field(i, j) => if i < args@.len() && i < ps.len() {
            match (args@[i as int], ps[i as int].ty) {
                (Expr::Ident(v), Type::Struct(sn)) => match find_struct(c.prog.structs@, c.prog.structs@.len() as int, sn@) {
                    Some(si) => if j < c.prog.structs@[si].fields@.len() {
                        load_text(c.locals, field_slot_name(v@, c.prog.structs@[si].fields@[j as int].name@))
                    } else {
                        None
                    },
                    None => None,
                },
                _ => None,
            }
        } else {
            None
        },
        FlatArg::Init(i, k) => if i < args@.len() {
            match args@[i as int] {
                Expr::StructInit { name, fields } => if k < fields@.len() { expr_text(c, fields@[k as int].1, pushed) } else { None },
                _ => None,
            }
        } else {
            None
        },
    }
}

#[verifier::opaque]
pub open spec fn source_text(c: XCtx, args: Vec<Expr>, src: ArgSource, ps: Seq<Param>, pushed: u64, scratch_at: u64) -> Option<Seq<char>>
    decreases args, 1nat, 1nat,
{
    match src {
        ArgSource::Scratch => Some("  lea rax, [rsp + "@ + decimal(scratch_at as nat) + "]\n"@),
        ArgSource::Flat(a) => flat_text(c, args, a, ps, pushed),
    }
}

/// Evaluates and pushes the sources from the `c`-th last on: source `n - 1 - c`
/// is evaluated with `depth + c` words above the frame.
#[verifier::opaque]
pub open spec fn pushes_text(c: XCtx, args: Vec<Expr>, srcs: Seq<ArgSource>, ps: Seq<Param>, base: u64, depth: u64, n: int) -> Option<Seq<char>>
    decreases args, 2nat, srcs.len() - n,
{
    if n < 0 || n >= srcs.len() {
        Some(seq![])
    } else {
        cat(
            then_text(
                source_text(c, args, srcs[srcs.len() - 1 - n], ps, (depth + n) as u64, (8 * (depth + n - base)) as u64),
                "  push rax\n"@,
            ),
            pushes_text(c, args, srcs, ps, base, depth, n + 1),
        )
    }
}

/// A call of `target` with the values of `srcs` (System V: six registers, then
/// the stack in reverse order, an 8-byte pad below the stack arguments when the
/// words above the frame would otherwise leave `rsp` misaligned at the call).
#[verifier::opaque]
pub open spec fn seq_text(c: XCtx, args: Vec<Expr>, srcs: Seq<ArgSource>, ps: Seq<Param>, target: Seq<char>, pushed: u64) -> Option<Seq<char>>
    decreases args, 3nat, 0nat,
{
    let n = srcs.len();
    if n >= MAX_PUSHED || pushed >= MAX_PUSHED {
        None
    } else {
        let rc = if n < 6 { n } else { 6 };
        let sc = n - rc;
        let pad = needs_pad(pushed as nat, sc as nat);
        let depth = if pad { pushed + 1 } else { pushed as int };
        let cleanup = 8 * (sc + if pad { 1int } else { 0int });
        cat(
            Some(if pad { "  sub rsp, 8\n"@ } else { seq![] }),
            then_text(
                pushes_text(c, args, srcs, ps, pushed, depth as u64, 0),
                pops_text(0, rc as int) + "  call "@ + target + "\n"@ + if cleanup > 0 {
                    "  add rsp, "@ + decimal(cleanup as nat) + "\n"@
                } else {
                    seq![]
                },
            ),
        )
    }
}

/// The instructions of a call in a scalar context.
#[verifier::opaque]
pub open spec fn call_text(c: XCtx, callee: String, args: Vec<Expr>, pushed: u64) -> Option<Seq<char>>
    decreases args, 4nat, 0nat,
{
    if pushed >= MAX_PUSHED {
        None
    } else {
        match intrinsic_of(callee@) {
            Some(k) => if args@.len() != arity_of(k) {
                None
            } else {
                match k {
                    Intrinsic::MemLoad => then_text(expr_text(c, args@[0], pushed), MEM_LOAD_TAIL@),
                    Intrinsic::MemLoad8 => then_text(expr_text(c, args@[0], pushed), MEM_LOAD8_TAIL@),
                    Intrinsic::MemStore => cat(
                        then_text(expr_text(c, args@[0], pushed), "  push rax\n"@),
                        then_text(expr_text(c, args@[1], (pushed + 1) as u64), MEM_STORE_ADDR@ + "  mov DWORD PTR [rdx], eax\n"@ + "  xor rax, rax\n"@),
                    ),
                    Intrinsic::MemStore8 => cat(
                        then_text(expr_text(c, args@[0], pushed), "  push rax\n"@),
                        then_text(expr_text(c, args@[1], (pushed + 1) as u64), MEM_STORE_ADDR@ + "  mov BYTE PTR [rdx], al\n"@ + "  xor rax, rax\n"@),
                    ),
                    _ => seq_text(c, args, scalar_srcs(args@.len()), seq![], thunk_of(k), pushed),
                }
            },
            None => match find_fn(c.prog.functions@, c.prog.functions@.len() as int, callee@) {
                Some(fi) => {
                    let f = c.prog.functions@[fi];
                    if f.ret is Struct {
                        None
                    } else {
                        match flat_args_from(args@, f.params@, c.prog, 0) {
                            Some(flat) => seq_text(c, args, flat_srcs(flat), f.params@, callee@, pushed),
                            None => None,
                        }
                    }
                },
                None => seq_text(c, args, scalar_srcs(args@.len()), seq![], callee@, pushed),
            },
        }
    }
}

/// Stores the initializers of a struct literal into the field slots of `dst`, in
/// declaration order, from the `j`-th field on.
#[verifier::opaque]
pub open spec fn init_text(c: XCtx, dst: Seq<char>, fields: Seq<Param>, inits: Vec<(String, Expr)>, j: int) -> Option<Seq<char>>
    decreases inits, 1nat, fields.len() - j,
{
    if j < 0 || j >= fields.len() {
        Some(seq![])
    } else {
        cat(
            match find_init(inits@, 0, fields[j].name@) {
                Some(k) => cat(expr_text(c, inits@[k].1, 0), store_text(c.locals, field_slot_name(dst, fields[j].name@))),
                None => None,
            },
            init_text(c, dst, fields, inits, j + 1),
        )
    }
}

/// Writes the initializers of a struct literal through the return pointer, in
/// declaration order, from the `j`-th field on.
#[verifier::opaque]
pub open spec fn sret_init_text(c: XCtx, sret: i64, fields: Seq<Param>, inits: Vec<(String, Expr)>, j: int) -> Option<Seq<char>>
    decreases inits, 1nat, fields.len() - j,
{
    if j < 0 || j >= fields.len() {
        Some(seq![])
    } else {
        cat(
            match find_init(inits@, 0, fields[j].name@) {
                Some(k) => then_text(expr_text(c, inits@[k].1, 0), sret_store(sret, j)),
                None => None,
            },
            sret_init_text(c, sret, fields, inits, j + 1),
        )
    }
}

/// The instructions that store `expr` into variable `name` of type `ty`.
#[verifier::opaque]
pub open spec fn assign_text(c: XCtx, name: Seq<char>, ty: Type, expr: Expr) -> Option<Seq<char>>
    decreases expr, 5nat, 0nat,
{
    match ty {
        Type::I32 | Type::Char | Type::Bool => cat(expr_text(c, expr, 0), store_text(c.locals, name)),
        Type::Struct(sname) => match find_struct(c.prog.structs@, c.prog.structs@.len() as int, sname@) {
            Some(si) => {
                let fields = c.prog.structs@[si].fields@;
                if fields.len() >= MAX_SLOTS {
                    None
                } else {
                    match expr {
                        Expr::StructInit { name: iname, fields: inits } => if iname@ != sname@ {
                            None
                        } else {
                            init_text(c, name, fields, inits, 0)
                        },
                        Expr::Ident(src) => copy_text(c.locals, name, src@, fields, 0),
                        Expr::Call { callee, args } => match find_fn(c.prog.functions@, c.prog.functions@.len() as int, callee@) {
                            Some(fi) => {
                                let f = c.prog.functions@[fi];
                                let scratch = scratch_size(fields.len() as int);
                                if !(f.ret is Struct) {
                                    None
                                } else {
                                    match flat_args_from(args@, f.params@, c.prog, 0) {
                                        Some(flat) => cat(
                                            cat(
                                                Some("  sub rsp, "@ + decimal(scratch as nat) + "\n"@),
                                                seq_text(c, args, seq![ArgSource::Scratch] + flat_srcs(flat), f.params@, callee@, (scratch / 8) as u64),
                                            ),
                                            then_text(readback_text(c.locals, name, fields, 0), "  add rsp, "@ + decimal(scratch as nat) + "\n"@),
                                        ),
                                        None => None,
                                    }
                                }
                            },
                            None => None,
                        },
                        _ => None,
                    }
                }
            },
            None => None,
        },
        _ => None,
    }
}

/// The instructions that return a struct through the return pointer.
#[verifier::opaque]
pub open spec fn sret_text(c: XCtx, sret: i64, expr: Expr) -> Option<Seq<char>>
    decreases expr, 5nat, 0nat,
{
    match expr {
        Expr::StructInit { name, fields: inits } => match find_struct(c.prog.structs@, c.prog.structs@.len() as int, name@) {
            Some(si) => if c.prog.structs@[si].fields@.len() >= MAX_SLOTS {
                None
            } else {
                sret_init_text(c, sret, c.prog.structs@[si].fields@, inits, 0)
            },
            None => None,
        },
        Expr::Ident(src) => match env_lookup(c.vars, src@) {
            Some(Type::Struct(sn)) => match find_struct(c.prog.structs@, c.prog.structs@.len() as int, sn@) {
                Some(si) => if c.prog.structs@[si].fields@.len() >= MAX_SLOTS {
                    None
                } else {
                    sret_copy_text(c.locals, sret, src@, c.prog.structs@[si].fields@, 0)
                },
                None => None,
            },
            _ => None,
        },
        _ => None,
    }
}

/// The instructions of a statement, and the next free label number after it.
pub open spec fn stmt_text(c: XCtx, s: Stmt, labels: u64) -> Option<(Seq<char>, u64)>
    decreases s, 1nat, 0nat,
{
    match s {
        Stmt::Let { name, ty, expr } => match assign_text(c, name@, ty, expr) {
            Some(t) => Some((t, labels)),
            None => None,
        },
        Stmt::Assign { name, expr } => match env_lookup(c.vars, name@) {
            Some(ty) => match assign_text(c, name@, ty, expr) {
                Some(t) => Some((t, labels)),
                None => None,
            },
            None => None,
        },
        Stmt::FieldAssign { base, field, expr } => match env_lookup(c.vars, base@) {
            Some(Type::Struct(_)) => match cat(expr_text(c, expr, 0), store_text(c.locals, field_slot_name(base@, field@))) {
                Some(t) => Some((t, labels)),
                None => None,
            },
            _ => None,
        },
        Stmt::If { cond, then_block, else_block } => if labels == u64::MAX {
            None
        } else {
            let n = decimal(labels as nat);
            match (expr_text(c, cond, 0), block_text(c, then_block, 0, (labels + 1) as u64)) {
                (Some(ct), Some((t, l1))) => {
                    let head = ct + "  cmp rax, 0\n  je .Lelse_"@ + n + "\n"@ + t + "  jmp .Lendif_"@ + n + "\n.Lelse_"@ + n + ":\n"@;
                    match else_block {
                        Some(eb) => match block_text(c, eb, 0, l1) {
                            Some((e, l2)) => Some((head + e + ".Lendif_"@ + n + ":\n"@, l2)),
                            None => None,
                        },
                        None => Some((head + ".Lendif_"@ + n + ":\n"@, l1)),
                    }
                },
                _ => None,
            }
        },
        Stmt::While { cond, body } => if labels == u64::MAX {
            None
        } else {
            let n = decimal(labels as nat);
            match (expr_text(c, cond, 0), block_text(c, body, 0, (labels + 1) as u64)) {
                (Some(ct), Some((b, l1))) => Some((
                    ".Lloop_"@ + n + ":\n"@ + ct + "  cmp rax, 0\n  je .Lexit_"@ + n + "\n"@ + b + "  jmp .Lloop_"@ + n
                        + "\n.Lexit_"@ + n + ":\n"@,
                    l1,
                )),
                _ => None,
            }
        },
        Stmt::Return(expr) => match then_text(
            match c.sret {
                Some(k) => if k == i64::MIN { None } else { sret_text(c, k, expr) },
                None => expr_text(c, expr, 0),
            },
            "  jmp "@ + c.ret_label + "\n"@,
        ) {
            Some(t) => Some((t, labels)),
            None => None,
        },
        Stmt::Expr(expr) => match expr_text(c, expr, 0) {
            Some(t) => Some((t, labels)),
            None => None,
        },
    }
}

/// The instructions of the statements of `b` from the `k`-th on.
pub open spec fn block_text(c: XCtx, b: Block, k: int, labels: u64) -> Option<(Seq<char>, u64)>
    decreases b, 0nat, b.statements@.len() - k,
{
    if k < 0 || k >= b.statements@.len() {
        Some((seq![], labels))
    } else {
        match stmt_text(c, b.statements@[k], labels) {
            Some((t, l)) => match block_text(c, b, k + 1, l) {
                Some((rest, l2)) => Some((t + rest, l2)),
                None => None,
            },
            None => None,
        }
    }
}

impl<'a> X86Fn<'a> {
    spec fn ctx(&self) -> XCtx {
        XCtx { prog: *self.prog, locals: lnames(self.locals@), vars: self.var_types@, offsets: lnames(self.string_offsets@), sret: self.sret, ret_label: self.ret_label@ }
    }







    fn slot(&self, n: &String) -> (r: Result<i64, CodegenError>)
        ensures
            match slot_of_v(lnames(self.locals@), n@) {
                Some(k) => if k == i64::MIN { r is Err } else { r == Ok::<i64, CodegenError>(k) },
                None => r is Err,
            },
    {
        proof { lemma_slot_of_v(self.locals@, n@); }
        let s = match lookup_slot(&self.locals, n) {
            Some(k) => k,
            None => {
                return Err(codegen_error_on("unknown local ", n));
            },
        };
        if s == i64::MIN {
            return Err(codegen_error("frame offset out of range"));
        }
        Ok(s)
    }

    fn var_type(&self, n: &String) -> (r: Result<Type, CodegenError>)
        ensures
            match env_lookup(self.var_types@, n@) {
                Some(t) => r matches Ok(u) && u == t,
                None => r is Err,
            },
    {
        match lookup_var(&self.var_types, n) {
            Some(t) => Ok(t),
            None => Err(codegen_error_on("unknown variable ", n)),
        }
    }

    fn load_slot(&self, n: &String, out: &mut String) -> (r: Result<(), CodegenError>)
        ensures
            match load_text(lnames(self.locals@), n@) {
                Some(t) => r is Ok && final(out)@ == old(out)@ + t,
                None => r is Err,
            },
    {
        let off = self.slot(n)?;
        push_str(out, "  mov rax, QWORD PTR [rbp");
        fmt_offset(out, off);
        push_str(out, "]\n");
        assert(out@ =~= old(out)@ + ("  mov rax, QWORD PTR [rbp"@ + off_text(off as int) + "]\n"@));
        Ok(())
    }

    fn store_slot(&self, n: &String, out: &mut String) -> (r: Result<(), CodegenError>)
        ensures
            match store_text(lnames(self.locals@), n@) {
                Some(t) => r is Ok && final(out)@ == old(out)@ + t,
                None => r is Err,
            },
    {
        let off = self.slot(n)?;
        push_str(out, "  mov QWORD PTR [rbp");
        fmt_offset(out, off);
        push_str(out, "], rax\n");
        assert(out@ =~= old(out)@ + ("  mov QWORD PTR [rbp"@ + off_text(off as int) + "], rax\n"@));
        Ok(())
    }

    #[verifier::spinoff_prover]
    #[verifier::rlimit(100)]
    fn emit_flat_arg(&self, args: &Vec<Expr>, a: FlatArg, ps: &Vec<Param>, pushed: u64, out: &mut String) -> (r: Result<(), CodegenError>)
        ensures
            match flat_text(self.ctx(), *args, a, ps@, pushed) {
                Some(t) => r is Ok && final(out)@ == old(out)@ + t,
                None => r is Err,
            },
        decreases args, 1nat, 0nat,
    {
        proof { reveal_with_fuel(flat_text, 1); }
        match a {
            FlatArg::Scalar(i) => {
                if i >= args.len() {
                    return Err(codegen_error("argument index out of range"));
                }
                self.emit_expr(&args[i], pushed, out)
            },
            FlatArg::Field(i, j) => {
                if i >= args.len() || i >= ps.len() {
                    return Err(codegen_error("argument index out of range"));
                }
                match (&args[i], &ps[i].ty) {
                    (Expr::Ident(v), Type::Struct(sn)) => {
                        let si = struct_index(self.prog, sn)?;
                        if j >= self.prog.structs[si].fields.len() {
                            return Err(codegen_error("field index out of range"));
                        }
                        self.load_slot(&field_local_name(v, &self.prog.structs[si].fields[j].name), out)
                    },
                    _ => Err(codegen_error("unsupported struct argument expression")),
                }
            },
            FlatArg::Init(i, k) => {
                if i >= args.len() {
                    return Err(codegen_error("argument index out of range"));
                }
                match &args[i] {
                    Expr::StructInit { fields, .. } => {
                        if k >= fields.len() {
                            return Err(codegen_error("field index out of range"));
                        }
                        self.emit_expr(&fields[k].1, pushed, out)
                    },
                    _ => Err(codegen_error("unsupported struct argument expression")),
                }
            },
        }
    }

    /// Evaluates a call-sequence source into `rax`.
    #[verifier::spinoff_prover]
    #[verifier::rlimit(100)]
    fn emit_source(&self, args: &Vec<Expr>, src: ArgSource, ps: &Vec<Param>, pushed: u64, scratch_at: u64, out: &mut String) -> (r: Result<(), CodegenError>)
        ensures
            match source_text(self.ctx(), *args, src, ps@, pushed, scratch_at) {
                Some(t) => r is Ok && final(out)@ == old(out)@ + t,
                None => r is Err,
            },
        decreases args, 1nat, 1nat,
    {
        proof { reveal_with_fuel(source_text, 1); }
        match src {
            ArgSource::Scratch => {
                push_str(out, "  lea rax, [rsp + ");
                push_nat(out, scratch_at);
                push_str(out, "]\n");
                assert(out@ =~= old(out)@ + ("  lea rax, [rsp + "@ + decimal(scratch_at as nat) + "]\n"@));
                Ok(())
            },
            ArgSource::Flat(a) => self.emit_flat_arg(args, a, ps, pushed, out),
        }
    }

    /// Calls `target` with the values of `srcs`, System V style: the first six in
    /// registers, the rest on the stack in reverse order, with an 8-byte pad below
    /// them when needed so that `rsp` is 16-byte aligned at the `call`. Every value
    /// is evaluated (last first) and pushed before any register is loaded, so nested
    /// calls clobber nothing. `pushed` counts the 8-byte words above the aligned
    /// frame; a struct-return scratch area lies just above those words' top.
    #[verifier::spinoff_prover]
    #[verifier::rlimit(100)]
    fn emit_call_seq(&self, args: &Vec<Expr>, srcs: &Vec<ArgSource>, ps: &Vec<Param>, target: &String, pushed: u64, out: &mut String) -> (r: Result<(), CodegenError>)
        ensures
            match seq_text(self.ctx(), *args, srcs@, ps@, target@, pushed) {
                Some(t) => r is Ok && final(out)@ == old(out)@ + t,
                None => r is Err,
            },
        decreases args, 3nat, 0nat,
    {
        proof { reveal_with_fuel(seq_text, 1); }
        let ghost o = out@;
        let n = srcs.len();
        if n as u64 >= MAX_PUSHED || pushed >= MAX_PUSHED {
            return Err(codegen_error("call too deep or too wide"));
        }
        let rc: usize = if n < 6 { n } else { 6 };
        let sc: usize = n - rc;
        let pad = call_pad(pushed, sc as u64);
        let depth: u64 = if pad { pushed + 1 } else { pushed };
        let cleanup: u64 = 8 * (sc as u64 + if pad { 1 } else { 0 });
        let ghost pad_text: Seq<char> = if pad { "  sub rsp, 8\n"@ } else { seq![] };
        let ghost tail: Seq<char> = pops_text(0, rc as int) + "  call "@ + target@ + "\n"@ + if cleanup > 0 {
            "  add rsp, "@ + decimal(cleanup as nat) + "\n"@
        } else {
            seq![]
        };
        assert(seq_text(self.ctx(), *args, srcs@, ps@, target@, pushed) == cat(
            Some(pad_text),
            then_text(pushes_text(self.ctx(), *args, srcs@, ps@, pushed, depth, 0), tail),
        ));
        if pad {
            push_str(out, "  sub rsp, 8\n");
        }
        assert(out@ =~= o + pad_text);
        let ghost p0 = out@;
        self.emit_pushes(args, srcs, ps, pushed, depth, out)?;
        let ghost p1 = out@;
        emit_pops(rc, out);
        // at the call the words above the aligned frame are those counted by `pushed`,
        // the pad and the stack arguments: an even number, so `rsp` is 16-byte aligned
        proof { lemma_call_alignment(pushed as nat, sc as nat); }
        assert((8 * (pushed + sc + if pad { 1nat } else { 0nat })) % 16 == 0);
        push_str(out, "  call ");
        push_str(out, target.as_str());
        push_str(out, "\n");
        if cleanup > 0 {
            push_str(out, "  add rsp, ");
            push_nat(out, cleanup);
            push_str(out, "\n");
        }
        assert(out@ =~= p1 + tail);
        assert(out@ =~= o + (pad_text + (p1.subrange(p0.len() as int, p1.len() as int) + tail)));
        Ok(())
    }

    /// Evaluates and pushes every source of a call sequence, the last first.
    #[verifier::spinoff_prover]
    #[verifier::rlimit(100)]
    fn emit_pushes(&self, args: &Vec<Expr>, srcs: &Vec<ArgSource>, ps: &Vec<Param>, base: u64, depth: u64, out: &mut String) -> (r: Result<(), CodegenError>)
        requires
            srcs@.len() < MAX_PUSHED,
            base <= depth <= base + 1,
            base < MAX_PUSHED,
        ensures
            match pushes_text(self.ctx(), *args, srcs@, ps@, base, depth, 0) {
                Some(t) => r is Ok && final(out)@ == old(out)@ + t,
                None => r is Err,
            },
        decreases args, 2nat, 0nat,
    {
        proof { reveal_with_fuel(pushes_text, 1); }
        let ghost o = out@;
        let n = srcs.len();
        let mut c: usize = 0;
        while c < n
            invariant
                n == srcs@.len() < MAX_PUSHED,
                base <= depth <= base + 1,
                base < MAX_PUSHED,
                c <= n,
                match pushes_text(self.ctx(), *args, srcs@, ps@, base, depth, 0) {
                    Some(t) => match pushes_text(self.ctx(), *args, srcs@, ps@, base, depth, c as int) {
                        Some(rest) => t == out@.subrange(o.len() as int, out@.len() as int) + rest
                            && o.len() <= out@.len() && out@.subrange(0, o.len() as int) == o,
                        None => false,
                    },
                    None => pushes_text(self.ctx(), *args, srcs@, ps@, base, depth, c as int) is None,
                },
            decreases n - c,
        {
            proof { reveal_with_fuel(pushes_text, 1); }
            let ghost before = out@;
            let d = depth + c as u64;
            let at = 8 * (d - base);
            assert(d == (depth + c) as u64);
            assert(at == (8 * (depth + c - base)) as u64);
            self.emit_source(args, srcs[n - 1 - c], ps, d, at, out)?;
            push_str(out, "  push rax\n");
            proof {
                if let Some(t) = pushes_text(self.ctx(), *args, srcs@, ps@, base, depth, 0) {
                    let piece = source_text(self.ctx(), *args, srcs@[n - 1 - c], ps@, d, at)->0 + "  push rax\n"@;
                    assert(out@.subrange(o.len() as int, out@.len() as int) =~= before.subrange(o.len() as int, before.len() as int) + piece);
                    assert(out@.subrange(0, o.len() as int) =~= before.subrange(0, o.len() as int));
                }
            }
            c = c + 1;
        }
        assert(out@ =~= o + out@.subrange(o.len() as int, out@.len() as int));
        Ok(())
    }

    #[verifier::spinoff_prover]
    fn emit_expr(&self, e: &Expr, pushed: u64, out: &mut String) -> (r: Result<(), CodegenError>)
        ensures
            match expr_text(self.ctx(), *e, pushed) {
                Some(t) => r is Ok && final(out)@ == old(out)@ + t,
                None => r is Err,
            },
        decreases e, 0nat, 0nat,
    {
        proof { reveal_with_fuel(expr_text, 1); }
        let ghost o = out@;
        if pushed >= MAX_PUSHED {
            return Err(codegen_error("expression too deep"));
        }
        match e {
            Expr::Int(v) => {
                push_mov_rax(out, *v as i64);
                Ok(())
            },
            Expr::Char(c) => {
                push_mov_rax(out, *c as u32 as i64);
                Ok(())
            },
            Expr::Bool(b) => {
                push_mov_rax(out, if *b { 1 } else { 0 });
                Ok(())
            },
            Expr::StringLit(s) => {
                proof { lemma_slot_of_v(self.string_offsets@, s@); }
                let off = match lookup_slot(self.string_offsets, s) {
                    Some(o) => o,
                    None => 0,
                };
                push_mov_rax(out, off);
                Ok(())
            },
            Expr::Ident(n) => self.load_slot(n, out),
            Expr::Binary { op, left, right } => {
                self.emit_expr(left, pushed, out)?;
                push_str(out, "  push rax\n");
                self.emit_expr(right, pushed + 1, out)?;
                push_str(out, "  pop rcx\n");
                emit_binop(*op, out);
                assert(out@ =~= o + ((expr_text(self.ctx(), **left, pushed)->0 + "  push rax\n"@)
                    + (expr_text(self.ctx(), **right, (pushed + 1) as u64)->0 + ("  pop rcx\n"@ + x86_binop(*op)))));
                Ok(())
            },
            Expr::Unary { expr, .. } => {
                self.emit_expr(expr, pushed, out)?;
                push_str(out, "  cmp rax, 0\n  sete al\n  movzx rax, al\n");
                Ok(())
            },
            Expr::Call { callee, args } => self.emit_call(callee, args, pushed, out),
            Expr::FieldAccess { expr, field } => match &**expr {
                Expr::Ident(name) => {
                    let ty = self.var_type(name)?;
                    if !matches!(ty, Type::Struct(_)) {
                        return Err(codegen_error_on("field access on non-struct ", name));
                    }
                    self.load_slot(&field_local_name(name, field), out)
                },
                _ => Err(codegen_error("field access only supported on identifiers")),
            },
            Expr::StructInit { .. } => Err(codegen_error("struct literal outside let, assignment, return or argument")),
        }
    }

    /// The call-sequence sources for the arguments of an intrinsic, in order.
    fn scalar_sources(n: usize) -> (r: Vec<ArgSource>)
        ensures
            r@ == scalar_srcs(n as nat),
    {
        let mut v: Vec<ArgSource> = Vec::new();
        let mut i: usize = 0;
        while i < n
            invariant
                i <= n,
                v@ =~= scalar_srcs(i as nat),
            decreases n - i,
        {
            v.push(ArgSource::Flat(FlatArg::Scalar(i)));
            assert(v@ =~= scalar_srcs((i + 1) as nat));
            i = i + 1;
        }
        v
    }

    fn flat_sources(flat: &Vec<FlatArg>) -> (r: Vec<ArgSource>)
        ensures
            r@ == flat_srcs(flat@),
    {
        let mut v: Vec<ArgSource> = Vec::new();
        let mut i: usize = 0;
        while i < flat.len()
            invariant
                i <= flat@.len(),
                v@ =~= flat_srcs(flat@.subrange(0, i as int)),
            decreases flat@.len() - i,
        {
            v.push(ArgSource::Flat(flat[i]));
            assert(flat_srcs(flat@.subrange(0, i + 1)) =~= flat_srcs(flat@.subrange(0, i as int)).push(ArgSource::Flat(flat@[i as int])));
            i = i + 1;
        }
        assert(flat@.subrange(0, flat@.len() as int) =~= flat@);
        v
    }

    #[verifier::spinoff_prover]
    #[verifier::rlimit(100)]
    fn emit_call(&self, callee: &String, args: &Vec<Expr>, pushed: u64, out: &mut String) -> (r: Result<(), CodegenError>)
        ensures
            match call_text(self.ctx(), *callee, *args, pushed) {
                Some(t) => r is Ok && final(out)@ == old(out)@ + t,
                None => r is Err,
            },
        decreases args, 4nat, 0nat,
    {
        proof { reveal_with_fuel(call_text, 1); }
        let ghost o = out@;
        if pushed >= MAX_PUSHED {
            return Err(codegen_error("expression too deep"));
        }
        let no_params: Vec<Param> = Vec::new();
        match lookup_intrinsic(callee) {
            Some(k) => {
                if args.len() != k.arity() {
                    return Err(codegen_error_on("wrong number of arguments to ", callee));
                }
                match k {
                    Intrinsic::MemLoad => {
                        self.emit_expr(&args[0], pushed, out)?;
                        push_str(out, MEM_LOAD_TAIL);
                        Ok(())
                    },
                    Intrinsic::MemLoad8 => {
                        self.emit_expr(&args[0], pushed, out)?;
                        push_str(out, MEM_LOAD8_TAIL);
                        Ok(())
                    },
                    Intrinsic::MemStore | Intrinsic::MemStore8 => {
                        self.emit_expr(&args[0], pushed, out)?;
                        push_str(out, "  push rax\n");
                        self.emit_expr(&args[1], pushed + 1, out)?;
                        push_str(out, MEM_STORE_ADDR);
                        if matches!(k, Intrinsic::MemStore) {
                            push_str(out, "  mov DWORD PTR [rdx], eax\n");
                        } else {
                            push_str(out, "  mov BYTE PTR [rdx], al\n");
                        }
                        push_str(out, "  xor rax, rax\n");
                        Ok(())
                    },
                    _ => {
                        let target = match k {
                            Intrinsic::FdWrite => string_from("__mee_fd_write"),
                            Intrinsic::FdRead => string_from("__mee_fd_read"),
                            Intrinsic::PathOpen => string_from("__mee_path_open"),
                            _ => string_from("__mee_fd_close"),
                        };
                        let srcs = Self::scalar_sources(args.len());
                        assert(no_params@ =~= Seq::<Param>::empty());
                        self.emit_call_seq(args, &srcs, &no_params, &target, pushed, out)
                    },
                }
            },
            None => {
                match find_fn_index(self.prog, callee) {
                    Some(fi) => {
                        let f = &self.prog.functions[fi];
                        if matches!(f.ret, Type::Struct(_)) {
                            return Err(codegen_error_on("struct-return call is not valid in scalar expression context: ", callee));
                        }
                        let flat = flatten_call_args(args, &f.params, self.prog)?;
                        let srcs = Self::flat_sources(&flat);
                        self.emit_call_seq(args, &srcs, &f.params, callee, pushed, out)
                    },
                    None => {
                        let srcs = Self::scalar_sources(args.len());
                        assert(no_params@ =~= Seq::<Param>::empty());
                        self.emit_call_seq(args, &srcs, &no_params, callee, pushed, out)
                    },
                }
            },
        }
    }
}

/// Pops the evaluated register arguments into their registers.
fn emit_pops(rc: usize, out: &mut String)
    requires
        rc <= 6,
    ensures
        final(out)@ == old(out)@ + pops_text(0, rc as int),
{
    let ghost p1 = out@;
    let mut q: usize = 0;
    while q < rc
        invariant
            rc <= 6,
            q <= rc,
            out@.len() >= p1.len(),
            out@.subrange(0, p1.len() as int) == p1,
            pops_text(0, rc as int) == out@.subrange(p1.len() as int, out@.len() as int) + pops_text(q as int, rc as int),
        decreases rc - q,
    {
        let ghost before = out@;
        push_str(out, "  pop ");
        push_str(out, arg_reg(q));
        push_str(out, "\n");
        assert(out@.subrange(p1.len() as int, out@.len() as int) =~= before.subrange(p1.len() as int, before.len() as int) + ("  pop "@ + reg_text(q as int) + "\n"@));
        assert(out@.subrange(0, p1.len() as int) =~= before.subrange(0, p1.len() as int));
        q = q + 1;
    }
    assert(out@ =~= p1 + out@.subrange(p1.len() as int, out@.len() as int));
}

fn push_mov_rax(out: &mut String, n: i64)
    ensures
        final(out)@ == old(out)@ + mov_rax(n as int),
{
    push_str(out, "  mov rax, ");
    push_int(out, n);
    push_str(out, "\n");
    assert(out@ =~= old(out)@ + mov_rax(n as int));
}

fn emit_binop(op: BinOp, out: &mut String)
    ensures
        final(out)@ == old(out)@ + x86_binop(op),
{
    // the left operand is in rcx, the right one in rax; arithmetic wraps to 32 bits,
    // as the `i32` operations of WebAssembly do
    match op {
        BinOp::Add => push_str(out, "  add rax, rcx\n  movsxd rax, eax\n"),
        BinOp::Sub => push_str(out, "  sub rcx, rax\n  mov rax, rcx\n  movsxd rax, eax\n"),
        BinOp::Mul => push_str(out, "  imul rax, rcx\n  movsxd rax, eax\n"),
        BinOp::Div => push_str(out, "  mov r8, rax\n  mov rax, rcx\n  cqo\n  idiv r8\n  movsxd rax, eax\n"),
        BinOp::Lt => push_str(out, "  cmp rcx, rax\n  setl al\n  movzx rax, al\n"),
        BinOp::Gt => push_str(out, "  cmp rcx, rax\n  setg al\n  movzx rax, al\n"),
        BinOp::LtEq => push_str(out, "  cmp rcx, rax\n  setle al\n  movzx rax, al\n"),
        BinOp::GtEq => push_str(out, "  cmp rcx, rax\n  setge al\n  movzx rax, al\n"),
        BinOp::Eq => push_str(out, "  cmp rcx, rax\n  sete al\n  movzx rax, al\n"),
        BinOp::NotEq => push_str(out, "  cmp rcx, rax\n  setne al\n  movzx rax, al\n"),
        BinOp::And => push_str(out, "  cmp rcx, 0\n  setne cl\n  movzx rcx, cl\n  cmp rax, 0\n  setne al\n  movzx rax, al\n  imul rax, rcx\n"),
        BinOp::Or => push_str(out, "  cmp rcx, 0\n  setne cl\n  movzx rcx, cl\n  cmp rax, 0\n  setne al\n  movzx rax, al\n  add rax, rcx\n  cmp rax, 0\n  setne al\n  movzx rax, al\n"),
    }
}

/// The size of a struct-return scratch area for `n` fields: 4 bytes each, rounded up
/// to 16.
pub open spec fn scratch_size(n: int) -> int {
    (n * 4 + 15) / 16 * 16
}

/// Copies struct `src` field by field into struct `dst` through `rax`, from the
/// `j`-th field on.
pub open spec fn copy_text(locals: Seq<(Seq<char>, i64)>, dst: Seq<char>, src: Seq<char>, fields: Seq<Param>, j: int) -> Option<Seq<char>>
    decreases fields.len() - j,
{
    if j < 0 || j >= fields.len() {
        Some(seq![])
    } else {
        cat(cat(load_text(locals, field_slot_name(src, fields[j].name@)), store_text(locals, field_slot_name(dst, fields[j].name@))),
            copy_text(locals, dst, src, fields, j + 1))
    }
}

/// Reads a struct result back from the scratch area at `rsp` into the field slots of
/// `dst`, field `j` from byte `4 * j` (sign-extended), from the `j`-th field on.
pub open spec fn readback_text(locals: Seq<(Seq<char>, i64)>, dst: Seq<char>, fields: Seq<Param>, j: int) -> Option<Seq<char>>
    decreases fields.len() - j,
{
    if j < 0 || j >= fields.len() {
        Some(seq![])
    } else {
        cat(cat(Some("  movsxd rax, DWORD PTR [rsp + "@ + decimal((4 * j) as nat) + "]\n"@),
            store_text(locals, field_slot_name(dst, fields[j].name@))),
            readback_text(locals, dst, fields, j + 1))
    }
}

/// Stores `eax` as field `j` of the struct that the return pointer points to.
pub open spec fn sret_store(sret: i64, j: int) -> Seq<char> {
    "  mov r10, QWORD PTR [rbp"@ + off_text(sret as int) + "]\n  mov DWORD PTR [r10 + "@ + decimal((4 * j) as nat) + "], eax\n"@
}

/// Writes struct variable `src` through the return pointer, from the `j`-th field on.
pub open spec fn sret_copy_text(locals: Seq<(Seq<char>, i64)>, sret: i64, src: Seq<char>, fields: Seq<Param>, j: int) -> Option<Seq<char>>
    decreases fields.len() - j,
{
    if j < 0 || j >= fields.len() {
        Some(seq![])
    } else {
        cat(then_text(load_text(locals, field_slot_name(src, fields[j].name@)), sret_store(sret, j)),
            sret_copy_text(locals, sret, src, fields, j + 1))
    }
}

impl<'a> X86Fn<'a> {






    /// Stores the value of `expr` into the variable `name` of type `ty`: one slot for a
    /// scalar, the field slots in declaration order for a struct.
    #[verifier::spinoff_prover]
    #[verifier::rlimit(100)]
    fn emit_store(&self, name: &String, ty: &Type, expr: &Expr, out: &mut String) -> (r: Result<(), CodegenError>)
        ensures
            match assign_text(self.ctx(), name@, *ty, *expr) {
                Some(t) => r is Ok && final(out)@ == old(out)@ + t,
                None => r is Err,
            },
        decreases expr, 5nat, 0nat,
    {
        proof { reveal_with_fuel(assign_text, 1); }
        let ghost o = out@;
        match ty {
            Type::I32 | Type::Char | Type::Bool => {
                self.emit_expr(expr, 0, out)?;
                self.store_slot(name, out)
            },
            Type::Struct(sname) => {
                let si = struct_index(self.prog, sname)?;
                let fields = &self.prog.structs[si].fields;
                if fields.len() >= MAX_SLOTS {
                    return Err(codegen_error("struct too large"));
                }
                match expr {
                    Expr::StructInit { name: init_name, fields: inits } => {
                        if !crate::text::string_eq(init_name, sname) {
                            return Err(codegen_error_on("struct init type mismatch: ", init_name));
                        }
                        self.emit_inits(name, fields, inits, out)
                    },
                    Expr::Ident(src) => self.emit_copy(name, src, fields, out),
                    Expr::Call { callee, args } => {
                        let fi = match find_fn_index(self.prog, callee) {
                            Some(fi) => fi,
                            None => {
                                return Err(codegen_error_on("unknown function ", callee));
                            },
                        };
                        let f = &self.prog.functions[fi];
                        if !matches!(f.ret, Type::Struct(_)) {
                            return Err(codegen_error_on("expected a struct-returning function: ", callee));
                        }
                        let flat = flatten_call_args(args, &f.params, self.prog)?;
                        let mut srcs: Vec<ArgSource> = Vec::new();
                        srcs.push(ArgSource::Scratch);
                        let mut i: usize = 0;
                        while i < flat.len()
                            invariant
                                i <= flat@.len(),
                                srcs@ =~= seq![ArgSource::Scratch] + flat_srcs(flat@.subrange(0, i as int)),
                            decreases flat@.len() - i,
                        {
                            srcs.push(ArgSource::Flat(flat[i]));
                            assert(flat_srcs(flat@.subrange(0, i + 1)) =~= flat_srcs(flat@.subrange(0, i as int)).push(ArgSource::Flat(flat@[i as int])));
                            i = i + 1;
                        }
                        assert(flat@.subrange(0, flat@.len() as int) =~= flat@);
                        let n = fields.len() as u64;
                        let scratch: u64 = (n * 4 + 15) / 16 * 16;
                        let ghost a = out@;
                        push_str(out, "  sub rsp, ");
                        push_nat(out, scratch);
                        push_str(out, "\n");
                        assert(out@ =~= a + ("  sub rsp, "@ + decimal(scratch as nat) + "\n"@));
                        self.emit_call_seq(args, &srcs, &f.params, callee, scratch / 8, out)?;
                        let ghost b = out@;
                        self.emit_readback(name, fields, out)?;
                        let ghost c = out@;
                        push_str(out, "  add rsp, ");
                        push_nat(out, scratch);
                        push_str(out, "\n");
                        assert(out@ =~= c + ("  add rsp, "@ + decimal(scratch as nat) + "\n"@));
                        Ok(())
                    },
                    _ => Err(codegen_error_on("unsupported struct initializer for ", name)),
                }
            },
            _ => Err(codegen_error_on("unsupported variable type for ", name)),
        }
    }

    #[verifier::spinoff_prover]
    fn emit_inits(&self, dst: &String, fields: &Vec<Param>, inits: &Vec<(String, Expr)>, out: &mut String) -> (r: Result<(), CodegenError>)
        ensures
            match init_text(self.ctx(), dst@, fields@, *inits, 0) {
                Some(t) => r is Ok && final(out)@ == old(out)@ + t,
                None => r is Err,
            },
        decreases inits, 2nat, 0nat,
    {
        proof { reveal_with_fuel(init_text, 1); }
        let ghost o = out@;
        let mut j: usize = 0;
        while j < fields.len()
            invariant
                j <= fields@.len(),
                match init_text(self.ctx(), dst@, fields@, *inits, 0) {
                    Some(t) => match init_text(self.ctx(), dst@, fields@, *inits, j as int) {
                        Some(rest) => t == out@.subrange(o.len() as int, out@.len() as int) + rest
                            && o.len() <= out@.len() && out@.subrange(0, o.len() as int) == o,
                        None => false,
                    },
                    None => init_text(self.ctx(), dst@, fields@, *inits, j as int) is None,
                },
            decreases fields@.len() - j,
        {
            proof { reveal_with_fuel(init_text, 1); }
            let ghost before = out@;
            let k = match find_init_index(inits, &fields[j].name) {
                Some(k) => k,
                None => {
                    return Err(codegen_error_on("missing field in struct init: ", &fields[j].name));
                },
            };
            self.emit_expr(&inits[k].1, 0, out)?;
            let ghost mid = out@;
            self.store_slot(&field_local_name(dst, &fields[j].name), out)?;
            proof {
                if let Some(t) = init_text(self.ctx(), dst@, fields@, *inits, 0) {
                    let piece = out@.subrange(before.len() as int, out@.len() as int);
                    assert(out@.subrange(o.len() as int, out@.len() as int) =~= before.subrange(o.len() as int, before.len() as int) + piece);
                    assert(out@.subrange(0, o.len() as int) =~= before.subrange(0, o.len() as int));
                    assert(piece =~= mid.subrange(before.len() as int, mid.len() as int) + out@.subrange(mid.len() as int, out@.len() as int));
                }
            }
            j = j + 1;
        }
        assert(out@ =~= o + out@.subrange(o.len() as int, out@.len() as int));
        Ok(())
    }

    fn emit_copy(&self, dst: &String, src: &String, fields: &Vec<Param>, out: &mut String) -> (r: Result<(), CodegenError>)
        ensures
            match copy_text(lnames(self.locals@), dst@, src@, fields@, 0) {
                Some(t) => r is Ok && final(out)@ == old(out)@ + t,
                None => r is Err,
            },
    {
        let ghost o = out@;
        let mut j: usize = 0;
        while j < fields.len()
            invariant
                j <= fields@.len(),
                match copy_text(lnames(self.locals@), dst@, src@, fields@, 0) {
                    Some(t) => match copy_text(lnames(self.locals@), dst@, src@, fields@, j as int) {
                        Some(rest) => t == out@.subrange(o.len() as int, out@.len() as int) + rest
                            && o.len() <= out@.len() && out@.subrange(0, o.len() as int) == o,
                        None => false,
                    },
                    None => copy_text(lnames(self.locals@), dst@, src@, fields@, j as int) is None,
                },
            decreases fields@.len() - j,
        {
            let ghost before = out@;
            self.load_slot(&field_local_name(src, &fields[j].name), out)?;
            self.store_slot(&field_local_name(dst, &fields[j].name), out)?;
            proof {
                if let Some(t) = copy_text(lnames(self.locals@), dst@, src@, fields@, 0) {
                    let piece = out@.subrange(before.len() as int, out@.len() as int);
                    assert(out@.subrange(o.len() as int, out@.len() as int) =~= before.subrange(o.len() as int, before.len() as int) + piece);
                    assert(out@.subrange(0, o.len() as int) =~= before.subrange(0, o.len() as int));
                }
            }
            j = j + 1;
        }
        assert(out@ =~= o + out@.subrange(o.len() as int, out@.len() as int));
        Ok(())
    }

    fn emit_readback(&self, dst: &String, fields: &Vec<Param>, out: &mut String) -> (r: Result<(), CodegenError>)
        requires
            fields@.len() < MAX_SLOTS,
        ensures
            match readback_text(lnames(self.locals@), dst@, fields@, 0) {
                Some(t) => r is Ok && final(out)@ == old(out)@ + t,
                None => r is Err,
            },
    {
        let ghost o = out@;
        let mut j: usize = 0;
        while j < fields.len()
            invariant
                j <= fields@.len() < MAX_SLOTS,
                match readback_text(lnames(self.locals@), dst@, fields@, 0) {
                    Some(t) => match readback_text(lnames(self.locals@), dst@, fields@, j as int) {
                        Some(rest) => t == out@.subrange(o.len() as int, out@.len() as int) + rest
                            && o.len() <= out@.len() && out@.subrange(0, o.len() as int) == o,
                        None => false,
                    },
                    None => readback_text(lnames(self.locals@), dst@, fields@, j as int) is None,
                },
            decreases fields@.len() - j,
        {
            let ghost before = out@;
            push_str(out, "  movsxd rax, DWORD PTR [rsp + ");
            push_nat(out, 4 * j as u64);
            push_str(out, "]\n");
            let ghost mid = out@;
            assert(mid =~= before + ("  movsxd rax, DWORD PTR [rsp + "@ + decimal((4 * j) as nat) + "]\n"@));
            self.store_slot(&field_local_name(dst, &fields[j].name), out)?;
            proof {
                if let Some(t) = readback_text(lnames(self.locals@), dst@, fields@, 0) {
                    let piece = out@.subrange(before.len() as int, out@.len() as int);
                    assert(out@.subrange(o.len() as int, out@.len() as int) =~= before.subrange(o.len() as int, before.len() as int) + piece);
                    assert(out@.subrange(0, o.len() as int) =~= before.subrange(0, o.len() as int));
                    assert(piece =~= mid.subrange(before.len() as int, mid.len() as int) + out@.subrange(mid.len() as int, out@.len() as int));
                }
            }
            j = j + 1;
        }
        assert(out@ =~= o + out@.subrange(o.len() as int, out@.len() as int));
        Ok(())
    }

    #[verifier::loop_isolation(false)]
    fn emit_block(&self, b: &Block, labels: &mut u64, out: &mut String) -> (r: Result<(), CodegenError>)
        ensures
            match block_text(self.ctx(), *b, 0, *old(labels)) {
                Some((t, l)) => r is Ok && final(out)@ == old(out)@ + t && *final(labels) == l,
                None => r is Err,
            },
        decreases b, 0nat, 0nat,
    {
        let ghost o = out@;
        let ghost l0 = *labels;
        let mut i: usize = 0;
        while i < b.statements.len()
            invariant
                i <= b.statements@.len(),
                match block_text(self.ctx(), *b, 0, l0) {
                    Some((t, lf)) => match block_text(self.ctx(), *b, i as int, *labels) {
                        Some((rest, lf2)) => lf2 == lf && t == out@.subrange(o.len() as int, out@.len() as int) + rest
                            && o.len() <= out@.len() && out@.subrange(0, o.len() as int) == o,
                        None => false,
                    },
                    None => block_text(self.ctx(), *b, i as int, *labels) is None,
                },
            decreases b.statements@.len() - i,
        {
            let ghost before = out@;
            let ghost lb = *labels;
            match self.emit_stmt(&b.statements[i], labels, out) {
                Ok(_) => {},
                Err(e) => {
                    return Err(e);
                },
            }
            proof {
                if let Some((t, lf)) = block_text(self.ctx(), *b, 0, l0) {
                    let piece = stmt_text(self.ctx(), b.statements@[i as int], lb).unwrap().0;
                    assert(out@.subrange(o.len() as int, out@.len() as int) =~= before.subrange(o.len() as int, before.len() as int) + piece);
                    assert(out@.subrange(0, o.len() as int) =~= before.subrange(0, o.len() as int));
                }
            }
            i = i + 1;
        }
        assert(out@ =~= o + out@.subrange(o.len() as int, out@.len() as int));
        Ok(())
    }

    #[verifier::spinoff_prover]
    #[verifier::rlimit(100)]
    fn emit_stmt(&self, s: &Stmt, labels: &mut u64, out: &mut String) -> (r: Result<(), CodegenError>)
        ensures
            match stmt_text(self.ctx(), *s, *old(labels)) {
                Some((t, l)) => r is Ok && final(out)@ == old(out)@ + t && *final(labels) == l,
                None => r is Err,
            },
        decreases s, 1nat, 0nat,
    {
        let ghost o = out@;
        match s {
            Stmt::Let { name, ty, expr } => self.emit_store(name, ty, expr, out),
            Stmt::Assign { name, expr } => {
                let ty = self.var_type(name)?;
                self.emit_store(name, &ty, expr, out)
            },
            Stmt::FieldAssign { base, field, expr } => {
                let ty = self.var_type(base)?;
                if !matches!(ty, Type::Struct(_)) {
                    return Err(codegen_error_on("field assignment on non-struct ", base));
                }
                self.emit_expr(expr, 0, out)?;
                self.store_slot(&field_local_name(base, field), out)
            },
            Stmt::If { .. } => self.emit_if(s, labels, out),
            Stmt::While { cond, body } => {
                let n = *labels;
                if n == u64::MAX {
                    return Err(codegen_error("too many labels"));
                }
                *labels = n + 1;
                let ghost dn = decimal(n as nat);
                push_str(out, ".Lloop_");
                push_nat(out, n);
                push_str(out, ":\n");
                let ghost a = out@;
                assert(a =~= o + (".Lloop_"@ + dn + ":\n"@));
                self.emit_expr(cond, 0, out)?;
                let ghost c = out@;
                push_str(out, "  cmp rax, 0\n  je .Lexit_");
                push_nat(out, n);
                push_str(out, "\n");
                let ghost d = out@;
                assert(d =~= c + ("  cmp rax, 0\n  je .Lexit_"@ + dn + "\n"@));
                self.emit_block(body, labels, out)?;
                let ghost e = out@;
                push_str(out, "  jmp .Lloop_");
                push_nat(out, n);
                push_str(out, "\n.Lexit_");
                push_nat(out, n);
                push_str(out, ":\n");
                assert(out@ =~= e + ("  jmp .Lloop_"@ + dn + "\n.Lexit_"@ + dn + ":\n"@));
                Ok(())
            },
            Stmt::Return(expr) => {
                match self.sret {
                    Some(sret) => {
                        if sret == i64::MIN {
                            return Err(codegen_error("frame offset out of range"));
                        }
                        self.emit_struct_return(sret, expr, out)?
                    },
                    None => self.emit_expr(expr, 0, out)?,
                }
                let ghost m = out@;
                push_str(out, "  jmp ");
                push_str(out, self.ret_label.as_str());
                push_str(out, "\n");
                assert(out@ =~= m + ("  jmp "@ + self.ret_label@ + "\n"@));
                Ok(())
            },
            Stmt::Expr(expr) => self.emit_expr(expr, 0, out),
        }
    }

    #[verifier::spinoff_prover]
    #[verifier::rlimit(100)]
    fn emit_if(&self, s: &Stmt, labels: &mut u64, out: &mut String) -> (r: Result<(), CodegenError>)
        requires
            s is If,
        ensures
            match stmt_text(self.ctx(), *s, *old(labels)) {
                Some((t, l)) => r is Ok && final(out)@ == old(out)@ + t && *final(labels) == l,
                None => r is Err,
            },
        decreases s, 0nat, 0nat,
    {
        let ghost o = out@;
        match s {
            Stmt::If { cond, then_block, else_block } => {
                let n = *labels;
                if n == u64::MAX {
                    return Err(codegen_error("too many labels"));
                }
                *labels = n + 1;
                let ghost dn = decimal(n as nat);
                self.emit_expr(cond, 0, out)?;
                let ghost c = out@;
                push_str(out, "  cmp rax, 0\n  je .Lelse_");
                push_nat(out, n);
                push_str(out, "\n");
                assert(out@ =~= c + ("  cmp rax, 0\n  je .Lelse_"@ + dn + "\n"@));
                self.emit_block(then_block, labels, out)?;
                let ghost t = out@;
                push_str(out, "  jmp .Lendif_");
                push_nat(out, n);
                push_str(out, "\n.Lelse_");
                push_nat(out, n);
                push_str(out, ":\n");
                assert(out@ =~= t + ("  jmp .Lendif_"@ + dn + "\n.Lelse_"@ + dn + ":\n"@));
                match else_block {
                    Some(eb) => self.emit_block(eb, labels, out)?,
                    None => {},
                }
                let ghost e = out@;
                push_str(out, ".Lendif_");
                push_nat(out, n);
                push_str(out, ":\n");
                assert(out@ =~= e + (".Lendif_"@ + dn + ":\n"@));
                Ok(())
            },
            _ => Err(codegen_error("not an if statement")),
        }
    }

    /// Writes a struct result through the return pointer: field `i` at byte `4 * i`.
    fn emit_struct_return(&self, sret: i64, expr: &Expr, out: &mut String) -> (r: Result<(), CodegenError>)
        requires
            sret > i64::MIN,
        ensures
            match sret_text(self.ctx(), sret, *expr) {
                Some(t) => r is Ok && final(out)@ == old(out)@ + t,
                None => r is Err,
            },
        decreases expr, 5nat, 0nat,
    {
        proof { reveal_with_fuel(sret_text, 1); }
        match expr {
            Expr::StructInit { name, fields: inits } => {
                let si = struct_index(self.prog, name)?;
                let fields = &self.prog.structs[si].fields;
                if fields.len() >= MAX_SLOTS {
                    return Err(codegen_error("struct too large"));
                }
                self.emit_sret_inits(sret, fields, inits, out)
            },
            Expr::Ident(src) => {
                let ty = self.var_type(src)?;
                let sname = match &ty {
                    Type::Struct(sn) => sn,
                    _ => {
                        return Err(codegen_error("struct-return function must return struct expression"));
                    },
                };
                let si = struct_index(self.prog, sname)?;
                let fields = &self.prog.structs[si].fields;
                if fields.len() >= MAX_SLOTS {
                    return Err(codegen_error("struct too large"));
                }
                self.emit_sret_copy(sret, src, fields, out)
            },
            _ => Err(codegen_error("unsupported struct return expression")),
        }
    }

    #[verifier::spinoff_prover]
    fn emit_sret_inits(&self, sret: i64, fields: &Vec<Param>, inits: &Vec<(String, Expr)>, out: &mut String) -> (r: Result<(), CodegenError>)
        requires
            sret > i64::MIN,
            fields@.len() < MAX_SLOTS,
        ensures
            match sret_init_text(self.ctx(), sret, fields@, *inits, 0) {
                Some(t) => r is Ok && final(out)@ == old(out)@ + t,
                None => r is Err,
            },
        decreases inits, 2nat, 0nat,
    {
        proof { reveal_with_fuel(sret_init_text, 1); }
        let ghost o = out@;
        let mut j: usize = 0;
        while j < fields.len()
            invariant
                sret > i64::MIN,
                j <= fields@.len() < MAX_SLOTS,
                match sret_init_text(self.ctx(), sret, fields@, *inits, 0) {
                    Some(t) => match sret_init_text(self.ctx(), sret, fields@, *inits, j as int) {
                        Some(rest) => t == out@.subrange(o.len() as int, out@.len() as int) + rest
                            && o.len() <= out@.len() && out@.subrange(0, o.len() as int) == o,
                        None => false,
                    },
                    None => sret_init_text(self.ctx(), sret, fields@, *inits, j as int) is None,
                },
            decreases fields@.len() - j,
        {
            proof { reveal_with_fuel(sret_init_text, 1); }
            let ghost before = out@;
            let k = match find_init_index(inits, &fields[j].name) {
                Some(k) => k,
                None => {
                    return Err(codegen_error_on("missing field in return init: ", &fields[j].name));
                },
            };
            self.emit_expr(&inits[k].1, 0, out)?;
            emit_sret_store(out, sret, j as u64);
            proof {
                if let Some(t) = sret_init_text(self.ctx(), sret, fields@, *inits, 0) {
                    let piece = out@.subrange(before.len() as int, out@.len() as int);
                    assert(out@.subrange(o.len() as int, out@.len() as int) =~= before.subrange(o.len() as int, before.len() as int) + piece);
                    assert(out@.subrange(0, o.len() as int) =~= before.subrange(0, o.len() as int));
                }
            }
            j = j + 1;
        }
        assert(out@ =~= o + out@.subrange(o.len() as int, out@.len() as int));
        Ok(())
    }

    fn emit_sret_copy(&self, sret: i64, src: &String, fields: &Vec<Param>, out: &mut String) -> (r: Result<(), CodegenError>)
        requires
            sret > i64::MIN,
            fields@.len() < MAX_SLOTS,
        ensures
            match sret_copy_text(lnames(self.locals@), sret, src@, fields@, 0) {
                Some(t) => r is Ok && final(out)@ == old(out)@ + t,
                None => r is Err,
            },
    {
        let ghost o = out@;
        let mut j: usize = 0;
        while j < fields.len()
            invariant
                sret > i64::MIN,
                j <= fields@.len() < MAX_SLOTS,
                match sret_copy_text(lnames(self.locals@), sret, src@, fields@, 0) {
                    Some(t) => match sret_copy_text(lnames(self.locals@), sret, src@, fields@, j as int) {
                        Some(rest) => t == out@.subrange(o.len() as int, out@.len() as int) + rest
                            && o.len() <= out@.len() && out@.subrange(0, o.len() as int) == o,
                        None => false,
                    },
                    None => sret_copy_text(lnames(self.locals@), sret, src@, fields@, j as int) is None,
                },
            decreases fields@.len() - j,
        {
            let ghost before = out@;
            self.load_slot(&field_local_name(src, &fields[j].name), out)?;
            emit_sret_store(out, sret, j as u64);
            proof {
                if let Some(t) = sret_copy_text(lnames(self.locals@), sret, src@, fields@, 0) {
                    let piece = out@.subrange(before.len() as int, out@.len() as int);
                    assert(out@.subrange(o.len() as int, out@.len() as int) =~= before.subrange(o.len() as int, before.len() as int) + piece);
                    assert(out@.subrange(0, o.len() as int) =~= before.subrange(0, o.len() as int));
                }
            }
            j = j + 1;
        }
        assert(out@ =~= o + out@.subrange(o.len() as int, out@.len() as int));
        Ok(())
    }
}

/// Stores `eax` as field `j` of the struct that the return pointer points to.
fn emit_sret_store(out: &mut String, sret: i64, j: u64)
    requires
        sret > i64::MIN,
        j < 1000000,
    ensures
        final(out)@ == old(out)@ + sret_store(sret, j as int),
{
    push_str(out, "  mov r10, QWORD PTR [rbp");
    fmt_offset(out, sret);
    push_str(out, "]\n  mov DWORD PTR [r10 + ");
    push_nat(out, 4 * j);
    push_str(out, "], eax\n");
    assert(out@ =~= old(out)@ + sret_store(sret, j as int));
}

/// How a function begins: its global label, then the frame setup.
pub open spec fn x86_fn_start(name: Seq<char>) -> Seq<char> {
    ".globl "@ + name + "\n"@ + name + ":\n  push rbp\n  mov rbp, rsp\n"@
}

/// How a function ends: its return label, where the frame is torn down.
pub open spec fn x86_fn_end(name: Seq<char>) -> Seq<char> {
    ".Lreturn_"@ + name + ":\n  mov rsp, rbp\n  pop rbp\n  ret\n\n"@
}

/// The frame slots of a function's locals in order: slot `k` at `rbp - 8 * (k + 1)`.
pub open spec fn frame_table(names: Seq<Seq<char>>) -> Seq<(Seq<char>, i64)> {
    Seq::new(names.len(), |k: int| (names[k], (0 - 8 * (k + 1)) as i64))
}

/// Moves parameter `i` into its slot: from its register for the first six, from above
/// the return address for the rest.
pub open spec fn spill_line(i: int) -> Seq<char> {
    if i < 6 {
        "  mov QWORD PTR [rbp"@ + off_text(0 - 8 * (i + 1)) + "], "@ + reg_text(i) + "\n"@
    } else {
        "  mov rax, QWORD PTR [rbp + "@ + decimal((16 + 8 * (i - 6)) as nat) + "]\n  mov QWORD PTR [rbp"@
            + off_text(0 - 8 * (i + 1)) + "], rax\n"@
    }
}

/// The spills of parameters `k` to `n - 1`.
pub open spec fn spills(k: int, n: int) -> Seq<char>
    decreases n - k,
{
    if k >= n { seq![] } else { spill_line(k) + spills(k + 1, n) }
}

/// The context a function body is lowered against on x86-64: the struct-return
/// pointer's slot first when the function returns a struct, then the parameters'
/// slots, then the `let`s' slots in walk order; with the number of parameter slots
/// (the pointer's included) and of all slots.
pub open spec fn x86_fn_ctx(f: Function, p: Program, offs: Seq<(Seq<char>, i64)>) -> Option<(XCtx, nat, nat)> {
    let s = f.ret is Struct;
    let head: Seq<Seq<char>> = if s { seq!["__sret_ptr"@] } else { seq![] };
    match (param_names(p, f.params@, 0), block_names(p, f.body, 0)) {
        (Some(pn), Some(bn)) => if head.len() + pn.len() + bn.len() >= MAX_SLOTS {
            None
        } else {
            Some((
                XCtx {
                    prog: p,
                    locals: frame_table(head + pn + bn),
                    vars: param_vars(f.params@) + block_vars(f.body, 0),
                    offsets: offs,
                    sret: if s { Some(-8i64) } else { None },
                    ret_label: ".Lreturn_"@ + f.name@,
                },
                head.len() + pn.len(),
                head.len() + pn.len() + bn.len(),
            ))
        },
        _ => None,
    }
}

/// The text of a function on x86-64, and the next free label number: the frame, the
/// parameter spills, the memory initializer's call when there are strings, the body,
/// the fall-through result, and the shared return label.
pub open spec fn x86_fn_text(f: Function, p: Program, offs: Seq<(Seq<char>, i64)>, labels: u64) -> Option<(Seq<char>, u64)> {
    match x86_fn_ctx(f, p, offs) {
        Some((c, np, n)) => match block_text(c, f.body, 0, labels) {
            Some((t, l)) => Some((
                x86_fn_start(f.name@)
                    + (if frame_size(n) > 0 { "  sub rsp, "@ + decimal(frame_size(n)) + "\n"@ } else { seq![] })
                    + spills(0, np as int)
                    + (if offs.len() > 0 { "  call __mee_init_memory\n"@ } else { seq![] })
                    + t
                    + (if is_scalar_type(f.ret) { "  mov rax, 0\n"@ } else if f.ret is Struct { "  mov rax, QWORD PTR [rbp - 8]\n"@ } else { seq![] })
                    + x86_fn_end(f.name@),
                l,
            )),
            None => None,
        },
        None => None,
    }
}

#[verifier::spinoff_prover]
#[verifier::rlimit(100)]
fn emit_function_x86_64_with_strings(f: &Function, prog: &Program, string_offsets: &Vec<(String, i64)>, labels: &mut u64, out: &mut String) -> (r: Result<(), CodegenError>)
    ensures
        match x86_fn_text(*f, *prog, lnames(string_offsets@), *old(labels)) {
            Some((t, l)) => r is Ok && final(out)@ == old(out)@ + t && *final(labels) == l,
            None => r is Err,
        },
{
    let mut text = String::new();
    let mut slots: Vec<(String, i64)> = Vec::new();
    let mut var_types: Vec<(String, Type)> = Vec::new();
    let mut next: i64 = 0;
    let returns_struct = matches!(f.ret, Type::Struct(_));
    let ghost head: Seq<Seq<char>> = seq![];
    if returns_struct {
        proof { reveal_strlit("__sret_ptr"); }
        slots.push((string_from("__sret_ptr"), 0));
        next = 1;
        proof { head = seq!["__sret_ptr"@]; }
    }
    assert(lnames(slots@) =~= numbered(head, 0));
    bind_params(f, prog, &mut slots, &mut var_types, &mut next)?;
    let n_params = next;
    collect_locals_from_block(&f.body, prog, &mut slots, &mut next, &mut var_types)?;
    let ghost names = head + param_names(*prog, f.params@, 0)->0 + block_names(*prog, f.body, 0)->0;
    proof {
        let pn = param_names(*prog, f.params@, 0)->0;
        let bn = block_names(*prog, f.body, 0)->0;
        lemma_numbered_append(head, pn, 0);
        lemma_numbered_append(head + pn, bn, 0);
        assert(var_types@ =~= param_vars(f.params@) + block_vars(f.body, 0));
        assert(lnames(slots@) == numbered(names, 0));
        assert(lnames(slots@).len() == slots@.len());
        assert(numbered(names, 0).len() == names.len());
    }
    let n = slots.len();
    if n >= MAX_SLOTS {
        return Err(codegen_error("too many locals"));
    }
    let mut locals: Vec<(String, i64)> = Vec::new();
    let mut i: usize = 0;
    while i < n
        invariant
            n == slots@.len() == names.len(),
            n < 1000000,
            i <= n,
            lnames(slots@) == numbered(names, 0),
            lnames(locals@) == frame_table(names.subrange(0, i as int)),
        decreases n - i,
    {
        let k: i64 = i as i64 + 1;
        let off: i64 = 0 - 8 * k;
        let ghost l0 = locals@;
        assert(lnames(slots@)[i as int] == (slots@[i as int].0@, slots@[i as int].1));
        assert(numbered(names, 0)[i as int] == (names[i as int], i as i64));
        assert(slots@[i as int].0@ == names[i as int]);
        let name = slots[i].0.clone();
        assert(name@ == names[i as int]);
        locals.push((name, off));
        assert(lnames(locals@) =~= lnames(l0).push((names[i as int], off)));
        assert(frame_table(names.subrange(0, i + 1)) =~= frame_table(names.subrange(0, i as int)).push((names[i as int], off)));
        assert(lnames(locals@) =~= frame_table(names.subrange(0, i + 1)));
        i = i + 1;
    }
    assert(names.subrange(0, n as int) =~= names);
    let frame = crate::layout::frame_bytes(n as u64);
    if frame > 0 {
        push_str(&mut text, "  sub rsp, ");
        push_nat(&mut text, frame);
        push_str(&mut text, "\n");
    }
    let ghost t1 = text@;
    // register-passed parameters are spilled; stack-passed ones are copied from above
    // the return address
    let np = n_params as usize;
    let mut i: usize = 0;
    while i < np
        invariant
            np <= n < MAX_SLOTS,
            i <= np,
            text@ + spills(i as int, np as int) == t1 + spills(0, np as int),
        decreases np - i,
    {
        let ghost tb = text@;
        let k: i64 = i as i64 + 1;
        let off: i64 = 0 - 8 * k;
        if i < 6 {
            push_str(&mut text, "  mov QWORD PTR [rbp");
            fmt_offset(&mut text, off);
            push_str(&mut text, "], ");
            push_str(&mut text, arg_reg(i));
            push_str(&mut text, "\n");
        } else {
            push_str(&mut text, "  mov rax, QWORD PTR [rbp + ");
            push_nat(&mut text, 16 + 8 * (i as u64 - 6));
            push_str(&mut text, "]\n  mov QWORD PTR [rbp");
            fmt_offset(&mut text, off);
            push_str(&mut text, "], rax\n");
        }
        assert(text@ =~= tb + spill_line(i as int));
        assert(text@ + spills(i + 1, np as int) =~= tb + spills(i as int, np as int));
        i = i + 1;
    }
    assert(text@ =~= t1 + spills(0, np as int));
    if string_offsets.len() > 0 {
        push_str(&mut text, "  call __mee_init_memory\n");
    }
    let mut ret_label = string_from(".Lreturn_");
    push_str(&mut ret_label, f.name.as_str());
    let sret: Option<i64> = if returns_struct { Some(-8) } else { None };
    let ctx = X86Fn { prog, locals, var_types, string_offsets, ret_label, sret };
    assert(ctx.ctx() == x86_fn_ctx(*f, *prog, lnames(string_offsets@)).unwrap().0);
    ctx.emit_block(&f.body, labels, &mut text)?;
    if f.ret.is_scalar() {
        push_str(&mut text, "  mov rax, 0\n");
    } else if returns_struct {
        push_str(&mut text, "  mov rax, QWORD PTR [rbp - 8]\n");
    }
    push_str(out, ".globl ");
    push_str(out, f.name.as_str());
    push_str(out, "\n");
    push_str(out, f.name.as_str());
    push_str(out, ":\n  push rbp\n  mov rbp, rsp\n");
    push_str(out, text.as_str());
    push_str(out, ".Lreturn_");
    push_str(out, f.name.as_str());
    push_str(out, ":\n  mov rsp, rbp\n  pop rbp\n  ret\n\n");
    assert(out@ =~= old(out)@ + x86_fn_text(*f, *prog, lnames(string_offsets@), *old(labels)).unwrap().0);
    Ok(())
}

/// One byte store into the emulated linear memory.
pub open spec fn store_byte(off: int, b: int) -> Seq<char> {
    "  mov BYTE PTR [rip + __mee_memory + "@ + decimal(off as nat) + "], "@ + decimal(b as nat) + "\n"@
}

/// The byte that stands for a character in linear memory.
pub open spec fn byte_val(c: char) -> int {
    (c as u32 % 256) as int
}

/// The stores that copy string `s` from its `k`-th character on to offset `base`,
/// followed by its zero byte.
pub open spec fn copy_bytes(s: Seq<char>, base: int, k: int) -> Seq<char>
    decreases s.len() - k,
{
    if k < 0 || k >= s.len() {
        store_byte(base + s.len(), 0)
    } else {
        store_byte(base + k, byte_val(s[k])) + copy_bytes(s, base, k + 1)
    }
}

/// The stores that copy the strings from the `i`-th on to their x86-64 offsets.
pub open spec fn copy_strings(v: Seq<Seq<char>>, i: int) -> Seq<char>
    decreases v.len() - i,
{
    if i < 0 || i >= v.len() {
        seq![]
    } else {
        copy_bytes(v[i], start_of(v, i, 1), 0) + copy_strings(v, i + 1)
    }
}

pub const INIT_HEAD: &'static str = ".globl __mee_init_memory\n__mee_init_memory:\n  cmp DWORD PTR [rip + __mee_mem_inited], 1\n  je .Lmee_mem_init_done\n";
pub const INIT_TAIL: &'static str = "  mov DWORD PTR [rip + __mee_mem_inited], 1\n.Lmee_mem_init_done:\n  ret\n\n";

fn emit_store_byte(out: &mut String, off: u64, b: u64)
    ensures
        final(out)@ == old(out)@ + store_byte(off as int, b as int),
{
    push_str(out, "  mov BYTE PTR [rip + __mee_memory + ");
    push_nat(out, off);
    push_str(out, "], ");
    push_nat(out, b);
    push_str(out, "\n");
    assert(out@ =~= old(out)@ + store_byte(off as int, b as int));
}

/// Writes `__mee_init_memory`, which copies the interned strings (each followed by a
/// zero byte) into the emulated linear memory from offset 0, once: a flag word
/// records that the copy was made.
fn emit_x86_64_memory_init_helper(strings: &Vec<String>, out: &mut String) -> (r: Result<(), CodegenError>)
    ensures
        r is Ok ==> final(out)@ == old(out)@ + INIT_HEAD@ + copy_strings(views(strings@), 0) + INIT_TAIL@,
        r is Ok <==> forall|i: int| 0 <= i < strings@.len() ==> (#[trigger] strings@[i])@.len() < 0x4000_0000
            && start_of(views(strings@), i, 1) < 0x4000_0000,
{
    let ghost v = views(strings@);
    let mut body = String::new();
    let mut offset: u64 = 0;
    let mut i: usize = 0;
    while i < strings.len()
        invariant
            i <= strings@.len(),
            v == views(strings@),
            offset == start_of(v, i as int, 1),
            body@ + copy_strings(v, i as int) == copy_strings(v, 0),
            forall|k: int| 0 <= k < i ==> (#[trigger] strings@[k])@.len() < 0x4000_0000 && start_of(v, k, 1) < 0x4000_0000,
        decreases strings@.len() - i,
    {
        let t = strings[i].as_str();
        let n = t.unicode_len();
        if offset >= 0x4000_0000 || n as u64 >= 0x4000_0000 {
            assert(!((strings@[i as int])@.len() < 0x4000_0000 && start_of(v, i as int, 1) < 0x4000_0000));
            return Err(codegen_error("string data too large"));
        }
        let ghost before = body@;
        let ghost sv = t@;
        assert(sv == v[i as int]);
        let mut k: usize = 0;
        while k < n
            invariant
                n == t@.len(),
                sv == t@,
                n < 0x4000_0000,
                offset < 0x4000_0000,
                k <= n,
                body@ + copy_bytes(sv, offset as int, k as int) == before + copy_bytes(sv, offset as int, 0),
            decreases n - k,
        {
            let ghost b0 = body@;
            emit_store_byte(&mut body, offset + k as u64, byte_of(t.get_char(k)));
            assert(body@ + copy_bytes(sv, offset as int, k + 1) =~= b0 + copy_bytes(sv, offset as int, k as int));
            k = k + 1;
        }
        emit_store_byte(&mut body, offset + n as u64, 0);
        assert(body@ + copy_strings(v, i + 1) =~= before + copy_strings(v, i as int));
        offset = offset + n as u64 + 1;
        i = i + 1;
    }
    assert(body@ =~= copy_strings(v, 0));
    push_str(out, INIT_HEAD);
    push_str(out, body.as_str());
    push_str(out, INIT_TAIL);
    Ok(())
}

/// The thunk of an iovec-walking syscall (`write` or `read`): it turns the iovec
/// and count offsets into pointers into `__mee_memory`, issues one syscall per entry,
/// adds up the bytes moved into `*n_ptr`, and returns 0 or the positive errno. A read
/// stops after the first short read: one that moves fewer bytes than its entry asks
/// for (the length is kept in `r10`, which the syscall leaves alone).
#[verifier::opaque]
pub open spec fn iovec_thunk(name: Seq<char>, label: Seq<char>, syscall: Seq<char>, stop_on_short: bool) -> Seq<char> {
    ".globl "@ + name + "\n"@ + name
        + ":\n  push rbp\n  mov rbp, rsp\n  push rbx\n  push r12\n  push r13\n"@
        + "  lea r12, [rip + __mee_memory]\n  lea rsi, [r12 + rsi]\n  lea rbx, [r12 + rcx]\n"@
        + "  mov r13, rdx\n  xor r8, r8\n  xor r9, r9\n"@
        + label + "_loop:\n  cmp r9, r13\n  jge "@ + label + "_done\n"@
        + "  mov eax, DWORD PTR [rsi + r9*8]\n  lea r10, [r12 + rax]\n  mov r11d, DWORD PTR [rsi + r9*8 + 4]\n"@
        + "  push rdi\n  push rsi\n  mov rsi, r10\n  mov rdx, r11\n  mov r10, r11\n  mov rax, "@ + syscall
        + "\n  syscall\n  pop rsi\n  pop rdi\n  test rax, rax\n  js "@ + label + "_err\n  add r8, rax\n"@
        + (if stop_on_short { "  cmp rax, r10\n  jl "@ + label + "_done\n"@ } else { seq![] })
        + "  inc r9\n  jmp "@ + label + "_loop\n"@
        + label + "_done:\n  mov DWORD PTR [rbx], r8d\n  xor eax, eax\n  pop r13\n  pop r12\n  pop rbx\n  mov rsp, rbp\n  pop rbp\n  ret\n"@
        + label + "_err:\n  mov DWORD PTR [rbx], r8d\n  neg eax\n  pop r13\n  pop r12\n  pop rbx\n  mov rsp, rbp\n  pop rbp\n  ret\n\n"@
}

/// The thunk of `__path_open`: `openat` on the path's offset, with `oflags` 0 read-only
/// and anything else write-only, created and truncated with mode 0666; the fd is
/// stored at the ninth argument's offset (the third one on the stack).
pub const PATH_OPEN_THUNK: &'static str = ".globl __mee_path_open\n__mee_path_open:\n  push rbp\n  mov rbp, rsp\n  push r12\n  lea r11, [rip + __mee_memory]\n  mov r12, QWORD PTR [rbp + 32]\n  lea r12, [r11 + r12]\n  lea r10, [r11 + rdx]\n  mov eax, 257\n  mov rsi, r10\n  cmp r8d, 0\n  jne .Lmee_open_write\n  mov edx, 0\n  jmp .Lmee_open_flags_done\n.Lmee_open_write:\n  mov edx, 577\n.Lmee_open_flags_done:\n  mov r10d, 438\n  syscall\n  test rax, rax\n  js .Lmee_open_err\n  mov DWORD PTR [r12], eax\n  xor eax, eax\n  pop r12\n  mov rsp, rbp\n  pop rbp\n  ret\n.Lmee_open_err:\n  neg eax\n  pop r12\n  mov rsp, rbp\n  pop rbp\n  ret\n\n";

/// The thunk of `__fd_close`: the `close` syscall, returning 0 or the positive errno.
pub const FD_CLOSE_THUNK: &'static str = ".globl __mee_fd_close\n__mee_fd_close:\n  mov rax, 3\n  syscall\n  test rax, rax\n  js .Lmee_close_err\n  xor eax, eax\n  ret\n.Lmee_close_err:\n  neg eax\n  ret\n\n";

/// The thunks of the I/O intrinsics that a program calls, each exactly when it is called.
pub open spec fn thunks_text(w: bool, r: bool, o: bool, c: bool) -> Seq<char> {
    (if w { iovec_thunk("__mee_fd_write"@, ".Lmee_fd_write"@, "1"@, false) } else { seq![] })
        + (if r { iovec_thunk("__mee_fd_read"@, ".Lmee_fd_read"@, "0"@, true) } else { seq![] })
        + (if o { PATH_OPEN_THUNK@ } else { seq![] })
        + (if c { FD_CLOSE_THUNK@ } else { seq![] })
}

#[verifier::spinoff_prover]
#[verifier::rlimit(100)]
fn emit_iovec_thunk(out: &mut String, name: &str, label: &str, syscall: &str, stop_on_short: bool)
    ensures
        final(out)@ == old(out)@ + iovec_thunk(name@, label@, syscall@, stop_on_short),
{
    push_str(out, ".globl ");
    push_str(out, name);
    push_str(out, "\n");
    push_str(out, name);
    push_str(out, ":\n  push rbp\n  mov rbp, rsp\n  push rbx\n  push r12\n  push r13\n");
    push_str(out, "  lea r12, [rip + __mee_memory]\n  lea rsi, [r12 + rsi]\n  lea rbx, [r12 + rcx]\n");
    push_str(out, "  mov r13, rdx\n  xor r8, r8\n  xor r9, r9\n");
    push_str(out, label);
    push_str(out, "_loop:\n  cmp r9, r13\n  jge ");
    push_str(out, label);
    push_str(out, "_done\n");
    push_str(out, "  mov eax, DWORD PTR [rsi + r9*8]\n  lea r10, [r12 + rax]\n  mov r11d, DWORD PTR [rsi + r9*8 + 4]\n");
    push_str(out, "  push rdi\n  push rsi\n  mov rsi, r10\n  mov rdx, r11\n  mov r10, r11\n  mov rax, ");
    push_str(out, syscall);
    push_str(out, "\n  syscall\n  pop rsi\n  pop rdi\n  test rax, rax\n  js ");
    push_str(out, label);
    push_str(out, "_err\n  add r8, rax\n");
    let ghost mid = out@;
    if stop_on_short {
        push_str(out, "  cmp rax, r10\n  jl ");
        push_str(out, label);
        push_str(out, "_done\n");
    }
    let ghost mid2 = out@;
    push_str(out, "  inc r9\n  jmp ");
    push_str(out, label);
    push_str(out, "_loop\n");
    push_str(out, label);
    push_str(out, "_done:\n  mov DWORD PTR [rbx], r8d\n  xor eax, eax\n  pop r13\n  pop r12\n  pop rbx\n  mov rsp, rbp\n  pop rbp\n  ret\n");
    push_str(out, label);
    push_str(out, "_err:\n  mov DWORD PTR [rbx], r8d\n  neg eax\n  pop r13\n  pop r12\n  pop rbx\n  mov rsp, rbp\n  pop rbp\n  ret\n\n");
    assert(mid2 =~= mid + (if stop_on_short { "  cmp rax, r10\n  jl "@ + label@ + "_done\n"@ } else { seq![] }));
    proof { reveal(iovec_thunk); }
    assert(out@ =~= old(out)@ + iovec_thunk(name@, label@, syscall@, stop_on_short));
}

/// Writes the thunks of the I/O intrinsics that the program uses: each takes its
/// arguments as linear-memory offsets and issues the Linux syscall (`write` 1,
/// `read` 0, `openat` 257, `close` 3).
fn emit_x86_64_intrinsic_helpers(needs_fd_write: bool, needs_fd_read: bool, needs_path_open: bool, needs_fd_close: bool, out: &mut String)
    ensures
        final(out)@ == old(out)@ + thunks_text(needs_fd_write, needs_fd_read, needs_path_open, needs_fd_close),
{
    let ghost o = out@;
    if needs_fd_write {
        emit_iovec_thunk(out, "__mee_fd_write", ".Lmee_fd_write", "1", false);
    }
    let ghost a = out@;
    if needs_fd_read {
        emit_iovec_thunk(out, "__mee_fd_read", ".Lmee_fd_read", "0", true);
    }
    let ghost b = out@;
    if needs_path_open {
        push_str(out, PATH_OPEN_THUNK);
    }
    let ghost c = out@;
    if needs_fd_close {
        push_str(out, FD_CLOSE_THUNK);
    }
    assert(a =~= o + (if needs_fd_write { iovec_thunk("__mee_fd_write"@, ".Lmee_fd_write"@, "1"@, false) } else { seq![] }));
    assert(b =~= a + (if needs_fd_read { iovec_thunk("__mee_fd_read"@, ".Lmee_fd_read"@, "0"@, true) } else { seq![] }));
    assert(out@ =~= o + thunks_text(needs_fd_write, needs_fd_read, needs_path_open, needs_fd_close));
}

/// The start of an assembly file.
pub const X86_HEADER: &'static str = ".intel_syntax noprefix\n";

/// The emulated linear memory (80 MiB) and its one-time initialization flag, then
/// the start of the code.
pub const X86_BSS: &'static str = ".section .bss\n.align 16\n.globl __mee_memory\n__mee_memory:\n  .zero 83886080\n.globl __mee_mem_inited\n__mee_mem_inited:\n  .zero 4\n.text\n";

/// Every string and every offset of the x86-64 layout (a zero byte after each string)
/// stays below 1 GiB.
pub open spec fn x86_strings_fit(v: Seq<Seq<char>>) -> bool {
    forall|k: int| 0 <= k < v.len() ==> (#[trigger] v[k]).len() < 0x4000_0000 && start_of(v, k, 1) < 0x4000_0000
}

/// The offsets of the strings in the emulated linear memory.
pub open spec fn x86_offsets(v: Seq<Seq<char>>) -> Seq<(Seq<char>, i64)> {
    Seq::new(v.len(), |k: int| (v[k], start_of(v, k, 1) as i64))
}

/// The bytes of a string from its `k`-th character on, each followed by `, `.
pub open spec fn rodata_bytes(s: Seq<char>, k: int) -> Seq<char>
    decreases s.len() - k,
{
    if k < 0 || k >= s.len() {
        seq![]
    } else {
        decimal(byte_val(s[k]) as nat) + ", "@ + rodata_bytes(s, k + 1)
    }
}

/// The `.rodata` entry of string `i`: its label and its bytes with a zero byte.
pub open spec fn rodata_item(v: Seq<Seq<char>>, i: int) -> Seq<char> {
    ".Lstr_"@ + decimal(i as nat) + ":\n  .byte "@ + rodata_bytes(v[i], 0) + "0\n"@
}

pub open spec fn rodata_items(v: Seq<Seq<char>>, i: int) -> Seq<char>
    decreases v.len() - i,
{
    if i < 0 || i >= v.len() { seq![] } else { rodata_item(v, i) + rodata_items(v, i + 1) }
}

/// The `.rodata` section of the strings, when there are any.
pub open spec fn rodata_text(v: Seq<Seq<char>>) -> Seq<char> {
    if v.len() == 0 { seq![] } else { ".section .rodata\n"@ + rodata_items(v, 0) }
}

/// The functions' texts from the `k`-th on, label numbers running on from `labels`.
pub open spec fn x86_fns_text(p: Program, offs: Seq<(Seq<char>, i64)>, k: int, labels: u64) -> Option<Seq<char>>
    decreases p.functions@.len() - k,
{
    if k < 0 || k >= p.functions@.len() {
        Some(seq![])
    } else {
        match x86_fn_text(p.functions@[k], p, offs, labels) {
            Some((t, l)) => match x86_fns_text(p, offs, k + 1, l) {
                Some(rest) => Some(t + rest),
                None => None,
            },
            None => None,
        }
    }
}

/// The memory initializer, when there are strings.
pub open spec fn mem_init_text(v: Seq<Seq<char>>) -> Seq<char> {
    if v.len() == 0 { seq![] } else { INIT_HEAD@ + copy_strings(v, 0) + INIT_TAIL@ }
}

/// Lowers a program to Intel-syntax x86-64 assembly for Linux: its strings in
/// `.rodata`, the emulated linear memory, the memory initializer when there are
/// strings, the thunks of exactly the I/O intrinsics it calls, and its functions.
pub fn emit_x86_64_asm(prog: &Program) -> (r: Result<String, CodegenError>)
    ensures
        r is Ok <==> x86_strings_fit(string_table(*prog))
            && x86_fns_text(*prog, x86_offsets(string_table(*prog)), 0, 0) is Some,
        r matches Ok(t) ==> t@ == X86_HEADER@ + rodata_text(string_table(*prog)) + X86_BSS@ + mem_init_text(string_table(*prog))
            + thunks_text(
                program_uses(*prog, Usage::FdWrite),
                program_uses(*prog, Usage::FdRead),
                program_uses(*prog, Usage::PathOpen),
                program_uses(*prog, Usage::FdClose),
            ) + x86_fns_text(*prog, x86_offsets(string_table(*prog)), 0, 0)->0,
{
    let strings = collect_strings_from_program(prog);
    let ghost v = views(strings@);
    assert(strings@.len() == views(strings@).len());
    assert forall|i: int| 0 <= i < strings@.len() implies (#[trigger] strings@[i])@ == v[i] by {}
    let needs_fd_write = program_uses_exec(prog, Usage::FdWrite);
    let needs_fd_read = program_uses_exec(prog, Usage::FdRead);
    let needs_path_open = program_uses_exec(prog, Usage::PathOpen);
    let needs_fd_close = program_uses_exec(prog, Usage::FdClose);
    let mut rodata = String::new();
    if strings.len() > 0 {
        push_str(&mut rodata, ".section .rodata\n");
        let ghost r0 = rodata@;
        let mut i: usize = 0;
        while i < strings.len()
            invariant
                i <= strings@.len() == v.len(),
                v == views(strings@),
                rodata@ + rodata_items(v, i as int) == r0 + rodata_items(v, 0),
            decreases strings@.len() - i,
        {
            let ghost rb = rodata@;
            let mut item = String::new();
            push_str(&mut item, ".Lstr_");
            push_nat(&mut item, i as u64);
            push_str(&mut item, ":\n  .byte ");
            let t = strings[i].as_str();
            let n = t.unicode_len();
            let ghost sv = t@;
            assert(sv == v[i as int]);
            let mut bytes = String::new();
            let mut k: usize = 0;
            while k < n
                invariant
                    n == t@.len(),
                    sv == t@,
                    k <= n,
                    bytes@ + rodata_bytes(sv, k as int) == rodata_bytes(sv, 0),
                decreases n - k,
            {
                let ghost b0 = bytes@;
                push_nat(&mut bytes, byte_of(t.get_char(k)));
                push_str(&mut bytes, ", ");
                assert(bytes@ + rodata_bytes(sv, k + 1) =~= b0 + rodata_bytes(sv, k as int));
                k = k + 1;
            }
            assert(bytes@ =~= rodata_bytes(sv, 0));
            push_str(&mut item, bytes.as_str());
            push_str(&mut item, "0\n");
            assert(item@ =~= rodata_item(v, i as int));
            push_str(&mut rodata, item.as_str());
            assert(rodata@ + rodata_items(v, i + 1) =~= rb + rodata_items(v, i as int));
            i = i + 1;
        }
        assert(rodata@ =~= rodata_text(v));
    } else {
        assert(rodata@ =~= rodata_text(v));
    }
    let mut init = String::new();
    if strings.len() > 0 {
        emit_x86_64_memory_init_helper(&strings, &mut init)?;
        assert(init@ =~= mem_init_text(v));
    } else {
        assert(init@ =~= mem_init_text(v));
    }
    let offsets = match string_offsets(&strings, 1) {
        Some(t) => t,
        None => {
            return Err(codegen_error("string data too large"));
        },
    };
    assert(lnames(offsets@) =~= x86_offsets(v));
    let ghost offs = lnames(offsets@);
    let mut fns = String::new();
    let mut labels: u64 = 0;
    let mut i: usize = 0;
    while i < prog.functions.len()
        invariant
            i <= prog.functions@.len(),
            offs == lnames(offsets@),
            offs == x86_offsets(v),
            v == string_table(*prog),
            match x86_fns_text(*prog, offs, 0, 0) {
                Some(t) => x86_fns_text(*prog, offs, i as int, labels) matches Some(rest) && t == fns@ + rest,
                None => x86_fns_text(*prog, offs, i as int, labels) is None,
            },
        decreases prog.functions@.len() - i,
    {
        let ghost f0 = fns@;
        let ghost l0 = labels;
        emit_function_x86_64_with_strings(&prog.functions[i], prog, &offsets, &mut labels, &mut fns)?;
        proof {
            if let Some(t) = x86_fns_text(*prog, offs, 0, 0) {
                let piece = x86_fn_text(prog.functions@[i as int], *prog, offs, l0).unwrap().0;
                let rest = x86_fns_text(*prog, offs, i + 1, labels)->0;
                assert(f0 + (piece + rest) =~= fns@ + rest);
            }
        }
        i = i + 1;
    }
    assert(fns@ =~= x86_fns_text(*prog, offs, 0, 0)->0);
    let mut out = string_from(X86_HEADER);
    push_str(&mut out, rodata.as_str());
    push_str(&mut out, X86_BSS);
    push_str(&mut out, init.as_str());
    emit_x86_64_intrinsic_helpers(needs_fd_write, needs_fd_read, needs_path_open, needs_fd_close, &mut out);
    push_str(&mut out, fns.as_str());
    assert(out@ =~= X86_HEADER@ + rodata@ + X86_BSS@ + init@ + thunks_text(needs_fd_write, needs_fd_read, needs_path_open, needs_fd_close) + fns@);
    Ok(out)
}

} // verus!
