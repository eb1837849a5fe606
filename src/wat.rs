use vstd::prelude::*;
use crate::ast::{is_scalar_type, BinOp, Block, Expr, Function, Param, Program, Stmt, Type};
use crate::intrinsics::{arity_of, intrinsic_of, lookup_intrinsic, Intrinsic};
use crate::layout::{
    codegen_error, codegen_error_on, field_local_name, field_slot_name, find_init, find_init_index, flat_args_from, flatten_call_args, lemma_slot_of_v, lnames, lookup_slot, require_slot, slot_of, slot_of_v,
    struct_index, CodegenError, FlatArg,
};
use crate::strings::{collect_strings_from_program, start_of, string_offsets, string_table, views};
use crate::text::{decimal, digit, int_text, push_char, push_int, push_str, string_is};
use crate::typecheck::{env_lookup, find_fn, find_fn_index, find_struct, lookup_var};
use crate::usage::{program_uses, program_uses_exec, Usage};

verus! {

broadcast use vstd::std_specs::vec::group_vec_axioms;

/// The linear-memory address of the scratch area where a struct-returning callee
/// stores its fields.
pub const STRUCT_RET_SCRATCH_BASE: i64 = 65536;

/// What a function body is lowered against: the program, the slots of its locals,
/// the types of its variables, and the offsets of the interned strings.
struct WatFn<'a> {
    prog: &'a Program,
    locals: Vec<(String, i64)>,
    var_types: Vec<(String, Type)>,
    string_offsets: &'a Vec<(String, i64)>,
    sret: Option<i64>,
}

/// An instruction with an integer operand, on a line of its own.
pub open spec fn wline(instr: Seq<char>, n: int) -> Seq<char> {
    "  "@ + instr + " "@ + int_text(n) + "\n"@
}

/// Both texts, where both exist.
pub open spec fn cat(a: Option<Seq<char>>, b: Option<Seq<char>>) -> Option<Seq<char>> {
    match (a, b) {
        (Some(x), Some(y)) => Some(x + y),
        _ => None,
    }
}

/// The text after `a`, where `a` exists.
pub open spec fn then_text(a: Option<Seq<char>>, t: Seq<char>) -> Option<Seq<char>> {
    match a {
        Some(x) => Some(x + t),
        None => None,
    }
}

/// The instruction that combines the two operands of a binary operator.
pub open spec fn wat_binop(op: BinOp) -> Seq<char> {
    match op {
        BinOp::Add => "  i32.add\n"@,
        BinOp::Sub => "  i32.sub\n"@,
        BinOp::Mul => "  i32.mul\n"@,
        BinOp::Div => "  i32.div_s\n"@,
        BinOp::Lt => "  i32.lt_s\n"@,
        BinOp::Gt => "  i32.gt_s\n"@,
        BinOp::LtEq => "  i32.le_s\n"@,
        BinOp::GtEq => "  i32.ge_s\n"@,
        BinOp::Eq => "  i32.eq\n"@,
        BinOp::NotEq => "  i32.ne\n"@,
        BinOp::And => "  i32.mul\n"@,
        BinOp::Or => "  i32.add\n  i32.const 0\n  i32.ne\n"@,
    }
}

/// After each operand of `&&` and `||`: the operand made 0 or 1.
pub open spec fn wat_norm(op: BinOp) -> Seq<char> {
    if op is And || op is Or { "  i32.const 0\n  i32.ne\n"@ } else { seq![] }
}

fn push_line(out: &mut String, instr: &str, n: i64)
    ensures
        final(out)@ == old(out)@ + wline(instr@, n as int),
{
    push_str(out, "  ");
    push_str(out, instr);
    push_str(out, " ");
    push_int(out, n);
    push_str(out, "\n");
    assert(out@ =~= old(out)@ + wline(instr@, n as int));
}

/// What a function body is lowered against, as values: the program, the local slots,
/// the variable types, the string offsets, and the struct-return pointer's slot.
pub struct WCtx {
    pub prog: Program,
    pub locals: Seq<(Seq<char>, i64)>,
    pub vars: Seq<(String, Type)>,
    pub offsets: Seq<(Seq<char>, i64)>,
    pub sret: Option<i64>,
}

/// The instructions that push the value of `e`, or `None` where the lowering
/// does not support it.
pub open spec fn expr_text(c: WCtx, e: Expr) -> Option<Seq<char>>
    decreases e, 0nat, 0nat,
{
    match e {
        Expr::Int(v) => Some(wline("i32.const"@, v as int)),
        Expr::Char(c) => Some(wline("i32.const"@, c as u32 as int)),
        Expr::Bool(b) => Some(wline("i32.const"@, if b { 1 } else { 0 })),
        Expr::StringLit(s) => Some(wline("i32.const"@, match slot_of_v(c.offsets, s@) {
            Some(o) => o as int,
            None => 0,
        })),
        Expr::Ident(n) => match slot_of_v(c.locals, n@) {
            Some(k) => Some(wline("local.get"@, k as int)),
            None => None,
        },
        Expr::Unary { op, expr } => then_text(expr_text(c, *expr), "  i32.const 0\n  i32.eq\n"@),
        Expr::Binary { op, left, right } => then_text(
            cat(then_text(expr_text(c, *left), wat_norm(op)), then_text(expr_text(c, *right), wat_norm(op))),
            wat_binop(op),
        ),
        Expr::Call { callee, args } => call_text(c, callee, args),
        Expr::FieldAccess { expr, field } => match *expr {
            Expr::Ident(name) => match env_lookup(c.vars, name@) {
                Some(Type::Struct(_)) => match slot_of_v(c.locals, field_slot_name(name@, field@)) {
                    Some(k) => Some(wline("local.get"@, k as int)),
                    None => None,
                },
                _ => None,
            },
            _ => None,
        },
        Expr::StructInit { .. } => None,
    }
}

/// The arguments from the `k`-th on, each pushed in turn; after the sixth and
/// seventh of `__path_open` (its 64-bit rights) a widening.
pub open spec fn args_text(c: WCtx, args: Seq<Expr>, k: int, widen: bool) -> Option<Seq<char>>
    decreases args, 1nat, args.len() - k,
{
    if k < 0 || k >= args.len() {
        Some(seq![])
    } else {
        cat(
            then_text(expr_text(c, args[k]), if widen && (k == 5 || k == 6) { "  i64.extend_i32_u\n"@ } else { seq![] }),
            args_text(c, args, k + 1, widen),
        )
    }
}

/// The instructions that push one scalar of a flattened argument list.
pub open spec fn flat_text(c: WCtx, args: Vec<Expr>, a: FlatArg, ps: Seq<Param>) -> Option<Seq<char>>
    decreases args, 1nat, 0nat,
{
    match a {
        FlatArg::Scalar(i) => if i < args@.len() { expr_text(c, args@[i as int]) } else { None },
        FlatArg::Field(i, j) => if i < args@.len() && i < ps.len() {
            match (args@[i as int], ps[i as int].ty) {
                (Expr::Ident(v), Type::Struct(sn)) => match find_struct(c.prog.structs@, c.prog.structs@.len() as int, sn@) {
                    Some(si) => if j < c.prog.structs@[si].fields@.len() {
                        match slot_of_v(c.locals, field_slot_name(v@, c.prog.structs@[si].fields@[j as int].name@)) {
                            Some(k) => Some(wline("local.get"@, k as int)),
                            None => None,
                        }
                    } else {
                        None
                    },
                    None => None,
                },
                _ => None,
            }
        } else {
            None
        },
        FlatArg::Init(i, k) => if i < args@.len() {
            match args@[i as int] {
                Expr::StructInit { name, fields } => if k < fields@.len() { expr_text(c, fields@[k as int].1) } else { None },
                _ => None,
            }
        } else {
            None
        },
    }
}

pub open spec fn flats_text(c: WCtx, args: Vec<Expr>, flat: Seq<FlatArg>, ps: Seq<Param>, k: int) -> Option<Seq<char>>
    decreases args, 2nat, flat.len() - k,
{
    if k < 0 || k >= flat.len() {
        Some(seq![])
    } else {
        cat(flat_text(c, args, flat[k], ps), flats_text(c, args, flat, ps, k + 1))
    }
}

/// The instructions of a call in a scalar context.
pub open spec fn call_text(c: WCtx, callee: String, args: Vec<Expr>) -> Option<Seq<char>>
    decreases args, 4nat, 0nat,
{
    match intrinsic_of(callee@) {
        Some(k) => if args@.len() != arity_of(k) {
            None
        } else {
            match k {
                Intrinsic::MemLoad => then_text(expr_text(c, args@[0]), "  i32.load\n"@),
                Intrinsic::MemLoad8 => then_text(expr_text(c, args@[0]), "  i32.load8_u\n"@),
                Intrinsic::MemStore => then_text(args_text(c, args@, 0, false), "  i32.store\n  i32.const 0\n"@),
                Intrinsic::MemStore8 => then_text(args_text(c, args@, 0, false), "  i32.store8\n  i32.const 0\n"@),
                Intrinsic::FdWrite => then_text(args_text(c, args@, 0, false), "  call $__fd_write\n"@),
                Intrinsic::FdRead => then_text(args_text(c, args@, 0, false), "  call $__fd_read\n"@),
                Intrinsic::PathOpen => then_text(args_text(c, args@, 0, true), "  call $__path_open\n"@),
                Intrinsic::FdClose => then_text(expr_text(c, args@[0]), "  call $__fd_close\n"@),
            }
        },
        None => match find_fn(c.prog.functions@, c.prog.functions@.len() as int, callee@) {
            Some(fi) => {
                let f = c.prog.functions@[fi];
                if f.ret is Struct {
                    None
                } else {
                    match flat_args_from(args@, f.params@, c.prog, 0) {
                        Some(flat) => then_text(flats_text(c, args, flat, f.params@, 0), "  call $"@ + callee@ + "\n"@),
                        None => None,
                    }
                }
            },
            None => then_text(args_text(c, args@, 0, false), "  call $"@ + callee@ + "\n"@),
        },
    }
}

/// Stores the initializers of a struct literal into the field slots of `dst`, in
/// declaration order, from the `j`-th field on.
pub open spec fn init_text(c: WCtx, dst: Seq<char>, fields: Seq<Param>, inits: Vec<(String, Expr)>, j: int) -> Option<Seq<char>>
    decreases inits, 1nat, fields.len() - j,
{
    if j < 0 || j >= fields.len() {
        Some(seq![])
    } else {
        cat(
            match find_init(inits@, 0, fields[j].name@) {
                Some(k) => cat(expr_text(c, inits@[k].1), set_text(c.locals, field_slot_name(dst, fields[j].name@))),
                None => None,
            },
            init_text(c, dst, fields, inits, j + 1),
        )
    }
}

/// Writes the initializers of a struct literal through the return pointer, in
/// declaration order, from the `j`-th field on.
pub open spec fn sret_init_text(c: WCtx, sret: i64, fields: Seq<Param>, inits: Vec<(String, Expr)>, j: int) -> Option<Seq<char>>
    decreases inits, 1nat, fields.len() - j,
{
    if j < 0 || j >= fields.len() {
        Some(seq![])
    } else {
        cat(
            match find_init(inits@, 0, fields[j].name@) {
                Some(k) => then_text(
                    cat(Some(wline("local.get"@, sret as int) + wline("i32.const"@, 4 * j) + "  i32.add\n"@), expr_text(c, inits@[k].1)),
                    "  i32.store\n"@,
                ),
                None => None,
            },
            sret_init_text(c, sret, fields, inits, j + 1),
        )
    }
}

/// The instructions that store `expr` into variable `name` of type `ty`.
pub open spec fn store_text(c: WCtx, name: Seq<char>, ty: Type, expr: Expr) -> Option<Seq<char>>
    decreases expr, 5nat, 0nat,
{
    match ty {
        Type::I32 | Type::Char | Type::Bool => cat(expr_text(c, expr), set_text(c.locals, name)),
        Type::Struct(sname) => match find_struct(c.prog.structs@, c.prog.structs@.len() as int, sname@) {
            Some(si) => {
                let fields = c.prog.structs@[si].fields@;
                match expr {
                    Expr::StructInit { name: iname, fields: inits } => if iname@ != sname@ {
                        None
                    } else {
                        init_text(c, name, fields, inits, 0)
                    },
                    Expr::Ident(src) => copy_text(c.locals, name, src@, fields, 0),
                    Expr::Call { callee, args } => match find_fn(c.prog.functions@, c.prog.functions@.len() as int, callee@) {
                        Some(fi) => {
                            let f = c.prog.functions@[fi];
                            if !(f.ret is Struct) || fields.len() >= 1000000 {
                                None
                            } else {
                                match flat_args_from(args@, f.params@, c.prog, 0) {
                                    Some(flat) => cat(
                                        then_text(cat(Some(wline("i32.const"@, STRUCT_RET_SCRATCH_BASE as int)),
                                            flats_text(c, args, flat, f.params@, 0)), "  call $"@ + callee@ + "\n"@),
                                        readback_text(c.locals, name, fields, 0),
                                    ),
                                    None => None,
                                }
                            }
                        },
                        None => None,
                    },
                    _ => None,
                }
            },
            None => None,
        },
        _ => None,
    }
}

/// The instructions that return a struct through the return pointer.
pub open spec fn sret_text(c: WCtx, sret: i64, expr: Expr) -> Option<Seq<char>>
    decreases expr, 5nat, 0nat,
{
    match expr {
        Expr::StructInit { name, fields: inits } => match find_struct(c.prog.structs@, c.prog.structs@.len() as int, name@) {
            Some(si) => if c.prog.structs@[si].fields@.len() >= 1000000 {
                None
            } else {
                sret_init_text(c, sret, c.prog.structs@[si].fields@, inits, 0)
            },
            None => None,
        },
        Expr::Ident(src) => match env_lookup(c.vars, src@) {
            Some(Type::Struct(sn)) => match find_struct(c.prog.structs@, c.prog.structs@.len() as int, sn@) {
                Some(si) => if c.prog.structs@[si].fields@.len() >= 1000000 {
                    None
                } else {
                    sret_copy_text(c.locals, sret, src@, c.prog.structs@[si].fields@, 0)
                },
                None => None,
            },
            _ => None,
        },
        _ => None,
    }
}

/// Whether evaluating `e` as a statement leaves a value to drop: everything but a
/// call of a user function that returns no scalar.
pub open spec fn leaves_value(c: WCtx, e: Expr) -> bool {
    match e {
        Expr::Call { callee, args } => if intrinsic_of(callee@) is Some {
            true
        } else {
            match find_fn(c.prog.functions@, c.prog.functions@.len() as int, callee@) {
                Some(fi) => is_scalar_type(c.prog.functions@[fi].ret),
                None => true,
            }
        },
        _ => true,
    }
}

/// The instructions of a statement, and the next free loop label after it.
pub open spec fn stmt_text(c: WCtx, s: Stmt, labels: u64) -> Option<(Seq<char>, u64)>
    decreases s, 1nat, 0nat,
{
    match s {
        Stmt::Let { name, ty, expr } => match store_text(c, name@, ty, expr) {
            Some(t) => Some((t, labels)),
            None => None,
        },
        Stmt::Assign { name, expr } => match env_lookup(c.vars, name@) {
            Some(ty) => match store_text(c, name@, ty, expr) {
                Some(t) => Some((t, labels)),
                None => None,
            },
            None => None,
        },
        Stmt::FieldAssign { base, field, expr } => match env_lookup(c.vars, base@) {
            Some(Type::Struct(_)) => match cat(expr_text(c, expr), set_text(c.locals, field_slot_name(base@, field@))) {
                Some(t) => Some((t, labels)),
                None => None,
            },
            _ => None,
        },
        Stmt::If { cond, then_block, else_block } => match expr_text(c, cond) {
            Some(ct) => match block_text(c, then_block, 0, labels) {
                Some((t, l1)) => match else_block {
                    Some(eb) => match block_text(c, eb, 0, l1) {
                        Some((e, l2)) => Some((ct + "  (if\n    (then\n"@ + t + "    )\n"@ + "    (else\n"@ + e + "    )\n"@ + "  )\n"@, l2)),
                        None => None,
                    },
                    None => Some((ct + "  (if\n    (then\n"@ + t + "    )\n"@ + "  )\n"@, l1)),
                },
                None => None,
            },
            None => None,
        },
        Stmt::While { cond, body } => if labels == u64::MAX {
            None
        } else {
            let n = decimal(labels as nat);
            match (expr_text(c, cond), block_text(c, body, 0, (labels + 1) as u64)) {
                (Some(ct), Some((b, l1))) => Some((
                    "  (block $exit_"@ + n + "\n    (loop $loop_"@ + n + "\n"@ + ct + "      i32.eqz\n      br_if $exit_"@ + n + "\n"@
                        + b + "      br $loop_"@ + n + "\n    )\n  )\n"@,
                    l1,
                )),
                _ => None,
            }
        },
        Stmt::Return(expr) => match then_text(
            match c.sret {
                Some(k) => if k == i64::MIN { None } else { sret_text(c, k, expr) },
                None => expr_text(c, expr),
            },
            "  return\n"@,
        ) {
            Some(t) => Some((t, labels)),
            None => None,
        },
        Stmt::Expr(expr) => match then_text(expr_text(c, expr), if leaves_value(c, expr) { "  drop\n"@ } else { seq![] }) {
            Some(t) => Some((t, labels)),
            None => None,
        },
    }
}

/// The instructions of the statements of `b` from the `k`-th on.
pub open spec fn block_text(c: WCtx, b: Block, k: int, labels: u64) -> Option<(Seq<char>, u64)>
    decreases b, 0nat, b.statements@.len() - k,
{
    if k < 0 || k >= b.statements@.len() {
        Some((seq![], labels))
    } else {
        match stmt_text(c, b.statements@[k], labels) {
            Some((t, l)) => match block_text(c, b, k + 1, l) {
                Some((rest, l2)) => Some((t + rest, l2)),
                None => None,
            },
            None => None,
        }
    }
}

impl<'a> WatFn<'a> {
    spec fn ctx(&self) -> WCtx {
        WCtx { prog: *self.prog, locals: lnames(self.locals@), vars: self.var_types@, offsets: lnames(self.string_offsets@), sret: self.sret }
    }






    fn slot(&self, n: &String) -> (r: Result<i64, CodegenError>)
        ensures
            match slot_of_v(lnames(self.locals@), n@) {
                Some(k) => r == Ok::<i64, CodegenError>(k),
                None => r is Err,
            },
    {
        proof { lemma_slot_of_v(self.locals@, n@); }
        match lookup_slot(&self.locals, n) {
            Some(k) => Ok(k),
            None => Err(codegen_error_on("unknown local ", n)),
        }
    }

    fn var_type(&self, n: &String) -> (r: Result<Type, CodegenError>)
        ensures
            match env_lookup(self.var_types@, n@) {
                Some(t) => r matches Ok(u) && u == t,
                None => r is Err,
            },
    {
        match lookup_var(&self.var_types, n) {
            Some(t) => Ok(t),
            None => Err(codegen_error_on("unknown variable ", n)),
        }
    }

    fn emit_flat_arg(&self, args: &Vec<Expr>, a: FlatArg, ps: &Vec<Param>, out: &mut String) -> (r: Result<(), CodegenError>)
        ensures
            match flat_text(self.ctx(), *args, a, ps@) {
                Some(t) => r is Ok && final(out)@ == old(out)@ + t,
                None => r is Err,
            },
        decreases args, 1nat, 0nat,
    {
        match a {
            FlatArg::Scalar(i) => {
                if i >= args.len() {
                    return Err(codegen_error("argument index out of range"));
                }
                self.emit_expr(&args[i], out)
            },
            FlatArg::Field(i, j) => {
                if i >= args.len() || i >= ps.len() {
                    return Err(codegen_error("argument index out of range"));
                }
                match (&args[i], &ps[i].ty) {
                    (Expr::Ident(v), Type::Struct(sn)) => {
                        let si = struct_index(self.prog, sn)?;
                        if j >= self.prog.structs[si].fields.len() {
                            return Err(codegen_error("field index out of range"));
                        }
                        let slot = self.slot(&field_local_name(v, &self.prog.structs[si].fields[j].name))?;
                        push_line(out, "local.get", slot);
                        Ok(())
                    },
                    _ => Err(codegen_error("unsupported struct argument expression")),
                }
            },
            FlatArg::Init(i, k) => {
                if i >= args.len() {
                    return Err(codegen_error("argument index out of range"));
                }
                match &args[i] {
                    Expr::StructInit { fields, .. } => {
                        if k >= fields.len() {
                            return Err(codegen_error("field index out of range"));
                        }
                        self.emit_expr(&fields[k].1, out)
                    },
                    _ => Err(codegen_error("unsupported struct argument expression")),
                }
            },
        }
    }

    /// Pushes the scalars of a call's arguments, struct arguments flattened to their fields.
    fn emit_call_args(&self, args: &Vec<Expr>, ps: &Vec<Param>, out: &mut String) -> (r: Result<(), CodegenError>)
        ensures
            match flat_args_from(args@, ps@, *self.prog, 0) {
                Some(flat) => match flats_text(self.ctx(), *args, flat, ps@, 0) {
                    Some(t) => r is Ok && final(out)@ == old(out)@ + t,
                    None => r is Err,
                },
                None => r is Err,
            },
        decreases args, 3nat, 0nat,
    {
        let flat = flatten_call_args(args, ps, self.prog)?;
        let ghost o = out@;
        let mut i: usize = 0;
        while i < flat.len()
            invariant
                i <= flat@.len(),
                flat_args_from(args@, ps@, *self.prog, 0) == Some(flat@),
                match flats_text(self.ctx(), *args, flat@, ps@, 0) {
                    Some(t) => match flats_text(self.ctx(), *args, flat@, ps@, i as int) {
                        Some(rest) => t == out@.subrange(o.len() as int, out@.len() as int) + rest
                            && o.len() <= out@.len() && out@.subrange(0, o.len() as int) == o,
                        None => false,
                    },
                    None => flats_text(self.ctx(), *args, flat@, ps@, i as int) is None,
                },
            decreases flat@.len() - i,
        {
            let ghost before = out@;
            self.emit_flat_arg(args, flat[i], ps, out)?;
            proof {
                if let Some(t) = flats_text(self.ctx(), *args, flat@, ps@, 0) {
                    let piece = flat_text(self.ctx(), *args, flat@[i as int], ps@)->0;
                    let rest = flats_text(self.ctx(), *args, flat@, ps@, i + 1)->0;
                    assert(out@.subrange(o.len() as int, out@.len() as int) =~= before.subrange(o.len() as int, before.len() as int) + piece);
                    assert(out@.subrange(0, o.len() as int) =~= before.subrange(0, o.len() as int));
                }
            }
            i = i + 1;
        }
        assert(out@ =~= o + out@.subrange(o.len() as int, out@.len() as int));
        Ok(())
    }

    fn emit_args_in_order(&self, args: &Vec<Expr>, widen: bool, out: &mut String) -> (r: Result<(), CodegenError>)
        ensures
            match args_text(self.ctx(), args@, 0, widen) {
                Some(t) => r is Ok && final(out)@ == old(out)@ + t,
                None => r is Err,
            },
        decreases args, 2nat, 0nat,
    {
        let ghost o = out@;
        let mut i: usize = 0;
        while i < args.len()
            invariant
                i <= args@.len(),
                match args_text(self.ctx(), args@, 0, widen) {
                    Some(t) => match args_text(self.ctx(), args@, i as int, widen) {
                        Some(rest) => t == out@.subrange(o.len() as int, out@.len() as int) + rest
                            && o.len() <= out@.len() && out@.subrange(0, o.len() as int) == o,
                        None => false,
                    },
                    None => args_text(self.ctx(), args@, i as int, widen) is None,
                },
            decreases args@.len() - i,
        {
            let ghost before = out@;
            self.emit_expr(&args[i], out)?;
            if widen && (i == 5 || i == 6) {
                push_str(out, "  i64.extend_i32_u\n");
            }
            proof {
                if let Some(t) = args_text(self.ctx(), args@, 0, widen) {
                    let piece = expr_text(self.ctx(), args@[i as int])->0 + if widen && (i == 5 || i == 6) { "  i64.extend_i32_u\n"@ } else { seq![] };
                    assert(out@.subrange(o.len() as int, out@.len() as int) =~= before.subrange(o.len() as int, before.len() as int) + piece);
                    assert(out@.subrange(0, o.len() as int) =~= before.subrange(0, o.len() as int));
                }
            }
            i = i + 1;
        }
        assert(out@ =~= o + out@.subrange(o.len() as int, out@.len() as int));
        Ok(())
    }

    #[verifier::spinoff_prover]
    fn emit_expr(&self, e: &Expr, out: &mut String) -> (r: Result<(), CodegenError>)
        ensures
            match expr_text(self.ctx(), *e) {
                Some(t) => r is Ok && final(out)@ == old(out)@ + t,
                None => r is Err,
            },
        decreases e, 0nat, 0nat,
    {
        let ghost o = out@;
        match e {
            Expr::Int(v) => {
                push_line(out, "i32.const", *v as i64);
                Ok(())
            },
            Expr::Char(c) => {
                push_line(out, "i32.const", *c as u32 as i64);
                Ok(())
            },
            Expr::Bool(b) => {
                push_line(out, "i32.const", if *b { 1 } else { 0 });
                Ok(())
            },
            Expr::StringLit(s) => {
                proof { lemma_slot_of_v(self.string_offsets@, s@); }
                let off = match lookup_slot(self.string_offsets, s) {
                    Some(o) => o,
                    None => 0,
                };
                push_line(out, "i32.const", off);
                Ok(())
            },
            Expr::Ident(n) => {
                let slot = self.slot(n)?;
                push_line(out, "local.get", slot);
                Ok(())
            },
            Expr::Binary { op, left, right } => {
                self.emit_expr(left, out)?;
                push_str(out, norm_text(*op));
                let ghost mid = out@;
                self.emit_expr(right, out)?;
                push_str(out, norm_text(*op));
                emit_binop(*op, out);
                assert(out@ =~= o + (expr_text(self.ctx(), **left)->0 + wat_norm(*op)) + (expr_text(self.ctx(), **right)->0 + wat_norm(*op)) + wat_binop(*op));
                Ok(())
            },
            Expr::Unary { expr, .. } => {
                self.emit_expr(expr, out)?;
                push_str(out, "  i32.const 0\n  i32.eq\n");
                Ok(())
            },
            Expr::Call { callee, args } => self.emit_call(callee, args, out),
            Expr::FieldAccess { expr, field } => match &**expr {
                Expr::Ident(name) => {
                    let ty = self.var_type(name)?;
                    if !matches!(ty, Type::Struct(_)) {
                        return Err(codegen_error_on("field access on non-struct ", name));
                    }
                    let slot = self.slot(&field_local_name(name, field))?;
                    push_line(out, "local.get", slot);
                    Ok(())
                },
                _ => Err(codegen_error("field access only supported on identifiers")),
            },
            Expr::StructInit { .. } => Err(codegen_error("struct literal outside let, assignment, return or argument")),
        }
    }

    #[verifier::spinoff_prover]
    fn emit_call(&self, callee: &String, args: &Vec<Expr>, out: &mut String) -> (r: Result<(), CodegenError>)
        ensures
            match call_text(self.ctx(), *callee, *args) {
                Some(t) => r is Ok && final(out)@ == old(out)@ + t,
                None => r is Err,
            },
        decreases args, 4nat, 0nat,
    {
        let ghost o = out@;
        match lookup_intrinsic(callee) {
            Some(k) => {
                if args.len() != k.arity() {
                    return Err(codegen_error_on("wrong number of arguments to ", callee));
                }
                match k {
                    Intrinsic::MemLoad => {
                        self.emit_expr(&args[0], out)?;
                        push_str(out, "  i32.load\n");
                    },
                    Intrinsic::MemLoad8 => {
                        self.emit_expr(&args[0], out)?;
                        push_str(out, "  i32.load8_u\n");
                    },
                    Intrinsic::MemStore => {
                        self.emit_args_in_order(args, false, out)?;
                        push_str(out, "  i32.store\n  i32.const 0\n");
                    },
                    Intrinsic::MemStore8 => {
                        self.emit_args_in_order(args, false, out)?;
                        push_str(out, "  i32.store8\n  i32.const 0\n");
                    },
                    Intrinsic::FdWrite => {
                        self.emit_args_in_order(args, false, out)?;
                        push_str(out, "  call $__fd_write\n");
                    },
                    Intrinsic::FdRead => {
                        self.emit_args_in_order(args, false, out)?;
                        push_str(out, "  call $__fd_read\n");
                    },
                    Intrinsic::PathOpen => {
                        self.emit_args_in_order(args, true, out)?;
                        push_str(out, "  call $__path_open\n");
                    },
                    Intrinsic::FdClose => {
                        self.emit_expr(&args[0], out)?;
                        push_str(out, "  call $__fd_close\n");
                    },
                }
                Ok(())
            },
            None => {
                match find_fn_index(self.prog, callee) {
                    Some(fi) => {
                        let f = &self.prog.functions[fi];
                        if matches!(f.ret, Type::Struct(_)) {
                            return Err(codegen_error_on("struct-return call is not valid in scalar expression context: ", callee));
                        }
                        self.emit_call_args(args, &f.params, out)?;
                    },
                    None => {
                        self.emit_args_in_order(args, false, out)?;
                    },
                }
                let ghost mid = out@;
                push_str(out, "  call $");
                push_str(out, callee.as_str());
                push_str(out, "\n");
                assert(out@ =~= mid + ("  call $"@ + callee@ + "\n"@));
                Ok(())
            },
        }
    }
}

fn norm_text(op: BinOp) -> (r: &'static str)
    ensures
        r@ == wat_norm(op),
{
    proof { reveal_strlit(""); }
    assert(""@ =~= Seq::<char>::empty());
    match op {
        BinOp::And | BinOp::Or => "  i32.const 0\n  i32.ne\n",
        _ => "",
    }
}

fn emit_binop(op: BinOp, out: &mut String)
    ensures
        final(out)@ == old(out)@ + wat_binop(op),
{
    match op {
        BinOp::Add => push_str(out, "  i32.add\n"),
        BinOp::Sub => push_str(out, "  i32.sub\n"),
        BinOp::Mul => push_str(out, "  i32.mul\n"),
        BinOp::Div => push_str(out, "  i32.div_s\n"),
        BinOp::Lt => push_str(out, "  i32.lt_s\n"),
        BinOp::Gt => push_str(out, "  i32.gt_s\n"),
        BinOp::LtEq => push_str(out, "  i32.le_s\n"),
        BinOp::GtEq => push_str(out, "  i32.ge_s\n"),
        BinOp::Eq => push_str(out, "  i32.eq\n"),
        BinOp::NotEq => push_str(out, "  i32.ne\n"),
        BinOp::And => push_str(out, "  i32.mul\n"),
        BinOp::Or => push_str(out, "  i32.add\n  i32.const 0\n  i32.ne\n"),
    }
}

/// The instruction that sets local `n`, where it has a slot.
pub open spec fn set_text(locals: Seq<(Seq<char>, i64)>, n: Seq<char>) -> Option<Seq<char>> {
    match slot_of_v(locals, n) {
        Some(k) => Some(wline("local.set"@, k as int)),
        None => None,
    }
}

/// The instruction that gets local `n`, where it has a slot.
pub open spec fn get_text(locals: Seq<(Seq<char>, i64)>, n: Seq<char>) -> Option<Seq<char>> {
    match slot_of_v(locals, n) {
        Some(k) => Some(wline("local.get"@, k as int)),
        None => None,
    }
}

/// Copies struct `src` field by field into struct `dst`, from the `j`-th field on.
pub open spec fn copy_text(locals: Seq<(Seq<char>, i64)>, dst: Seq<char>, src: Seq<char>, fields: Seq<Param>, j: int) -> Option<Seq<char>>
    decreases fields.len() - j,
{
    if j < 0 || j >= fields.len() {
        Some(seq![])
    } else {
        cat(cat(get_text(locals, field_slot_name(src, fields[j].name@)), set_text(locals, field_slot_name(dst, fields[j].name@))),
            copy_text(locals, dst, src, fields, j + 1))
    }
}

/// Reads a struct result back from the scratch area into the field slots of `dst`,
/// field `j` from byte `4 * j`, from the `j`-th field on.
pub open spec fn readback_text(locals: Seq<(Seq<char>, i64)>, dst: Seq<char>, fields: Seq<Param>, j: int) -> Option<Seq<char>>
    decreases fields.len() - j,
{
    if j < 0 || j >= fields.len() {
        Some(seq![])
    } else {
        cat(cat(Some(wline("i32.const"@, STRUCT_RET_SCRATCH_BASE + 4 * j) + "  i32.load\n"@),
            set_text(locals, field_slot_name(dst, fields[j].name@))),
            readback_text(locals, dst, fields, j + 1))
    }
}

/// Writes struct variable `src` through the return pointer, field `j` at byte `4 * j`,
/// from the `j`-th field on.
pub open spec fn sret_copy_text(locals: Seq<(Seq<char>, i64)>, sret: i64, src: Seq<char>, fields: Seq<Param>, j: int) -> Option<Seq<char>>
    decreases fields.len() - j,
{
    if j < 0 || j >= fields.len() {
        Some(seq![])
    } else {
        cat(
            then_text(cat(Some(wline("local.get"@, sret as int) + wline("i32.const"@, 4 * j) + "  i32.add\n"@),
                get_text(locals, field_slot_name(src, fields[j].name@))), "  i32.store\n"@),
            sret_copy_text(locals, sret, src, fields, j + 1),
        )
    }
}

impl<'a> WatFn<'a> {






    /// Stores the value of `expr` into the variable `name` of type `ty`: one slot for a
    /// scalar, the field slots in declaration order for a struct.
    #[verifier::spinoff_prover]
    #[verifier::rlimit(100)]
    fn emit_store(&self, name: &String, ty: &Type, expr: &Expr, out: &mut String) -> (r: Result<(), CodegenError>)
        ensures
            match store_text(self.ctx(), name@, *ty, *expr) {
                Some(t) => r is Ok && final(out)@ == old(out)@ + t,
                None => r is Err,
            },
        decreases expr, 5nat, 0nat,
    {
        let ghost o = out@;
        match ty {
            Type::I32 | Type::Char | Type::Bool => {
                self.emit_expr(expr, out)?;
                let slot = self.slot(name)?;
                push_line(out, "local.set", slot);
                Ok(())
            },
            Type::Struct(sname) => {
                let si = struct_index(self.prog, sname)?;
                let fields = &self.prog.structs[si].fields;
                match expr {
                    Expr::StructInit { name: init_name, fields: inits } => {
                        if !crate::text::string_eq(init_name, sname) {
                            return Err(codegen_error_on("struct init type mismatch: ", init_name));
                        }
                        self.emit_inits(name, fields, inits, out)
                    },
                    Expr::Ident(src) => emit_copy(&self.locals, name, src, fields, out),
                    Expr::Call { callee, args } => {
                        let fi = match find_fn_index(self.prog, callee) {
                            Some(fi) => fi,
                            None => {
                                return Err(codegen_error_on("unknown function ", callee));
                            },
                        };
                        let f = &self.prog.functions[fi];
                        if !matches!(f.ret, Type::Struct(_)) {
                            return Err(codegen_error_on("expected a struct-returning function: ", callee));
                        }
                        if fields.len() >= 1000000 {
                            return Err(codegen_error("struct too large"));
                        }
                        push_line(out, "i32.const", STRUCT_RET_SCRATCH_BASE);
                        self.emit_call_args(args, &f.params, out)?;
                        let ghost mid = out@;
                        push_str(out, "  call $");
                        push_str(out, callee.as_str());
                        push_str(out, "\n");
                        assert(out@ =~= mid + ("  call $"@ + callee@ + "\n"@));
                        emit_readback(&self.locals, name, fields, out)?;
                        Ok(())
                    },
                    _ => Err(codegen_error_on("unsupported struct initializer for ", name)),
                }
            },
            _ => Err(codegen_error_on("unsupported variable type for ", name)),
        }
    }

    fn emit_inits(&self, dst: &String, fields: &Vec<Param>, inits: &Vec<(String, Expr)>, out: &mut String) -> (r: Result<(), CodegenError>)
        ensures
            match init_text(self.ctx(), dst@, fields@, *inits, 0) {
                Some(t) => r is Ok && final(out)@ == old(out)@ + t,
                None => r is Err,
            },
        decreases inits, 2nat, 0nat,
    {
        let ghost o = out@;
        let mut j: usize = 0;
        while j < fields.len()
            invariant
                j <= fields@.len(),
                match init_text(self.ctx(), dst@, fields@, *inits, 0) {
                    Some(t) => match init_text(self.ctx(), dst@, fields@, *inits, j as int) {
                        Some(rest) => t == out@.subrange(o.len() as int, out@.len() as int) + rest
                            && o.len() <= out@.len() && out@.subrange(0, o.len() as int) == o,
                        None => false,
                    },
                    None => init_text(self.ctx(), dst@, fields@, *inits, j as int) is None,
                },
            decreases fields@.len() - j,
        {
            let ghost before = out@;
            let k = match find_init_index(inits, &fields[j].name) {
                Some(k) => k,
                None => {
                    return Err(codegen_error_on("missing field in struct init: ", &fields[j].name));
                },
            };
            self.emit_expr(&inits[k].1, out)?;
            let slot = self.slot(&field_local_name(dst, &fields[j].name))?;
            push_line(out, "local.set", slot);
            proof {
                if let Some(t) = init_text(self.ctx(), dst@, fields@, *inits, 0) {
                    let piece = expr_text(self.ctx(), inits@[k as int].1)->0 + wline("local.set"@, slot as int);
                    assert(out@.subrange(o.len() as int, out@.len() as int) =~= before.subrange(o.len() as int, before.len() as int) + piece);
                    assert(out@.subrange(0, o.len() as int) =~= before.subrange(0, o.len() as int));
                }
            }
            j = j + 1;
        }
        assert(out@ =~= o + out@.subrange(o.len() as int, out@.len() as int));
        Ok(())
    }

    fn emit_sret_inits(&self, sret: i64, fields: &Vec<Param>, inits: &Vec<(String, Expr)>, out: &mut String) -> (r: Result<(), CodegenError>)
        requires
            fields@.len() < 1000000,
        ensures
            match sret_init_text(self.ctx(), sret, fields@, *inits, 0) {
                Some(t) => r is Ok && final(out)@ == old(out)@ + t,
                None => r is Err,
            },
        decreases inits, 2nat, 0nat,
    {
        let ghost o = out@;
        let mut j: usize = 0;
        while j < fields.len()
            invariant
                j <= fields@.len() < 1000000,
                match sret_init_text(self.ctx(), sret, fields@, *inits, 0) {
                    Some(t) => match sret_init_text(self.ctx(), sret, fields@, *inits, j as int) {
                        Some(rest) => t == out@.subrange(o.len() as int, out@.len() as int) + rest
                            && o.len() <= out@.len() && out@.subrange(0, o.len() as int) == o,
                        None => false,
                    },
                    None => sret_init_text(self.ctx(), sret, fields@, *inits, j as int) is None,
                },
            decreases fields@.len() - j,
        {
            let ghost before = out@;
            let k = match find_init_index(inits, &fields[j].name) {
                Some(k) => k,
                None => {
                    return Err(codegen_error_on("missing field in return init: ", &fields[j].name));
                },
            };
            push_line(out, "local.get", sret);
            push_line(out, "i32.const", 4 * (j as i64));
            push_str(out, "  i32.add\n");
            self.emit_expr(&inits[k].1, out)?;
            push_str(out, "  i32.store\n");
            proof {
                if let Some(t) = sret_init_text(self.ctx(), sret, fields@, *inits, 0) {
                    let piece = wline("local.get"@, sret as int) + wline("i32.const"@, 4 * j) + "  i32.add\n"@
                        + expr_text(self.ctx(), inits@[k as int].1)->0 + "  i32.store\n"@;
                    assert(out@.subrange(o.len() as int, out@.len() as int) =~= before.subrange(o.len() as int, before.len() as int) + piece);
                    assert(out@.subrange(0, o.len() as int) =~= before.subrange(0, o.len() as int));
                }
            }
            j = j + 1;
        }
        assert(out@ =~= o + out@.subrange(o.len() as int, out@.len() as int));
        Ok(())
    }

    #[verifier::loop_isolation(false)]
    fn emit_block(&self, b: &Block, labels: &mut u64, out: &mut String) -> (r: Result<(), CodegenError>)
        ensures
            match block_text(self.ctx(), *b, 0, *old(labels)) {
                Some((t, l)) => r is Ok && final(out)@ == old(out)@ + t && *final(labels) == l,
                None => r is Err,
            },
        decreases b, 0nat, 0nat,
    {
        let ghost o = out@;
        let ghost l0 = *labels;
        let mut i: usize = 0;
        while i < b.statements.len()
            invariant
                i <= b.statements@.len(),
                match block_text(self.ctx(), *b, 0, l0) {
                    Some((t, lf)) => match block_text(self.ctx(), *b, i as int, *labels) {
                        Some((rest, lf2)) => lf2 == lf && t == out@.subrange(o.len() as int, out@.len() as int) + rest
                            && o.len() <= out@.len() && out@.subrange(0, o.len() as int) == o,
                        None => false,
                    },
                    None => block_text(self.ctx(), *b, i as int, *labels) is None,
                },
            decreases b.statements@.len() - i,
        {
            let ghost before = out@;
            let ghost lb = *labels;
            self.emit_stmt(&b.statements[i], labels, out)?;
            proof {
                if let Some((t, lf)) = block_text(self.ctx(), *b, 0, l0) {
                    let piece = stmt_text(self.ctx(), b.statements@[i as int], lb).unwrap().0;
                    assert(out@.subrange(o.len() as int, out@.len() as int) =~= before.subrange(o.len() as int, before.len() as int) + piece);
                    assert(out@.subrange(0, o.len() as int) =~= before.subrange(0, o.len() as int));
                }
            }
            i = i + 1;
        }
        assert(out@ =~= o + out@.subrange(o.len() as int, out@.len() as int));
        Ok(())
    }

    #[verifier::spinoff_prover]
    #[verifier::rlimit(100)]
    fn emit_stmt(&self, s: &Stmt, labels: &mut u64, out: &mut String) -> (r: Result<(), CodegenError>)
        ensures
            match stmt_text(self.ctx(), *s, *old(labels)) {
                Some((t, l)) => r is Ok && final(out)@ == old(out)@ + t && *final(labels) == l,
                None => r is Err,
            },
        decreases s, 1nat, 0nat,
    {
        let ghost o = out@;
        match s {
            Stmt::Let { name, ty, expr } => self.emit_store(name, ty, expr, out),
            Stmt::Assign { name, expr } => {
                let ty = self.var_type(name)?;
                self.emit_store(name, &ty, expr, out)
            },
            Stmt::FieldAssign { base, field, expr } => {
                let ty = self.var_type(base)?;
                if !matches!(ty, Type::Struct(_)) {
                    return Err(codegen_error_on("field assignment on non-struct ", base));
                }
                self.emit_expr(expr, out)?;
                let slot = self.slot(&field_local_name(base, field))?;
                push_line(out, "local.set", slot);
                Ok(())
            },
            Stmt::If { cond, then_block, else_block } => self.emit_if(s, labels, out),
            Stmt::While { cond, body } => {
                let n = *labels;
                if n == u64::MAX {
                    return Err(codegen_error("too many loops"));
                }
                *labels = n + 1;
                push_str(out, "  (block $exit_");
                crate::text::push_nat(out, n);
                push_str(out, "\n    (loop $loop_");
                crate::text::push_nat(out, n);
                push_str(out, "\n");
                let ghost a = out@;
                self.emit_expr(cond, out)?;
                let ghost c = out@;
                push_str(out, "      i32.eqz\n      br_if $exit_");
                crate::text::push_nat(out, n);
                push_str(out, "\n");
                let ghost d = out@;
                self.emit_block(body, labels, out)?;
                let ghost e = out@;
                push_str(out, "      br $loop_");
                crate::text::push_nat(out, n);
                push_str(out, "\n    )\n  )\n");
                proof {
                    let dn = decimal(n as nat);
                    assert(a =~= o + ("  (block $exit_"@ + dn + "\n    (loop $loop_"@ + dn + "\n"@));
                    assert(d =~= c + ("      i32.eqz\n      br_if $exit_"@ + dn + "\n"@));
                    assert(out@ =~= e + ("      br $loop_"@ + dn + "\n    )\n  )\n"@));
                }
                Ok(())
            },
            Stmt::Return(expr) => {
                match self.sret {
                    Some(sret) => {
                        if sret == i64::MIN {
                            return Err(codegen_error("frame offset out of range"));
                        }
                        self.emit_struct_return(sret, expr, out)?;
                    },
                    None => {
                        self.emit_expr(expr, out)?;
                    },
                }
                push_str(out, "  return\n");
                Ok(())
            },
            Stmt::Expr(expr) => {
                self.emit_expr(expr, out)?;
                if self.produces_value(expr) {
                    push_str(out, "  drop\n");
                }
                Ok(())
            },
        }
    }

    #[verifier::spinoff_prover]
    #[verifier::rlimit(100)]
    fn emit_if(&self, s: &Stmt, labels: &mut u64, out: &mut String) -> (r: Result<(), CodegenError>)
        requires
            s is If,
        ensures
            match stmt_text(self.ctx(), *s, *old(labels)) {
                Some((t, l)) => r is Ok && final(out)@ == old(out)@ + t && *final(labels) == l,
                None => r is Err,
            },
        decreases s, 0nat, 0nat,
    {
        let ghost o = out@;
        match s {
            Stmt::If { cond, then_block, else_block } => {
                self.emit_expr(cond, out)?;
                push_str(out, "  (if\n    (then\n");
                self.emit_block(then_block, labels, out)?;
                push_str(out, "    )\n");
                match else_block {
                    Some(eb) => {
                        push_str(out, "    (else\n");
                        self.emit_block(eb, labels, out)?;
                        push_str(out, "    )\n");
                    },
                    None => {},
                }
                push_str(out, "  )\n");
                Ok(())
            },
            _ => Err(codegen_error("not an if statement")),
        }
    }

    /// Whether evaluating `e` as a statement leaves a value to drop.
    fn produces_value(&self, e: &Expr) -> (r: bool)
        ensures
            r == leaves_value(self.ctx(), *e),
    {
        match e {
            Expr::Call { callee, .. } => {
                if lookup_intrinsic(callee).is_some() {
                    true
                } else {
                    match find_fn_index(self.prog, callee) {
                        Some(fi) => self.prog.functions[fi].ret.is_scalar(),
                        None => true,
                    }
                }
            },
            _ => true,
        }
    }

    /// Writes a struct result through the return pointer: field `i` at byte `4 * i`.
    fn emit_struct_return(&self, sret: i64, expr: &Expr, out: &mut String) -> (r: Result<(), CodegenError>)
        ensures
            match sret_text(self.ctx(), sret, *expr) {
                Some(t) => r is Ok && final(out)@ == old(out)@ + t,
                None => r is Err,
            },
        decreases expr, 5nat, 0nat,
    {
        match expr {
            Expr::StructInit { name, fields: inits } => {
                let si = struct_index(self.prog, name)?;
                let fields = &self.prog.structs[si].fields;
                if fields.len() >= 1000000 {
                    return Err(codegen_error("struct too large"));
                }
                self.emit_sret_inits(sret, fields, inits, out)
            },
            Expr::Ident(src) => {
                let ty = self.var_type(src)?;
                let sname = match &ty {
                    Type::Struct(sn) => sn,
                    _ => {
                        return Err(codegen_error("struct-return function must return struct expression"));
                    },
                };
                let si = struct_index(self.prog, sname)?;
                let fields = &self.prog.structs[si].fields;
                if fields.len() >= 1000000 {
                    return Err(codegen_error("struct too large"));
                }
                emit_sret_copy(&self.locals, sret, src, fields, out)
            },
            _ => Err(codegen_error("unsupported struct return expression")),
        }
    }
}

fn emit_copy(locals: &Vec<(String, i64)>, dst: &String, src: &String, fields: &Vec<Param>, out: &mut String) -> (r: Result<(), CodegenError>)
    ensures
        match copy_text(lnames(locals@), dst@, src@, fields@, 0) {
            Some(t) => r is Ok && final(out)@ == old(out)@ + t,
            None => r is Err,
        },
{
    let ghost o = out@;
    let mut j: usize = 0;
    while j < fields.len()
        invariant
            j <= fields@.len(),
            match copy_text(lnames(locals@), dst@, src@, fields@, 0) {
                Some(t) => match copy_text(lnames(locals@), dst@, src@, fields@, j as int) {
                    Some(rest) => t == out@.subrange(o.len() as int, out@.len() as int) + rest
                        && o.len() <= out@.len() && out@.subrange(0, o.len() as int) == o,
                    None => false,
                },
                None => copy_text(lnames(locals@), dst@, src@, fields@, j as int) is None,
            },
        decreases fields@.len() - j,
    {
        let ghost before = out@;
        proof { lemma_slot_of_v(locals@, field_slot_name(src@, fields@[j as int].name@)); }
        let from = require_slot(locals, &field_local_name(src, &fields[j].name))?;
        proof { lemma_slot_of_v(locals@, field_slot_name(dst@, fields@[j as int].name@)); }
        let to = require_slot(locals, &field_local_name(dst, &fields[j].name))?;
        push_line(out, "local.get", from);
        push_line(out, "local.set", to);
        proof {
            if let Some(t) = copy_text(lnames(locals@), dst@, src@, fields@, 0) {
                let piece = wline("local.get"@, from as int) + wline("local.set"@, to as int);
                assert(out@.subrange(o.len() as int, out@.len() as int) =~= before.subrange(o.len() as int, before.len() as int) + piece);
                assert(out@.subrange(0, o.len() as int) =~= before.subrange(0, o.len() as int));
            }
        }
        j = j + 1;
    }
    assert(out@ =~= o + out@.subrange(o.len() as int, out@.len() as int));
    Ok(())
}

fn emit_readback(locals: &Vec<(String, i64)>, dst: &String, fields: &Vec<Param>, out: &mut String) -> (r: Result<(), CodegenError>)
    requires
        fields@.len() < 1000000,
    ensures
        match readback_text(lnames(locals@), dst@, fields@, 0) {
            Some(t) => r is Ok && final(out)@ == old(out)@ + t,
            None => r is Err,
        },
{
    let ghost o = out@;
    let mut j: usize = 0;
    while j < fields.len()
        invariant
            j <= fields@.len() < 1000000,
            match readback_text(lnames(locals@), dst@, fields@, 0) {
                Some(t) => match readback_text(lnames(locals@), dst@, fields@, j as int) {
                    Some(rest) => t == out@.subrange(o.len() as int, out@.len() as int) + rest
                        && o.len() <= out@.len() && out@.subrange(0, o.len() as int) == o,
                    None => false,
                },
                None => readback_text(lnames(locals@), dst@, fields@, j as int) is None,
            },
        decreases fields@.len() - j,
    {
        let ghost before = out@;
        push_line(out, "i32.const", STRUCT_RET_SCRATCH_BASE + 4 * (j as i64));
        push_str(out, "  i32.load\n");
        proof { lemma_slot_of_v(locals@, field_slot_name(dst@, fields@[j as int].name@)); }
        let to = require_slot(locals, &field_local_name(dst, &fields[j].name))?;
        push_line(out, "local.set", to);
        proof {
            if let Some(t) = readback_text(lnames(locals@), dst@, fields@, 0) {
                let piece = wline("i32.const"@, STRUCT_RET_SCRATCH_BASE + 4 * j) + "  i32.load\n"@ + wline("local.set"@, to as int);
                assert(out@.subrange(o.len() as int, out@.len() as int) =~= before.subrange(o.len() as int, before.len() as int) + piece);
                assert(out@.subrange(0, o.len() as int) =~= before.subrange(0, o.len() as int));
            }
        }
        j = j + 1;
    }
    assert(out@ =~= o + out@.subrange(o.len() as int, out@.len() as int));
    Ok(())
}

fn emit_sret_copy(locals: &Vec<(String, i64)>, sret: i64, src: &String, fields: &Vec<Param>, out: &mut String) -> (r: Result<(), CodegenError>)
    requires
        fields@.len() < 1000000,
    ensures
        match sret_copy_text(lnames(locals@), sret, src@, fields@, 0) {
            Some(t) => r is Ok && final(out)@ == old(out)@ + t,
            None => r is Err,
        },
{
    let ghost o = out@;
    let mut j: usize = 0;
    while j < fields.len()
        invariant
            j <= fields@.len() < 1000000,
            match sret_copy_text(lnames(locals@), sret, src@, fields@, 0) {
                Some(t) => match sret_copy_text(lnames(locals@), sret, src@, fields@, j as int) {
                    Some(rest) => t == out@.subrange(o.len() as int, out@.len() as int) + rest
                        && o.len() <= out@.len() && out@.subrange(0, o.len() as int) == o,
                    None => false,
                },
                None => sret_copy_text(lnames(locals@), sret, src@, fields@, j as int) is None,
            },
        decreases fields@.len() - j,
    {
        let ghost before = out@;
        proof { lemma_slot_of_v(locals@, field_slot_name(src@, fields@[j as int].name@)); }
        let slot = require_slot(locals, &field_local_name(src, &fields[j].name))?;
        push_line(out, "local.get", sret);
        push_line(out, "i32.const", 4 * (j as i64));
        push_str(out, "  i32.add\n");
        push_line(out, "local.get", slot);
        push_str(out, "  i32.store\n");
        proof {
            if let Some(t) = sret_copy_text(lnames(locals@), sret, src@, fields@, 0) {
                let piece = wline("local.get"@, sret as int) + wline("i32.const"@, 4 * j) + "  i32.add\n"@
                    + wline("local.get"@, slot as int) + "  i32.store\n"@;
                assert(out@.subrange(o.len() as int, out@.len() as int) =~= before.subrange(o.len() as int, before.len() as int) + piece);
                assert(out@.subrange(0, o.len() as int) =~= before.subrange(0, o.len() as int));
            }
        }
        j = j + 1;
    }
    assert(out@ =~= o + out@.subrange(o.len() as int, out@.len() as int));
    Ok(())
}

/// A table of names numbered from `base` on, one slot each.
pub open spec fn numbered(names: Seq<Seq<char>>, base: int) -> Seq<(Seq<char>, i64)> {
    Seq::new(names.len(), |k: int| (names[k], (base + k) as i64))
}

/// `n` copies of `t`.
pub open spec fn repeat(t: Seq<char>, n: nat) -> Seq<char>
    decreases n,
{
    if n == 0 { seq![] } else { repeat(t, (n - 1) as nat) + t }
}

/// The slot names of the fields of struct variable `v`, in declaration order, from the
/// `j`-th on; with `check`, every field must be a scalar.
pub open spec fn field_names(v: Seq<char>, fields: Seq<Param>, j: int, check: bool) -> Option<Seq<Seq<char>>>
    decreases fields.len() - j,
{
    if j < 0 || j >= fields.len() {
        Some(seq![])
    } else if check && !is_scalar_type(fields[j].ty) {
        None
    } else {
        match field_names(v, fields, j + 1, check) {
            Some(r) => Some(seq![field_slot_name(v, fields[j].name@)] + r),
            None => None,
        }
    }
}

/// The slot names of a variable of type `ty`: itself for a scalar, its fields for a
/// struct, none otherwise.
pub open spec fn var_names(p: Program, v: Seq<char>, ty: Type, check: bool) -> Option<Seq<Seq<char>>> {
    match ty {
        Type::I32 | Type::Char | Type::Bool => Some(seq![v]),
        Type::Struct(sn) => match find_struct(p.structs@, p.structs@.len() as int, sn@) {
            Some(si) => field_names(v, p.structs@[si].fields@, 0, check),
            None => None,
        },
        _ => Some(seq![]),
    }
}

/// The slot names of the parameters from the `k`-th on.
pub open spec fn param_names(p: Program, ps: Seq<Param>, k: int) -> Option<Seq<Seq<char>>>
    decreases ps.len() - k,
{
    if k < 0 || k >= ps.len() {
        Some(seq![])
    } else {
        match (var_names(p, ps[k].name@, ps[k].ty, false), param_names(p, ps, k + 1)) {
            (Some(a), Some(b)) => Some(a + b),
            _ => None,
        }
    }
}

/// The slot names of the `let`s of a statement, nested blocks included, in walk order.
pub open spec fn stmt_names(p: Program, s: Stmt) -> Option<Seq<Seq<char>>>
    decreases s, 0nat,
{
    match s {
        Stmt::Let { name, ty, expr } => var_names(p, name@, ty, true),
        Stmt::If { cond, then_block, else_block } => match (block_names(p, then_block, 0), match else_block {
            Some(eb) => block_names(p, eb, 0),
            None => Some(seq![]),
        }) {
            (Some(a), Some(b)) => Some(a + b),
            _ => None,
        },
        Stmt::While { cond, body } => block_names(p, body, 0),
        _ => Some(seq![]),
    }
}

pub open spec fn block_names(p: Program, b: Block, k: int) -> Option<Seq<Seq<char>>>
    decreases b, b.statements@.len() - k,
{
    if k < 0 || k >= b.statements@.len() {
        Some(seq![])
    } else {
        match (stmt_names(p, b.statements@[k]), block_names(p, b, k + 1)) {
            (Some(x), Some(y)) => Some(x + y),
            _ => None,
        }
    }
}

/// The variables that the `let`s of a statement bind, in walk order.
pub open spec fn stmt_vars(s: Stmt) -> Seq<(String, Type)>
    decreases s, 0nat,
{
    match s {
        Stmt::Let { name, ty, expr } => seq![(name, ty)],
        Stmt::If { cond, then_block, else_block } => block_vars(then_block, 0) + match else_block {
            Some(eb) => block_vars(eb, 0),
            None => seq![],
        },
        Stmt::While { cond, body } => block_vars(body, 0),
        _ => seq![],
    }
}

pub open spec fn block_vars(b: Block, k: int) -> Seq<(String, Type)>
    decreases b, b.statements@.len() - k,
{
    if k < 0 || k >= b.statements@.len() {
        seq![]
    } else {
        stmt_vars(b.statements@[k]) + block_vars(b, k + 1)
    }
}

/// The variables that parameters bind.
pub open spec fn param_vars(ps: Seq<Param>) -> Seq<(String, Type)> {
    ps.map_values(|q: Param| (q.name, q.ty))
}

/// Whether a names-so-far / rest split agrees with a whole list.
pub open spec fn splits(all: Option<Seq<Seq<char>>>, added: Seq<Seq<char>>, rest: Option<Seq<Seq<char>>>) -> bool {
    match all {
        Some(a) => rest matches Some(r) && a == added + r,
        None => rest is None,
    }
}

proof fn lemma_numbered_push(added: Seq<Seq<char>>, x: Seq<char>, base: int)
    ensures
        numbered(added.push(x), base) == numbered(added, base).push((x, (base + added.len()) as i64)),
{
    assert(numbered(added.push(x), base) =~= numbered(added, base).push((x, (base + added.len()) as i64)));
}

pub proof fn lemma_numbered_append(a: Seq<Seq<char>>, b: Seq<Seq<char>>, base: int)
    ensures
        numbered(a + b, base) == numbered(a, base) + numbered(b, base + a.len()),
{
    assert(numbered(a + b, base) =~= numbered(a, base) + numbered(b, base + a.len()));
}

/// Adds a local with the next free slot.
fn add_local(locals: &mut Vec<(String, i64)>, name: String, next: &mut i64) -> (r: Result<(), CodegenError>)
    ensures
        r is Ok <==> *old(next) < i32::MAX,
        r is Ok ==> lnames(final(locals)@) == lnames(old(locals)@).push((name@, *old(next))) && *final(next) == *old(next) + 1,
{
    if *next >= i32::MAX as i64 {
        return Err(codegen_error("too many locals"));
    }
    let ghost l0 = locals@;
    locals.push((name, *next));
    assert(lnames(locals@) =~= lnames(l0).push((name@, *old(next))));
    *next = *next + 1;
    Ok(())
}

/// Gives a variable its slots: one for a scalar, one per field in declaration order for
/// a struct (which, with `check`, must have scalar fields only).
#[verifier::loop_isolation(false)]
fn add_var(prog: &Program, v: &String, ty: &Type, check: bool, locals: &mut Vec<(String, i64)>, next: &mut i64) -> (r: Result<(), CodegenError>)
    requires
        0 <= *old(next) <= i32::MAX,
    ensures
        r is Ok <==> (var_names(*prog, v@, *ty, check) matches Some(n) && *old(next) + n.len() <= i32::MAX),
        r is Ok ==> lnames(final(locals)@) == lnames(old(locals)@) + numbered(var_names(*prog, v@, *ty, check)->0, *old(next) as int)
            && *final(next) == *old(next) + var_names(*prog, v@, *ty, check)->0.len(),
{
    let ghost l0 = lnames(locals@);
    let ghost n0 = *next as int;
    match ty {
        Type::I32 | Type::Char | Type::Bool => {
            add_local(locals, v.clone(), next)?;
            assert(numbered(seq![v@], n0) =~= seq![(v@, n0 as i64)]);
            assert(lnames(locals@) =~= l0 + numbered(seq![v@], n0));
            Ok(())
        },
        Type::Struct(sname) => {
            let si = struct_index(prog, sname)?;
            let fields = &prog.structs[si].fields;
            let ghost added: Seq<Seq<char>> = seq![];
            let mut j: usize = 0;
            assert(numbered(added, n0) =~= Seq::<(Seq<char>, i64)>::empty());
            assert(lnames(locals@) =~= l0 + numbered(added, n0));
            while j < fields.len()
                invariant
                    j <= fields@.len(),
                    added.len() == j,
                    *next == n0 + j,
                    n0 <= *next <= i32::MAX,
                    lnames(locals@) == l0 + numbered(added, n0),
                    splits(field_names(v@, fields@, 0, check), added, field_names(v@, fields@, j as int, check)),
                decreases fields@.len() - j,
            {
                if check && !fields[j].ty.is_scalar() {
                    return Err(codegen_error_on("non-scalar struct field is not supported: ", &fields[j].name));
                }
                let ghost nm = field_slot_name(v@, fields@[j as int].name@);
                match add_local(locals, field_local_name(v, &fields[j].name), next) {
                    Ok(_) => {},
                    Err(e) => {
                        proof {
                            if let Some(all) = field_names(v@, fields@, 0, check) {
                                let rest = field_names(v@, fields@, j + 1, check)->0;
                                assert(all =~= added + (seq![nm] + rest));
                            }
                        }
                        return Err(e);
                    },
                }
                proof {
                    lemma_numbered_push(added, nm, n0);
                    if let Some(all) = field_names(v@, fields@, 0, check) {
                        let rest = field_names(v@, fields@, j + 1, check)->0;
                        assert(all == added.push(nm) + rest) by {
                            assert(added + (seq![nm] + rest) =~= added.push(nm) + rest);
                        }
                    }
                    added = added.push(nm);
                }
                j = j + 1;
            }
            proof {
                if let Some(all) = field_names(v@, fields@, 0, check) {
                    assert(all =~= added);
                }
            }
            Ok(())
        },
        _ => {
            assert(lnames(locals@) =~= l0 + numbered(seq![], n0));
            Ok(())
        },
    }
}

/// Gives every `let` of a block (nested blocks included, in walk order) its slots:
/// one for a scalar, one per field in declaration order for a struct.
#[verifier::loop_isolation(false)]
pub(crate) fn collect_locals_from_block(b: &Block, prog: &Program, locals: &mut Vec<(String, i64)>, next: &mut i64, var_types: &mut Vec<(String, Type)>) -> (r: Result<(), CodegenError>)
    requires
        0 <= *old(next) <= i32::MAX,
    ensures
        r is Ok <==> (block_names(*prog, *b, 0) matches Some(n) && *old(next) + n.len() <= i32::MAX),
        r is Ok ==> lnames(final(locals)@) == lnames(old(locals)@) + numbered(block_names(*prog, *b, 0)->0, *old(next) as int)
            && *final(next) == *old(next) + block_names(*prog, *b, 0)->0.len()
            && final(var_types)@ == old(var_types)@ + block_vars(*b, 0),
    decreases b,
{
    let ghost l0 = lnames(locals@);
    let ghost v0 = var_types@;
    let ghost n0 = *next as int;
    let ghost added: Seq<Seq<char>> = seq![];
    let ghost vadded: Seq<(String, Type)> = seq![];
    assert(numbered(added, n0) =~= Seq::<(Seq<char>, i64)>::empty());
    assert(lnames(locals@) =~= l0 + numbered(added, n0));
    assert(var_types@ =~= v0 + vadded);
    let mut i: usize = 0;
    while i < b.statements.len()
        invariant
            i <= b.statements@.len(),
            *next == n0 + added.len(),
            n0 <= *next <= i32::MAX,
            lnames(locals@) == l0 + numbered(added, n0),
            splits(block_names(*prog, *b, 0), added, block_names(*prog, *b, i as int)),
            var_types@ == v0 + vadded,
            block_vars(*b, 0) == vadded + block_vars(*b, i as int),
        decreases b.statements@.len() - i,
    {
        let ghost before_l = lnames(locals@);
        let ghost before_n = *next as int;
        let ghost sn = stmt_names(*prog, b.statements@[i as int]);
        match &b.statements[i] {
            Stmt::Let { name, ty, .. } => {
                var_types.push((name.clone(), ty.duplicate()));
                add_var(prog, name, ty, true, locals, next)?;
            },
            Stmt::If { then_block, else_block, .. } => {
                collect_locals_from_block(then_block, prog, locals, next, var_types)?;
                match else_block {
                    Some(eb) => {
                        collect_locals_from_block(eb, prog, locals, next, var_types)?;
                        proof { lemma_numbered_append(block_names(*prog, *then_block, 0)->0, block_names(*prog, *eb, 0)->0, before_n); }
                    },
                    None => {},
                }
            },
            Stmt::While { body, .. } => {
                collect_locals_from_block(body, prog, locals, next, var_types)?;
            },
            _ => {},
        }
        proof {
            let x = sn->0;
            assert(lnames(locals@) =~= before_l + numbered(x, before_n));
            lemma_numbered_append(added, x, n0);
            if let Some(all) = block_names(*prog, *b, 0) {
                let rest = block_names(*prog, *b, i + 1)->0;
                assert(all == (added + x) + rest) by {
                    assert(added + (x + rest) =~= (added + x) + rest);
                }
            }
            let vx = stmt_vars(b.statements@[i as int]);
            assert(block_vars(*b, 0) == (vadded + vx) + block_vars(*b, i + 1)) by {
                assert(vadded + (vx + block_vars(*b, i + 1)) =~= (vadded + vx) + block_vars(*b, i + 1));
            }
            added = added + x;
            vadded = vadded + vx;
        }
        i = i + 1;
    }
    proof {
        if let Some(all) = block_names(*prog, *b, 0) {
            assert(all =~= added);
        }
        assert(vadded =~= block_vars(*b, 0));
    }
    Ok(())
}

/// What closes a function: a fall-through `0` for a scalar result, a bare return
/// for a struct result, then `)`.
pub open spec fn wat_fn_end(ret: Type) -> Seq<char> {
    (if is_scalar_type(ret) {
        "  i32.const 0\n  return\n"@
    } else if ret is Struct {
        "  return\n"@
    } else {
        seq![]
    }) + "  )\n"@
}

/// The context a function body is lowered against: slot 0 for the struct-return
/// pointer when the function returns a struct, then the parameters' slots, then the
/// `let`s' slots in walk order; with the number of parameter and `let` slots.
pub open spec fn wat_fn_ctx(f: Function, p: Program, offs: Seq<(Seq<char>, i64)>) -> Option<(WCtx, nat, nat)> {
    let s = f.ret is Struct;
    let base: int = if s { 1 } else { 0 };
    let head: Seq<Seq<char>> = if s { seq!["__sret_ptr"@] } else { seq![] };
    match (param_names(p, f.params@, 0), block_names(p, f.body, 0)) {
        (Some(pn), Some(bn)) => if base + pn.len() + bn.len() > i32::MAX {
            None
        } else {
            Some((
                WCtx {
                    prog: p,
                    locals: numbered(head + pn + bn, 0),
                    vars: param_vars(f.params@) + block_vars(f.body, 0),
                    offsets: offs,
                    sret: if s { Some(0i64) } else { None },
                },
                pn.len(),
                bn.len(),
            ))
        },
        _ => None,
    }
}

/// The text of a function: its header with a `(param i32)` per slot (the struct-return
/// pointer first) and a result for a scalar return, a `(local i32)` per `let` slot, the
/// body's instructions, and the fall-through return.
pub open spec fn wat_fn_text(f: Function, p: Program, offs: Seq<(Seq<char>, i64)>) -> Option<Seq<char>> {
    match wat_fn_ctx(f, p, offs) {
        Some((c, np, nb)) => match block_text(c, f.body, 0, 0) {
            Some((t, l)) => Some("  (func $"@ + f.name@ + (if f.ret is Struct { " (param i32)"@ } else { seq![] })
                + repeat(" (param i32)"@, np) + (if is_scalar_type(f.ret) { " (result i32)"@ } else { seq![] }) + "\n"@
                + repeat("  (local i32)\n"@, nb) + t + wat_fn_end(f.ret)),
            None => None,
        },
        None => None,
    }
}

/// Appends `n` copies of `t`.
fn push_repeat(out: &mut String, t: &str, n: u64)
    ensures
        final(out)@ == old(out)@ + repeat(t@, n as nat),
{
    let mut k: u64 = 0;
    while k < n
        invariant
            k <= n,
            out@ == old(out)@ + repeat(t@, k as nat),
        decreases n - k,
    {
        push_str(out, t);
        assert(old(out)@ + repeat(t@, (k + 1) as nat) =~= old(out)@ + repeat(t@, k as nat) + t@);
        k = k + 1;
    }
}

/// Binds the parameters to local slots from `next` on (struct parameters field by
/// field, in declaration order) and records their types.
pub(crate) fn bind_params(f: &Function, prog: &Program, locals: &mut Vec<(String, i64)>, var_types: &mut Vec<(String, Type)>, next: &mut i64) -> (r: Result<(), CodegenError>)
    requires
        0 <= *old(next) <= i32::MAX,
    ensures
        r is Ok <==> (param_names(*prog, f.params@, 0) matches Some(n) && *old(next) + n.len() <= i32::MAX),
        r is Ok ==> lnames(final(locals)@) == lnames(old(locals)@) + numbered(param_names(*prog, f.params@, 0)->0, *old(next) as int)
            && *final(next) == *old(next) + param_names(*prog, f.params@, 0)->0.len()
            && final(var_types)@ == old(var_types)@ + param_vars(f.params@),
{
    let ghost l0 = lnames(locals@);
    let ghost v0 = var_types@;
    let ghost n0 = *next as int;
    let ghost added: Seq<Seq<char>> = seq![];
    assert(numbered(added, n0) =~= Seq::<(Seq<char>, i64)>::empty());
    assert(lnames(locals@) =~= l0 + numbered(added, n0));
    let mut i: usize = 0;
    assert(var_types@ =~= v0 + param_vars(f.params@.subrange(0, 0)));
    while i < f.params.len()
        invariant
            i <= f.params@.len(),
            n0 >= 0,
            n0 == *old(next),
            l0 == lnames(old(locals)@),
            v0 == old(var_types)@,
            *next == n0 + added.len(),
            n0 <= *next <= i32::MAX,
            lnames(locals@) == l0 + numbered(added, n0),
            splits(param_names(*prog, f.params@, 0), added, param_names(*prog, f.params@, i as int)),
            var_types@ == v0 + param_vars(f.params@.subrange(0, i as int)),
        decreases f.params@.len() - i,
    {
        let p = &f.params[i];
        let ghost before_l = lnames(locals@);
        let ghost before_n = *next as int;
        var_types.push((p.name.clone(), p.ty.duplicate()));
        assert(var_types@ =~= v0 + param_vars(f.params@.subrange(0, i + 1)));
        match add_var(prog, &p.name, &p.ty, false, locals, next) {
            Ok(_) => {},
            Err(e) => {
                proof {
                    match var_names(*prog, p.name@, p.ty, false) {
                        Some(x) => {
                            assert(before_n + x.len() > i32::MAX);
                            if let Some(all) = param_names(*prog, f.params@, 0) {
                                let rest = param_names(*prog, f.params@, i + 1)->0;
                                assert(all =~= added + (x + rest));
                                assert(n0 + all.len() > i32::MAX);
                            }
                        },
                        None => {
                            assert(param_names(*prog, f.params@, i as int) is None);
                        },
                    }
                }
                return Err(e);
            },
        }
        proof {
            let x = var_names(*prog, p.name@, p.ty, false)->0;
            lemma_numbered_append(added, x, n0);
            assert(lnames(locals@) =~= l0 + numbered(added + x, n0));
            if let Some(all) = param_names(*prog, f.params@, 0) {
                let rest = param_names(*prog, f.params@, i + 1)->0;
                assert(all == (added + x) + rest) by {
                    assert(added + (x + rest) =~= (added + x) + rest);
                }
            }
            added = added + x;
        }
        i = i + 1;
    }
    proof {
        if let Some(all) = param_names(*prog, f.params@, 0) {
            assert(all =~= added);
        }
        assert(f.params@.subrange(0, f.params@.len() as int) =~= f.params@);
    }
    Ok(())
}

/// Lowers one function: its header with a parameter per scalar (a struct-return
/// pointer first, struct parameters field by field), its locals, its body, and the
/// fall-through return.
#[verifier::spinoff_prover]
#[verifier::rlimit(100)]
fn emit_function_wat_with_strings(f: &Function, prog: &Program, string_offsets: &Vec<(String, i64)>, out: &mut String) -> (r: Result<(), CodegenError>)
    ensures
        match wat_fn_text(*f, *prog, lnames(string_offsets@)) {
            Some(t) => r is Ok && final(out)@ == old(out)@ + t,
            None => r is Err,
        },
{
    let mut locals: Vec<(String, i64)> = Vec::new();
    let mut var_types: Vec<(String, Type)> = Vec::new();
    let mut next: i64 = 0;
    let returns_struct = matches!(f.ret, Type::Struct(_));
    let mut sret: Option<i64> = None;
    let mut header = String::new();
    let ghost head: Seq<Seq<char>> = seq![];
    if returns_struct {
        proof { reveal_strlit("__sret_ptr"); }
        locals.push((crate::text::string_from("__sret_ptr"), 0));
        sret = Some(0);
        next = 1;
        push_str(&mut header, " (param i32)");
        proof { head = seq!["__sret_ptr"@]; }
    }
    assert(lnames(locals@) =~= numbered(head, 0));
    let ghost h1 = header@;
    bind_params(f, prog, &mut locals, &mut var_types, &mut next)?;
    let params_end = next;
    push_repeat(&mut header, " (param i32)", (params_end - if returns_struct { 1 } else { 0 }) as u64);
    if f.ret.is_scalar() {
        push_str(&mut header, " (result i32)");
    }
    push_str(&mut header, "\n");
    collect_locals_from_block(&f.body, prog, &mut locals, &mut next, &mut var_types)?;
    push_repeat(&mut header, "  (local i32)\n", (next - params_end) as u64);
    proof {
        let pn = param_names(*prog, f.params@, 0)->0;
        let bn = block_names(*prog, f.body, 0)->0;
        lemma_numbered_append(head, pn, 0);
        lemma_numbered_append(head + pn, bn, 0);
        assert(var_types@ =~= param_vars(f.params@) + block_vars(f.body, 0));
    }
    let ctx = WatFn { prog, locals, var_types, string_offsets, sret };
    assert(ctx.ctx() == wat_fn_ctx(*f, *prog, lnames(string_offsets@)).unwrap().0);
    let mut body = String::new();
    let mut labels: u64 = 0;
    ctx.emit_block(&f.body, &mut labels, &mut body)?;
    let mut end = String::new();
    if f.ret.is_scalar() {
        push_str(&mut end, "  i32.const 0\n  return\n");
    } else if returns_struct {
        push_str(&mut end, "  return\n");
    }
    push_str(&mut end, "  )\n");
    assert(end@ =~= wat_fn_end(f.ret));
    push_str(out, "  (func $");
    push_str(out, f.name.as_str());
    push_str(out, header.as_str());
    push_str(out, body.as_str());
    push_str(out, end.as_str());
    assert(out@ =~= old(out)@ + wat_fn_text(*f, *prog, lnames(string_offsets@))->0);
    Ok(())
}

/// The lower-case hexadecimal digit for `d < 16`.
pub open spec fn hex_char(d: nat) -> char {
    if d < 10 { digit(d) } else { ((('a' as u32) + (d - 10)) as char) }
}

/// How a character is written in a WAT data string: `\n \r \t` and `\00` for the
/// control characters that have them, `\"` and `\\` escaped, printable ASCII as
/// itself, anything else as `\` and two hex digits of its low byte.
pub open spec fn wat_char(c: char) -> Seq<char> {
    let u = c as u32;
    if c == '\n' {
        seq!['\\', 'n']
    } else if c == '\r' {
        seq!['\\', 'r']
    } else if c == '\t' {
        seq!['\\', 't']
    } else if c == '\0' {
        seq!['\\', '0', '0']
    } else if c == '\"' {
        seq!['\\', '\"']
    } else if c == '\\' {
        seq!['\\', '\\']
    } else if 0x20 <= u <= 0x7E {
        seq![c]
    } else {
        seq!['\\', hex_char(((u % 256) / 16) as nat), hex_char(((u % 256) % 16) as nat)]
    }
}

pub open spec fn wat_data(s: Seq<char>) -> Seq<char>
    decreases s.len(),
{
    if s.len() == 0 { seq![] } else { wat_data(s.drop_last()) + wat_char(s.last()) }
}

fn hex_digit(d: u32) -> (r: char)
    requires
        d < 16,
    ensures
        r == hex_char(d as nat),
{
    if d < 10 {
        crate::text::digit_char_of(d)
    } else if d == 10 {
        'a'
    } else if d == 11 {
        'b'
    } else if d == 12 {
        'c'
    } else if d == 13 {
        'd'
    } else if d == 14 {
        'e'
    } else {
        'f'
    }
}

/// The bytes of a string (one per character) as the body of a WAT string.
fn data_bytes(s: &String) -> (r: String)
    ensures
        r@ == wat_data(s@),
{
    let mut out = String::new();
    let t = s.as_str();
    let n = t.unicode_len();
    let mut i: usize = 0;
    while i < n
        invariant
            n == t@.len(),
            t@ == s@,
            i <= n,
            out@ == wat_data(t@.subrange(0, i as int)),
        decreases n - i,
    {
        let c = t.get_char(i);
        let u = c as u32;
        let ghost before = out@;
        proof {
            reveal_strlit("\\n");
            reveal_strlit("\\r");
            reveal_strlit("\\t");
            reveal_strlit("\\00");
            reveal_strlit("\\\"");
            reveal_strlit("\\\\");
        }
        if c == '\n' {
            push_str(&mut out, "\\n");
        } else if c == '\r' {
            push_str(&mut out, "\\r");
        } else if c == '\t' {
            push_str(&mut out, "\\t");
        } else if c == '\0' {
            push_str(&mut out, "\\00");
        } else if c == '\"' {
            push_str(&mut out, "\\\"");
        } else if c == '\\' {
            push_str(&mut out, "\\\\");
        } else if 0x20 <= u && u <= 0x7E {
            push_char(&mut out, c);
        } else {
            let b = u % 256;
            push_char(&mut out, '\\');
            push_char(&mut out, hex_digit(b / 16));
            push_char(&mut out, hex_digit(b % 16));
        }
        assert(out@ =~= before + wat_char(c));
        assert(t@.subrange(0, i + 1).drop_last() =~= t@.subrange(0, i as int));
        i = i + 1;
    }
    assert(t@.subrange(0, n as int) =~= t@);
    out
}

/// Some function is named `main`.
pub open spec fn declares_main(p: Program) -> bool {
    exists|i: int| 0 <= i < p.functions@.len() && #[trigger] p.functions@[i].name@ == "main"@
}

/// Some function returns a struct.
pub open spec fn returns_structs(p: Program) -> bool {
    exists|i: int| 0 <= i < p.functions@.len() && (#[trigger] p.functions@[i]).ret is Struct
}

fn has_main(prog: &Program) -> (r: bool)
    ensures
        r == declares_main(*prog),
{
    let mut i: usize = 0;
    while i < prog.functions.len()
        invariant
            i <= prog.functions@.len(),
            forall|j: int| 0 <= j < i ==> #[trigger] prog.functions@[j].name@ != "main"@,
        decreases prog.functions@.len() - i,
    {
        if string_is(&prog.functions[i].name, "main") {
            return true;
        }
        i = i + 1;
    }
    false
}

fn has_struct_returns(prog: &Program) -> (r: bool)
    ensures
        r == returns_structs(*prog),
{
    let mut i: usize = 0;
    while i < prog.functions.len()
        invariant
            i <= prog.functions@.len(),
            forall|j: int| 0 <= j < i ==> !((#[trigger] prog.functions@[j]).ret is Struct),
        decreases prog.functions@.len() - i,
    {
        if matches!(prog.functions[i].ret, Type::Struct(_)) {
            return true;
        }
        i = i + 1;
    }
    false
}

/// The start of a module: the WASI imports of exactly the I/O intrinsics that the
/// program calls, then the memory and its export when the program has strings,
/// touches memory, does I/O or returns structs.
pub open spec fn wat_header(p: Program) -> Seq<char> {
    let w = program_uses(p, Usage::FdWrite);
    let r = program_uses(p, Usage::FdRead);
    let o = program_uses(p, Usage::PathOpen);
    let c = program_uses(p, Usage::FdClose);
    let mem = string_table(p).len() > 0 || program_uses(p, Usage::Memory) || w || r || o || c
        || returns_structs(p);
    "(module\n"@
        + (if w { FD_WRITE_IMPORT@ } else { seq![] })
        + (if r { FD_READ_IMPORT@ } else { seq![] })
        + (if o { PATH_OPEN_IMPORT@ } else { seq![] })
        + (if c { FD_CLOSE_IMPORT@ } else { seq![] })
        + (if mem { MEMORY_DECL@ } else { seq![] })
}

/// The end of a module: the export of `main` when the program declares it.
pub open spec fn wat_footer(p: Program) -> Seq<char> {
    (if declares_main(p) { MAIN_EXPORT@ } else { seq![] }) + ")\n"@
}

pub const FD_WRITE_IMPORT: &'static str = "  (import \"wasi_snapshot_preview1\" \"fd_write\" (func $__fd_write (param i32 i32 i32 i32) (result i32)))\n";
pub const FD_READ_IMPORT: &'static str = "  (import \"wasi_snapshot_preview1\" \"fd_read\" (func $__fd_read (param i32 i32 i32 i32) (result i32)))\n";
pub const PATH_OPEN_IMPORT: &'static str = "  (import \"wasi_snapshot_preview1\" \"path_open\" (func $__path_open (param i32 i32 i32 i32 i32 i64 i64 i32 i32) (result i32)))\n";
pub const FD_CLOSE_IMPORT: &'static str = "  (import \"wasi_snapshot_preview1\" \"fd_close\" (func $__fd_close (param i32) (result i32)))\n";
pub const MEMORY_DECL: &'static str = "  (memory 2048)\n  (export \"memory\" (memory 0))\n";
pub const MAIN_EXPORT: &'static str = "  (export \"main\" (func $main))\n";

/// Every string and every offset of a layout with no gaps stays below 1 GiB, from the
/// `i`-th string on.
pub open spec fn strings_fit(v: Seq<Seq<char>>, i: int) -> bool {
    forall|k: int| i <= k < v.len() ==> (#[trigger] v[k]).len() < 0x4000_0000 && start_of(v, k, 0) < 0x4000_0000
}

/// The offsets of the strings in WAT linear memory.
pub open spec fn wat_offsets(v: Seq<Seq<char>>) -> Seq<(Seq<char>, i64)> {
    Seq::new(v.len(), |k: int| (v[k], start_of(v, k, 0) as i64))
}

/// The data segment of string `k`.
pub open spec fn data_item(v: Seq<Seq<char>>, k: int) -> Seq<char> {
    "  (data (i32.const "@ + int_text(start_of(v, k, 0)) + ") \""@ + wat_data(v[k]) + "\")\n"@
}

/// The data segments of the strings from the `i`-th on.
pub open spec fn data_text(v: Seq<Seq<char>>, i: int) -> Seq<char>
    decreases v.len() - i,
{
    if i < 0 || i >= v.len() { seq![] } else { data_item(v, i) + data_text(v, i + 1) }
}

/// The functions' texts from the `k`-th on.
pub open spec fn wat_fns_text(p: Program, offs: Seq<(Seq<char>, i64)>, k: int) -> Option<Seq<char>>
    decreases p.functions@.len() - k,
{
    if k < 0 || k >= p.functions@.len() {
        Some(seq![])
    } else {
        cat(wat_fn_text(p.functions@[k], p, offs), wat_fns_text(p, offs, k + 1))
    }
}

proof fn lemma_strings_fit(v: Seq<Seq<char>>, s: Seq<String>)
    requires
        v == views(s),
    ensures
        strings_fit(v, 0) <==> forall|i: int| 0 <= i < s.len() ==> (#[trigger] s[i])@.len() < 0x4000_0000
            && start_of(views(s), i, 0) < 0x4000_0000,
{
    assert forall|i: int| 0 <= i < s.len() implies (#[trigger] s[i])@ == v[i] by {}
}

/// Lowers a program to a WebAssembly text module for a WASI host: the imports and
/// memory it needs, its strings as data from offset 0, one function per source
/// function, and the export of `main`.
pub fn emit_wat(prog: &Program) -> (r: Result<String, CodegenError>)
    ensures
        r is Ok <==> strings_fit(string_table(*prog), 0) && wat_fns_text(*prog, wat_offsets(string_table(*prog)), 0) is Some,
        r matches Ok(t) ==> t@ == wat_header(*prog) + data_text(string_table(*prog), 0)
            + wat_fns_text(*prog, wat_offsets(string_table(*prog)), 0)->0 + wat_footer(*prog),
{
    let strings = collect_strings_from_program(prog);
    let ghost v = views(strings@);
    let needs_fd_write = program_uses_exec(prog, Usage::FdWrite);
    let needs_fd_read = program_uses_exec(prog, Usage::FdRead);
    let needs_path_open = program_uses_exec(prog, Usage::PathOpen);
    let needs_fd_close = program_uses_exec(prog, Usage::FdClose);
    let needs_wasi = needs_fd_write || needs_fd_read || needs_path_open || needs_fd_close;
    let needs_memory = strings.len() > 0 || program_uses_exec(prog, Usage::Memory) || needs_wasi
        || has_struct_returns(prog);
    assert(strings@.len() == views(strings@).len());
    let mut out = String::new();
    push_str(&mut out, "(module\n");
    if needs_fd_write {
        push_str(&mut out, FD_WRITE_IMPORT);
    }
    if needs_fd_read {
        push_str(&mut out, FD_READ_IMPORT);
    }
    if needs_path_open {
        push_str(&mut out, PATH_OPEN_IMPORT);
    }
    if needs_fd_close {
        push_str(&mut out, FD_CLOSE_IMPORT);
    }
    if needs_memory {
        push_str(&mut out, MEMORY_DECL);
    }
    let ghost header = out@;
    assert(header =~= wat_header(*prog));
    proof { lemma_strings_fit(v, strings@); }
    let offsets = match string_offsets(&strings, 0) {
        Some(t) => t,
        None => {
            return Err(codegen_error("string data too large"));
        },
    };
    assert(lnames(offsets@) =~= wat_offsets(v));
    let mut data = String::new();
    let mut i: usize = 0;
    while i < offsets.len()
        invariant
            i <= offsets@.len() == strings@.len() == v.len(),
            v == views(strings@),
            forall|k: int| 0 <= k < offsets@.len() ==> (#[trigger] offsets@[k]).0 == strings@[k] && offsets@[k].1 == start_of(v, k, 0),
            data@ + data_text(v, i as int) == data_text(v, 0),
        decreases offsets@.len() - i,
    {
        let ghost d0 = data@;
        push_str(&mut data, "  (data (i32.const ");
        push_int(&mut data, offsets[i].1);
        push_str(&mut data, ") \"");
        let bytes = data_bytes(&offsets[i].0);
        push_str(&mut data, bytes.as_str());
        push_str(&mut data, "\")\n");
        assert(data@ =~= d0 + data_item(v, i as int));
        assert(d0 + data_text(v, i as int) =~= data@ + data_text(v, i + 1));
        i = i + 1;
    }
    assert(data@ =~= data_text(v, 0));
    let ghost offs = lnames(offsets@);
    let mut fns = String::new();
    let mut i: usize = 0;
    while i < prog.functions.len()
        invariant
            i <= prog.functions@.len(),
            offs == lnames(offsets@),
            offs == wat_offsets(v),
            v == string_table(*prog),
            match wat_fns_text(*prog, offs, 0) {
                Some(t) => wat_fns_text(*prog, offs, i as int) matches Some(rest) && t == fns@ + rest,
                None => wat_fns_text(*prog, offs, i as int) is None,
            },
        decreases prog.functions@.len() - i,
    {
        let ghost f0 = fns@;
        emit_function_wat_with_strings(&prog.functions[i], prog, &offsets, &mut fns)?;
        proof {
            if let Some(t) = wat_fns_text(*prog, offs, 0) {
                let piece = wat_fn_text(prog.functions@[i as int], *prog, offs)->0;
                let rest = wat_fns_text(*prog, offs, i + 1)->0;
                assert(f0 + (piece + rest) =~= fns@ + rest);
            }
        }
        i = i + 1;
    }
    assert(fns@ =~= wat_fns_text(*prog, offs, 0)->0);
    push_str(&mut out, data.as_str());
    push_str(&mut out, fns.as_str());
    if has_main(prog) {
        push_str(&mut out, MAIN_EXPORT);
    }
    push_str(&mut out, ")\n");
    assert(out@ =~= wat_header(*prog) + data_text(v, 0) + fns@ + wat_footer(*prog));
    Ok(out)
}

} // verus!
