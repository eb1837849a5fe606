use vstd::prelude::*;
use crate::ast::{BinOp, Block, Expr, Function, Param, Program, Stmt, StructDecl, Type};
use crate::typecheck::{call_expr, init_expr};
use crate::text::{decimal, int_text, push_char, push_int, push_nat, push_str};

verus! {

broadcast use vstd::std_specs::vec::group_vec_axioms;

/// How a character is written inside an IR string: `\\ \" \n \r \t` escaped.
pub open spec fn escape_char(c: char) -> Seq<char> {
    if c == '\\' {
        seq!['\\', '\\']
    } else if c == '\"' {
        seq!['\\', '\"']
    } else if c == '\n' {
        seq!['\\', 'n']
    } else if c == '\r' {
        seq!['\\', 'r']
    } else if c == '\t' {
        seq!['\\', 't']
    } else {
        seq![c]
    }
}

pub open spec fn escaped(s: Seq<char>) -> Seq<char>
    decreases s.len(),
{
    if s.len() == 0 {
        seq![]
    } else {
        escaped(s.drop_last()) + escape_char(s.last())
    }
}

/// Appends `s` with the IR's string escapes.
fn escape_str(out: &mut String, s: &String)
    ensures
        final(out)@ == old(out)@ + escaped(s@),
{
    let t = s.as_str();
    let n = t.unicode_len();
    let mut i: usize = 0;
    while i < n
        invariant
            n == t@.len(),
            t@ == s@,
            i <= n,
            out@ == old(out)@ + escaped(t@.subrange(0, i as int)),
        decreases n - i,
    {
        let c = t.get_char(i);
        let ghost before = out@;
        proof {
            reveal_strlit("\\\\");
            reveal_strlit("\\\"");
            reveal_strlit("\\n");
            reveal_strlit("\\r");
            reveal_strlit("\\t");
        }
        assert("\\\\"@ =~= seq!['\\', '\\']);
        assert("\\\""@ =~= seq!['\\', '\"']);
        assert("\\n"@ =~= seq!['\\', 'n']);
        assert("\\r"@ =~= seq!['\\', 'r']);
        assert("\\t"@ =~= seq!['\\', 't']);

        if c == '\\' {
            push_str(out, "\\\\");
        } else if c == '\"' {
            push_str(out, "\\\"");
        } else if c == '\n' {
            push_str(out, "\\n");
        } else if c == '\r' {
            push_str(out, "\\r");
        } else if c == '\t' {
            push_str(out, "\\t");
        } else {
            push_char(out, c);
        }
        assert(t@.subrange(0, i + 1).drop_last() =~= t@.subrange(0, i as int));
        assert(out@ =~= before + escape_char(c));
        i = i + 1;
    }
    assert(t@.subrange(0, n as int) =~= t@);
}

pub open spec fn ir_type(t: Type) -> Seq<char> {
    match t {
        Type::I32 => "i32"@,
        Type::Char => "char"@,
        Type::Bool => "bool"@,
        Type::Str => "str"@,
        Type::Void => "void"@,
        Type::Struct(n) => "(struct "@ + n@ + ")"@,
    }
}

pub open spec fn binop_text(op: BinOp) -> Seq<char> {
    match op {
        BinOp::Add => "add"@,
        BinOp::Sub => "sub"@,
        BinOp::Mul => "mul"@,
        BinOp::Div => "div"@,
        BinOp::Lt => "lt"@,
        BinOp::Gt => "gt"@,
        BinOp::LtEq => "le"@,
        BinOp::GtEq => "ge"@,
        BinOp::Eq => "eq"@,
        BinOp::NotEq => "ne"@,
        BinOp::And => "and"@,
        BinOp::Or => "or"@,
    }
}

/// The end of a node opened at indentation `pad`: a new line, `pad`, `)`.
pub open spec fn closing(pad: Seq<char>) -> Seq<char> {
    "\n"@ + pad + ")"@
}

/// One level deeper than `pad`.
pub open spec fn deeper(pad: Seq<char>) -> Seq<char> {
    pad + "  "@
}

/// The IR text of an expression whose first line is indented by `pad`; children sit
/// one level deeper, one per line.
pub open spec fn ir_expr(e: Expr, pad: Seq<char>) -> Seq<char>
    decreases e, 0nat,
{
    match e {
        Expr::Int(v) => pad + "(int "@ + int_text(v as int) + ")"@,
        Expr::Char(c) => pad + "(char "@ + decimal(c as u32 as nat) + ")"@,
        Expr::Bool(b) => pad + if b { "(bool 1)"@ } else { "(bool 0)"@ },
        Expr::StringLit(s) => pad + "(string \""@ + escaped(s@) + "\")"@,
        Expr::Ident(n) => pad + "(ident "@ + n@ + ")"@,
        Expr::Unary { op, expr } => pad + "(unary not\n"@ + ir_expr(*expr, deeper(pad)) + closing(pad),
        Expr::Binary { op, left, right } => pad + "(binary "@ + binop_text(op) + "\n"@ + ir_expr(*left, deeper(pad))
            + "\n"@ + ir_expr(*right, deeper(pad)) + closing(pad),
        Expr::Call { callee, args } => if args@.len() == 0 {
            pad + "(call "@ + callee@ + ")"@
        } else {
            pad + "(call "@ + callee@ + "\n"@ + ir_args(args@, 0, deeper(pad)) + closing(pad)
        },
        Expr::FieldAccess { expr, field } => pad + "(field "@ + field@ + "\n"@ + ir_expr(*expr, deeper(pad)) + closing(pad),
        Expr::StructInit { name, fields } => if fields@.len() == 0 {
            pad + "(struct_init "@ + name@ + ")"@
        } else {
            pad + "(struct_init "@ + name@ + "\n"@ + ir_inits(fields@, 0, deeper(pad)) + closing(pad)
        },
    }
}

/// A line break between items, none after the last.
pub open spec fn sep(k: int, len: int) -> Seq<char> {
    if k + 1 < len { "\n"@ } else { seq![] }
}

pub open spec fn ir_args(args: Seq<Expr>, k: int, pad: Seq<char>) -> Seq<char>
    decreases args, args.len() - k,
{
    if k < 0 || k >= args.len() {
        seq![]
    } else {
        ir_expr(args[k], pad) + sep(k, args.len() as int) + ir_args(args, k + 1, pad)
    }
}

pub open spec fn ir_inits(fields: Seq<(String, Expr)>, k: int, pad: Seq<char>) -> Seq<char>
    decreases fields, fields.len() - k,
{
    if k < 0 || k >= fields.len() {
        seq![]
    } else {
        pad + "(field "@ + fields[k].0@ + "\n"@ + ir_expr(fields[k].1, deeper(pad)) + closing(pad)
            + sep(k, fields.len() as int) + ir_inits(fields, k + 1, pad)
    }
}

/// A node with one expression child.
pub open spec fn ir_node(head: Seq<char>, e: Expr, pad: Seq<char>) -> Seq<char> {
    pad + head + "\n"@ + ir_expr(e, deeper(pad)) + closing(pad)
}

pub open spec fn ir_stmt(s: Stmt, pad: Seq<char>) -> Seq<char>
    decreases s, 0nat,
{
    match s {
        Stmt::Let { name, ty, expr } => ir_node("(let "@ + name@ + " "@ + ir_type(ty), expr, pad),
        Stmt::Assign { name, expr } => ir_node("(assign "@ + name@, expr, pad),
        Stmt::FieldAssign { base, field, expr } => ir_node("(field_assign "@ + base@ + " "@ + field@, expr, pad),
        Stmt::If { cond, then_block, else_block } => pad + "(if\n"@ + ir_expr(cond, deeper(pad)) + "\n"@
            + ir_block(then_block, deeper(pad)) + match else_block {
            Some(eb) => "\n"@ + deeper(pad) + "(else\n"@ + ir_block(eb, deeper(deeper(pad))) + closing(deeper(pad)),
            None => seq![],
        } + closing(pad),
        Stmt::While { cond, body } => pad + "(while\n"@ + ir_expr(cond, deeper(pad)) + "\n"@ + ir_block(body, deeper(pad))
            + closing(pad),
        Stmt::Return(e) => ir_node("(return"@, e, pad),
        Stmt::Expr(e) => ir_node("(expr"@, e, pad),
    }
}

pub open spec fn ir_block(b: Block, pad: Seq<char>) -> Seq<char>
    decreases b, b.statements@.len() + 1,
{
    if b.statements@.len() == 0 {
        pad + "(block)"@
    } else {
        pad + "(block\n"@ + ir_stmts(b, 0, deeper(pad)) + closing(pad)
    }
}

pub open spec fn ir_stmts(b: Block, k: int, pad: Seq<char>) -> Seq<char>
    decreases b, b.statements@.len() - k,
{
    if k < 0 || k >= b.statements@.len() {
        seq![]
    } else {
        ir_stmt(b.statements@[k], pad) + sep(k, b.statements@.len() as int) + ir_stmts(b, k + 1, pad)
    }
}

pub open spec fn ir_param(p: Param, pad: Seq<char>) -> Seq<char> {
    pad + "(param "@ + p.name@ + " "@ + ir_type(p.ty) + ")"@
}

pub open spec fn ir_params(ps: Seq<Param>, k: int, pad: Seq<char>) -> Seq<char>
    decreases ps.len() - k,
{
    if k < 0 || k >= ps.len() {
        seq![]
    } else {
        ir_param(ps[k], pad) + sep(k, ps.len() as int) + ir_params(ps, k + 1, pad)
    }
}

pub open spec fn ir_fn(f: Function, pad: Seq<char>) -> Seq<char> {
    let inner = deeper(pad);
    pad + "(fn "@ + f.name@ + "\n"@ + inner + "(params"@
        + (if f.params@.len() == 0 { ")"@ } else { "\n"@ + ir_params(f.params@, 0, deeper(inner)) + closing(inner) })
        + "\n"@ + inner + "(ret "@ + ir_type(f.ret) + ")\n"@ + ir_block(f.body, inner) + closing(pad)
}

pub open spec fn ir_fns(fs: Seq<Function>, k: int, pad: Seq<char>) -> Seq<char>
    decreases fs.len() - k,
{
    if k < 0 || k >= fs.len() {
        seq![]
    } else {
        ir_fn(fs[k], pad) + sep(k, fs.len() as int) + ir_fns(fs, k + 1, pad)
    }
}

pub open spec fn ir_struct(s: StructDecl) -> Seq<char> {
    "    (struct "@ + s.name@ + if s.fields@.len() == 0 {
        ")"@
    } else {
        "\n"@ + ir_params(s.fields@, 0, "      "@) + "\n    )"@
    }
}

pub open spec fn ir_structs(ss: Seq<StructDecl>, k: int) -> Seq<char>
    decreases ss.len() - k,
{
    if k < 0 || k >= ss.len() {
        seq![]
    } else {
        ir_struct(ss[k]) + sep(k, ss.len() as int) + ir_structs(ss, k + 1)
    }
}

/// The IR text of a program.
pub open spec fn ir_program(p: Program) -> Seq<char> {
    "(mee_ir v0\n  (structs"@
        + (if p.structs@.len() == 0 { ")"@ } else { "\n"@ + ir_structs(p.structs@, 0) + "\n  )"@ })
        + "\n  (functions"@
        + (if p.functions@.len() == 0 { ")"@ } else { "\n"@ + ir_fns(p.functions@, 0, "    "@) + "\n  )"@ })
        + "\n)\n"@
}

fn write_type_name(out: &mut String, ty: &Type)
    ensures
        final(out)@ == old(out)@ + ir_type(*ty),
{
    match ty {
        Type::I32 => push_str(out, "i32"),
        Type::Char => push_str(out, "char"),
        Type::Bool => push_str(out, "bool"),
        Type::Str => push_str(out, "str"),
        Type::Void => push_str(out, "void"),
        Type::Struct(name) => {
            push_str(out, "(struct ");
            push_str(out, name.as_str());
            push_str(out, ")");
        },
    }
}

fn binop_name(op: BinOp) -> (r: &'static str)
    ensures
        r@ == binop_text(op),
{
    match op {
        BinOp::Add => "add",
        BinOp::Sub => "sub",
        BinOp::Mul => "mul",
        BinOp::Div => "div",
        BinOp::Lt => "lt",
        BinOp::Gt => "gt",
        BinOp::LtEq => "le",
        BinOp::GtEq => "ge",
        BinOp::Eq => "eq",
        BinOp::NotEq => "ne",
        BinOp::And => "and",
        BinOp::Or => "or",
    }
}

fn deeper_pad(pad: &String) -> (r: String)
    ensures
        r@ == deeper(pad@),
{
    let mut inner = pad.clone();
    push_str(&mut inner, "  ");
    inner
}

fn close(out: &mut String, pad: &String)
    ensures
        final(out)@ == old(out)@ + closing(pad@),
{
    push_str(out, "\n");
    push_str(out, pad.as_str());
    push_str(out, ")");
    assert(out@ =~= old(out)@ + closing(pad@));
}

fn emit_param(out: &mut String, p: &Param, pad: &String)
    ensures
        final(out)@ == old(out)@ + ir_param(*p, pad@),
{
    push_str(out, pad.as_str());
    push_str(out, "(param ");
    push_str(out, p.name.as_str());
    push_str(out, " ");
    write_type_name(out, &p.ty);
    push_str(out, ")");
    assert(out@ =~= old(out)@ + ir_param(*p, pad@));
}

fn emit_params(out: &mut String, ps: &Vec<Param>, pad: &String)
    ensures
        final(out)@ == old(out)@ + ir_params(ps@, 0, pad@),
{
    let mut i: usize = 0;
    while i < ps.len()
        invariant
            i <= ps@.len(),
            out@ + ir_params(ps@, i as int, pad@) == old(out)@ + ir_params(ps@, 0, pad@),
        decreases ps@.len() - i,
    {
        let ghost before = out@;
        emit_param(out, &ps[i], pad);
        if i + 1 != ps.len() {
            push_str(out, "\n");
        }
        assert(out@ + ir_params(ps@, i + 1, pad@) =~= before + ir_params(ps@, i as int, pad@));
        i = i + 1;
    }
    assert(out@ =~= out@ + ir_params(ps@, i as int, pad@));
}

#[verifier::loop_isolation(false)]
#[verifier::spinoff_prover]
#[verifier::rlimit(100)]
fn emit_expr(out: &mut String, e: &Expr, pad: &String)
    ensures
        final(out)@ == old(out)@ + ir_expr(*e, pad@),
    decreases e, 0nat,
{
    let ghost o = out@;
    let inner = deeper_pad(pad);
    match e {
        Expr::Int(v) => {
            push_str(out, pad.as_str());
            push_str(out, "(int ");
            push_int(out, *v as i64);
            push_str(out, ")");
            assert(out@ =~= o + ir_expr(*e, pad@));
        },
        Expr::Char(c) => {
            push_str(out, pad.as_str());
            push_str(out, "(char ");
            push_nat(out, *c as u32 as u64);
            push_str(out, ")");
            assert(out@ =~= o + ir_expr(*e, pad@));
        },
        Expr::Bool(b) => {
            push_str(out, pad.as_str());
            push_str(out, if *b { "(bool 1)" } else { "(bool 0)" });
            assert(out@ =~= o + ir_expr(*e, pad@));
        },
        Expr::StringLit(s) => {
            push_str(out, pad.as_str());
            push_str(out, "(string \"");
            escape_str(out, s);
            push_str(out, "\")");
            assert(out@ =~= o + ir_expr(*e, pad@));
        },
        Expr::Ident(n) => {
            push_str(out, pad.as_str());
            push_str(out, "(ident ");
            push_str(out, n.as_str());
            push_str(out, ")");
            assert(out@ =~= o + ir_expr(*e, pad@));
        },
        Expr::Unary { expr, .. } => {
            push_str(out, pad.as_str());
            push_str(out, "(unary not\n");
            emit_expr(out, expr, &inner);
            close(out, pad);
            assert(out@ =~= o + ir_expr(*e, pad@));
        },
        Expr::Binary { op, left, right } => {
            push_str(out, pad.as_str());
            push_str(out, "(binary ");
            push_str(out, binop_name(*op));
            push_str(out, "\n");
            emit_expr(out, left, &inner);
            push_str(out, "\n");
            emit_expr(out, right, &inner);
            close(out, pad);
            assert(out@ =~= o + ir_expr(*e, pad@));
        },
        Expr::Call { callee, args } => {
            emit_call_ir(out, callee, args, pad);
            assert(out@ =~= o + ir_expr(*e, pad@));
        },
        Expr::FieldAccess { expr, field } => {
            push_str(out, pad.as_str());
            push_str(out, "(field ");
            push_str(out, field.as_str());
            push_str(out, "\n");
            emit_expr(out, expr, &inner);
            close(out, pad);
            assert(out@ =~= o + ir_expr(*e, pad@));
        },
        Expr::StructInit { name, fields } => {
            emit_init_ir(out, name, fields, pad);
            assert(out@ =~= o + ir_expr(*e, pad@));
        },
    }
}

#[verifier::loop_isolation(false)]
fn emit_call_ir(out: &mut String, callee: &String, args: &Vec<Expr>, pad: &String)
    ensures
        final(out)@ == old(out)@ + ir_expr(call_expr(*callee, *args), pad@),
    decreases args, 1nat,
{
    let ghost o = out@;
    let inner = deeper_pad(pad);
    push_str(out, pad.as_str());
    push_str(out, "(call ");
    push_str(out, callee.as_str());
    if args.len() == 0 {
        push_str(out, ")");
    } else {
        push_str(out, "\n");
        let ghost start = out@;
        let mut i: usize = 0;
        while i < args.len()
            invariant
                i <= args@.len(),
                inner@ == deeper(pad@),
                out@ + ir_args(args@, i as int, inner@) == start + ir_args(args@, 0, inner@),
            decreases args@.len() - i,
        {
            let ghost before = out@;
            emit_expr(out, &args[i], &inner);
            if i + 1 != args.len() {
                push_str(out, "\n");
            }
            assert(out@ + ir_args(args@, i + 1, inner@) =~= before + ir_args(args@, i as int, inner@));
            i = i + 1;
        }
        assert(out@ =~= start + ir_args(args@, 0, inner@));
        close(out, pad);
    }
    assert(out@ =~= o + ir_expr(call_expr(*callee, *args), pad@));
}

#[verifier::loop_isolation(false)]
fn emit_init_ir(out: &mut String, name: &String, fields: &Vec<(String, Expr)>, pad: &String)
    ensures
        final(out)@ == old(out)@ + ir_expr(init_expr(*name, *fields), pad@),
    decreases fields, 1nat,
{
    let ghost o = out@;
    let inner = deeper_pad(pad);
    push_str(out, pad.as_str());
    push_str(out, "(struct_init ");
    push_str(out, name.as_str());
    if fields.len() == 0 {
        push_str(out, ")");
    } else {
        push_str(out, "\n");
        let ghost start = out@;
        let inner2 = deeper_pad(&inner);
        let mut i: usize = 0;
        while i < fields.len()
            invariant
                i <= fields@.len(),
                inner@ == deeper(pad@),
                inner2@ == deeper(inner@),
                out@ + ir_inits(fields@, i as int, inner@) == start + ir_inits(fields@, 0, inner@),
            decreases fields@.len() - i,
        {
            let ghost before = out@;
            push_str(out, inner.as_str());
            push_str(out, "(field ");
            push_str(out, fields[i].0.as_str());
            push_str(out, "\n");
            emit_expr(out, &fields[i].1, &inner2);
            close(out, &inner);
            if i + 1 != fields.len() {
                push_str(out, "\n");
            }
            assert(out@ + ir_inits(fields@, i + 1, inner@) =~= before + ir_inits(fields@, i as int, inner@));
            i = i + 1;
        }
        assert(out@ =~= start + ir_inits(fields@, 0, inner@));
        close(out, pad);
    }
    assert(out@ =~= o + ir_expr(init_expr(*name, *fields), pad@));
}

fn emit_node(out: &mut String, head: &String, e: &Expr, pad: &String)
    ensures
        final(out)@ == old(out)@ + ir_node(head@, *e, pad@),
{
    let inner = deeper_pad(pad);
    push_str(out, pad.as_str());
    push_str(out, head.as_str());
    push_str(out, "\n");
    emit_expr(out, e, &inner);
    close(out, pad);
    assert(out@ =~= old(out)@ + ir_node(head@, *e, pad@));
}

#[verifier::spinoff_prover]
fn emit_stmt(out: &mut String, s: &Stmt, pad: &String)
    ensures
        final(out)@ == old(out)@ + ir_stmt(*s, pad@),
    decreases s, 1nat,
{
    let ghost o = out@;
    let inner = deeper_pad(pad);
    match s {
        Stmt::Let { name, ty, expr } => {
            let mut head = crate::text::string_from("(let ");
            push_str(&mut head, name.as_str());
            push_str(&mut head, " ");
            write_type_name(&mut head, ty);
            emit_node(out, &head, expr, pad);
            assert(head@ =~= "(let "@ + name@ + " "@ + ir_type(*ty));
            assert(out@ =~= o + ir_stmt(*s, pad@));
        },
        Stmt::Assign { name, expr } => {
            let mut head = crate::text::string_from("(assign ");
            push_str(&mut head, name.as_str());
            emit_node(out, &head, expr, pad);
            assert(out@ =~= o + ir_stmt(*s, pad@));
        },
        Stmt::FieldAssign { base, field, expr } => {
            let mut head = crate::text::string_from("(field_assign ");
            push_str(&mut head, base.as_str());
            push_str(&mut head, " ");
            push_str(&mut head, field.as_str());
            emit_node(out, &head, expr, pad);
            assert(head@ =~= "(field_assign "@ + base@ + " "@ + field@);
            assert(out@ =~= o + ir_stmt(*s, pad@));
        },
        Stmt::If { cond, then_block, else_block } => {
            emit_if_ir(out, s, pad);
            assert(out@ =~= o + ir_stmt(*s, pad@));
        },
        Stmt::While { cond, body } => {
            push_str(out, pad.as_str());
            push_str(out, "(while\n");
            emit_expr(out, cond, &inner);
            push_str(out, "\n");
            emit_block(out, body, &inner);
            close(out, pad);
            assert(out@ =~= o + ir_stmt(*s, pad@));
        },
        Stmt::Return(e) => {
            let head = crate::text::string_from("(return");
            emit_node(out, &head, e, pad);
            assert(out@ =~= o + ir_stmt(*s, pad@));
        },
        Stmt::Expr(e) => {
            let head = crate::text::string_from("(expr");
            emit_node(out, &head, e, pad);
            assert(out@ =~= o + ir_stmt(*s, pad@));
        },
    }
}

#[verifier::spinoff_prover]
#[verifier::rlimit(100)]
fn emit_if_ir(out: &mut String, s: &Stmt, pad: &String)
    requires
        s is If,
    ensures
        final(out)@ == old(out)@ + ir_stmt(*s, pad@),
    decreases s, 0nat,
{
    let ghost o = out@;
    let inner = deeper_pad(pad);
    if let Stmt::If { cond, then_block, else_block } = s {
        push_str(out, pad.as_str());
        push_str(out, "(if\n");
        emit_expr(out, cond, &inner);
        push_str(out, "\n");
        emit_block(out, then_block, &inner);
        let ghost mid = out@;
        match else_block {
            Some(eb) => {
                let inner2 = deeper_pad(&inner);
                push_str(out, "\n");
                push_str(out, inner.as_str());
                push_str(out, "(else\n");
                emit_block(out, eb, &inner2);
                close(out, &inner);
                assert(out@ =~= mid + ("\n"@ + deeper(pad@) + "(else\n"@ + ir_block(*eb, deeper(deeper(pad@))) + closing(deeper(pad@))));
            },
            None => {
                assert(out@ =~= mid + Seq::<char>::empty());
            },
        }
        close(out, pad);
        assert(out@ =~= o + ir_stmt(*s, pad@));
    }
}

#[verifier::loop_isolation(false)]
fn emit_block(out: &mut String, b: &Block, pad: &String)
    ensures
        final(out)@ == old(out)@ + ir_block(*b, pad@),
    decreases b, 0nat,
{
    push_str(out, pad.as_str());
    if b.statements.len() == 0 {
        push_str(out, "(block)");
        assert(out@ =~= old(out)@ + ir_block(*b, pad@));
        return;
    }
    push_str(out, "(block\n");
    let inner = deeper_pad(pad);
    let ghost start = out@;
    let mut i: usize = 0;
    while i < b.statements.len()
        invariant
            i <= b.statements@.len(),
            inner@ == deeper(pad@),
            out@ + ir_stmts(*b, i as int, inner@) == start + ir_stmts(*b, 0, inner@),
        decreases b.statements@.len() - i,
    {
        let ghost before = out@;
        emit_stmt(out, &b.statements[i], &inner);
        if i + 1 != b.statements.len() {
            push_str(out, "\n");
        }
        assert(out@ + ir_stmts(*b, i + 1, inner@) =~= before + ir_stmts(*b, i as int, inner@));
        i = i + 1;
    }
    assert(out@ =~= start + ir_stmts(*b, 0, inner@));
    close(out, pad);
    assert(out@ =~= old(out)@ + ir_block(*b, pad@));
}

#[verifier::spinoff_prover]
#[verifier::rlimit(100)]
fn emit_fn(out: &mut String, f: &Function, pad: &String)
    ensures
        final(out)@ == old(out)@ + ir_fn(*f, pad@),
{
    let inner = deeper_pad(pad);
    push_str(out, pad.as_str());
    push_str(out, "(fn ");
    push_str(out, f.name.as_str());
    push_str(out, "\n");
    push_str(out, inner.as_str());
    push_str(out, "(params");
    let ghost a = out@;
    if f.params.len() == 0 {
        push_str(out, ")");
    } else {
        let inner2 = deeper_pad(&inner);
        push_str(out, "\n");
        emit_params(out, &f.params, &inner2);
        close(out, &inner);
    }
    let ghost b = out@;
    push_str(out, "\n");
    push_str(out, inner.as_str());
    push_str(out, "(ret ");
    write_type_name(out, &f.ret);
    push_str(out, ")\n");
    emit_block(out, &f.body, &inner);
    close(out, pad);
    assert(out@ =~= old(out)@ + ir_fn(*f, pad@));
}

/// Prints a program as the IR's indented S-expression text.
pub fn emit_ir(program: &Program) -> (r: String)
    ensures
        r@ == ir_program(*program),
{
    let mut out = String::new();
    push_str(&mut out, "(mee_ir v0\n  (structs");
    let ghost s0 = out@;
    if program.structs.len() == 0 {
        push_str(&mut out, ")");
    } else {
        push_str(&mut out, "\n");
        let ghost start = out@;
        let fpad = crate::text::string_from("      ");
        let mut i: usize = 0;
        while i < program.structs.len()
            invariant
                i <= program.structs@.len(),
                fpad@ == "      "@,
                out@ + ir_structs(program.structs@, i as int) == start + ir_structs(program.structs@, 0),
            decreases program.structs@.len() - i,
        {
            let ghost before = out@;
            let s = &program.structs[i];
            push_str(&mut out, "    (struct ");
            push_str(&mut out, s.name.as_str());
            if s.fields.len() == 0 {
                push_str(&mut out, ")");
            } else {
                push_str(&mut out, "\n");
                emit_params(&mut out, &s.fields, &fpad);
                push_str(&mut out, "\n    )");
            }
            assert(out@ =~= before + ir_struct(*s));
            if i + 1 != program.structs.len() {
                push_str(&mut out, "\n");
            }
            assert(out@ + ir_structs(program.structs@, i + 1) =~= before + ir_structs(program.structs@, i as int));
            i = i + 1;
        }
        assert(out@ =~= start + ir_structs(program.structs@, 0));
        push_str(&mut out, "\n  )");
    }
    push_str(&mut out, "\n  (functions");
    let ghost s1 = out@;
    if program.functions.len() == 0 {
        push_str(&mut out, ")");
    } else {
        push_str(&mut out, "\n");
        let ghost start = out@;
        let pad = crate::text::string_from("    ");
        let mut i: usize = 0;
        while i < program.functions.len()
            invariant
                i <= program.functions@.len(),
                pad@ == "    "@,
                out@ + ir_fns(program.functions@, i as int, pad@) == start + ir_fns(program.functions@, 0, pad@),
            decreases program.functions@.len() - i,
        {
            let ghost before = out@;
            emit_fn(&mut out, &program.functions[i], &pad);
            if i + 1 != program.functions.len() {
                push_str(&mut out, "\n");
            }
            assert(out@ + ir_fns(program.functions@, i + 1, pad@) =~= before + ir_fns(program.functions@, i as int, pad@));
            i = i + 1;
        }
        assert(out@ =~= start + ir_fns(program.functions@, 0, pad@));
        push_str(&mut out, "\n  )");
    }
    push_str(&mut out, "\n)\n");
    assert(out@ =~= ir_program(*program));
    out
}

} // verus!
