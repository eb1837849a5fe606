use vstd::prelude::*;
use crate::ast::{same_type, is_numeric_type, BinOp, Block, Expr, Function, Param, Program, Stmt, StructDecl, Type};
use crate::intrinsics::{arity_of, intrinsic_of, lookup_intrinsic};
use crate::text::{push_str, string_eq, string_from};

verus! {

broadcast use vstd::std_specs::vec::group_vec_axioms, vstd::string::group_string_axioms;

/// A violation of the typing rules, described in words.
#[derive(Debug)]
pub struct TypeError {
    pub message: String,
}

/// Variables in scope with their types, in order of binding; a later binding of a
/// name shadows an earlier one.
pub type Env = Seq<(String, Type)>;

pub open spec fn env_lookup(env: Env, n: Seq<char>) -> Option<Type>
    decreases env.len(),
{
    if env.len() == 0 {
        None
    } else if env.last().0@ == n {
        Some(env.last().1)
    } else {
        env_lookup(env.drop_last(), n)
    }
}

/// The index of the last function named `n` among the first `k`.
pub open spec fn find_fn(fns: Seq<Function>, k: int, n: Seq<char>) -> Option<int>
    decreases k,
{
    if k <= 0 {
        None
    } else if fns[k - 1].name@ == n {
        Some(k - 1)
    } else {
        find_fn(fns, k - 1, n)
    }
}

/// The index of the last struct named `n` among the first `k`.
pub open spec fn find_struct(ss: Seq<StructDecl>, k: int, n: Seq<char>) -> Option<int>
    decreases k,
{
    if k <= 0 {
        None
    } else if ss[k - 1].name@ == n {
        Some(k - 1)
    } else {
        find_struct(ss, k - 1, n)
    }
}

/// The index of the last field named `n` among the first `k`.
pub open spec fn find_field(fs: Seq<Param>, k: int, n: Seq<char>) -> Option<int>
    decreases k,
{
    if k <= 0 {
        None
    } else if fs[k - 1].name@ == n {
        Some(k - 1)
    } else {
        find_field(fs, k - 1, n)
    }
}

/// The declared type of field `f` of the struct named `s`.
pub open spec fn field_type(p: Program, s: Seq<char>, f: Seq<char>) -> Option<Type> {
    match find_struct(p.structs@, p.structs@.len() as int, s) {
        Some(si) => {
            let d = p.structs@[si];
            match find_field(d.fields@, d.fields@.len() as int, f) {
                Some(fi) => Some(d.fields@[fi].ty),
                None => None,
            }
        },
        None => None,
    }
}

/// A value of type `actual` may stand where `expected` is required: the types are the
/// same, or a string literal's offset is used as an `i32`.
pub open spec fn assignable(actual: Type, expected: Type) -> bool {
    same_type(actual, expected) || (actual is Str && expected is I32)
}

/// `n` parameters of type `i32`.
pub open spec fn i32_params(n: nat) -> Seq<Type> {
    Seq::new(n, |i: int| Type::I32)
}

/// The parameter types and result type of a callee: an intrinsic takes `i32`s and
/// returns an `i32`; a user function has its declared signature (the last function
/// of that name).
pub open spec fn callee_sig(n: Seq<char>, p: Program) -> Option<(Seq<Type>, Type)> {
    match intrinsic_of(n) {
        Some(k) => Some((i32_params(arity_of(k)), Type::I32)),
        None => match find_fn(p.functions@, p.functions@.len() as int, n) {
            Some(fi) => Some((p.functions@[fi].params@.map_values(|q: Param| q.ty), p.functions@[fi].ret)),
            None => None,
        },
    }
}

/// Operands of `&&`, `||` and `!` are numbers or booleans, read as truth values.
pub open spec fn is_truthy_type(t: Type) -> bool {
    t is I32 || t is Char || t is Bool
}

pub open spec fn is_comparison(op: BinOp) -> bool {
    op is Lt || op is Gt || op is LtEq || op is GtEq || op is Eq || op is NotEq
}

pub open spec fn is_logical(op: BinOp) -> bool {
    op is And || op is Or
}

/// The type of an expression, or `None` where it breaks a typing rule.
pub open spec fn type_of(e: Expr, env: Env, p: Program) -> Option<Type>
    decreases e, 0nat,
{
    match e {
        Expr::Int(_) => Some(Type::I32),
        Expr::Char(_) => Some(Type::Char),
        Expr::Bool(_) => Some(Type::Bool),
        Expr::StringLit(_) => Some(Type::Str),
        Expr::Ident(n) => env_lookup(env, n@),
        Expr::Unary { op, expr } => match type_of(*expr, env, p) {
            Some(t) => if is_truthy_type(t) { Some(Type::Bool) } else { None },
            None => None,
        },
        Expr::Binary { op, left, right } => match (type_of(*left, env, p), type_of(*right, env, p)) {
            (Some(l), Some(r)) => if is_logical(op) {
                if is_truthy_type(l) && is_truthy_type(r) { Some(Type::Bool) } else { None }
            } else if is_numeric_type(l) && is_numeric_type(r) {
                if is_comparison(op) { Some(Type::Bool) } else { Some(Type::I32) }
            } else {
                None
            },
            _ => None,
        },
        Expr::Call { callee, args } => match callee_sig(callee@, p) {
            Some((ps, ret)) => if args@.len() == ps.len() && args_fit(args@, 0, ps, env, p) {
                Some(ret)
            } else {
                None
            },
            None => None,
        },
        Expr::FieldAccess { expr, field } => match type_of(*expr, env, p) {
            Some(Type::Struct(s)) => field_type(p, s@, field@),
            _ => None,
        },
        Expr::StructInit { name, fields } => match find_struct(p.structs@, p.structs@.len() as int, name@) {
            Some(si) => {
                let d = p.structs@[si];
                if fields@.len() == d.fields@.len()
                    && (forall|i: int, j: int| 0 <= i < j < fields@.len() ==> fields@[i].0@ != fields@[j].0@)
                    && inits_fit(fields@, 0, name@, env, p) {
                    Some(Type::Struct(name))
                } else {
                    None
                }
            },
            None => None,
        },
    }
}

/// The arguments from the `k`-th on have types that fit the parameter types `ps`.
pub open spec fn args_fit(args: Seq<Expr>, k: int, ps: Seq<Type>, env: Env, p: Program) -> bool
    decreases args, args.len() - k,
{
    if k < 0 || k >= args.len() {
        true
    } else {
        &&& type_of(args[k], env, p) matches Some(t) && k < ps.len() && assignable(t, ps[k])
        &&& args_fit(args, k + 1, ps, env, p)
    }
}

/// The field initializers from the `k`-th on name fields of struct `s` and have
/// values that fit their declared types.
pub open spec fn inits_fit(fields: Seq<(String, Expr)>, k: int, s: Seq<char>, env: Env, p: Program) -> bool
    decreases fields, fields.len() - k,
{
    if k < 0 || k >= fields.len() {
        true
    } else {
        &&& type_of(fields[k].1, env, p) matches Some(t) && field_type(p, s, fields[k].0@) matches Some(ft)
            && assignable(t, ft)
        &&& inits_fit(fields, k + 1, s, env, p)
    }
}

/// The environment after statement `s`, or `None` where it breaks a typing rule.
/// `ret` is the declared return type of the enclosing function. Variables bound inside
/// a nested block stay bound after it.
pub open spec fn check_stmt(s: Stmt, env: Env, p: Program, ret: Type) -> Option<Env>
    decreases s, 0nat,
{
    match s {
        Stmt::Let { name, ty, expr } => match type_of(expr, env, p) {
            Some(t) => if assignable(t, ty) { Some(env.push((name, ty))) } else { None },
            None => None,
        },
        Stmt::Assign { name, expr } => match (env_lookup(env, name@), type_of(expr, env, p)) {
            (Some(vt), Some(t)) => if assignable(t, vt) { Some(env) } else { None },
            _ => None,
        },
        Stmt::FieldAssign { base, field, expr } => match env_lookup(env, base@) {
            Some(Type::Struct(sn)) => match (field_type(p, sn@, field@), type_of(expr, env, p)) {
                (Some(ft), Some(t)) => if assignable(t, ft) { Some(env) } else { None },
                _ => None,
            },
            _ => None,
        },
        Stmt::If { cond, then_block, else_block } => match type_of(cond, env, p) {
            Some(Type::Bool) => match check_block(then_block, 0, env, p, ret) {
                Some(env1) => match else_block {
                    Some(eb) => check_block(eb, 0, env1, p, ret),
                    None => Some(env1),
                },
                None => None,
            },
            _ => None,
        },
        Stmt::While { cond, body } => match type_of(cond, env, p) {
            Some(Type::Bool) => check_block(body, 0, env, p, ret),
            _ => None,
        },
        Stmt::Return(e) => match type_of(e, env, p) {
            Some(t) => if assignable(t, ret) { Some(env) } else { None },
            None => None,
        },
        Stmt::Expr(e) => match type_of(e, env, p) {
            Some(_) => Some(env),
            None => None,
        },
    }
}

/// The environment after the statements of `b` from the `k`-th on.
pub open spec fn check_block(b: Block, k: int, env: Env, p: Program, ret: Type) -> Option<Env>
    decreases b, b.statements@.len() - k,
{
    if k < 0 || k >= b.statements@.len() {
        Some(env)
    } else {
        match check_stmt(b.statements@[k], env, p, ret) {
            Some(env1) => check_block(b, k + 1, env1, p, ret),
            None => None,
        }
    }
}

/// The environment at the start of a function body: its parameters.
pub open spec fn params_env(ps: Seq<Param>) -> Env {
    ps.map_values(|q: Param| (q.name, q.ty))
}

/// Every function body keeps the typing rules.
pub open spec fn well_typed(p: Program) -> bool {
    forall|i: int| 0 <= i < p.functions@.len() ==> (#[trigger] check_block(
        p.functions@[i].body, 0, params_env(p.functions@[i].params@), p, p.functions@[i].ret) is Some)
}

fn type_error(text: &str, name: &String) -> (r: TypeError)
    requires
        text@.len() > 0,
    ensures
        r.message@.len() > 0,
{
    let mut message = string_from(text);
    push_str(&mut message, name.as_str());
    TypeError { message }
}

fn plain_error(text: &str) -> (r: TypeError)
    requires
        text@.len() > 0,
    ensures
        r.message@.len() > 0,
{
    TypeError { message: string_from(text) }
}

fn is_assignable(actual: &Type, expected: &Type) -> (r: bool)
    ensures
        r == assignable(*actual, *expected),
{
    actual.same_as(expected) || (matches!(actual, Type::Str) && matches!(expected, Type::I32))
}

fn is_truthy(t: &Type) -> (r: bool)
    ensures
        r == is_truthy_type(*t),
{
    matches!(t, Type::I32 | Type::Char | Type::Bool)
}

fn is_numeric(t: &Type) -> (r: bool)
    ensures
        r == is_numeric_type(*t),
{
    matches!(t, Type::I32 | Type::Char)
}

pub(crate) fn lookup_var(env: &Vec<(String, Type)>, name: &String) -> (r: Option<Type>)
    ensures
        r == env_lookup(env@, name@),
{
    let mut k = env.len();
    assert(env@.subrange(0, k as int) =~= env@);
    while k > 0
        invariant
            k <= env@.len(),
            env_lookup(env@, name@) == env_lookup(env@.subrange(0, k as int), name@),
        decreases k,
    {
        let ghost pre = env@.subrange(0, k as int);
        assert(pre.drop_last() =~= env@.subrange(0, k - 1));
        if string_eq(&env[k - 1].0, name) {
            return Some(env[k - 1].1.duplicate());
        }
        k = k - 1;
    }
    None
}

pub(crate) fn find_fn_index(p: &Program, name: &String) -> (r: Option<usize>)
    ensures
        r matches Some(i) ==> find_fn(p.functions@, p.functions@.len() as int, name@) == Some(i as int) && i < p.functions@.len(),
        r is None ==> find_fn(p.functions@, p.functions@.len() as int, name@) is None,
{
    let mut k = p.functions.len();
    while k > 0
        invariant
            k <= p.functions@.len(),
            find_fn(p.functions@, p.functions@.len() as int, name@) == find_fn(p.functions@, k as int, name@),
        decreases k,
    {
        if string_eq(&p.functions[k - 1].name, name) {
            return Some(k - 1);
        }
        k = k - 1;
    }
    None
}

pub(crate) fn find_struct_index(p: &Program, name: &String) -> (r: Option<usize>)
    ensures
        r matches Some(i) ==> find_struct(p.structs@, p.structs@.len() as int, name@) == Some(i as int) && i < p.structs@.len(),
        r is None ==> find_struct(p.structs@, p.structs@.len() as int, name@) is None,
{
    let mut k = p.structs.len();
    while k > 0
        invariant
            k <= p.structs@.len(),
            find_struct(p.structs@, p.structs@.len() as int, name@) == find_struct(p.structs@, k as int, name@),
        decreases k,
    {
        if string_eq(&p.structs[k - 1].name, name) {
            return Some(k - 1);
        }
        k = k - 1;
    }
    None
}

pub(crate) fn find_field_index(fields: &Vec<Param>, name: &String) -> (r: Option<usize>)
    ensures
        r matches Some(i) ==> find_field(fields@, fields@.len() as int, name@) == Some(i as int) && i < fields@.len(),
        r is None ==> find_field(fields@, fields@.len() as int, name@) is None,
{
    let mut k = fields.len();
    while k > 0
        invariant
            k <= fields@.len(),
            find_field(fields@, fields@.len() as int, name@) == find_field(fields@, k as int, name@),
        decreases k,
    {
        if string_eq(&fields[k - 1].name, name) {
            return Some(k - 1);
        }
        k = k - 1;
    }
    None
}

fn lookup_field_type(p: &Program, s: &String, f: &String) -> (r: Option<Type>)
    ensures
        r == field_type(*p, s@, f@),
{
    match find_struct_index(p, s) {
        Some(si) => match find_field_index(&p.structs[si].fields, f) {
            Some(fi) => Some(p.structs[si].fields[fi].ty.duplicate()),
            None => None,
        },
        None => None,
    }
}

/// The type of an expression under the typing rules, or the first rule it breaks.
#[verifier::loop_isolation(false)]
fn type_of_expr(e: &Expr, env: &Vec<(String, Type)>, p: &Program) -> (r: Result<Type, TypeError>)
    ensures
        match r {
            Ok(t) => type_of(*e, env@, *p) == Some(t),
            Err(err) => type_of(*e, env@, *p) is None && err.message@.len() > 0,
        },
    decreases e, 0nat,
{
    match e {
        Expr::Int(_) => Ok(Type::I32),
        Expr::Char(_) => Ok(Type::Char),
        Expr::Bool(_) => Ok(Type::Bool),
        Expr::StringLit(_) => Ok(Type::Str),
        Expr::Ident(n) => match lookup_var(env, n) {
            Some(t) => Ok(t),
            None => {
                proof { reveal_strlit("unknown variable "); }
                Err(type_error("unknown variable ", n))
            },
        },
        Expr::Unary { op, expr } => {
            let t = type_of_expr(expr, env, p)?;
            if is_truthy(&t) {
                Ok(Type::Bool)
            } else {
                {
                    proof { reveal_strlit("operand of ! must be a number or a bool"); }
                    Err(plain_error("operand of ! must be a number or a bool"))
                }
            }
        },
        Expr::Binary { op, left, right } => {
            let l = type_of_expr(left, env, p)?;
            let r = type_of_expr(right, env, p)?;
            match op {
                BinOp::And | BinOp::Or => {
                    if is_truthy(&l) && is_truthy(&r) {
                        Ok(Type::Bool)
                    } else {
                        {
                            proof { reveal_strlit("logical ops require numbers or bools"); }
                            Err(plain_error("logical ops require numbers or bools"))
                        }
                    }
                },
                _ => {
                    if !is_numeric(&l) || !is_numeric(&r) {
                        {
                            proof { reveal_strlit("binary ops require i32 or char"); }
                            Err(plain_error("binary ops require i32 or char"))
                        }
                    } else {
                        match op {
                            BinOp::Lt | BinOp::Gt | BinOp::LtEq | BinOp::GtEq | BinOp::Eq
                            | BinOp::NotEq => Ok(Type::Bool),
                            _ => Ok(Type::I32),
                        }
                    }
                },
            }
        },
        Expr::Call { callee, args } => type_of_call(callee, args, env, p),
        Expr::FieldAccess { expr, field } => {
            let t = type_of_expr(expr, env, p)?;
            match &t {
                Type::Struct(s) => match lookup_field_type(p, s, field) {
                    Some(ft) => Ok(ft),
                    None => {
                        proof { reveal_strlit("unknown field "); }
                        Err(type_error("unknown field ", field))
                    },
                },
                _ => {
                    proof { reveal_strlit("field access on non-struct"); }
                    Err(plain_error("field access on non-struct"))
                },
            }
        },
        Expr::StructInit { name, fields } => type_of_struct_init(name, fields, env, p),
    }
}

pub open spec fn call_expr(callee: String, args: Vec<Expr>) -> Expr {
    Expr::Call { callee, args }
}

pub open spec fn init_expr(name: String, fields: Vec<(String, Expr)>) -> Expr {
    Expr::StructInit { name, fields }
}

/// The type of a call: its callee's result type, where the arguments fit its parameters.
fn type_of_call(callee: &String, args: &Vec<Expr>, env: &Vec<(String, Type)>, p: &Program) -> (r: Result<Type, TypeError>)
    ensures
        match r {
            Ok(t) => type_of(call_expr(*callee, *args), env@, *p) == Some(t),
            Err(err) => type_of(call_expr(*callee, *args), env@, *p) is None && err.message@.len() > 0,
        },
    decreases args, 1nat,
{
    let ghost ps: Seq<Type>;
    let ret: Type;
    let params: Option<&Vec<Param>>;
    match lookup_intrinsic(callee) {
        Some(k) => {
            proof { ps = i32_params(arity_of(k)); }
            ret = Type::I32;
            params = None;
            if args.len() != k.arity() {
                proof { reveal_strlit("wrong number of arguments to "); }
                return Err(type_error("wrong number of arguments to ", callee));
            }
        },
        None => {
            let fi = match find_fn_index(p, callee) {
                Some(fi) => fi,
                None => {
                    proof { reveal_strlit("unknown function "); }
                    return Err(type_error("unknown function ", callee));
                },
            };
            let f = &p.functions[fi];
            proof { ps = f.params@.map_values(|q: Param| q.ty); }
            ret = f.ret.duplicate();
            params = Some(&f.params);
            if args.len() != f.params.len() {
                proof { reveal_strlit("arity mismatch for "); }
                return Err(type_error("arity mismatch for ", callee));
            }
        },
    }
    assert(callee_sig(callee@, *p) == Some((ps, ret)));
    assert(args@.len() == ps.len());
    let mut i: usize = 0;
    while i < args.len()
        invariant
            i <= args@.len() == ps.len(),
            callee_sig(callee@, *p) == Some((ps, ret)),
            args_fit(args@, 0, ps, env@, *p) == args_fit(args@, i as int, ps, env@, *p),
            params matches Some(v) ==> ps == v@.map_values(|q: Param| q.ty),
            params is None ==> ps == i32_params(ps.len()),
        decreases args@.len() - i,
    {
        let t = match type_of_expr(&args[i], env, p) {
            Ok(t) => t,
            Err(er) => {
                return Err(er);
            },
        };
        let fits = match params {
            Some(v) => is_assignable(&t, &v[i].ty),
            None => is_assignable(&t, &Type::I32),
        };
        if !fits {
            assert(!assignable(t, ps[i as int]));
            proof { reveal_strlit("argument type mismatch for "); }
            return Err(type_error("argument type mismatch for ", callee));
        }
        i = i + 1;
    }
    Ok(ret)
}

/// The type of a struct literal: the struct, where every field is given once with a fitting value.
fn type_of_struct_init(name: &String, fields: &Vec<(String, Expr)>, env: &Vec<(String, Type)>, p: &Program) -> (r: Result<Type, TypeError>)
    ensures
        match r {
            Ok(t) => type_of(init_expr(*name, *fields), env@, *p) == Some(t),
            Err(err) => type_of(init_expr(*name, *fields), env@, *p) is None && err.message@.len() > 0,
        },
    decreases fields, 1nat,
{
    let si = match find_struct_index(p, name) {
        Some(si) => si,
        None => {
            proof { reveal_strlit("unknown struct "); }
            return Err(type_error("unknown struct ", name));
        },
    };
    if fields.len() != p.structs[si].fields.len() {
        proof { reveal_strlit("struct init field count mismatch for "); }
        return Err(type_error("struct init field count mismatch for ", name));
    }
    let mut i: usize = 0;
    while i < fields.len()
        invariant
            i <= fields@.len(),
            forall|a: int, b: int| 0 <= a < b < i ==> fields@[a].0@ != fields@[b].0@,
            inits_fit(fields@, 0, name@, env@, *p) == inits_fit(fields@, i as int, name@, env@, *p),
        decreases fields@.len() - i,
    {
        let mut k: usize = 0;
        while k < i
            invariant
                k <= i < fields@.len(),
                forall|a: int| 0 <= a < k ==> fields@[a].0@ != fields@[i as int].0@,
            decreases i - k,
        {
            if string_eq(&fields[k].0, &fields[i].0) {
                assert(fields@[k as int].0@ == fields@[i as int].0@);
                proof { reveal_strlit("field given twice in struct init: "); }
                return Err(type_error("field given twice in struct init: ", &fields[i].0));
            }
            k = k + 1;
        }
        let ft = match lookup_field_type(p, name, &fields[i].0) {
            Some(ft) => ft,
            None => {
                proof { reveal_strlit("unknown field in struct init: "); }
                return Err(type_error("unknown field in struct init: ", &fields[i].0));
            },
        };
        let vt = match type_of_expr(&fields[i].1, env, p) {
            Ok(t) => t,
            Err(er) => {
                return Err(er);
            },
        };
        if !is_assignable(&vt, &ft) {
            proof { reveal_strlit("field init type mismatch for "); }
            return Err(type_error("field init type mismatch for ", &fields[i].0));
        }
        i = i + 1;
    }
    Ok(Type::Struct(name.clone()))
}

fn typecheck_stmt(s: &Stmt, vars: &mut Vec<(String, Type)>, p: &Program, ret_ty: &Type) -> (r: Result<(), TypeError>)
    ensures
        match r {
            Ok(_) => check_stmt(*s, old(vars)@, *p, *ret_ty) == Some(final(vars)@),
            Err(err) => check_stmt(*s, old(vars)@, *p, *ret_ty) is None && err.message@.len() > 0,
        },
    decreases s,
{
    match s {
        Stmt::Let { name, ty, expr } => {
            let ety = type_of_expr(expr, vars, p)?;
            if !is_assignable(&ety, ty) {
                proof { reveal_strlit("type mismatch in let "); }
                return Err(type_error("type mismatch in let ", name));
            }
            vars.push((name.clone(), ty.duplicate()));
            Ok(())
        },
        Stmt::Assign { name, expr } => {
            let var_ty = match lookup_var(vars, name) {
                Some(t) => t,
                None => {
                    proof { reveal_strlit("unknown variable "); }
                    return Err(type_error("unknown variable ", name));
                },
            };
            let ety = type_of_expr(expr, vars, p)?;
            if !is_assignable(&ety, &var_ty) {
                proof { reveal_strlit("type mismatch in assignment to "); }
                return Err(type_error("type mismatch in assignment to ", name));
            }
            Ok(())
        },
        Stmt::FieldAssign { base, field, expr } => {
            let sname = match lookup_var(vars, base) {
                Some(Type::Struct(sn)) => sn,
                _ => {
                    proof { reveal_strlit("field assignment to a non-struct variable "); }
                    return Err(type_error("field assignment to a non-struct variable ", base));
                },
            };
            let ft = match lookup_field_type(p, &sname, field) {
                Some(ft) => ft,
                None => {
                    proof { reveal_strlit("unknown field "); }
                    return Err(type_error("unknown field ", field));
                },
            };
            let ety = type_of_expr(expr, vars, p)?;
            if !is_assignable(&ety, &ft) {
                proof { reveal_strlit("type mismatch in assignment to field "); }
                return Err(type_error("type mismatch in assignment to field ", field));
            }
            Ok(())
        },
        Stmt::If { cond, then_block, else_block } => {
            let cty = type_of_expr(cond, vars, p)?;
            if !matches!(cty, Type::Bool) {
                proof { reveal_strlit("if condition must be bool"); }
                return Err(plain_error("if condition must be bool"));
            }
            typecheck_block(then_block, vars, p, ret_ty)?;
            match else_block {
                Some(eb) => typecheck_block(eb, vars, p, ret_ty),
                None => Ok(()),
            }
        },
        Stmt::While { cond, body } => {
            let cty = type_of_expr(cond, vars, p)?;
            if !matches!(cty, Type::Bool) {
                proof { reveal_strlit("while condition must be bool"); }
                return Err(plain_error("while condition must be bool"));
            }
            typecheck_block(body, vars, p, ret_ty)
        },
        Stmt::Return(expr) => {
            let ety = type_of_expr(expr, vars, p)?;
            if !is_assignable(&ety, ret_ty) {
                proof { reveal_strlit("return type mismatch"); }
                return Err(plain_error("return type mismatch"));
            }
            Ok(())
        },
        Stmt::Expr(expr) => {
            let _ = type_of_expr(expr, vars, p)?;
            Ok(())
        },
    }
}

fn typecheck_block(block: &Block, vars: &mut Vec<(String, Type)>, p: &Program, ret_ty: &Type) -> (r: Result<(), TypeError>)
    ensures
        match r {
            Ok(_) => check_block(*block, 0, old(vars)@, *p, *ret_ty) == Some(final(vars)@),
            Err(err) => check_block(*block, 0, old(vars)@, *p, *ret_ty) is None && err.message@.len() > 0,
        },
    decreases block,
{
    let ghost env0 = vars@;
    let mut i: usize = 0;
    while i < block.statements.len()
        invariant
            i <= block.statements@.len(),
            env0 == old(vars)@,
            check_block(*block, 0, env0, *p, *ret_ty) == check_block(*block, i as int, vars@, *p, *ret_ty),
        decreases block.statements@.len() - i,
    {
        let ghost before = vars@;
        match typecheck_stmt(&block.statements[i], vars, p, ret_ty) {
            Ok(_) => {},
            Err(err) => {
                assert(check_stmt(block.statements@[i as int], before, *p, *ret_ty) is None);
                assert(check_block(*block, i as int, before, *p, *ret_ty) is None);
                return Err(err);
            },
        }
        i = i + 1;
    }
    Ok(())
}

fn typecheck_function(f: &Function, p: &Program) -> (r: Result<(), TypeError>)
    ensures
        match r {
            Ok(_) => check_block(f.body, 0, params_env(f.params@), *p, f.ret) is Some,
            Err(err) => check_block(f.body, 0, params_env(f.params@), *p, f.ret) is None && err.message@.len() > 0,
        },
{
    let mut vars: Vec<(String, Type)> = Vec::new();
    let mut i: usize = 0;
    while i < f.params.len()
        invariant
            i <= f.params@.len(),
            vars@ == params_env(f.params@.subrange(0, i as int)),
        decreases f.params@.len() - i,
    {
        vars.push((f.params[i].name.clone(), f.params[i].ty.duplicate()));
        assert(params_env(f.params@.subrange(0, i + 1)) =~= params_env(f.params@.subrange(0, i as int)).push(
            (f.params@[i as int].name, f.params@[i as int].ty),
        ));
        i = i + 1;
    }
    assert(f.params@.subrange(0, f.params@.len() as int) =~= f.params@);
    typecheck_block(&f.body, &mut vars, p, &f.ret)
}

/// Checks every function body against the typing rules; the error is the first
/// violation found.
pub fn typecheck_program(prog: &Program) -> (r: Result<(), TypeError>)
    ensures
        r is Ok <==> well_typed(*prog),
        r matches Err(err) ==> err.message@.len() > 0,
{
    let mut i: usize = 0;
    while i < prog.functions.len()
        invariant
            i <= prog.functions@.len(),
            forall|j: int| 0 <= j < i ==> (#[trigger] check_block(prog.functions@[j].body, 0,
                params_env(prog.functions@[j].params@), *prog, prog.functions@[j].ret) is Some),
        decreases prog.functions@.len() - i,
    {
        typecheck_function(&prog.functions[i], prog)?;
        i = i + 1;
    }
    Ok(())
}

} // verus!
