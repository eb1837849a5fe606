use vstd::prelude::*;
use crate::ast::{Block, Expr, Function, Program, Stmt};
use crate::text::string_eq;

verus! {

broadcast use vstd::std_specs::vec::group_vec_axioms;

/// The string literals of an expression, in pre-order, repeats included.
pub open spec fn expr_literals(e: Expr) -> Seq<Seq<char>>
    decreases e, 0nat,
{
    match e {
        Expr::StringLit(s) => seq![s@],
        Expr::Unary { op, expr } => expr_literals(*expr),
        Expr::Binary { op, left, right } => expr_literals(*left) + expr_literals(*right),
        Expr::Call { callee, args } => args_literals(args@, 0),
        Expr::FieldAccess { expr, field } => expr_literals(*expr),
        Expr::StructInit { name, fields } => inits_literals(fields@, 0),
        _ => seq![],
    }
}

pub open spec fn args_literals(args: Seq<Expr>, k: int) -> Seq<Seq<char>>
    decreases args, args.len() - k,
{
    if k < 0 || k >= args.len() {
        seq![]
    } else {
        expr_literals(args[k]) + args_literals(args, k + 1)
    }
}

pub open spec fn inits_literals(fields: Seq<(String, Expr)>, k: int) -> Seq<Seq<char>>
    decreases fields, fields.len() - k,
{
    if k < 0 || k >= fields.len() {
        seq![]
    } else {
        expr_literals(fields[k].1) + inits_literals(fields, k + 1)
    }
}

/// The string literals of a statement, in walk order: its expressions, then nested blocks.
pub open spec fn stmt_literals(s: Stmt) -> Seq<Seq<char>>
    decreases s, 0nat,
{
    match s {
        Stmt::Let { name, ty, expr } => expr_literals(expr),
        Stmt::Assign { name, expr } => expr_literals(expr),
        Stmt::FieldAssign { base, field, expr } => expr_literals(expr),
        Stmt::If { cond, then_block, else_block } => expr_literals(cond) + block_literals(then_block, 0)
            + match else_block {
            Some(eb) => block_literals(eb, 0),
            None => seq![],
        },
        Stmt::While { cond, body } => expr_literals(cond) + block_literals(body, 0),
        Stmt::Return(e) => expr_literals(e),
        Stmt::Expr(e) => expr_literals(e),
    }
}

pub open spec fn block_literals(b: Block, k: int) -> Seq<Seq<char>>
    decreases b, b.statements@.len() - k,
{
    if k < 0 || k >= b.statements@.len() {
        seq![]
    } else {
        stmt_literals(b.statements@[k]) + block_literals(b, k + 1)
    }
}

/// The string literals of the functions from the `k`-th on, in function order.
pub open spec fn program_literals(fns: Seq<Function>, k: int) -> Seq<Seq<char>>
    decreases fns.len() - k,
{
    if k < 0 || k >= fns.len() {
        seq![]
    } else {
        block_literals(fns[k].body, 0) + program_literals(fns, k + 1)
    }
}

/// Adds each of `xs`, in order, to the table `acc` unless it is already there.
pub open spec fn intern(acc: Seq<Seq<char>>, xs: Seq<Seq<char>>) -> Seq<Seq<char>>
    decreases xs.len(),
{
    if xs.len() == 0 {
        acc
    } else {
        intern(if acc.contains(xs[0]) { acc } else { acc.push(xs[0]) }, xs.drop_first())
    }
}

pub open spec fn views(v: Seq<String>) -> Seq<Seq<char>> {
    v.map_values(|s: String| s@)
}

/// Interning two runs of strings one after the other is interning the whole run.
pub proof fn lemma_intern_append(acc: Seq<Seq<char>>, a: Seq<Seq<char>>, b: Seq<Seq<char>>)
    ensures
        intern(acc, a + b) == intern(intern(acc, a), b),
    decreases a.len(),
{
    if a.len() == 0 {
        assert(a + b =~= b);
    } else {
        let acc1 = if acc.contains(a[0]) { acc } else { acc.push(a[0]) };
        assert((a + b).drop_first() =~= a.drop_first() + b);
        lemma_intern_append(acc1, a.drop_first(), b);
    }
}

/// An interned table holds each string once, keeps what it held, and holds
/// exactly the strings it held or was given.
pub proof fn lemma_intern_table(acc: Seq<Seq<char>>, xs: Seq<Seq<char>>)
    requires
        acc.no_duplicates(),
    ensures
        intern(acc, xs).no_duplicates(),
        acc.len() <= intern(acc, xs).len(),
        intern(acc, xs).subrange(0, acc.len() as int) == acc,
        forall|s: Seq<char>| intern(acc, xs).contains(s) <==> (acc.contains(s) || xs.contains(s)),
    decreases xs.len(),
{
    if xs.len() > 0 {
        let acc1 = if acc.contains(xs[0]) { acc } else { acc.push(xs[0]) };
        assert(acc1.no_duplicates());
        lemma_intern_table(acc1, xs.drop_first());
        assert(acc1.subrange(0, acc.len() as int) =~= acc);
        let r = intern(acc1, xs.drop_first());
        assert(r.subrange(0, acc.len() as int) =~= r.subrange(0, acc1.len() as int).subrange(0, acc.len() as int));
        assert forall|s: Seq<char>| r.contains(s) <==> (acc.contains(s) || xs.contains(s)) by {
            if xs.contains(s) && !acc.contains(s) {
                let i = choose|i: int| 0 <= i < xs.len() && xs[i] == s;
                if i > 0 {
                    assert(xs.drop_first()[i - 1] == s);
                } else {
                    assert(acc1[acc.len() as int] == s);
                }
            }
            if xs.drop_first().contains(s) {
                let i = choose|i: int| 0 <= i < xs.drop_first().len() && xs.drop_first()[i] == s;
                assert(xs[i + 1] == s);
            }
            if acc1.contains(s) && !acc.contains(s) {
                assert(s == xs[0]);
            }
        }
    } else {
        assert(acc.subrange(0, acc.len() as int) =~= acc);
    }
}

/// The interned strings in order of first occurrence: each string literal of the
/// program once, in the order in which the walk over functions, blocks, statements
/// and expressions first meets it.
pub open spec fn string_table(p: Program) -> Seq<Seq<char>> {
    intern(seq![], program_literals(p.functions@, 0))
}

/// String interning keeps one copy of each literal, in first-occurrence order: the
/// table holds no repeats, holds exactly the program's literals, and a literal met
/// before another stands before it.
pub proof fn lemma_string_table(p: Program)
    ensures
        string_table(p).no_duplicates(),
        forall|s: Seq<char>| string_table(p).contains(s) <==> program_literals(p.functions@, 0).contains(s),
{
    lemma_intern_table(seq![], program_literals(p.functions@, 0));
}

fn contains_string(strings: &Vec<String>, s: &String) -> (r: bool)
    ensures
        r == views(strings@).contains(s@),
{
    let mut i: usize = 0;
    while i < strings.len()
        invariant
            i <= strings@.len(),
            forall|j: int| 0 <= j < i ==> strings@[j]@ != s@,
        decreases strings@.len() - i,
    {
        if string_eq(&strings[i], s) {
            assert(views(strings@)[i as int] == s@);
            return true;
        }
        i = i + 1;
    }
    assert(!views(strings@).contains(s@)) by {
        if views(strings@).contains(s@) {
            let j = choose|j: int| 0 <= j < views(strings@).len() && views(strings@)[j] == s@;
            assert(strings@[j]@ == s@);
        }
    }
    false
}

#[verifier::loop_isolation(false)]
fn collect_strings_from_expr(e: &Expr, strings: &mut Vec<String>)
    ensures
        views(final(strings)@) == intern(views(old(strings)@), expr_literals(*e)),
    decreases e,
{
    match e {
        Expr::StringLit(s) => {
            let ghost before = views(strings@);
            if !contains_string(strings, s) {
                strings.push(s.clone());
                assert(views(strings@) =~= before.push(s@));
            }
            assert(seq![s@].drop_first() =~= Seq::<Seq<char>>::empty());
            proof { reveal_with_fuel(intern, 2); }
        },
        Expr::Unary { expr, .. } => collect_strings_from_expr(expr, strings),
        Expr::FieldAccess { expr, .. } => collect_strings_from_expr(expr, strings),
        Expr::Binary { left, right, .. } => {
            collect_strings_from_expr(left, strings);
            collect_strings_from_expr(right, strings);
            proof { lemma_intern_append(views(old(strings)@), expr_literals(**left), expr_literals(**right)); }
        },
        Expr::Call { args, .. } => {
            let ghost v0 = views(strings@);
            let mut i: usize = 0;
            while i < args.len()
                invariant
                    i <= args@.len(),
                    v0 == views(old(strings)@),
                    intern(views(strings@), args_literals(args@, i as int)) == intern(v0, args_literals(args@, 0)),
                decreases args@.len() - i,
            {
                let ghost before = views(strings@);
                collect_strings_from_expr(&args[i], strings);
                proof { lemma_intern_append(before, expr_literals(args@[i as int]), args_literals(args@, i + 1)); }
                i = i + 1;
            }
        },
        Expr::StructInit { fields, .. } => {
            let ghost v0 = views(strings@);
            let mut i: usize = 0;
            while i < fields.len()
                invariant
                    i <= fields@.len(),
                    v0 == views(old(strings)@),
                    intern(views(strings@), inits_literals(fields@, i as int)) == intern(v0, inits_literals(fields@, 0)),
                decreases fields@.len() - i,
            {
                let ghost before = views(strings@);
                collect_strings_from_expr(&fields[i].1, strings);
                proof { lemma_intern_append(before, expr_literals(fields@[i as int].1), inits_literals(fields@, i + 1)); }
                i = i + 1;
            }
        },
        _ => {},
    }
}

fn collect_strings_from_stmt(s: &Stmt, strings: &mut Vec<String>)
    ensures
        views(final(strings)@) == intern(views(old(strings)@), stmt_literals(*s)),
    decreases s,
{
    match s {
        Stmt::Let { expr, .. } => collect_strings_from_expr(expr, strings),
        Stmt::Assign { expr, .. } => collect_strings_from_expr(expr, strings),
        Stmt::FieldAssign { expr, .. } => collect_strings_from_expr(expr, strings),
        Stmt::Return(expr) => collect_strings_from_expr(expr, strings),
        Stmt::Expr(expr) => collect_strings_from_expr(expr, strings),
        Stmt::If { cond, then_block, else_block } => {
            let ghost v0 = views(strings@);
            collect_strings_from_expr(cond, strings);
            let ghost v1 = views(strings@);
            collect_strings_from_block(then_block, strings);
            let ghost v2 = views(strings@);
            let ghost rest: Seq<Seq<char>> = match else_block {
                Some(eb) => block_literals(*eb, 0),
                None => seq![],
            };
            match else_block {
                Some(eb) => collect_strings_from_block(eb, strings),
                None => {},
            }
            proof {
                lemma_intern_append(v0, expr_literals(*cond), block_literals(*then_block, 0));
                lemma_intern_append(v0, expr_literals(*cond) + block_literals(*then_block, 0), rest);
            }
        },
        Stmt::While { cond, body } => {
            collect_strings_from_expr(cond, strings);
            collect_strings_from_block(body, strings);
            proof { lemma_intern_append(views(old(strings)@), expr_literals(*cond), block_literals(*body, 0)); }
        },
    }
}

fn collect_strings_from_block(b: &Block, strings: &mut Vec<String>)
    ensures
        views(final(strings)@) == intern(views(old(strings)@), block_literals(*b, 0)),
    decreases b,
{
    let ghost v0 = views(strings@);
    let mut i: usize = 0;
    while i < b.statements.len()
        invariant
            i <= b.statements@.len(),
            v0 == views(old(strings)@),
            intern(views(strings@), block_literals(*b, i as int)) == intern(v0, block_literals(*b, 0)),
        decreases b.statements@.len() - i,
    {
        let ghost before = views(strings@);
        collect_strings_from_stmt(&b.statements[i], strings);
        proof { lemma_intern_append(before, stmt_literals(b.statements@[i as int]), block_literals(*b, i + 1)); }
        i = i + 1;
    }
}

/// The program's string table: each string literal once, in first-occurrence order.
pub fn collect_strings_from_program(p: &Program) -> (r: Vec<String>)
    ensures
        views(r@) == string_table(*p),
{
    let mut strings: Vec<String> = Vec::new();
    let mut i: usize = 0;
    assert(views(strings@) =~= Seq::<Seq<char>>::empty());
    while i < p.functions.len()
        invariant
            i <= p.functions@.len(),
            intern(views(strings@), program_literals(p.functions@, i as int)) == string_table(*p),
        decreases p.functions@.len() - i,
    {
        let ghost before = views(strings@);
        collect_strings_from_block(&p.functions[i].body, &mut strings);
        proof { lemma_intern_append(before, block_literals(p.functions@[i as int].body, 0), program_literals(p.functions@, i + 1)); }
        i = i + 1;
    }
    strings
}

/// Where the `i`-th of a row of strings starts when each is laid out after the ones
/// before it, one byte per character followed by `gap` zero bytes.
pub open spec fn start_of(strings: Seq<Seq<char>>, i: int, gap: int) -> int
    decreases i,
{
    if i <= 0 {
        0
    } else {
        start_of(strings, i - 1, gap) + strings[i - 1].len() + gap
    }
}

/// Lays the interned strings out in linear memory from offset 0, one after the
/// other, one byte per character and `gap` zero bytes after each; gives each its
/// offset. Fails when the layout passes 1 GiB.
pub fn string_offsets(strings: &Vec<String>, gap: i64) -> (r: Option<Vec<(String, i64)>>)
    requires
        0 <= gap <= 1,
    ensures
        r matches Some(t) ==> t@.len() == strings@.len() && forall|i: int| 0 <= i < t@.len() ==>
            (#[trigger] t@[i]).0 == strings@[i] && t@[i].1 == start_of(views(strings@), i, gap as int),
        r is Some <==> forall|i: int| 0 <= i < strings@.len() ==> (#[trigger] strings@[i])@.len() < 0x4000_0000
            && start_of(views(strings@), i, gap as int) < 0x4000_0000,
{
    let ghost v = views(strings@);
    let mut offsets: Vec<(String, i64)> = Vec::new();
    let mut offset: i64 = 0;
    let mut i: usize = 0;
    while i < strings.len()
        invariant
            0 <= gap <= 1,
            i <= strings@.len(),
            v == views(strings@),
            offsets@.len() == i,
            offset == start_of(v, i as int, gap as int),
            forall|k: int| 0 <= k < i ==> (#[trigger] offsets@[k]).0 == strings@[k] && offsets@[k].1 == start_of(v, k, gap as int),
            forall|k: int| 0 <= k < i ==> (#[trigger] strings@[k])@.len() < 0x4000_0000 && start_of(v, k, gap as int) < 0x4000_0000,
        decreases strings@.len() - i,
    {
        offsets.push((strings[i].clone(), offset));
        let len = strings[i].as_str().unicode_len();
        if len as u64 >= 0x4000_0000 || offset >= 0x4000_0000 {
            assert(!((strings@[i as int])@.len() < 0x4000_0000 && start_of(v, i as int, gap as int) < 0x4000_0000));
            return None;
        }
        offset = offset + len as i64 + gap;
        i = i + 1;
    }
    Some(offsets)
}

} // verus!
