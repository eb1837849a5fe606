use vstd::prelude::*;
use crate::ast::{Expr, Param, Program, Type};
use crate::text::{push_str, string_eq, string_from};
use crate::typecheck::{find_struct, find_struct_index};

verus! {

broadcast use vstd::std_specs::vec::group_vec_axioms;

/// A program that breaks what a backend needs: an unknown struct or local, a
/// non-scalar struct field, a struct value where a scalar is needed, or an
/// expression shape that the lowering does not support.
#[derive(Debug)]
pub struct CodegenError {
    pub message: String,
}

pub fn codegen_error(text: &str) -> (r: CodegenError)
    ensures
        r.message@ == text@,
{
    CodegenError { message: string_from(text) }
}

pub fn codegen_error_on(text: &str, name: &String) -> (r: CodegenError)
    ensures
        r.message@ == text@ + name@,
{
    let mut message = string_from(text);
    push_str(&mut message, name.as_str());
    CodegenError { message }
}

/// The name of the scalar slot that holds field `f` of struct variable `v`.
pub open spec fn field_slot_name(v: Seq<char>, f: Seq<char>) -> Seq<char> {
    seq!['_', '_', 'f', 'i', 'e', 'l', 'd', '_', '_'] + v + seq!['_', '_'] + f
}

pub fn field_local_name(var: &String, field: &String) -> (r: String)
    ensures
        r@ == field_slot_name(var@, field@),
{
    proof {
        reveal_strlit("__field__");
        reveal_strlit("__");
    }
    let mut s = string_from("__field__");
    push_str(&mut s, var.as_str());
    push_str(&mut s, "__");
    push_str(&mut s, field.as_str());
    assert(s@ =~= field_slot_name(var@, field@));
    s
}

/// The declaration of struct `n` (the last one of that name).
pub fn struct_index(p: &Program, n: &String) -> (r: Result<usize, CodegenError>)
    ensures
        r matches Ok(i) ==> i < p.structs@.len() && find_struct(p.structs@, p.structs@.len() as int, n@) == Some(i as int),
        r is Err ==> find_struct(p.structs@, p.structs@.len() as int, n@) is None,
{
    match find_struct_index(p, n) {
        Some(i) => Ok(i),
        None => Err(codegen_error_on("unknown struct ", n)),
    }
}

/// A local table: names with their slot (a local index, or a frame offset).
/// A later entry of a name shadows an earlier one.
pub open spec fn slot_of(t: Seq<(String, i64)>, n: Seq<char>) -> Option<i64>
    decreases t.len(),
{
    if t.len() == 0 {
        None
    } else if t.last().0@ == n {
        Some(t.last().1)
    } else {
        slot_of(t.drop_last(), n)
    }
}

/// A local table with its names as text.
pub open spec fn lnames(t: Seq<(String, i64)>) -> Seq<(Seq<char>, i64)> {
    t.map_values(|p: (String, i64)| (p.0@, p.1))
}

/// The slot of `n` in a table of names as text; a later entry shadows an earlier one.
pub open spec fn slot_of_v(t: Seq<(Seq<char>, i64)>, n: Seq<char>) -> Option<i64>
    decreases t.len(),
{
    if t.len() == 0 {
        None
    } else if t.last().0 == n {
        Some(t.last().1)
    } else {
        slot_of_v(t.drop_last(), n)
    }
}

pub proof fn lemma_slot_of_v(t: Seq<(String, i64)>, n: Seq<char>)
    ensures
        slot_of(t, n) == slot_of_v(lnames(t), n),
    decreases t.len(),
{
    if t.len() > 0 {
        assert(lnames(t).drop_last() =~= lnames(t.drop_last()));
        lemma_slot_of_v(t.drop_last(), n);
    }
}

pub fn lookup_slot(t: &Vec<(String, i64)>, n: &String) -> (r: Option<i64>)
    ensures
        r == slot_of(t@, n@),
{
    let mut k = t.len();
    assert(t@.subrange(0, k as int) =~= t@);
    while k > 0
        invariant
            k <= t@.len(),
            slot_of(t@, n@) == slot_of(t@.subrange(0, k as int), n@),
        decreases k,
    {
        assert(t@.subrange(0, k as int).drop_last() =~= t@.subrange(0, k - 1));
        if string_eq(&t[k - 1].0, n) {
            return Some(t[k - 1].1);
        }
        k = k - 1;
    }
    None
}

/// Like `lookup_slot`, failing on a name that has no slot.
pub fn require_slot(t: &Vec<(String, i64)>, n: &String) -> (r: Result<i64, CodegenError>)
    ensures
        r matches Ok(s) ==> slot_of(t@, n@) == Some(s),
        r is Err ==> slot_of(t@, n@) is None,
{
    match lookup_slot(t, n) {
        Some(s) => Ok(s),
        None => Err(codegen_error_on("unknown local ", n)),
    }
}

/// One scalar of a flattened argument list: a scalar argument itself; field `j`
/// (in declaration order) of a struct variable passed as argument `i`; or the
/// initializer, at index `k`, of a struct literal passed as argument `i`.
#[derive(Clone, Copy)]
pub enum FlatArg {
    Scalar(usize),
    Field(usize, usize),
    Init(usize, usize),
}

/// The index of the first initializer of field `n`, from the `k`-th on.
pub open spec fn find_init(fields: Seq<(String, Expr)>, k: int, n: Seq<char>) -> Option<int>
    decreases fields.len() - k,
{
    if k < 0 || k >= fields.len() {
        None
    } else if fields[k].0@ == n {
        Some(k)
    } else {
        find_init(fields, k + 1, n)
    }
}

/// The scalars that argument `k` passes, against parameter `ps[k]`: one for a scalar,
/// and one per field in declaration order for a struct.
pub open spec fn arg_segment(args: Seq<Expr>, ps: Seq<Param>, p: Program, k: int) -> Option<Seq<FlatArg>> {
    match ps[k].ty {
        Type::Struct(sn) => match find_struct(p.structs@, p.structs@.len() as int, sn@) {
            Some(si) => {
                let d = p.structs@[si];
                match args[k] {
                    Expr::Ident(_) => Some(Seq::new(d.fields@.len(), |j: int| FlatArg::Field(k as usize, j as usize))),
                    Expr::StructInit { name, fields } => if name@ == sn@ && (forall|j: int| 0 <= j < d.fields@.len()
                        ==> #[trigger] find_init(fields@, 0, d.fields@[j].name@) is Some) {
                        Some(Seq::new(d.fields@.len(), |j: int| FlatArg::Init(k as usize, find_init(fields@, 0, d.fields@[j].name@)->0 as usize)))
                    } else {
                        None
                    },
                    _ => None,
                }
            },
            None => None,
        },
        _ => Some(seq![FlatArg::Scalar(k as usize)]),
    }
}

/// The flattened arguments from the `k`-th on (arguments beyond the parameters are dropped).
pub open spec fn flat_args_from(args: Seq<Expr>, ps: Seq<Param>, p: Program, k: int) -> Option<Seq<FlatArg>>
    decreases args.len() - k,
{
    if k < 0 || k >= args.len() || k >= ps.len() {
        Some(seq![])
    } else {
        match (arg_segment(args, ps, p, k), flat_args_from(args, ps, p, k + 1)) {
            (Some(a), Some(b)) => Some(a + b),
            _ => None,
        }
    }
}

/// A struct argument passes its fields in declaration order: the `j`-th scalar of
/// its segment is field `j` of the struct variable, or the initializer of field `j`.
pub proof fn lemma_struct_arg_layout(args: Seq<Expr>, ps: Seq<Param>, p: Program, k: int, j: int)
    requires
        0 <= k < args.len() <= usize::MAX,
        k < ps.len(),
        arg_segment(args, ps, p, k) is Some,
        ps[k].ty is Struct,
        0 <= j < arg_segment(args, ps, p, k)->0.len(),
    ensures
        ({
            let sn = ps[k].ty->Struct_0;
            let d = p.structs@[find_struct(p.structs@, p.structs@.len() as int, sn@)->0];
            &&& arg_segment(args, ps, p, k)->0.len() == d.fields@.len()
            &&& args[k] is Ident ==> arg_segment(args, ps, p, k)->0[j] == FlatArg::Field(k as usize, j as usize)
            &&& args[k] matches Expr::StructInit { name, fields } ==> fields@.len() <= usize::MAX ==> (arg_segment(args, ps, p, k)->0[j] matches FlatArg::Init(a, b)
                && a == k && fields@[b as int].0@ == d.fields@[j].name@)
        }),
{
    let sn = ps[k].ty->Struct_0;
    let d = p.structs@[find_struct(p.structs@, p.structs@.len() as int, sn@)->0];
    if let Expr::StructInit { name, fields } = args[k] {
        lemma_find_init(fields@, 0, d.fields@[j].name@);
    }
}

proof fn lemma_find_init(fields: Seq<(String, Expr)>, k: int, n: Seq<char>)
    requires
        0 <= k,
    ensures
        find_init(fields, k, n) matches Some(i) ==> k <= i < fields.len() && fields[i].0@ == n,
    decreases fields.len() - k,
{
    if k < fields.len() && fields[k].0@ != n {
        lemma_find_init(fields, k + 1, n);
    }
}

pub fn find_init_index(fields: &Vec<(String, Expr)>, n: &String) -> (r: Option<usize>)
    ensures
        r matches Some(i) ==> find_init(fields@, 0, n@) == Some(i as int) && i < fields@.len(),
        r is None ==> find_init(fields@, 0, n@) is None,
{
    let mut i: usize = 0;
    while i < fields.len()
        invariant
            i <= fields@.len(),
            find_init(fields@, 0, n@) == find_init(fields@, i as int, n@),
        decreases fields@.len() - i,
    {
        if string_eq(&fields[i].0, n) {
            return Some(i);
        }
        i = i + 1;
    }
    None
}

#[verifier::loop_isolation(false)]
fn segment_of(args: &Vec<Expr>, ps: &Vec<Param>, p: &Program, k: usize, out: &mut Vec<FlatArg>) -> (r: Result<(), CodegenError>)
    requires
        k < args@.len(),
        k < ps@.len(),
    ensures
        match r {
            Ok(_) => arg_segment(args@, ps@, *p, k as int) matches Some(seg) && final(out)@ == old(out)@ + seg,
            Err(_) => arg_segment(args@, ps@, *p, k as int) is None,
        },
{
    match &ps[k].ty {
        Type::Struct(sn) => {
            let si = struct_index(p, sn)?;
            let d = &p.structs[si];
            let n = d.fields.len();
            match &args[k] {
                Expr::Ident(_) => {
                    let ghost o = out@;
                    let mut j: usize = 0;
                    while j < n
                        invariant
                            j <= n == d.fields@.len(),
                            out@ == o + Seq::new(j as nat, |q: int| FlatArg::Field(k, q as usize)),
                        decreases n - j,
                    {
                        out.push(FlatArg::Field(k, j));
                        assert(o + Seq::new((j + 1) as nat, |q: int| FlatArg::Field(k, q as usize)) =~= (o + Seq::new(j as nat, |q: int| FlatArg::Field(k, q as usize))).push(FlatArg::Field(k, j)));
                        j = j + 1;
                    }
                    Ok(())
                },
                Expr::StructInit { name, fields } => {
                    if !string_eq(name, sn) {
                        return Err(codegen_error_on("struct argument of the wrong struct: ", name));
                    }
                    let ghost o = out@;
                    let mut j: usize = 0;
                    while j < n
                        invariant
                            j <= n == d.fields@.len(),
                            *d == p.structs@[si as int],
                            forall|q: int| 0 <= q < j ==> #[trigger] find_init(fields@, 0, d.fields@[q].name@) is Some,
                            out@ == o + Seq::new(j as nat, |q: int| FlatArg::Init(k, find_init(fields@, 0, d.fields@[q].name@)->0 as usize)),
                        decreases n - j,
                    {
                        let idx = match find_init_index(fields, &d.fields[j].name) {
                            Some(idx) => idx,
                            None => {
                                assert(!(find_init(fields@, 0, d.fields@[j as int].name@) is Some));
                                return Err(codegen_error_on("missing field in struct argument: ", &d.fields[j].name));
                            },
                        };
                        out.push(FlatArg::Init(k, idx));
                        assert(o + Seq::new((j + 1) as nat, |q: int| FlatArg::Init(k, find_init(fields@, 0, d.fields@[q].name@)->0 as usize))
                            =~= (o + Seq::new(j as nat, |q: int| FlatArg::Init(k, find_init(fields@, 0, d.fields@[q].name@)->0 as usize))).push(FlatArg::Init(k, idx)));
                        j = j + 1;
                    }
                    Ok(())
                },
                _ => Err(codegen_error("unsupported struct argument expression")),
            }
        },
        _ => {
            out.push(FlatArg::Scalar(k));
            Ok(())
        },
    }
}

/// The scalars of a call's arguments against the callee's parameters: a struct
/// argument becomes its fields in declaration order.
pub fn flatten_call_args(args: &Vec<Expr>, ps: &Vec<Param>, p: &Program) -> (r: Result<Vec<FlatArg>, CodegenError>)
    ensures
        match r {
            Ok(v) => flat_args_from(args@, ps@, *p, 0) == Some(v@),
            Err(_) => flat_args_from(args@, ps@, *p, 0) is None,
        },
{
    let mut out: Vec<FlatArg> = Vec::new();
    let mut k: usize = 0;
    while k < args.len() && k < ps.len()
        invariant
            k <= args@.len(),
            flat_args_from(args@, ps@, *p, 0) == match flat_args_from(args@, ps@, *p, k as int) {
                Some(rest) => Some(out@ + rest),
                None => None,
            },
        decreases args@.len() - k,
    {
        let ghost before = out@;
        segment_of(args, ps, p, k, &mut out)?;
        proof {
            let seg = arg_segment(args@, ps@, *p, k as int)->0;
            if let Some(rest) = flat_args_from(args@, ps@, *p, k + 1) {
                assert(before + (seg + rest) =~= out@ + rest);
            }
        }
        k = k + 1;
    }
    assert(out@ + seq![] =~= out@);
    Ok(out)
}

/// Whether an 8-byte pad goes below the stack arguments of a call, when `pushed`
/// 8-byte words already lie above the 16-byte-aligned frame and `stack_args`
/// arguments will be pushed.
pub open spec fn needs_pad(pushed: nat, stack_args: nat) -> bool {
    (pushed + stack_args) % 2 == 1
}

pub fn call_pad(pushed: u64, stack_args: u64) -> (r: bool)
    ensures
        r == needs_pad(pushed as nat, stack_args as nat),
{
    (pushed % 2 + stack_args % 2) % 2 == 1
}

/// With the pad in place, the stack is 16-byte aligned at the `call`: the words
/// above the frame, the pad and the stack arguments make a multiple of 16 bytes.
pub proof fn lemma_call_alignment(pushed: nat, stack_args: nat)
    ensures
        (8 * (pushed + stack_args + if needs_pad(pushed, stack_args) { 1nat } else { 0nat })) % 16 == 0,
{
    let w = pushed + stack_args + if needs_pad(pushed, stack_args) { 1nat } else { 0nat };
    assert(w % 2 == 0);
    assert((8 * w) % 16 == 0) by (nonlinear_arith)
        requires w % 2 == 0;
}

/// The frame size for `n` 8-byte slots: rounded up to a multiple of 16 bytes.
pub open spec fn frame_size(n: nat) -> nat {
    if (8 * n) % 16 == 0 { 8 * n } else { 8 * n + 8 }
}

/// The frame size for `n` 8-byte slots.
pub fn frame_bytes(n: u64) -> (r: u64)
    requires
        n < 0x1000_0000_0000,
    ensures
        r == frame_size(n as nat),
{
    let b = 8 * n;
    if b % 16 == 0 {
        b
    } else {
        b + 8
    }
}

/// A frame holds all its slots and keeps the stack 16-byte aligned.
pub proof fn lemma_frame_alignment(n: nat)
    ensures
        frame_size(n) % 16 == 0,
        frame_size(n) >= 8 * n,
{
    assert((8 * n) % 16 == 0 || (8 * n) % 16 == 8) by (nonlinear_arith);
}

} // verus!
