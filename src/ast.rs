use vstd::prelude::*;

verus! {

/// The types of the language. `I32`, `Char` and `Bool` are the scalars.
#[derive(Debug, Clone, PartialEq, Eq)]
pub enum Type {
    I32,
    Char,
    Bool,
    Str,
    Void,
    Struct(String),
}

/// A parsed source file: struct declarations and functions, each in source order.
#[derive(Debug)]
pub struct Program {
    pub functions: Vec<Function>,
    pub structs: Vec<StructDecl>,
}

#[derive(Debug, Clone)]
pub struct StructDecl {
    pub name: String,
    pub fields: Vec<Param>,
}

#[derive(Debug)]
pub struct Function {
    pub name: String,
    pub params: Vec<Param>,
    pub ret: Type,
    pub body: Block,
}

/// A named, typed slot: a function parameter or a struct field.
#[derive(Debug, Clone)]
pub struct Param {
    pub name: String,
    pub ty: Type,
}

#[derive(Debug)]
pub struct Block {
    pub statements: Vec<Stmt>,
}

#[derive(Debug)]
pub enum Stmt {
    Let { name: String, ty: Type, expr: Expr },
    Assign { name: String, expr: Expr },
    FieldAssign { base: String, field: String, expr: Expr },
    If { cond: Expr, then_block: Block, else_block: Option<Block> },
    While { cond: Expr, body: Block },
    Return(Expr),
    Expr(Expr),
}

#[derive(Debug)]
pub enum Expr {
    Int(i32),
    Char(char),
    Bool(bool),
    StringLit(String),
    Ident(String),
    Unary { op: UnOp, expr: Box<Expr> },
    Binary { op: BinOp, left: Box<Expr>, right: Box<Expr> },
    Call { callee: String, args: Vec<Expr> },
    FieldAccess { expr: Box<Expr>, field: String },
    StructInit { name: String, fields: Vec<(String, Expr)> },
}

#[derive(Debug, Clone, Copy, PartialEq, Eq)]
pub enum UnOp {
    Not,
}

#[derive(Debug, Clone, Copy, PartialEq, Eq)]
pub enum BinOp {
    Add,
    Sub,
    Mul,
    Div,
    Lt,
    Gt,
    LtEq,
    GtEq,
    Eq,
    NotEq,
    And,
    Or,
}

/// Two types are the same type: equal variants, and equal struct names.
pub open spec fn same_type(a: Type, b: Type) -> bool {
    match (a, b) {
        (Type::Struct(x), Type::Struct(y)) => x@ == y@,
        (Type::Struct(_), _) => false,
        (_, Type::Struct(_)) => false,
        _ => a == b,
    }
}

pub open spec fn is_scalar_type(t: Type) -> bool {
    t is I32 || t is Char || t is Bool
}

pub open spec fn is_numeric_type(t: Type) -> bool {
    t is I32 || t is Char
}

impl Type {
    /// A copy of the type, equal to it.
    pub fn duplicate(&self) -> (r: Type)
        ensures
            r == *self,
    {
        match self {
            Type::I32 => Type::I32,
            Type::Char => Type::Char,
            Type::Bool => Type::Bool,
            Type::Str => Type::Str,
            Type::Void => Type::Void,
            Type::Struct(n) => Type::Struct(n.clone()),
        }
    }

    /// Whether two types are the same type.
    pub fn same_as(&self, other: &Type) -> (r: bool)
        ensures
            r == same_type(*self, *other),
    {
        match (self, other) {
            (Type::Struct(x), Type::Struct(y)) => crate::text::string_eq(x, y),
            (Type::Struct(_), _) => false,
            (_, Type::Struct(_)) => false,
            (Type::I32, Type::I32) => true,
            (Type::Char, Type::Char) => true,
            (Type::Bool, Type::Bool) => true,
            (Type::Str, Type::Str) => true,
            (Type::Void, Type::Void) => true,
            _ => false,
        }
    }

    /// Scalars are `I32`, `Char` and `Bool`: one 32-bit slot each.
    pub fn is_scalar(&self) -> (r: bool)
        ensures
            r == is_scalar_type(*self),
    {
        match self {
            Type::I32 | Type::Char | Type::Bool => true,
            _ => false,
        }
    }
}

} // verus!

verus! {

broadcast use vstd::std_specs::vec::group_vec_axioms;

/// The syntax of an expression as mathematical values.
pub enum SExpr {
    Int(i32),
    Char(char),
    Bool(bool),
    Str(Seq<char>),
    Ident(Seq<char>),
    Not(Box<SExpr>),
    Binary(BinOp, Box<SExpr>, Box<SExpr>),
    Call(Seq<char>, Seq<SExpr>),
    Field(Box<SExpr>, Seq<char>),
    Init(Seq<char>, Seq<(Seq<char>, SExpr)>),
}

pub open spec fn expr_view(e: Expr) -> SExpr
    decreases e,
{
    match e {
        Expr::Int(v) => SExpr::Int(v),
        Expr::Char(c) => SExpr::Char(c),
        Expr::Bool(b) => SExpr::Bool(b),
        Expr::StringLit(s) => SExpr::Str(s@),
        Expr::Ident(n) => SExpr::Ident(n@),
        Expr::Unary { op, expr } => SExpr::Not(Box::new(expr_view(*expr))),
        Expr::Binary { op, left, right } => SExpr::Binary(op, Box::new(expr_view(*left)), Box::new(expr_view(*right))),
        Expr::Call { callee, args } => SExpr::Call(callee@, Seq::new(args@.len(), |i: int| if 0 <= i < args@.len() { expr_view(args@[i]) } else { SExpr::Int(0) })),
        Expr::FieldAccess { expr, field } => SExpr::Field(Box::new(expr_view(*expr)), field@),
        Expr::StructInit { name, fields } => SExpr::Init(name@, Seq::new(fields@.len(), |i: int| if 0 <= i < fields@.len() { (fields@[i].0@, expr_view(fields@[i].1)) } else { (seq![], SExpr::Int(0)) })),
    }
}

} // verus!

verus! {

/// A type as a mathematical value.
pub enum SType {
    I32,
    Char,
    Bool,
    Str,
    Void,
    Struct(Seq<char>),
}

pub open spec fn type_view(t: Type) -> SType {
    match t {
        Type::I32 => SType::I32,
        Type::Char => SType::Char,
        Type::Bool => SType::Bool,
        Type::Str => SType::Str,
        Type::Void => SType::Void,
        Type::Struct(n) => SType::Struct(n@),
    }
}

/// The syntax of a statement as mathematical values; a block is its statements.
pub enum SStmt {
    Let(Seq<char>, SType, SExpr),
    Assign(Seq<char>, SExpr),
    FieldAssign(Seq<char>, Seq<char>, SExpr),
    If(SExpr, Seq<SStmt>, Option<Seq<SStmt>>),
    While(SExpr, Seq<SStmt>),
    Return(SExpr),
    Expr(SExpr),
}

pub open spec fn stmt_view(s: Stmt) -> SStmt
    decreases s,
{
    match s {
        Stmt::Let { name, ty, expr } => SStmt::Let(name@, type_view(ty), expr_view(expr)),
        Stmt::Assign { name, expr } => SStmt::Assign(name@, expr_view(expr)),
        Stmt::FieldAssign { base, field, expr } => SStmt::FieldAssign(base@, field@, expr_view(expr)),
        Stmt::If { cond, then_block, else_block } => SStmt::If(
            expr_view(cond),
            Seq::new(then_block.statements@.len(), |i: int| if 0 <= i < then_block.statements@.len() {
                stmt_view(then_block.statements@[i])
            } else {
                SStmt::Return(SExpr::Int(0))
            }),
            match else_block {
                Some(eb) => Some(Seq::new(eb.statements@.len(), |i: int| if 0 <= i < eb.statements@.len() {
                    stmt_view(eb.statements@[i])
                } else {
                    SStmt::Return(SExpr::Int(0))
                })),
                None => None,
            },
        ),
        Stmt::While { cond, body } => SStmt::While(
            expr_view(cond),
            Seq::new(body.statements@.len(), |i: int| if 0 <= i < body.statements@.len() {
                stmt_view(body.statements@[i])
            } else {
                SStmt::Return(SExpr::Int(0))
            }),
        ),
        Stmt::Return(e) => SStmt::Return(expr_view(e)),
        Stmt::Expr(e) => SStmt::Expr(expr_view(e)),
    }
}

/// The trees of a sequence of statements.
pub open spec fn stmts_view(v: Seq<Stmt>) -> Seq<SStmt> {
    Seq::new(v.len(), |i: int| if 0 <= i < v.len() { stmt_view(v[i]) } else { SStmt::Return(SExpr::Int(0)) })
}

/// The statements of a block as trees.
pub open spec fn block_view(b: Block) -> Seq<SStmt> {
    stmts_view(b.statements@)
}

/// Named, typed slots (parameters or fields) as values.
pub open spec fn params_view(ps: Seq<Param>) -> Seq<(Seq<char>, SType)> {
    Seq::new(ps.len(), |i: int| if 0 <= i < ps.len() { (ps[i].name@, type_view(ps[i].ty)) } else { (seq![], SType::Void) })
}

/// A function as values.
pub struct SFunction {
    pub name: Seq<char>,
    pub params: Seq<(Seq<char>, SType)>,
    pub ret: SType,
    pub body: Seq<SStmt>,
}

pub open spec fn function_view(f: Function) -> SFunction {
    SFunction { name: f.name@, params: params_view(f.params@), ret: type_view(f.ret), body: block_view(f.body) }
}

/// A struct declaration as values: its name and fields.
pub open spec fn struct_view(d: StructDecl) -> (Seq<char>, Seq<(Seq<char>, SType)>) {
    (d.name@, params_view(d.fields@))
}

/// A program as values: its structs and its functions, each in source order.
pub struct SProgram {
    pub structs: Seq<(Seq<char>, Seq<(Seq<char>, SType)>)>,
    pub functions: Seq<SFunction>,
}

pub open spec fn program_view(p: Program) -> SProgram {
    SProgram {
        structs: Seq::new(p.structs@.len(), |i: int| if 0 <= i < p.structs@.len() {
            struct_view(p.structs@[i])
        } else {
            (seq![], seq![])
        }),
        functions: Seq::new(p.functions@.len(), |i: int| if 0 <= i < p.functions@.len() {
            function_view(p.functions@[i])
        } else {
            SFunction { name: seq![], params: seq![], ret: SType::Void, body: seq![] }
        }),
    }
}

} // verus!
