use vstd::prelude::*;
use crate::ast::{block_view, expr_view, function_view, params_view, program_view, stmt_view, stmts_view, struct_view, type_view, SFunction, SProgram, SStmt, SType, BinOp, Block, Expr, Function, Param, Program, SExpr, Stmt, StructDecl, Type, UnOp};
use crate::lexer::{code_of, kind_code, kind_name, token_fits, Lexer, Token, TokenKind};
use crate::text::{push_str, string_from, string_is};

verus! {

/// A syntax error: what was expected, and the byte offset of the token found instead.
#[derive(Debug)]
pub struct ParseError {
    pub message: String,
    pub pos: usize,
}

/// A recursive-descent parser with one token of lookahead over the tokens of a source text.
pub struct Parser {
    tokens: Vec<Token>,
    curr: usize,
    /// Where in the source each token's lexing started; the last entry is where it stopped.
    ends: Ghost<Seq<int>>,
}

/// `toks` are the successive results of a lexer on `s` from index 0, up to and
/// including the first `Eof`: token `k` is what the lexer returns at index `ends[k]`,
/// stopping at `ends[k + 1]`.
pub open spec fn lexed(s: Seq<char>, toks: Seq<Token>, ends: Seq<int>) -> bool {
    &&& toks.len() > 0
    &&& ends.len() == toks.len() + 1
    &&& ends[0] == 0
    &&& forall|k: int| 0 <= k < toks.len() ==> token_fits(s, ends[k], #[trigger] toks[k], ends[k + 1])
    &&& forall|k: int| 0 <= k < toks.len() - 1 ==> !((#[trigger] toks[k]).kind is Eof)
    &&& toks.last().kind is Eof
}

/// The type that a type name denotes: a built-in type, or else the struct of that name.
pub open spec fn names_type(n: Seq<char>, t: Type) -> bool {
    if n == seq!['i', '3', '2'] {
        t is I32
    } else if n == seq!['c', 'h', 'a', 'r'] {
        t is Char
    } else if n == seq!['b', 'o', 'o', 'l'] {
        t is Bool
    } else if n == seq!['s', 't', 'r'] {
        t is Str
    } else if n == seq!['v', 'o', 'i', 'd'] {
        t is Void
    } else {
        t matches Type::Struct(m) && m@ == n
    }
}

/// The result of a parse step: the node, and the index of the first token after it.
pub open spec fn advanced<T>(r: Result<(T, usize), ParseError>, i: int, len: int) -> bool {
    &&& r matches Ok((_, j)) ==> i < j < len
    &&& r matches Err(e) ==> e.message@.len() > 0
}

/// Like `advanced`, where the step may consume nothing.
pub open spec fn advanced_or_stayed<T>(r: Result<(T, usize), ParseError>, i: int, len: int) -> bool {
    &&& r matches Ok((_, j)) ==> i <= j < len
    &&& r matches Err(e) ==> e.message@.len() > 0
}

/// The statement that a leading token starts: `let`, `return`, `if` and `while` start
/// their own kind; an identifier starts an assignment, a field assignment or an
/// expression statement.
pub open spec fn stmt_fits_head(s: Stmt, head: TokenKind) -> bool {
    &&& head is Let ==> s is Let
    &&& head is Return ==> s is Return
    &&& head is If ==> s is If
    &&& head is While ==> s is While
    &&& head is Ident ==> (s is Assign || s is FieldAssign || s is Expr)
    &&& !(head is Let || head is Return || head is If || head is While || head is Ident) ==> s is Expr
}

/// The kind of token `i`, `Eof` past the end.
pub open spec fn tk(t: Seq<Token>, i: int) -> TokenKind {
    if 0 <= i < t.len() { t[i].kind } else { TokenKind::Eof }
}

/// Whether token `i` has the kind of `k`.
pub open spec fn is_k(t: Seq<Token>, i: int, k: TokenKind) -> bool {
    code_of(tk(t, i)) == code_of(k)
}

/// What an expression parse returned agrees with the grammar: the same tree and end,
/// or an error where the grammar has no parse.
pub open spec fn agrees(r: Result<(Expr, usize), ParseError>, g: Option<(SExpr, int)>) -> bool {
    match g {
        Some((v, j)) => r matches Ok((e, k)) && expr_view(e) == v && k == j,
        None => r is Err,
    }
}

/// The struct declarations of a program as values.
pub open spec fn structs_view(v: Seq<StructDecl>) -> Seq<(Seq<char>, Seq<(Seq<char>, SType)>)> {
    Seq::new(v.len(), |i: int| if 0 <= i < v.len() { struct_view(v[i]) } else { (seq![], seq![]) })
}

/// The functions of a program as values.
pub open spec fn fns_view(v: Seq<Function>) -> Seq<SFunction> {
    Seq::new(v.len(), |i: int| if 0 <= i < v.len() { function_view(v[i]) } else {
        SFunction { name: seq![], params: seq![], ret: SType::Void, body: seq![] }
    })
}

/// The trees of a sequence of expressions.
pub open spec fn args_view(a: Seq<Expr>) -> Seq<SExpr> {
    Seq::new(a.len(), |i: int| if 0 <= i < a.len() { expr_view(a[i]) } else { SExpr::Int(0) })
}

/// The fields of a struct literal as names and trees.
pub open spec fn inits_view(f: Seq<(String, Expr)>) -> Seq<(Seq<char>, SExpr)> {
    Seq::new(f.len(), |i: int| if 0 <= i < f.len() { (f[i].0@, expr_view(f[i].1)) } else { (seq![], SExpr::Int(0)) })
}

/// The grammar of expressions, as functions from a start index to the tree parsed
/// and the index after it. `primary := INT | CHAR | STRING | true | false
/// | IDENT ( '(' args ')' | '{' inits '}' )? | '(' expr ')'`.
pub open spec fn g_primary(t: Seq<Token>, i: int) -> Option<(SExpr, int)>
    decreases t.len() - i, 5nat,
{
    if i < 0 || i >= t.len() {
        None
    } else {
        match tk(t, i) {
            TokenKind::Int(v) => Some((SExpr::Int(v), i + 1)),
            TokenKind::True => Some((SExpr::Bool(true), i + 1)),
            TokenKind::False => Some((SExpr::Bool(false), i + 1)),
            TokenKind::Char(c) => Some((SExpr::Char(c), i + 1)),
            TokenKind::StringLit(s) => Some((SExpr::Str(s@), i + 1)),
            TokenKind::Ident(n) => if is_k(t, i + 1, TokenKind::LParen) {
                match g_args(t, i + 2) {
                    Some((a, k)) => if is_k(t, k, TokenKind::RParen) { Some((SExpr::Call(n@, a), k + 1)) } else { None },
                    None => None,
                }
            } else if is_k(t, i + 1, TokenKind::LBrace) {
                if is_k(t, i + 2, TokenKind::RBrace) {
                    Some((SExpr::Init(n@, seq![]), i + 3))
                } else {
                    match g_inits(t, i + 2) {
                        Some((f, k)) => if is_k(t, k, TokenKind::RBrace) { Some((SExpr::Init(n@, f), k + 1)) } else { None },
                        None => None,
                    }
                }
            } else {
                Some((SExpr::Ident(n@), i + 1))
            },
            TokenKind::LParen => match g_expr(t, i + 1) {
                Some((e, k)) => if is_k(t, k, TokenKind::RParen) { Some((e, k + 1)) } else { None },
                None => None,
            },
            _ => None,
        }
    }
}

/// Call arguments up to (not including) the closing parenthesis.
pub open spec fn g_args(t: Seq<Token>, i: int) -> Option<(Seq<SExpr>, int)>
    decreases t.len() - i, 20nat,
{
    if i < 0 || i >= t.len() {
        None
    } else if is_k(t, i, TokenKind::RParen) {
        Some((seq![], i))
    } else {
        g_arg_list(t, i)
    }
}

/// `expr (',' expr)*`.
pub open spec fn g_arg_list(t: Seq<Token>, i: int) -> Option<(Seq<SExpr>, int)>
    decreases t.len() - i, 19nat,
{
    if i < 0 || i >= t.len() {
        None
    } else {
        match g_expr(t, i) {
            Some((e, k)) => if is_k(t, k, TokenKind::Comma) {
                if i < k + 1 <= t.len() {
                    match g_arg_list(t, k + 1) {
                        Some((rest, m)) => Some((seq![e] + rest, m)),
                        None => None,
                    }
                } else {
                    None
                }
            } else {
                Some((seq![e], k))
            },
            None => None,
        }
    }
}

/// `IDENT ':' expr (',' IDENT ':' expr)*`.
pub open spec fn g_inits(t: Seq<Token>, i: int) -> Option<(Seq<(Seq<char>, SExpr)>, int)>
    decreases t.len() - i, 19nat,
{
    if i < 0 || i >= t.len() {
        None
    } else {
        match tk(t, i) {
            TokenKind::Ident(f) => if is_k(t, i + 1, TokenKind::Colon) {
                match g_expr(t, i + 2) {
                    Some((e, k)) => if is_k(t, k, TokenKind::Comma) {
                        if i < k + 1 <= t.len() {
                            match g_inits(t, k + 1) {
                                Some((rest, m)) => Some((seq![(f@, e)] + rest, m)),
                                None => None,
                            }
                        } else {
                            None
                        }
                    } else {
                        Some((seq![(f@, e)], k))
                    },
                    None => None,
                }
            } else {
                None
            },
            _ => None,
        }
    }
}

/// `unary := '!' unary | primary`.
pub open spec fn g_unary(t: Seq<Token>, i: int) -> Option<(SExpr, int)>
    decreases t.len() - i, 6nat,
{
    if i < 0 || i >= t.len() {
        None
    } else if is_k(t, i, TokenKind::Bang) {
        match g_unary(t, i + 1) {
            Some((e, k)) => Some((SExpr::Not(Box::new(e)), k)),
            None => None,
        }
    } else {
        g_primary(t, i)
    }
}

/// `('.' IDENT)*` after `acc`.
pub open spec fn g_postfix_rest(t: Seq<Token>, i: int, acc: SExpr) -> Option<(SExpr, int)>
    decreases t.len() - i,
{
    if i < 0 || i >= t.len() {
        None
    } else if is_k(t, i, TokenKind::Dot) {
        match tk(t, i + 1) {
            TokenKind::Ident(f) => g_postfix_rest(t, i + 2, SExpr::Field(Box::new(acc), f@)),
            _ => None,
        }
    } else {
        Some((acc, i))
    }
}

/// `factor := unary ('.' IDENT)*`.
pub open spec fn g_factor(t: Seq<Token>, i: int) -> Option<(SExpr, int)>
    decreases t.len() - i, 7nat,
{
    match g_unary(t, i) {
        Some((e, k)) => g_postfix_rest(t, k, e),
        None => None,
    }
}

/// The multiplicative operator at `i`, if any.
pub open spec fn mul_op(t: Seq<Token>, i: int) -> Option<BinOp> {
    if is_k(t, i, TokenKind::Star) { Some(BinOp::Mul) } else if is_k(t, i, TokenKind::Slash) { Some(BinOp::Div) } else { None }
}

/// The additive operator at `i`, if any.
pub open spec fn add_op(t: Seq<Token>, i: int) -> Option<BinOp> {
    if is_k(t, i, TokenKind::Plus) { Some(BinOp::Add) } else if is_k(t, i, TokenKind::Minus) { Some(BinOp::Sub) } else { None }
}

/// The comparison operator at `i`, if any.
pub open spec fn cmp_op(t: Seq<Token>, i: int) -> Option<BinOp> {
    match tk(t, i) {
        TokenKind::Lt => Some(BinOp::Lt),
        TokenKind::Gt => Some(BinOp::Gt),
        TokenKind::LtEq => Some(BinOp::LtEq),
        TokenKind::GtEq => Some(BinOp::GtEq),
        TokenKind::EqEq => Some(BinOp::Eq),
        TokenKind::NotEq => Some(BinOp::NotEq),
        _ => None,
    }
}

pub open spec fn bin(op: BinOp, l: SExpr, r: SExpr) -> SExpr {
    SExpr::Binary(op, Box::new(l), Box::new(r))
}

/// `(('*' | '/') factor)*` after `acc`, left-associative.
pub open spec fn g_term_rest(t: Seq<Token>, i: int, acc: SExpr) -> Option<(SExpr, int)>
    decreases t.len() - i, 8nat,
{
    if i < 0 || i >= t.len() {
        None
    } else {
        match mul_op(t, i) {
            Some(op) => match g_factor(t, i + 1) {
                Some((r, k)) => if i < k <= t.len() { g_term_rest(t, k, bin(op, acc, r)) } else { None },
                None => None,
            },
            None => Some((acc, i)),
        }
    }
}

pub open spec fn g_term(t: Seq<Token>, i: int) -> Option<(SExpr, int)>
    decreases t.len() - i, 9nat,
{
    match g_factor(t, i) {
        Some((e, k)) => if i < k <= t.len() { g_term_rest(t, k, e) } else { None },
        None => None,
    }
}

/// `(('+' | '-') term)*` after `acc`.
pub open spec fn g_additive_rest(t: Seq<Token>, i: int, acc: SExpr) -> Option<(SExpr, int)>
    decreases t.len() - i, 10nat,
{
    if i < 0 || i >= t.len() {
        None
    } else {
        match add_op(t, i) {
            Some(op) => match g_term(t, i + 1) {
                Some((r, k)) => if i < k <= t.len() { g_additive_rest(t, k, bin(op, acc, r)) } else { None },
                None => None,
            },
            None => Some((acc, i)),
        }
    }
}

pub open spec fn g_additive(t: Seq<Token>, i: int) -> Option<(SExpr, int)>
    decreases t.len() - i, 11nat,
{
    match g_term(t, i) {
        Some((e, k)) => if i < k <= t.len() { g_additive_rest(t, k, e) } else { None },
        None => None,
    }
}

/// `(cmp additive)*` after `acc`.
pub open spec fn g_comparison_rest(t: Seq<Token>, i: int, acc: SExpr) -> Option<(SExpr, int)>
    decreases t.len() - i, 12nat,
{
    if i < 0 || i >= t.len() {
        None
    } else {
        match cmp_op(t, i) {
            Some(op) => match g_additive(t, i + 1) {
                Some((r, k)) => if i < k <= t.len() { g_comparison_rest(t, k, bin(op, acc, r)) } else { None },
                None => None,
            },
            None => Some((acc, i)),
        }
    }
}

pub open spec fn g_comparison(t: Seq<Token>, i: int) -> Option<(SExpr, int)>
    decreases t.len() - i, 13nat,
{
    match g_additive(t, i) {
        Some((e, k)) => if i < k <= t.len() { g_comparison_rest(t, k, e) } else { None },
        None => None,
    }
}

/// `('&&' comparison)*` after `acc`.
pub open spec fn g_and_rest(t: Seq<Token>, i: int, acc: SExpr) -> Option<(SExpr, int)>
    decreases t.len() - i, 14nat,
{
    if i < 0 || i >= t.len() {
        None
    } else if is_k(t, i, TokenKind::AndAnd) {
        match g_comparison(t, i + 1) {
            Some((r, k)) => if i < k <= t.len() { g_and_rest(t, k, bin(BinOp::And, acc, r)) } else { None },
            None => None,
        }
    } else {
        Some((acc, i))
    }
}

pub open spec fn g_and(t: Seq<Token>, i: int) -> Option<(SExpr, int)>
    decreases t.len() - i, 15nat,
{
    match g_comparison(t, i) {
        Some((e, k)) => if i < k <= t.len() { g_and_rest(t, k, e) } else { None },
        None => None,
    }
}

/// `('||' and)*` after `acc`.
pub open spec fn g_or_rest(t: Seq<Token>, i: int, acc: SExpr) -> Option<(SExpr, int)>
    decreases t.len() - i, 16nat,
{
    if i < 0 || i >= t.len() {
        None
    } else if is_k(t, i, TokenKind::OrOr) {
        match g_and(t, i + 1) {
            Some((r, k)) => if i < k <= t.len() { g_or_rest(t, k, bin(BinOp::Or, acc, r)) } else { None },
            None => None,
        }
    } else {
        Some((acc, i))
    }
}

/// `expr := and ('||' and)*`.
#[verifier::opaque]
pub open spec fn g_expr(t: Seq<Token>, i: int) -> Option<(SExpr, int)>
    decreases t.len() - i, 18nat,
{
    match g_and(t, i) {
        Some((e, k)) => if i < k <= t.len() { g_or_rest(t, k, e) } else { None },
        None => None,
    }
}

/// The rest of an expression whose leading factor `acc` ends just before `i`.
#[verifier::opaque]
pub open spec fn g_expr_rest(t: Seq<Token>, i: int, acc: SExpr) -> Option<(SExpr, int)>
    decreases t.len() - i, 17nat,
{
    match g_term_rest(t, i, acc) {
        Some((a, k1)) => if i <= k1 <= t.len() {
            match g_additive_rest(t, k1, a) {
                Some((b, k2)) => if k1 <= k2 <= t.len() {
                    match g_comparison_rest(t, k2, b) {
                        Some((c, k3)) => if k2 <= k3 <= t.len() {
                            match g_and_rest(t, k3, c) {
                                Some((d, k4)) => if k3 <= k4 <= t.len() { g_or_rest(t, k4, d) } else { None },
                                None => None,
                            }
                        } else {
                            None
                        },
                        None => None,
                    }
                } else {
                    None
                },
                None => None,
            }
        } else {
            None
        },
        None => None,
    }
}

/// Index `k` lies after `i`, within the tokens.
pub open spec fn ahead(t: Seq<Token>, i: int, k: int) -> bool {
    i < k <= t.len()
}

/// The type that a type name denotes.
pub open spec fn name_type(n: Seq<char>) -> SType {
    if n == seq!['i', '3', '2'] {
        SType::I32
    } else if n == seq!['c', 'h', 'a', 'r'] {
        SType::Char
    } else if n == seq!['b', 'o', 'o', 'l'] {
        SType::Bool
    } else if n == seq!['s', 't', 'r'] {
        SType::Str
    } else if n == seq!['v', 'o', 'i', 'd'] {
        SType::Void
    } else {
        SType::Struct(n)
    }
}

/// `type := IDENT`.
pub open spec fn g_type(t: Seq<Token>, i: int) -> Option<(SType, int)> {
    if 0 <= i < t.len() {
        match tk(t, i) {
            TokenKind::Ident(n) => Some((name_type(n@), i + 1)),
            _ => None,
        }
    } else {
        None
    }
}

/// The expression at `i`, then a `;`.
pub open spec fn g_expr_semi(t: Seq<Token>, i: int) -> Option<(SExpr, int)> {
    match g_expr(t, i) {
        Some((e, k)) => if is_k(t, k, TokenKind::Semicolon) { Some((e, k + 1)) } else { None },
        None => None,
    }
}

/// `block := '{' stmt* '}'`.
#[verifier::opaque]
pub open spec fn g_block(t: Seq<Token>, i: int) -> Option<(Seq<SStmt>, int)>
    decreases t.len() - i, 23nat,
{
    if 0 <= i < t.len() && is_k(t, i, TokenKind::LBrace) {
        match g_stmts(t, i + 1) {
            Some((ss, k)) => if is_k(t, k, TokenKind::RBrace) { Some((ss, k + 1)) } else { None },
            None => None,
        }
    } else {
        None
    }
}

/// Statements up to (not including) a closing brace.
#[verifier::opaque]
pub open spec fn g_stmts(t: Seq<Token>, i: int) -> Option<(Seq<SStmt>, int)>
    decreases t.len() - i, 22nat,
{
    if i < 0 || i >= t.len() {
        None
    } else if is_k(t, i, TokenKind::RBrace) {
        Some((seq![], i))
    } else {
        match g_stmt(t, i) {
            Some((st, k)) => if ahead(t, i, k) {
                match g_stmts(t, k) {
                    Some((rest, m)) => Some((seq![st] + rest, m)),
                    None => None,
                }
            } else {
                None
            },
            None => None,
        }
    }
}

/// `stmt := let | return | if | while | assign_or_expr`, where
/// `assign_or_expr := IDENT ('=' expr ';' | '(' args ')' ';' | '.' IDENT ('=' expr ';' | postfix rest ';') | rest ';')`.
#[verifier::opaque]
pub open spec fn g_stmt(t: Seq<Token>, i: int) -> Option<(SStmt, int)>
    decreases t.len() - i, 21nat,
{
    if i < 0 || i >= t.len() {
        None
    } else {
        match tk(t, i) {
            TokenKind::Let => match tk(t, i + 1) {
                TokenKind::Ident(n) => if is_k(t, i + 2, TokenKind::Colon) {
                    match g_type(t, i + 3) {
                        Some((ty, k)) => if is_k(t, k, TokenKind::Eq) {
                            match g_expr_semi(t, k + 1) {
                                Some((e, m)) => Some((SStmt::Let(n@, ty, e), m)),
                                None => None,
                            }
                        } else {
                            None
                        },
                        None => None,
                    }
                } else {
                    None
                },
                _ => None,
            },
            TokenKind::Return => match g_expr_semi(t, i + 1) {
                Some((e, m)) => Some((SStmt::Return(e), m)),
                None => None,
            },
            TokenKind::If => if is_k(t, i + 1, TokenKind::LParen) {
                match g_expr(t, i + 2) {
                    Some((c, k)) => if is_k(t, k, TokenKind::RParen) && ahead(t, i, k + 1) {
                        match g_block(t, k + 1) {
                            Some((tb, m)) => if is_k(t, m, TokenKind::Else) && ahead(t, i, m + 1) {
                                match g_block(t, m + 1) {
                                    Some((eb, n)) => Some((SStmt::If(c, tb, Some(eb)), n)),
                                    None => None,
                                }
                            } else {
                                Some((SStmt::If(c, tb, None), m))
                            },
                            None => None,
                        }
                    } else {
                        None
                    },
                    None => None,
                }
            } else {
                None
            },
            TokenKind::While => if is_k(t, i + 1, TokenKind::LParen) {
                match g_expr(t, i + 2) {
                    Some((c, k)) => if is_k(t, k, TokenKind::RParen) && ahead(t, i, k + 1) {
                        match g_block(t, k + 1) {
                            Some((b, m)) => Some((SStmt::While(c, b), m)),
                            None => None,
                        }
                    } else {
                        None
                    },
                    None => None,
                }
            } else {
                None
            },
            TokenKind::Ident(name) => if is_k(t, i + 1, TokenKind::Eq) {
                match g_expr_semi(t, i + 2) {
                    Some((e, m)) => Some((SStmt::Assign(name@, e), m)),
                    None => None,
                }
            } else if is_k(t, i + 1, TokenKind::LParen) {
                match g_args(t, i + 2) {
                    Some((a, k)) => if is_k(t, k, TokenKind::RParen) && is_k(t, k + 1, TokenKind::Semicolon) {
                        Some((SStmt::Expr(SExpr::Call(name@, a)), k + 2))
                    } else {
                        None
                    },
                    None => None,
                }
            } else if is_k(t, i + 1, TokenKind::Dot) {
                match tk(t, i + 2) {
                    TokenKind::Ident(f) => if is_k(t, i + 3, TokenKind::Eq) {
                        match g_expr_semi(t, i + 4) {
                            Some((e, m)) => Some((SStmt::FieldAssign(name@, f@, e), m)),
                            None => None,
                        }
                    } else {
                        match g_postfix_rest(t, i + 3, SExpr::Field(Box::new(SExpr::Ident(name@)), f@)) {
                            Some((p, k)) => match g_expr_rest(t, k, p) {
                                Some((e, m)) => if is_k(t, m, TokenKind::Semicolon) { Some((SStmt::Expr(e), m + 1)) } else { None },
                                None => None,
                            },
                            None => None,
                        }
                    },
                    _ => None,
                }
            } else {
                match g_expr_rest(t, i + 1, SExpr::Ident(name@)) {
                    Some((e, m)) => if is_k(t, m, TokenKind::Semicolon) { Some((SStmt::Expr(e), m + 1)) } else { None },
                    None => None,
                }
            },
            _ => match g_expr_semi(t, i) {
                Some((e, m)) => Some((SStmt::Expr(e), m)),
                None => None,
            },
        }
    }
}

/// What a statement parse returned agrees with the grammar.
pub open spec fn stmt_agrees(r: Result<(Stmt, usize), ParseError>, g: Option<(SStmt, int)>) -> bool {
    match g {
        Some((v, j)) => r matches Ok((x, k)) && stmt_view(x) == v && k == j,
        None => r is Err,
    }
}

/// `IDENT ':' type (',' IDENT ':' type)*`; with `trailing`, a `,` may also end the list
/// before a closing brace.
pub open spec fn g_slots(t: Seq<Token>, i: int, trailing: bool) -> Option<(Seq<(Seq<char>, SType)>, int)>
    decreases t.len() - i,
{
    if i < 0 || i >= t.len() {
        None
    } else {
        match tk(t, i) {
            TokenKind::Ident(f) => if is_k(t, i + 1, TokenKind::Colon) {
                match g_type(t, i + 2) {
                    Some((ty, k)) => if is_k(t, k, TokenKind::Comma) {
                        if trailing && is_k(t, k + 1, TokenKind::RBrace) {
                            Some((seq![(f@, ty)], k + 1))
                        } else {
                            match g_slots(t, k + 1, trailing) {
                                Some((rest, m)) => Some((seq![(f@, ty)] + rest, m)),
                                None => None,
                            }
                        }
                    } else {
                        Some((seq![(f@, ty)], k))
                    },
                    None => None,
                }
            } else {
                None
            },
            _ => None,
        }
    }
}

/// `struct_decl := 'struct' IDENT '{' (field (',' field)* ','?)? '}'`.
pub open spec fn g_struct(t: Seq<Token>, i: int) -> Option<((Seq<char>, Seq<(Seq<char>, SType)>), int)> {
    if is_k(t, i, TokenKind::Struct) && 0 <= i {
        match tk(t, i + 1) {
            TokenKind::Ident(n) => if is_k(t, i + 2, TokenKind::LBrace) {
                if is_k(t, i + 3, TokenKind::RBrace) {
                    Some(((n@, seq![]), i + 4))
                } else {
                    match g_slots(t, i + 3, true) {
                        Some((fs, k)) => if is_k(t, k, TokenKind::RBrace) { Some(((n@, fs), k + 1)) } else { None },
                        None => None,
                    }
                }
            } else {
                None
            },
            _ => None,
        }
    } else {
        None
    }
}

/// `function := 'fn' IDENT '(' params? ')' '->' type block`.
pub open spec fn g_function(t: Seq<Token>, i: int) -> Option<(SFunction, int)> {
    if is_k(t, i, TokenKind::Fn) && 0 <= i {
        match tk(t, i + 1) {
            TokenKind::Ident(n) => if is_k(t, i + 2, TokenKind::LParen) {
                let ps = if is_k(t, i + 3, TokenKind::RParen) { Some((seq![], i + 3)) } else { g_slots(t, i + 3, false) };
                match ps {
                    Some((params, k)) => if is_k(t, k, TokenKind::RParen) && is_k(t, k + 1, TokenKind::Arrow) {
                        match g_type(t, k + 2) {
                            Some((ret, m)) => match g_block(t, m) {
                                Some((body, e)) => Some((SFunction { name: n@, params, ret, body }, e)),
                                None => None,
                            },
                            None => None,
                        }
                    } else {
                        None
                    },
                    None => None,
                }
            } else {
                None
            },
            _ => None,
        }
    } else {
        None
    }
}

/// `program := (struct_decl | function)*` up to the end of input: the structs and the
/// functions from index `i` on, each kind in source order.
#[verifier::opaque]
pub open spec fn g_items(t: Seq<Token>, i: int) -> Option<SProgram>
    decreases t.len() - i,
{
    if i < 0 || i >= t.len() {
        None
    } else if is_k(t, i, TokenKind::Eof) {
        Some(SProgram { structs: seq![], functions: seq![] })
    } else if is_k(t, i, TokenKind::Fn) {
        match g_function(t, i) {
            Some((f, k)) => if ahead(t, i, k) {
                match g_items(t, k) {
                    Some(rest) => Some(SProgram { structs: rest.structs, functions: seq![f] + rest.functions }),
                    None => None,
                }
            } else {
                None
            },
            None => None,
        }
    } else if is_k(t, i, TokenKind::Struct) {
        match g_struct(t, i) {
            Some((d, k)) => if ahead(t, i, k) {
                match g_items(t, k) {
                    Some(rest) => Some(SProgram { structs: seq![d] + rest.structs, functions: rest.functions }),
                    None => None,
                }
            } else {
                None
            },
            None => None,
        }
    } else {
        None
    }
}

impl Parser {
    pub closed spec fn wf(&self) -> bool {
        &&& 0 < self.tokens@.len() <= usize::MAX
        &&& self.tokens@.last().kind is Eof
        &&& self.curr < self.tokens@.len()
    }

    /// All tokens up to the end of input have been consumed.
    pub closed spec fn at_end(&self) -> bool {
        self.tokens@[self.curr as int].kind is Eof
    }

    pub closed spec fn len(&self) -> int {
        self.tokens@.len() as int
    }

    spec fn kind_at(&self, i: int) -> TokenKind {
        self.tokens@[i].kind
    }

    /// The index of the next token to parse.
    pub closed spec fn position(&self) -> int {
        self.curr as int
    }

    /// The tokens, in order.
    pub closed spec fn token_seq(&self) -> Seq<Token> {
        self.tokens@
    }

    /// Where the lexing of each token started, and where the last one stopped.
    pub closed spec fn token_ends(&self) -> Seq<int> {
        self.ends@
    }

    /// Reads the whole source into tokens, up to and including the first `Eof`.
    pub fn new(src: &str) -> (r: Parser)
        ensures
            r.wf(),
            r.position() == 0,
            lexed(src@, r.token_seq(), r.token_ends()),
    {
        let mut lexer = Lexer::new(src);
        let mut tokens: Vec<Token> = Vec::new();
        let ghost mut ends: Seq<int> = seq![0];
        loop
            invariant_except_break
                forall|k: int| 0 <= k < tokens@.len() ==> !((#[trigger] tokens@[k]).kind is Eof),
                lexer.wf(),
                lexer.source() == src@,
                lexer.index() <= lexer.source().len(),
                ends.len() == tokens@.len() + 1,
                ends[0] == 0,
                ends.last() == lexer.index(),
                forall|k: int| 0 <= k < tokens@.len() ==> token_fits(src@, ends[k], #[trigger] tokens@[k], ends[k + 1]),
            ensures
                tokens@.len() > 0,
                ends.len() == tokens@.len() + 1,
                ends[0] == 0,
                forall|k: int| 0 <= k < tokens@.len() ==> token_fits(src@, ends[k], #[trigger] tokens@[k], ends[k + 1]),
                forall|k: int| 0 <= k < tokens@.len() - 1 ==> !((#[trigger] tokens@[k]).kind is Eof),
                tokens@.last().kind is Eof,
            decreases lexer.remaining(),
        {
            let ghost start = lexer.index();
            let t = lexer.next_token();
            let stop = matches!(t.kind, TokenKind::Eof);
            let ghost old_tokens = tokens@;
            let ghost old_ends = ends;
            tokens.push(t);
            proof {
                ends = ends.push(lexer.index());
                assert forall|k: int| 0 <= k < tokens@.len() implies token_fits(src@, ends[k], #[trigger] tokens@[k], ends[k + 1]) by {
                    if k < old_tokens.len() {
                        assert(tokens@[k] == old_tokens[k]);
                        assert(ends[k] == old_ends[k] && ends[k + 1] == old_ends[k + 1]);
                    } else {
                        assert(tokens@[k] == t);
                        assert(ends[k] == start);
                    }
                }
            }
            if stop {
                assert(tokens@.last().kind is Eof);
                assert forall|k: int| 0 <= k < tokens@.len() - 1 implies !((#[trigger] tokens@[k]).kind is Eof) by {
                    assert(tokens@[k] == old_tokens[k]);
                }
                break ;
            }
            assert forall|k: int| 0 <= k < tokens@.len() implies !((#[trigger] tokens@[k]).kind is Eof) by {
                if k < old_tokens.len() {
                    assert(tokens@[k] == old_tokens[k]);
                }
            }
        }
        let n = tokens.len();
        Parser { tokens, curr: 0, ends: Ghost(ends) }
    }

    fn code_at(&self, i: usize) -> (r: u8)
        requires
            self.wf(),
            i < self.len(),
        ensures
            r == code_of(self.kind_at(i as int)),
    {
        kind_code(&self.tokens[i].kind)
    }

    /// Whether the token at `i` has the kind of `k`.
    fn at(&self, i: usize, k: TokenKind) -> (r: bool)
        requires
            self.wf(),
            i < self.len(),
        ensures
            r == (code_of(self.kind_at(i as int)) == code_of(k)),
    {
        self.code_at(i) == kind_code(&k)
    }

    proof fn lemma_not_last(&self, i: int)
        requires
            self.wf(),
            0 <= i < self.len(),
            !(self.kind_at(i) is Eof),
        ensures
            i + 1 < self.len(),
    {
    }

    fn error_unexpected(&self, i: usize) -> (r: ParseError)
        requires
            self.wf(),
            i < self.len(),
    {
        proof { reveal_strlit("unexpected token"); }
        self.error(i, "unexpected token")
    }

    fn error(&self, i: usize, msg: &'static str) -> (r: ParseError)
        requires
            self.wf(),
            i < self.len(),
            msg@.len() > 0,
        ensures
            r.message@.len() > 0,
    {
        ParseError { message: string_from(msg), pos: self.tokens[i].pos }
    }

    fn expect(&self, i: usize, k: TokenKind) -> (r: Result<usize, ParseError>)
        requires
            self.wf(),
            i < self.len(),
            !(k is Eof),
        ensures
            r matches Ok(j) ==> j == i + 1 && j < self.len() && code_of(self.kind_at(i as int))
                == code_of(k),
            r is Err ==> code_of(self.kind_at(i as int)) != code_of(k),
            r matches Err(e) ==> e.message@.len() > 0,
    {
        if self.code_at(i) == kind_code(&k) {
            proof { self.lemma_not_last(i as int); }
            Ok(i + 1)
        } else {
            let mut message = string_from("expected ");
            push_str(&mut message, kind_name(&k));
            Err(ParseError { message, pos: self.tokens[i].pos })
        }
    }

    fn expect_ident(&self, i: usize) -> (r: Result<(String, usize), ParseError>)
        requires
            self.wf(),
            i < self.len(),
        ensures
            r matches Ok((n, j)) ==> j == i + 1 && j < self.len() && (self.kind_at(i as int) matches TokenKind::Ident(m) && n@ == m@),
            r is Err ==> !(self.kind_at(i as int) is Ident),
            r matches Err(e) ==> e.message@.len() > 0,
    {
        match &self.tokens[i].kind {
            TokenKind::Ident(name) => {
                proof { self.lemma_not_last(i as int); }
                Ok((name.clone(), i + 1))
            },
            _ => {
                proof { reveal_strlit("expected identifier"); }
                Err(self.error(i, "expected identifier"))
            },
        }
    }

    /// Parses the whole token stream into a program of structs and functions.
    pub fn parse_program(&mut self) -> (r: Result<Program, ParseError>)
        requires
            old(self).wf(),
        ensures
            final(self).wf(),
            r is Ok ==> final(self).at_end(),
            r matches Err(e) ==> e.message@.len() > 0,
            match g_items(old(self).token_seq(), old(self).position()) {
                Some(p) => r matches Ok(prog) && program_view(prog) == p,
                None => r is Err,
            },
    {
        let ghost c0 = self.curr as int;
        let mut functions: Vec<Function> = Vec::new();
        let mut structs: Vec<StructDecl> = Vec::new();
        let mut c = self.curr;
        assert(structs_view(structs@) =~= Seq::<(Seq<char>, Seq<(Seq<char>, SType)>)>::empty());
        assert(fns_view(functions@) =~= Seq::<SFunction>::empty());
        while !self.at(c, TokenKind::Eof)
            invariant
                self.wf(),
                c < self.len(),
                self.tokens@ == old(self).tokens@,
                self.curr == old(self).curr,
                c0 == old(self).curr as int,
                match g_items(self.tokens@, c0) {
                    Some(p) => match g_items(self.tokens@, c as int) {
                        Some(q) => p.structs == structs_view(structs@) + q.structs
                            && p.functions == fns_view(functions@) + q.functions,
                        None => false,
                    },
                    None => g_items(self.tokens@, c as int) is None,
                },
            decreases self.len() - c,
        {
            proof { reveal_with_fuel(g_items, 1); }
            if self.at(c, TokenKind::Fn) {
                let (f, j) = match self.parse_function(c) {
                    Ok(x) => x,
                    Err(e) => {
                        assert(g_items(self.tokens@, c as int) is None);
                        return Err(e);
                    },
                };
                let ghost fv = function_view(f);
                let ghost before = fns_view(functions@);
                functions.push(f);
                assert(fns_view(functions@) =~= before + seq![fv]);
                proof {
                    if let Some(p) = g_items(self.tokens@, c0) {
                        let q = g_items(self.tokens@, j as int).unwrap();
                        assert(before + (seq![fv] + q.functions) =~= fns_view(functions@) + q.functions);
                    }
                }
                c = j;
            } else if self.at(c, TokenKind::Struct) {
                let (d, j) = match self.parse_struct(c) {
                    Ok(x) => x,
                    Err(e) => {
                        assert(g_items(self.tokens@, c as int) is None);
                        return Err(e);
                    },
                };
                let ghost dv = struct_view(d);
                let ghost before = structs_view(structs@);
                structs.push(d);
                assert(structs_view(structs@) =~= before + seq![dv]);
                proof {
                    if let Some(p) = g_items(self.tokens@, c0) {
                        let q = g_items(self.tokens@, j as int).unwrap();
                        assert(before + (seq![dv] + q.structs) =~= structs_view(structs@) + q.structs);
                    }
                }
                c = j;
            } else {
                proof { reveal_strlit("expected fn or struct"); }
                return Err(self.error(c, "expected fn or struct"));
            }
        }
        proof {
            reveal_with_fuel(g_items, 1);
            if let Some(p) = g_items(self.tokens@, c0) {
                assert(structs_view(structs@) + Seq::<(Seq<char>, Seq<(Seq<char>, SType)>)>::empty() =~= structs_view(structs@));
                assert(fns_view(functions@) + Seq::<SFunction>::empty() =~= fns_view(functions@));
            }
        }
        self.curr = c;
        let prog = Program { functions, structs };
        assert(program_view(prog).structs =~= structs_view(prog.structs@));
        assert(program_view(prog).functions =~= fns_view(prog.functions@));
        Ok(prog)
    }

    fn parse_struct(&self, i: usize) -> (r: Result<(StructDecl, usize), ParseError>)
        requires
            self.wf(),
            i < self.len(),
        ensures
            advanced(r, i as int, self.len()),
            match g_struct(self.tokens@, i as int) {
                Some((v, j)) => r matches Ok((d, k)) && struct_view(d) == v && k == j,
                None => r is Err,
            },
    {
        let j = self.expect(i, TokenKind::Struct)?;
        let (name, j) = self.expect_ident(j)?;
        let j = self.expect(j, TokenKind::LBrace)?;
        if self.at(j, TokenKind::RBrace) {
            proof { self.lemma_not_last(j as int); }
            let fields: Vec<Param> = Vec::new();
            let d = StructDecl { name, fields };
            assert(params_view(d.fields@) =~= Seq::<(Seq<char>, SType)>::empty());
            return Ok((d, j + 1));
        }
        let (fields, j) = self.parse_slots(j, true)?;
        let j = self.expect(j, TokenKind::RBrace)?;
        Ok((StructDecl { name, fields }, j))
    }

    /// Parses `IDENT ':' type (',' IDENT ':' type)*`; with `trailing`, a `,` before a
    /// closing brace also ends the list.
    #[verifier::loop_isolation(false)]
    fn parse_slots(&self, i: usize, trailing: bool) -> (r: Result<(Vec<Param>, usize), ParseError>)
        requires
            self.wf(),
            i < self.len(),
        ensures
            advanced(r, i as int, self.len()),
            match g_slots(self.tokens@, i as int, trailing) {
                Some((v, j)) => r matches Ok((ps, k)) && params_view(ps@) == v && k == j,
                None => r is Err,
            },
    {
        let mut slots: Vec<Param> = Vec::new();
        let mut j = i;
        assert(params_view(slots@) =~= Seq::<(Seq<char>, SType)>::empty());
        loop
            invariant
                self.wf(),
                i <= j < self.len(),
                j > i ==> slots@.len() > 0,
                match g_slots(self.tokens@, i as int, trailing) {
                    Some((a, m)) => match g_slots(self.tokens@, j as int, trailing) {
                        Some((rest, m2)) => m2 == m && a == params_view(slots@) + rest,
                        None => false,
                    },
                    None => g_slots(self.tokens@, j as int, trailing) is None,
                },
            decreases self.len() - j,
        {
            let ghost before = params_view(slots@);
            let (pname, k) = self.expect_ident(j)?;
            let k = self.expect(k, TokenKind::Colon)?;
            let (pty, k) = self.parse_type(k)?;
            let ghost item = (pname@, type_view(pty));
            slots.push(Param { name: pname, ty: pty });
            assert(params_view(slots@) =~= before + seq![item]);
            if self.at(k, TokenKind::Comma) {
                proof { self.lemma_not_last(k as int); }
                if trailing && self.at(k + 1, TokenKind::RBrace) {
                    return Ok((slots, k + 1));
                }
                proof {
                    if let Some((a, m)) = g_slots(self.tokens@, i as int, trailing) {
                        let rest = g_slots(self.tokens@, (k + 1) as int, trailing).unwrap().0;
                        assert(before + (seq![item] + rest) =~= params_view(slots@) + rest);
                    }
                }
                j = k + 1;
            } else {
                return Ok((slots, k));
            }
        }
    }

    fn parse_function(&self, i: usize) -> (r: Result<(Function, usize), ParseError>)
        requires
            self.wf(),
            i < self.len(),
        ensures
            advanced(r, i as int, self.len()),
            match g_function(self.tokens@, i as int) {
                Some((v, j)) => r matches Ok((f, k)) && function_view(f) == v && k == j,
                None => r is Err,
            },
    {
        let j = self.expect(i, TokenKind::Fn)?;
        let (name, j) = self.expect_ident(j)?;
        let j = self.expect(j, TokenKind::LParen)?;
        let (params, j) = if self.at(j, TokenKind::RParen) {
            let params: Vec<Param> = Vec::new();
            assert(params_view(params@) =~= Seq::<(Seq<char>, SType)>::empty());
            (params, j)
        } else {
            self.parse_slots(j, false)?
        };
        let j = self.expect(j, TokenKind::RParen)?;
        let j = self.expect(j, TokenKind::Arrow)?;
        let (ret, j) = self.parse_type(j)?;
        let (body, j) = self.parse_block(j)?;
        Ok((Function { name, params, ret, body }, j))
    }

    fn parse_type(&self, i: usize) -> (r: Result<(Type, usize), ParseError>)
        requires
            self.wf(),
            i < self.len(),
        ensures
            advanced(r, i as int, self.len()),
            r is Ok <==> self.kind_at(i as int) is Ident,
            r matches Ok((t, j)) ==> j == i + 1 && (self.kind_at(i as int) matches TokenKind::Ident(n) && names_type(n@, t)),
            match g_type(self.tokens@, i as int) {
                Some((v, j)) => r matches Ok((ty, k)) && type_view(ty) == v && k == j,
                None => r is Err,
            },
    {
        match &self.tokens[i].kind {
            TokenKind::Ident(name) => {
                proof {
                    self.lemma_not_last(i as int);
                    reveal_strlit("i32");
                    reveal_strlit("char");
                    reveal_strlit("bool");
                    reveal_strlit("str");
                    reveal_strlit("void");
                }
                assert("i32"@ =~= seq!['i', '3', '2']);
                assert("char"@ =~= seq!['c', 'h', 'a', 'r']);
                assert("bool"@ =~= seq!['b', 'o', 'o', 'l']);
                assert("str"@ =~= seq!['s', 't', 'r']);
                assert("void"@ =~= seq!['v', 'o', 'i', 'd']);
                let ty = if string_is(name, "i32") {
                    Type::I32
                } else if string_is(name, "char") {
                    Type::Char
                } else if string_is(name, "bool") {
                    Type::Bool
                } else if string_is(name, "str") {
                    Type::Str
                } else if string_is(name, "void") {
                    Type::Void
                } else {
                    Type::Struct(name.clone())
                };
                Ok((ty, i + 1))
            },
            _ => {
                proof { reveal_strlit("expected type"); }
                Err(self.error(i, "expected type"))
            },
        }
    }

    #[verifier::loop_isolation(false)]
    #[verifier::spinoff_prover]
    #[verifier::rlimit(100)]
    fn parse_block(&self, i: usize) -> (r: Result<(Block, usize), ParseError>)
        requires
            self.wf(),
            i < self.len(),
        ensures
            advanced(r, i as int, self.len()),
            match g_block(self.tokens@, i as int) {
                Some((v, j)) => r matches Ok((b, k)) && block_view(b) == v && k == j,
                None => r is Err,
            },
        decreases self.len() - i, 21nat,
    {
        proof { reveal_with_fuel(g_block, 1); }
        let mut j = self.expect(i, TokenKind::LBrace)?;
        let mut statements: Vec<Stmt> = Vec::new();
        assert(stmts_view(statements@) =~= Seq::<SStmt>::empty());
        while !self.at(j, TokenKind::RBrace)
            invariant
                self.wf(),
                i < j < self.len(),
                match g_stmts(self.tokens@, i + 1) {
                    Some((a, m)) => match g_stmts(self.tokens@, j as int) {
                        Some((rest, m2)) => m2 == m && a == stmts_view(statements@) + rest,
                        None => false,
                    },
                    None => g_stmts(self.tokens@, j as int) is None,
                },
            decreases self.len() - j,
        {
            proof { reveal_with_fuel(g_stmts, 1); }
            let ghost before = stmts_view(statements@);
            let (st, k) = self.parse_stmt(j)?;
            let ghost sv = stmt_view(st);
            statements.push(st);
            assert(stmts_view(statements@) =~= before + seq![sv]);
            proof {
                if let Some((a, m)) = g_stmts(self.tokens@, i + 1) {
                    let rest = g_stmts(self.tokens@, k as int).unwrap().0;
                    assert(before + (seq![sv] + rest) =~= stmts_view(statements@) + rest);
                }
            }
            j = k;
        }
        proof {
            reveal_with_fuel(g_stmts, 1);
            if let Some((a, m)) = g_stmts(self.tokens@, i + 1) {
                assert(stmts_view(statements@) + Seq::<SStmt>::empty() =~= stmts_view(statements@));
            }
        }
        let j = self.expect(j, TokenKind::RBrace)?;
        let b = Block { statements };
        Ok((b, j))
    }

    /// Parses comma-separated call arguments up to the closing parenthesis, which
    /// stands at `i` when there are none; the index returned is that of the `)`.
    #[verifier::loop_isolation(false)]
    #[verifier::spinoff_prover]
    #[verifier::rlimit(100)]
    fn parse_args(&self, i: usize) -> (r: Result<(Vec<Expr>, usize), ParseError>)
        requires
            self.wf(),
            i < self.len(),
        ensures
            advanced_or_stayed(r, i as int, self.len()),
            match g_args(self.tokens@, i as int) {
                Some((a, j)) => r matches Ok((v, k)) && k == j && args_view(v@) == a,
                None => r is Err,
            },
        decreases self.len() - i, 19nat,
    {
        let mut args: Vec<Expr> = Vec::new();
        if self.at(i, TokenKind::RParen) {
            return Ok((args, i));
        }
        let mut j = i;
        assert(args_view(args@) =~= Seq::<SExpr>::empty());
        loop
            invariant
                self.wf(),
                i <= j < self.len(),
                g_args(self.tokens@, i as int) == g_arg_list(self.tokens@, i as int),
                match g_arg_list(self.tokens@, i as int) {
                    Some((a, m)) => match g_arg_list(self.tokens@, j as int) {
                        Some((rest, m2)) => m2 == m && a == args_view(args@) + rest,
                        None => false,
                    },
                    None => g_arg_list(self.tokens@, j as int) is None,
                },
            decreases self.len() - j,
        {
            let ghost before = args_view(args@);
            let (e, k) = self.parse_expr(j)?;
            args.push(e);
            assert(args_view(args@) =~= before + seq![expr_view(e)]);
            if self.at(k, TokenKind::Comma) {
                proof { self.lemma_not_last(k as int); }
                proof {
                    if let Some((a, m)) = g_arg_list(self.tokens@, i as int) {
                        let rest = g_arg_list(self.tokens@, (k + 1) as int).unwrap().0;
                        assert(before + (seq![expr_view(e)] + rest) =~= args_view(args@) + rest);
                    }
                }
                j = k + 1;
            } else {
                proof {
                    if let Some((a, m)) = g_arg_list(self.tokens@, i as int) {
                        assert(before + seq![expr_view(e)] =~= args_view(args@));
                    }
                }
                return Ok((args, k));
            }
        }
    }

    /// Parses `IDENT ':' expr (',' IDENT ':' expr)*`, the fields of a struct literal.
    #[verifier::loop_isolation(false)]
    #[verifier::spinoff_prover]
    #[verifier::rlimit(100)]
    fn parse_inits(&self, i: usize) -> (r: Result<(Vec<(String, Expr)>, usize), ParseError>)
        requires
            self.wf(),
            i < self.len(),
        ensures
            advanced(r, i as int, self.len()),
            match g_inits(self.tokens@, i as int) {
                Some((f, j)) => r matches Ok((v, k)) && k == j && inits_view(v@) == f,
                None => r is Err,
            },
        decreases self.len() - i, 19nat,
    {
        let mut fields: Vec<(String, Expr)> = Vec::new();
        let mut k = i;
        assert(inits_view(fields@) =~= Seq::<(Seq<char>, SExpr)>::empty());
        loop
            invariant
                self.wf(),
                i <= k < self.len(),
                k > i ==> fields@.len() > 0,
                match g_inits(self.tokens@, i as int) {
                    Some((a, m)) => match g_inits(self.tokens@, k as int) {
                        Some((rest, m2)) => m2 == m && a == inits_view(fields@) + rest,
                        None => false,
                    },
                    None => g_inits(self.tokens@, k as int) is None,
                },
            decreases self.len() - k,
        {
            let ghost before = inits_view(fields@);
            let (fname, m) = self.expect_ident(k)?;
            let m = self.expect(m, TokenKind::Colon)?;
            let (val, m) = self.parse_expr(m)?;
            let ghost item = (fname@, expr_view(val));
            fields.push((fname, val));
            assert(inits_view(fields@) =~= before + seq![item]);
            if self.at(m, TokenKind::Comma) {
                proof { self.lemma_not_last(m as int); }
                proof {
                    if let Some((a, mm)) = g_inits(self.tokens@, i as int) {
                        let rest = g_inits(self.tokens@, (m + 1) as int).unwrap().0;
                        assert(before + (seq![item] + rest) =~= inits_view(fields@) + rest);
                    }
                }
                k = m + 1;
            } else {
                proof {
                    if let Some((a, mm)) = g_inits(self.tokens@, i as int) {
                        assert(before + seq![item] =~= inits_view(fields@));
                    }
                }
                return Ok((fields, m));
            }
        }
    }

    /// Parses one statement.
    fn parse_stmt(&self, i: usize) -> (r: Result<(Stmt, usize), ParseError>)
        requires
            self.wf(),
            i < self.len(),
        ensures
            advanced(r, i as int, self.len()),
            r matches Ok((s, _)) ==> stmt_fits_head(s, self.kind_at(i as int)),
            stmt_agrees(r, g_stmt(self.tokens@, i as int)),
        decreases self.len() - i, 20nat,
    {
        match &self.tokens[i].kind {
            TokenKind::Let => self.parse_let(i),
            TokenKind::Return => self.parse_return(i),
            TokenKind::If => self.parse_if(i),
            TokenKind::While => self.parse_while(i),
            TokenKind::Ident(_) => self.parse_ident_stmt(i),
            _ => self.parse_expr_stmt(i),
        }
    }

    #[verifier::spinoff_prover]
    #[verifier::rlimit(100)]
    fn parse_let(&self, i: usize) -> (r: Result<(Stmt, usize), ParseError>)
        requires
            self.wf(),
            i < self.len(),
            self.kind_at(i as int) is Let,
        ensures
            advanced(r, i as int, self.len()),
            r matches Ok((s, _)) ==> stmt_fits_head(s, self.kind_at(i as int)),
            stmt_agrees(r, g_stmt(self.tokens@, i as int)),
        decreases self.len() - i, 19nat,
    {
        proof { reveal_with_fuel(g_stmt, 1); }
        proof { self.lemma_not_last(i as int); }
        let (name, j) = self.expect_ident(i + 1)?;
        let j = self.expect(j, TokenKind::Colon)?;
        let (ty, j) = self.parse_type(j)?;
        let j = self.expect(j, TokenKind::Eq)?;
        let (expr, j) = self.parse_expr(j)?;
        let j = self.expect(j, TokenKind::Semicolon)?;
        Ok((Stmt::Let { name, ty, expr }, j))
    }

    #[verifier::spinoff_prover]
    #[verifier::rlimit(100)]
    fn parse_return(&self, i: usize) -> (r: Result<(Stmt, usize), ParseError>)
        requires
            self.wf(),
            i < self.len(),
            self.kind_at(i as int) is Return,
        ensures
            advanced(r, i as int, self.len()),
            r matches Ok((s, _)) ==> stmt_fits_head(s, self.kind_at(i as int)),
            stmt_agrees(r, g_stmt(self.tokens@, i as int)),
        decreases self.len() - i, 19nat,
    {
        proof { reveal_with_fuel(g_stmt, 1); }
        proof { self.lemma_not_last(i as int); }
        let (expr, j) = self.parse_expr(i + 1)?;
        let j = self.expect(j, TokenKind::Semicolon)?;
        Ok((Stmt::Return(expr), j))
    }

    #[verifier::spinoff_prover]
    #[verifier::rlimit(100)]
    fn parse_if(&self, i: usize) -> (r: Result<(Stmt, usize), ParseError>)
        requires
            self.wf(),
            i < self.len(),
            self.kind_at(i as int) is If,
        ensures
            advanced(r, i as int, self.len()),
            r matches Ok((s, _)) ==> stmt_fits_head(s, self.kind_at(i as int)),
            stmt_agrees(r, g_stmt(self.tokens@, i as int)),
        decreases self.len() - i, 19nat,
    {
        proof { reveal_with_fuel(g_stmt, 1); }
        proof { self.lemma_not_last(i as int); }
        let j = self.expect(i + 1, TokenKind::LParen)?;
        let (cond, j) = self.parse_expr(j)?;
        let j = self.expect(j, TokenKind::RParen)?;
        let (then_block, j) = self.parse_block(j)?;
        if self.at(j, TokenKind::Else) {
            proof { self.lemma_not_last(j as int); }
            let (eb, k) = self.parse_block(j + 1)?;
            let st = Stmt::If { cond, then_block, else_block: Some(eb) };
            assert(stmt_view(st) == SStmt::If(expr_view(cond), block_view(then_block), Some(block_view(eb)))) by {
                assert(stmt_view(st)->If_1 =~= block_view(then_block));
                assert(stmt_view(st)->If_2->0 =~= block_view(eb));
            }
            Ok((st, k))
        } else {
            let st = Stmt::If { cond, then_block, else_block: None };
            assert(stmt_view(st) == SStmt::If(expr_view(cond), block_view(then_block), None)) by {
                assert(stmt_view(st)->If_1 =~= block_view(then_block));
            }
            Ok((st, j))
        }
    }

    #[verifier::spinoff_prover]
    #[verifier::rlimit(100)]
    fn parse_while(&self, i: usize) -> (r: Result<(Stmt, usize), ParseError>)
        requires
            self.wf(),
            i < self.len(),
            self.kind_at(i as int) is While,
        ensures
            advanced(r, i as int, self.len()),
            r matches Ok((s, _)) ==> stmt_fits_head(s, self.kind_at(i as int)),
            stmt_agrees(r, g_stmt(self.tokens@, i as int)),
        decreases self.len() - i, 19nat,
    {
        proof { reveal_with_fuel(g_stmt, 1); }
        proof { self.lemma_not_last(i as int); }
        let j = self.expect(i + 1, TokenKind::LParen)?;
        let (cond, j) = self.parse_expr(j)?;
        let j = self.expect(j, TokenKind::RParen)?;
        let (body, j) = self.parse_block(j)?;
        let st = Stmt::While { cond, body };
        assert(stmt_view(st) == SStmt::While(expr_view(cond), block_view(body))) by {
            assert(stmt_view(st)->While_1 =~= block_view(body));
        }
        Ok((st, j))
    }

    #[verifier::spinoff_prover]
    #[verifier::rlimit(100)]
    fn parse_ident_stmt(&self, i: usize) -> (r: Result<(Stmt, usize), ParseError>)
        requires
            self.wf(),
            i < self.len(),
            self.kind_at(i as int) is Ident,
        ensures
            advanced(r, i as int, self.len()),
            r matches Ok((s, _)) ==> stmt_fits_head(s, self.kind_at(i as int)),
            stmt_agrees(r, g_stmt(self.tokens@, i as int)),
        decreases self.len() - i, 19nat,
    {
        proof { reveal_with_fuel(g_stmt, 1); }
        let name = match &self.tokens[i].kind {
            TokenKind::Ident(n) => n,
            _ => {
                return Err(self.error_unexpected(i));
            },
        };
        proof { self.lemma_not_last(i as int); }
        let j = i + 1;
        if self.at(j, TokenKind::Eq) {
            proof { self.lemma_not_last(j as int); }
            let (expr, k) = self.parse_expr(j + 1)?;
            let k = self.expect(k, TokenKind::Semicolon)?;
            Ok((Stmt::Assign { name: name.clone(), expr }, k))
        } else if self.at(j, TokenKind::LParen) {
            proof { self.lemma_not_last(j as int); }
            let (args, k) = self.parse_args(j + 1)?;
            let k = self.expect(k, TokenKind::RParen)?;
            let k = self.expect(k, TokenKind::Semicolon)?;
            let e = Expr::Call { callee: name.clone(), args };
            assert(expr_view(e) == SExpr::Call(name@, args_view(args@))) by {
                assert(expr_view(e)->Call_1 =~= args_view(args@));
            }
            Ok((Stmt::Expr(e), k))
        } else if self.at(j, TokenKind::Dot) {
            proof { self.lemma_not_last(j as int); }
            let (field, k) = self.expect_ident(j + 1)?;
            if self.at(k, TokenKind::Eq) {
                proof { self.lemma_not_last(k as int); }
                let (expr, m) = self.parse_expr(k + 1)?;
                let m = self.expect(m, TokenKind::Semicolon)?;
                Ok((Stmt::FieldAssign { base: name.clone(), field, expr }, m))
            } else {
                let ghost fv = field@;
                let node = Expr::FieldAccess {
                    expr: Box::new(Expr::Ident(name.clone())),
                    field,
                };
                assert(expr_view(node) == SExpr::Field(Box::new(SExpr::Ident(name@)), fv)) by {
                    reveal_with_fuel(expr_view, 2);
                }
                let (node, m) = self.parse_postfix_rest(node, k)?;
                let (expr, m) = self.parse_expr_rest(node, m)?;
                let m = self.expect(m, TokenKind::Semicolon)?;
                Ok((Stmt::Expr(expr), m))
            }
        } else {
            let (expr, k) = self.parse_expr_rest(Expr::Ident(name.clone()), j)?;
            let k = self.expect(k, TokenKind::Semicolon)?;
            Ok((Stmt::Expr(expr), k))
        }
    }

    #[verifier::spinoff_prover]
    #[verifier::rlimit(100)]
    fn parse_expr_stmt(&self, i: usize) -> (r: Result<(Stmt, usize), ParseError>)
        requires
            self.wf(),
            i < self.len(),
            !(self.kind_at(i as int) is Let || self.kind_at(i as int) is Return || self.kind_at(i as int) is If || self.kind_at(i as int) is While || self.kind_at(i as int) is Ident),
        ensures
            advanced(r, i as int, self.len()),
            r matches Ok((s, _)) ==> stmt_fits_head(s, self.kind_at(i as int)),
            stmt_agrees(r, g_stmt(self.tokens@, i as int)),
        decreases self.len() - i, 19nat,
    {
        proof { reveal_with_fuel(g_stmt, 1); }
        let (expr, j) = self.parse_expr(i)?;
        let j = self.expect(j, TokenKind::Semicolon)?;
        Ok((Stmt::Expr(expr), j))
    }


    /// Parses an expression: `||` binds loosest, then `&&`, comparison, `+ -`, `* /`,
    /// unary `!`, postfix `.field`.
    fn parse_expr(&self, i: usize) -> (r: Result<(Expr, usize), ParseError>)
        requires
            self.wf(),
            i < self.len(),
        ensures
            advanced(r, i as int, self.len()),
            agrees(r, g_expr(self.tokens@, i as int)),
        decreases self.len() - i, 18nat,
    {
        proof { reveal_with_fuel(g_expr, 1); }
        let (node, j) = self.parse_and(i)?;
        self.parse_or_rest(node, j)
    }

    /// Continues an expression whose leading factor `node` ends just before `i`.
    fn parse_expr_rest(&self, node: Expr, i: usize) -> (r: Result<(Expr, usize), ParseError>)
        requires
            self.wf(),
            i < self.len(),
        ensures
            advanced_or_stayed(r, i as int, self.len()),
            agrees(r, g_expr_rest(self.tokens@, i as int, expr_view(node))),
        decreases self.len() - i, 17nat,
    {
        proof { reveal_with_fuel(g_expr_rest, 1); }
        let (node, j) = self.parse_term_rest(node, i)?;
        let (node, j) = self.parse_additive_rest(node, j)?;
        let (node, j) = self.parse_comparison_rest(node, j)?;
        let (node, j) = self.parse_and_rest(node, j)?;
        self.parse_or_rest(node, j)
    }

    #[verifier::loop_isolation(false)]
    fn parse_or_rest(&self, node: Expr, i: usize) -> (r: Result<(Expr, usize), ParseError>)
        requires
            self.wf(),
            i < self.len(),
        ensures
            advanced_or_stayed(r, i as int, self.len()),
            agrees(r, g_or_rest(self.tokens@, i as int, expr_view(node))),
        decreases self.len() - i, 16nat,
    {
        let ghost n0 = expr_view(node);
        let mut node = node;
        let mut j = i;
        while self.at(j, TokenKind::OrOr)
            invariant
                self.wf(),
                i <= j < self.len(),
                g_or_rest(self.tokens@, i as int, n0) == g_or_rest(self.tokens@, j as int, expr_view(node)),
            decreases self.len() - j,
        {
            proof { self.lemma_not_last(j as int); }
            let (rhs, k) = match self.parse_and(j + 1) {
                Ok(x) => x,
                Err(e) => {
                    assert(g_and(self.tokens@, j + 1) is None);
                    assert(g_or_rest(self.tokens@, j as int, expr_view(node)) is None);
                    return Err(e);
                },
            };
            node = Expr::Binary { op: BinOp::Or, left: Box::new(node), right: Box::new(rhs) };
            j = k;
        }
        Ok((node, j))
    }

    fn parse_and(&self, i: usize) -> (r: Result<(Expr, usize), ParseError>)
        requires
            self.wf(),
            i < self.len(),
        ensures
            advanced(r, i as int, self.len()),
            agrees(r, g_and(self.tokens@, i as int)),
        decreases self.len() - i, 15nat,
    {
        let (node, j) = self.parse_comparison(i)?;
        self.parse_and_rest(node, j)
    }

    #[verifier::loop_isolation(false)]
    fn parse_and_rest(&self, node: Expr, i: usize) -> (r: Result<(Expr, usize), ParseError>)
        requires
            self.wf(),
            i < self.len(),
        ensures
            advanced_or_stayed(r, i as int, self.len()),
            agrees(r, g_and_rest(self.tokens@, i as int, expr_view(node))),
        decreases self.len() - i, 14nat,
    {
        let ghost n0 = expr_view(node);
        let mut node = node;
        let mut j = i;
        while self.at(j, TokenKind::AndAnd)
            invariant
                self.wf(),
                i <= j < self.len(),
                g_and_rest(self.tokens@, i as int, n0) == g_and_rest(self.tokens@, j as int, expr_view(node)),
            decreases self.len() - j,
        {
            proof { self.lemma_not_last(j as int); }
            let (rhs, k) = self.parse_comparison(j + 1)?;
            node = Expr::Binary { op: BinOp::And, left: Box::new(node), right: Box::new(rhs) };
            j = k;
        }
        Ok((node, j))
    }

    fn parse_comparison(&self, i: usize) -> (r: Result<(Expr, usize), ParseError>)
        requires
            self.wf(),
            i < self.len(),
        ensures
            advanced(r, i as int, self.len()),
            agrees(r, g_comparison(self.tokens@, i as int)),
        decreases self.len() - i, 13nat,
    {
        let (node, j) = self.parse_additive(i)?;
        self.parse_comparison_rest(node, j)
    }

    /// The comparison operator that a token spells, if any.
    fn comparison_op(&self, i: usize) -> (r: Option<BinOp>)
        requires
            self.wf(),
            i < self.len(),
        ensures
            r is Some ==> !(self.kind_at(i as int) is Eof),
            r == cmp_op(self.tokens@, i as int),
    {
        match &self.tokens[i].kind {
            TokenKind::Lt => Some(BinOp::Lt),
            TokenKind::Gt => Some(BinOp::Gt),
            TokenKind::LtEq => Some(BinOp::LtEq),
            TokenKind::GtEq => Some(BinOp::GtEq),
            TokenKind::EqEq => Some(BinOp::Eq),
            TokenKind::NotEq => Some(BinOp::NotEq),
            _ => None,
        }
    }

    #[verifier::loop_isolation(false)]
    fn parse_comparison_rest(&self, node: Expr, i: usize) -> (r: Result<(Expr, usize), ParseError>)
        requires
            self.wf(),
            i < self.len(),
        ensures
            advanced_or_stayed(r, i as int, self.len()),
            agrees(r, g_comparison_rest(self.tokens@, i as int, expr_view(node))),
        decreases self.len() - i, 12nat,
    {
        let ghost n0 = expr_view(node);
        let mut node = node;
        let mut j = i;
        loop
            invariant
                self.wf(),
                i <= j < self.len(),
                g_comparison_rest(self.tokens@, i as int, n0) == g_comparison_rest(self.tokens@, j as int, expr_view(node)),
            decreases self.len() - j,
        {
            match self.comparison_op(j) {
                Some(op) => {
                    proof { self.lemma_not_last(j as int); }
                    let (rhs, k) = self.parse_additive(j + 1)?;
                    node = Expr::Binary { op, left: Box::new(node), right: Box::new(rhs) };
                    j = k;
                },
                None => {
                    return Ok((node, j));
                },
            }
        }
    }

    fn parse_additive(&self, i: usize) -> (r: Result<(Expr, usize), ParseError>)
        requires
            self.wf(),
            i < self.len(),
        ensures
            advanced(r, i as int, self.len()),
            agrees(r, g_additive(self.tokens@, i as int)),
        decreases self.len() - i, 11nat,
    {
        let (node, j) = self.parse_term(i)?;
        self.parse_additive_rest(node, j)
    }

    #[verifier::loop_isolation(false)]
    fn parse_additive_rest(&self, node: Expr, i: usize) -> (r: Result<(Expr, usize), ParseError>)
        requires
            self.wf(),
            i < self.len(),
        ensures
            advanced_or_stayed(r, i as int, self.len()),
            agrees(r, g_additive_rest(self.tokens@, i as int, expr_view(node))),
        decreases self.len() - i, 10nat,
    {
        let ghost n0 = expr_view(node);
        let mut node = node;
        let mut j = i;
        loop
            invariant
                self.wf(),
                i <= j < self.len(),
                g_additive_rest(self.tokens@, i as int, n0) == g_additive_rest(self.tokens@, j as int, expr_view(node)),
            decreases self.len() - j,
        {
            let op = if self.at(j, TokenKind::Plus) {
                BinOp::Add
            } else if self.at(j, TokenKind::Minus) {
                BinOp::Sub
            } else {
                return Ok((node, j));
            };
            proof { self.lemma_not_last(j as int); }
            let (rhs, k) = self.parse_term(j + 1)?;
            node = Expr::Binary { op, left: Box::new(node), right: Box::new(rhs) };
            j = k;
        }
    }

    fn parse_term(&self, i: usize) -> (r: Result<(Expr, usize), ParseError>)
        requires
            self.wf(),
            i < self.len(),
        ensures
            advanced(r, i as int, self.len()),
            agrees(r, g_term(self.tokens@, i as int)),
        decreases self.len() - i, 9nat,
    {
        let (node, j) = self.parse_factor(i)?;
        self.parse_term_rest(node, j)
    }

    #[verifier::loop_isolation(false)]
    fn parse_term_rest(&self, node: Expr, i: usize) -> (r: Result<(Expr, usize), ParseError>)
        requires
            self.wf(),
            i < self.len(),
        ensures
            advanced_or_stayed(r, i as int, self.len()),
            agrees(r, g_term_rest(self.tokens@, i as int, expr_view(node))),
        decreases self.len() - i, 8nat,
    {
        let ghost n0 = expr_view(node);
        let mut node = node;
        let mut j = i;
        loop
            invariant
                self.wf(),
                i <= j < self.len(),
                g_term_rest(self.tokens@, i as int, n0) == g_term_rest(self.tokens@, j as int, expr_view(node)),
            decreases self.len() - j,
        {
            let op = if self.at(j, TokenKind::Star) {
                BinOp::Mul
            } else if self.at(j, TokenKind::Slash) {
                BinOp::Div
            } else {
                return Ok((node, j));
            };
            proof { self.lemma_not_last(j as int); }
            let (rhs, k) = self.parse_factor(j + 1)?;
            node = Expr::Binary { op, left: Box::new(node), right: Box::new(rhs) };
            j = k;
        }
    }

    fn parse_factor(&self, i: usize) -> (r: Result<(Expr, usize), ParseError>)
        requires
            self.wf(),
            i < self.len(),
        ensures
            advanced(r, i as int, self.len()),
            agrees(r, g_factor(self.tokens@, i as int)),
        decreases self.len() - i, 7nat,
    {
        let (node, j) = self.parse_unary(i)?;
        self.parse_postfix_rest(node, j)
    }

    /// Parses the `.field` postfixes that follow `node`.
    #[verifier::loop_isolation(false)]
    fn parse_postfix_rest(&self, node: Expr, i: usize) -> (r: Result<(Expr, usize), ParseError>)
        requires
            self.wf(),
            i < self.len(),
        ensures
            advanced_or_stayed(r, i as int, self.len()),
            agrees(r, g_postfix_rest(self.tokens@, i as int, expr_view(node))),
    {
        let ghost n0 = expr_view(node);
        let mut node = node;
        let mut j = i;
        while self.at(j, TokenKind::Dot)
            invariant
                self.wf(),
                i <= j < self.len(),
                g_postfix_rest(self.tokens@, i as int, n0) == g_postfix_rest(self.tokens@, j as int, expr_view(node)),
            decreases self.len() - j,
        {
            proof { self.lemma_not_last(j as int); }
            let (field, k) = self.expect_ident(j + 1)?;
            node = Expr::FieldAccess { expr: Box::new(node), field };
            j = k;
        }
        Ok((node, j))
    }

    fn parse_unary(&self, i: usize) -> (r: Result<(Expr, usize), ParseError>)
        requires
            self.wf(),
            i < self.len(),
        ensures
            advanced(r, i as int, self.len()),
            agrees(r, g_unary(self.tokens@, i as int)),
        decreases self.len() - i, 6nat,
    {
        if self.at(i, TokenKind::Bang) {
            proof { self.lemma_not_last(i as int); }
            let (e, j) = self.parse_unary(i + 1)?;
            Ok((Expr::Unary { op: UnOp::Not, expr: Box::new(e) }, j))
        } else {
            self.parse_primary(i)
        }
    }

    #[verifier::spinoff_prover]
    #[verifier::rlimit(100)]
    fn parse_primary(&self, i: usize) -> (r: Result<(Expr, usize), ParseError>)
        requires
            self.wf(),
            i < self.len(),
        ensures
            advanced(r, i as int, self.len()),
            agrees(r, g_primary(self.tokens@, i as int)),
        decreases self.len() - i, 5nat,
    {
        match &self.tokens[i].kind {
            TokenKind::Int(v) => {
                proof { self.lemma_not_last(i as int); }
                Ok((Expr::Int(*v), i + 1))
            },
            TokenKind::True => {
                proof { self.lemma_not_last(i as int); }
                Ok((Expr::Bool(true), i + 1))
            },
            TokenKind::False => {
                proof { self.lemma_not_last(i as int); }
                Ok((Expr::Bool(false), i + 1))
            },
            TokenKind::Char(c) => {
                proof { self.lemma_not_last(i as int); }
                Ok((Expr::Char(*c), i + 1))
            },
            TokenKind::StringLit(s) => {
                proof { self.lemma_not_last(i as int); }
                Ok((Expr::StringLit(s.clone()), i + 1))
            },
            TokenKind::Ident(name) => {
                proof { self.lemma_not_last(i as int); }
                let j = i + 1;
                if self.at(j, TokenKind::LParen) {
                    proof { self.lemma_not_last(j as int); }
                    let (args, k) = self.parse_args(j + 1)?;
                    let k = self.expect(k, TokenKind::RParen)?;
                    let e = Expr::Call { callee: name.clone(), args };
                    assert(expr_view(e) == SExpr::Call(name@, args_view(args@))) by {
                        assert(expr_view(e)->Call_1 =~= args_view(args@));
                    }
                    Ok((e, k))
                } else if self.at(j, TokenKind::LBrace) {
                    proof { self.lemma_not_last(j as int); }
                    if self.at(j + 1, TokenKind::RBrace) {
                        proof { self.lemma_not_last((j + 1) as int); }
                        let fields: Vec<(String, Expr)> = Vec::new();
                        let e = Expr::StructInit { name: name.clone(), fields };
                        assert(expr_view(e) == SExpr::Init(name@, seq![])) by {
                            assert(expr_view(e)->Init_1 =~= Seq::<(Seq<char>, SExpr)>::empty());
                        }
                        return Ok((e, j + 2));
                    }
                    let (fields, k) = self.parse_inits(j + 1)?;
                    let k = self.expect(k, TokenKind::RBrace)?;
                    let e = Expr::StructInit { name: name.clone(), fields };
                    assert(expr_view(e) == SExpr::Init(name@, inits_view(fields@))) by {
                        assert(expr_view(e)->Init_1 =~= inits_view(fields@));
                    }
                    Ok((e, k))
                } else {
                    Ok((Expr::Ident(name.clone()), j))
                }
            },
            TokenKind::LParen => {
                proof { self.lemma_not_last(i as int); }
                let (e, j) = self.parse_expr(i + 1)?;
                let j = self.expect(j, TokenKind::RParen)?;
                Ok((e, j))
            },
            _ => {
                proof { reveal_strlit("unexpected token"); }
                Err(self.error(i, "unexpected token"))
            },
        }
    }
}

} // verus!
