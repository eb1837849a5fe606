use mee::{typecheck_program, BinOp, Expr, Parser, Program, Stmt, Type};

fn parse(src: &str) -> Program {
    let mut p = Parser::new(src);
    p.parse_program().expect("parses")
}

fn parse_err(src: &str) -> (String, usize) {
    let mut p = Parser::new(src);
    let e = p.parse_program().expect_err("syntax error");
    (e.message, e.pos)
}

fn type_err(src: &str) -> String {
    let prog = parse(src);
    let e = typecheck_program(&prog).expect_err("type error");
    assert!(!e.message.is_empty());
    e.message
}

fn type_ok(src: &str) {
    let prog = parse(src);
    if let Err(e) = typecheck_program(&prog) {
        panic!("unexpected type error: {}", e.message);
    }
}

#[test]
fn parses_structs_and_functions_in_order() {
    let prog = parse("struct P { x: i32, y: i32, } fn f(p: P, c: char) -> bool { return true; } fn main() -> i32 { return 0; }");
    assert_eq!(prog.structs.len(), 1);
    assert_eq!(prog.structs[0].name, "P");
    assert_eq!(prog.structs[0].fields.len(), 2);
    assert_eq!(prog.structs[0].fields[1].name, "y");
    assert_eq!(prog.functions.len(), 2);
    assert_eq!(prog.functions[0].params[0].ty, Type::Struct("P".to_string()));
    assert_eq!(prog.functions[0].params[1].ty, Type::Char);
    assert_eq!(prog.functions[0].ret, Type::Bool);
}

#[test]
fn precedence_and_left_associativity() {
    let prog = parse("fn main() -> i32 { return 1 - 2 - 3 * 4 < 5 && true || false; }");
    let Stmt::Return(e) = &prog.functions[0].body.statements[0] else { panic!() };
    let Expr::Binary { op: BinOp::Or, left, .. } = e else { panic!("or at the top") };
    let Expr::Binary { op: BinOp::And, left, .. } = &**left else { panic!("and below or") };
    let Expr::Binary { op: BinOp::Lt, left, .. } = &**left else { panic!("comparison below and") };
    let Expr::Binary { op: BinOp::Sub, left, right } = &**left else { panic!("subtraction") };
    assert!(matches!(&**left, Expr::Binary { op: BinOp::Sub, .. }));
    assert!(matches!(&**right, Expr::Binary { op: BinOp::Mul, .. }));
}

#[test]
fn statements_of_each_kind() {
    let prog = parse(
        "struct C { n: i32 } fn g() -> void { } fn main() -> i32 { let c: C = C { n: 0 }; c.n = 41; let i: i32 = 0; i = i + 1; g(); if (!(i == 1)) { return 1; } else { return 2; } while (i < 3) { i = i * 2; } return c.n; }",
    );
    let s = &prog.functions[1].body.statements;
    assert!(matches!(&s[0], Stmt::Let { .. }));
    assert!(matches!(&s[1], Stmt::FieldAssign { base, field, .. } if base == "c" && field == "n"));
    assert!(matches!(&s[3], Stmt::Assign { .. }));
    assert!(matches!(&s[4], Stmt::Expr(Expr::Call { .. })));
    assert!(matches!(&s[5], Stmt::If { else_block: Some(_), .. }));
    assert!(matches!(&s[6], Stmt::While { .. }));
    assert!(matches!(&s[7], Stmt::Return(Expr::FieldAccess { .. })));
}

#[test]
fn syntax_errors_carry_message_and_offset() {
    assert_eq!(parse_err("fn main() -> i32 { return 1 }"), ("expected Semicolon".to_string(), 28));
    assert_eq!(parse_err("let"), ("expected fn or struct".to_string(), 0));
    assert_eq!(parse_err("fn 1"), ("expected identifier".to_string(), 3));
    assert_eq!(parse_err("fn f() -> 7 {}"), ("expected type".to_string(), 10));
    assert_eq!(parse_err("fn f() -> i32 { return ; }"), ("unexpected token".to_string(), 23));
    assert_eq!(parse_err("fn main() -> i32 { return 0; } @"), ("expected fn or struct".to_string(), 31));
    assert_eq!(parse_err("fn main() -> i32 { return 1 @ 2; }"), ("expected Semicolon".to_string(), 28));
}

#[test]
fn type_checker_accepts_well_typed_programs() {
    type_ok("fn main() -> i32 { return 1 + 2 * 3; }");
    type_ok("fn main() -> i32 { let i: i32 = 0; let s: i32 = 0; while (i < 10) { s = s + i; i = i + 1; } return s; }");
    type_ok("fn main() -> i32 { if (true && false) { return 1; } else { return 0; } }");
    type_ok("struct P{x:i32,y:i32} fn mk(a:i32,b:i32)->P { return P{x:a,y:b}; } fn sum(p:P)->i32 { return p.x+p.y; } fn main()->i32 { let q:P = mk(3,4); return sum(q); }");
    type_ok("struct C{n:i32} fn main()->i32 { let c:C = C{n:0}; c.n = 41; c.n = c.n + 1; return c.n; }");
    type_ok("fn main() -> i32 { let c: char = 'a'; let b: bool = c < 'z'; return __mem_store(0, \"hi\"); }");
}

#[test]
fn type_checker_rejects_each_rule_violation() {
    type_err("fn main() -> i32 { let x: bool = 1; return 0; }");
    type_err("fn main() -> i32 { y = 1; return 0; }");
    type_err("fn main() -> i32 { let x: i32 = 0; x = true; return 0; }");
    type_err("struct C{n:i32} fn main() -> i32 { let x: i32 = 0; x.n = 1; return 0; }");
    type_err("struct C{n:i32} fn main() -> i32 { let c: C = C{n:0}; c.m = 1; return 0; }");
    type_err("struct C{n:i32} fn main() -> i32 { let c: C = C{n:0}; c.n = false; return 0; }");
    type_err("fn main() -> i32 { if (1) { return 1; } return 0; }");
    type_err("fn main() -> i32 { while (0) { } return 0; }");
    type_err("fn main() -> i32 { return true; }");
    type_err("fn main() -> i32 { return 1 + true; }");
    type_err("fn main() -> i32 { return 1 < false; }");
    type_err("fn main() -> i32 { return nothing(); }");
    type_err("fn f(a: i32) -> i32 { return a; } fn main() -> i32 { return f(); }");
    type_err("fn f(a: i32) -> i32 { return a; } fn main() -> i32 { return f(true); }");
    type_err("fn main() -> i32 { return __mem_load(1, 2); }");
    type_err("fn main() -> i32 { return __mem_load(true); }");
    type_err("fn main() -> i32 { let x: i32 = 1; return x.n; }");
    type_err("struct C{n:i32} fn main() -> i32 { let c: C = C{n:0}; return c.m; }");
    type_err("struct C{n:i32, m:i32} fn main() -> i32 { let c: C = C{n:0}; return 0; }");
    type_err("struct C{n:i32, m:i32} fn main() -> i32 { let c: C = C{n:0, n:1}; return 0; }");
    type_err("struct C{n:i32} fn main() -> i32 { let c: C = C{m:0}; return 0; }");
    type_err("struct C{n:i32} fn main() -> i32 { let c: C = C{n:true}; return 0; }");
    type_err("fn main() -> i32 { let c: D = D{n:0}; return 0; }");
    type_err("fn main() -> i32 { return z; }");
}

#[test]
fn first_violation_is_reported() {
    assert_eq!(type_err("fn main() -> i32 { return z; }"), "unknown variable z");
    assert_eq!(type_err("fn main() -> i32 { let x: bool = 1; return q; }"), "type mismatch in let x");
}

#[test]
fn logical_operators_bind_below_comparison() {
    let prog = parse("fn f(a: bool, b: i32, c: i32) -> bool { return !a || b < c && c == 1; }");
    let Stmt::Return(e) = &prog.functions[0].body.statements[0] else { panic!() };
    let Expr::Binary { op: BinOp::Or, left, right } = e else { panic!("or at the top") };
    assert!(matches!(&**left, Expr::Unary { .. }));
    let Expr::Binary { op: BinOp::And, left, right } = &**right else { panic!("and under or") };
    assert!(matches!(&**left, Expr::Binary { op: BinOp::Lt, .. }));
    assert!(matches!(&**right, Expr::Binary { op: BinOp::Eq, .. }));
}

#[test]
fn struct_declarations_allow_a_trailing_comma_and_keep_init_order() {
    let prog = parse("struct P { x: i32, y: bool, } fn f() -> P { return P{y: true, x: 1}; }");
    assert_eq!(prog.structs[0].fields.len(), 2);
    assert_eq!(prog.functions[0].ret, Type::Struct("P".to_string()));
    let Stmt::Return(Expr::StructInit { fields, .. }) = &prog.functions[0].body.statements[0] else { panic!() };
    assert_eq!(fields[0].0, "y");
    assert_eq!(fields[1].0, "x");
}

#[test]
fn calls_and_assignments_as_statements() {
    let prog = parse("fn main() -> i32 { f(1, g(2)); x = h(); return 0; }");
    let s = &prog.functions[0].body.statements;
    let Stmt::Expr(Expr::Call { callee, args }) = &s[0] else { panic!() };
    assert_eq!(callee, "f");
    assert!(matches!(&args[1], Expr::Call { callee, .. } if callee == "g"));
    assert!(matches!(&s[1], Stmt::Assign { name, expr: Expr::Call { .. } } if name == "x"));
}

#[test]
fn parsing_ignores_layout_and_comments() {
    let a = parse("fn main() -> i32 { let x: i32 = 1 + 2; return x; }");
    let b = parse("fn   main ( ) // c\n -> i32 {\n let x : i32 = 1+2 ;\n return x ; }");
    assert_eq!(format!("{:?}", a), format!("{:?}", b));
}
