use mee::{emit_ir, emit_wat, emit_x86_64_asm, typecheck_program, Parser, Program};

fn parse(src: &str) -> Program {
    let mut p = Parser::new(src);
    p.parse_program().expect("parses")
}

fn checked(src: &str) -> Program {
    let prog = parse(src);
    typecheck_program(&prog).expect("type checks");
    prog
}

#[test]
fn arithmetic_return_lowers_on_both_targets() {
    let prog = checked("fn main() -> i32 { return 1 + 2 * 3; }");
    let wat = emit_wat(&prog).expect("wat");
    assert!(wat.starts_with("(module\n"));
    assert!(wat.contains("  i32.const 2\n  i32.const 3\n  i32.mul\n  i32.add\n  return\n"));
    assert!(wat.contains("(export \"main\" (func $main))"));
    let text = emit_x86_64_asm(&prog).expect("text");
    assert!(text.starts_with(".intel_syntax noprefix\n"));
    assert!(text.contains(".globl main\nmain:\n  push rbp\n  mov rbp, rsp\n"));
    assert!(text.contains("  imul rax, rcx\n  movsxd rax, eax\n"));
    assert!(text.contains("  jmp .Lreturn_main\n"));
}

#[test]
fn ir_prints_nested_nodes() {
    let prog = checked("fn main() -> i32 { return 1 + 2 * 3; }");
    let ir = emit_ir(&prog);
    let expected = "(mee_ir v0\n  (structs)\n  (functions\n    (fn main\n      (params)\n      (ret i32)\n      (block\n        (return\n          (binary add\n            (int 1)\n            (binary mul\n              (int 2)\n              (int 3)\n            )\n          )\n        )\n      )\n    )\n  )\n)\n";
    assert_eq!(ir, expected);
}

