use mee::{emit_ir, emit_wat, emit_x86_64_asm, typecheck_program, Parser, Program};

fn checked(src: &str) -> Program {
    let mut p = Parser::new(src);
    let prog = p.parse_program().expect("parses");
    if let Err(e) = typecheck_program(&prog) {
        panic!("type error: {}", e.message);
    }
    prog
}

#[test]
fn control_flow_loop_lowers() {
    let prog = checked("fn main() -> i32 { let i: i32 = 0; let s: i32 = 0; while (i < 10) { s = s + i; i = i + 1; } return s; }");
    let wat = emit_wat(&prog).expect("wat");
    assert!(wat.contains("  (func $main (result i32)\n  (local i32)\n  (local i32)\n"));
    assert!(wat.contains("  (block $exit_0\n    (loop $loop_0\n"));
    assert!(wat.contains("      i32.eqz\n      br_if $exit_0\n"));
    let text = emit_x86_64_asm(&prog).expect("x86");
    assert!(text.contains("  sub rsp, 16\n"));
    assert!(text.contains(".Lloop_0:\n"));
    assert!(text.contains("  je .Lexit_0\n"));
}

#[test]
fn logical_operands_are_all_evaluated_and_normalized() {
    let prog = checked("fn main() -> i32 { if (true && false) { return 1; } else { return 0; } }");
    let wat = emit_wat(&prog).expect("wat");
    assert!(wat.contains("  i32.const 1\n  i32.const 0\n  i32.ne\n  i32.const 0\n  i32.const 0\n  i32.ne\n  i32.mul\n"));
    let prog = checked("fn main() -> i32 { if (__mem_store(0, 5) == 0 && __mem_store(4, 6) == 1) { return 1; } return __mem_load(4); }");
    let wat = emit_wat(&prog).expect("wat");
    assert_eq!(wat.matches("i32.store\n").count(), 2);
    let text = emit_x86_64_asm(&prog).expect("x86");
    assert_eq!(text.matches("  mov DWORD PTR [rdx], eax\n").count(), 2);
}

#[test]
fn struct_pass_and_return_uses_flat_fields_and_sret() {
    let prog = checked("struct P{x:i32,y:i32} fn mk(a:i32,b:i32)->P { return P{x:a,y:b}; } fn sum(p:P)->i32 { return p.x+p.y; } fn main()->i32 { let q:P = mk(3,4); return sum(q); }");
    let wat = emit_wat(&prog).expect("wat");
    assert!(wat.contains("  (func $mk (param i32) (param i32) (param i32)\n"));
    assert!(wat.contains("  (func $sum (param i32) (param i32) (result i32)\n"));
    assert!(wat.contains("  i32.const 65536\n  i32.const 3\n  i32.const 4\n  call $mk\n"));
    assert!(wat.contains("  i32.const 65536\n  i32.load\n  local.set 0\n  i32.const 65540\n  i32.load\n  local.set 1\n"));
    assert!(wat.contains("  local.get 0\n  local.get 1\n  call $sum\n"));
    assert!(wat.contains("  local.get 0\n  i32.const 4\n  i32.add\n  local.get 2\n  i32.store\n"));
    let text = emit_x86_64_asm(&prog).expect("x86");
    assert!(text.contains("  sub rsp, 16\n  mov rax, 4\n  push rax\n  mov rax, 3\n  push rax\n  lea rax, [rsp + 16]\n  push rax\n  pop rdi\n  pop rsi\n  pop rdx\n  call mk\n"));
    assert!(text.contains("  movsxd rax, DWORD PTR [rsp + 4]\n  mov QWORD PTR [rbp - 16], rax\n  add rsp, 16\n"));
    assert!(text.contains("  mov r10, QWORD PTR [rbp - 8]\n  mov DWORD PTR [r10 + 4], eax\n"));
}

#[test]
fn struct_literal_argument_is_passed_in_declaration_order() {
    let prog = checked("struct P{x:i32,y:i32} fn sum(p:P)->i32 { return p.x+p.y; } fn main()->i32 { return sum(P{y:2,x:1}); }");
    let wat = emit_wat(&prog).expect("wat");
    assert!(wat.contains("  i32.const 1\n  i32.const 2\n  call $sum\n"));
}

#[test]
fn string_and_fd_write_lower_on_both_targets() {
    let prog = checked("fn main() -> i32 { let s: i32 = 0; __mem_store(100, \"hello\\n\"); __mem_store(104, 6); let r: i32 = __fd_write(1, 100, 1, 200); return r; }");
    let wat = emit_wat(&prog).expect("wat");
    assert!(wat.contains("(import \"wasi_snapshot_preview1\" \"fd_write\""));
    assert!(wat.contains("  (memory 2048)\n"));
    assert!(wat.contains("  (data (i32.const 0) \"hello\\n\")\n"));
    assert!(!wat.contains("fd_read"));
    let text = emit_x86_64_asm(&prog).expect("x86");
    assert!(text.contains(".Lstr_0:\n  .byte 104, 101, 108, 108, 111, 10, 0\n"));
    assert!(text.contains("  mov BYTE PTR [rip + __mee_memory + 5], 10\n  mov BYTE PTR [rip + __mee_memory + 6], 0\n"));
    assert!(text.contains("__mee_fd_write:\n"));
    assert!(text.contains("  call __mee_init_memory\n"));
    assert!(text.contains("  call __mee_fd_write\n"));
}

#[test]
fn field_assignment_lowers_to_the_field_slot() {
    let prog = checked("struct C{n:i32} fn main()->i32 { let c:C = C{n:0}; c.n = 41; c.n = c.n + 1; return c.n; }");
    let wat = emit_wat(&prog).expect("wat");
    assert!(wat.contains("  i32.const 41\n  local.set 0\n"));
    assert!(wat.contains("  local.get 0\n  i32.const 1\n  i32.add\n  local.set 0\n"));
    let text = emit_x86_64_asm(&prog).expect("x86");
    assert!(text.contains("  mov rax, 41\n  mov QWORD PTR [rbp - 8], rax\n"));
}

#[test]
fn strings_are_interned_once_in_first_occurrence_order() {
    let prog = checked("fn f() -> i32 { return __mem_store(0, \"b\"); } fn main() -> i32 { __mem_store(0, \"a\"); __mem_store(0, \"b\"); return __mem_store(0, \"a\"); }");
    let wat = emit_wat(&prog).expect("wat");
    assert!(wat.contains("  (data (i32.const 0) \"b\")\n  (data (i32.const 1) \"a\")\n"));
    assert_eq!(wat.matches("(data ").count(), 2);
}

#[test]
fn calls_under_a_pushed_operand_are_padded() {
    let prog = checked("fn one() -> i32 { return 1; } fn main() -> i32 { return 2 + one(); }");
    let text = emit_x86_64_asm(&prog).expect("x86");
    assert!(text.contains("  push rax\n  sub rsp, 8\n  call one\n  add rsp, 8\n  pop rcx\n"));
}

#[test]
fn seven_arguments_go_partly_on_the_stack() {
    let prog = checked("fn f(a:i32,b:i32,c:i32,d:i32,e:i32,g:i32,h:i32) -> i32 { return h; } fn main() -> i32 { return f(1,2,3,4,5,6,7); }");
    let text = emit_x86_64_asm(&prog).expect("x86");
    assert!(text.contains("  sub rsp, 8\n  mov rax, 7\n  push rax\n"));
    assert!(text.contains("  call f\n  add rsp, 16\n"));
    assert!(text.contains("  mov rax, QWORD PTR [rbp + 16]\n  mov QWORD PTR [rbp - 56], rax\n"));
}

#[test]
fn codegen_errors_are_reported() {
    let prog = checked("struct P{x:i32} fn mk() -> P { return P{x:1}; } fn main() -> i32 { mk(); return 0; }");
    assert!(emit_wat(&prog).is_err());
    assert!(emit_x86_64_asm(&prog).is_err());
}

#[test]
fn labels_are_unique_across_functions() {
    let prog = checked("fn f() -> i32 { if (true) { return 1; } return 0; } fn main() -> i32 { if (true) { return 1; } return 0; }");
    let text = emit_x86_64_asm(&prog).expect("x86");
    assert!(text.contains(".Lelse_0:\n"));
    assert!(text.contains(".Lelse_1:\n"));
}

#[test]
fn ir_escapes_strings_and_prints_chars_and_bools() {
    let prog = checked("fn main() -> i32 { let c: char = 'A'; let b: bool = true; return __mem_store(0, \"q\\\"\\n\"); }");
    let ir = emit_ir(&prog);
    assert!(ir.contains("(char 65)"));
    assert!(ir.contains("(bool 1)"));
    assert!(ir.contains("(string \"q\\\"\\n\")"));
}

#[test]
fn void_call_statements_leave_nothing_to_drop() {
    let prog = checked("fn g() -> void { } fn main() -> i32 { g(); __mem_load(0); return 0; }");
    let wat = emit_wat(&prog).expect("wat");
    assert!(wat.contains("  call $g\n  i32.const 0\n  i32.load\n  drop\n"));
    assert!(wat.contains("  (func $g\n  )\n"));
}

#[test]
fn path_open_passes_three_arguments_on_the_stack() {
    let prog = checked("fn main() -> i32 { return __path_open(3, 0, 100, 4, 0, 1, 2, 0, 200); }");
    let wat = emit_wat(&prog).expect("wat");
    assert!(wat.contains("  i32.const 1\n  i64.extend_i32_u\n  i32.const 2\n  i64.extend_i32_u\n"));
    let text = emit_x86_64_asm(&prog).expect("x86");
    assert!(text.contains("__mee_path_open:\n"));
    assert!(text.contains("  sub rsp, 8\n  mov rax, 200\n  push rax\n"));
    assert!(text.contains("  call __mee_path_open\n  add rsp, 32\n"));
    assert!(!text.contains("__mee_fd_write:"));
}

#[test]
fn fd_read_thunk_stops_at_a_short_read() {
    let prog = checked("fn main() -> i32 { return __fd_read(0, 100, 2, 200); }");
    let text = emit_x86_64_asm(&prog).expect("x86");
    assert!(text.contains("  mov r10, r11\n  mov rax, 0\n  syscall\n"));
    assert!(text.contains("  add r8, rax\n  cmp rax, r10\n  jl .Lmee_fd_read_done\n"));
}
