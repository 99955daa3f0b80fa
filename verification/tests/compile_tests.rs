use incremental_code::compile::compile_with_meta;
use incremental_code::parser::parse_program;
use incremental_code::values::CompileError;
use incremental_code::compilation::WipCompilingProgram;
use std::sync::atomic::AtomicBool;
use std::sync::Arc;

fn fresh_flag() -> Arc<AtomicBool> {
    Arc::new(AtomicBool::new(false))
}


fn compiled(src: &str) -> u32 {
    let mut count: u32 = 0;
    let program = parse_program(src).unwrap();
    if let Err(e) = compile_with_meta(&program, &mut count) {
        panic!("run failed: {}", e.to_string());
    }
    count
}

fn compiled_err(src: &str) -> CompileError {
    let program = parse_program(src).unwrap();
    match compile_with_meta(&program, &mut ()) {
        Ok(()) => panic!("expected an error"),
        Err(e) => e,
    }
}

#[test]
fn single_pass_counts_one() {
    assert_eq!(compiled("pass;"), 1);
}

#[test]
fn two_stmts_count_two() {
    assert_eq!(compiled("pass;\npass;\n"), 2);
}

#[test]
fn execution_time_positive() {
    assert!(compiled("pass;") > 0);
}

#[test]
fn later_stmts_have_lower_time() {
    assert!(compiled("pass;\npass;\n") > compiled("pass;"));
}

#[test]
fn decl_and_assign() {
    assert_eq!(compiled("x := 42;\nx = 1;\n"), 2);
}

#[test]
fn undefined_variable_is_error() {
    let err = compiled_err("x = 1;\n");
    assert!(err.to_string().contains("not found"));
}

#[test]
fn arithmetic_in_decl() {
    assert_eq!(compiled("x := 1 + 2 * 3;\n"), 1);
}

#[test]
fn negation_in_decl() {
    assert_eq!(compiled("x := -5;\n"), 1);
}

#[test]
fn string_concat() {
    assert_eq!(compiled("x := \"hello\" + \" world\";\n"), 1);
}

#[test]
fn if_true_branch_executes() {
    assert_eq!(compiled("if True:\npass;\nend\n"), 2);
}

#[test]
fn if_false_branch_skipped() {
    assert_eq!(compiled("if False:\npass;\nend\n"), 1);
}

#[test]
fn if_else_false_takes_else() {
    assert_eq!(compiled("if False:\npass;\nelse:\nbreak;\nend\n"), 2);
}

#[test]
fn if_non_bool_condition_is_error() {
    let err = compiled_err("if 42:\npass;\nend\n");
    assert!(err.to_string().contains("not a boolean"));
}

#[test]
fn loop_immediate_break() {
    assert_eq!(compiled("loop:\nbreak;\nend\n"), 2);
}

#[test]
fn break_and_continue_stay_inside_their_loop() {
    // The declaration (1) and the loop header (1); the first iteration runs the
    // assignment, `continue` and its `if` (3); the second the assignment, the `if`
    // and `break` (3); then the `pass` after the loop runs (1).
    let src = "x := 0;\nloop:\nx = x + 1;\nif x < 2:\ncontinue;\nend\nbreak;\nend\npass;\n";
    assert_eq!(compiled(src), 1 + 1 + 3 + 3 + 1);
}

#[test]
fn loop_body_executes_multiple_times() {
    let src = "x := 3;\nloop:\nif x == 1:\nbreak;\nend\nx = x + -1;\nend\n";
    assert!(compiled(src) > 3);
}

#[test]
fn loop_adds_more_instructions_than_sequential() {
    let looped = compiled("loop:\npass;\npass;\nbreak;\nend\n");
    let sequential = compiled("pass;\npass;\n");
    assert!(looped > sequential);
}

#[test]
fn function_def_counts_one() {
    assert_eq!(compiled("def foo():\npass;\nend\n"), 1);
}

#[test]
fn function_call_executes_body() {
    assert_eq!(compiled("def foo():\npass;\nend\nfoo();\n"), 3);
}

#[test]
fn function_with_params() {
    assert_eq!(compiled("def add(x, y):\npass;\nend\nadd(1, 2);\n"), 3);
}

#[test]
fn undefined_function_is_error() {
    let err = compiled_err("foo();\n");
    assert!(err.to_string().contains("not found"));
}

#[test]
fn wrong_arg_count_is_error() {
    let err = compiled_err("def foo(x):\npass;\nend\nfoo();\n");
    assert!(err.to_string().contains("expects 1 arguments but got 0"));
}

#[test]
fn list_literal_in_decl() {
    assert_eq!(compiled("x := [1, 2, 3];\n"), 1);
}

#[test]
fn list_index() {
    assert_eq!(compiled("x := [10, 20, 30];\ny := x[1];\n"), 2);
}

#[test]
fn dict_literal_in_decl() {
    assert_eq!(compiled("x := {1: \"one\", 2: \"two\"};\n"), 1);
}

#[test]
fn dict_index() {
    assert_eq!(compiled("x := {1: \"one\"};\ny := x[1];\n"), 2);
}

#[test]
fn list_index_out_of_range_is_error() {
    let err = compiled_err("x := [1, 2];\ny := x[5];\n");
    assert!(err.to_string().contains("out of range"));
}

#[test]
fn dict_missing_key_is_error() {
    let err = compiled_err("x := {1: \"a\"};\ny := x[99];\n");
    assert!(err.to_string().contains("Key not found"));
}

#[test]
fn boolean_ops() {
    compiled("x := True and False;\n");
    compiled("x := True or False;\n");
    compiled("x := not True;\n");
}

#[test]
fn comparison_ops() {
    compiled("x := 1 == 1;\n");
    compiled("x := 1 != 2;\n");
    compiled("x := 1 < 2;\n");
    compiled("x := 2 > 1;\n");
    compiled("x := 1 <= 1;\n");
    compiled("x := 2 >= 2;\n");
}

#[test]
fn in_operator_list() {
    compiled("x := 1 in [1, 2, 3];\n");
}

#[test]
fn in_operator_dict() {
    compiled("x := 1 in {1: \"a\", 2: \"b\"};\n");
}

#[test]
fn pure_function_returns_value() {
    let src = "def pure double(x):\nreturn x + x;\nend\ny := double(5);\n";
    assert_eq!(compiled(src), 3);
}

#[test]
fn pure_function_caches_result() {
    let src = "def pure f(x):\npass;\nreturn x;\nend\na := f(1);\nb := f(1);\n";
    let first_only = compiled("def pure f(x):\npass;\nreturn x;\nend\na := f(1);\n");
    let both = compiled(src);
    assert!(both - first_only < first_only);
}

#[test]
fn pure_function_different_args_not_cached() {
    let src = "def pure f(x):\npass;\nreturn x;\nend\na := f(1);\nb := f(2);\n";
    let first_only = compiled("def pure f(x):\npass;\nreturn x;\nend\na := f(1);\n");
    let both = compiled(src);
    assert!(both >= first_only * 2 - 1);
}

#[test]
fn pure_accessing_non_local_var_is_error() {
    compiled_err("x := 10;\ndef pure f():\ny := x;\nend\nf();\n");
}

#[test]
fn pure_calls_pure_ok() {
    let src = "def pure double(x):\nreturn x + x;\nend\ndef pure quad(x):\nreturn double(x) + double(x);\nend\ny := quad(3);\n";
    compiled(src);
}

#[test]
fn pure_calls_non_pure_is_error() {
    let err = compiled_err("def impure():\npass;\nend\ndef pure f():\nimpure();\nend\nf();\n");
    assert!(err.to_string().contains("non-pure"));
}

#[test]
fn pure_with_non_hashable_arg_is_error() {
    let err = compiled_err("def pure f(x):\nreturn x;\nend\nf([1, 2]);\n");
    assert!(err.to_string().contains("hashable"));
}

#[test]
fn pure_local_decl_and_assign_ok() {
    let src = "def pure f(x):\ny := x + 1;\ny = y + 1;\nreturn y;\nend\nz := f(5);\n";
    compiled(src);
}

#[test]
fn recursion_three_hundred_calls_deep() {
    let src = "def f(n):\nif n <= 0:\nreturn 0;\nelse:\nreturn f(n - 1);\nend\nend\nx := f(300);\n";
    // Each level runs its `if` (1) and `return` (1); the declaration adds 2.
    assert_eq!(compiled(src), 301 * 2 + 2);
}

#[test]
fn deep_recursion_does_not_stack_overflow() {
    let src =
        "def f(n):\nif n <= 0:\nreturn 0;\nelse:\nreturn f(n - 1);\nend\nend\nx := f(30000);\n";
    compiled(src);
}

#[test]
fn division_by_zero_is_error() {
    let err = compiled_err("x := 1 / 0;\n");
    assert_eq!(err.to_string(), "Division by zero");
}

#[test]
fn integer_overflow_is_error() {
    let err = compiled_err("x := 9223372036854775807 + 1;\n");
    assert_eq!(err.to_string(), "Integer overflow");
}

#[test]
fn float_literal_is_refused() {
    let err = compiled_err("x := 1.5;\n");
    assert_eq!(err.to_string(), "Floating-point values are not supported");
}

#[test]
fn error_messages_name_the_variable() {
    assert_eq!(compiled_err("y = 1;\n").to_string(), "Variable y not found");
    assert_eq!(compiled_err("g();\n").to_string(), "Function g not found");
    assert_eq!(
        compiled_err("x := [1];\ny := x[-3];\n").to_string(),
        "Index -3 out of range"
    );
}

#[test]
fn return_value_reaches_the_caller() {
    // f returns 7, and comparing it against 7 takes the branch with two passes.
    let src = "def f():\nreturn 7;\nend\nif f() == 7:\npass;\npass;\nend\n";
    assert_eq!(compiled(src), 1 + 1 + 2 + 1);
}

#[test]
fn dynamic_scoping_reaches_caller_variables() {
    let src = "x := 1;\ndef f():\nx = 2;\nend\nf();\nif x == 2:\npass;\nend\n";
    assert_eq!(compiled(src), 1 + 1 + 1 + 1 + 1 + 1);
}

#[test]
fn in_operator_compares_lists_elementwise() {
    let src = "x := [1, 2] in [[1, 2]];\nif x:\npass;\nend\n";
    assert_eq!(compiled(src), 3);
}

#[test]
fn pure_calls_predefined_ok() {
    let program = parse_program("def pure f(x):\nsleep(x);\nreturn x;\nend\ny := f(1);\n").unwrap();
    let mut meta = WipCompilingProgram::new(fresh_flag(), 1_000, false, true, false);
    compile_with_meta(&program, &mut meta).unwrap();
    assert_eq!(meta.program.sleep_calls, vec![1]);
}

#[test]
fn pure_function_that_prints_cannot_record_its_run() {
    let program = parse_program("def pure f(x):\nprint(x);\nreturn x;\nend\ny := f(\"a\");\n").unwrap();
    let mut meta = WipCompilingProgram::new(fresh_flag(), 1_000, true, false, false);
    let err = compile_with_meta(&program, &mut meta).unwrap_err();
    assert_eq!(err.to_string(), "print_len mismatch");
}

#[test]
fn cached_pure_call_cannot_replay_a_recorded_run() {
    let program = parse_program("def pure f(x):\nreturn x;\nend\na := f(1);\nb := f(1);\n").unwrap();
    let mut meta = WipCompilingProgram::new(fresh_flag(), 1_000, false, false, false);
    let err = compile_with_meta(&program, &mut meta).unwrap_err();
    assert_eq!(err.to_string(), "instruction_counts mismatch");
}
