use incremental_code::compile::compile_with_meta;
use incremental_code::ast::{NotPythonExpr, NotPythonStmt};
use incremental_code::ast::BinaryOp;
use incremental_code::fold::{fold_binary, fold_stmt, Lit};
use incremental_code::parser::parse_program;

fn parsed_decl_expr(src: &str) -> NotPythonExpr {
    let mut program = match parse_program(src) {
        Ok(p) => p,
        Err(e) => panic!("parse failed at token {}", e.token_index),
    };
    fold_stmt(&mut program.statement);
    let stmts = match program.statement {
        NotPythonStmt::Block(stmts) => stmts,
        _ => panic!("expected top-level Block"),
    };
    match stmts.into_iter().next().unwrap() {
        NotPythonStmt::Decl(_, expr) => expr,
        _ => panic!("expected Decl"),
    }
}

#[test]
fn test_mul_chain_folds_to_int() {
    assert_eq!(parsed_decl_expr("x := 9*9*9*9*9*9;\n"), NotPythonExpr::Int(531441));
}

#[test]
fn test_mixed_arithmetic_folds() {
    assert_eq!(parsed_decl_expr("x := 3 + 4 * 2;\n"), NotPythonExpr::Int(11));
}

#[test]
fn test_div_by_zero_not_folded() {
    let expr = parsed_decl_expr("x := 1 / 0;\n");
    assert!(matches!(expr, NotPythonExpr::BinaryOp(..)));
}

#[test]
fn test_bool_fold() {
    assert_eq!(parsed_decl_expr("x := True and False;\n"), NotPythonExpr::Boolean(false));
    assert_eq!(parsed_decl_expr("x := not True;\n"), NotPythonExpr::Boolean(false));
}

#[test]
fn test_comparison_fold() {
    assert_eq!(parsed_decl_expr("x := 3 < 5;\n"), NotPythonExpr::Boolean(true));
    assert_eq!(parsed_decl_expr("x := 10 == 10;\n"), NotPythonExpr::Boolean(true));
}

#[test]
fn test_identifier_blocks_fold() {
    let expr = parsed_decl_expr("x := i - 1;\n");
    assert!(matches!(expr, NotPythonExpr::BinaryOp(..)));
}

#[test]
fn string_concatenation_folds_with_its_hash() {
    match parsed_decl_expr("x := \"ab\" + \"cde\";\n") {
        NotPythonExpr::String((text, hashed)) => {
            assert_eq!(text, "abcde");
            assert_eq!(hashed.len(), 5);
        }
        other => panic!("expected a string, got {:?}", other),
    }
}

#[test]
fn overflowing_product_is_not_folded() {
    let expr = parsed_decl_expr("x := 9223372036854775807 * 2;\n");
    assert!(matches!(expr, NotPythonExpr::BinaryOp(..)));
}

#[test]
fn folding_reaches_into_nested_statements() {
    let mut program = parse_program("loop:\nx := 2 * 3;\nend\n").unwrap();
    fold_stmt(&mut program.statement);
    let expected = parse_program("loop:\nx := 6;\nend\n").unwrap();
    assert_eq!(program, expected);
}

#[test]
fn folded_program_runs_like_the_unfolded_one() {
    let src = "x := 3 + 4 * 2;\ny := x == 11;\nz := not True;\nw := 2 < 1;\ndef f(a):\nreturn a + 2 * 3;\nend\nv := f(1) + f(2);\n";
    let plain = parse_program(src).unwrap();
    let mut folded = parse_program(src).unwrap();
    fold_stmt(&mut folded.statement);
    let mut a: u32 = 0;
    let mut b: u32 = 0;
    assert!(compile_with_meta(&plain, &mut a).is_ok());
    assert!(compile_with_meta(&folded, &mut b).is_ok());
    assert_eq!(a, b, "folding happens inside expressions, which cost no instructions");
}

#[test]
fn strings_of_equal_length_compare_equal_only_when_not_folded() {
    let src = "if \"ab\" == \"cd\":\npass;\nend\n";
    let plain = parse_program(src).unwrap();
    let mut folded = parse_program(src).unwrap();
    fold_stmt(&mut folded.statement);
    let mut a: u32 = 0;
    let mut b: u32 = 0;
    compile_with_meta(&plain, &mut a).unwrap();
    compile_with_meta(&folded, &mut b).unwrap();
    assert_eq!(a, b + 1, "at run time strings are compared by length, so the branch is taken");
}

#[test]
fn fold_binary_folds_what_evaluation_gives() {
    assert!(matches!(fold_binary(&Lit::Int(6), &Lit::Int(7), BinaryOp::Mul), Some(Lit::Int(42))));
    assert!(matches!(fold_binary(&Lit::Int(2), &Lit::Int(3), BinaryOp::Less), Some(Lit::Bool(true))));
    assert!(matches!(fold_binary(&Lit::Bool(true), &Lit::Bool(false), BinaryOp::And), Some(Lit::Bool(false))));
}

#[test]
fn fold_binary_leaves_run_time_errors_to_the_run() {
    assert!(fold_binary(&Lit::Int(1), &Lit::Int(0), BinaryOp::Div).is_none());
    assert!(fold_binary(&Lit::Int(1), &Lit::Int(0), BinaryOp::Mod).is_none());
    assert!(fold_binary(&Lit::Int(i64::MAX), &Lit::Int(1), BinaryOp::Add).is_none());
    assert!(fold_binary(&Lit::Int(i64::MIN), &Lit::Int(-1), BinaryOp::Div).is_none());
}
