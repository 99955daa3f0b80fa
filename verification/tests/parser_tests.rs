use incremental_code::ast::{BinaryOp, NotPythonExpr, NotPythonExprVariable, NotPythonStmt, UnaryOp};
use incremental_code::parser::parse_program;

fn stmts(src: &str) -> Vec<NotPythonStmt> {
    let program = match parse_program(src) {
        Ok(p) => p,
        Err(e) => panic!("parse failed at token {}", e.token_index),
    };
    match program.statement {
        NotPythonStmt::Block(stmts) => stmts,
        _ => panic!("expected top-level Block"),
    }
}

fn var(name: &str) -> NotPythonExprVariable {
    NotPythonExprVariable { name: name.to_string() }
}

fn block(stmts: Vec<NotPythonStmt>) -> Box<NotPythonStmt> {
    Box::new(NotPythonStmt::Block(stmts))
}

#[test]
fn pass_break_continue() {
    assert_eq!(stmts("pass;\n"), vec![NotPythonStmt::Pass]);
    assert_eq!(stmts("break;\n"), vec![NotPythonStmt::Break]);
    assert_eq!(stmts("continue;\n"), vec![NotPythonStmt::Continue]);
}

#[test]
fn eoi_accepted_as_line_terminator() {
    assert_eq!(stmts("pass;"), vec![NotPythonStmt::Pass]);
}

#[test]
fn multiple_stmts() {
    assert_eq!(
        stmts("pass;\nbreak;\ncontinue;\n"),
        vec![NotPythonStmt::Pass, NotPythonStmt::Break, NotPythonStmt::Continue]
    );
}

#[test]
fn decl() {
    assert_eq!(stmts("x := 42;\n"), vec![NotPythonStmt::Decl(var("x"), NotPythonExpr::Int(42))]);
}

#[test]
fn assign() {
    assert_eq!(stmts("x = True;\n"), vec![NotPythonStmt::Assign(var("x"), NotPythonExpr::Boolean(true))]);
}

#[test]
fn call_no_args() {
    assert_eq!(stmts("foo();\n"), vec![NotPythonStmt::Call("foo".to_string(), vec![])]);
}

#[test]
fn call_with_args() {
    assert_eq!(
        stmts("foo(1, 2);\n"),
        vec![NotPythonStmt::Call("foo".to_string(), vec![NotPythonExpr::Int(1), NotPythonExpr::Int(2)])]
    );
}

#[test]
fn arithmetic_precedence() {
    assert_eq!(
        stmts("x := 1 + 2 * 3;\n"),
        vec![NotPythonStmt::Decl(
            var("x"),
            NotPythonExpr::BinaryOp(
                BinaryOp::Add,
                Box::new(NotPythonExpr::Int(1)),
                Box::new(NotPythonExpr::BinaryOp(
                    BinaryOp::Mul,
                    Box::new(NotPythonExpr::Int(2)),
                    Box::new(NotPythonExpr::Int(3)),
                )),
            )
        )]
    );
}

#[test]
fn negation() {
    assert_eq!(
        stmts("x := -1;\n"),
        vec![NotPythonStmt::Decl(var("x"), NotPythonExpr::UnaryOp(UnaryOp::Neg, Box::new(NotPythonExpr::Int(1))))]
    );
}

#[test]
fn comparison_expr() {
    assert_eq!(
        stmts("x := 1 == 2;\n"),
        vec![NotPythonStmt::Decl(
            var("x"),
            NotPythonExpr::BinaryOp(BinaryOp::Equal, Box::new(NotPythonExpr::Int(1)), Box::new(NotPythonExpr::Int(2)))
        )]
    );
}

#[test]
fn if_no_else() {
    assert_eq!(
        stmts("if True:\npass;\nend\n"),
        vec![NotPythonStmt::If {
            condition: NotPythonExpr::Boolean(true),
            then: block(vec![NotPythonStmt::Pass]),
            else_: None,
        }]
    );
}

#[test]
fn if_else() {
    assert_eq!(
        stmts("if True:\npass;\nelse:\nbreak;\nend\n"),
        vec![NotPythonStmt::If {
            condition: NotPythonExpr::Boolean(true),
            then: block(vec![NotPythonStmt::Pass]),
            else_: Some(block(vec![NotPythonStmt::Break])),
        }]
    );
}

#[test]
fn if_elif_else() {
    assert_eq!(
        stmts("if True:\npass;\nelif False:\nbreak;\nelse:\ncontinue;\nend\n"),
        vec![NotPythonStmt::If {
            condition: NotPythonExpr::Boolean(true),
            then: block(vec![NotPythonStmt::Pass]),
            else_: Some(Box::new(NotPythonStmt::If {
                condition: NotPythonExpr::Boolean(false),
                then: block(vec![NotPythonStmt::Break]),
                else_: Some(block(vec![NotPythonStmt::Continue])),
            })),
        }]
    );
}

#[test]
fn loop_stmt() {
    assert_eq!(stmts("loop:\nbreak;\nend\n"), vec![NotPythonStmt::Loop(block(vec![NotPythonStmt::Break]))]);
}

#[test]
fn func_def_no_params() {
    assert_eq!(
        stmts("def foo():\npass;\nend\n"),
        vec![NotPythonStmt::Function {
            name: "foo".to_string(),
            params: vec![],
            body: block(vec![NotPythonStmt::Pass]),
            is_pure: false,
        }]
    );
}

#[test]
fn func_def_with_params() {
    assert_eq!(
        stmts("def add(x, y):\npass;\nend\n"),
        vec![NotPythonStmt::Function {
            name: "add".to_string(),
            params: vec![var("x"), var("y")],
            body: block(vec![NotPythonStmt::Pass]),
            is_pure: false,
        }]
    );
}

#[test]
fn nested_blocks() {
    assert_eq!(
        stmts("loop:\nif True:\nbreak;\nend\nend\n"),
        vec![NotPythonStmt::Loop(block(vec![NotPythonStmt::If {
            condition: NotPythonExpr::Boolean(true),
            then: block(vec![NotPythonStmt::Break]),
            else_: None,
        }]))]
    );
}

#[test]
fn missing_semicolon_is_error() {
    assert!(parse_program("pass\n").is_err());
}

#[test]
fn missing_end_is_error() {
    assert!(parse_program("loop:\npass;\n").is_err());
}

#[test]
fn non_newline_after_end_is_error() {
    assert!(parse_program("loop:\npass;\nend pass;\n").is_err());
}

#[test]
fn non_newline_after_block_header_is_error() {
    assert!(parse_program("loop: pass;\nend\n").is_err());
}

#[test]
fn pure_function_definition_is_marked_pure() {
    let s = stmts("def pure f(x):\nreturn x;\nend\n");
    match &s[0] {
        NotPythonStmt::Function { name, is_pure, .. } => {
            assert_eq!(name, "f");
            assert!(*is_pure);
        }
        _ => panic!("expected a function"),
    }
}

#[test]
fn string_literal_records_its_byte_length() {
    let s = stmts("x := \"héllo\";\n");
    match &s[0] {
        NotPythonStmt::Decl(_, NotPythonExpr::String((text, hashed))) => {
            assert_eq!(text, "héllo");
            assert_eq!(hashed.len(), 6);
        }
        _ => panic!("expected a string declaration"),
    }
}
