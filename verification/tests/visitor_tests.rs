use incremental_code::ast::{NotPythonExpr, NotPythonExprVariable, NotPythonStmt};
use incremental_code::parser::parse_program;
use incremental_code::visitor::{walk_expr, walk_expr_variable, walk_stmt, Visitor};

fn parse(src: &str) -> NotPythonStmt {
    parse_program(src).unwrap().statement
}

struct IdentityVisitor;

impl Visitor for IdentityVisitor {
    fn visit_expr_variable_children(&mut self, var: NotPythonExprVariable) -> NotPythonExprVariable {
        walk_expr_variable(self, var)
    }
    fn visit_expr_children(&mut self, expr: NotPythonExpr) -> NotPythonExpr {
        walk_expr(self, expr)
    }
    fn visit_stmt_children(&mut self, stmt: NotPythonStmt) -> NotPythonStmt {
        walk_stmt(self, stmt)
    }
}

struct Counter(usize);

impl Visitor for Counter {
    fn visit_expr_variable_children(&mut self, var: NotPythonExprVariable) -> NotPythonExprVariable {
        walk_expr_variable(self, var)
    }
    fn visit_expr_children(&mut self, expr: NotPythonExpr) -> NotPythonExpr {
        walk_expr(self, expr)
    }
    fn visit_stmt_children(&mut self, stmt: NotPythonStmt) -> NotPythonStmt {
        walk_stmt(self, stmt)
    }
    fn post_expr(&mut self, expr: NotPythonExpr) -> NotPythonExpr {
        self.0 += 1;
        expr
    }
}

struct VarCounter(usize);

impl Visitor for VarCounter {
    fn visit_expr_variable_children(&mut self, var: NotPythonExprVariable) -> NotPythonExprVariable {
        walk_expr_variable(self, var)
    }
    fn visit_expr_children(&mut self, expr: NotPythonExpr) -> NotPythonExpr {
        walk_expr(self, expr)
    }
    fn visit_stmt_children(&mut self, stmt: NotPythonStmt) -> NotPythonStmt {
        walk_stmt(self, stmt)
    }
    fn post_expr_variable(&mut self, var: NotPythonExprVariable) -> NotPythonExprVariable {
        self.0 += 1;
        var
    }
}

struct DoubleInts;

impl Visitor for DoubleInts {
    fn visit_expr_variable_children(&mut self, var: NotPythonExprVariable) -> NotPythonExprVariable {
        walk_expr_variable(self, var)
    }
    fn visit_expr_children(&mut self, expr: NotPythonExpr) -> NotPythonExpr {
        walk_expr(self, expr)
    }
    fn visit_stmt_children(&mut self, stmt: NotPythonStmt) -> NotPythonStmt {
        walk_stmt(self, stmt)
    }
    fn post_expr(&mut self, expr: NotPythonExpr) -> NotPythonExpr {
        if let NotPythonExpr::Int(n) = expr {
            NotPythonExpr::Int(n * 2)
        } else {
            expr
        }
    }
}

struct NoOpVisitor;

impl Visitor for NoOpVisitor {
    fn visit_expr_variable_children(&mut self, var: NotPythonExprVariable) -> NotPythonExprVariable {
        walk_expr_variable(self, var)
    }
    fn visit_expr_children(&mut self, expr: NotPythonExpr) -> NotPythonExpr {
        walk_expr(self, expr)
    }
    fn visit_stmt_children(&mut self, stmt: NotPythonStmt) -> NotPythonStmt {
        // Skip all children: the statement stays as it is.
        stmt
    }
    fn post_expr(&mut self, _expr: NotPythonExpr) -> NotPythonExpr {
        panic!("should not be reached");
    }
}

#[test]
fn identity_visitor_preserves_literals() {
    let result = IdentityVisitor.visit_stmt(parse("x := 1 + 2;"));
    assert_eq!(result, parse("x := 1 + 2;"));
}

#[test]
fn identity_visitor_preserves_nested_stmts() {
    let src = "if True:\nx := 1;\nelse:\nx := 2;\nend\n";
    let result = IdentityVisitor.visit_stmt(parse(src));
    assert_eq!(result, parse(src));
}

#[test]
fn post_expr_hook_fires_on_all_exprs() {
    // "x := 1 + 2;" has three expressions: Int(1), Int(2), BinaryOp(Add)
    let mut c = Counter(0);
    c.visit_stmt(parse("x := 1 + 2;"));
    assert_eq!(c.0, 3);
}

#[test]
fn post_expr_variable_hook_fires() {
    // "x := y + z;" has two variable reads (y, z) plus one in the Decl lhs
    let mut c = VarCounter(0);
    c.visit_stmt(parse("x := y + z;"));
    assert_eq!(c.0, 3);
}

#[test]
fn post_expr_can_rewrite_literals() {
    let result = DoubleInts.visit_stmt(parse("x := 3;"));
    let NotPythonStmt::Block(stmts) = result else {
        panic!("a program is a block")
    };
    let Some(NotPythonStmt::Decl(_, expr)) = stmts.into_iter().next() else {
        panic!("the block holds the declaration")
    };
    assert_eq!(expr, NotPythonExpr::Int(6));
}

#[test]
fn visit_stmt_children_override_can_skip_subtree() {
    // Should not panic
    NoOpVisitor.visit_stmt(parse("x := 1 + 2;"));
}

#[test]
fn walking_rebuilds_every_kind_of_node() {
    let src = "def f(a, b):\nx := [a, {1: b}];\nreturn x[0];\nend\nloop:\nf(1, -2);\nbreak;\nend\n";
    let result = IdentityVisitor.visit_stmt(parse(src));
    assert_eq!(result, parse(src));
    let mut c = Counter(0);
    c.visit_stmt(parse(src));
    // [a, {1: b}], a, {1: b}, 1, b; x[0], 0; 1, -2, 2
    assert_eq!(c.0, 10);
    let mut v = VarCounter(0);
    v.visit_stmt(parse(src));
    // the parameters a and b, x, a, b, the x of x[0]
    assert_eq!(v.0, 6);
}
