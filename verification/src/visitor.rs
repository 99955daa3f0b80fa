//! A visitor over the syntax tree, for passes that inspect or rewrite a program.
//!
//! An implementation gives hooks that run before (`pre_*`) and after (`post_*`) the
//! children of a variable, an expression or a statement are visited, and says how the
//! children are visited (`visit_*_children`); `walk_expr` and `walk_stmt` visit each
//! child in order and rebuild the node from the results, and an implementation that
//! keeps the usual traversal hands its children to them.
use vstd::prelude::*;
use crate::ast::{NotPythonExpr, NotPythonExprVariable, NotPythonStmt};

verus! {

/// `r` is the node `e` rebuilt: the same kind of expression with the same operator or
/// name and as many children; a literal stays as it is.
pub open spec fn same_expr_node(e: NotPythonExpr, r: NotPythonExpr) -> bool {
    match e {
        NotPythonExpr::BinaryOp(op, _, _) => r matches NotPythonExpr::BinaryOp(op2, _, _) && op2 == op,
        NotPythonExpr::UnaryOp(op, _) => r matches NotPythonExpr::UnaryOp(op2, _) && op2 == op,
        NotPythonExpr::Variable(_) => r is Variable,
        NotPythonExpr::Index(_, _) => r is Index,
        NotPythonExpr::List(items) => r matches NotPythonExpr::List(items2) && items2.len() == items.len(),
        NotPythonExpr::Dict(pairs) => r matches NotPythonExpr::Dict(pairs2) && pairs2.len() == pairs.len(),
        NotPythonExpr::Call(name, args) => r matches NotPythonExpr::Call(name2, args2) && name2@ == name@
            && args2.len() == args.len(),
        _ => r == e,
    }
}

/// `r` is the statement `s` rebuilt: the same kind of statement with the same name,
/// purity and number of children; a statement without children stays as it is.
pub open spec fn same_stmt_node(s: NotPythonStmt, r: NotPythonStmt) -> bool {
    match s {
        NotPythonStmt::Block(stmts) => r matches NotPythonStmt::Block(stmts2) && stmts2.len() == stmts.len(),
        NotPythonStmt::Call(name, args) => r matches NotPythonStmt::Call(name2, args2) && name2@ == name@
            && args2.len() == args.len(),
        NotPythonStmt::Decl(_, _) => r is Decl,
        NotPythonStmt::Assign(_, _) => r is Assign,
        NotPythonStmt::Return(Some(_)) => r matches NotPythonStmt::Return(e) && e is Some,
        NotPythonStmt::If { else_, .. } => r matches NotPythonStmt::If { else_: else2, .. } && (else2 is Some
            <==> else_ is Some),
        NotPythonStmt::Loop(_) => r is Loop,
        NotPythonStmt::Function { name, params, is_pure, .. } => r matches NotPythonStmt::Function {
            name: name2,
            params: params2,
            is_pure: pure2,
            ..
        } && name2@ == name@ && params2.len() == params.len() && pure2 == is_pure,
        _ => r == s,
    }
}

/// The children of a variable: it has none, so it is kept.
pub fn walk_expr_variable<V: Visitor>(v: &mut V, var: NotPythonExprVariable) -> (r: NotPythonExprVariable)
    ensures
        r == var,
{
    var
}

/// Visits each expression of `items` in order.
fn visit_exprs<V: Visitor>(v: &mut V, items: Vec<NotPythonExpr>) -> (r: Vec<NotPythonExpr>)
    ensures
        r.len() == items.len(),
{
    let mut items = items;
    let ghost n = items.len();
    let mut out: Vec<NotPythonExpr> = Vec::new();
    while items.len() > 0
        invariant
            out.len() + items.len() == n,
        decreases items.len(),
    {
        let e = items.remove(0);
        out.push(v.visit_expr(e));
    }
    out
}

/// Visits the key and then the value of each pair of `pairs` in order.
fn visit_pairs<V: Visitor>(v: &mut V, pairs: Vec<(NotPythonExpr, NotPythonExpr)>) -> (r: Vec<(NotPythonExpr, NotPythonExpr)>)
    ensures
        r.len() == pairs.len(),
{
    let mut pairs = pairs;
    let ghost n = pairs.len();
    let mut out: Vec<(NotPythonExpr, NotPythonExpr)> = Vec::new();
    while pairs.len() > 0
        invariant
            out.len() + pairs.len() == n,
        decreases pairs.len(),
    {
        let (k, val) = pairs.remove(0);
        let k2 = v.visit_expr(k);
        let val2 = v.visit_expr(val);
        out.push((k2, val2));
    }
    out
}

/// Visits each statement of `stmts` in order.
fn visit_stmts<V: Visitor>(v: &mut V, stmts: Vec<NotPythonStmt>) -> (r: Vec<NotPythonStmt>)
    ensures
        r.len() == stmts.len(),
{
    let mut stmts = stmts;
    let ghost n = stmts.len();
    let mut out: Vec<NotPythonStmt> = Vec::new();
    while stmts.len() > 0
        invariant
            out.len() + stmts.len() == n,
        decreases stmts.len(),
    {
        let s = stmts.remove(0);
        out.push(v.visit_stmt(s));
    }
    out
}

/// Visits each variable of `vars` in order.
fn visit_variables<V: Visitor>(v: &mut V, vars: Vec<NotPythonExprVariable>) -> (r: Vec<NotPythonExprVariable>)
    ensures
        r.len() == vars.len(),
{
    let mut vars = vars;
    let ghost n = vars.len();
    let mut out: Vec<NotPythonExprVariable> = Vec::new();
    while vars.len() > 0
        invariant
            out.len() + vars.len() == n,
        decreases vars.len(),
    {
        let x = vars.remove(0);
        out.push(v.visit_expr_variable(x));
    }
    out
}

/// Visits the children of an expression in order, and rebuilds the expression from
/// what the visits give back.
pub fn walk_expr<V: Visitor>(v: &mut V, expr: NotPythonExpr) -> (r: NotPythonExpr)
    ensures
        same_expr_node(expr, r),
{
    match expr {
        NotPythonExpr::BinaryOp(op, l, r) => {
            let l2 = v.visit_expr(*l);
            let r2 = v.visit_expr(*r);
            NotPythonExpr::BinaryOp(op, Box::new(l2), Box::new(r2))
        },
        NotPythonExpr::UnaryOp(op, e) => NotPythonExpr::UnaryOp(op, Box::new(v.visit_expr(*e))),
        NotPythonExpr::Variable(var) => NotPythonExpr::Variable(v.visit_expr_variable(var)),
        NotPythonExpr::Index(var, idx) => {
            let var2 = v.visit_expr_variable(var);
            let idx2 = v.visit_expr(*idx);
            NotPythonExpr::Index(var2, Box::new(idx2))
        },
        NotPythonExpr::List(items) => NotPythonExpr::List(visit_exprs(v, items)),
        NotPythonExpr::Dict(pairs) => NotPythonExpr::Dict(visit_pairs(v, pairs)),
        NotPythonExpr::Call(name, args) => NotPythonExpr::Call(name, visit_exprs(v, args)),
        other => other,
    }
}

/// Visits the children of a statement in order, and rebuilds the statement from what
/// the visits give back.
pub fn walk_stmt<V: Visitor>(v: &mut V, stmt: NotPythonStmt) -> (r: NotPythonStmt)
    ensures
        same_stmt_node(stmt, r),
{
    match stmt {
        NotPythonStmt::Block(stmts) => NotPythonStmt::Block(visit_stmts(v, stmts)),
        NotPythonStmt::Call(name, args) => NotPythonStmt::Call(name, visit_exprs(v, args)),
        NotPythonStmt::Decl(var, expr) => {
            let var2 = v.visit_expr_variable(var);
            let expr2 = v.visit_expr(expr);
            NotPythonStmt::Decl(var2, expr2)
        },
        NotPythonStmt::Assign(var, expr) => {
            let var2 = v.visit_expr_variable(var);
            let expr2 = v.visit_expr(expr);
            NotPythonStmt::Assign(var2, expr2)
        },
        NotPythonStmt::Return(Some(expr)) => NotPythonStmt::Return(Some(v.visit_expr(expr))),
        NotPythonStmt::If { condition, then, else_ } => {
            let condition2 = v.visit_expr(condition);
            let then2 = v.visit_stmt(*then);
            let else2 = match else_ {
                Some(e) => Some(Box::new(v.visit_stmt(*e))),
                None => None,
            };
            NotPythonStmt::If { condition: condition2, then: Box::new(then2), else_: else2 }
        },
        NotPythonStmt::Loop(body) => NotPythonStmt::Loop(Box::new(v.visit_stmt(*body))),
        NotPythonStmt::Function { name, params, body, is_pure } => {
            let params2 = visit_variables(v, params);
            let body2 = v.visit_stmt(*body);
            NotPythonStmt::Function { name, params: params2, body: Box::new(body2), is_pure }
        },
        other => other,
    }
}

/// A pass over the syntax tree. Each hook may inspect or rewrite the node it is given.
/// The `visit_*_children` methods say how the children of a node are visited; an
/// implementation that keeps the usual traversal gives `walk_expr_variable`,
/// `walk_expr` and `walk_stmt` as their bodies.
pub trait Visitor: Sized {
    fn pre_expr_variable(&mut self, var: NotPythonExprVariable) -> (r: NotPythonExprVariable) {
        var
    }

    fn visit_expr_variable_children(&mut self, var: NotPythonExprVariable) -> (r: NotPythonExprVariable);

    fn post_expr_variable(&mut self, var: NotPythonExprVariable) -> (r: NotPythonExprVariable) {
        var
    }

    fn pre_expr(&mut self, expr: NotPythonExpr) -> (r: NotPythonExpr) {
        expr
    }

    fn visit_expr_children(&mut self, expr: NotPythonExpr) -> (r: NotPythonExpr);

    fn post_expr(&mut self, expr: NotPythonExpr) -> (r: NotPythonExpr) {
        expr
    }

    fn pre_stmt(&mut self, stmt: NotPythonStmt) -> (r: NotPythonStmt) {
        stmt
    }

    fn visit_stmt_children(&mut self, stmt: NotPythonStmt) -> (r: NotPythonStmt);

    fn post_stmt(&mut self, stmt: NotPythonStmt) -> (r: NotPythonStmt) {
        stmt
    }

    /// Visits a variable: its `pre` hook, its children, its `post` hook.
    fn visit_expr_variable(&mut self, var: NotPythonExprVariable) -> (r: NotPythonExprVariable) {
        let var = self.pre_expr_variable(var);
        let var = self.visit_expr_variable_children(var);
        self.post_expr_variable(var)
    }

    /// Visits an expression: its `pre` hook, its children, its `post` hook.
    fn visit_expr(&mut self, expr: NotPythonExpr) -> (r: NotPythonExpr) {
        let expr = self.pre_expr(expr);
        let expr = self.visit_expr_children(expr);
        self.post_expr(expr)
    }

    /// Visits a statement: its `pre` hook, its children, its `post` hook.
    fn visit_stmt(&mut self, stmt: NotPythonStmt) -> (r: NotPythonStmt) {
        let stmt = self.pre_stmt(stmt);
        let stmt = self.visit_stmt_children(stmt);
        self.post_stmt(stmt)
    }
}

} // verus!
