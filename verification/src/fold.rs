//! Constant folding: every unary or binary operation whose operands are literals
//! (after their own folding) is replaced by the literal it computes, where that
//! computation succeeds without overflow and without dividing by zero.
use vstd::prelude::*;
use crate::ast::{
    BinaryOp, ExprModel, NotPythonExpr, NotPythonExprVariable, NotPythonStmt, StmtModel, UnaryOp,
    exprs_model, pairs_model, push_expr, push_pair, push_stmt, stmts_model,
};
use crate::hashed_string::{HashedString, byte_len};

verus! {

/// A literal as constant folding sees it.
pub enum LitModel {
    Int(i64),
    Bool(bool),
    Str(Seq<char>),
}

pub enum Lit {
    Int(i64),
    Bool(bool),
    Str(String),
}

impl Lit {
    pub open spec fn model(&self) -> LitModel {
        match self {
            Lit::Int(i) => LitModel::Int(*i),
            Lit::Bool(b) => LitModel::Bool(*b),
            Lit::Str(s) => LitModel::Str(s@),
        }
    }
}

pub open spec fn spec_expr_to_lit(e: ExprModel) -> Option<LitModel> {
    match e {
        ExprModel::Int(i) => Some(LitModel::Int(i)),
        ExprModel::Boolean(b) => Some(LitModel::Bool(b)),
        ExprModel::Str(s, _) => Some(LitModel::Str(s)),
        _ => None,
    }
}

pub open spec fn spec_lit_to_expr(l: LitModel) -> ExprModel {
    match l {
        LitModel::Int(i) => ExprModel::Int(i),
        LitModel::Bool(b) => ExprModel::Boolean(b),
        LitModel::Str(s) => ExprModel::Str(s, byte_len(s)),
    }
}

pub open spec fn int_lit(o: Option<i64>) -> Option<LitModel> {
    match o {
        Some(i) => Some(LitModel::Int(i)),
        None => None,
    }
}

/// The literal that a binary operation on two literals folds to, if it folds.
pub open spec fn spec_fold_binary(lhs: LitModel, rhs: LitModel, op: BinaryOp) -> Option<LitModel> {
    match op {
        BinaryOp::Add => match (lhs, rhs) {
            (LitModel::Int(a), LitModel::Int(b)) => int_lit(a.checked_add(b)),
            (LitModel::Str(a), LitModel::Str(b)) => Some(LitModel::Str(a + b)),
            _ => None,
        },
        BinaryOp::Sub => match (lhs, rhs) {
            (LitModel::Int(a), LitModel::Int(b)) => int_lit(a.checked_sub(b)),
            _ => None,
        },
        BinaryOp::Mul => match (lhs, rhs) {
            (LitModel::Int(a), LitModel::Int(b)) => int_lit(a.checked_mul(b)),
            _ => None,
        },
        BinaryOp::Div => match (lhs, rhs) {
            (LitModel::Int(a), LitModel::Int(b)) => if b == 0 {
                None
            } else {
                int_lit(a.checked_div(b))
            },
            _ => None,
        },
        BinaryOp::Mod => match (lhs, rhs) {
            (LitModel::Int(a), LitModel::Int(b)) => if b == 0 {
                None
            } else {
                int_lit(a.checked_rem(b))
            },
            _ => None,
        },
        BinaryOp::And => match (lhs, rhs) {
            (LitModel::Bool(a), LitModel::Bool(b)) => Some(LitModel::Bool(a && b)),
            _ => None,
        },
        BinaryOp::Or => match (lhs, rhs) {
            (LitModel::Bool(a), LitModel::Bool(b)) => Some(LitModel::Bool(a || b)),
            _ => None,
        },
        BinaryOp::Equal => match (lhs, rhs) {
            (LitModel::Int(a), LitModel::Int(b)) => Some(LitModel::Bool(a == b)),
            (LitModel::Bool(a), LitModel::Bool(b)) => Some(LitModel::Bool(a == b)),
            (LitModel::Str(a), LitModel::Str(b)) => Some(LitModel::Bool(a == b)),
            _ => None,
        },
        BinaryOp::NotEqual => match (lhs, rhs) {
            (LitModel::Int(a), LitModel::Int(b)) => Some(LitModel::Bool(a != b)),
            (LitModel::Bool(a), LitModel::Bool(b)) => Some(LitModel::Bool(a != b)),
            (LitModel::Str(a), LitModel::Str(b)) => Some(LitModel::Bool(a != b)),
            _ => None,
        },
        BinaryOp::Greater => match (lhs, rhs) {
            (LitModel::Int(a), LitModel::Int(b)) => Some(LitModel::Bool(a > b)),
            _ => None,
        },
        BinaryOp::Less => match (lhs, rhs) {
            (LitModel::Int(a), LitModel::Int(b)) => Some(LitModel::Bool(a < b)),
            _ => None,
        },
        BinaryOp::GreaterEqual => match (lhs, rhs) {
            (LitModel::Int(a), LitModel::Int(b)) => Some(LitModel::Bool(a >= b)),
            _ => None,
        },
        BinaryOp::LessEqual => match (lhs, rhs) {
            (LitModel::Int(a), LitModel::Int(b)) => Some(LitModel::Bool(a <= b)),
            _ => None,
        },
        BinaryOp::In => None,
    }
}

/// The literal that a unary operation on a literal folds to, if it folds.
pub open spec fn spec_fold_unary(val: LitModel, op: UnaryOp) -> Option<LitModel> {
    match op {
        UnaryOp::Neg => match val {
            LitModel::Int(i) => if i == i64::MIN {
                None
            } else {
                Some(LitModel::Int((-i) as i64))
            },
            _ => None,
        },
        UnaryOp::Not => match val {
            LitModel::Bool(b) => Some(LitModel::Bool(!b)),
            _ => None,
        },
    }
}

/// An operation node whose operands are already folded, folded itself where it can be.
pub open spec fn spec_fold_node(e: ExprModel) -> ExprModel {
    match e {
        ExprModel::UnaryOp(op, v) => match spec_expr_to_lit(*v) {
            Some(l) => match spec_fold_unary(l, op) {
                Some(r) => spec_lit_to_expr(r),
                None => e,
            },
            None => e,
        },
        ExprModel::BinaryOp(op, l, r) => match (spec_expr_to_lit(*l), spec_expr_to_lit(*r)) {
            (Some(ll), Some(rl)) => match spec_fold_binary(ll, rl, op) {
                Some(x) => spec_lit_to_expr(x),
                None => e,
            },
            _ => e,
        },
        _ => e,
    }
}

/// An expression with all its foldable operations folded, innermost first.
pub open spec fn spec_fold_expr(e: ExprModel) -> ExprModel
    decreases e,
{
    match e {
        ExprModel::BinaryOp(op, l, r) => spec_fold_node(
            ExprModel::BinaryOp(op, Box::new(spec_fold_expr(*l)), Box::new(spec_fold_expr(*r))),
        ),
        ExprModel::UnaryOp(op, v) => spec_fold_node(ExprModel::UnaryOp(op, Box::new(spec_fold_expr(*v)))),
        ExprModel::Index(name, i) => ExprModel::Index(name, Box::new(spec_fold_expr(*i))),
        ExprModel::List(es) => ExprModel::List(
            Seq::new(
                es.len(),
                |i: int|
                    if 0 <= i < es.len() {
                        spec_fold_expr(es[i])
                    } else {
                        ExprModel::NoneValue
                    },
            ),
        ),
        ExprModel::Dict(ps) => ExprModel::Dict(
            Seq::new(
                ps.len(),
                |i: int|
                    if 0 <= i < ps.len() {
                        (spec_fold_expr(ps[i].0), spec_fold_expr(ps[i].1))
                    } else {
                        (ExprModel::NoneValue, ExprModel::NoneValue)
                    },
            ),
        ),
        ExprModel::Call(name, args) => ExprModel::Call(
            name,
            Seq::new(
                args.len(),
                |i: int|
                    if 0 <= i < args.len() {
                        spec_fold_expr(args[i])
                    } else {
                        ExprModel::NoneValue
                    },
            ),
        ),
        _ => e,
    }
}

pub open spec fn spec_fold_exprs(es: Seq<ExprModel>) -> Seq<ExprModel> {
    Seq::new(es.len(), |i: int| spec_fold_expr(es[i]))
}

/// A statement with every expression in it folded.
pub open spec fn spec_fold_stmt(s: StmtModel) -> StmtModel
    decreases s,
{
    match s {
        StmtModel::Block(ss) => StmtModel::Block(
            Seq::new(
                ss.len(),
                |i: int|
                    if 0 <= i < ss.len() {
                        spec_fold_stmt(ss[i])
                    } else {
                        StmtModel::Pass
                    },
            ),
        ),
        StmtModel::Call(name, args) => StmtModel::Call(name, spec_fold_exprs(args)),
        StmtModel::Decl(v, e) => StmtModel::Decl(v, spec_fold_expr(e)),
        StmtModel::Assign(v, e) => StmtModel::Assign(v, spec_fold_expr(e)),
        StmtModel::Return(Some(e)) => StmtModel::Return(Some(spec_fold_expr(e))),
        StmtModel::If(c, t, e) => StmtModel::If(
            spec_fold_expr(c),
            Box::new(spec_fold_stmt(*t)),
            match e {
                Some(e) => Some(Box::new(spec_fold_stmt(*e))),
                None => None,
            },
        ),
        StmtModel::Loop(b) => StmtModel::Loop(Box::new(spec_fold_stmt(*b))),
        StmtModel::Function(n, ps, b, p) => StmtModel::Function(n, ps, Box::new(spec_fold_stmt(*b)), p),
        _ => s,
    }
}

fn expr_to_lit(e: &NotPythonExpr) -> (r: Option<Lit>)
    ensures
        match r {
            Some(l) => spec_expr_to_lit(e.model()) == Some(l.model()),
            None => spec_expr_to_lit(e.model()) is None,
        },
{
    match e {
        NotPythonExpr::Int(i) => Some(Lit::Int(*i)),
        NotPythonExpr::Boolean(b) => Some(Lit::Bool(*b)),
        NotPythonExpr::String(p) => Some(Lit::Str(p.0.clone())),
        _ => None,
    }
}

fn lit_to_expr(l: Lit) -> (e: NotPythonExpr)
    ensures
        e.model() == spec_lit_to_expr(l.model()),
{
    match l {
        Lit::Int(i) => NotPythonExpr::Int(i),
        Lit::Bool(b) => NotPythonExpr::Boolean(b),
        Lit::Str(s) => {
            let h = HashedString::new(s.as_str());
            NotPythonExpr::String((s, h))
        },
    }
}

pub fn fold_binary(lhs: &Lit, rhs: &Lit, op: BinaryOp) -> (r: Option<Lit>)
    ensures
        match r {
            Some(x) => spec_fold_binary(lhs.model(), rhs.model(), op) == Some(x.model()),
            None => spec_fold_binary(lhs.model(), rhs.model(), op) is None,
        },
{
    match op {
        BinaryOp::Add => match (lhs, rhs) {
            (Lit::Int(a), Lit::Int(b)) => match a.checked_add(*b) {
                Some(x) => Some(Lit::Int(x)),
                None => None,
            },
            (Lit::Str(a), Lit::Str(b)) => Some(Lit::Str(a.clone().concat(b.as_str()))),
            _ => None,
        },
        BinaryOp::Sub => match (lhs, rhs) {
            (Lit::Int(a), Lit::Int(b)) => match a.checked_sub(*b) {
                Some(x) => Some(Lit::Int(x)),
                None => None,
            },
            _ => None,
        },
        BinaryOp::Mul => match (lhs, rhs) {
            (Lit::Int(a), Lit::Int(b)) => match a.checked_mul(*b) {
                Some(x) => Some(Lit::Int(x)),
                None => None,
            },
            _ => None,
        },
        BinaryOp::Div => match (lhs, rhs) {
            (Lit::Int(a), Lit::Int(b)) => if *b == 0 {
                None
            } else {
                match a.checked_div(*b) {
                    Some(x) => Some(Lit::Int(x)),
                    None => None,
                }
            },
            _ => None,
        },
        BinaryOp::Mod => match (lhs, rhs) {
            (Lit::Int(a), Lit::Int(b)) => if *b == 0 {
                None
            } else {
                match a.checked_rem(*b) {
                    Some(x) => Some(Lit::Int(x)),
                    None => None,
                }
            },
            _ => None,
        },
        BinaryOp::And => match (lhs, rhs) {
            (Lit::Bool(a), Lit::Bool(b)) => Some(Lit::Bool(*a && *b)),
            _ => None,
        },
        BinaryOp::Or => match (lhs, rhs) {
            (Lit::Bool(a), Lit::Bool(b)) => Some(Lit::Bool(*a || *b)),
            _ => None,
        },
        BinaryOp::Equal => match (lhs, rhs) {
            (Lit::Int(a), Lit::Int(b)) => Some(Lit::Bool(*a == *b)),
            (Lit::Bool(a), Lit::Bool(b)) => Some(Lit::Bool(*a == *b)),
            (Lit::Str(a), Lit::Str(b)) => Some(Lit::Bool(*a == *b)),
            _ => None,
        },
        BinaryOp::NotEqual => match (lhs, rhs) {
            (Lit::Int(a), Lit::Int(b)) => Some(Lit::Bool(*a != *b)),
            (Lit::Bool(a), Lit::Bool(b)) => Some(Lit::Bool(*a != *b)),
            (Lit::Str(a), Lit::Str(b)) => Some(Lit::Bool(!(*a == *b))),
            _ => None,
        },
        BinaryOp::Greater => match (lhs, rhs) {
            (Lit::Int(a), Lit::Int(b)) => Some(Lit::Bool(*a > *b)),
            _ => None,
        },
        BinaryOp::Less => match (lhs, rhs) {
            (Lit::Int(a), Lit::Int(b)) => Some(Lit::Bool(*a < *b)),
            _ => None,
        },
        BinaryOp::GreaterEqual => match (lhs, rhs) {
            (Lit::Int(a), Lit::Int(b)) => Some(Lit::Bool(*a >= *b)),
            _ => None,
        },
        BinaryOp::LessEqual => match (lhs, rhs) {
            (Lit::Int(a), Lit::Int(b)) => Some(Lit::Bool(*a <= *b)),
            _ => None,
        },
        BinaryOp::In => None,
    }
}

fn fold_unary(val: &Lit, op: UnaryOp) -> (r: Option<Lit>)
    ensures
        match r {
            Some(x) => spec_fold_unary(val.model(), op) == Some(x.model()),
            None => spec_fold_unary(val.model(), op) is None,
        },
{
    match op {
        UnaryOp::Neg => match val {
            Lit::Int(i) => if *i == i64::MIN {
                None
            } else {
                Some(Lit::Int(-*i))
            },
            _ => None,
        },
        UnaryOp::Not => match val {
            Lit::Bool(b) => Some(Lit::Bool(!*b)),
            _ => None,
        },
    }
}

fn copy_var(v: &NotPythonExprVariable) -> (r: NotPythonExprVariable)
    ensures
        r.name@ == v.name@,
{
    NotPythonExprVariable { name: v.name.clone() }
}

/// Folds every foldable operation of an expression, innermost first.
pub fn fold_expr(e: &NotPythonExpr) -> (r: NotPythonExpr)
    ensures
        r.model() == spec_fold_expr(e.model()),
    decreases e,
{
    match e {
        NotPythonExpr::BinaryOp(op, l, r) => {
            let fl = fold_expr(l);
            let fr = fold_expr(r);
            let folded = match (expr_to_lit(&fl), expr_to_lit(&fr)) {
                (Some(ll), Some(rl)) => fold_binary(&ll, &rl, *op),
                _ => None,
            };
            match folded {
                Some(x) => lit_to_expr(x),
                None => NotPythonExpr::BinaryOp(*op, Box::new(fl), Box::new(fr)),
            }
        },
        NotPythonExpr::UnaryOp(op, v) => {
            let fv = fold_expr(v);
            let folded = match expr_to_lit(&fv) {
                Some(l) => fold_unary(&l, *op),
                None => None,
            };
            match folded {
                Some(x) => lit_to_expr(x),
                None => NotPythonExpr::UnaryOp(*op, Box::new(fv)),
            }
        },
        NotPythonExpr::Index(v, i) => NotPythonExpr::Index(copy_var(v), Box::new(fold_expr(i))),
        NotPythonExpr::List(es) => {
            let out = fold_expr_vec(es);
            let r = NotPythonExpr::List(out);
            assert(r.model()->List_0 =~= exprs_model(out@));
            assert(e.model()->List_0 =~= exprs_model(es@));
            assert(spec_fold_expr(e.model())->List_0 =~= Seq::new(
                es@.len(),
                |j: int| spec_fold_expr(es@[j].model()),
            ));
            assert(r.model()->List_0 =~= spec_fold_expr(e.model())->List_0);
            r
        },
        NotPythonExpr::Dict(ps) => {
            let out = fold_pairs_vec(ps);
            let r = NotPythonExpr::Dict(out);
            assert(r.model()->Dict_0 =~= pairs_model(out@));
            assert(e.model()->Dict_0 =~= pairs_model(ps@));
            assert(spec_fold_expr(e.model())->Dict_0 =~= Seq::new(
                ps@.len(),
                |j: int| (spec_fold_expr(ps@[j].0.model()), spec_fold_expr(ps@[j].1.model())),
            ));
            assert(r.model()->Dict_0 =~= spec_fold_expr(e.model())->Dict_0);
            r
        },
        NotPythonExpr::Call(name, args) => {
            let out = fold_expr_vec(args);
            let r = NotPythonExpr::Call(name.clone(), out);
            assert(r.model()->Call_1 =~= exprs_model(out@));
            assert(e.model()->Call_1 =~= exprs_model(args@));
            assert(spec_fold_expr(e.model())->Call_1 =~= Seq::new(
                args@.len(),
                |j: int| spec_fold_expr(args@[j].model()),
            ));
            assert(r.model()->Call_1 =~= spec_fold_expr(e.model())->Call_1);
            r
        },
        NotPythonExpr::Int(i) => NotPythonExpr::Int(*i),
        NotPythonExpr::Float(s) => NotPythonExpr::Float(s.clone()),
        NotPythonExpr::String(p) => NotPythonExpr::String((p.0.clone(), p.1)),
        NotPythonExpr::Boolean(b) => NotPythonExpr::Boolean(*b),
        NotPythonExpr::NoneValue => NotPythonExpr::NoneValue,
        NotPythonExpr::Variable(v) => NotPythonExpr::Variable(copy_var(v)),
    }
}

fn fold_expr_vec(es: &Vec<NotPythonExpr>) -> (out: Vec<NotPythonExpr>)
    ensures
        exprs_model(out@) == Seq::new(es@.len(), |j: int| spec_fold_expr(es@[j].model())),
    decreases es, 0nat,
{
    let mut out: Vec<NotPythonExpr> = Vec::new();
    let mut i: usize = 0;
    while i < es.len()
        invariant
            0 <= i <= es@.len(),
            exprs_model(out@) =~= Seq::new(i as nat, |j: int| spec_fold_expr(es@[j].model())),
        decreases es@.len() - i,
    {
        let f = fold_expr(&es[i]);
        push_expr(&mut out, f);
        i = i + 1;
    }
    out
}


fn fold_pairs_vec(ps: &Vec<(NotPythonExpr, NotPythonExpr)>) -> (out: Vec<(NotPythonExpr, NotPythonExpr)>)
    ensures
        pairs_model(out@) == Seq::new(
            ps@.len(),
            |j: int| (spec_fold_expr(ps@[j].0.model()), spec_fold_expr(ps@[j].1.model())),
        ),
    decreases ps, 0nat,
{
    let mut out: Vec<(NotPythonExpr, NotPythonExpr)> = Vec::new();
    let mut i: usize = 0;
    while i < ps.len()
        invariant
            0 <= i <= ps@.len(),
            pairs_model(out@) =~= Seq::new(
                i as nat,
                |j: int| (spec_fold_expr(ps@[j].0.model()), spec_fold_expr(ps@[j].1.model())),
            ),
        decreases ps@.len() - i,
    {
        proof {
            assert(decreases_to!(ps@[i as int] => ps@[i as int].0));
            assert(decreases_to!(ps@[i as int] => ps@[i as int].1));
            assert(decreases_to!(ps@ => ps@[i as int]));
            assert(decreases_to!(ps => ps@));
        }
        let k = fold_expr(&ps[i].0);
        let v = fold_expr(&ps[i].1);
        push_pair(&mut out, k, v);
        i = i + 1;
    }
    out
}

fn copy_params(ps: &Vec<NotPythonExprVariable>) -> (out: Vec<NotPythonExprVariable>)
    ensures
        out@.len() == ps@.len(),
        forall|j: int| 0 <= j < ps@.len() ==> #[trigger] out@[j].name@ == ps@[j].name@,
{
    let mut out: Vec<NotPythonExprVariable> = Vec::new();
    let mut i: usize = 0;
    while i < ps.len()
        invariant
            0 <= i <= ps@.len(),
            out@.len() == i,
            forall|j: int| 0 <= j < i ==> #[trigger] out@[j].name@ == ps@[j].name@,
        decreases ps@.len() - i,
    {
        out.push(copy_var(&ps[i]));
        i = i + 1;
    }
    out
}

fn fold_stmt_vec(ss: &Vec<NotPythonStmt>) -> (out: Vec<NotPythonStmt>)
    ensures
        stmts_model(out@) == Seq::new(ss@.len(), |j: int| spec_fold_stmt(ss@[j].model())),
    decreases ss, 0nat,
{
    let mut out: Vec<NotPythonStmt> = Vec::new();
    let mut i: usize = 0;
    while i < ss.len()
        invariant
            0 <= i <= ss@.len(),
            stmts_model(out@) =~= Seq::new(i as nat, |j: int| spec_fold_stmt(ss@[j].model())),
        decreases ss@.len() - i,
    {
        let f = fold_stmt_copy(&ss[i]);
        push_stmt(&mut out, f);
        i = i + 1;
    }
    out
}

/// Folds every expression of a statement, returning the folded copy.
fn fold_stmt_copy(s: &NotPythonStmt) -> (r: NotPythonStmt)
    ensures
        r.model() == spec_fold_stmt(s.model()),
    decreases s,
{
    match s {
        NotPythonStmt::Block(ss) => {
            let out = fold_stmt_vec(ss);
            let r = NotPythonStmt::Block(out);
            assert(r.model()->Block_0 =~= stmts_model(out@));
            assert(s.model()->Block_0 =~= stmts_model(ss@));
            assert(spec_fold_stmt(s.model())->Block_0 =~= Seq::new(
                ss@.len(),
                |j: int| spec_fold_stmt(ss@[j].model()),
            ));
            assert(r.model()->Block_0 =~= spec_fold_stmt(s.model())->Block_0);
            r
        },
        NotPythonStmt::Call(name, args) => {
            let out = fold_expr_vec(args);
            let r = NotPythonStmt::Call(name.clone(), out);
            assert(r.model()->Call_1 =~= spec_fold_stmt(s.model())->Call_1);
            r
        },
        NotPythonStmt::Decl(v, e) => NotPythonStmt::Decl(copy_var(v), fold_expr(e)),
        NotPythonStmt::Assign(v, e) => NotPythonStmt::Assign(copy_var(v), fold_expr(e)),
        NotPythonStmt::Return(e) => match e {
            Some(e) => NotPythonStmt::Return(Some(fold_expr(e))),
            None => NotPythonStmt::Return(None),
        },
        NotPythonStmt::If { condition, then, else_ } => {
            let c = fold_expr(condition);
            let t = fold_stmt_copy(then);
            let e = match else_ {
                Some(e) => Some(Box::new(fold_stmt_copy(e))),
                None => None,
            };
            NotPythonStmt::If { condition: c, then: Box::new(t), else_: e }
        },
        NotPythonStmt::Loop(b) => NotPythonStmt::Loop(Box::new(fold_stmt_copy(b))),
        NotPythonStmt::Function { name, params, body, is_pure } => {
            let ps = copy_params(params);
            let r = NotPythonStmt::Function {
                name: name.clone(),
                params: ps,
                body: Box::new(fold_stmt_copy(body)),
                is_pure: *is_pure,
            };
            assert(r.model()->Function_1 =~= spec_fold_stmt(s.model())->Function_1);
            r
        },
        NotPythonStmt::Pass => NotPythonStmt::Pass,
        NotPythonStmt::Break => NotPythonStmt::Break,
        NotPythonStmt::Continue => NotPythonStmt::Continue,
    }
}

/// Folds, in place, every constant operation in the expressions of a statement.
pub fn fold_stmt(stmt: &mut NotPythonStmt)
    ensures
        final(stmt).model() == spec_fold_stmt(old(stmt).model()),
{
    let folded = fold_stmt_copy(stmt);
    *stmt = folded;
}

} // verus!
