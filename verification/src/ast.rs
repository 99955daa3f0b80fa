use vstd::prelude::*;
use crate::hashed_string::HashedString;

verus! {

/// Binary operators of the language.
#[derive(Clone, Copy, Debug, PartialEq, Eq, Structural)]
pub enum BinaryOp {
    Add,
    Sub,
    Mul,
    Div,
    Mod,
    And,
    Or,
    Equal,
    NotEqual,
    Greater,
    Less,
    GreaterEqual,
    LessEqual,
    In,
}

/// Unary operators of the language.
#[derive(Clone, Copy, Debug, PartialEq, Eq, Structural)]
pub enum UnaryOp {
    Neg,
    Not,
}

/// A named variable as it occurs in a program.
#[derive(Debug, PartialEq)]
pub struct NotPythonExprVariable {
    pub name: String,
}

/// Expressions of the language.
#[derive(Debug, PartialEq)]
pub enum NotPythonExpr {
    Int(i64),
    /// A floating-point literal, kept as the text of its digits.
    Float(String),
    /// A string literal: its text and its hashed form.
    String((String, HashedString)),
    Boolean(bool),
    NoneValue,
    Variable(NotPythonExprVariable),
    List(Vec<NotPythonExpr>),
    Dict(Vec<(NotPythonExpr, NotPythonExpr)>),
    BinaryOp(BinaryOp, Box<NotPythonExpr>, Box<NotPythonExpr>),
    UnaryOp(UnaryOp, Box<NotPythonExpr>),
    Call(String, Vec<NotPythonExpr>),
    Index(NotPythonExprVariable, Box<NotPythonExpr>),
}

/// Statements of the language.
#[derive(Debug, PartialEq)]
pub enum NotPythonStmt {
    Call(String, Vec<NotPythonExpr>),
    Pass,
    Block(Vec<NotPythonStmt>),
    Decl(NotPythonExprVariable, NotPythonExpr),
    Assign(NotPythonExprVariable, NotPythonExpr),
    If { condition: NotPythonExpr, then: Box<NotPythonStmt>, else_: Option<Box<NotPythonStmt>> },
    Loop(Box<NotPythonStmt>),
    Return(Option<NotPythonExpr>),
    Break,
    Continue,
    Function {
        name: String,
        params: Vec<NotPythonExprVariable>,
        body: Box<NotPythonStmt>,
        is_pure: bool,
    },
}

/// A parsed program: the block of its top-level statements.
#[derive(Debug, PartialEq)]
pub struct NotPythonProgram {
    pub statement: NotPythonStmt,
}

/// The mathematical form of an expression: strings become character sequences
/// and vectors become sequences.
pub enum ExprModel {
    Int(i64),
    Float(Seq<char>),
    Str(Seq<char>, u128),
    Boolean(bool),
    NoneValue,
    Variable(Seq<char>),
    List(Seq<ExprModel>),
    Dict(Seq<(ExprModel, ExprModel)>),
    BinaryOp(BinaryOp, Box<ExprModel>, Box<ExprModel>),
    UnaryOp(UnaryOp, Box<ExprModel>),
    Call(Seq<char>, Seq<ExprModel>),
    Index(Seq<char>, Box<ExprModel>),
}

/// The mathematical form of a statement.
pub enum StmtModel {
    Call(Seq<char>, Seq<ExprModel>),
    Pass,
    Block(Seq<StmtModel>),
    Decl(Seq<char>, ExprModel),
    Assign(Seq<char>, ExprModel),
    If(ExprModel, Box<StmtModel>, Option<Box<StmtModel>>),
    Loop(Box<StmtModel>),
    Return(Option<ExprModel>),
    Break,
    Continue,
    Function(Seq<char>, Seq<Seq<char>>, Box<StmtModel>, bool),
}

impl NotPythonExpr {
    pub open spec fn model(&self) -> ExprModel
        decreases self,
    {
        match self {
            NotPythonExpr::Int(i) => ExprModel::Int(*i),
            NotPythonExpr::Float(s) => ExprModel::Float(s@),
            NotPythonExpr::String(p) => ExprModel::Str(p.0@, p.1.length),
            NotPythonExpr::Boolean(b) => ExprModel::Boolean(*b),
            NotPythonExpr::NoneValue => ExprModel::NoneValue,
            NotPythonExpr::Variable(v) => ExprModel::Variable(v.name@),
            NotPythonExpr::List(v) => ExprModel::List(
                Seq::new(
                    v.len() as nat,
                    |i: int|
                        if 0 <= i < v.len() {
                            v@[i].model()
                        } else {
                            ExprModel::NoneValue
                        },
                ),
            ),
            NotPythonExpr::Dict(v) => ExprModel::Dict(
                Seq::new(
                    v.len() as nat,
                    |i: int|
                        if 0 <= i < v.len() {
                            (v@[i].0.model(), v@[i].1.model())
                        } else {
                            (ExprModel::NoneValue, ExprModel::NoneValue)
                        },
                ),
            ),
            NotPythonExpr::BinaryOp(op, l, r) => ExprModel::BinaryOp(
                *op,
                Box::new(l.model()),
                Box::new(r.model()),
            ),
            NotPythonExpr::UnaryOp(op, e) => ExprModel::UnaryOp(*op, Box::new(e.model())),
            NotPythonExpr::Call(name, args) => ExprModel::Call(
                name@,
                Seq::new(
                    args.len() as nat,
                    |i: int|
                        if 0 <= i < args.len() {
                            args@[i].model()
                        } else {
                            ExprModel::NoneValue
                        },
                ),
            ),
            NotPythonExpr::Index(v, e) => ExprModel::Index(v.name@, Box::new(e.model())),
        }
    }
}

/// The models of a sequence of expressions.
pub open spec fn exprs_model(s: Seq<NotPythonExpr>) -> Seq<ExprModel> {
    Seq::new(
        s.len(),
        |i: int|
            if 0 <= i < s.len() {
                s[i].model()
            } else {
                ExprModel::NoneValue
            },
    )
}

/// The models of a sequence of key-value pairs of expressions.
pub open spec fn pairs_model(s: Seq<(NotPythonExpr, NotPythonExpr)>) -> Seq<(ExprModel, ExprModel)> {
    Seq::new(
        s.len(),
        |i: int|
            if 0 <= i < s.len() {
                (s[i].0.model(), s[i].1.model())
            } else {
                (ExprModel::NoneValue, ExprModel::NoneValue)
            },
    )
}

/// The names of a sequence of variables.
pub open spec fn names_model(s: Seq<NotPythonExprVariable>) -> Seq<Seq<char>> {
    Seq::new(s.len(), |i: int| s[i].name@)
}

impl NotPythonStmt {
    pub open spec fn model(&self) -> StmtModel
        decreases self,
    {
        match self {
            NotPythonStmt::Call(name, args) => StmtModel::Call(
                name@,
                Seq::new(
                    args.len() as nat,
                    |i: int|
                        if 0 <= i < args.len() {
                            args@[i].model()
                        } else {
                            ExprModel::NoneValue
                        },
                ),
            ),
            NotPythonStmt::Pass => StmtModel::Pass,
            NotPythonStmt::Block(v) => StmtModel::Block(
                Seq::new(
                    v.len() as nat,
                    |i: int|
                        if 0 <= i < v.len() {
                            v@[i].model()
                        } else {
                            StmtModel::Pass
                        },
                ),
            ),
            NotPythonStmt::Decl(v, e) => StmtModel::Decl(v.name@, e.model()),
            NotPythonStmt::Assign(v, e) => StmtModel::Assign(v.name@, e.model()),
            NotPythonStmt::If { condition, then, else_ } => StmtModel::If(
                condition.model(),
                Box::new(then.model()),
                match else_ {
                    Some(e) => Some(Box::new(e.model())),
                    None => None,
                },
            ),
            NotPythonStmt::Loop(b) => StmtModel::Loop(Box::new(b.model())),
            NotPythonStmt::Return(e) => StmtModel::Return(
                match e {
                    Some(e) => Some(e.model()),
                    None => None,
                },
            ),
            NotPythonStmt::Break => StmtModel::Break,
            NotPythonStmt::Continue => StmtModel::Continue,
            NotPythonStmt::Function { name, params, body, is_pure } => StmtModel::Function(
                name@,
                Seq::new(params.len() as nat, |i: int| params@[i].name@),
                Box::new(body.model()),
                *is_pure,
            ),
        }
    }
}

/// The models of a sequence of statements.
pub open spec fn stmts_model(s: Seq<NotPythonStmt>) -> Seq<StmtModel> {
    Seq::new(
        s.len(),
        |i: int|
            if 0 <= i < s.len() {
                s[i].model()
            } else {
                StmtModel::Pass
            },
    )
}

impl NotPythonProgram {
    pub open spec fn model(&self) -> StmtModel {
        self.statement.model()
    }
}

/// Appends an expression to a vector, extending the models by its model.
pub fn push_expr(v: &mut Vec<NotPythonExpr>, e: NotPythonExpr)
    ensures
        exprs_model(final(v)@) == exprs_model(old(v)@).push(e.model()),
        final(v)@ == old(v)@.push(e),
{
    let ghost m = e.model();
    v.push(e);
    assert(exprs_model(v@) =~= exprs_model(old(v)@).push(m));
}

/// Appends a key-value pair to a vector, extending the models by its model.
pub fn push_pair(v: &mut Vec<(NotPythonExpr, NotPythonExpr)>, k: NotPythonExpr, e: NotPythonExpr)
    ensures
        pairs_model(final(v)@) == pairs_model(old(v)@).push((k.model(), e.model())),
{
    let ghost m = (k.model(), e.model());
    v.push((k, e));
    assert(pairs_model(v@) =~= pairs_model(old(v)@).push(m));
}

/// Appends a statement to a vector, extending the models by its model.
pub fn push_stmt(v: &mut Vec<NotPythonStmt>, s: NotPythonStmt)
    ensures
        stmts_model(final(v)@) == stmts_model(old(v)@).push(s.model()),
{
    let ghost m = s.model();
    v.push(s);
    assert(stmts_model(v@) =~= stmts_model(old(v)@).push(m));
}

/// Appends a variable to a vector, extending the names by its name.
pub fn push_var(v: &mut Vec<NotPythonExprVariable>, x: NotPythonExprVariable)
    ensures
        names_model(final(v)@) == names_model(old(v)@).push(x.name@),
{
    let ghost m = x.name@;
    v.push(x);
    assert(names_model(v@) =~= names_model(old(v)@).push(m));
}

} // verus!
