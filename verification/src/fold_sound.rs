//! Constant folding does not change what an expression evaluates to: every operation
//! that folding replaces by a literal evaluates to the value of that literal, and an
//! expression evaluates, with the same effects, to what its folded form evaluates to.
//! Strings are compared at run time by the length of their UTF-8 encoding, and by their
//! characters when folded; the laws leave out the comparisons where the two disagree.
use vstd::prelude::*;
use crate::ast::{BinaryOp, ExprModel, UnaryOp};
use crate::compile::{CompilingMetadata, StateModel, run_expr, run_exprs, run_pairs};
use crate::fold::{
    LitModel, spec_expr_to_lit, spec_fold_binary, spec_fold_expr, spec_fold_exprs, spec_fold_node, spec_fold_unary,
    spec_lit_to_expr,
};
use crate::hashed_string::{byte_len, lemma_encode_utf8_concat};
use crate::values::{ValueModel, spec_binary_op, spec_unary_op};
use vstd::utf8::encode_utf8;

verus! {

/// The value that a literal evaluates to.
pub open spec fn lit_value(l: LitModel) -> ValueModel {
    match l {
        LitModel::Int(i) => ValueModel::Int(i),
        LitModel::Bool(b) => ValueModel::Bool(b),
        LitModel::Str(s) => ValueModel::Str(byte_len(s)),
    }
}

/// The operation is one that folding and evaluation agree on: it is no comparison of
/// two different strings whose encodings have the same length, and no joining of two
/// strings too long together to be held in memory.
pub open spec fn agreeing_operands(l1: LitModel, l2: LitModel, op: BinaryOp) -> bool {
    match (l1, l2) {
        (LitModel::Str(a), LitModel::Str(b)) => {
            &&& (op == BinaryOp::Equal || op == BinaryOp::NotEqual) ==> (a == b <==> byte_len(a) == byte_len(b))
            &&& op == BinaryOp::Add ==> encode_utf8(a + b).len() <= usize::MAX
        },
        _ => true,
    }
}

/// Folding a unary operation on a literal gives the value that evaluating it gives.
pub proof fn lemma_fold_unary_agrees(l: LitModel, op: UnaryOp)
    requires
        spec_fold_unary(l, op) is Some,
    ensures
        spec_unary_op(lit_value(l), op) == Ok::<ValueModel, Seq<char>>(lit_value(spec_fold_unary(l, op)->0)),
{
}

/// Folding a binary operation on two literals gives the value that evaluating it gives,
/// where folding and evaluation agree on the operands.
pub proof fn lemma_fold_binary_agrees(l1: LitModel, l2: LitModel, op: BinaryOp)
    requires
        spec_fold_binary(l1, l2, op) is Some,
        agreeing_operands(l1, l2, op),
    ensures
        spec_binary_op(lit_value(l1), lit_value(l2), op) == Ok::<ValueModel, Seq<char>>(
            lit_value(spec_fold_binary(l1, l2, op)->0),
        ),
{
    if let (LitModel::Str(a), LitModel::Str(b)) = (l1, l2) {
        if op == BinaryOp::Add {
            lemma_encode_utf8_concat(a, b);
            assert(encode_utf8(a + b).len() == encode_utf8(a).len() + encode_utf8(b).len());
        }
    }
}

/// An expression whose folding agrees with its evaluation: its string literals record
/// the length of their encoding, as the parser gives them, and every operation on two
/// literals that folding meets has operands on which folding and evaluation agree.
pub open spec fn foldable(e: ExprModel) -> bool
    decreases e,
{
    match e {
        ExprModel::Str(s, h) => h == byte_len(s),
        ExprModel::List(es) => forall|i: int| 0 <= i < es.len() ==> foldable(#[trigger] es[i]),
        ExprModel::Dict(ps) => forall|i: int|
            0 <= i < ps.len() ==> foldable((#[trigger] ps[i]).0) && foldable(ps[i].1),
        ExprModel::BinaryOp(op, l, r) => {
            &&& foldable(*l)
            &&& foldable(*r)
            &&& match (spec_expr_to_lit(spec_fold_expr(*l)), spec_expr_to_lit(spec_fold_expr(*r))) {
                (Some(a), Some(b)) => agreeing_operands(a, b, op),
                _ => true,
            }
        },
        ExprModel::UnaryOp(_, v) => foldable(*v),
        ExprModel::Call(_, args) => forall|i: int| 0 <= i < args.len() ==> foldable(#[trigger] args[i]),
        ExprModel::Index(_, i) => foldable(*i),
        _ => true,
    }
}

/// A literal evaluates to its value, where a string literal records its length.
pub(crate) proof fn lemma_literal_evaluates<M: CompilingMetadata>(e: ExprModel, st: StateModel<M::DiffModel>, m: M::Model)
    requires
        spec_expr_to_lit(e) is Some,
        e matches ExprModel::Str(s, h) ==> h == byte_len(s),
    ensures
        run_expr::<M>(e, st, m).st == st,
        run_expr::<M>(e, st, m).meta == m,
        run_expr::<M>(e, st, m).res == Ok::<ValueModel, Seq<char>>(lit_value(spec_expr_to_lit(e)->0)),
{
}

/// Where the folded form of a foldable expression is a string literal, it records the
/// length of its encoding.
pub(crate) proof fn lemma_folded_literal_consistent(e: ExprModel)
    requires
        foldable(e),
    ensures
        spec_fold_expr(e) matches ExprModel::Str(s, h) ==> h == byte_len(s),
{
}

/// Folding an expression does not change what evaluating it gives: the same state, the
/// same metadata and the same result, in every state.
pub proof fn lemma_fold_expr_preserves<M: CompilingMetadata>(e: ExprModel, st: StateModel<M::DiffModel>, m: M::Model)
    requires
        foldable(e),
    ensures
        run_expr::<M>(spec_fold_expr(e), st, m) == run_expr::<M>(e, st, m),
    decreases e, 0nat,
{
    match e {
        ExprModel::BinaryOp(op, l, r) => {
            let fl = spec_fold_expr(*l);
            let fr = spec_fold_expr(*r);
            lemma_fold_expr_preserves::<M>(*l, st, m);
            let o1 = run_expr::<M>(*l, st, m);
            if o1.res is Ok {
                lemma_fold_expr_preserves::<M>(*r, o1.st, o1.meta);
            }
            lemma_folded_literal_consistent(*l);
            lemma_folded_literal_consistent(*r);
            let folded = ExprModel::BinaryOp(op, Box::new(fl), Box::new(fr));
            assert(spec_fold_expr(e) == spec_fold_node(folded));
            match (spec_expr_to_lit(fl), spec_expr_to_lit(fr)) {
                (Some(a), Some(b)) => {
                    lemma_literal_evaluates::<M>(fl, st, m);
                    lemma_literal_evaluates::<M>(fr, st, m);
                    if spec_fold_binary(a, b, op) is Some {
                        let x = spec_fold_binary(a, b, op)->0;
                        lemma_fold_binary_agrees(a, b, op);
                        lemma_literal_evaluates::<M>(spec_lit_to_expr(x), st, m);
                        assert(spec_fold_expr(e) == spec_lit_to_expr(x));
                        assert(run_expr::<M>(e, st, m).res == spec_binary_op(lit_value(a), lit_value(b), op));
                    } else {
                        assert(spec_fold_expr(e) == folded);
                        assert(run_expr::<M>(folded, st, m) == run_expr::<M>(e, st, m));
                    }
                },
                _ => {
                    assert(spec_fold_expr(e) == folded);
                    assert(run_expr::<M>(folded, st, m) == run_expr::<M>(e, st, m));
                },
            }
        },
        ExprModel::UnaryOp(op, v) => {
            let fv = spec_fold_expr(*v);
            lemma_fold_expr_preserves::<M>(*v, st, m);
            lemma_folded_literal_consistent(*v);
            if let Some(a) = spec_expr_to_lit(fv) {
                lemma_literal_evaluates::<M>(fv, st, m);
                if spec_fold_unary(a, op) is Some {
                    let x = spec_fold_unary(a, op)->0;
                    lemma_fold_unary_agrees(a, op);
                    lemma_literal_evaluates::<M>(spec_lit_to_expr(x), st, m);
                }
            }
        },
        ExprModel::Index(name, i) => {
            lemma_fold_expr_preserves::<M>(*i, st, m);
        },
        ExprModel::List(es) => {
            let fes = spec_fold_expr(e)->List_0;
            assert forall|i: int| 0 <= i < es.len() implies fes[i] == spec_fold_expr(es[i]) by {}
            assert(fes =~= spec_fold_exprs(es));
            lemma_fold_exprs_preserves::<M>(es, 0, Seq::empty(), st, m);
        },
        ExprModel::Dict(ps) => {
            let fps = spec_fold_expr(e)->Dict_0;
            assert forall|j: int| 0 <= j < ps.len() implies fps[j] == (spec_fold_expr(ps[j].0), spec_fold_expr(ps[j].1)) by {}
            lemma_fold_pairs_preserves::<M>(ps, fps, 0, Seq::empty(), st, m);
        },
        ExprModel::Call(name, args) => {
            let fargs = spec_fold_expr(e)->Call_1;
            assert forall|i: int| 0 <= i < args.len() implies fargs[i] == spec_fold_expr(args[i]) by {}
            assert(fargs =~= spec_fold_exprs(args));
            lemma_fold_exprs_preserves::<M>(args, 0, Seq::empty(), st, m);
        },
        _ => {},
    }
}

/// Folding each expression of a list does not change what evaluating the list gives.
pub proof fn lemma_fold_exprs_preserves<M: CompilingMetadata>(
    es: Seq<ExprModel>,
    i: nat,
    acc: Seq<ValueModel>,
    st: StateModel<M::DiffModel>,
    m: M::Model,
)
    requires
        forall|j: int| 0 <= j < es.len() ==> foldable(#[trigger] es[j]),
    ensures
        run_exprs::<M>(spec_fold_exprs(es), i, acc, st, m) == run_exprs::<M>(es, i, acc, st, m),
    decreases es, es.len() - i,
{
    let fes = spec_fold_exprs(es);
    if i < es.len() {
        assert(fes[i as int] == spec_fold_expr(es[i as int]));
        assert(decreases_to!(es => es[i as int]));
        lemma_fold_expr_preserves::<M>(es[i as int], st, m);
        let o = run_expr::<M>(es[i as int], st, m);
        if o.res is Ok {
            lemma_fold_exprs_preserves::<M>(es, i + 1, acc.push(o.res->Ok_0), o.st, o.meta);
        }
    }
}

/// Folding both sides of each entry of a dictionary does not change what evaluating the
/// dictionary gives.
pub proof fn lemma_fold_pairs_preserves<M: CompilingMetadata>(
    ps: Seq<(ExprModel, ExprModel)>,
    fps: Seq<(ExprModel, ExprModel)>,
    i: nat,
    acc: Seq<(crate::values::HashableProgramValue, ValueModel)>,
    st: StateModel<M::DiffModel>,
    m: M::Model,
)
    requires
        forall|j: int| 0 <= j < ps.len() ==> foldable((#[trigger] ps[j]).0) && foldable(ps[j].1),
        fps.len() == ps.len(),
        forall|j: int| 0 <= j < ps.len() ==> (#[trigger] fps[j]) == (spec_fold_expr(ps[j].0), spec_fold_expr(ps[j].1)),
    ensures
        run_pairs::<M>(fps, i, acc, st, m) == run_pairs::<M>(ps, i, acc, st, m),
    decreases ps, ps.len() - i,
{
    if i < ps.len() {
        let p = ps[i as int];
        assert(fps[i as int] == (spec_fold_expr(p.0), spec_fold_expr(p.1)));
        assert(decreases_to!(ps => ps[i as int]));
        assert(decreases_to!(ps[i as int] => ps[i as int].0));
        assert(decreases_to!(ps[i as int] => ps[i as int].1));
        lemma_fold_expr_preserves::<M>(p.0, st, m);
        let ok = run_expr::<M>(p.0, st, m);
        if ok.res is Ok {
            lemma_fold_expr_preserves::<M>(p.1, ok.st, ok.meta);
            let ov = run_expr::<M>(p.1, ok.st, ok.meta);
            if ov.res is Ok {
                if let Some(h) = crate::values::hashable_of(ok.res->Ok_0) {
                    lemma_fold_pairs_preserves::<M>(
                        ps,
                        fps,
                        i + 1,
                        crate::values::dict_insert(acc, h, ov.res->Ok_0),
                        ov.st,
                        ov.meta,
                    );
                }
            }
        }
    }
}

} // verus!
