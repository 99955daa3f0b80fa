//! Constant folding does not change what a program does: a folded program reports the
//! same instructions to the metadata and ends with the same result as the program, in a
//! state that differs only in that the functions it declared are kept folded.
use vstd::prelude::*;
use crate::ast::{ExprModel, StmtModel};
use crate::compile::{
    CalleeModel, CompilingMetadata, FrameModel, Outcome, StateModel, assign_var, assoc_insert, decl_fn, decl_var,
    find_index, fn_frame, initial_state, key_at, lemma_key_at_unique, lookup_fn, lookup_var, run_block, run_call,
    run_expr, run_exprs, run_loop, run_pairs, run_program, run_stmt, var_frame,
};
use crate::fold::{
    spec_expr_to_lit, spec_fold_binary, spec_fold_expr, spec_fold_exprs, spec_fold_node, spec_fold_stmt,
    spec_fold_unary, spec_lit_to_expr,
};
use crate::fold_sound::{
    foldable, lemma_fold_binary_agrees, lemma_fold_unary_agrees, lemma_folded_literal_consistent,
    lemma_literal_evaluates, lit_value,
};
use crate::values::spec_binary_op;

verus! {

/// A table of functions with each statement folded.
pub open spec fn fold_funcs(fs: Seq<(Seq<char>, StmtModel)>) -> Seq<(Seq<char>, StmtModel)> {
    Seq::new(fs.len(), |i: int| (fs[i].0, spec_fold_stmt(fs[i].1)))
}

/// A frame with the functions declared in it folded.
pub open spec fn fold_frame(f: FrameModel) -> FrameModel {
    FrameModel { funcs: fold_funcs(f.funcs), ..f }
}

/// Call frames with the functions declared in them folded.
pub open spec fn fold_frames(fr: Seq<FrameModel>) -> Seq<FrameModel> {
    Seq::new(fr.len(), |i: int| fold_frame(fr[i]))
}

/// A state of a run with the functions declared in it folded.
pub open spec fn fold_state<D>(st: StateModel<D>) -> StateModel<D> {
    StateModel { frames: fold_frames(st.frames), ..st }
}

/// An outcome whose state has the functions declared in it folded.
pub open spec fn fold_outcome<D, M, T>(o: Outcome<D, M, T>) -> Outcome<D, M, T> {
    Outcome { st: fold_state(o.st), ..o }
}

/// What a called name stands for, with a user function folded.
pub open spec fn fold_callee(c: CalleeModel) -> CalleeModel {
    match c {
        CalleeModel::User(s) => CalleeModel::User(spec_fold_stmt(s)),
        CalleeModel::Predefined => CalleeModel::Predefined,
    }
}

proof fn lemma_fold_funcs_find(fs: Seq<(Seq<char>, StmtModel)>, k: Seq<char>)
    ensures
        find_index(fold_funcs(fs), k) == find_index(fs, k),
{
    let g = fold_funcs(fs);
    assert forall|i: int| key_at(g, k, i) == key_at(fs, k, i) by {
        if 0 <= i < fs.len() {
            assert forall|j: int| 0 <= j < i implies (g[j].0 != k) == (fs[j].0 != k) by {}
        }
    }
    if exists|i: int| key_at(fs, k, i) {
        let a = choose|i: int| key_at(fs, k, i);
        assert(key_at(g, k, a));
        let b = choose|i: int| key_at(g, k, i);
        lemma_key_at_unique(fs, k, a, b);
    }
}

proof fn lemma_fold_funcs_insert(fs: Seq<(Seq<char>, StmtModel)>, k: Seq<char>, s: StmtModel)
    ensures
        fold_funcs(assoc_insert(fs, k, s)) == assoc_insert(fold_funcs(fs), k, spec_fold_stmt(s)),
{
    lemma_fold_funcs_find(fs, k);
    assert(fold_funcs(assoc_insert(fs, k, s)) =~= assoc_insert(fold_funcs(fs), k, spec_fold_stmt(s)));
}

proof fn lemma_fold_frames_shape(fr: Seq<FrameModel>)
    ensures
        fr.len() > 0 ==> fold_frames(fr).drop_last() == fold_frames(fr.drop_last()),
        fr.len() > 0 ==> fold_frames(fr).last() == fold_frame(fr.last()),
{
    if fr.len() > 0 {
        assert(fold_frames(fr).drop_last() =~= fold_frames(fr.drop_last()));
    }
}

proof fn lemma_fold_var_frame(fr: Seq<FrameModel>, name: Seq<char>)
    ensures
        var_frame(fold_frames(fr), name) == var_frame(fr, name),
    decreases fr.len(),
{
    lemma_fold_frames_shape(fr);
    if fr.len() > 0 {
        lemma_fold_var_frame(fr.drop_last(), name);
    }
}

proof fn lemma_fold_fn_frame(fr: Seq<FrameModel>, name: Seq<char>)
    ensures
        fn_frame(fold_frames(fr), name) == fn_frame(fr, name),
    decreases fr.len(),
{
    lemma_fold_frames_shape(fr);
    if fr.len() > 0 {
        lemma_fold_funcs_find(fr.last().funcs, name);
        lemma_fold_fn_frame(fr.drop_last(), name);
    }
}

/// Variables read the same where the functions are folded.
proof fn lemma_fold_lookup_var(fr: Seq<FrameModel>, name: Seq<char>)
    requires
        fr.len() > 0,
    ensures
        lookup_var(fold_frames(fr), name) == lookup_var(fr, name),
{
    lemma_fold_frames_shape(fr);
    lemma_fold_var_frame(fr, name);
    lemma_var_frame_bounds(fr, name);
    if let Some(f) = var_frame(fr, name) {
        assert(fold_frames(fr)[f] == fold_frame(fr[f]));
    }
}

proof fn lemma_var_frame_bounds(fr: Seq<FrameModel>, name: Seq<char>)
    ensures
        var_frame(fr, name) matches Some(f) ==> 0 <= f < fr.len() && find_index(fr[f].vars, name) is Some,
    decreases fr.len(),
{
    if fr.len() > 0 && !(find_index(fr.last().vars, name) is Some) {
        lemma_var_frame_bounds(fr.drop_last(), name);
    }
}

/// Declaring and assigning variables commutes with folding the functions.
proof fn lemma_fold_var_updates(fr: Seq<FrameModel>, name: Seq<char>, v: crate::values::ValueModel)
    requires
        fr.len() > 0,
    ensures
        decl_var(fold_frames(fr), name, v) == fold_frames(decl_var(fr, name, v)),
        assign_var(fold_frames(fr), name, v) == (match assign_var(fr, name, v) {
            Ok(f2) => Ok(fold_frames(f2)),
            Err(x) => Err::<Seq<FrameModel>, Seq<char>>(x),
        }),
{
    lemma_fold_frames_shape(fr);
    lemma_fold_var_frame(fr, name);
    lemma_var_frame_bounds(fr, name);
    assert(decl_var(fold_frames(fr), name, v) =~= fold_frames(decl_var(fr, name, v)));
    if let Some(f) = var_frame(fr, name) {
        assert(fold_frames(fr)[f] == fold_frame(fr[f]));
    }
    match assign_var(fr, name, v) {
        Ok(f2) => {
            assert(assign_var(fold_frames(fr), name, v)->Ok_0 =~= fold_frames(f2));
        },
        Err(_) => {},
    }
}

/// Declaring a function commutes with folding the functions.
proof fn lemma_fold_decl_fn(fr: Seq<FrameModel>, name: Seq<char>, s: StmtModel)
    requires
        fr.len() > 0,
    ensures
        decl_fn(fold_frames(fr), name, spec_fold_stmt(s)) == fold_frames(decl_fn(fr, name, s)),
{
    lemma_fold_frames_shape(fr);
    lemma_fold_funcs_insert(fr.last().funcs, name, s);
    assert(decl_fn(fold_frames(fr), name, spec_fold_stmt(s)) =~= fold_frames(decl_fn(fr, name, s)));
}

/// A called name stands for the folded function where the functions are folded.
proof fn lemma_fold_lookup_fn<M: CompilingMetadata>(fr: Seq<FrameModel>, name: Seq<char>, m: M::Model)
    requires
        fr.len() > 0,
    ensures
        lookup_fn::<M>(fold_frames(fr), name, m) == (match lookup_fn::<M>(fr, name, m) {
            Ok(c) => Ok(fold_callee(c)),
            Err(x) => Err::<CalleeModel, Seq<char>>(x),
        }),
{
    lemma_fold_frames_shape(fr);
    lemma_fold_fn_frame(fr, name);
    match fn_frame(fr, name) {
        Some(f) => {
            lemma_fn_frame_bounds(fr, name);
            lemma_fold_funcs_find(fr[f].funcs, name);
            assert(fold_frames(fr)[f] == fold_frame(fr[f]));
        },
        None => {},
    }
}

proof fn lemma_fn_frame_bounds(fr: Seq<FrameModel>, name: Seq<char>)
    ensures
        fn_frame(fr, name) matches Some(f) ==> 0 <= f < fr.len() && find_index(fr[f].funcs, name) is Some,
    decreases fr.len(),
{
    if fr.len() > 0 && !(find_index(fr.last().funcs, name) is Some) {
        lemma_fn_frame_bounds(fr.drop_last(), name);
    }
}

/// A statement whose folding agrees with its run: its expressions are foldable, and so
/// are those of the functions it declares.
pub open spec fn prog_foldable(s: StmtModel) -> bool
    decreases s,
{
    match s {
        StmtModel::Block(ss) => forall|i: int| 0 <= i < ss.len() ==> prog_foldable(#[trigger] ss[i]),
        StmtModel::Call(_, args) => forall|i: int| 0 <= i < args.len() ==> foldable(#[trigger] args[i]),
        StmtModel::Decl(_, e) => foldable(e),
        StmtModel::Assign(_, e) => foldable(e),
        StmtModel::If(c, t, e) => foldable(c) && prog_foldable(*t) && match e {
            Some(b) => prog_foldable(*b),
            None => true,
        },
        StmtModel::Loop(b) => prog_foldable(*b),
        StmtModel::Return(Some(e)) => foldable(e),
        StmtModel::Function(_, _, b, _) => prog_foldable(*b),
        _ => true,
    }
}

/// Every function declared in the state of a run is foldable.
pub open spec fn state_foldable<D>(st: StateModel<D>) -> bool {
    forall|f: int, i: int|
        0 <= f < st.frames.len() && 0 <= i < st.frames[f].funcs.len() ==> prog_foldable(
            #[trigger] st.frames[f].funcs[i].1,
        )
}

/// The run of the folded form, from the state with its functions folded, is the run
/// with its functions folded; the run keeps the functions foldable and the number of
/// frames.
pub open spec fn agrees<D, M, T>(folded: Outcome<D, M, T>, run: Outcome<D, M, T>, st: StateModel<D>) -> bool {
    &&& folded == fold_outcome(run)
    &&& state_foldable(run.st)
    &&& run.st.frames.len() == st.frames.len()
}

proof fn lemma_insert_foldable(fs: Seq<(Seq<char>, StmtModel)>, k: Seq<char>, s: StmtModel)
    requires
        forall|i: int| 0 <= i < fs.len() ==> prog_foldable(#[trigger] fs[i].1),
        prog_foldable(s),
    ensures
        forall|i: int| 0 <= i < assoc_insert(fs, k, s).len() ==> prog_foldable(#[trigger] assoc_insert(fs, k, s)[i].1),
{
}

/// The function that a name stands for in a state whose functions are foldable is foldable.
proof fn lemma_lookup_fn_foldable<M: CompilingMetadata>(fr: Seq<FrameModel>, name: Seq<char>, m: M::Model)
    requires
        forall|f: int, i: int|
            0 <= f < fr.len() && 0 <= i < fr[f].funcs.len() ==> prog_foldable(#[trigger] fr[f].funcs[i].1),
    ensures
        lookup_fn::<M>(fr, name, m) matches Ok(CalleeModel::User(s)) ==> prog_foldable(s),
{
    lemma_fn_frame_bounds(fr, name);
}

/// Folding an expression changes its evaluation only in that the functions it declares,
/// through the calls it makes, are kept folded.
pub proof fn lemma_fold_expr_agrees<M: CompilingMetadata>(e: ExprModel, st: StateModel<M::DiffModel>, m: M::Model)
    requires
        foldable(e),
        state_foldable(st),
        st.frames.len() > 0,
    ensures
        agrees(run_expr::<M>(spec_fold_expr(e), fold_state(st), m), run_expr::<M>(e, st, m), st),
    decreases st.fuel, 0nat, e, 0nat,
{
    let fst = fold_state(st);
    match e {
        ExprModel::Variable(name) => {
            lemma_fold_lookup_var(st.frames, name);
        },
        ExprModel::BinaryOp(op, l, r) => {
            let fl = spec_fold_expr(*l);
            let fr = spec_fold_expr(*r);
            lemma_fold_expr_agrees::<M>(*l, st, m);
            let o1 = run_expr::<M>(*l, st, m);
            if o1.res is Ok && o1.st.fuel <= st.fuel {
                lemma_fold_expr_agrees::<M>(*r, o1.st, o1.meta);
            }
            lemma_folded_literal_consistent(*l);
            lemma_folded_literal_consistent(*r);
            let folded = ExprModel::BinaryOp(op, Box::new(fl), Box::new(fr));
            assert(spec_fold_expr(e) == spec_fold_node(folded));
            match (spec_expr_to_lit(fl), spec_expr_to_lit(fr)) {
                (Some(a), Some(b)) => {
                    lemma_literal_evaluates::<M>(fl, fst, m);
                    lemma_literal_evaluates::<M>(fr, fst, m);
                    if spec_fold_binary(a, b, op) is Some {
                        let x = spec_fold_binary(a, b, op)->0;
                        lemma_fold_binary_agrees(a, b, op);
                        lemma_literal_evaluates::<M>(spec_lit_to_expr(x), fst, m);
                        assert(spec_fold_expr(e) == spec_lit_to_expr(x));
                        assert(run_expr::<M>(e, st, m).res == spec_binary_op(lit_value(a), lit_value(b), op));
                    } else {
                        assert(spec_fold_expr(e) == folded);
                    }
                },
                _ => {
                    assert(spec_fold_expr(e) == folded);
                },
            }
        },
        ExprModel::UnaryOp(op, v) => {
            let fv = spec_fold_expr(*v);
            lemma_fold_expr_agrees::<M>(*v, st, m);
            lemma_folded_literal_consistent(*v);
            if let Some(a) = spec_expr_to_lit(fv) {
                lemma_literal_evaluates::<M>(fv, fst, m);
                if spec_fold_unary(a, op) is Some {
                    let x = spec_fold_unary(a, op)->0;
                    lemma_fold_unary_agrees(a, op);
                    lemma_literal_evaluates::<M>(spec_lit_to_expr(x), fst, m);
                }
            }
        },
        ExprModel::Index(name, i) => {
            lemma_fold_expr_agrees::<M>(*i, st, m);
            let o = run_expr::<M>(*i, st, m);
            lemma_fold_lookup_var(o.st.frames, name);
        },
        ExprModel::List(es) => {
            let fes = spec_fold_expr(e)->List_0;
            assert forall|i: int| 0 <= i < es.len() implies fes[i] == spec_fold_expr(es[i]) by {}
            assert(fes =~= spec_fold_exprs(es));
            lemma_fold_exprs_agree::<M>(es, 0, Seq::empty(), st, m);
        },
        ExprModel::Dict(ps) => {
            let fps = spec_fold_expr(e)->Dict_0;
            assert forall|j: int| 0 <= j < ps.len() implies fps[j] == (spec_fold_expr(ps[j].0), spec_fold_expr(ps[j].1)) by {}
            lemma_fold_pairs_agree::<M>(ps, fps, 0, Seq::empty(), st, m);
        },
        ExprModel::Call(name, args) => {
            let fargs = spec_fold_expr(e)->Call_1;
            assert forall|i: int| 0 <= i < args.len() implies fargs[i] == spec_fold_expr(args[i]) by {}
            assert(fargs =~= spec_fold_exprs(args));
            lemma_fold_lookup_fn::<M>(st.frames, name, m);
            lemma_lookup_fn_foldable::<M>(st.frames, name, m);
            if let Ok(c) = lookup_fn::<M>(st.frames, name, m) {
                lemma_fold_exprs_agree::<M>(args, 0, Seq::empty(), st, m);
                let o = run_exprs::<M>(args, 0, Seq::empty(), st, m);
                if o.res is Ok && 0 < o.st.fuel <= st.fuel {
                    let st1 = StateModel { fuel: (o.st.fuel - 1) as nat, ..o.st };
                    assert(fold_state(st1) == StateModel { fuel: (o.st.fuel - 1) as nat, ..fold_state(o.st) });
                    lemma_fold_call_agrees::<M>(name, c, o.res->Ok_0, st1, o.meta);
                }
            }
        },
        _ => {},
    }
}

/// Folding the expressions of a list changes its evaluation only in the folded functions.
proof fn lemma_fold_exprs_agree<M: CompilingMetadata>(
    es: Seq<ExprModel>,
    i: nat,
    acc: Seq<crate::values::ValueModel>,
    st: StateModel<M::DiffModel>,
    m: M::Model,
)
    requires
        forall|j: int| 0 <= j < es.len() ==> foldable(#[trigger] es[j]),
        state_foldable(st),
        st.frames.len() > 0,
    ensures
        agrees(run_exprs::<M>(spec_fold_exprs(es), i, acc, fold_state(st), m), run_exprs::<M>(es, i, acc, st, m), st),
    decreases st.fuel, 0nat, es, es.len() - i,
{
    if i < es.len() {
        assert(spec_fold_exprs(es)[i as int] == spec_fold_expr(es[i as int]));
        assert(decreases_to!(es => es[i as int]));
        lemma_fold_expr_agrees::<M>(es[i as int], st, m);
        let o = run_expr::<M>(es[i as int], st, m);
        if o.res is Ok && o.st.fuel <= st.fuel {
            lemma_fold_exprs_agree::<M>(es, i + 1, acc.push(o.res->Ok_0), o.st, o.meta);
        }
    }
}

/// Folding both sides of the entries of a dictionary changes its evaluation only in the
/// folded functions.
proof fn lemma_fold_pairs_agree<M: CompilingMetadata>(
    ps: Seq<(ExprModel, ExprModel)>,
    fps: Seq<(ExprModel, ExprModel)>,
    i: nat,
    acc: Seq<(crate::values::HashableProgramValue, crate::values::ValueModel)>,
    st: StateModel<M::DiffModel>,
    m: M::Model,
)
    requires
        forall|j: int| 0 <= j < ps.len() ==> foldable((#[trigger] ps[j]).0) && foldable(ps[j].1),
        fps.len() == ps.len(),
        forall|j: int| 0 <= j < ps.len() ==> (#[trigger] fps[j]) == (spec_fold_expr(ps[j].0), spec_fold_expr(ps[j].1)),
        state_foldable(st),
        st.frames.len() > 0,
    ensures
        agrees(run_pairs::<M>(fps, i, acc, fold_state(st), m), run_pairs::<M>(ps, i, acc, st, m), st),
    decreases st.fuel, 0nat, ps, ps.len() - i,
{
    if i < ps.len() {
        let p = ps[i as int];
        assert(fps[i as int] == (spec_fold_expr(p.0), spec_fold_expr(p.1)));
        assert(decreases_to!(ps => ps[i as int]));
        assert(decreases_to!(ps[i as int] => ps[i as int].0));
        assert(decreases_to!(ps[i as int] => ps[i as int].1));
        lemma_fold_expr_agrees::<M>(p.0, st, m);
        let ok = run_expr::<M>(p.0, st, m);
        if ok.res is Ok && ok.st.fuel <= st.fuel {
            lemma_fold_expr_agrees::<M>(p.1, ok.st, ok.meta);
            let ov = run_expr::<M>(p.1, ok.st, ok.meta);
            if ov.res is Ok && ov.st.fuel <= st.fuel {
                if let Some(h) = crate::values::hashable_of(ok.res->Ok_0) {
                    lemma_fold_pairs_agree::<M>(
                        ps,
                        fps,
                        i + 1,
                        crate::values::dict_insert(acc, h, ov.res->Ok_0),
                        ov.st,
                        ov.meta,
                    );
                }
            }
        }
    }
}

/// Calling the folded form of a function changes the call only in the folded functions.
#[verifier::rlimit(60)]
proof fn lemma_fold_call_agrees<M: CompilingMetadata>(
    name: Seq<char>,
    c: CalleeModel,
    args: Seq<crate::values::ValueModel>,
    st: StateModel<M::DiffModel>,
    m: M::Model,
)
    requires
        state_foldable(st),
        st.frames.len() > 0,
        c matches CalleeModel::User(s) ==> prog_foldable(s),
    ensures
        agrees(run_call::<M>(name, fold_callee(c), args, fold_state(st), m), run_call::<M>(name, c, args, st, m), st),
    decreases st.fuel, 2nat, c, 0nat,
{
    if let CalleeModel::User(s) = c {
        if let StmtModel::Function(fname, params, body, is_pure) = s {
            let frame = FrameModel {
                vars: crate::compile::bind_params(params, args, args.len()),
                funcs: Seq::empty(),
                is_pure,
            };
            assert(fold_frame(frame) == frame) by {
                assert(fold_funcs(Seq::<(Seq<char>, StmtModel)>::empty()) =~= Seq::<(Seq<char>, StmtModel)>::empty());
            }
            let st_push = StateModel { frames: st.frames.push(frame), ..st };
            assert(fold_state(st_push).frames =~= fold_state(st).frames.push(frame));
            assert(state_foldable(st_push)) by {
                assert forall|f: int, i: int|
                    0 <= f < st_push.frames.len() && 0 <= i < st_push.frames[f].funcs.len() implies prog_foldable(
                    #[trigger] st_push.frames[f].funcs[i].1) by {
                    if f < st.frames.len() {
                        assert(st_push.frames[f] == st.frames[f]);
                    }
                }
            }
            lemma_fold_stmt_agrees::<M>(*body, st_push, m);
            let o = run_stmt::<M>(*body, st_push, m);
            lemma_fold_frames_shape(o.st.frames);
            assert(fold_frames(o.st.frames).drop_last() == fold_frames(o.st.frames.drop_last()));
            assert(state_foldable(StateModel { frames: o.st.frames.drop_last(), ..o.st })) by {
                assert forall|f: int, i: int|
                    0 <= f < o.st.frames.drop_last().len() && 0 <= i < o.st.frames.drop_last()[f].funcs.len()
                    implies prog_foldable(#[trigger] o.st.frames.drop_last()[f].funcs[i].1) by {
                    assert(o.st.frames.drop_last()[f] == o.st.frames[f]);
                }
            }
        }
    }
}

/// Folding a statement changes its run only in that the functions it declares are kept
/// folded.
pub proof fn lemma_fold_stmt_agrees<M: CompilingMetadata>(s: StmtModel, st: StateModel<M::DiffModel>, m: M::Model)
    requires
        prog_foldable(s),
        state_foldable(st),
        st.frames.len() > 0,
    ensures
        agrees(run_stmt::<M>(spec_fold_stmt(s), fold_state(st), m), run_stmt::<M>(s, st, m), st),
    decreases st.fuel, 1nat, s, 0nat,
{
    if st.flow is Return {
        return;
    }
    match s {
        StmtModel::Block(ss) => {
            let fss = spec_fold_stmt(s)->Block_0;
            assert forall|j: int| 0 <= j < ss.len() implies fss[j] == spec_fold_stmt(ss[j]) by {}
            lemma_fold_block_agrees::<M>(ss, fss, 0, st, m);
        },
        StmtModel::Decl(name, e) => {
            lemma_fold_expr_agrees::<M>(e, st, m);
            let o = run_expr::<M>(e, st, m);
            if o.res is Ok {
                lemma_fold_var_updates(o.st.frames, name, o.res->Ok_0);
                lemma_decl_assign_keep_funcs(o.st, name, o.res->Ok_0);
            }
        },
        StmtModel::Assign(name, e) => {
            lemma_fold_lookup_var(st.frames, name);
            lemma_fold_expr_agrees::<M>(e, st, m);
            let o = run_expr::<M>(e, st, m);
            if o.res is Ok {
                lemma_fold_var_updates(o.st.frames, name, o.res->Ok_0);
                lemma_decl_assign_keep_funcs(o.st, name, o.res->Ok_0);
            }
        },
        StmtModel::Return(Some(e)) => {
            lemma_fold_expr_agrees::<M>(e, st, m);
        },
        StmtModel::Call(name, args) => {
            let call = ExprModel::Call(name, args);
            assert(foldable(call));
            let fargs = spec_fold_expr(call)->Call_1;
            assert forall|i: int| 0 <= i < args.len() implies fargs[i] == spec_fold_expr(args[i]) by {}
            assert(fargs =~= spec_fold_exprs(args));
            lemma_fold_expr_agrees::<M>(call, st, m);
        },
        StmtModel::If(c, t, e) => {
            lemma_fold_expr_agrees::<M>(c, st, m);
            let o = run_expr::<M>(c, st, m);
            if o.res is Ok && o.st.fuel <= st.fuel {
                lemma_fold_stmt_agrees::<M>(*t, o.st, o.meta);
                if let Some(b) = e {
                    lemma_fold_stmt_agrees::<M>(*b, o.st, o.meta);
                }
            }
        },
        StmtModel::Loop(b) => {
            let o = crate::compile::atomic::<M>(st, m);
            if o.res is Ok {
                lemma_fold_loop_agrees::<M>(*b, o.st, o.meta);
            }
        },
        StmtModel::Function(name, _, _, _) => {
            lemma_fold_decl_fn(st.frames, name, s);
            let top = st.frames.last();
            lemma_insert_foldable(top.funcs, name, s);
            let fr2 = decl_fn(st.frames, name, s);
            assert forall|f: int, i: int|
                0 <= f < fr2.len() && 0 <= i < fr2[f].funcs.len() implies prog_foldable(#[trigger] fr2[f].funcs[i].1) by {
                if f < fr2.len() - 1 {
                    assert(fr2[f] == st.frames[f]);
                }
            }
        },
        _ => {},
    }
}

/// Declaring or assigning a variable leaves the functions of a state as they were.
proof fn lemma_decl_assign_keep_funcs<D>(st: StateModel<D>, name: Seq<char>, v: crate::values::ValueModel)
    requires
        state_foldable(st),
        st.frames.len() > 0,
    ensures
        state_foldable(StateModel { frames: decl_var(st.frames, name, v), ..st }),
        assign_var(st.frames, name, v) matches Ok(fr) ==> state_foldable(StateModel { frames: fr, ..st })
            && fr.len() == st.frames.len(),
{
    let fr = decl_var(st.frames, name, v);
    assert forall|f: int, i: int|
        0 <= f < fr.len() && 0 <= i < fr[f].funcs.len() implies prog_foldable(#[trigger] fr[f].funcs[i].1) by {
        assert(fr[f].funcs == st.frames[f].funcs);
    }
    lemma_var_frame_bounds(st.frames, name);
    if let Ok(fr2) = assign_var(st.frames, name, v) {
        assert forall|f: int, i: int|
            0 <= f < fr2.len() && 0 <= i < fr2[f].funcs.len() implies prog_foldable(#[trigger] fr2[f].funcs[i].1) by {
            assert(fr2[f].funcs == st.frames[f].funcs);
        }
    }
}

/// Folding the statements of a block changes its run only in the folded functions.
proof fn lemma_fold_block_agrees<M: CompilingMetadata>(
    ss: Seq<StmtModel>,
    fss: Seq<StmtModel>,
    i: nat,
    st: StateModel<M::DiffModel>,
    m: M::Model,
)
    requires
        forall|j: int| 0 <= j < ss.len() ==> prog_foldable(#[trigger] ss[j]),
        fss.len() == ss.len(),
        forall|j: int| 0 <= j < ss.len() ==> (#[trigger] fss[j]) == spec_fold_stmt(ss[j]),
        state_foldable(st),
        st.frames.len() > 0,
    ensures
        agrees(run_block::<M>(fss, i, fold_state(st), m), run_block::<M>(ss, i, st, m), st),
    decreases st.fuel, 1nat, ss, ss.len() - i,
{
    if i < ss.len() {
        assert(fss[i as int] == spec_fold_stmt(ss[i as int]));
        assert(decreases_to!(ss => ss[i as int]));
        lemma_fold_stmt_agrees::<M>(ss[i as int], st, m);
        let o = run_stmt::<M>(ss[i as int], st, m);
        if o.res is Ok && o.st.flow is Normal && o.st.fuel <= st.fuel {
            lemma_fold_block_agrees::<M>(ss, fss, i + 1, o.st, o.meta);
        }
    }
}

/// Folding the body of a loop changes its run only in the folded functions.
proof fn lemma_fold_loop_agrees<M: CompilingMetadata>(b: StmtModel, st: StateModel<M::DiffModel>, m: M::Model)
    requires
        prog_foldable(b),
        state_foldable(st),
        st.frames.len() > 0,
    ensures
        agrees(run_loop::<M>(spec_fold_stmt(b), fold_state(st), m), run_loop::<M>(b, st, m), st),
    decreases st.fuel, 1nat, b, 0nat,
{
    if st.fuel > 0 {
        let st1 = StateModel { fuel: (st.fuel - 1) as nat, ..st };
        assert(fold_state(st1) == StateModel { fuel: (st.fuel - 1) as nat, ..fold_state(st) });
        lemma_fold_stmt_agrees::<M>(b, st1, m);
        let o = run_stmt::<M>(b, st1, m);
        if o.res is Ok && o.st.fuel < st.fuel {
            let st2 = StateModel { flow: crate::compile::FlowModel::Normal, ..o.st };
            assert(fold_state(st2) == StateModel { flow: crate::compile::FlowModel::Normal, ..fold_state(o.st) });
            lemma_fold_loop_agrees::<M>(b, st2, o.meta);
        }
    }
}

/// Folding a program changes neither what it reports to the metadata nor its result,
/// and its final state only in that the functions it declared are kept folded.
pub proof fn lemma_fold_program_agrees<M: CompilingMetadata>(p: StmtModel, m: M::Model)
    requires
        prog_foldable(p),
    ensures
        run_program::<M>(spec_fold_stmt(p), m) == fold_outcome(run_program::<M>(p, m)),
{
    let st = initial_state::<M::DiffModel>();
    assert(fold_state(st) == st) by {
        assert(fold_frame(st.frames[0]) == st.frames[0]) by {
            assert(fold_funcs(Seq::<(Seq<char>, StmtModel)>::empty()) =~= Seq::<(Seq<char>, StmtModel)>::empty());
        }
        assert(fold_frames(st.frames) =~= st.frames);
    }
    lemma_fold_stmt_agrees::<M>(p, st, m);
}

} // verus!
