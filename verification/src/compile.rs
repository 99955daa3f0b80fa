//! The interpreter of the language: it runs a program statement by statement and
//! reports each executed instruction to a metadata object, which measures the run
//! and may stop it with an error.
//!
//! Its meaning is given by the spec functions `run_stmt`, `run_expr` and their
//! companions, a big-step semantics over the models of the syntax tree and of the
//! values; the executable functions are proved to compute exactly that.
//! Every loop iteration and every call consumes one step of a budget, so that
//! every run ends.
use vstd::prelude::*;
use crate::ast::{
    ExprModel, NotPythonExpr, NotPythonExprVariable, NotPythonProgram, NotPythonStmt, StmtModel,
    exprs_model, pairs_model, stmts_model,
};
use crate::values::{
    CompileError, CompileResult, HashableProgramValue, ProgramValue, ValueModel, decimal,
    decimal_signed, dict_get, dict_insert, dict_insert_exec, entries_model, error_from,
    eval_binary_op, eval_unary_op, hashable_of, push_value, result_model, signed_decimal_text,
    decimal_text, spec_binary_op, spec_unary_op, to_hashable, values_model, find_key,
};
use crate::runtime::{
    CacheEntry, CallFrame, Callee, ControlFlow, ExecutionState, cache_model, find_var,
    frames_model, vars_model,
};

verus! {

/// The error message of a unit result, if it is an error.
pub open spec fn unit_result(r: CompileResult<()>) -> Option<Seq<char>> {
    match r {
        Ok(_) => None,
        Err(e) => Some(e@),
    }
}

/// A unit result as the semantics writes it.
pub open spec fn unit_model(r: CompileResult<()>) -> Result<(), Seq<char>> {
    match r {
        Ok(_) => Ok(()),
        Err(e) => Err(e@),
    }
}

/// What the interpreter reports to while it runs: each executed instruction, the
/// effect of a cached pure call, and the predefined functions that programs may call.
/// Each operation is described by a spec function of the implementing type, and the
/// interpreter's semantics is stated over those.
pub trait CompilingMetadata: Sized {
    /// What a pure call changed in the metadata, recorded to be replayed on a cache hit.
    type Diff;

    /// The mathematical form of the metadata.
    type Model;

    /// The mathematical form of a recorded change.
    type DiffModel;

    spec fn model(&self) -> Self::Model;

    spec fn diff_model(d: &Self::Diff) -> Self::DiffModel;

    /// The metadata after an instruction that costs nothing, and the error that stops the run, if any.
    spec fn zero_step(m: Self::Model) -> (Self::Model, Option<Seq<char>>);

    /// The metadata after an atomic instruction, and the error that stops the run, if any.
    spec fn atomic_step(m: Self::Model) -> (Self::Model, Option<Seq<char>>);

    /// What changed from `earlier` to `m`, or the error that stops the run.
    spec fn diff_of(m: Self::Model, earlier: Self::Model) -> Result<Self::DiffModel, Seq<char>>;

    /// The metadata with a recorded change replayed, and the error that stops the run, if any.
    spec fn add_diff(m: Self::Model, diff: Self::DiffModel) -> (Self::Model, Option<Seq<char>>);

    /// Whether the metadata has stopped the run for a reason outside the program, such
    /// as a request to cancel it. Once halted, it stays halted.
    spec fn halted(m: Self::Model) -> bool;

    /// Whether programs may call a predefined function of this name.
    spec fn has_predefined(m: Self::Model, name: Seq<char>) -> bool;

    /// The metadata after a call of a predefined function, and the value it returns.
    spec fn predefined_call(m: Self::Model, name: Seq<char>, args: Seq<ValueModel>) -> (Self::Model, Result<ValueModel, Seq<char>>);

    fn log_zero_instruction(&mut self) -> (r: CompileResult<()>)
        ensures
            Self::halted(old(self).model()) ==> Self::halted(final(self).model()) && r is Err,
            !Self::halted(old(self).model()) && Self::halted(final(self).model()) ==> r is Err,
            !Self::halted(final(self).model()) ==> (final(self).model(), unit_result(r)) == Self::zero_step(old(self).model()),
    ;

    fn log_atomic_instruction(&mut self) -> (r: CompileResult<()>)
        ensures
            Self::halted(old(self).model()) ==> Self::halted(final(self).model()) && r is Err,
            !Self::halted(old(self).model()) && Self::halted(final(self).model()) ==> r is Err,
            !Self::halted(final(self).model()) ==> (final(self).model(), unit_result(r)) == Self::atomic_step(old(self).model()),
    ;

    fn diff(&self, other: &Self) -> (r: CompileResult<Self::Diff>)
        ensures
            match r {
                Ok(d) => Self::diff_of(self.model(), other.model()) == Ok::<Self::DiffModel, Seq<char>>(Self::diff_model(&d)),
                Err(e) => Self::diff_of(self.model(), other.model()) == Err::<Self::DiffModel, Seq<char>>(e@),
            },
    ;

    fn add_assign(&mut self, diff: &Self::Diff) -> (r: CompileResult<()>)
        ensures
            Self::halted(old(self).model()) ==> Self::halted(final(self).model()),
            !Self::halted(old(self).model()) && Self::halted(final(self).model()) ==> r is Err,
            !Self::halted(final(self).model()) ==> (final(self).model(), unit_result(r)) == Self::add_diff(old(self).model(), Self::diff_model(diff)),
    ;

    /// A copy of the metadata, the state that a pure call's change is measured from.
    fn snapshot(&self) -> (r: Self)
        ensures
            r.model() == self.model(),
    ;

    fn is_predefined(&self, name: &str) -> (r: bool)
        ensures
            r == Self::has_predefined(self.model(), name@),
    ;

    fn call_predefined(&mut self, name: &str, args: &[ProgramValue]) -> (r: CompileResult<ProgramValue>)
        ensures
            Self::halted(old(self).model()) ==> Self::halted(final(self).model()),
            !Self::halted(old(self).model()) && Self::halted(final(self).model()) ==> r is Err,
            !Self::halted(final(self).model()) ==> (final(self).model(), result_model(r)) == Self::predefined_call(old(self).model(), name@, values_model(args@)),
    ;
}

/// A step of the metadata from `m0` to `m1`: either the metadata halts the run, and the
/// step `failed`, or the step is `exact`. Once halted, the metadata stays halted.
pub open spec fn halt_or<M: CompilingMetadata>(m0: M::Model, m1: M::Model, failed: bool, exact: bool) -> bool {
    &&& M::halted(m0) ==> M::halted(m1)
    &&& (!M::halted(m0) && M::halted(m1)) ==> failed
    &&& !M::halted(m1) ==> exact
}

/// Metadata that records nothing and offers no predefined function.
impl CompilingMetadata for () {
    type Diff = ();
    type Model = ();
    type DiffModel = ();

    open spec fn model(&self) -> () {
        ()
    }

    open spec fn diff_model(d: &()) -> () {
        ()
    }

    open spec fn zero_step(m: ()) -> ((), Option<Seq<char>>) {
        ((), None)
    }

    open spec fn atomic_step(m: ()) -> ((), Option<Seq<char>>) {
        ((), None)
    }

    open spec fn diff_of(m: (), earlier: ()) -> Result<(), Seq<char>> {
        Ok(())
    }

    open spec fn add_diff(m: (), diff: ()) -> ((), Option<Seq<char>>) {
        ((), None)
    }

    open spec fn halted(m: ()) -> bool {
        false
    }

    open spec fn has_predefined(m: (), name: Seq<char>) -> bool {
        false
    }

    open spec fn predefined_call(m: (), name: Seq<char>, args: Seq<ValueModel>) -> ((), Result<ValueModel, Seq<char>>) {
        ((), Err(msg_fn_not_found(name)))
    }

    fn log_zero_instruction(&mut self) -> (r: CompileResult<()>) {
        Ok(())
    }

    fn log_atomic_instruction(&mut self) -> (r: CompileResult<()>) {
        Ok(())
    }

    fn diff(&self, other: &()) -> (r: CompileResult<()>) {
        Ok(())
    }

    fn add_assign(&mut self, diff: &()) -> (r: CompileResult<()>) {
        Ok(())
    }

    fn snapshot(&self) -> (r: ()) {
        ()
    }

    fn is_predefined(&self, name: &str) -> (r: bool) {
        false
    }

    fn call_predefined(&mut self, name: &str, args: &[ProgramValue]) -> (r: CompileResult<ProgramValue>) {
        Err(msg_fn_not_found_text(name))
    }
}

/// Metadata that counts the atomic instructions of a run.
impl CompilingMetadata for u32 {
    type Diff = i32;
    type Model = u32;
    type DiffModel = i32;

    open spec fn model(&self) -> u32 {
        *self
    }

    open spec fn diff_model(d: &i32) -> i32 {
        *d
    }

    open spec fn zero_step(m: u32) -> (u32, Option<Seq<char>>) {
        (m, None)
    }

    open spec fn atomic_step(m: u32) -> (u32, Option<Seq<char>>) {
        if m == u32::MAX {
            (m, Some(msg_count_overflow()))
        } else {
            ((m + 1) as u32, None)
        }
    }

    open spec fn diff_of(m: u32, earlier: u32) -> Result<i32, Seq<char>> {
        Ok((m - earlier) as i32)
    }

    open spec fn add_diff(m: u32, diff: i32) -> (u32, Option<Seq<char>>) {
        if 0 <= m + diff <= u32::MAX {
            ((m + diff) as u32, None)
        } else {
            (m, Some(msg_count_overflow()))
        }
    }

    open spec fn halted(m: u32) -> bool {
        false
    }

    open spec fn has_predefined(m: u32, name: Seq<char>) -> bool {
        false
    }

    open spec fn predefined_call(m: u32, name: Seq<char>, args: Seq<ValueModel>) -> (u32, Result<ValueModel, Seq<char>>) {
        (m, Err(msg_fn_not_found(name)))
    }

    fn log_zero_instruction(&mut self) -> (r: CompileResult<()>) {
        Ok(())
    }

    fn log_atomic_instruction(&mut self) -> (r: CompileResult<()>) {
        if *self == u32::MAX {
            return Err(error_from("Instruction count overflow"));
        }
        *self = *self + 1;
        Ok(())
    }

    fn diff(&self, other: &u32) -> (r: CompileResult<i32>) {
        Ok(((*self as i64) - (*other as i64)) as i32)
    }

    fn add_assign(&mut self, diff: &i32) -> (r: CompileResult<()>) {
        let sum: i64 = (*self as i64) + (*diff as i64);
        if 0 <= sum && sum <= u32::MAX as i64 {
            *self = sum as u32;
            Ok(())
        } else {
            Err(error_from("Instruction count overflow"))
        }
    }

    fn snapshot(&self) -> (r: u32) {
        *self
    }

    fn is_predefined(&self, name: &str) -> (r: bool) {
        false
    }

    fn call_predefined(&mut self, name: &str, args: &[ProgramValue]) -> (r: CompileResult<ProgramValue>) {
        Err(msg_fn_not_found_text(name))
    }
}

pub open spec fn msg_count_overflow() -> Seq<char> {
    "Instruction count overflow"@
}

/// The number of loop iterations and calls that one run may perform.
pub const STEP_LIMIT: u64 = 0xFFFF_FFFF_FFFF_FFFF;

/// The stack, in bytes, that must remain before a function body runs on the current
/// stack; with less left, the body runs on a newly allocated stack.
pub const BODY_RED_ZONE: usize = 32768;

/// The size, in bytes, of a newly allocated stack for a function body.
pub const BODY_STACK_SIZE: usize = 1048576;

// ----------------------------------------------------------------------------
// Messages
// ----------------------------------------------------------------------------

pub open spec fn msg_nonlocal(name: Seq<char>) -> Seq<char> {
    "Pure function accesses non-local variable '"@ + name + "'"@
}

pub open spec fn msg_var_not_found(name: Seq<char>) -> Seq<char> {
    "Variable "@ + name + " not found"@
}

pub open spec fn msg_calls_non_pure(name: Seq<char>) -> Seq<char> {
    "Pure function calls non-pure function '"@ + name + "'"@
}

pub open spec fn msg_fn_not_found(name: Seq<char>) -> Seq<char> {
    "Function "@ + name + " not found"@
}

pub open spec fn msg_arg_count(name: Seq<char>, expected: nat, got: nat) -> Seq<char> {
    "'"@ + name + "' expects "@ + decimal(expected) + " arguments but got "@ + decimal(got)
}

pub open spec fn msg_non_hashable(name: Seq<char>) -> Seq<char> {
    "Pure function '"@ + name + "' received non-hashable argument"@
}

pub open spec fn msg_not_function(name: Seq<char>) -> Seq<char> {
    "'"@ + name + "' is not a function"@
}

pub open spec fn msg_index_range(i: i64) -> Seq<char> {
    "Index "@ + decimal_signed(i as int) + " out of range"@
}

pub open spec fn msg_step_limit() -> Seq<char> {
    "Execution step limit reached"@
}

pub open spec fn msg_float() -> Seq<char> {
    "Floating-point values are not supported"@
}

pub open spec fn msg_condition() -> Seq<char> {
    "Condition expression is not a boolean"@
}

pub open spec fn msg_dict_key() -> Seq<char> {
    "Dict keys must be hashable (int, string, or bool)"@
}

fn msg_fn_not_found_text(name: &str) -> (r: CompileError)
    ensures
        r@ == msg_fn_not_found(name@),
{
    let s = String::from_str("Function ").concat(name).concat(" not found");
    CompileError::new(s)
}

// ----------------------------------------------------------------------------
// Association lists
// ----------------------------------------------------------------------------

/// `i` is the first position of `s` whose key is `k`.
pub open spec fn key_at<K, V>(s: Seq<(K, V)>, k: K, i: int) -> bool {
    &&& 0 <= i < s.len()
    &&& s[i].0 == k
    &&& forall|j: int| 0 <= j < i ==> s[j].0 != k
}

/// The first position of `s` with key `k`, if any.
pub open spec fn find_index<K, V>(s: Seq<(K, V)>, k: K) -> Option<int> {
    if exists|i: int| key_at(s, k, i) {
        Some(choose|i: int| key_at(s, k, i))
    } else {
        None
    }
}

/// `s` with the value of key `k` replaced by `v`, or the pair appended where `k` is new.
pub open spec fn assoc_insert<K, V>(s: Seq<(K, V)>, k: K, v: V) -> Seq<(K, V)> {
    match find_index(s, k) {
        Some(i) => s.update(i, (k, v)),
        None => s.push((k, v)),
    }
}

pub proof fn lemma_key_at_unique<K, V>(s: Seq<(K, V)>, k: K, i: int, j: int)
    requires
        key_at(s, k, i),
        key_at(s, k, j),
    ensures
        i == j,
{
    if i < j {
        assert(s[i].0 != k);
    } else if j < i {
        assert(s[j].0 != k);
    }
}

/// After an insertion, the key is found at a position that holds the inserted value,
/// and every other key is found where, and with what, it was found before.
pub proof fn lemma_assoc_insert_find<K, V>(s: Seq<(K, V)>, k: K, v: V, other: K)
    requires
        other != k,
    ensures
        find_index(assoc_insert(s, k, v), k) is Some,
        assoc_insert(s, k, v)[find_index(assoc_insert(s, k, v), k)->0].1 == v,
        find_index(assoc_insert(s, k, v), other) == find_index(s, other),
        find_index(s, other) is Some ==> assoc_insert(s, k, v)[find_index(s, other)->0].1
            == s[find_index(s, other)->0].1,
{
    let s2 = assoc_insert(s, k, v);
    match find_index(s, k) {
        Some(i) => {
            assert(key_at(s, k, i));
            assert(key_at(s2, k, i));
            let c = choose|c: int| key_at(s2, k, c);
            lemma_key_at_unique(s2, k, i, c);
        },
        None => {
            let n = s.len() as int;
            assert forall|j: int| 0 <= j < n implies s[j].0 != k by {
                if s[j].0 == k {
                    let m = lemma_first_key_from(s, k, j);
                    assert(key_at(s, k, m));
                }
            }
            assert(key_at(s2, k, n));
            let c = choose|c: int| key_at(s2, k, c);
            lemma_key_at_unique(s2, k, n, c);
        },
    }
    if exists|j: int| key_at(s, other, j) {
        let j = choose|j: int| key_at(s, other, j);
        assert(key_at(s2, other, j));
        let c = choose|c: int| key_at(s2, other, c);
        lemma_key_at_unique(s2, other, j, c);
    } else {
        assert forall|j: int| !key_at(s2, other, j) by {
            if key_at(s2, other, j) {
                if j < s.len() {
                    assert forall|m: int| 0 <= m < j implies s[m].0 != other by {
                        assert(s2[m].0 != other);
                    }
                    assert(key_at(s, other, j));
                }
            }
        }
    }
}

/// Where some position holds key `k`, a first such position exists at or below it.
pub proof fn lemma_first_key_from<K, V>(s: Seq<(K, V)>, k: K, j: int) -> (m: int)
    requires
        0 <= j < s.len(),
        s[j].0 == k,
    ensures
        key_at(s, k, m),
        m <= j,
    decreases j,
{
    if exists|i: int| 0 <= i < j && s[i].0 == k {
        let i = choose|i: int| 0 <= i < j && s[i].0 == k;
        lemma_first_key_from(s, k, i)
    } else {
        j
    }
}

/// Giving a key a new value where it already stands keeps it found at the same place.
proof fn lemma_update_keeps_index<K, V>(s: Seq<(K, V)>, k: K, i: int, v: V)
    requires
        find_index(s, k) == Some(i),
    ensures
        find_index(s.update(i, (k, v)), k) == Some(i),
{
    let s2 = s.update(i, (k, v));
    assert(key_at(s, k, i));
    assert(key_at(s2, k, i));
    let c = choose|c: int| key_at(s2, k, c);
    lemma_key_at_unique(s2, k, i, c);
}

// ----------------------------------------------------------------------------
// The state of a run
// ----------------------------------------------------------------------------

/// How control leaves the statement that ran last.
pub enum FlowModel {
    Normal,
    Continue,
    Break,
    Return(ValueModel),
}

/// One frame of the call stack: its variables, the functions declared in it, and
/// whether it is the frame of a pure function.
pub struct FrameModel {
    pub vars: Seq<(Seq<char>, ValueModel)>,
    pub funcs: Seq<(Seq<char>, StmtModel)>,
    pub is_pure: bool,
}

/// The state of a run: the control flow, the call stack, the results of pure calls by
/// function name and arguments, and the steps left in the budget.
pub struct StateModel<D> {
    pub flow: FlowModel,
    pub frames: Seq<FrameModel>,
    pub cache: Seq<((Seq<char>, Seq<HashableProgramValue>), (ValueModel, D))>,
    pub fuel: nat,
}

/// What a part of a run ends with: the state, the metadata and a result.
pub struct Outcome<D, M, T> {
    pub st: StateModel<D>,
    pub meta: M,
    pub res: Result<T, Seq<char>>,
}

/// What a function name stands for.
pub enum CalleeModel {
    User(StmtModel),
    Predefined,
}

/// The state in which a program starts: one empty frame, no cached call, the full budget.
pub open spec fn initial_state<D>() -> StateModel<D> {
    StateModel {
        flow: FlowModel::Normal,
        frames: seq![FrameModel { vars: Seq::empty(), funcs: Seq::empty(), is_pure: false }],
        cache: Seq::empty(),
        fuel: STEP_LIMIT as nat,
    }
}

/// The highest frame that holds a variable of this name.
pub open spec fn var_frame(frames: Seq<FrameModel>, name: Seq<char>) -> Option<int>
    decreases frames.len(),
{
    if frames.len() == 0 {
        None
    } else if find_index(frames.last().vars, name) is Some {
        Some(frames.len() - 1)
    } else {
        var_frame(frames.drop_last(), name)
    }
}

/// The highest frame that holds a function of this name.
pub open spec fn fn_frame(frames: Seq<FrameModel>, name: Seq<char>) -> Option<int>
    decreases frames.len(),
{
    if frames.len() == 0 {
        None
    } else if find_index(frames.last().funcs, name) is Some {
        Some(frames.len() - 1)
    } else {
        fn_frame(frames.drop_last(), name)
    }
}

/// The value of a variable: inside a pure function only its own frame is seen,
/// elsewhere the highest frame that has the variable.
pub open spec fn lookup_var(frames: Seq<FrameModel>, name: Seq<char>) -> Result<ValueModel, Seq<char>> {
    let top = frames.last();
    if top.is_pure {
        match find_index(top.vars, name) {
            Some(i) => Ok(top.vars[i].1),
            None => Err(msg_nonlocal(name)),
        }
    } else {
        match var_frame(frames, name) {
            Some(f) => Ok(frames[f].vars[find_index(frames[f].vars, name)->0].1),
            None => Err(msg_var_not_found(name)),
        }
    }
}

/// The frames with the variable declared, or redeclared, in the top frame.
pub open spec fn decl_var(frames: Seq<FrameModel>, name: Seq<char>, v: ValueModel) -> Seq<FrameModel> {
    let top = frames.last();
    frames.update(
        frames.len() - 1,
        FrameModel { vars: assoc_insert(top.vars, name, v), ..top },
    )
}

/// The frames with an existing variable given a new value, where it can be reached.
pub open spec fn assign_var(frames: Seq<FrameModel>, name: Seq<char>, v: ValueModel) -> Result<Seq<FrameModel>, Seq<char>> {
    let top = frames.last();
    if top.is_pure {
        match find_index(top.vars, name) {
            Some(i) => Ok(frames.update(
                frames.len() - 1,
                FrameModel { vars: top.vars.update(i, (name, v)), ..top },
            )),
            None => Err(msg_nonlocal(name)),
        }
    } else {
        match var_frame(frames, name) {
            Some(f) => {
                let fr = frames[f];
                let i = find_index(fr.vars, name)->0;
                Ok(frames.update(f, FrameModel { vars: fr.vars.update(i, (name, v)), ..fr }))
            },
            None => Err(msg_var_not_found(name)),
        }
    }
}

/// The frames with a function declared, or redeclared, in the top frame.
pub open spec fn decl_fn(frames: Seq<FrameModel>, name: Seq<char>, s: StmtModel) -> Seq<FrameModel> {
    let top = frames.last();
    frames.update(
        frames.len() - 1,
        FrameModel { funcs: assoc_insert(top.funcs, name, s), ..top },
    )
}

/// A frame that holds a variable stays the highest such frame when only that frame
/// changes and keeps the variable.
proof fn lemma_var_frame_update(frames: Seq<FrameModel>, name: Seq<char>, f: int, fr: FrameModel)
    requires
        var_frame(frames, name) == Some(f),
        find_index(fr.vars, name) is Some,
    ensures
        var_frame(frames.update(f, fr), name) == Some(f),
    decreases frames.len(),
{
    let frames2 = frames.update(f, fr);
    lemma_var_frame_bounds(frames, name);
    if f == frames.len() - 1 {
        assert(frames2.last() == fr);
    } else {
        assert(frames2.last() == frames.last());
        assert(frames2.drop_last() =~= frames.drop_last().update(f, fr));
        lemma_var_frame_update(frames.drop_last(), name, f, fr);
    }
}

proof fn lemma_var_frame_bounds(frames: Seq<FrameModel>, name: Seq<char>)
    ensures
        var_frame(frames, name) matches Some(f) ==> 0 <= f < frames.len()
            && find_index(frames[f].vars, name) is Some,
    decreases frames.len(),
{
    if frames.len() > 0 && !(find_index(frames.last().vars, name) is Some) {
        lemma_var_frame_bounds(frames.drop_last(), name);
    }
}

/// A variable declared in the top frame reads back as the value it was declared with.
pub proof fn lemma_decl_var_then_lookup(frames: Seq<FrameModel>, name: Seq<char>, v: ValueModel)
    requires
        frames.len() > 0,
    ensures
        lookup_var(decl_var(frames, name, v), name) == Ok::<ValueModel, Seq<char>>(v),
{
    let top = frames.last();
    assert(name.push('x').len() != name.len());
    lemma_assoc_insert_find(top.vars, name, v, name.push('x'));
    let frames2 = decl_var(frames, name, v);
    assert(frames2.last().vars == assoc_insert(top.vars, name, v));
    assert(frames2.last().is_pure == top.is_pure);
}

/// A declaration leaves every other variable reading as it did before.
pub proof fn lemma_decl_var_keeps_others(frames: Seq<FrameModel>, name: Seq<char>, v: ValueModel, other: Seq<char>)
    requires
        frames.len() > 0,
        other != name,
    ensures
        lookup_var(decl_var(frames, name, v), other) == lookup_var(frames, other),
{
    let top = frames.last();
    let frames2 = decl_var(frames, name, v);
    lemma_assoc_insert_find(top.vars, name, v, other);
    assert(frames2.drop_last() =~= frames.drop_last());
    if !top.is_pure {
        lemma_var_frame_bounds(frames, other);
        lemma_var_frame_bounds(frames2, other);
    }
}

/// A variable that was assigned reads back as the value it was given.
pub proof fn lemma_assign_var_then_lookup(frames: Seq<FrameModel>, name: Seq<char>, v: ValueModel)
    requires
        frames.len() > 0,
        assign_var(frames, name, v) is Ok,
    ensures
        lookup_var(assign_var(frames, name, v)->Ok_0, name) == Ok::<ValueModel, Seq<char>>(v),
{
    let top = frames.last();
    let frames2 = assign_var(frames, name, v)->Ok_0;
    if top.is_pure {
        let i = find_index(top.vars, name)->0;
        lemma_update_keeps_index(top.vars, name, i, v);
        assert(frames2.last().vars == top.vars.update(i, (name, v)));
    } else {
        lemma_var_frame_bounds(frames, name);
        let f = var_frame(frames, name)->0;
        let fr = frames[f];
        let i = find_index(fr.vars, name)->0;
        lemma_update_keeps_index(fr.vars, name, i, v);
        let fr2 = FrameModel { vars: fr.vars.update(i, (name, v)), ..fr };
        lemma_var_frame_update(frames, name, f, fr2);
        assert(frames2.last().is_pure == top.is_pure);
    }
}

/// What a called name stands for: the highest user function of that name, where a
/// pure function may call only pure ones, or else a predefined function.
pub open spec fn lookup_fn<M: CompilingMetadata>(frames: Seq<FrameModel>, name: Seq<char>, m: M::Model) -> Result<CalleeModel, Seq<char>> {
    match fn_frame(frames, name) {
        Some(f) => {
            let s = frames[f].funcs[find_index(frames[f].funcs, name)->0].1;
            if frames.last().is_pure && (s matches StmtModel::Function(_, _, _, p) && !p) {
                Err(msg_calls_non_pure(name))
            } else {
                Ok(CalleeModel::User(s))
            }
        },
        None => if M::has_predefined(m, name) {
            Ok(CalleeModel::Predefined)
        } else {
            Err(msg_fn_not_found(name))
        },
    }
}

/// The variables of a new frame with the parameters bound to the first `n` arguments in turn.
pub open spec fn bind_params(params: Seq<Seq<char>>, args: Seq<ValueModel>, n: nat) -> Seq<(Seq<char>, ValueModel)>
    decreases n,
{
    if n == 0 {
        Seq::empty()
    } else {
        let k = (n - 1) as nat;
        assoc_insert(bind_params(params, args, k), params[k as int], args[k as int])
    }
}

/// The element or entry that indexing a list or dictionary gives.
pub open spec fn index_value(container: ValueModel, idx: ValueModel) -> Result<ValueModel, Seq<char>> {
    match container {
        ValueModel::List(l) => match idx {
            ValueModel::Int(i) => if 0 <= i < l.len() {
                Ok(l[i as int])
            } else {
                Err(msg_index_range(i))
            },
            _ => Err("Index operator on lists can only be used with integers."@),
        },
        ValueModel::Dict(d) => match hashable_of(idx) {
            Some(k) => match dict_get(d, k) {
                Some(v) => Ok(v),
                None => Err("Key not found in dict"@),
            },
            None => Err("Index operator on dicts can only be used with integers, bools, or strings."@),
        },
        _ => Err("Index operator can only be used on lists or dicts."@),
    }
}

/// The keys that the arguments of a pure call stand for.
pub open spec fn arg_keys(args: Seq<ValueModel>) -> Seq<HashableProgramValue> {
    Seq::new(args.len(), |i: int| hashable_of(args[i])->0)
}

/// All arguments can serve as keys.
pub open spec fn all_hashable(args: Seq<ValueModel>) -> bool {
    forall|i: int| 0 <= i < args.len() ==> (#[trigger] hashable_of(args[i])) is Some
}

// ----------------------------------------------------------------------------
// The semantics
// ----------------------------------------------------------------------------

pub open spec fn fail<D, M, T>(st: StateModel<D>, m: M, msg: Seq<char>) -> Outcome<D, M, T> {
    Outcome { st, meta: m, res: Err(msg) }
}

/// The outcome of an atomic instruction.
pub open spec fn atomic<M: CompilingMetadata>(st: StateModel<M::DiffModel>, m: M::Model) -> Outcome<M::DiffModel, M::Model, ()> {
    let (m2, e) = M::atomic_step(m);
    Outcome {
        st,
        meta: m2,
        res: match e {
            Some(x) => Err(x),
            None => Ok(()),
        },
    }
}

/// The outcome of an instruction that costs nothing.
pub open spec fn zero<M: CompilingMetadata>(st: StateModel<M::DiffModel>, m: M::Model) -> Outcome<M::DiffModel, M::Model, ()> {
    let (m2, e) = M::zero_step(m);
    Outcome {
        st,
        meta: m2,
        res: match e {
            Some(x) => Err(x),
            None => Ok(()),
        },
    }
}

/// Runs a statement.
pub open spec fn run_stmt<M: CompilingMetadata>(s: StmtModel, st: StateModel<M::DiffModel>, m: M::Model) -> Outcome<M::DiffModel, M::Model, ()>
    decreases st.fuel, 1nat, s, 0nat,
{
    if st.flow is Return {
        zero::<M>(st, m)
    } else {
        match s {
            StmtModel::Block(ss) => run_block::<M>(ss, 0, st, m),
            StmtModel::Pass => atomic::<M>(st, m),
            StmtModel::Break => atomic::<M>(StateModel { flow: FlowModel::Break, ..st }, m),
            StmtModel::Continue => atomic::<M>(StateModel { flow: FlowModel::Continue, ..st }, m),
            StmtModel::Return(e) => match e {
                Some(e) => {
                    let o = run_expr::<M>(e, st, m);
                    match o.res {
                        Ok(v) => atomic::<M>(StateModel { flow: FlowModel::Return(v), ..o.st }, o.meta),
                        Err(x) => fail(o.st, o.meta, x),
                    }
                },
                None => atomic::<M>(StateModel { flow: FlowModel::Return(ValueModel::NoneValue), ..st }, m),
            },
            StmtModel::Decl(name, e) => {
                let o = run_expr::<M>(e, st, m);
                match o.res {
                    Ok(v) => atomic::<M>(StateModel { frames: decl_var(o.st.frames, name, v), ..o.st }, o.meta),
                    Err(x) => fail(o.st, o.meta, x),
                }
            },
            StmtModel::Assign(name, e) => match lookup_var(st.frames, name) {
                Err(x) => fail(st, m, x),
                Ok(_) => {
                    let o = run_expr::<M>(e, st, m);
                    match o.res {
                        Ok(v) => match assign_var(o.st.frames, name, v) {
                            Ok(fr) => atomic::<M>(StateModel { frames: fr, ..o.st }, o.meta),
                            Err(x) => fail(o.st, o.meta, x),
                        },
                        Err(x) => fail(o.st, o.meta, x),
                    }
                },
            },
            StmtModel::If(c, t, e) => {
                let o = run_expr::<M>(c, st, m);
                match o.res {
                    Err(x) => fail(o.st, o.meta, x),
                    Ok(ValueModel::Bool(b)) => if o.st.fuel <= st.fuel {
                        if b {
                            let o2 = run_stmt::<M>(*t, o.st, o.meta);
                            match o2.res {
                                Ok(_) => atomic::<M>(o2.st, o2.meta),
                                Err(x) => fail(o2.st, o2.meta, x),
                            }
                        } else {
                            match e {
                                Some(eb) => {
                                    let o2 = run_stmt::<M>(*eb, o.st, o.meta);
                                    match o2.res {
                                        Ok(_) => atomic::<M>(o2.st, o2.meta),
                                        Err(x) => fail(o2.st, o2.meta, x),
                                    }
                                },
                                None => atomic::<M>(o.st, o.meta),
                            }
                        }
                    } else {
                        fail(o.st, o.meta, msg_step_limit())
                    },
                    Ok(_) => fail(o.st, o.meta, msg_condition()),
                }
            },
            StmtModel::Loop(b) => {
                let o = atomic::<M>(st, m);
                match o.res {
                    Ok(_) => run_loop::<M>(*b, o.st, o.meta),
                    Err(x) => o,
                }
            },
            StmtModel::Function(name, _, _, _) => atomic::<M>(StateModel { frames: decl_fn(st.frames, name, s), ..st }, m),
            StmtModel::Call(name, args) => {
                let o = run_expr::<M>(ExprModel::Call(name, args), st, m);
                match o.res {
                    Ok(_) => atomic::<M>(o.st, o.meta),
                    Err(x) => fail(o.st, o.meta, x),
                }
            },
        }
    }
}

/// Runs the statements of a block from position `i` on, up to the first that leaves
/// the block by `break`, `continue` or `return`.
pub open spec fn run_block<M: CompilingMetadata>(ss: Seq<StmtModel>, i: nat, st: StateModel<M::DiffModel>, m: M::Model) -> Outcome<M::DiffModel, M::Model, ()>
    decreases st.fuel, 1nat, ss, ss.len() - i,
{
    if i >= ss.len() {
        Outcome { st, meta: m, res: Ok(()) }
    } else {
        let o = run_stmt::<M>(ss[i as int], st, m);
        match o.res {
            Err(x) => o,
            Ok(_) => if !(o.st.flow is Normal) {
                o
            } else if o.st.fuel <= st.fuel {
                run_block::<M>(ss, i + 1, o.st, o.meta)
            } else {
                fail(o.st, o.meta, msg_step_limit())
            },
        }
    }
}

/// Runs the iterations of a loop, each taking one step of the budget.
pub open spec fn run_loop<M: CompilingMetadata>(b: StmtModel, st: StateModel<M::DiffModel>, m: M::Model) -> Outcome<M::DiffModel, M::Model, ()>
    decreases st.fuel, 1nat, b, 0nat,
{
    if st.fuel == 0 {
        fail(st, m, msg_step_limit())
    } else {
        let o = run_stmt::<M>(b, StateModel { fuel: (st.fuel - 1) as nat, ..st }, m);
        match o.res {
            Err(x) => o,
            Ok(_) => match o.st.flow {
                FlowModel::Break => Outcome { st: StateModel { flow: FlowModel::Normal, ..o.st }, meta: o.meta, res: Ok(()) },
                FlowModel::Return(_) => o,
                _ => if o.st.fuel < st.fuel {
                    run_loop::<M>(b, StateModel { flow: FlowModel::Normal, ..o.st }, o.meta)
                } else {
                    fail(o.st, o.meta, msg_step_limit())
                },
            },
        }
    }
}

/// Evaluates an expression.
pub open spec fn run_expr<M: CompilingMetadata>(e: ExprModel, st: StateModel<M::DiffModel>, m: M::Model) -> Outcome<M::DiffModel, M::Model, ValueModel>
    decreases st.fuel, 0nat, e, 0nat,
{
    match e {
        ExprModel::Int(i) => Outcome { st, meta: m, res: Ok(ValueModel::Int(i)) },
        ExprModel::Float(_) => fail(st, m, msg_float()),
        ExprModel::Str(_, h) => Outcome { st, meta: m, res: Ok(ValueModel::Str(h)) },
        ExprModel::Boolean(b) => Outcome { st, meta: m, res: Ok(ValueModel::Bool(b)) },
        ExprModel::NoneValue => Outcome { st, meta: m, res: Ok(ValueModel::NoneValue) },
        ExprModel::Variable(name) => Outcome { st, meta: m, res: lookup_var(st.frames, name) },
        ExprModel::List(es) => {
            let o = run_exprs::<M>(es, 0, Seq::empty(), st, m);
            Outcome {
                st: o.st,
                meta: o.meta,
                res: match o.res {
                    Ok(vs) => Ok(ValueModel::List(vs)),
                    Err(x) => Err(x),
                },
            }
        },
        ExprModel::Dict(ps) => {
            let o = run_pairs::<M>(ps, 0, Seq::empty(), st, m);
            Outcome {
                st: o.st,
                meta: o.meta,
                res: match o.res {
                    Ok(d) => Ok(ValueModel::Dict(d)),
                    Err(x) => Err(x),
                },
            }
        },
        ExprModel::BinaryOp(op, l, r) => {
            let o1 = run_expr::<M>(*l, st, m);
            match o1.res {
                Err(x) => fail(o1.st, o1.meta, x),
                Ok(a) => if o1.st.fuel <= st.fuel {
                    let o2 = run_expr::<M>(*r, o1.st, o1.meta);
                    match o2.res {
                        Err(x) => fail(o2.st, o2.meta, x),
                        Ok(b) => Outcome { st: o2.st, meta: o2.meta, res: spec_binary_op(a, b, op) },
                    }
                } else {
                    fail(o1.st, o1.meta, msg_step_limit())
                },
            }
        },
        ExprModel::UnaryOp(op, v) => {
            let o = run_expr::<M>(*v, st, m);
            match o.res {
                Err(x) => fail(o.st, o.meta, x),
                Ok(a) => Outcome { st: o.st, meta: o.meta, res: spec_unary_op(a, op) },
            }
        },
        ExprModel::Call(name, args) => match lookup_fn::<M>(st.frames, name, m) {
            Err(x) => fail(st, m, x),
            Ok(c) => {
                let o = run_exprs::<M>(args, 0, Seq::empty(), st, m);
                match o.res {
                    Err(x) => fail(o.st, o.meta, x),
                    Ok(vals) => if 0 < o.st.fuel <= st.fuel {
                        run_call::<M>(name, c, vals, StateModel { fuel: (o.st.fuel - 1) as nat, ..o.st }, o.meta)
                    } else {
                        fail(o.st, o.meta, msg_step_limit())
                    },
                }
            },
        },
        ExprModel::Index(name, i) => {
            let o = run_expr::<M>(*i, st, m);
            match o.res {
                Err(x) => fail(o.st, o.meta, x),
                Ok(idx) => match lookup_var(o.st.frames, name) {
                    Err(x) => fail(o.st, o.meta, x),
                    Ok(c) => Outcome { st: o.st, meta: o.meta, res: index_value(c, idx) },
                },
            }
        },
    }
}

/// Evaluates the expressions from position `i` on, in order, after the values `acc`.
pub open spec fn run_exprs<M: CompilingMetadata>(
    es: Seq<ExprModel>,
    i: nat,
    acc: Seq<ValueModel>,
    st: StateModel<M::DiffModel>,
    m: M::Model,
) -> Outcome<M::DiffModel, M::Model, Seq<ValueModel>>
    decreases st.fuel, 0nat, es, es.len() - i,
{
    if i >= es.len() {
        Outcome { st, meta: m, res: Ok(acc) }
    } else {
        let o = run_expr::<M>(es[i as int], st, m);
        match o.res {
            Err(x) => fail(o.st, o.meta, x),
            Ok(v) => if o.st.fuel <= st.fuel {
                run_exprs::<M>(es, i + 1, acc.push(v), o.st, o.meta)
            } else {
                fail(o.st, o.meta, msg_step_limit())
            },
        }
    }
}

/// Evaluates the entries of a dictionary literal from position `i` on, in order,
/// inserting each into `acc`.
pub open spec fn run_pairs<M: CompilingMetadata>(
    ps: Seq<(ExprModel, ExprModel)>,
    i: nat,
    acc: Seq<(HashableProgramValue, ValueModel)>,
    st: StateModel<M::DiffModel>,
    m: M::Model,
) -> Outcome<M::DiffModel, M::Model, Seq<(HashableProgramValue, ValueModel)>>
    decreases st.fuel, 0nat, ps, ps.len() - i,
{
    if i >= ps.len() {
        Outcome { st, meta: m, res: Ok(acc) }
    } else {
        proof {
            assert(decreases_to!(ps => ps[i as int]));
            assert(decreases_to!(ps[i as int] => ps[i as int].0));
            assert(decreases_to!(ps[i as int] => ps[i as int].1));
        }
        let ok = run_expr::<M>(ps[i as int].0, st, m);
        match ok.res {
            Err(x) => fail(ok.st, ok.meta, x),
            Ok(k) => if ok.st.fuel <= st.fuel {
                let ov = run_expr::<M>(ps[i as int].1, ok.st, ok.meta);
                match ov.res {
                    Err(x) => fail(ov.st, ov.meta, x),
                    Ok(v) => match hashable_of(k) {
                        Some(h) => if ov.st.fuel <= st.fuel {
                            run_pairs::<M>(ps, i + 1, dict_insert(acc, h, v), ov.st, ov.meta)
                        } else {
                            fail(ov.st, ov.meta, msg_step_limit())
                        },
                        None => fail(ov.st, ov.meta, msg_dict_key()),
                    },
                }
            } else {
                fail(ok.st, ok.meta, msg_step_limit())
            },
        }
    }
}

/// Calls a function on evaluated arguments.
pub open spec fn run_call<M: CompilingMetadata>(
    name: Seq<char>,
    callee: CalleeModel,
    args: Seq<ValueModel>,
    st: StateModel<M::DiffModel>,
    m: M::Model,
) -> Outcome<M::DiffModel, M::Model, ValueModel>
    decreases st.fuel, 2nat, callee, 0nat,
{
    match callee {
        CalleeModel::Predefined => {
            let (m2, r) = M::predefined_call(m, name, args);
            Outcome { st, meta: m2, res: r }
        },
        CalleeModel::User(s) => match s {
            StmtModel::Function(fname, params, body, is_pure) => {
                if args.len() != params.len() {
                    fail(st, m, msg_arg_count(name, params.len(), args.len()))
                } else if is_pure && !all_hashable(args) {
                    fail(st, m, msg_non_hashable(name))
                } else {
                    let key = (fname, arg_keys(args));
                    match (if is_pure { find_index(st.cache, key) } else { None }) {
                        Some(i) => {
                            let (m2, e) = M::add_diff(m, st.cache[i].1.1);
                            match e {
                                Some(x) => fail(st, m2, x),
                                None => Outcome { st, meta: m2, res: Ok(st.cache[i].1.0) },
                            }
                        },
                        None => {
                            let frame = FrameModel {
                                vars: bind_params(params, args, args.len()),
                                funcs: Seq::empty(),
                                is_pure,
                            };
                            let o = run_stmt::<M>(*body, StateModel { frames: st.frames.push(frame), ..st }, m);
                            let st2 = StateModel { frames: o.st.frames.drop_last(), ..o.st };
                            match o.res {
                                Err(x) => fail(st2, o.meta, x),
                                Ok(_) => {
                                    let rv = match st2.flow {
                                        FlowModel::Return(v) => v,
                                        _ => ValueModel::NoneValue,
                                    };
                                    let st3 = StateModel { flow: FlowModel::Normal, ..st2 };
                                    if is_pure {
                                        match M::diff_of(o.meta, m) {
                                            Ok(d) => Outcome {
                                                st: StateModel { cache: assoc_insert(st3.cache, key, (rv, d)), ..st3 },
                                                meta: o.meta,
                                                res: Ok(rv),
                                            },
                                            Err(x) => fail(st3, o.meta, x),
                                        }
                                    } else {
                                        Outcome { st: st3, meta: o.meta, res: Ok(rv) }
                                    }
                                },
                            }
                        },
                    }
                }
            },
            _ => fail(st, m, msg_not_function(name)),
        },
    }
}

/// A loop that ends without an error leaves with normal flow or with a return: a
/// `break` or `continue` of its body never escapes it.
pub proof fn lemma_run_loop_flow<M: CompilingMetadata>(b: StmtModel, st: StateModel<M::DiffModel>, m: M::Model)
    ensures
        run_loop::<M>(b, st, m).res is Ok ==> (run_loop::<M>(b, st, m).st.flow is Normal
            || run_loop::<M>(b, st, m).st.flow is Return),
    decreases st.fuel,
{
    if st.fuel > 0 {
        let o = run_stmt::<M>(b, StateModel { fuel: (st.fuel - 1) as nat, ..st }, m);
        if o.res is Ok && !(o.st.flow is Break) && !(o.st.flow is Return) && o.st.fuel < st.fuel {
            lemma_run_loop_flow::<M>(b, StateModel { flow: FlowModel::Normal, ..o.st }, o.meta);
        }
    }
}

/// The law of loops: a loop statement first runs its header, one atomic instruction,
/// and then its iterations; and a loop that ends without an error leaves with normal
/// flow or with a return, never with the `break` or `continue` of its body.
pub proof fn lemma_loop_statement<M: CompilingMetadata>(b: StmtModel, st: StateModel<M::DiffModel>, m: M::Model)
    requires
        !(st.flow is Return),
    ensures
        run_stmt::<M>(StmtModel::Loop(Box::new(b)), st, m) == (match M::atomic_step(m).1 {
            Some(x) => Outcome { st, meta: M::atomic_step(m).0, res: Err::<(), Seq<char>>(x) },
            None => run_loop::<M>(b, st, M::atomic_step(m).0),
        }),
        run_stmt::<M>(StmtModel::Loop(Box::new(b)), st, m).res is Ok ==> (
            run_stmt::<M>(StmtModel::Loop(Box::new(b)), st, m).st.flow is Normal
            || run_stmt::<M>(StmtModel::Loop(Box::new(b)), st, m).st.flow is Return),
{
    lemma_run_loop_flow::<M>(b, st, M::atomic_step(m).0);
}

/// The law of pure calls: a pure function called a second time with the same
/// arguments runs no body. The second call leaves the state as the first left it,
/// replays on the metadata the change that the first call recorded (the change its
/// body made, or the one already in the cache), and, unless the replay stops the run,
/// gives back the value of the first call.
pub proof fn lemma_pure_call_replays<M: CompilingMetadata>(
    name: Seq<char>,
    f: StmtModel,
    args: Seq<ValueModel>,
    st: StateModel<M::DiffModel>,
    m: M::Model,
)
    requires
        f matches StmtModel::Function(_, _, _, is_pure) && is_pure,
        run_call::<M>(name, CalleeModel::User(f), args, st, m).res is Ok,
    ensures
        ({
            let o1 = run_call::<M>(name, CalleeModel::User(f), args, st, m);
            let o2 = run_call::<M>(name, CalleeModel::User(f), args, o1.st, o1.meta);
            let key = (f->Function_0, arg_keys(args));
            let d = match find_index(st.cache, key) {
                Some(i) => st.cache[i].1.1,
                None => M::diff_of(o1.meta, m)->Ok_0,
            };
            &&& o2.st == o1.st
            &&& o2.meta == M::add_diff(o1.meta, d).0
            &&& o2.res == (match M::add_diff(o1.meta, d).1 {
                Some(x) => Err::<ValueModel, Seq<char>>(x),
                None => o1.res,
            })
        }),
{
    let key = (f->Function_0, arg_keys(args));
    let o1 = run_call::<M>(name, CalleeModel::User(f), args, st, m);
    if find_index(st.cache, key) is None {
        let other = (key.0.push('a'), key.1);
        assert(other.0.len() != key.0.len());
        if let StmtModel::Function(fname, params, body, is_pure) = f {
            let frame = FrameModel { vars: bind_params(params, args, args.len()), funcs: Seq::empty(), is_pure };
            let o = run_stmt::<M>(*body, StateModel { frames: st.frames.push(frame), ..st }, m);
            let st2 = StateModel { frames: o.st.frames.drop_last(), ..o.st };
            let rv = match st2.flow {
                FlowModel::Return(v) => v,
                _ => ValueModel::NoneValue,
            };
            let st3 = StateModel { flow: FlowModel::Normal, ..st2 };
            let d = M::diff_of(o.meta, m)->Ok_0;
            lemma_assoc_insert_find(st3.cache, key, (rv, d), other);
        }
    }
}

/// What running a whole program does to the metadata, and how the run ends.
pub open spec fn run_program<M: CompilingMetadata>(program: StmtModel, m: M::Model) -> Outcome<M::DiffModel, M::Model, ()> {
    run_stmt::<M>(program, initial_state(), m)
}


// ----------------------------------------------------------------------------
// The interpreter
// ----------------------------------------------------------------------------

fn step_limit_error() -> (r: CompileError)
    ensures
        r@ == msg_step_limit(),
{
    error_from("Execution step limit reached")
}

fn msg_arg_count_text(name: &String, expected: usize, got: usize) -> (r: CompileError)
    ensures
        r@ == msg_arg_count(name@, expected as nat, got as nat),
{
    let s = String::from_str("'").concat(name.as_str()).concat("' expects ");
    let e = decimal_text(expected as u64);
    let s = s.concat(e.as_str()).concat(" arguments but got ");
    let g = decimal_text(got as u64);
    let s = s.concat(g.as_str());
    let r = CompileError::new(s);
    assert(r@ =~= msg_arg_count(name@, expected as nat, got as nat));
    r
}

fn msg_non_hashable_text(name: &String) -> (r: CompileError)
    ensures
        r@ == msg_non_hashable(name@),
{
    CompileError::new(String::from_str("Pure function '").concat(name.as_str()).concat("' received non-hashable argument"))
}

fn msg_not_function_text(name: &String) -> (r: CompileError)
    ensures
        r@ == msg_not_function(name@),
{
    CompileError::new(String::from_str("'").concat(name.as_str()).concat("' is not a function"))
}

fn msg_index_range_text(i: i64) -> (r: CompileError)
    ensures
        r@ == msg_index_range(i),
{
    let d = signed_decimal_text(i);
    let r = CompileError::new(String::from_str("Index ").concat(d.as_str()).concat(" out of range"));
    assert(r@ =~= msg_index_range(i));
    r
}

/// The element or entry that indexing a list or dictionary gives.
fn index_into(container: &ProgramValue, idx: ProgramValue) -> (r: CompileResult<ProgramValue>)
    ensures
        result_model(r) == index_value(container.model(), idx.model()),
{
    match container {
        ProgramValue::List(l) => {
            assert(container.model()->List_0 =~= values_model(l@));
            match idx {
                ProgramValue::Int(i) => if i >= 0 && (i as u64) < (l.len() as u64) {
                    Ok(l[i as usize].duplicate())
                } else {
                    Err(msg_index_range_text(i))
                },
                _ => Err(error_from("Index operator on lists can only be used with integers.")),
            }
        },
        ProgramValue::Dict(d) => {
            assert(container.model()->Dict_0 =~= entries_model(d@));
            match to_hashable(&idx) {
                Some(k) => match find_key(d, k) {
                    Some(j) => Ok(d[j].1.duplicate()),
                    None => Err(error_from("Key not found in dict")),
                },
                None => Err(error_from("Index operator on dicts can only be used with integers, bools, or strings.")),
            }
        },
        _ => Err(error_from("Index operator can only be used on lists or dicts.")),
    }
}

/// Stores a value under a name in a frame's variables, replacing a pair of that name.
fn vars_insert(v: &mut Vec<(String, ProgramValue)>, name: &String, value: ProgramValue)
    ensures
        vars_model(final(v)@) == assoc_insert(vars_model(old(v)@), name@, value.model()),
{
    let ghost vm = value.model();
    match find_var(v, name) {
        Some(i) => {
            v.set(i, (name.clone(), value));
        },
        None => {
            v.push((name.clone(), value));
        },
    }
    assert(vars_model(v@) =~= assoc_insert(vars_model(old(v)@), name@, vm));
}

fn keys_equal(a: &Vec<HashableProgramValue>, b: &Vec<HashableProgramValue>) -> (r: bool)
    ensures
        r == (a@ == b@),
{
    if a.len() != b.len() {
        return false;
    }
    let mut i: usize = 0;
    while i < a.len()
        invariant
            0 <= i <= a@.len(),
            a@.len() == b@.len(),
            forall|j: int| 0 <= j < i ==> a@[j] == b@[j],
        decreases a@.len() - i,
    {
        if a[i] != b[i] {
            return false;
        }
        i = i + 1;
    }
    assert(a@ =~= b@);
    true
}

/// The position of the cached result of a pure call, if there is one.
fn find_cached<M: CompilingMetadata>(c: &Vec<CacheEntry<M::Diff>>, name: &String, key: &Vec<HashableProgramValue>) -> (r: Option<usize>)
    ensures
        match r {
            Some(i) => i < c@.len() && find_index(cache_model::<M>(c@), (name@, key@)) == Some(i as int),
            None => find_index(cache_model::<M>(c@), (name@, key@)) is None,
        },
{
    let ghost cm = cache_model::<M>(c@);
    let ghost k = (name@, key@);
    let mut i: usize = 0;
    while i < c.len()
        invariant
            0 <= i <= c@.len(),
            cm == cache_model::<M>(c@),
            k == (name@, key@),
            forall|j: int| 0 <= j < i ==> cm[j].0 != k,
        decreases c@.len() - i,
    {
        if c[i].name == *name && keys_equal(&c[i].key, key) {
            proof {
                assert(key_at(cm, k, i as int));
                let x = choose|x: int| key_at(cm, k, x);
                lemma_key_at_unique(cm, k, i as int, x);
            }
            return Some(i);
        }
        i = i + 1;
    }
    proof {
        assert forall|x: int| !key_at(cm, k, x) by {
            if key_at(cm, k, x) {
                assert(cm[x].0 != k);
            }
        }
    }
    None
}

/// Records the result of a pure call, replacing an earlier record for the same call.
fn cache_insert<M: CompilingMetadata>(c: &mut Vec<CacheEntry<M::Diff>>, name: &String, key: Vec<HashableProgramValue>, value: ProgramValue, diff: M::Diff)
    ensures
        cache_model::<M>(final(c)@) == assoc_insert(cache_model::<M>(old(c)@), (name@, key@), (value.model(), M::diff_model(&diff))),
{
    let ghost k = (name@, key@);
    let ghost v = (value.model(), M::diff_model(&diff));
    match find_cached::<M>(c, name, &key) {
        Some(i) => {
            c.set(i, CacheEntry { name: name.clone(), key, value, diff });
        },
        None => {
            c.push(CacheEntry { name: name.clone(), key, value, diff });
        },
    }
    assert(cache_model::<M>(c@) =~= assoc_insert(cache_model::<M>(old(c)@), k, v));
}

/// The keys of the arguments of a pure call, if every argument can be one.
fn hash_args(args: &[ProgramValue]) -> (r: Option<Vec<HashableProgramValue>>)
    ensures
        match r {
            Some(k) => all_hashable(values_model(args@)) && k@ == arg_keys(values_model(args@)),
            None => !all_hashable(values_model(args@)),
        },
{
    let ghost am = values_model(args@);
    let mut keys: Vec<HashableProgramValue> = Vec::new();
    let mut i: usize = 0;
    while i < args.len()
        invariant
            0 <= i <= args@.len(),
            am == values_model(args@),
            keys@.len() == i,
            forall|j: int| 0 <= j < i ==> (#[trigger] hashable_of(am[j])) == Some(keys@[j]),
        decreases args@.len() - i,
    {
        match to_hashable(&args[i]) {
            Some(k) => keys.push(k),
            None => {
                assert(hashable_of(am[i as int]) is None);
                return None;
            },
        }
        i = i + 1;
    }
    assert(keys@ =~= arg_keys(am));
    Some(keys)
}

/// The variables of a new frame: each parameter bound to its argument, in turn.
fn bind_args(params: &Vec<NotPythonExprVariable>, args: &[ProgramValue]) -> (vars: Vec<(String, ProgramValue)>)
    requires
        params@.len() == args@.len(),
    ensures
        vars_model(vars@) == bind_params(
            Seq::new(params@.len() as nat, |i: int| params@[i].name@),
            values_model(args@),
            args@.len() as nat,
        ),
{
    let ghost pm = Seq::new(params@.len() as nat, |i: int| params@[i].name@);
    let ghost am = values_model(args@);
    let mut vars: Vec<(String, ProgramValue)> = Vec::new();
    assert(vars_model(vars@) =~= bind_params(pm, am, 0));
    let mut j: usize = 0;
    while j < params.len()
        invariant
            0 <= j <= params@.len(),
            params@.len() == args@.len(),
            am == values_model(args@),
            pm == Seq::new(params@.len() as nat, |i: int| params@[i].name@),
            vars_model(vars@) == bind_params(pm, am, j as nat),
        decreases params@.len() - j,
    {
        let v = args[j].duplicate();
        vars_insert(&mut vars, &params[j].name, v);
        j = j + 1;
    }
    vars
}

/// Runs a statement.
pub fn compile_stmt<'a, M: CompilingMetadata>(
    stmt: &'a NotPythonStmt,
    state: &mut ExecutionState<'a, M>,
    meta: &mut M,
) -> (r: CompileResult<()>)
    requires
        old(state).call_stack@.len() > 0,
    ensures
        final(state).call_stack@.len() == old(state).call_stack@.len(),
        final(state).steps_left <= old(state).steps_left,
        stmt is Loop && r is Ok ==> (final(state).control_flow is Normal || final(state).control_flow is Return),
        stmt is Loop && M::halted(old(meta).model()) ==> r is Err,
        halt_or::<M>(old(meta).model(), final(meta).model(), r is Err,
            final(meta).model() == run_stmt::<M>(stmt.model(), old(state).model(), old(meta).model()).meta
            && unit_model(r) == run_stmt::<M>(stmt.model(), old(state).model(), old(meta).model()).res
            && (r is Ok ==> final(state).model() == run_stmt::<M>(stmt.model(), old(state).model(), old(meta).model()).st)),
    decreases old(state).steps_left, 1nat, stmt,
{
    if let ControlFlow::Return(_) = state.control_flow {
        return meta.log_zero_instruction();
    }
    match stmt {
        NotPythonStmt::Block(stmts) => {
            assert(stmt.model()->Block_0 =~= stmts_model(stmts@));
            compile_block(stmts, state, meta)
        },
        NotPythonStmt::Pass => meta.log_atomic_instruction(),
        NotPythonStmt::Break => {
            state.control_flow = ControlFlow::Break;
            meta.log_atomic_instruction()
        },
        NotPythonStmt::Continue => {
            state.control_flow = ControlFlow::Continue;
            meta.log_atomic_instruction()
        },
        NotPythonStmt::Return(expr) => {
            let v = match expr {
                Some(e) => match eval_expr(e, state, meta) {
                    Ok(v) => v,
                    Err(x) => return Err(x),
                },
                None => ProgramValue::NoneValue,
            };
            state.control_flow = ControlFlow::Return(v);
            meta.log_atomic_instruction()
        },
        NotPythonStmt::Decl(var, expr) => {
            let v = match eval_expr(expr, state, meta) {
                Ok(v) => v,
                Err(x) => return Err(x),
            };
            state.decl_variable(&var.name, v);
            meta.log_atomic_instruction()
        },
        NotPythonStmt::Assign(var, expr) => {
            match state.variable_ref(&var.name) {
                Ok(_) => {},
                Err(x) => return Err(x),
            }
            let v = match eval_expr(expr, state, meta) {
                Ok(v) => v,
                Err(x) => return Err(x),
            };
            match state.assign_variable(&var.name, v) {
                Ok(()) => {},
                Err(x) => return Err(x),
            }
            meta.log_atomic_instruction()
        },
        NotPythonStmt::If { condition, then, else_ } => {
            let c = match eval_expr(condition, state, meta) {
                Ok(v) => v,
                Err(x) => return Err(x),
            };
            match c {
                ProgramValue::Bool(b) => {
                    if b {
                        match compile_stmt(then, state, meta) {
                            Ok(()) => {},
                            Err(x) => return Err(x),
                        }
                        meta.log_atomic_instruction()
                    } else {
                        match else_ {
                            Some(e) => {
                                match compile_stmt(e, state, meta) {
                                    Ok(()) => {},
                                    Err(x) => return Err(x),
                                }
                                meta.log_atomic_instruction()
                            },
                            None => meta.log_atomic_instruction(),
                        }
                    }
                },
                _ => Err(error_from("Condition expression is not a boolean")),
            }
        },
        NotPythonStmt::Loop(body) => {
            match meta.log_atomic_instruction() {
                Ok(()) => {},
                Err(x) => return Err(x),
            }
            let ghost target = run_stmt::<M>(stmt.model(), old(state).model(), old(meta).model());
            assert(!M::halted(meta.model()) ==> run_loop::<M>(body.model(), state.model(), meta.model()) == target);
            let ghost n = state.call_stack@.len();
            let ghost s0 = old(state).steps_left;
            loop
                invariant
                    target == run_stmt::<M>(stmt.model(), old(state).model(), old(meta).model()),
                    s0 == old(state).steps_left,
                    !M::halted(old(meta).model()),
                    M::halted(meta.model()) == M::halted(old(meta).model()),
                    !M::halted(meta.model()) ==> run_loop::<M>(body.model(), state.model(), meta.model()) == target,
                    state.call_stack@.len() == n,
                    n == old(state).call_stack@.len(),
                    n > 0,
                    state.steps_left <= s0,
                decreases state.steps_left,
            {
                if state.steps_left == 0 {
                    return Err(step_limit_error());
                }
                state.steps_left = state.steps_left - 1;
                match compile_stmt(body, state, meta) {
                    Ok(()) => {},
                    Err(x) => return Err(x),
                }
                match state.control_flow {
                    ControlFlow::Break => {
                        state.control_flow = ControlFlow::Normal;
                        return Ok(());
                    },
                    ControlFlow::Return(_) => {
                        return Ok(());
                    },
                    _ => {
                        state.control_flow = ControlFlow::Normal;
                    },
                }
            }
        },
        NotPythonStmt::Function { name, .. } => {
            state.decl_function(name, stmt);
            meta.log_atomic_instruction()
        },
        NotPythonStmt::Call(name, args) => {
            assert(stmt.model()->Call_1 =~= exprs_model(args@));
            match eval_call(name, args, state, meta) {
                Ok(_) => {},
                Err(x) => return Err(x),
            }
            meta.log_atomic_instruction()
        },
    }
}

/// Runs a function body through `stacker::maybe_grow`, so that deep recursion of the
/// program does not exhaust the native stack. `maybe_grow` calls the closure on the
/// current stack when at least `red_zone` bytes of it remain, and otherwise on a newly
/// allocated stack of `stack_size` bytes, and returns what the closure returns; the
/// closure runs the verified `compile_stmt`, so the contract is that of `compile_stmt`.
/// Not stated: `maybe_grow` panics when the operating system refuses the memory for a
/// new stack.
#[verifier::external_body]
fn run_body_on_growable_stack<'a, M: CompilingMetadata>(
    red_zone: usize,
    stack_size: usize,
    body: &'a NotPythonStmt,
    state: &mut ExecutionState<'a, M>,
    meta: &mut M,
) -> (r: CompileResult<()>)
    requires
        old(state).call_stack@.len() > 0,
    ensures
        final(state).call_stack@.len() == old(state).call_stack@.len(),
        final(state).steps_left <= old(state).steps_left,
        halt_or::<M>(old(meta).model(), final(meta).model(), r is Err,
            final(meta).model() == run_stmt::<M>(body.model(), old(state).model(), old(meta).model()).meta
            && unit_model(r) == run_stmt::<M>(body.model(), old(state).model(), old(meta).model()).res
            && (r is Ok ==> final(state).model() == run_stmt::<M>(body.model(), old(state).model(), old(meta).model()).st)),
{
    stacker::maybe_grow(red_zone, stack_size, || compile_stmt(body, state, meta))
}

/// Runs the statements of a block in order, up to the first that leaves the block.
fn compile_block<'a, M: CompilingMetadata>(
    stmts: &'a Vec<NotPythonStmt>,
    state: &mut ExecutionState<'a, M>,
    meta: &mut M,
) -> (r: CompileResult<()>)
    requires
        old(state).call_stack@.len() > 0,
    ensures
        final(state).call_stack@.len() == old(state).call_stack@.len(),
        final(state).steps_left <= old(state).steps_left,
        halt_or::<M>(old(meta).model(), final(meta).model(), r is Err,
            final(meta).model() == run_block::<M>(stmts_model(stmts@), 0, old(state).model(), old(meta).model()).meta
            && unit_model(r) == run_block::<M>(stmts_model(stmts@), 0, old(state).model(), old(meta).model()).res
            && (r is Ok ==> final(state).model() == run_block::<M>(stmts_model(stmts@), 0, old(state).model(), old(meta).model()).st)),
    decreases old(state).steps_left, 1nat, stmts,
{
    let ghost ss = stmts_model(stmts@);
    let ghost target = run_block::<M>(ss, 0, state.model(), meta.model());
    let ghost n = state.call_stack@.len();
    let ghost s0 = state.steps_left;
    let mut i: usize = 0;
    while i < stmts.len()
        invariant
            0 <= i <= stmts@.len(),
            ss == stmts_model(stmts@),
            target == run_block::<M>(ss, 0, old(state).model(), old(meta).model()),
            M::halted(meta.model()) == M::halted(old(meta).model()),
            !M::halted(meta.model()) ==> run_block::<M>(ss, i as nat, state.model(), meta.model()) == target,
            state.call_stack@.len() == n,
            n == old(state).call_stack@.len(),
            n > 0,
            state.steps_left <= s0,
            s0 == old(state).steps_left,
        decreases stmts@.len() - i,
    {
        match compile_stmt(&stmts[i], state, meta) {
            Ok(()) => {},
            Err(x) => return Err(x),
        }
        match state.control_flow {
            ControlFlow::Normal => {},
            _ => return Ok(()),
        }
        i = i + 1;
    }
    Ok(())
}

/// Evaluates an expression.
fn eval_expr<'a, M: CompilingMetadata>(
    expr: &NotPythonExpr,
    state: &mut ExecutionState<'a, M>,
    meta: &mut M,
) -> (r: CompileResult<ProgramValue>)
    requires
        old(state).call_stack@.len() > 0,
    ensures
        final(state).call_stack@.len() == old(state).call_stack@.len(),
        final(state).steps_left <= old(state).steps_left,
        halt_or::<M>(old(meta).model(), final(meta).model(), r is Err,
            final(meta).model() == run_expr::<M>(expr.model(), old(state).model(), old(meta).model()).meta
            && result_model(r) == run_expr::<M>(expr.model(), old(state).model(), old(meta).model()).res
            && (r is Ok ==> final(state).model() == run_expr::<M>(expr.model(), old(state).model(), old(meta).model()).st)),
    decreases old(state).steps_left, 0nat, expr,
{
    match expr {
        NotPythonExpr::Int(i) => Ok(ProgramValue::Int(*i)),
        NotPythonExpr::Float(_) => Err(error_from("Floating-point values are not supported")),
        NotPythonExpr::String(p) => Ok(ProgramValue::String(p.1)),
        NotPythonExpr::Boolean(b) => Ok(ProgramValue::Bool(*b)),
        NotPythonExpr::NoneValue => Ok(ProgramValue::NoneValue),
        NotPythonExpr::Variable(var) => state.get_variable(&var.name),
        NotPythonExpr::List(es) => {
            assert(expr.model()->List_0 =~= exprs_model(es@));
            match eval_list(es, state, meta) {
                Ok(vs) => {
                    let r = ProgramValue::List(vs);
                    assert(r.model()->List_0 =~= values_model(vs@));
                    Ok(r)
                },
                Err(x) => Err(x),
            }
        },
        NotPythonExpr::Dict(ps) => {
            assert(expr.model()->Dict_0 =~= pairs_model(ps@));
            match eval_dict(ps, state, meta) {
                Ok(d) => {
                    let r = ProgramValue::Dict(d);
                    assert(r.model()->Dict_0 =~= entries_model(d@));
                    Ok(r)
                },
                Err(x) => Err(x),
            }
        },
        NotPythonExpr::BinaryOp(op, l, r) => {
            let a = match eval_expr(l, state, meta) {
                Ok(v) => v,
                Err(x) => return Err(x),
            };
            let b = match eval_expr(r, state, meta) {
                Ok(v) => v,
                Err(x) => return Err(x),
            };
            eval_binary_op(a, b, *op)
        },
        NotPythonExpr::UnaryOp(op, v) => {
            let a = match eval_expr(v, state, meta) {
                Ok(v) => v,
                Err(x) => return Err(x),
            };
            eval_unary_op(a, *op)
        },
        NotPythonExpr::Call(name, args) => {
            assert(expr.model()->Call_1 =~= exprs_model(args@));
            eval_call(name, args, state, meta)
        },
        NotPythonExpr::Index(var, i) => {
            let idx = match eval_expr(i, state, meta) {
                Ok(v) => v,
                Err(x) => return Err(x),
            };
            match state.variable_ref(&var.name) {
                Ok(c) => index_into(c, idx),
                Err(x) => Err(x),
            }
        },
    }
}

/// Evaluates the elements of a list literal in order.
fn eval_list<'a, M: CompilingMetadata>(
    es: &Vec<NotPythonExpr>,
    state: &mut ExecutionState<'a, M>,
    meta: &mut M,
) -> (r: CompileResult<Vec<ProgramValue>>)
    requires
        old(state).call_stack@.len() > 0,
    ensures
        final(state).call_stack@.len() == old(state).call_stack@.len(),
        final(state).steps_left <= old(state).steps_left,
        halt_or::<M>(old(meta).model(), final(meta).model(), r is Err,
            final(meta).model() == run_exprs::<M>(exprs_model(es@), 0, Seq::empty(), old(state).model(), old(meta).model()).meta
            && match r {
                Ok(vs) => run_exprs::<M>(exprs_model(es@), 0, Seq::empty(), old(state).model(), old(meta).model()).res == Ok::<Seq<ValueModel>, Seq<char>>(values_model(vs@)),
                Err(e) => run_exprs::<M>(exprs_model(es@), 0, Seq::empty(), old(state).model(), old(meta).model()).res == Err::<Seq<ValueModel>, Seq<char>>(e@),
            }
            && (r is Ok ==> final(state).model() == run_exprs::<M>(exprs_model(es@), 0, Seq::empty(), old(state).model(), old(meta).model()).st)),
    decreases old(state).steps_left, 0nat, es,
{
    let ghost em = exprs_model(es@);
    let ghost target = run_exprs::<M>(em, 0, Seq::empty(), state.model(), meta.model());
    let ghost n = state.call_stack@.len();
    let ghost s0 = state.steps_left;
    let mut out: Vec<ProgramValue> = Vec::new();
    assert(values_model(out@) =~= Seq::<ValueModel>::empty());
    let mut i: usize = 0;
    while i < es.len()
        invariant
            0 <= i <= es@.len(),
            em == exprs_model(es@),
            target == run_exprs::<M>(em, 0, Seq::empty(), old(state).model(), old(meta).model()),
            M::halted(meta.model()) == M::halted(old(meta).model()),
            !M::halted(meta.model()) ==> run_exprs::<M>(em, i as nat, values_model(out@), state.model(), meta.model()) == target,
            state.call_stack@.len() == n,
            n == old(state).call_stack@.len(),
            n > 0,
            state.steps_left <= s0,
            s0 == old(state).steps_left,
        decreases es@.len() - i,
    {
        let v = match eval_expr(&es[i], state, meta) {
            Ok(v) => v,
            Err(x) => return Err(x),
        };
        push_value(&mut out, v);
        i = i + 1;
    }
    Ok(out)
}

/// Evaluates the entries of a dictionary literal in order.
fn eval_dict<'a, M: CompilingMetadata>(
    ps: &Vec<(NotPythonExpr, NotPythonExpr)>,
    state: &mut ExecutionState<'a, M>,
    meta: &mut M,
) -> (r: CompileResult<Vec<(HashableProgramValue, ProgramValue)>>)
    requires
        old(state).call_stack@.len() > 0,
    ensures
        final(state).call_stack@.len() == old(state).call_stack@.len(),
        final(state).steps_left <= old(state).steps_left,
        halt_or::<M>(old(meta).model(), final(meta).model(), r is Err,
            final(meta).model() == run_pairs::<M>(pairs_model(ps@), 0, Seq::empty(), old(state).model(), old(meta).model()).meta
            && match r {
                Ok(d) => run_pairs::<M>(pairs_model(ps@), 0, Seq::empty(), old(state).model(), old(meta).model()).res
                    == Ok::<Seq<(HashableProgramValue, ValueModel)>, Seq<char>>(entries_model(d@)),
                Err(e) => run_pairs::<M>(pairs_model(ps@), 0, Seq::empty(), old(state).model(), old(meta).model()).res
                    == Err::<Seq<(HashableProgramValue, ValueModel)>, Seq<char>>(e@),
            }
            && (r is Ok ==> final(state).model() == run_pairs::<M>(pairs_model(ps@), 0, Seq::empty(), old(state).model(), old(meta).model()).st)),
    decreases old(state).steps_left, 0nat, ps,
{
    let ghost pm = pairs_model(ps@);
    let ghost target = run_pairs::<M>(pm, 0, Seq::empty(), state.model(), meta.model());
    let ghost n = state.call_stack@.len();
    let ghost s0 = state.steps_left;
    let mut out: Vec<(HashableProgramValue, ProgramValue)> = Vec::new();
    assert(entries_model(out@) =~= Seq::<(HashableProgramValue, ValueModel)>::empty());
    let mut i: usize = 0;
    while i < ps.len()
        invariant
            0 <= i <= ps@.len(),
            pm == pairs_model(ps@),
            target == run_pairs::<M>(pm, 0, Seq::empty(), old(state).model(), old(meta).model()),
            M::halted(meta.model()) == M::halted(old(meta).model()),
            !M::halted(meta.model()) ==> run_pairs::<M>(pm, i as nat, entries_model(out@), state.model(), meta.model()) == target,
            state.call_stack@.len() == n,
            n == old(state).call_stack@.len(),
            n > 0,
            state.steps_left <= s0,
            s0 == old(state).steps_left,
        decreases ps@.len() - i,
    {
        proof {
            assert(decreases_to!(ps@[i as int] => ps@[i as int].0));
            assert(decreases_to!(ps@[i as int] => ps@[i as int].1));
        }
        let k = match eval_expr(&ps[i].0, state, meta) {
            Ok(v) => v,
            Err(x) => return Err(x),
        };
        let v = match eval_expr(&ps[i].1, state, meta) {
            Ok(v) => v,
            Err(x) => return Err(x),
        };
        match to_hashable(&k) {
            Some(h) => dict_insert_exec(&mut out, h, v),
            None => return Err(error_from("Dict keys must be hashable (int, string, or bool)")),
        }
        i = i + 1;
    }
    Ok(out)
}

/// Calls a function by name: looks it up, evaluates the arguments in order, takes one
/// step of the budget and invokes it.
fn eval_call<'a, M: CompilingMetadata>(
    name: &String,
    args: &Vec<NotPythonExpr>,
    state: &mut ExecutionState<'a, M>,
    meta: &mut M,
) -> (r: CompileResult<ProgramValue>)
    requires
        old(state).call_stack@.len() > 0,
    ensures
        final(state).call_stack@.len() == old(state).call_stack@.len(),
        final(state).steps_left <= old(state).steps_left,
        halt_or::<M>(old(meta).model(), final(meta).model(), r is Err,
            final(meta).model() == run_expr::<M>(ExprModel::Call(name@, exprs_model(args@)), old(state).model(), old(meta).model()).meta
            && result_model(r) == run_expr::<M>(ExprModel::Call(name@, exprs_model(args@)), old(state).model(), old(meta).model()).res
            && (r is Ok ==> final(state).model() == run_expr::<M>(ExprModel::Call(name@, exprs_model(args@)), old(state).model(), old(meta).model()).st)),
    decreases old(state).steps_left, 0nat, args,
{
    let callee = match state.get_function(name, meta) {
        Ok(c) => c,
        Err(x) => return Err(x),
    };
    let ghost em = exprs_model(args@);
    let ghost st0 = state.model();
    let ghost m0 = meta.model();
    let ghost target = run_exprs::<M>(em, 0, Seq::empty(), state.model(), meta.model());
    let ghost n = state.call_stack@.len();
    let ghost s0 = state.steps_left;
    let mut vals = crate::runtime::args_new();
    let mut i: usize = 0;
    while i < args.len()
        invariant
            0 <= i <= args@.len(),
            em == exprs_model(args@),
            st0 == old(state).model(),
            m0 == old(meta).model(),
            target == run_exprs::<M>(em, 0, Seq::empty(), st0, m0),
            lookup_fn::<M>(st0.frames, name@, m0) == Ok::<CalleeModel, Seq<char>>(callee.model()),
            crate::runtime::argument_values(vals).len() == i,
            M::halted(meta.model()) == M::halted(old(meta).model()),
            !M::halted(meta.model()) ==> run_exprs::<M>(em, i as nat, crate::runtime::argument_values(vals), state.model(), meta.model()) == target,
            state.call_stack@.len() == n,
            n == old(state).call_stack@.len(),
            n > 0,
            state.steps_left <= s0,
            s0 == old(state).steps_left,
        decreases args@.len() - i,
    {
        let v = match eval_expr(&args[i], state, meta) {
            Ok(v) => v,
            Err(x) => return Err(x),
        };
        crate::runtime::args_push(&mut vals, v);
        i = i + 1;
    }
    if state.steps_left == 0 {
        return Err(step_limit_error());
    }
    state.steps_left = state.steps_left - 1;
    invoke(name, callee, crate::runtime::args_slice(&vals), state, meta)
}

/// Calls a function on evaluated arguments: a predefined function through the
/// metadata; a user function by running its body in a new frame, where a pure
/// function's result is taken from, or recorded in, the cache of pure calls.
fn invoke<'a, M: CompilingMetadata>(
    name: &String,
    callee: Callee<'a>,
    args: &[ProgramValue],
    state: &mut ExecutionState<'a, M>,
    meta: &mut M,
) -> (r: CompileResult<ProgramValue>)
    requires
        old(state).call_stack@.len() > 0,
    ensures
        final(state).call_stack@.len() == old(state).call_stack@.len(),
        final(state).steps_left <= old(state).steps_left,
        halt_or::<M>(old(meta).model(), final(meta).model(), r is Err,
            final(meta).model() == run_call::<M>(name@, callee.model(), values_model(args@), old(state).model(), old(meta).model()).meta
            && result_model(r) == run_call::<M>(name@, callee.model(), values_model(args@), old(state).model(), old(meta).model()).res
            && (r is Ok ==> final(state).model() == run_call::<M>(name@, callee.model(), values_model(args@), old(state).model(), old(meta).model()).st)),
    decreases old(state).steps_left, 2nat, callee,
{
    match callee {
        Callee::Predefined => meta.call_predefined(name.as_str(), args),
        Callee::User(stmt) => match stmt {
            NotPythonStmt::Function { name: fname, params, body, is_pure } => {
                let ghost pm = Seq::new(params.len() as nat, |i: int| params@[i].name@);
                assert(stmt.model()->Function_1 =~= pm);
                if args.len() != params.len() {
                    return Err(msg_arg_count_text(name, params.len(), args.len()));
                }
                let ghost am = values_model(args@);
                let mut keys: Vec<HashableProgramValue> = Vec::new();
                if *is_pure {
                    keys = match hash_args(args) {
                        Some(k) => k,
                        None => return Err(msg_non_hashable_text(name)),
                    };
                    match find_cached::<M>(&state.pure_caches, fname, &keys) {
                        Some(ci) => {
                            match meta.add_assign(&state.pure_caches[ci].diff) {
                                Ok(()) => {},
                                Err(x) => return Err(x),
                            }
                            return Ok(state.pure_caches[ci].value.duplicate());
                        },
                        None => {},
                    }
                }
                let vars = bind_args(params, args);
                let frame = CallFrame { variables: vars, functions: crate::runtime::table_new(), is_pure: *is_pure };
                assert(frame.model().funcs =~= Seq::<(Seq<char>, StmtModel)>::empty());
                let snapshot = meta.snapshot();
                let ghost before = state.model();
                state.call_stack.push(frame);
                assert(state.model().frames =~= before.frames.push(frame.model()));
                let body_result = run_body_on_growable_stack(BODY_RED_ZONE, BODY_STACK_SIZE, body, state, meta);
                let ghost after = state.model();
                let _ = state.call_stack.pop();
                assert(state.model().frames =~= after.frames.drop_last());
                match body_result {
                    Ok(()) => {},
                    Err(x) => return Err(x),
                }
                let mut flow = ControlFlow::Normal;
                std::mem::swap(&mut flow, &mut state.control_flow);
                let rv = match flow {
                    ControlFlow::Return(v) => v,
                    _ => ProgramValue::NoneValue,
                };
                if *is_pure {
                    match meta.diff(&snapshot) {
                        Ok(d) => {
                            let stored = rv.duplicate();
                            cache_insert::<M>(&mut state.pure_caches, fname, keys, stored, d);
                        },
                        Err(x) => return Err(x),
                    }
                }
                Ok(rv)
            },
            _ => Err(msg_not_function_text(name)),
        },
    }
}

/// Runs a program from its start, reporting to `meta`. Unless the metadata halts the
/// run, the run is the one that the semantics gives.
pub fn compile_with_meta<M: CompilingMetadata>(program: &NotPythonProgram, meta: &mut M) -> (r: CompileResult<()>)
    ensures
        halt_or::<M>(old(meta).model(), final(meta).model(), r is Err,
            final(meta).model() == run_program::<M>(program.model(), old(meta).model()).meta
            && unit_model(r) == run_program::<M>(program.model(), old(meta).model()).res),
{
    let mut state: ExecutionState<M> = ExecutionState::new();
    compile_stmt(&program.statement, &mut state, meta)
}

} // verus!
