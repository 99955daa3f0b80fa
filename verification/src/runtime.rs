//! The executable state of a run, with its variables, functions and cached pure calls.
use vstd::prelude::*;
use crate::ast::{NotPythonStmt, StmtModel};
use crate::compile::{
    CalleeModel, CompilingMetadata, FlowModel, FrameModel, StateModel, assign_var, assoc_insert,
    decl_fn, decl_var, find_index, fn_frame, key_at, lemma_key_at_unique, lookup_fn, lookup_var,
    msg_calls_non_pure, msg_fn_not_found, msg_nonlocal, msg_var_not_found, var_frame,
};
use crate::values::{CompileError, CompileResult, HashableProgramValue, ProgramValue, ValueModel, result_model, values_model};
use linear_map::LinearMap;
use smallvec::SmallVec;

verus! {

/// The map of `linear_map`: its pairs in a vector, searched from the front.
#[verifier::external_type_specification]
#[verifier::external_body]
#[verifier::reject_recursive_types(K)]
#[verifier::reject_recursive_types(V)]
pub struct ExLinearMap<K, V>(LinearMap<K, V>);

/// What a table of functions holds: in the order they were first declared, each name
/// with the statement it stands for.
pub uninterp spec fn function_table(m: LinearMap<String, &NotPythonStmt>) -> Seq<(Seq<char>, StmtModel)>;

/// `LinearMap::new`: a map with no pairs.
#[verifier::external_body]
pub(crate) fn table_new<'a>() -> (r: LinearMap<String, &'a NotPythonStmt>)
    ensures
        function_table(r) == Seq::<(Seq<char>, StmtModel)>::empty(),
{
    LinearMap::new()
}

/// `LinearMap::insert`: where the name is present its statement is replaced in place,
/// otherwise the pair is appended.
#[verifier::external_body]
fn table_insert<'a>(m: &mut LinearMap<String, &'a NotPythonStmt>, name: String, stmt: &'a NotPythonStmt)
    ensures
        function_table(*final(m)) == assoc_insert(function_table(*old(m)), name@, stmt.model()),
{
    m.insert(name, stmt);
}

/// `LinearMap::get`: the statement of the first pair with the name, found by a scan from
/// the front.
#[verifier::external_body]
fn table_get<'a>(m: &LinearMap<String, &'a NotPythonStmt>, name: &str) -> (r: Option<&'a NotPythonStmt>)
    ensures
        match r {
            Some(s) => find_index(function_table(*m), name@) is Some
                && s.model() == function_table(*m)[find_index(function_table(*m), name@)->0].1,
            None => find_index(function_table(*m), name@) is None,
        },
{
    m.get(name).copied()
}

/// The values of the arguments of a call, held in the vector of `smallvec`, which keeps
/// its first four items inline.
#[verifier::external_body]
pub struct ArgValues {
    items: SmallVec<[ProgramValue; 4]>,
}

/// The values of the arguments of a call, in order.
pub uninterp spec fn argument_values(v: ArgValues) -> Seq<ValueModel>;

/// `SmallVec::new`: no arguments yet.
#[verifier::external_body]
pub(crate) fn args_new() -> (r: ArgValues)
    ensures
        argument_values(r) == Seq::<ValueModel>::empty(),
{
    ArgValues { items: SmallVec::new() }
}

/// `SmallVec::push`: the value appended. It panics when the grown capacity would overflow
/// `usize` or the allocator refuses the memory, at lengths far beyond any call's arguments.
#[verifier::external_body]
pub(crate) fn args_push(v: &mut ArgValues, x: ProgramValue)
    requires
        argument_values(*old(v)).len() < usize::MAX,
    ensures
        argument_values(*final(v)) == argument_values(*old(v)).push(x.model()),
{
    v.items.push(x);
}

/// `SmallVec::as_slice`: the values, in order.
#[verifier::external_body]
pub(crate) fn args_slice(v: &ArgValues) -> (r: &[ProgramValue])
    ensures
        values_model(r@) == argument_values(*v),
{
    v.items.as_slice()
}

/// How control leaves the statement that ran last.
pub enum ControlFlow {
    Normal,
    Continue,
    Break,
    Return(ProgramValue),
}

impl ControlFlow {
    pub open spec fn model(&self) -> FlowModel {
        match self {
            ControlFlow::Normal => FlowModel::Normal,
            ControlFlow::Continue => FlowModel::Continue,
            ControlFlow::Break => FlowModel::Break,
            ControlFlow::Return(v) => FlowModel::Return(v.model()),
        }
    }
}

/// One frame of the call stack.
pub struct CallFrame<'a> {
    pub variables: Vec<(String, ProgramValue)>,
    pub functions: LinearMap<String, &'a NotPythonStmt>,
    pub is_pure: bool,
}

pub open spec fn vars_model(v: Seq<(String, ProgramValue)>) -> Seq<(Seq<char>, ValueModel)> {
    Seq::new(v.len(), |i: int| (v[i].0@, v[i].1.model()))
}


impl<'a> CallFrame<'a> {
    pub open spec fn model(&self) -> FrameModel {
        FrameModel {
            vars: vars_model(self.variables@),
            funcs: function_table(self.functions),
            is_pure: self.is_pure,
        }
    }
}

/// The result of a pure call, by function name and argument keys, with the change it
/// made to the metadata.
pub struct CacheEntry<D> {
    pub name: String,
    pub key: Vec<HashableProgramValue>,
    pub value: ProgramValue,
    pub diff: D,
}

pub open spec fn cache_model<M: CompilingMetadata>(c: Seq<CacheEntry<M::Diff>>) -> Seq<((Seq<char>, Seq<HashableProgramValue>), (ValueModel, M::DiffModel))> {
    Seq::new(c.len(), |i: int| ((c[i].name@, c[i].key@), (c[i].value.model(), M::diff_model(&c[i].diff))))
}

/// The state of a run.
pub struct ExecutionState<'a, M: CompilingMetadata> {
    pub control_flow: ControlFlow,
    pub call_stack: Vec<CallFrame<'a>>,
    pub pure_caches: Vec<CacheEntry<M::Diff>>,
    pub steps_left: u64,
}

pub open spec fn frames_model<'a>(s: Seq<CallFrame<'a>>) -> Seq<FrameModel> {
    Seq::new(s.len(), |i: int| s[i].model())
}

/// What a called name stands for.
pub enum Callee<'a> {
    User(&'a NotPythonStmt),
    Predefined,
}

impl<'a> Callee<'a> {
    pub open spec fn model(&self) -> CalleeModel {
        match self {
            Callee::User(s) => CalleeModel::User(s.model()),
            Callee::Predefined => CalleeModel::Predefined,
        }
    }
}

/// The position of the pair with key `name`, found by a scan from the front.
pub fn find_name<T>(v: &Vec<(String, T)>, name: &String) -> (r: Option<usize>)
    ensures
        match r {
            Some(i) => i < v@.len() && key_at(names_of(v@), name@, i as int),
            None => forall|i: int| !key_at(names_of(v@), name@, i),
        },
{
    let ghost ns = names_of(v@);
    let mut i: usize = 0;
    while i < v.len()
        invariant
            0 <= i <= v@.len(),
            ns == names_of(v@),
            forall|j: int| 0 <= j < i ==> ns[j].0 != name@,
        decreases v@.len() - i,
    {
        if v[i].0 == *name {
            return Some(i);
        }
        i = i + 1;
    }
    proof {
        assert forall|c: int| !key_at(ns, name@, c) by {
            if key_at(ns, name@, c) {
                assert(ns[c].0 != name@);
            }
        }
    }
    None
}

/// The names of an association list, each paired with nothing.
pub open spec fn names_of<T>(v: Seq<(String, T)>) -> Seq<(Seq<char>, ())> {
    Seq::new(v.len(), |i: int| (v[i].0@, ()))
}

/// The first position with key `k` depends only on the keys.
pub proof fn lemma_key_at_keys<A, B>(s: Seq<(Seq<char>, A)>, t: Seq<(Seq<char>, B)>, k: Seq<char>, i: int)
    requires
        s.len() == t.len(),
        forall|j: int| 0 <= j < s.len() ==> s[j].0 == t[j].0,
    ensures
        key_at(s, k, i) == key_at(t, k, i),
{
    if key_at(s, k, i) {
        assert forall|j: int| 0 <= j < i implies t[j].0 != k by {
            assert(s[j].0 != k);
        }
    }
    if key_at(t, k, i) {
        assert forall|j: int| 0 <= j < i implies s[j].0 != k by {
            assert(t[j].0 != k);
        }
    }
}

/// Where the first position with key `k` is `i`, `find_index` gives `i`.
pub proof fn lemma_find_index_at<K, V>(s: Seq<(K, V)>, k: K, i: int)
    requires
        key_at(s, k, i),
    ensures
        find_index(s, k) == Some(i),
{
    let c = choose|c: int| key_at(s, k, c);
    lemma_key_at_unique(s, k, i, c);
}

/// Looks a variable up in a frame.
pub fn find_var(v: &Vec<(String, ProgramValue)>, name: &String) -> (r: Option<usize>)
    ensures
        match r {
            Some(i) => i < v@.len() && find_index(vars_model(v@), name@) == Some(i as int),
            None => find_index(vars_model(v@), name@) is None,
        },
{
    let r = find_name(v, name);
    proof {
        let a = names_of(v@);
        let b = vars_model(v@);
        assert forall|i: int| key_at(a, name@, i) == key_at(b, name@, i) by {
            lemma_key_at_keys(a, b, name@, i);
        }
        match r {
            Some(i) => lemma_find_index_at(b, name@, i as int),
            None => {},
        }
    }
    r
}

/// Looks a function up in a frame.

pub fn msg_nonlocal_text(name: &String) -> (r: CompileError)
    ensures
        r@ == msg_nonlocal(name@),
{
    CompileError::new(String::from_str("Pure function accesses non-local variable '").concat(name.as_str()).concat("'"))
}

pub fn msg_var_not_found_text(name: &String) -> (r: CompileError)
    ensures
        r@ == msg_var_not_found(name@),
{
    CompileError::new(String::from_str("Variable ").concat(name.as_str()).concat(" not found"))
}

pub fn msg_calls_non_pure_text(name: &String) -> (r: CompileError)
    ensures
        r@ == msg_calls_non_pure(name@),
{
    CompileError::new(String::from_str("Pure function calls non-pure function '").concat(name.as_str()).concat("'"))
}

pub fn msg_fn_not_found_string(name: &String) -> (r: CompileError)
    ensures
        r@ == msg_fn_not_found(name@),
{
    CompileError::new(String::from_str("Function ").concat(name.as_str()).concat(" not found"))
}

impl<'a, M: CompilingMetadata> ExecutionState<'a, M> {
    pub open spec fn model(&self) -> StateModel<M::DiffModel> {
        StateModel {
            flow: self.control_flow.model(),
            frames: frames_model(self.call_stack@),
            cache: cache_model::<M>(self.pure_caches@),
            fuel: self.steps_left as nat,
        }
    }

    /// The state in which a program starts.
    pub fn new() -> (r: Self)
        ensures
            r.model() == crate::compile::initial_state::<M::DiffModel>(),
            r.call_stack@.len() == 1,
    {
        let frame = CallFrame { variables: Vec::new(), functions: table_new(), is_pure: false };
        let mut stack: Vec<CallFrame<'a>> = Vec::new();
        stack.push(frame);
        let r = ExecutionState {
            control_flow: ControlFlow::Normal,
            call_stack: stack,
            pure_caches: Vec::new(),
            steps_left: crate::compile::STEP_LIMIT,
        };
        assert(r.call_stack@[0].model().vars =~= Seq::<(Seq<char>, ValueModel)>::empty());
        assert(r.call_stack@[0].model().funcs =~= Seq::<(Seq<char>, StmtModel)>::empty());
        assert(r.model().frames =~= crate::compile::initial_state::<M::DiffModel>().frames);
        assert(r.model().cache =~= crate::compile::initial_state::<M::DiffModel>().cache);
        r
    }

    /// The highest frame holding a variable of this name, with the variable's position.
    fn find_var_frame(&self, name: &String) -> (r: Option<(usize, usize)>)
        ensures
            match r {
                Some((f, i)) => f < self.call_stack@.len()
                    && var_frame(self.model().frames, name@) == Some(f as int)
                    && i < self.call_stack@[f as int].variables@.len()
                    && find_index(self.model().frames[f as int].vars, name@) == Some(i as int),
                None => var_frame(self.model().frames, name@) is None,
            },
    {
        let ghost frames = self.model().frames;
        let mut f: usize = self.call_stack.len();
        assert(frames.subrange(0, f as int) =~= frames);
        while f > 0
            invariant
                f <= self.call_stack@.len(),
                frames == self.model().frames,
                var_frame(frames, name@) == var_frame(frames.subrange(0, f as int), name@),
            decreases f,
        {
            let ghost sub = frames.subrange(0, f as int);
            assert(sub.drop_last() =~= frames.subrange(0, f - 1));
            assert(sub.last() == frames[f - 1]);
            match find_var(&self.call_stack[f - 1].variables, name) {
                Some(i) => {
                    return Some((f - 1, i));
                },
                None => {},
            }
            f = f - 1;
        }
        assert(frames.subrange(0, 0) =~= Seq::<FrameModel>::empty());
        None
    }

    /// The highest frame holding a function of this name, with the function.
    fn find_fn_frame(&self, name: &String) -> (r: Option<(usize, &'a NotPythonStmt)>)
        ensures
            match r {
                Some((f, s)) => f < self.call_stack@.len()
                    && fn_frame(self.model().frames, name@) == Some(f as int)
                    && find_index(self.model().frames[f as int].funcs, name@) is Some
                    && s.model() == self.model().frames[f as int].funcs[
                        find_index(self.model().frames[f as int].funcs, name@)->0].1,
                None => fn_frame(self.model().frames, name@) is None,
            },
    {
        let ghost frames = self.model().frames;
        let mut f: usize = self.call_stack.len();
        assert(frames.subrange(0, f as int) =~= frames);
        while f > 0
            invariant
                f <= self.call_stack@.len(),
                frames == self.model().frames,
                fn_frame(frames, name@) == fn_frame(frames.subrange(0, f as int), name@),
            decreases f,
        {
            let ghost sub = frames.subrange(0, f as int);
            assert(sub.drop_last() =~= frames.subrange(0, f - 1));
            assert(sub.last() == frames[f - 1]);
            match table_get(&self.call_stack[f - 1].functions, name.as_str()) {
                Some(s) => {
                    return Some((f - 1, s));
                },
                None => {},
            }
            f = f - 1;
        }
        assert(frames.subrange(0, 0) =~= Seq::<FrameModel>::empty());
        None
    }

    /// A reference to the value of a variable.
    pub fn variable_ref(&self, name: &String) -> (r: CompileResult<&ProgramValue>)
        requires
            self.call_stack@.len() > 0,
        ensures
            match lookup_var(self.model().frames, name@) {
                Ok(v) => r matches Ok(x) && x.model() == v,
                Err(m) => r matches Err(e) && e@ == m,
            },
    {
        let top = self.call_stack.len() - 1;
        if self.call_stack[top].is_pure {
            match find_var(&self.call_stack[top].variables, name) {
                Some(i) => Ok(&self.call_stack[top].variables[i].1),
                None => Err(msg_nonlocal_text(name)),
            }
        } else {
            match self.find_var_frame(name) {
                Some((f, i)) => Ok(&self.call_stack[f].variables[i].1),
                None => Err(msg_var_not_found_text(name)),
            }
        }
    }

    /// The value of a variable.
    pub fn get_variable(&self, name: &String) -> (r: CompileResult<ProgramValue>)
        requires
            self.call_stack@.len() > 0,
        ensures
            result_model(r) == lookup_var(self.model().frames, name@),
    {
        match self.variable_ref(name) {
            Ok(v) => Ok(v.duplicate()),
            Err(e) => Err(e),
        }
    }

    /// Declares a variable in the top frame, or gives an existing one there a new value.
    pub fn decl_variable(&mut self, name: &String, value: ProgramValue)
        requires
            old(self).call_stack@.len() > 0,
        ensures
            final(self).model() == (StateModel {
                frames: decl_var(old(self).model().frames, name@, value.model()),
                ..old(self).model()
            }),
            final(self).call_stack@.len() == old(self).call_stack@.len(),
    {
        let ghost vm = value.model();
        let top = self.call_stack.len() - 1;
        let ghost old_vars = vars_model(self.call_stack@[top as int].variables@);
        match find_var(&self.call_stack[top].variables, name) {
            Some(i) => {
                self.call_stack[top].variables.set(i, (name.clone(), value));
                assert(vars_model(self.call_stack@[top as int].variables@) =~= assoc_insert(old_vars, name@, vm));
            },
            None => {
                self.call_stack[top].variables.push((name.clone(), value));
                assert(vars_model(self.call_stack@[top as int].variables@) =~= assoc_insert(old_vars, name@, vm));
            },
        }
        assert(self.model().frames =~= decl_var(old(self).model().frames, name@, vm));
    }

    /// Gives an existing variable a new value.
    pub fn assign_variable(&mut self, name: &String, value: ProgramValue) -> (r: CompileResult<()>)
        requires
            old(self).call_stack@.len() > 0,
        ensures
            final(self).call_stack@.len() == old(self).call_stack@.len(),
            final(self).steps_left == old(self).steps_left,
            match assign_var(old(self).model().frames, name@, value.model()) {
                Ok(fr) => r is Ok && final(self).model() == (StateModel { frames: fr, ..old(self).model() }),
                Err(x) => r matches Err(e) && e@ == x,
            },
    {
        let ghost vm = value.model();
        let ghost frames = self.model().frames;
        let top = self.call_stack.len() - 1;
        if self.call_stack[top].is_pure {
            match find_var(&self.call_stack[top].variables, name) {
                Some(i) => {
                    self.call_stack[top].variables.set(i, (name.clone(), value));
                    proof {
                        let fr = frames[top as int];
                        assert(vars_model(self.call_stack@[top as int].variables@) =~= fr.vars.update(i as int, (name@, vm)));
                        assert(self.model().frames =~= frames.update(
                            top as int,
                            FrameModel { vars: fr.vars.update(i as int, (name@, vm)), ..fr },
                        ));
                    }
                    Ok(())
                },
                None => Err(msg_nonlocal_text(name)),
            }
        } else {
            match self.find_var_frame(name) {
                Some((f, i)) => {
                    self.call_stack[f].variables.set(i, (name.clone(), value));
                    proof {
                        let fr = frames[f as int];
                        assert(vars_model(self.call_stack@[f as int].variables@) =~= fr.vars.update(i as int, (name@, vm)));
                        assert(self.model().frames =~= frames.update(
                            f as int,
                            FrameModel { vars: fr.vars.update(i as int, (name@, vm)), ..fr },
                        ));
                    }
                    Ok(())
                },
                None => Err(msg_var_not_found_text(name)),
            }
        }
    }

    /// Declares a function in the top frame, or replaces one of the same name there.
    pub fn decl_function(&mut self, name: &String, stmt: &'a NotPythonStmt)
        requires
            old(self).call_stack@.len() > 0,
        ensures
            final(self).model() == (StateModel {
                frames: decl_fn(old(self).model().frames, name@, stmt.model()),
                ..old(self).model()
            }),
            final(self).call_stack@.len() == old(self).call_stack@.len(),
    {
        let top = self.call_stack.len() - 1;
        let mut frame = self.call_stack.remove(top);
        table_insert(&mut frame.functions, name.clone(), stmt);
        self.call_stack.push(frame);
        assert(self.model().frames =~= decl_fn(old(self).model().frames, name@, stmt.model()));
    }

    /// What a called name stands for.
    pub fn get_function(&self, name: &String, meta: &M) -> (r: CompileResult<Callee<'a>>)
        requires
            self.call_stack@.len() > 0,
        ensures
            match lookup_fn::<M>(self.model().frames, name@, meta.model()) {
                Ok(c) => r matches Ok(x) && x.model() == c,
                Err(x) => r matches Err(e) && e@ == x,
            },
    {
        let top = self.call_stack.len() - 1;
        let in_pure = self.call_stack[top].is_pure;
        match self.find_fn_frame(name) {
            Some((f, stmt)) => {
                if in_pure {
                    match stmt {
                        NotPythonStmt::Function { is_pure, .. } => {
                            if !*is_pure {
                                return Err(msg_calls_non_pure_text(name));
                            }
                        },
                        _ => {},
                    }
                }
                Ok(Callee::User(stmt))
            },
            None => if meta.is_predefined(name.as_str()) {
                Ok(Callee::Predefined)
            } else {
                Err(msg_fn_not_found_string(name))
            },
        }
    }
}

} // verus!
