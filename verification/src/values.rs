//! Run-time values of the interpreter, the operators on them, and its errors.
use vstd::prelude::*;
use crate::ast::{BinaryOp, UnaryOp};
use crate::hashed_string::HashedString;

verus! {

/// An error of compilation or execution, carrying its message.
#[derive(Clone, Debug)]
pub struct CompileError {
    msg: String,
}

impl View for CompileError {
    type V = Seq<char>;

    closed spec fn view(&self) -> Seq<char> {
        self.msg@
    }
}

impl CompileError {
    /// An error with the given message.
    pub fn new(msg: String) -> (r: CompileError)
        ensures
            r@ == msg@,
    {
        CompileError { msg }
    }

    /// The message of the error.
    pub fn to_string(&self) -> (r: String)
        ensures
            r@ == self@,
    {
        self.msg.clone()
    }
}

/// An error whose message is the given text.
pub fn error_from(text: &str) -> (r: CompileError)
    ensures
        r@ == text@,
{
    CompileError::new(String::from_str(text))
}

/// The result of an interpreter step: a value, or the message of an error.
pub type CompileResult<T> = Result<T, CompileError>;

/// A value that can serve as a dictionary key or as an argument of a cached pure call.
#[derive(Clone, Copy, Debug, PartialEq, Eq, Structural, Hash)]
pub enum HashableProgramValue {
    Int(i64),
    String(u128),
    Bool(bool),
}

/// A run-time value.
#[derive(Debug, PartialEq)]
pub enum ProgramValue {
    Int(i64),
    String(HashedString),
    Bool(bool),
    NoneValue,
    List(Vec<ProgramValue>),
    /// The entries of a dictionary, each key at most once, in the order of first insertion.
    Dict(Vec<(HashableProgramValue, ProgramValue)>),
}

/// The mathematical form of a run-time value.
pub enum ValueModel {
    Int(i64),
    Str(u128),
    Bool(bool),
    NoneValue,
    List(Seq<ValueModel>),
    Dict(Seq<(HashableProgramValue, ValueModel)>),
}

impl ProgramValue {
    pub open spec fn model(&self) -> ValueModel
        decreases self,
    {
        match self {
            ProgramValue::Int(i) => ValueModel::Int(*i),
            ProgramValue::String(h) => ValueModel::Str(h.length),
            ProgramValue::Bool(b) => ValueModel::Bool(*b),
            ProgramValue::NoneValue => ValueModel::NoneValue,
            ProgramValue::List(v) => ValueModel::List(
                Seq::new(
                    v.len() as nat,
                    |i: int|
                        if 0 <= i < v.len() {
                            v@[i].model()
                        } else {
                            ValueModel::NoneValue
                        },
                ),
            ),
            ProgramValue::Dict(v) => ValueModel::Dict(
                Seq::new(
                    v.len() as nat,
                    |i: int|
                        if 0 <= i < v.len() {
                            (v@[i].0, v@[i].1.model())
                        } else {
                            (HashableProgramValue::Bool(false), ValueModel::NoneValue)
                        },
                ),
            ),
        }
    }

    /// A copy of the value.
    pub fn duplicate(&self) -> (r: ProgramValue)
        ensures
            r.model() == self.model(),
        decreases self,
    {
        match self {
            ProgramValue::Int(i) => ProgramValue::Int(*i),
            ProgramValue::String(h) => ProgramValue::String(*h),
            ProgramValue::Bool(b) => ProgramValue::Bool(*b),
            ProgramValue::NoneValue => ProgramValue::NoneValue,
            ProgramValue::List(v) => {
                let out = duplicate_list(v);
                let r = ProgramValue::List(out);
                assert(r.model()->List_0 =~= values_model(out@));
                assert(self.model()->List_0 =~= values_model(v@));
                r
            },
            ProgramValue::Dict(v) => {
                let out = duplicate_dict(v);
                let r = ProgramValue::Dict(out);
                assert(r.model()->Dict_0 =~= entries_model(out@));
                assert(self.model()->Dict_0 =~= entries_model(v@));
                r
            },
        }
    }
}

/// The models of a sequence of values.
pub open spec fn values_model(s: Seq<ProgramValue>) -> Seq<ValueModel> {
    Seq::new(s.len(), |i: int| s[i].model())
}

/// The models of a sequence of dictionary entries.
pub open spec fn entries_model(s: Seq<(HashableProgramValue, ProgramValue)>) -> Seq<(HashableProgramValue, ValueModel)> {
    Seq::new(s.len(), |i: int| (s[i].0, s[i].1.model()))
}

/// Appends a value, extending the models by its model.
pub fn push_value(v: &mut Vec<ProgramValue>, x: ProgramValue)
    ensures
        values_model(final(v)@) == values_model(old(v)@).push(x.model()),
        final(v)@.len() == old(v)@.len() + 1,
{
    let ghost m = x.model();
    v.push(x);
    assert(values_model(v@) =~= values_model(old(v)@).push(m));
}

/// Appends a dictionary entry, extending the models by its model.
pub fn push_entry(v: &mut Vec<(HashableProgramValue, ProgramValue)>, k: HashableProgramValue, x: ProgramValue)
    ensures
        entries_model(final(v)@) == entries_model(old(v)@).push((k, x.model())),
{
    let ghost m = (k, x.model());
    v.push((k, x));
    assert(entries_model(v@) =~= entries_model(old(v)@).push(m));
}

fn duplicate_list(v: &Vec<ProgramValue>) -> (out: Vec<ProgramValue>)
    ensures
        values_model(out@) == values_model(v@),
    decreases v, 0nat,
{
    let mut out: Vec<ProgramValue> = Vec::new();
    let mut i: usize = 0;
    while i < v.len()
        invariant
            0 <= i <= v@.len(),
            values_model(out@) =~= values_model(v@).subrange(0, i as int),
        decreases v@.len() - i,
    {
        let x = v[i].duplicate();
        push_value(&mut out, x);
        assert(values_model(out@) =~= values_model(v@).subrange(0, i + 1));
        i = i + 1;
    }
    assert(values_model(v@).subrange(0, v@.len() as int) =~= values_model(v@));
    out
}

fn duplicate_dict(v: &Vec<(HashableProgramValue, ProgramValue)>) -> (out: Vec<(HashableProgramValue, ProgramValue)>)
    ensures
        entries_model(out@) == entries_model(v@),
    decreases v, 0nat,
{
    let mut out: Vec<(HashableProgramValue, ProgramValue)> = Vec::new();
    let mut i: usize = 0;
    while i < v.len()
        invariant
            0 <= i <= v@.len(),
            entries_model(out@) =~= entries_model(v@).subrange(0, i as int),
        decreases v@.len() - i,
    {
        proof {
            assert(decreases_to!(v@[i as int] => v@[i as int].1));
        }
        let x = v[i].1.duplicate();
        push_entry(&mut out, v[i].0, x);
        assert(entries_model(out@) =~= entries_model(v@).subrange(0, i + 1));
        i = i + 1;
    }
    assert(entries_model(v@).subrange(0, v@.len() as int) =~= entries_model(v@));
    out
}

/// The key that a value stands for, if it can be one.
pub open spec fn hashable_of(v: ValueModel) -> Option<HashableProgramValue> {
    match v {
        ValueModel::Int(i) => Some(HashableProgramValue::Int(i)),
        ValueModel::Str(l) => Some(HashableProgramValue::String(l)),
        ValueModel::Bool(b) => Some(HashableProgramValue::Bool(b)),
        _ => None,
    }
}

/// The key that a value stands for: integers, strings (by their hash) and booleans.
pub fn to_hashable(v: &ProgramValue) -> (r: Option<HashableProgramValue>)
    ensures
        r == hashable_of(v.model()),
{
    match v {
        ProgramValue::Int(i) => Some(HashableProgramValue::Int(*i)),
        ProgramValue::String(s) => Some(HashableProgramValue::String(s.hash())),
        ProgramValue::Bool(b) => Some(HashableProgramValue::Bool(*b)),
        _ => None,
    }
}

/// `i` is the first position of `d` whose entry has the key `k`.
pub open spec fn is_first_key(d: Seq<(HashableProgramValue, ValueModel)>, k: HashableProgramValue, i: int) -> bool {
    &&& 0 <= i < d.len()
    &&& d[i].0 == k
    &&& forall|j: int| 0 <= j < i ==> d[j].0 != k
}

/// The position of the entry with key `k`, if `d` has one.
pub open spec fn dict_index(d: Seq<(HashableProgramValue, ValueModel)>, k: HashableProgramValue) -> Option<int> {
    if exists|i: int| is_first_key(d, k, i) {
        Some(choose|i: int| is_first_key(d, k, i))
    } else {
        None
    }
}

/// The value stored under key `k` in `d`, if any.
pub open spec fn dict_get(d: Seq<(HashableProgramValue, ValueModel)>, k: HashableProgramValue) -> Option<ValueModel> {
    match dict_index(d, k) {
        Some(i) => Some(d[i].1),
        None => None,
    }
}

/// `d` with the value under key `k` replaced by `v`, or the entry appended where `k` is new.
pub open spec fn dict_insert(
    d: Seq<(HashableProgramValue, ValueModel)>,
    k: HashableProgramValue,
    v: ValueModel,
) -> Seq<(HashableProgramValue, ValueModel)> {
    match dict_index(d, k) {
        Some(i) => d.update(i, (k, v)),
        None => d.push((k, v)),
    }
}

proof fn lemma_first_key_unique(d: Seq<(HashableProgramValue, ValueModel)>, k: HashableProgramValue, i: int, j: int)
    requires
        is_first_key(d, k, i),
        is_first_key(d, k, j),
    ensures
        i == j,
{
    if i < j {
        assert(d[i].0 != k);
    } else if j < i {
        assert(d[j].0 != k);
    }
}

/// The position of the entry with key `k`, found by a scan from the front.
pub fn find_key(d: &Vec<(HashableProgramValue, ProgramValue)>, k: HashableProgramValue) -> (r: Option<usize>)
    ensures
        match r {
            Some(i) => dict_index(entries_model(d@), k) == Some(i as int) && i < d@.len(),
            None => dict_index(entries_model(d@), k) is None,
        },
{
    let ghost m = entries_model(d@);
    let mut i: usize = 0;
    while i < d.len()
        invariant
            0 <= i <= d@.len(),
            m == entries_model(d@),
            forall|j: int| 0 <= j < i ==> m[j].0 != k,
        decreases d@.len() - i,
    {
        if d[i].0 == k {
            proof {
                assert(is_first_key(m, k, i as int));
                let c = choose|c: int| is_first_key(m, k, c);
                lemma_first_key_unique(m, k, i as int, c);
            }
            return Some(i);
        }
        i = i + 1;
    }
    proof {
        assert forall|c: int| !is_first_key(m, k, c) by {
            if is_first_key(m, k, c) {
                assert(m[c].0 != k);
            }
        }
    }
    None
}

/// Stores `v` under key `k`, replacing the value of an existing entry with that key.
pub fn dict_insert_exec(d: &mut Vec<(HashableProgramValue, ProgramValue)>, k: HashableProgramValue, v: ProgramValue)
    ensures
        entries_model(final(d)@) == dict_insert(entries_model(old(d)@), k, v.model()),
{
    let ghost vm = v.model();
    match find_key(d, k) {
        Some(i) => {
            d.set(i, (k, v));
            assert(entries_model(d@) =~= dict_insert(entries_model(old(d)@), k, vm));
        },
        None => {
            d.push((k, v));
            assert(entries_model(d@) =~= dict_insert(entries_model(old(d)@), k, vm));
        },
    }
}

/// Equality of values as the language sees it: element-wise for lists, and for
/// dictionaries the same number of entries, each found in the other with an equal value.
pub open spec fn value_eq(a: ValueModel, b: ValueModel) -> bool
    decreases a,
{
    match a {
        ValueModel::Int(x) => b == ValueModel::Int(x),
        ValueModel::Str(x) => b == ValueModel::Str(x),
        ValueModel::Bool(x) => b == ValueModel::Bool(x),
        ValueModel::NoneValue => b == ValueModel::NoneValue,
        ValueModel::List(xs) => match b {
            ValueModel::List(ys) => xs.len() == ys.len() && forall|i: int|
                0 <= i < xs.len() ==> value_eq(xs[i], #[trigger] ys[i]),
            _ => false,
        },
        ValueModel::Dict(xs) => match b {
            ValueModel::Dict(ys) => xs.len() == ys.len() && forall|i: int|
                0 <= i < xs.len() ==> match #[trigger] dict_get(ys, xs[i].0) {
                    Some(w) => value_eq(xs[i].1, w),
                    None => false,
                },
            _ => false,
        },
    }
}

/// Whether two values are equal as the language sees it.
pub fn values_equal(a: &ProgramValue, b: &ProgramValue) -> (r: bool)
    ensures
        r == value_eq(a.model(), b.model()),
    decreases a,
{
    match a {
        ProgramValue::Int(x) => match b {
            ProgramValue::Int(y) => *x == *y,
            _ => false,
        },
        ProgramValue::String(x) => match b {
            ProgramValue::String(y) => x.length == y.length,
            _ => false,
        },
        ProgramValue::Bool(x) => match b {
            ProgramValue::Bool(y) => *x == *y,
            _ => false,
        },
        ProgramValue::NoneValue => match b {
            ProgramValue::NoneValue => true,
            _ => false,
        },
        ProgramValue::List(xs) => match b {
            ProgramValue::List(ys) => {
                assert(a.model()->List_0 =~= values_model(xs@));
                assert(b.model()->List_0 =~= values_model(ys@));
                lists_equal(xs, ys)
            },
            _ => false,
        },
        ProgramValue::Dict(xs) => match b {
            ProgramValue::Dict(ys) => {
                assert(a.model()->Dict_0 =~= entries_model(xs@));
                assert(b.model()->Dict_0 =~= entries_model(ys@));
                dicts_equal(xs, ys)
            },
            _ => false,
        },
    }
}

fn lists_equal(xs: &Vec<ProgramValue>, ys: &Vec<ProgramValue>) -> (r: bool)
    ensures
        r == value_eq(
            ValueModel::List(values_model(xs@)),
            ValueModel::List(values_model(ys@)),
        ),
    decreases xs, 0nat,
{
    let ghost xm = values_model(xs@);
    let ghost ym = values_model(ys@);
    if xs.len() != ys.len() {
        return false;
    }
    let mut i: usize = 0;
    while i < xs.len()
        invariant
            0 <= i <= xs@.len(),
            xs@.len() == ys@.len(),
            xm == values_model(xs@),
            ym == values_model(ys@),
            forall|j: int| 0 <= j < i ==> value_eq(xm[j], #[trigger] ym[j]),
        decreases xs@.len() - i,
    {
        if !values_equal(&xs[i], &ys[i]) {
            assert(!value_eq(xm[i as int], ym[i as int]));
            return false;
        }
        i = i + 1;
    }
    true
}

fn dicts_equal(xs: &Vec<(HashableProgramValue, ProgramValue)>, ys: &Vec<(HashableProgramValue, ProgramValue)>) -> (r: bool)
    ensures
        r == value_eq(
            ValueModel::Dict(entries_model(xs@)),
            ValueModel::Dict(entries_model(ys@)),
        ),
    decreases xs, 0nat,
{
    let ghost xm = entries_model(xs@);
    let ghost ym = entries_model(ys@);
    if xs.len() != ys.len() {
        return false;
    }
    let mut i: usize = 0;
    while i < xs.len()
        invariant
            0 <= i <= xs@.len(),
            xs@.len() == ys@.len(),
            xm == entries_model(xs@),
            ym == entries_model(ys@),
            forall|j: int| 0 <= j < i ==> match #[trigger] dict_get(ym, xm[j].0) {
                Some(w) => value_eq(xm[j].1, w),
                None => false,
            },
        decreases xs@.len() - i,
    {
        proof {
            assert(decreases_to!(xs@[i as int] => xs@[i as int].1));
        }
        match find_key(ys, xs[i].0) {
            Some(k) => {
                if !values_equal(&xs[i].1, &ys[k].1) {
                    assert(dict_get(ym, xm[i as int].0) == Some(ym[k as int].1));
                    return false;
                }
            },
            None => {
                assert(dict_get(ym, xm[i as int].0) is None);
                return false;
            },
        }
        i = i + 1;
    }
    true
}


/// The message of an integer operation whose result does not fit in 64 bits.
pub open spec fn overflow_message() -> Seq<char> {
    "Integer overflow"@
}

/// An integer result, or the overflow error where there is none.
pub open spec fn int_result(o: Option<i64>) -> Result<ValueModel, Seq<char>> {
    match o {
        Some(i) => Ok(ValueModel::Int(i)),
        None => Err(overflow_message()),
    }
}

/// What a unary operator gives on a value, or the message of its error.
pub open spec fn spec_unary_op(val: ValueModel, op: UnaryOp) -> Result<ValueModel, Seq<char>> {
    match op {
        UnaryOp::Neg => match val {
            ValueModel::Int(i) => if i == i64::MIN {
                Err(overflow_message())
            } else {
                Ok(ValueModel::Int((-i) as i64))
            },
            _ => Err("Cannot negate non-numeric value"@),
        },
        UnaryOp::Not => match val {
            ValueModel::Bool(b) => Ok(ValueModel::Bool(!b)),
            _ => Err("Cannot apply 'not' to non-boolean value"@),
        },
    }
}

/// `v` is an element of the list `l`, by the language's equality.
pub open spec fn list_contains(l: Seq<ValueModel>, v: ValueModel) -> bool {
    exists|i: int| 0 <= i < l.len() && value_eq(v, #[trigger] l[i])
}

/// The sum of two string lengths, saturating at the largest length.
pub open spec fn saturating_len_sum(a: u128, b: u128) -> u128 {
    if a + b > u128::MAX {
        u128::MAX
    } else {
        (a + b) as u128
    }
}

/// What a binary operator gives on two values, or the message of its error.
pub open spec fn spec_binary_op(lhs: ValueModel, rhs: ValueModel, op: BinaryOp) -> Result<ValueModel, Seq<char>> {
    match op {
        BinaryOp::Add => match (lhs, rhs) {
            (ValueModel::Int(a), ValueModel::Int(b)) => int_result(a.checked_add(b)),
            (ValueModel::Str(a), ValueModel::Str(b)) => Ok(ValueModel::Str(saturating_len_sum(a, b))),
            _ => Err("'+' operands must be numeric or both strings"@),
        },
        BinaryOp::Sub => match (lhs, rhs) {
            (ValueModel::Int(a), ValueModel::Int(b)) => int_result(a.checked_sub(b)),
            _ => Err("'-' operands must be numeric"@),
        },
        BinaryOp::Mul => match (lhs, rhs) {
            (ValueModel::Int(a), ValueModel::Int(b)) => int_result(a.checked_mul(b)),
            _ => Err("'*' operands must be numeric"@),
        },
        BinaryOp::Div => match (lhs, rhs) {
            (ValueModel::Int(a), ValueModel::Int(b)) => if b == 0 {
                Err("Division by zero"@)
            } else {
                int_result(a.checked_div(b))
            },
            _ => Err("'/' operands must be numeric"@),
        },
        BinaryOp::Mod => match (lhs, rhs) {
            (ValueModel::Int(a), ValueModel::Int(b)) => if b == 0 {
                Err("Modulo by zero"@)
            } else {
                int_result(a.checked_rem(b))
            },
            _ => Err("'%' operands must be integers"@),
        },
        BinaryOp::And => match (lhs, rhs) {
            (ValueModel::Bool(a), ValueModel::Bool(b)) => Ok(ValueModel::Bool(a && b)),
            _ => Err("'and' operands must be booleans"@),
        },
        BinaryOp::Or => match (lhs, rhs) {
            (ValueModel::Bool(a), ValueModel::Bool(b)) => Ok(ValueModel::Bool(a || b)),
            _ => Err("'or' operands must be booleans"@),
        },
        BinaryOp::Equal => Ok(ValueModel::Bool(scalar_eq(lhs, rhs))),
        BinaryOp::NotEqual => Ok(ValueModel::Bool(!scalar_eq(lhs, rhs))),
        BinaryOp::Greater => match (lhs, rhs) {
            (ValueModel::Int(a), ValueModel::Int(b)) => Ok(ValueModel::Bool(a > b)),
            _ => Err("'>' operands must be numeric"@),
        },
        BinaryOp::Less => match (lhs, rhs) {
            (ValueModel::Int(a), ValueModel::Int(b)) => Ok(ValueModel::Bool(a < b)),
            _ => Err("'<' operands must be numeric"@),
        },
        BinaryOp::GreaterEqual => match (lhs, rhs) {
            (ValueModel::Int(a), ValueModel::Int(b)) => Ok(ValueModel::Bool(a >= b)),
            _ => Err("'>=' operands must be numeric"@),
        },
        BinaryOp::LessEqual => match (lhs, rhs) {
            (ValueModel::Int(a), ValueModel::Int(b)) => Ok(ValueModel::Bool(a <= b)),
            _ => Err("'<=' operands must be numeric"@),
        },
        BinaryOp::In => match rhs {
            ValueModel::List(l) => Ok(ValueModel::Bool(list_contains(l, lhs))),
            ValueModel::Dict(d) => match hashable_of(lhs) {
                Some(k) => Ok(ValueModel::Bool(dict_index(d, k) is Some)),
                None => Err("'in' for dicts requires a hashable key"@),
            },
            _ => Err("'in' requires a list or dict on the right-hand side"@),
        },
    }
}

/// The equality of `==`: integers, strings, booleans and `None` compare by value;
/// any other pair, lists and dictionaries included, is unequal.
pub open spec fn scalar_eq(lhs: ValueModel, rhs: ValueModel) -> bool {
    match (lhs, rhs) {
        (ValueModel::Int(a), ValueModel::Int(b)) => a == b,
        (ValueModel::Str(a), ValueModel::Str(b)) => a == b,
        (ValueModel::Bool(a), ValueModel::Bool(b)) => a == b,
        (ValueModel::NoneValue, ValueModel::NoneValue) => true,
        _ => false,
    }
}

/// A result's model: the value's model, or the error's message.
pub open spec fn result_model(r: CompileResult<ProgramValue>) -> Result<ValueModel, Seq<char>> {
    match r {
        Ok(v) => Ok(v.model()),
        Err(e) => Err(e@),
    }
}

fn int_value(o: Option<i64>) -> (r: CompileResult<ProgramValue>)
    ensures
        result_model(r) == int_result(o),
{
    match o {
        Some(i) => Ok(ProgramValue::Int(i)),
        None => Err(error_from("Integer overflow")),
    }
}

fn scalar_equal(lhs: &ProgramValue, rhs: &ProgramValue) -> (r: bool)
    ensures
        r == scalar_eq(lhs.model(), rhs.model()),
{
    match (lhs, rhs) {
        (ProgramValue::Int(a), ProgramValue::Int(b)) => *a == *b,
        (ProgramValue::String(a), ProgramValue::String(b)) => a.length == b.length,
        (ProgramValue::Bool(a), ProgramValue::Bool(b)) => *a == *b,
        (ProgramValue::NoneValue, ProgramValue::NoneValue) => true,
        _ => false,
    }
}

fn list_contains_exec(l: &Vec<ProgramValue>, v: &ProgramValue) -> (r: bool)
    ensures
        r == list_contains(values_model(l@), v.model()),
{
    let ghost lm = values_model(l@);
    let mut i: usize = 0;
    while i < l.len()
        invariant
            0 <= i <= l@.len(),
            lm == values_model(l@),
            forall|j: int| 0 <= j < i ==> !value_eq(v.model(), #[trigger] lm[j]),
        decreases l@.len() - i,
    {
        if values_equal(v, &l[i]) {
            assert(value_eq(v.model(), lm[i as int]));
            return true;
        }
        i = i + 1;
    }
    false
}

/// Applies a unary operator to a value.
pub fn eval_unary_op(val: ProgramValue, op: UnaryOp) -> (r: CompileResult<ProgramValue>)
    ensures
        result_model(r) == spec_unary_op(val.model(), op),
{
    match op {
        UnaryOp::Neg => match val {
            ProgramValue::Int(i) => if i == i64::MIN {
                Err(error_from("Integer overflow"))
            } else {
                Ok(ProgramValue::Int(-i))
            },
            _ => Err(error_from("Cannot negate non-numeric value")),
        },
        UnaryOp::Not => match val {
            ProgramValue::Bool(b) => Ok(ProgramValue::Bool(!b)),
            _ => Err(error_from("Cannot apply 'not' to non-boolean value")),
        },
    }
}

/// Applies a binary operator to two values.
pub fn eval_binary_op(lhs: ProgramValue, rhs: ProgramValue, op: BinaryOp) -> (r: CompileResult<ProgramValue>)
    ensures
        result_model(r) == spec_binary_op(lhs.model(), rhs.model(), op),
{
    match op {
        BinaryOp::Add => match (lhs, rhs) {
            (ProgramValue::Int(a), ProgramValue::Int(b)) => int_value(a.checked_add(b)),
            (ProgramValue::String(a), ProgramValue::String(b)) => Ok(ProgramValue::String(a.concat(b))),
            _ => Err(error_from("'+' operands must be numeric or both strings")),
        },
        BinaryOp::Sub => match (lhs, rhs) {
            (ProgramValue::Int(a), ProgramValue::Int(b)) => int_value(a.checked_sub(b)),
            _ => Err(error_from("'-' operands must be numeric")),
        },
        BinaryOp::Mul => match (lhs, rhs) {
            (ProgramValue::Int(a), ProgramValue::Int(b)) => int_value(a.checked_mul(b)),
            _ => Err(error_from("'*' operands must be numeric")),
        },
        BinaryOp::Div => match (lhs, rhs) {
            (ProgramValue::Int(a), ProgramValue::Int(b)) => if b == 0 {
                Err(error_from("Division by zero"))
            } else {
                int_value(a.checked_div(b))
            },
            _ => Err(error_from("'/' operands must be numeric")),
        },
        BinaryOp::Mod => match (lhs, rhs) {
            (ProgramValue::Int(a), ProgramValue::Int(b)) => if b == 0 {
                Err(error_from("Modulo by zero"))
            } else {
                int_value(a.checked_rem(b))
            },
            _ => Err(error_from("'%' operands must be integers")),
        },
        BinaryOp::And => match (lhs, rhs) {
            (ProgramValue::Bool(a), ProgramValue::Bool(b)) => Ok(ProgramValue::Bool(a && b)),
            _ => Err(error_from("'and' operands must be booleans")),
        },
        BinaryOp::Or => match (lhs, rhs) {
            (ProgramValue::Bool(a), ProgramValue::Bool(b)) => Ok(ProgramValue::Bool(a || b)),
            _ => Err(error_from("'or' operands must be booleans")),
        },
        BinaryOp::Equal => Ok(ProgramValue::Bool(scalar_equal(&lhs, &rhs))),
        BinaryOp::NotEqual => Ok(ProgramValue::Bool(!scalar_equal(&lhs, &rhs))),
        BinaryOp::Greater => match (lhs, rhs) {
            (ProgramValue::Int(a), ProgramValue::Int(b)) => Ok(ProgramValue::Bool(a > b)),
            _ => Err(error_from("'>' operands must be numeric")),
        },
        BinaryOp::Less => match (lhs, rhs) {
            (ProgramValue::Int(a), ProgramValue::Int(b)) => Ok(ProgramValue::Bool(a < b)),
            _ => Err(error_from("'<' operands must be numeric")),
        },
        BinaryOp::GreaterEqual => match (lhs, rhs) {
            (ProgramValue::Int(a), ProgramValue::Int(b)) => Ok(ProgramValue::Bool(a >= b)),
            _ => Err(error_from("'>=' operands must be numeric")),
        },
        BinaryOp::LessEqual => match (lhs, rhs) {
            (ProgramValue::Int(a), ProgramValue::Int(b)) => Ok(ProgramValue::Bool(a <= b)),
            _ => Err(error_from("'<=' operands must be numeric")),
        },
        BinaryOp::In => match rhs {
            ProgramValue::List(l) => {
                assert(rhs.model()->List_0 =~= values_model(l@));
                Ok(ProgramValue::Bool(list_contains_exec(&l, &lhs)))
            },
            ProgramValue::Dict(d) => match to_hashable(&lhs) {
                Some(k) => {
                    assert(rhs.model()->Dict_0 =~= entries_model(d@));
                    Ok(ProgramValue::Bool(find_key(&d, k).is_some()))
                },
                None => Err(error_from("'in' for dicts requires a hashable key")),
            },
            _ => Err(error_from("'in' requires a list or dict on the right-hand side")),
        },
    }
}


/// The decimal digit character of `d`.
pub open spec fn digit_char(d: nat) -> char {
    if d == 0 { '0' }
    else if d == 1 { '1' }
    else if d == 2 { '2' }
    else if d == 3 { '3' }
    else if d == 4 { '4' }
    else if d == 5 { '5' }
    else if d == 6 { '6' }
    else if d == 7 { '7' }
    else if d == 8 { '8' }
    else { '9' }
}

/// The decimal notation of a natural number, without leading zeros.
pub open spec fn decimal(n: nat) -> Seq<char>
    decreases n,
{
    if n < 10 {
        seq![digit_char(n)]
    } else {
        decimal(n / 10).push(digit_char(n % 10))
    }
}

/// The decimal notation of an integer, with a minus sign when it is negative.
pub open spec fn decimal_signed(i: int) -> Seq<char> {
    if i < 0 {
        seq!['-'] + decimal((-i) as nat)
    } else {
        decimal(i as nat)
    }
}

fn digit_text(d: u64) -> (r: String)
    requires
        d < 10,
    ensures
        r@ == seq![digit_char(d as nat)],
{
    proof {
        reveal_strlit("0");
        reveal_strlit("1");
        reveal_strlit("2");
        reveal_strlit("3");
        reveal_strlit("4");
        reveal_strlit("5");
        reveal_strlit("6");
        reveal_strlit("7");
        reveal_strlit("8");
        reveal_strlit("9");
    }
    let t = if d == 0 { "0" }
    else if d == 1 { "1" }
    else if d == 2 { "2" }
    else if d == 3 { "3" }
    else if d == 4 { "4" }
    else if d == 5 { "5" }
    else if d == 6 { "6" }
    else if d == 7 { "7" }
    else if d == 8 { "8" }
    else { "9" };
    let r = String::from_str(t);
    assert(r@ =~= seq![digit_char(d as nat)]);
    r
}

/// The decimal notation of `n`.
pub fn decimal_text(n: u64) -> (r: String)
    ensures
        r@ == decimal(n as nat),
    decreases n,
{
    if n < 10 {
        digit_text(n)
    } else {
        let mut r = decimal_text(n / 10);
        let d = digit_text(n % 10);
        r.append(d.as_str());
        assert(r@ =~= decimal((n / 10) as nat).push(digit_char((n % 10) as nat)));
        r
    }
}

/// The decimal notation of `i`, with a minus sign when it is negative.
pub fn signed_decimal_text(i: i64) -> (r: String)
    ensures
        r@ == decimal_signed(i as int),
{
    if i < 0 {
        let magnitude: u64 = ((-(i + 1)) as u64) + 1;
        let digits = decimal_text(magnitude);
        proof {
            reveal_strlit("-");
        }
        let r = String::from_str("-").concat(digits.as_str());
        assert(r@ =~= seq!['-'] + decimal((-i) as nat));
        r
    } else {
        decimal_text(i as u64)
    }
}


/// A dictionary gives back, under a key, the value last stored under it, and under every
/// other key what it gave before.
pub proof fn lemma_dict_insert_get(
    d: Seq<(HashableProgramValue, ValueModel)>,
    k: HashableProgramValue,
    v: ValueModel,
    other: HashableProgramValue,
)
    requires
        other != k,
    ensures
        dict_get(dict_insert(d, k, v), k) == Some(v),
        dict_get(dict_insert(d, k, v), other) == dict_get(d, other),
{
    let d2 = dict_insert(d, k, v);
    match dict_index(d, k) {
        Some(i) => {
            assert(is_first_key(d, k, i));
            assert(is_first_key(d2, k, i));
            let c = choose|c: int| is_first_key(d2, k, c);
            lemma_first_key_unique(d2, k, i, c);
            if exists|j: int| is_first_key(d, other, j) {
                let j = choose|j: int| is_first_key(d, other, j);
                assert(is_first_key(d2, other, j));
                let c2 = choose|c2: int| is_first_key(d2, other, c2);
                lemma_first_key_unique(d2, other, j, c2);
            } else {
                assert forall|j: int| !is_first_key(d2, other, j) by {
                    if is_first_key(d2, other, j) {
                        assert forall|m: int| 0 <= m < j implies d[m].0 != other by {
                            assert(d2[m].0 != other);
                        }
                        assert(is_first_key(d, other, j));
                    }
                }
            }
        },
        None => {
            let n = d.len() as int;
            assert forall|j: int| 0 <= j < n implies d[j].0 != k by {
                if d[j].0 == k {
                    let m = choose_first_key(d, k, j);
                    assert(is_first_key(d, k, m));
                }
            }
            assert(is_first_key(d2, k, n));
            let c = choose|c: int| is_first_key(d2, k, c);
            lemma_first_key_unique(d2, k, n, c);
            if exists|j: int| is_first_key(d, other, j) {
                let j = choose|j: int| is_first_key(d, other, j);
                assert(is_first_key(d2, other, j));
                let c2 = choose|c2: int| is_first_key(d2, other, c2);
                lemma_first_key_unique(d2, other, j, c2);
            } else {
                assert forall|j: int| !is_first_key(d2, other, j) by {
                    if is_first_key(d2, other, j) {
                        if j < n {
                            assert forall|m: int| 0 <= m < j implies d[m].0 != other by {
                                assert(d2[m].0 != other);
                            }
                            assert(is_first_key(d, other, j));
                        }
                    }
                }
            }
        },
    }
}

/// The law of `in` on dictionaries: for a key that can be hashed, `k in d` is true
/// exactly when some entry of `d` has that key, and false otherwise.
pub proof fn lemma_in_dict(k: ValueModel, d: Seq<(HashableProgramValue, ValueModel)>)
    requires
        hashable_of(k) is Some,
    ensures
        spec_binary_op(k, ValueModel::Dict(d), BinaryOp::In) == Ok::<ValueModel, Seq<char>>(ValueModel::Bool(
            exists|i: int| 0 <= i < d.len() && d[i].0 == hashable_of(k)->0,
        )),
{
    let h = hashable_of(k)->0;
    if exists|i: int| 0 <= i < d.len() && d[i].0 == h {
        let i = choose|i: int| 0 <= i < d.len() && d[i].0 == h;
        let m = choose_first_key(d, h, i);
        assert(is_first_key(d, h, m));
    } else {
        assert forall|i: int| !is_first_key(d, h, i) by {}
    }
}

/// A key is in a dictionary after it is stored there, and storing a key leaves whether
/// any other key is in the dictionary as it was.
pub proof fn lemma_in_dict_after_insert(
    k: ValueModel,
    d: Seq<(HashableProgramValue, ValueModel)>,
    key: HashableProgramValue,
    v: ValueModel,
)
    requires
        hashable_of(k) is Some,
    ensures
        hashable_of(k)->0 == key ==> spec_binary_op(k, ValueModel::Dict(dict_insert(d, key, v)), BinaryOp::In)
            == Ok::<ValueModel, Seq<char>>(ValueModel::Bool(true)),
        hashable_of(k)->0 != key ==> spec_binary_op(k, ValueModel::Dict(dict_insert(d, key, v)), BinaryOp::In)
            == spec_binary_op(k, ValueModel::Dict(d), BinaryOp::In),
{
    let h = hashable_of(k)->0;
    if h == key {
        let other = if key == HashableProgramValue::Bool(true) { HashableProgramValue::Bool(false) } else { HashableProgramValue::Bool(true) };
        lemma_dict_insert_get(d, key, v, other);
    } else {
        lemma_dict_insert_get(d, key, v, h);
    }
}

/// Where some entry has key `k`, a first such entry exists; this finds it below `j`.
proof fn choose_first_key(d: Seq<(HashableProgramValue, ValueModel)>, k: HashableProgramValue, j: int) -> (m: int)
    requires
        0 <= j < d.len(),
        d[j].0 == k,
    ensures
        is_first_key(d, k, m),
    decreases j,
{
    if exists|i: int| 0 <= i < j && d[i].0 == k {
        let i = choose|i: int| 0 <= i < j && d[i].0 == k;
        choose_first_key(d, k, i)
    } else {
        j
    }
}

} // verus!
