//! What a run of the player's program produces, and the metadata that records it: the
//! instructions executed between calls of `sleep` and `brk`, the sleeps, and the
//! longest text printed.
use vstd::prelude::*;
use crate::ast::NotPythonProgram;
use crate::compile::{CompilingMetadata, compile_with_meta, msg_fn_not_found, run_program, unit_model};
use crate::upgrades::{Upgrades, max_instructions_table, total_of};
use crate::values::{CompileError, CompileResult, ProgramValue, ValueModel, error_from, result_model, values_model};

verus! {

/// What a run of a program produced.
#[derive(Debug, PartialEq)]
pub struct CompiledProgram {
    /// The numbers of instructions executed: one list per part of the run that `brk`
    /// separates, with one number per part that `sleep` separates.
    pub instruction_counts: Vec<Vec<u64>>,
    /// The durations of the calls of `sleep`, in seconds.
    pub sleep_calls: Vec<i64>,
    /// The length of the longest text printed.
    pub print_len: Option<u128>,
}

/// The mathematical form of a `CompiledProgram`.
pub struct ProgramRecord {
    pub counts: Seq<Seq<u64>>,
    pub sleeps: Seq<i64>,
    pub print_len: Option<u128>,
}

pub open spec fn counts_model(c: Seq<Vec<u64>>) -> Seq<Seq<u64>> {
    Seq::new(c.len(), |i: int| c[i]@)
}

impl CompiledProgram {
    pub open spec fn record(&self) -> ProgramRecord {
        ProgramRecord {
            counts: counts_model(self.instruction_counts@),
            sleeps: self.sleep_calls@,
            print_len: self.print_len,
        }
    }

    /// A program that has executed nothing.
    pub fn new() -> (r: CompiledProgram)
        ensures
            r.record() == (ProgramRecord { counts: seq![seq![0u64]], sleeps: Seq::empty(), print_len: None }),
    {
        let mut first: Vec<u64> = Vec::new();
        first.push(0);
        let mut counts: Vec<Vec<u64>> = Vec::new();
        counts.push(first);
        let r = CompiledProgram { instruction_counts: counts, sleep_calls: Vec::new(), print_len: None };
        assert(r.record().counts =~= seq![seq![0u64]]);
        assert(r.record().sleeps =~= Seq::<i64>::empty());
        r
    }

    /// A copy of the record.
    pub fn duplicate(&self) -> (r: CompiledProgram)
        ensures
            r.record() == self.record(),
    {
        let mut counts: Vec<Vec<u64>> = Vec::new();
        let mut i: usize = 0;
        while i < self.instruction_counts.len()
            invariant
                0 <= i <= self.instruction_counts@.len(),
                counts@.len() == i,
                forall|j: int| 0 <= j < i ==> #[trigger] counts@[j]@ == self.instruction_counts@[j]@,
            decreases self.instruction_counts@.len() - i,
        {
            let inner = copy_u64s(&self.instruction_counts[i]);
            counts.push(inner);
            i = i + 1;
        }
        assert(counts_model(counts@) =~= counts_model(self.instruction_counts@));
        let sleeps = copy_i64s(&self.sleep_calls);
        CompiledProgram { instruction_counts: counts, sleep_calls: sleeps, print_len: self.print_len }
    }
}

fn copy_u64s(v: &Vec<u64>) -> (r: Vec<u64>)
    ensures
        r@ == v@,
{
    let mut r: Vec<u64> = Vec::new();
    let mut i: usize = 0;
    while i < v.len()
        invariant
            0 <= i <= v@.len(),
            r@ =~= v@.subrange(0, i as int),
        decreases v@.len() - i,
    {
        r.push(v[i]);
        i = i + 1;
    }
    assert(r@ =~= v@);
    r
}

fn copy_i64s(v: &Vec<i64>) -> (r: Vec<i64>)
    ensures
        r@ == v@,
{
    let mut r: Vec<i64> = Vec::new();
    let mut i: usize = 0;
    while i < v.len()
        invariant
            0 <= i <= v@.len(),
            r@ =~= v@.subrange(0, i as int),
        decreases v@.len() - i,
    {
        r.push(v[i]);
        i = i + 1;
    }
    assert(r@ =~= v@);
    r
}

/// The record with one more instruction counted in its last part, where it has one.
pub open spec fn count_instruction(p: ProgramRecord) -> ProgramRecord {
    let n = p.counts.len();
    if n > 0 && p.counts[n - 1].len() > 0 {
        let last = p.counts[n - 1];
        let k = last.len() - 1;
        let v = if last[k] == u64::MAX { u64::MAX } else { (last[k] + 1) as u64 };
        ProgramRecord { counts: p.counts.update(n - 1, last.update(k, v)), ..p }
    } else {
        p
    }
}

/// The first position where two records of sleeps differ, among the positions both have.
pub open spec fn sleeps_differ(a: Seq<i64>, b: Seq<i64>) -> bool {
    exists|i: int| 0 <= i < a.len() && i < b.len() && a[i] != b[i]
}

/// What changed from `earlier` to `p`: the sleeps that one of them has beyond the other,
/// and the print length of `earlier`; no instruction counts are recorded.
pub open spec fn program_diff(p: ProgramRecord, earlier: ProgramRecord) -> Result<ProgramRecord, Seq<char>> {
    if sleeps_differ(p.sleeps, earlier.sleeps) {
        Err("sleep_calls mismatch"@)
    } else if p.print_len matches Some(l) && (earlier.print_len matches Some(r) ==> r < l) {
        Err("print_len mismatch"@)
    } else {
        Ok(ProgramRecord {
            counts: Seq::empty(),
            sleeps: if p.sleeps.len() <= earlier.sleeps.len() {
                earlier.sleeps.subrange(p.sleeps.len() as int, earlier.sleeps.len() as int)
            } else {
                p.sleeps.subrange(earlier.sleeps.len() as int, p.sleeps.len() as int)
            },
            print_len: earlier.print_len,
        })
    }
}

/// A sum of counts that stops at the largest count.
pub open spec fn sat_add_u64(a: u64, b: u64) -> u64 {
    if a + b > u64::MAX { u64::MAX } else { (a + b) as u64 }
}

/// The record with a change replayed: the first count of the change added to the last
/// count, its other counts of that part appended to the last part, its other parts
/// appended; its sleeps appended; the longer print length kept.
pub open spec fn program_add(p: ProgramRecord, d: ProgramRecord) -> (ProgramRecord, Option<Seq<char>>) {
    let n = p.counts.len();
    if d.counts.len() == 0 || d.counts[0].len() == 0 || n == 0 || p.counts[n - 1].len() == 0 {
        (p, Some("instruction_counts mismatch"@))
    } else {
        let last = p.counts[n - 1];
        let k = last.len() - 1;
        let head = d.counts[0];
        let new_last = last.update(k, sat_add_u64(last[k], head[0])) + head.subrange(1, head.len() as int);
        let counts = p.counts.update(n - 1, new_last) + d.counts.subrange(1, d.counts.len() as int);
        let print_len = match p.print_len {
            Some(l) => {
                let o = match d.print_len { Some(x) => x, None => 0u128 };
                Some(if l >= o { l } else { o })
            },
            None => d.print_len,
        };
        (ProgramRecord { counts, sleeps: p.sleeps + d.sleeps, print_len }, None)
    }
}

fn first_sleep_difference(a: &Vec<i64>, b: &Vec<i64>) -> (r: bool)
    ensures
        r == sleeps_differ(a@, b@),
{
    let mut i: usize = 0;
    while i < a.len() && i < b.len()
        invariant
            0 <= i <= a@.len(),
            forall|j: int| 0 <= j < i && j < b@.len() ==> a@[j] == b@[j],
        decreases a@.len() - i,
    {
        if a[i] != b[i] {
            return true;
        }
        i = i + 1;
    }
    proof {
        assert forall|j: int| !(0 <= j < a@.len() && j < b@.len() && a@[j] != b@[j]) by {
            if 0 <= j < a@.len() && j < b@.len() {
                assert(j < i);
            }
        }
    }
    false
}

fn sleeps_tail(v: &Vec<i64>, from: usize) -> (r: Vec<i64>)
    requires
        from <= v@.len(),
    ensures
        r@ == v@.subrange(from as int, v@.len() as int),
{
    let mut r: Vec<i64> = Vec::new();
    let mut i: usize = from;
    while i < v.len()
        invariant
            from <= i <= v@.len(),
            r@ =~= v@.subrange(from as int, i as int),
        decreases v@.len() - i,
    {
        r.push(v[i]);
        i = i + 1;
    }
    r
}

impl CompilingMetadata for CompiledProgram {
    type Diff = CompiledProgram;
    type Model = ProgramRecord;
    type DiffModel = ProgramRecord;

    open spec fn model(&self) -> ProgramRecord {
        self.record()
    }

    open spec fn diff_model(d: &CompiledProgram) -> ProgramRecord {
        d.record()
    }

    open spec fn zero_step(m: ProgramRecord) -> (ProgramRecord, Option<Seq<char>>) {
        (m, None)
    }

    open spec fn atomic_step(m: ProgramRecord) -> (ProgramRecord, Option<Seq<char>>) {
        (count_instruction(m), None)
    }

    open spec fn diff_of(m: ProgramRecord, earlier: ProgramRecord) -> Result<ProgramRecord, Seq<char>> {
        program_diff(m, earlier)
    }

    open spec fn add_diff(m: ProgramRecord, diff: ProgramRecord) -> (ProgramRecord, Option<Seq<char>>) {
        program_add(m, diff)
    }

    open spec fn halted(m: ProgramRecord) -> bool {
        false
    }

    open spec fn has_predefined(m: ProgramRecord, name: Seq<char>) -> bool {
        false
    }

    open spec fn predefined_call(m: ProgramRecord, name: Seq<char>, args: Seq<ValueModel>) -> (ProgramRecord, Result<ValueModel, Seq<char>>) {
        (m, Err(msg_fn_not_found(name)))
    }

    fn log_zero_instruction(&mut self) -> (r: CompileResult<()>) {
        Ok(())
    }

    fn log_atomic_instruction(&mut self) -> (r: CompileResult<()>) {
        let n = self.instruction_counts.len();
        if n > 0 {
            let k = self.instruction_counts[n - 1].len();
            if k > 0 {
                let v = self.instruction_counts[n - 1][k - 1].saturating_add(1);
                self.instruction_counts[n - 1].set(k - 1, v);
                assert(self.record().counts =~= count_instruction(old(self).record()).counts);
            }
        }
        Ok(())
    }

    fn diff(&self, other: &CompiledProgram) -> (r: CompileResult<CompiledProgram>) {
        if first_sleep_difference(&self.sleep_calls, &other.sleep_calls) {
            return Err(error_from("sleep_calls mismatch"));
        }
        match self.print_len {
            Some(l) => {
                let mismatch = match other.print_len {
                    Some(x) => x < l,
                    None => true,
                };
                if mismatch {
                    return Err(error_from("print_len mismatch"));
                }
            },
            None => {},
        }
        let sleeps = if self.sleep_calls.len() <= other.sleep_calls.len() {
            sleeps_tail(&other.sleep_calls, self.sleep_calls.len())
        } else {
            sleeps_tail(&self.sleep_calls, other.sleep_calls.len())
        };
        let r = CompiledProgram { instruction_counts: Vec::new(), sleep_calls: sleeps, print_len: other.print_len };
        assert(r.record().counts =~= Seq::<Seq<u64>>::empty());
        Ok(r)
    }

    fn add_assign(&mut self, diff: &CompiledProgram) -> (r: CompileResult<()>) {
        let n = self.instruction_counts.len();
        if diff.instruction_counts.len() == 0 || diff.instruction_counts[0].len() == 0 || n == 0
            || self.instruction_counts[n - 1].len() == 0 {
            return Err(error_from("instruction_counts mismatch"));
        }
        let ghost p = self.record();
        let ghost d = diff.record();
        let head = &diff.instruction_counts[0];
        assert(head@ == d.counts[0]);
        let mut last = match self.instruction_counts.pop() {
            Some(l) => l,
            None => return Err(error_from("instruction_counts mismatch")),
        };
        assert(last@ == p.counts[n - 1]);
        let k = last.len() - 1;
        let v = last[k].saturating_add(head[0]);
        last.set(k, v);
        let mut j: usize = 1;
        while j < head.len()
            invariant
                1 <= j <= head@.len(),
                last@ =~= p.counts[n - 1].update(k as int, sat_add_u64(p.counts[n - 1][k as int], head@[0]))
                    + head@.subrange(1, j as int),
            decreases head@.len() - j,
        {
            last.push(head[j]);
            j = j + 1;
        }
        self.instruction_counts.push(last);
        let ghost base = counts_model(self.instruction_counts@);
        assert(base =~= p.counts.update(
            n - 1,
            p.counts[n - 1].update(k as int, sat_add_u64(p.counts[n - 1][k as int], d.counts[0][0]))
                + d.counts[0].subrange(1, d.counts[0].len() as int),
        ));
        let mut t: usize = 1;
        while t < diff.instruction_counts.len()
            invariant
                1 <= t <= diff.instruction_counts@.len(),
                d == diff.record(),
                self.instruction_counts@.len() == base.len() + t - 1,
                forall|q: int| 0 <= q < base.len() ==> #[trigger] self.instruction_counts@[q]@ == base[q],
                forall|q: int| 1 <= q < t ==> self.instruction_counts@[base.len() + q - 1]@ == #[trigger] diff.instruction_counts@[q]@,
                self.sleep_calls@ == p.sleeps,
                self.print_len == p.print_len,
            decreases diff.instruction_counts@.len() - t,
        {
            let inner = copy_u64s(&diff.instruction_counts[t]);
            self.instruction_counts.push(inner);
            t = t + 1;
        }
        assert(counts_model(self.instruction_counts@) =~= base + d.counts.subrange(1, d.counts.len() as int));
        let ghost ic = self.instruction_counts@;
        let mut s: usize = 0;
        while s < diff.sleep_calls.len()
            invariant
                0 <= s <= diff.sleep_calls@.len(),
                d == diff.record(),
                self.instruction_counts@ == ic,
                self.print_len == p.print_len,
                self.sleep_calls@ =~= p.sleeps + d.sleeps.subrange(0, s as int),
            decreases diff.sleep_calls@.len() - s,
        {
            self.sleep_calls.push(diff.sleep_calls[s]);
            s = s + 1;
        }
        self.print_len = match self.print_len {
            Some(l) => {
                let o = match diff.print_len {
                    Some(x) => x,
                    None => 0,
                };
                Some(if l >= o { l } else { o })
            },
            None => diff.print_len,
        };
        assert(self.record().sleeps =~= program_add(p, d).0.sleeps);
        assert(self.record().counts =~= program_add(p, d).0.counts);
        Ok(())
    }

    fn snapshot(&self) -> (r: CompiledProgram) {
        self.duplicate()
    }

    fn is_predefined(&self, name: &str) -> (r: bool) {
        false
    }

    fn call_predefined(&mut self, name: &str, args: &[ProgramValue]) -> (r: CompileResult<ProgramValue>) {
        Err(CompileError::new(String::from_str("Function ").concat(name).concat(" not found")))
    }
}

} // verus!
