//! The game's metadata for a run of the player's program: it records the run, stops it
//! at the instruction limit, and offers the predefined functions `print`, `sleep` and
//! `brk` as far as they are unlocked. And the way from source code to a recorded run.
use vstd::prelude::*;
use crate::ast::NotPythonProgram;
use crate::compile::{CompilingMetadata, compile_with_meta, msg_fn_not_found, run_program, unit_model};
use crate::fold::{fold_stmt, spec_fold_stmt};
use crate::grammar::{p_block, p_program};
use crate::lexer::lex;
use crate::parser::{ParseError, parse_program};
use crate::program::{CompiledProgram, ProgramRecord, count_instruction, counts_model, program_add, program_diff};
use crate::unlocks::{UnlockLimits, check_program, matches_check, verify_unlocks, unlock_message};
use crate::upgrades::{Upgrades, UpgradeId, limits_of, max_instructions_table, total_of};
use std::sync::Arc;
use std::sync::atomic::AtomicBool;
use crate::values::{
    CompileError, CompileResult, ProgramValue, ValueModel, decimal, decimal_text, error_from, result_model,
    values_model,
};

verus! {

/// The metadata of a run in the game.
pub struct WipCompilingProgram {
    pub program: CompiledProgram,
    pub left_to_instruction_limit: u64,
    pub unlock_print: bool,
    pub unlock_sleep: bool,
    pub unlock_brk: bool,
    /// Set, by another thread, to ask that the run stop.
    pub cancel: Arc<AtomicBool>,
    /// Whether the run was stopped because a request to cancel it was seen.
    pub cancelled: bool,
    /// The instructions left until `cancel` is read again.
    pub cancel_debounce: u32,
}

/// The mathematical form of a `WipCompilingProgram`.
pub struct WipModel {
    pub program: ProgramRecord,
    pub left: u64,
    pub print: bool,
    pub sleep: bool,
    pub brk: bool,
    pub cancelled: bool,
}

/// What a pure call changed in a run.
pub struct WipCompilingProgramDiff {
    pub program: CompiledProgram,
    pub instruction_count: i64,
}

/// The error of a run stopped at a request to cancel it.
pub open spec fn cancelling_message() -> Seq<char> {
    "Cancelling logic program"@
}

/// The error of a compilation that was cancelled.
pub open spec fn cancelled_message() -> Seq<char> {
    "Compilation was cancelled"@
}

/// How many instructions a run executes between two readings of its cancel flag.
pub const CANCEL_DEBOUNCE: u32 = 4096;

/// Reads a cancel flag. Another thread may set it at any time, so nothing is known of
/// the value read.
pub fn cancel_requested(flag: &Arc<AtomicBool>) -> (r: bool) {
    flag.load(std::sync::atomic::Ordering::Relaxed)
}

pub open spec fn limit_message() -> Seq<char> {
    "Reached instruction limit. Stopping execution to prevent overheating."@
}

/// `a - b` modulo 2^64.
pub open spec fn wrapping_diff(a: u64, b: u64) -> u64 {
    if a >= b { (a - b) as u64 } else { (a - b + 0x1_0000_0000_0000_0000) as u64 }
}

/// `left` less `d` where `d` is not negative, more where it is, kept within the counts.
pub open spec fn saturating_sub_signed(left: u64, d: i64) -> u64 {
    if d >= 0 {
        if left >= d { (left - d) as u64 } else { 0 }
    } else {
        if left - d > u64::MAX { u64::MAX } else { (left - d) as u64 }
    }
}

/// The record after a call of `print` with `args`, or the error of the call.
pub open spec fn print_call(p: ProgramRecord, args: Seq<ValueModel>) -> (ProgramRecord, Result<ValueModel, Seq<char>>) {
    if args.len() != 1 {
        (p, Err("print takes exactly one argument"@))
    } else {
        match args[0] {
            ValueModel::Str(l) => {
                let old = match p.print_len { Some(x) => x, None => 0u128 };
                (ProgramRecord { print_len: Some(if l >= old { l } else { old }), ..p }, Ok(ValueModel::NoneValue))
            },
            _ => (p, Err("print requires a string argument"@)),
        }
    }
}

/// The record after a call of `sleep` with `args`: the sleep recorded and a new part of
/// the instruction counts begun.
pub open spec fn sleep_call(p: ProgramRecord, args: Seq<ValueModel>) -> (ProgramRecord, Result<ValueModel, Seq<char>>) {
    if args.len() != 1 {
        (p, Err("sleep takes exactly one argument"@))
    } else {
        match args[0] {
            ValueModel::Int(t) => {
                let n = p.counts.len();
                let counts = if n > 0 { p.counts.update(n - 1, p.counts[n - 1].push(0)) } else { p.counts };
                (ProgramRecord { counts, sleeps: p.sleeps.push(t), ..p }, Ok(ValueModel::NoneValue))
            },
            _ => (p, Err("sleep requires a numeric argument"@)),
        }
    }
}

/// The record after a call of `brk` with `args`: a new part of the run begun.
pub open spec fn brk_call(p: ProgramRecord, args: Seq<ValueModel>) -> (ProgramRecord, Result<ValueModel, Seq<char>>) {
    if args.len() != 0 {
        (p, Err("brk takes no arguments"@))
    } else {
        (ProgramRecord { counts: p.counts.push(seq![0u64]), ..p }, Ok(ValueModel::NoneValue))
    }
}

/// Whether two strings hold the same characters.
pub(crate) fn str_eq(a: &str, b: &str) -> (r: bool)
    ensures
        r == (a@ == b@),
{
    String::from_str(a) == String::from_str(b)
}

impl CompilingMetadata for WipCompilingProgram {
    type Diff = WipCompilingProgramDiff;
    type Model = WipModel;
    type DiffModel = (ProgramRecord, i64);

    open spec fn model(&self) -> WipModel {
        WipModel {
            program: self.program.record(),
            left: self.left_to_instruction_limit,
            print: self.unlock_print,
            sleep: self.unlock_sleep,
            brk: self.unlock_brk,
            cancelled: self.cancelled,
        }
    }

    open spec fn diff_model(d: &WipCompilingProgramDiff) -> (ProgramRecord, i64) {
        (d.program.record(), d.instruction_count)
    }

    open spec fn zero_step(m: WipModel) -> (WipModel, Option<Seq<char>>) {
        (m, None)
    }

    open spec fn atomic_step(m: WipModel) -> (WipModel, Option<Seq<char>>) {
        let left = if m.left == 0 { 0u64 } else { (m.left - 1) as u64 };
        if left == 0 {
            (WipModel { left, ..m }, Some(limit_message()))
        } else {
            (WipModel { left, program: count_instruction(m.program), ..m }, None)
        }
    }

    open spec fn diff_of(m: WipModel, earlier: WipModel) -> Result<(ProgramRecord, i64), Seq<char>> {
        match program_diff(m.program, earlier.program) {
            Ok(d) => Ok((d, wrapping_diff(earlier.left, m.left) as i64)),
            Err(x) => Err(x),
        }
    }

    open spec fn add_diff(m: WipModel, diff: (ProgramRecord, i64)) -> (WipModel, Option<Seq<char>>) {
        let (p, e) = program_add(m.program, diff.0);
        if e is Some {
            (WipModel { program: p, ..m }, e)
        } else {
            let left = saturating_sub_signed(m.left, diff.1);
            if left == 0 {
                (WipModel { program: p, left, ..m }, Some(limit_message()))
            } else {
                (WipModel { program: p, left, ..m }, None)
            }
        }
    }

    open spec fn halted(m: WipModel) -> bool {
        m.cancelled
    }

    open spec fn has_predefined(m: WipModel, name: Seq<char>) -> bool {
        (name == "print"@ && m.print) || (name == "sleep"@ && m.sleep) || (name == "brk"@ && m.brk)
    }

    open spec fn predefined_call(m: WipModel, name: Seq<char>, args: Seq<ValueModel>) -> (WipModel, Result<ValueModel, Seq<char>>) {
        let r = if name == "print"@ {
            print_call(m.program, args)
        } else if name == "sleep"@ {
            sleep_call(m.program, args)
        } else if name == "brk"@ {
            brk_call(m.program, args)
        } else {
            (m.program, Err(msg_fn_not_found(name)))
        };
        (WipModel { program: r.0, ..m }, r.1)
    }

    fn log_zero_instruction(&mut self) -> (r: CompileResult<()>) {
        match self.check_cancel() {
            Ok(()) => {},
            Err(e) => return Err(e),
        }
        self.program.log_zero_instruction()
    }

    fn log_atomic_instruction(&mut self) -> (r: CompileResult<()>) {
        match self.check_cancel() {
            Ok(()) => {},
            Err(e) => return Err(e),
        }
        self.left_to_instruction_limit = self.left_to_instruction_limit.saturating_sub(1);
        if self.left_to_instruction_limit == 0 {
            return Err(error_from("Reached instruction limit. Stopping execution to prevent overheating."));
        }
        self.program.log_atomic_instruction()
    }

    fn diff(&self, other: &WipCompilingProgram) -> (r: CompileResult<WipCompilingProgramDiff>) {
        match self.program.diff(&other.program) {
            Ok(p) => {
                let w = other.left_to_instruction_limit.wrapping_sub(self.left_to_instruction_limit);
                assert(w == wrapping_diff(other.left_to_instruction_limit, self.left_to_instruction_limit));
                Ok(WipCompilingProgramDiff { program: p, instruction_count: w as i64 })
            },
            Err(e) => Err(e),
        }
    }

    fn add_assign(&mut self, diff: &WipCompilingProgramDiff) -> (r: CompileResult<()>) {
        match self.program.add_assign(&diff.program) {
            Ok(()) => {},
            Err(e) => return Err(e),
        }
        let d = diff.instruction_count;
        self.left_to_instruction_limit = if d >= 0 {
            self.left_to_instruction_limit.saturating_sub(d as u64)
        } else {
            let up: u64 = if d == i64::MIN { 0x8000_0000_0000_0000 } else { (-d) as u64 };
            self.left_to_instruction_limit.saturating_add(up)
        };
        if self.left_to_instruction_limit == 0 {
            Err(error_from("Reached instruction limit. Stopping execution to prevent overheating."))
        } else {
            Ok(())
        }
    }

    fn snapshot(&self) -> (r: WipCompilingProgram) {
        WipCompilingProgram {
            program: self.program.duplicate(),
            left_to_instruction_limit: self.left_to_instruction_limit,
            unlock_print: self.unlock_print,
            unlock_sleep: self.unlock_sleep,
            unlock_brk: self.unlock_brk,
            cancel: Arc::new(AtomicBool::new(false)),
            cancelled: self.cancelled,
            cancel_debounce: self.cancel_debounce,
        }
    }

    fn is_predefined(&self, name: &str) -> (r: bool) {
        (str_eq(name, "print") && self.unlock_print) || (str_eq(name, "sleep") && self.unlock_sleep) || (
        str_eq(name, "brk") && self.unlock_brk)
    }

    fn call_predefined(&mut self, name: &str, args: &[ProgramValue]) -> (r: CompileResult<ProgramValue>) {
        if str_eq(name, "print") {
            predefined_function_print(&mut self.program, args)
        } else if str_eq(name, "sleep") {
            predefined_function_sleep(&mut self.program, args)
        } else if str_eq(name, "brk") {
            predefined_function_brk(&mut self.program, args)
        } else {
            Err(CompileError::new(String::from_str("Function ").concat(name).concat(" not found")))
        }
    }
}

/// The law of `sleep`: a call of `sleep` with an integer records the sleep and begins
/// a new segment, counted from 0, at the end of the last part of the instruction
/// counts; every other segment keeps its count, and the instructions that follow are
/// counted in the new segment.
pub proof fn lemma_sleep_begins_segment(m: WipModel, t: i64)
    requires
        m.program.counts.len() > 0,
    ensures
        ({
            let (m2, r) = WipCompilingProgram::predefined_call(m, "sleep"@, seq![ValueModel::Int(t)]);
            let n = m.program.counts.len();
            &&& r == Ok::<ValueModel, Seq<char>>(ValueModel::NoneValue)
            &&& m2.program.sleeps == m.program.sleeps.push(t)
            &&& m2.program.counts.len() == n
            &&& m2.program.counts[n - 1] == m.program.counts[n - 1].push(0)
            &&& forall|i: int| 0 <= i < n - 1 ==> m2.program.counts[i] == m.program.counts[i]
            &&& count_instruction(m2.program).counts[n - 1] == m.program.counts[n - 1].push(1)
        }),
{
    reveal_strlit("sleep");
    reveal_strlit("print");
    let n = m.program.counts.len();
    let args = seq![ValueModel::Int(t)];
    assert("sleep"@ != "print"@) by {
        assert("sleep"@[0] != "print"@[0]);
    }
    assert(args.len() == 1 && args[0] == ValueModel::Int(t));
    assert(WipCompilingProgram::predefined_call(m, "sleep"@, args) == (WipModel {
        program: sleep_call(m.program, args).0, ..m }, sleep_call(m.program, args).1));
    let (m2, r) = WipCompilingProgram::predefined_call(m, "sleep"@, args);
    let last = m2.program.counts[n - 1];
    assert(last.len() > 0);
    assert(last.update(last.len() - 1, 1u64) =~= m.program.counts[n - 1].push(1));
}

/// `print`: records the length of the printed text where it is the longest so far.
fn predefined_function_print(p: &mut CompiledProgram, args: &[ProgramValue]) -> (r: CompileResult<ProgramValue>)
    ensures
        (final(p).record(), result_model(r)) == print_call(old(p).record(), values_model(args@)),
{
    if args.len() != 1 {
        return Err(error_from("print takes exactly one argument"));
    }
    match &args[0] {
        ProgramValue::String(s) => {
            let l = s.len();
            let old = match p.print_len {
                Some(x) => x,
                None => 0,
            };
            p.print_len = Some(if l >= old { l } else { old });
            Ok(ProgramValue::NoneValue)
        },
        _ => Err(error_from("print requires a string argument")),
    }
}

/// `sleep`: records the sleep, and begins a new part of the instruction counts.
fn predefined_function_sleep(p: &mut CompiledProgram, args: &[ProgramValue]) -> (r: CompileResult<ProgramValue>)
    ensures
        (final(p).record(), result_model(r)) == sleep_call(old(p).record(), values_model(args@)),
{
    if args.len() != 1 {
        return Err(error_from("sleep takes exactly one argument"));
    }
    match &args[0] {
        ProgramValue::Int(t) => {
            p.sleep_calls.push(*t);
            let n = p.instruction_counts.len();
            if n > 0 {
                p.instruction_counts[n - 1].push(0);
            }
            assert(p.record().counts =~= sleep_call(old(p).record(), values_model(args@)).0.counts);
            Ok(ProgramValue::NoneValue)
        },
        _ => Err(error_from("sleep requires a numeric argument")),
    }
}

/// `brk`: begins a new part of the run.
fn predefined_function_brk(p: &mut CompiledProgram, args: &[ProgramValue]) -> (r: CompileResult<ProgramValue>)
    ensures
        (final(p).record(), result_model(r)) == brk_call(old(p).record(), values_model(args@)),
{
    if args.len() != 0 {
        return Err(error_from("brk takes no arguments"));
    }
    let mut part: Vec<u64> = Vec::new();
    part.push(0);
    p.instruction_counts.push(part);
    assert(p.record().counts =~= brk_call(old(p).record(), values_model(args@)).0.counts);
    Ok(ProgramValue::NoneValue)
}

impl WipCompilingProgram {
    /// A run that may execute fewer than `instruction_limit` instructions and call the
    /// predefined functions that are unlocked, and that stops when it sees `cancel` set.
    pub fn new(cancel: Arc<AtomicBool>, instruction_limit: u64, unlock_print: bool, unlock_sleep: bool, unlock_brk: bool) -> (r: Self)
        ensures
            r.model() == (WipModel {
                program: ProgramRecord { counts: seq![seq![0u64]], sleeps: Seq::empty(), print_len: None },
                left: instruction_limit,
                print: unlock_print,
                sleep: unlock_sleep,
                brk: unlock_brk,
                cancelled: false,
            }),
            r.cancel == cancel,
    {
        WipCompilingProgram {
            program: CompiledProgram::new(),
            left_to_instruction_limit: instruction_limit,
            unlock_print,
            unlock_sleep,
            unlock_brk,
            cancel,
            cancelled: false,
            cancel_debounce: 0,
        }
    }

    /// Reads the cancel flag once every `CANCEL_DEBOUNCE` instructions, and stops the
    /// run where it is set; a run already stopped stays stopped.
    fn check_cancel(&mut self) -> (r: CompileResult<()>)
        ensures
            final(self).program == old(self).program,
            final(self).left_to_instruction_limit == old(self).left_to_instruction_limit,
            final(self).unlock_print == old(self).unlock_print,
            final(self).unlock_sleep == old(self).unlock_sleep,
            final(self).unlock_brk == old(self).unlock_brk,
            final(self).cancel == old(self).cancel,
            final(self).cancelled == (old(self).cancelled || r is Err),
            old(self).cancelled ==> r is Err,
            r matches Err(e) ==> e@ == cancelling_message(),
    {
        if self.cancelled {
            return Err(error_from("Cancelling logic program"));
        }
        if self.cancel_debounce == 0 {
            self.cancel_debounce = CANCEL_DEBOUNCE;
            if cancel_requested(&self.cancel) {
                self.cancelled = true;
                return Err(error_from("Cancelling logic program"));
            }
        }
        self.cancel_debounce = self.cancel_debounce - 1;
        Ok(())
    }
}

/// The metadata that a run starts with, for the given upgrades.
pub open spec fn start_model(upgrades: Seq<Seq<u8>>) -> WipModel {
    WipModel {
        program: ProgramRecord { counts: seq![seq![0u64]], sleeps: Seq::empty(), print_len: None },
        left: max_instructions_table()[total_of(upgrades[8]) as int],
        print: total_of(upgrades[23]) == 1,
        sleep: total_of(upgrades[17]) == 1,
        brk: total_of(upgrades[28]) == 1,
        cancelled: false,
    }
}

/// The end of a compilation: the cancel message where a request to cancel was seen,
/// during the run (`meta.cancelled`) or after it (`cancel_seen`); otherwise the record
/// of the run, or the error that stopped it with the instruction counts up to then.
pub fn finish_compilation(meta: WipCompilingProgram, run: CompileResult<()>, cancel_seen: bool)
    -> (r: CompileResult<Result<CompiledProgram, (String, Vec<Vec<u64>>)>>)
    ensures
        match r {
            Err(e) => (cancel_seen || meta.cancelled) && e@ == cancelled_message(),
            Ok(inner) => !(cancel_seen || meta.cancelled) && match inner {
                Ok(p) => run is Ok && p.record() == meta.program.record(),
                Err((msg, counts)) => (run matches Err(e) && msg@ == e@)
                    && counts_model(counts@) == meta.program.record().counts,
            },
        },
{
    if cancel_seen || meta.cancelled {
        return Err(error_from("Compilation was cancelled"));
    }
    match run {
        Ok(()) => Ok(Ok(meta.program)),
        Err(e) => Ok(Err((e.to_string(), meta.program.instruction_counts))),
    }
}

/// Runs a parsed program under the limits of the upgrades, stopping where `cancel` is
/// seen set: the cancel message, or the record of the run, or the error that stopped
/// the run with the instruction counts up to then. Unless it was cancelled, the run is
/// the one that the semantics gives.
pub fn compile_code(parsed_program: &NotPythonProgram, upgrades: &Upgrades, cancel: Arc<AtomicBool>)
    -> (r: CompileResult<Result<CompiledProgram, (String, Vec<Vec<u64>>)>>)
    requires
        upgrades.wf(),
    ensures
        match r {
            Err(e) => e@ == cancelled_message(),
            Ok(inner) => {
                let o = run_program::<WipCompilingProgram>(parsed_program.model(), start_model(upgrades@));
                match inner {
                    Ok(p) => o.res is Ok && p.record() == o.meta.program,
                    Err((msg, counts)) => o.res == Err::<(), Seq<char>>(msg@) && counts_model(counts@) == o.meta.program.counts,
                }
            },
        },
{
    let mut meta = WipCompilingProgram::new(
        cancel,
        upgrades.max_instructions(),
        upgrades.is_unlocked(UpgradeId::UnlockPrint),
        upgrades.is_unlocked(UpgradeId::UnlockSleep),
        upgrades.is_unlocked(UpgradeId::UnlockBrk),
    );
    let run = compile_with_meta(parsed_program, &mut meta);
    let cancel_seen = cancel_requested(&meta.cancel);
    finish_compilation(meta, run, cancel_seen)
}

/// The message of a refusal by the parser.
pub open spec fn parse_message(token_index: nat) -> Seq<char> {
    "Syntax error at token "@ + decimal(token_index)
}

/// From source code to a run: parses the code, checks it against the unlocked
/// features, folds its constants and runs it, stopping where `cancel` is seen set. The
/// outer error is a refusal of the code or the cancel message; the inner result is the
/// run, or the error that stopped it.
pub fn compile_source(source: &str, upgrades: &Upgrades, cancel: Arc<AtomicBool>) -> (r: Result<Result<CompiledProgram, (String, Vec<Vec<u64>>)>, String>)
    requires
        upgrades.wf(),
        4 * source@.len() <= usize::MAX,
    ensures
        match p_program(source@, lex(source@)) {
            None => r matches Err(m) && m@ == parse_message(p_block(source@, lex(source@), 0).1 as nat),
            Some(prog) => match check_program(source@, prog, limits_of(upgrades@)) {
                Err(x) => r matches Err(m) && m@ == unlock_message(x),
                Ok(_) => match r {
                    Err(m) => m@ == cancelled_message(),
                    Ok(inner) => {
                        let o = run_program::<WipCompilingProgram>(spec_fold_stmt(prog), start_model(upgrades@));
                        match inner {
                            Ok(p) => o.res is Ok && p.record() == o.meta.program,
                            Err((msg, counts)) => o.res == Err::<(), Seq<char>>(msg@) && counts_model(counts@) == o.meta.program.counts,
                        }
                    },
                },
            },
        },
{
    let mut parsed = match parse_program(source) {
        Ok(p) => p,
        Err(e) => {
            let d = decimal_text(e.token_index as u64);
            let m = String::from_str("Syntax error at token ").concat(d.as_str());
            return Err(m);
        },
    };
    let limits = upgrades.unlock_limits();
    match verify_unlocks(source, &parsed, &limits) {
        Ok(()) => {},
        Err(e) => return Err(e.to_string()),
    }
    fold_stmt(&mut parsed.statement);
    match compile_code(&parsed, upgrades, cancel) {
        Ok(inner) => Ok(inner),
        Err(e) => Err(e.to_string()),
    }
}

} // verus!
