//! Checks that a program uses only the language features that the player has unlocked:
//! the number and width of its lines, the literals it writes, and its statements.
use vstd::prelude::*;
use crate::ast::{
    ExprModel, NotPythonExpr, NotPythonProgram, NotPythonStmt, StmtModel, exprs_model,
    pairs_model, stmts_model,
};
use crate::lexer::chars_of;
use crate::values::{decimal, decimal_signed, decimal_text, signed_decimal_text};

verus! {

/// The statements that the player has unlocked, each level including those before it.
#[derive(Clone, Copy, Debug, PartialEq, Eq, Structural)]
pub enum CodeStatementLevels {
    NoneUnlocked,
    SimpleLoops,
    NestedLoops,
    Functions,
    Multiplication,
    PureFunctions,
    SingleRecursion,
    MultiRecursion,
}

/// The limits that a program must keep.
#[derive(Clone, Copy, Debug, PartialEq, Eq, Structural)]
pub struct UnlockLimits {
    /// The longest line, in bytes.
    pub line_width: u8,
    /// The most lines that are not blank.
    pub line_count: u8,
    /// Whether string literals may be written.
    pub strings_allowed: bool,
    /// The largest magnitude of an integer literal.
    pub max_int: u8,
    pub statements: CodeStatementLevels,
}

/// Why a program was refused.
#[derive(Clone, Debug, PartialEq, Eq)]
pub enum UnlockError {
    TooManyLines { used: usize, allowed: u8 },
    LineTooLong { line: usize, chars: usize, max: u8 },
    IntegerTooLarge { value: i64, max: i64 },
    StringsLocked,
    BreakContinueLocked,
    LoopsLocked,
    NestedLoopsLocked,
    ReturnLocked,
    FunctionsLocked,
    PureFunctionsLocked,
    RecursionLocked { name: String },
    TooManyRecursiveCalls { name: String, calls: usize, max: usize },
}

/// The mathematical form of an `UnlockError`.
pub enum UnlockErrorModel {
    TooManyLines { used: nat, allowed: nat },
    LineTooLong { line: nat, chars: nat, max: nat },
    IntegerTooLarge { value: i64, max: i64 },
    StringsLocked,
    BreakContinueLocked,
    LoopsLocked,
    NestedLoopsLocked,
    ReturnLocked,
    FunctionsLocked,
    PureFunctionsLocked,
    RecursionLocked { name: Seq<char> },
    TooManyRecursiveCalls { name: Seq<char>, calls: nat, max: nat },
}

impl UnlockError {
    pub open spec fn model(&self) -> UnlockErrorModel {
        match self {
            UnlockError::TooManyLines { used, allowed } => UnlockErrorModel::TooManyLines { used: *used as nat, allowed: *allowed as nat },
            UnlockError::LineTooLong { line, chars, max } => UnlockErrorModel::LineTooLong { line: *line as nat, chars: *chars as nat, max: *max as nat },
            UnlockError::IntegerTooLarge { value, max } => UnlockErrorModel::IntegerTooLarge { value: *value, max: *max },
            UnlockError::StringsLocked => UnlockErrorModel::StringsLocked,
            UnlockError::BreakContinueLocked => UnlockErrorModel::BreakContinueLocked,
            UnlockError::LoopsLocked => UnlockErrorModel::LoopsLocked,
            UnlockError::NestedLoopsLocked => UnlockErrorModel::NestedLoopsLocked,
            UnlockError::ReturnLocked => UnlockErrorModel::ReturnLocked,
            UnlockError::FunctionsLocked => UnlockErrorModel::FunctionsLocked,
            UnlockError::PureFunctionsLocked => UnlockErrorModel::PureFunctionsLocked,
            UnlockError::RecursionLocked { name } => UnlockErrorModel::RecursionLocked { name: name@ },
            UnlockError::TooManyRecursiveCalls { name, calls, max } => UnlockErrorModel::TooManyRecursiveCalls {
                name: name@,
                calls: *calls as nat,
                max: *max as nat,
            },
        }
    }

    /// The message that tells the player why the program was refused.
    pub fn to_string(&self) -> (r: String)
        ensures
            r@ == unlock_message(self.model()),
    {
        match self {
            UnlockError::TooManyLines { used, allowed } => {
                let u = decimal_text(*used as u64);
                let a = decimal_text(*allowed as u64);
                let r = String::from_str("Too many lines: ").concat(u.as_str()).concat(" used, ").concat(a.as_str()).concat(" allowed");
                assert(r@ =~= unlock_message(self.model()));
                r
            },
            UnlockError::LineTooLong { line, chars, max } => {
                let l = decimal_text(*line as u64);
                let c = decimal_text(*chars as u64);
                let m = decimal_text(*max as u64);
                let r = String::from_str("Line ").concat(l.as_str()).concat(" is too long: ").concat(c.as_str()).concat(" chars, max ").concat(m.as_str());
                assert(r@ =~= unlock_message(self.model()));
                r
            },
            UnlockError::IntegerTooLarge { value, max } => {
                let v = signed_decimal_text(*value);
                let m = signed_decimal_text(*max);
                let r = String::from_str("Integer literal ").concat(v.as_str()).concat(" exceeds max allowed value of ").concat(m.as_str());
                assert(r@ =~= unlock_message(self.model()));
                r
            },
            UnlockError::StringsLocked => String::from_str("String literals are not unlocked yet"),
            UnlockError::BreakContinueLocked => String::from_str("break/continue requires the loops upgrade"),
            UnlockError::LoopsLocked => String::from_str("Loops are not unlocked yet"),
            UnlockError::NestedLoopsLocked => String::from_str("Nested loops are not unlocked yet"),
            UnlockError::ReturnLocked => String::from_str("return requires the functions upgrade"),
            UnlockError::FunctionsLocked => String::from_str("Function definitions are not unlocked yet"),
            UnlockError::PureFunctionsLocked => String::from_str("Pure functions are not unlocked yet"),
            UnlockError::RecursionLocked { name } => {
                let r = String::from_str("Recursion is not unlocked yet (function '").concat(name.as_str()).concat("' calls itself)");
                r
            },
            UnlockError::TooManyRecursiveCalls { name, calls, max } => {
                let c = decimal_text(*calls as u64);
                let m = decimal_text(*max as u64);
                let r = String::from_str("Function '").concat(name.as_str()).concat("' has ").concat(c.as_str()).concat(" recursive calls, max allowed is ").concat(m.as_str());
                assert(r@ =~= unlock_message(self.model()));
                r
            },
        }
    }
}

/// The message of a refusal.
pub open spec fn unlock_message(e: UnlockErrorModel) -> Seq<char> {
    match e {
        UnlockErrorModel::TooManyLines { used, allowed } => "Too many lines: "@ + decimal(used) + " used, "@ + decimal(allowed) + " allowed"@,
        UnlockErrorModel::LineTooLong { line, chars, max } => "Line "@ + decimal(line) + " is too long: "@ + decimal(chars) + " chars, max "@ + decimal(max),
        UnlockErrorModel::IntegerTooLarge { value, max } => "Integer literal "@ + decimal_signed(value as int) + " exceeds max allowed value of "@ + decimal_signed(max as int),
        UnlockErrorModel::StringsLocked => "String literals are not unlocked yet"@,
        UnlockErrorModel::BreakContinueLocked => "break/continue requires the loops upgrade"@,
        UnlockErrorModel::LoopsLocked => "Loops are not unlocked yet"@,
        UnlockErrorModel::NestedLoopsLocked => "Nested loops are not unlocked yet"@,
        UnlockErrorModel::ReturnLocked => "return requires the functions upgrade"@,
        UnlockErrorModel::FunctionsLocked => "Function definitions are not unlocked yet"@,
        UnlockErrorModel::PureFunctionsLocked => "Pure functions are not unlocked yet"@,
        UnlockErrorModel::RecursionLocked { name } => "Recursion is not unlocked yet (function '"@ + name + "' calls itself)"@,
        UnlockErrorModel::TooManyRecursiveCalls { name, calls, max } => "Function '"@ + name + "' has "@ + decimal(calls) + " recursive calls, max allowed is "@ + decimal(max),
    }
}

// ----------------------------------------------------------------------------
// Lines of the source
// ----------------------------------------------------------------------------

/// A line without the carriage return that ended it, if any.
pub open spec fn strip_cr(line: Seq<char>) -> Seq<char> {
    if line.len() > 0 && line.last() == '\r' {
        line.drop_last()
    } else {
        line
    }
}

/// The lines completed among the first `n` characters, and the line begun after them.
pub open spec fn scan_lines(s: Seq<char>, n: nat) -> (Seq<Seq<char>>, Seq<char>)
    decreases n,
{
    if n == 0 {
        (Seq::empty(), Seq::empty())
    } else {
        let (done, cur) = scan_lines(s, (n - 1) as nat);
        if s[n - 1] == '\n' {
            (done.push(strip_cr(cur)), Seq::empty())
        } else {
            (done, cur.push(s[n - 1]))
        }
    }
}

/// The lines of a text: split at each `\n`, each without a `\r` just before it, and
/// with no empty line after a final `\n`.
pub open spec fn text_lines(s: Seq<char>) -> Seq<Seq<char>> {
    let (done, cur) = scan_lines(s, s.len());
    if cur.len() > 0 {
        done.push(cur)
    } else {
        done
    }
}

/// The characters that Unicode counts as white space.
pub open spec fn is_white(c: char) -> bool {
    ||| c == ' ' || c == '\t' || c == '\n' || c == '\r'
    ||| c == '\u{0B}' || c == '\u{0C}' || c == '\u{85}' || c == '\u{A0}'
    ||| c == '\u{1680}' || ('\u{2000}' <= c && c <= '\u{200A}')
    ||| c == '\u{2028}' || c == '\u{2029}' || c == '\u{202F}' || c == '\u{205F}' || c == '\u{3000}'
}

/// A line that holds nothing but white space.
pub open spec fn is_blank(line: Seq<char>) -> bool {
    forall|i: int| 0 <= i < line.len() ==> is_white(#[trigger] line[i])
}

/// The number of the first `n` lines that are not blank.
pub open spec fn count_nonblank(lines: Seq<Seq<char>>, n: nat) -> nat
    decreases n,
{
    if n == 0 {
        0
    } else {
        count_nonblank(lines, (n - 1) as nat) + if is_blank(lines[n - 1]) { 0nat } else { 1nat }
    }
}

/// The number of bytes of a character in UTF-8.
pub open spec fn char_utf8_len(c: char) -> nat {
    if (c as u32) < 0x80 {
        1
    } else if (c as u32) < 0x800 {
        2
    } else if (c as u32) < 0x10000 {
        3
    } else {
        4
    }
}

/// The number of bytes of the first `n` characters in UTF-8.
pub open spec fn utf8_len(s: Seq<char>, n: nat) -> nat
    decreases n,
{
    if n == 0 {
        0
    } else {
        utf8_len(s, (n - 1) as nat) + char_utf8_len(s[n - 1])
    }
}

/// The first line, from position `i` on, that is longer than `width` bytes.
pub open spec fn first_long_line(lines: Seq<Seq<char>>, i: nat, width: nat) -> Option<nat>
    decreases lines.len() - i,
{
    if i >= lines.len() {
        None
    } else if utf8_len(lines[i as int], lines[i as int].len()) > width {
        Some(i)
    } else {
        first_long_line(lines, i + 1, width)
    }
}

/// The refusal of a source by its lines, if any.
pub open spec fn check_lines(s: Seq<char>, limits: UnlockLimits) -> Result<(), UnlockErrorModel> {
    let lines = text_lines(s);
    let used = count_nonblank(lines, lines.len());
    if used > limits.line_count {
        Err(UnlockErrorModel::TooManyLines { used, allowed: limits.line_count as nat })
    } else {
        match first_long_line(lines, 0, limits.line_width as nat) {
            Some(i) => Err(UnlockErrorModel::LineTooLong {
                line: i + 1,
                chars: utf8_len(lines[i as int], lines[i as int].len()),
                max: limits.line_width as nat,
            }),
            None => Ok(()),
        }
    }
}

fn char_len_exec(c: char) -> (r: usize)
    ensures
        r == char_utf8_len(c),
{
    let v = c as u32;
    if v < 0x80 {
        1
    } else if v < 0x800 {
        2
    } else if v < 0x10000 {
        3
    } else {
        4
    }
}

fn is_white_exec(c: char) -> (r: bool)
    ensures
        r == is_white(c),
{
    c == ' ' || c == '\t' || c == '\n' || c == '\r' || c == '\u{0B}' || c == '\u{0C}' || c == '\u{85}'
        || c == '\u{A0}' || c == '\u{1680}' || ('\u{2000}' <= c && c <= '\u{200A}') || c == '\u{2028}'
        || c == '\u{2029}' || c == '\u{202F}' || c == '\u{205F}' || c == '\u{3000}'
}

proof fn lemma_utf8_len_bound(s: Seq<char>, n: nat)
    requires
        n <= s.len(),
    ensures
        utf8_len(s, n) <= 4 * n,
    decreases n,
{
    if n > 0 {
        lemma_utf8_len_bound(s, (n - 1) as nat);
    }
}

proof fn lemma_count_nonblank_bound(lines: Seq<Seq<char>>, n: nat)
    ensures
        count_nonblank(lines, n) <= n,
    decreases n,
{
    if n > 0 {
        lemma_count_nonblank_bound(lines, (n - 1) as nat);
    }
}

/// The byte length of a line and whether it is blank.
fn measure_line(line: &Vec<char>) -> (r: (usize, bool))
    requires
        4 * line@.len() <= usize::MAX,
    ensures
        r.0 == utf8_len(line@, line@.len()),
        r.1 == is_blank(line@),
{
    let mut bytes: usize = 0;
    let mut blank = true;
    let mut i: usize = 0;
    while i < line.len()
        invariant
            0 <= i <= line@.len(),
            4 * line@.len() <= usize::MAX,
            bytes == utf8_len(line@, i as nat),
            blank == (forall|j: int| 0 <= j < i ==> is_white(#[trigger] line@[j])),
        decreases line@.len() - i,
    {
        proof {
            lemma_utf8_len_bound(line@, (i + 1) as nat);
        }
        bytes = bytes + char_len_exec(line[i]);
        blank = blank && is_white_exec(line[i]);
        i = i + 1;
    }
    (bytes, blank)
}

/// Splits a text into its lines.
fn split_lines(s: &Vec<char>) -> (lines: Vec<Vec<char>>)
    ensures
        lines@.len() == text_lines(s@).len(),
        forall|i: int| 0 <= i < lines@.len() ==> #[trigger] lines@[i]@ == text_lines(s@)[i],
        forall|i: int| 0 <= i < lines@.len() ==> lines@[i]@.len() <= s@.len(),
{
    let mut done: Vec<Vec<char>> = Vec::new();
    let mut cur: Vec<char> = Vec::new();
    let mut i: usize = 0;
    while i < s.len()
        invariant
            0 <= i <= s@.len(),
            done@.len() == scan_lines(s@, i as nat).0.len(),
            forall|j: int| 0 <= j < done@.len() ==> #[trigger] done@[j]@ == scan_lines(s@, i as nat).0[j],
            forall|j: int| 0 <= j < done@.len() ==> done@[j]@.len() <= i,
            cur@ == scan_lines(s@, i as nat).1,
            cur@.len() <= i,
        decreases s@.len() - i,
    {
        let c = s[i];
        if c == '\n' {
            let mut line = cur;
            let n = line.len();
            if n > 0 && line[n - 1] == '\r' {
                line.pop();
            }
            done.push(line);
            cur = Vec::new();
        } else {
            cur.push(c);
        }
        i = i + 1;
    }
    if cur.len() > 0 {
        done.push(cur);
    }
    done
}

/// The refusal of a source by its lines, if any.
fn verify_lines(source: &Vec<char>, limits: &UnlockLimits) -> (r: Result<(), UnlockError>)
    requires
        4 * source@.len() <= usize::MAX,
    ensures
        match r {
            Ok(()) => check_lines(source@, *limits) is Ok,
            Err(e) => check_lines(source@, *limits) == Err::<(), UnlockErrorModel>(e.model()),
        },
{
    let lines = split_lines(source);
    let ghost ls = text_lines(source@);
    let mut used: usize = 0;
    let mut i: usize = 0;
    while i < lines.len()
        invariant
            0 <= i <= lines@.len(),
            ls == text_lines(source@),
            lines@.len() == ls.len(),
            forall|j: int| 0 <= j < lines@.len() ==> #[trigger] lines@[j]@ == ls[j],
            forall|j: int| 0 <= j < lines@.len() ==> lines@[j]@.len() <= source@.len(),
            4 * source@.len() <= usize::MAX,
            used == count_nonblank(ls, i as nat),
            used <= i,
        decreases lines@.len() - i,
    {
        let (_, blank) = measure_line(&lines[i]);
        if !blank {
            used = used + 1;
        }
        i = i + 1;
    }
    if used > limits.line_count as usize {
        return Err(UnlockError::TooManyLines { used, allowed: limits.line_count });
    }
    let mut k: usize = 0;
    while k < lines.len()
        invariant
            0 <= k <= lines@.len(),
            ls == text_lines(source@),
            lines@.len() == ls.len(),
            forall|j: int| 0 <= j < lines@.len() ==> #[trigger] lines@[j]@ == ls[j],
            forall|j: int| 0 <= j < lines@.len() ==> lines@[j]@.len() <= source@.len(),
            4 * source@.len() <= usize::MAX,
            count_nonblank(ls, ls.len()) <= limits.line_count,
            first_long_line(ls, 0, limits.line_width as nat) == first_long_line(ls, k as nat, limits.line_width as nat),
        decreases lines@.len() - k,
    {
        let (bytes, _) = measure_line(&lines[k]);
        if bytes > limits.line_width as usize {
            assert(lines@.len() <= usize::MAX);
            return Err(UnlockError::LineTooLong { line: k + 1, chars: bytes, max: limits.line_width });
        }
        k = k + 1;
    }
    Ok(())
}

// ----------------------------------------------------------------------------
// Expressions and statements
// ----------------------------------------------------------------------------

/// The refusal of an expression by its literals, if any: the first in evaluation order.
pub open spec fn check_expr(e: ExprModel, strings_allowed: bool, max_int: i64) -> Result<(), UnlockErrorModel>
    decreases e, 0nat,
{
    match e {
        ExprModel::Int(n) => if (if n < 0 { -n } else { n as int }) > max_int {
            Err(UnlockErrorModel::IntegerTooLarge { value: n, max: max_int })
        } else {
            Ok(())
        },
        ExprModel::Str(_, _) => if !strings_allowed {
            Err(UnlockErrorModel::StringsLocked)
        } else {
            Ok(())
        },
        ExprModel::List(es) => check_exprs(es, 0, strings_allowed, max_int),
        ExprModel::Dict(ps) => check_pairs(ps, 0, strings_allowed, max_int),
        ExprModel::BinaryOp(_, a, b) => match check_expr(*a, strings_allowed, max_int) {
            Ok(_) => check_expr(*b, strings_allowed, max_int),
            Err(x) => Err(x),
        },
        ExprModel::UnaryOp(_, v) => check_expr(*v, strings_allowed, max_int),
        ExprModel::Call(_, args) => check_exprs(args, 0, strings_allowed, max_int),
        ExprModel::Index(_, i) => check_expr(*i, strings_allowed, max_int),
        _ => Ok(()),
    }
}

/// The first refusal among expressions from position `i` on, if any.
pub open spec fn check_exprs(es: Seq<ExprModel>, i: nat, strings_allowed: bool, max_int: i64) -> Result<(), UnlockErrorModel>
    decreases es, es.len() - i,
{
    if i >= es.len() {
        Ok(())
    } else {
        match check_expr(es[i as int], strings_allowed, max_int) {
            Ok(_) => check_exprs(es, i + 1, strings_allowed, max_int),
            Err(x) => Err(x),
        }
    }
}

/// The first refusal among dictionary entries from position `i` on, key before value.
pub open spec fn check_pairs(ps: Seq<(ExprModel, ExprModel)>, i: nat, strings_allowed: bool, max_int: i64) -> Result<(), UnlockErrorModel>
    decreases ps, ps.len() - i,
{
    if i >= ps.len() {
        Ok(())
    } else {
        proof {
            assert(decreases_to!(ps => ps[i as int]));
            assert(decreases_to!(ps[i as int] => ps[i as int].0));
            assert(decreases_to!(ps[i as int] => ps[i as int].1));
        }
        match check_expr(ps[i as int].0, strings_allowed, max_int) {
            Ok(_) => match check_expr(ps[i as int].1, strings_allowed, max_int) {
                Ok(_) => check_pairs(ps, i + 1, strings_allowed, max_int),
                Err(x) => Err(x),
            },
            Err(x) => Err(x),
        }
    }
}

/// A sum that stops at the largest `usize`.
pub open spec fn sat_add(a: nat, b: nat) -> nat {
    if a + b > usize::MAX {
        usize::MAX as nat
    } else {
        a + b
    }
}

/// The number of statements that call `name` directly, outside expressions, at any depth
/// of blocks, conditionals, loops and function bodies.
pub open spec fn count_calls(s: StmtModel, name: Seq<char>) -> nat
    decreases s, 0nat,
{
    match s {
        StmtModel::Call(n, _) => if n == name { 1 } else { 0 },
        StmtModel::Block(ss) => count_calls_from(ss, 0, name),
        StmtModel::If(_, t, e) => sat_add(
            count_calls(*t, name),
            match e {
                Some(e) => count_calls(*e, name),
                None => 0,
            },
        ),
        StmtModel::Loop(b) => count_calls(*b, name),
        StmtModel::Function(_, _, b, _) => count_calls(*b, name),
        _ => 0,
    }
}

/// The calls of `name` in the statements from position `i` on.
pub open spec fn count_calls_from(ss: Seq<StmtModel>, i: nat, name: Seq<char>) -> nat
    decreases ss, ss.len() - i,
{
    if i >= ss.len() {
        0
    } else {
        sat_add(count_calls(ss[i as int], name), count_calls_from(ss, i + 1, name))
    }
}

pub open spec fn allows_loops(level: CodeStatementLevels) -> bool {
    level != CodeStatementLevels::NoneUnlocked
}

pub open spec fn allows_nested_loops(level: CodeStatementLevels) -> bool {
    level != CodeStatementLevels::NoneUnlocked && level != CodeStatementLevels::SimpleLoops
}

pub open spec fn allows_functions(level: CodeStatementLevels) -> bool {
    level == CodeStatementLevels::Functions || level == CodeStatementLevels::PureFunctions
        || level == CodeStatementLevels::SingleRecursion || level == CodeStatementLevels::MultiRecursion
}

pub open spec fn allows_pure_functions(level: CodeStatementLevels) -> bool {
    level == CodeStatementLevels::PureFunctions || level == CodeStatementLevels::SingleRecursion
        || level == CodeStatementLevels::MultiRecursion
}

/// How many times a function body may call its own function.
pub open spec fn max_recursive_calls(level: CodeStatementLevels) -> nat {
    match level {
        CodeStatementLevels::SingleRecursion => 1,
        CodeStatementLevels::MultiRecursion => usize::MAX as nat,
        _ => 0,
    }
}

/// One loop level deeper, stopping at the largest depth.
pub open spec fn deeper(depth: u32) -> u32 {
    if depth == u32::MAX {
        depth
    } else {
        (depth + 1) as u32
    }
}

/// The refusal of a statement, if any: the first in program order.
pub open spec fn check_stmt(
    s: StmtModel,
    strings_allowed: bool,
    max_int: i64,
    level: CodeStatementLevels,
    loop_depth: u32,
) -> Result<(), UnlockErrorModel>
    decreases s, 0nat,
{
    match s {
        StmtModel::Call(_, args) => check_exprs(args, 0, strings_allowed, max_int),
        StmtModel::Pass => Ok(()),
        StmtModel::Break | StmtModel::Continue => if !allows_loops(level) {
            Err(UnlockErrorModel::BreakContinueLocked)
        } else {
            Ok(())
        },
        StmtModel::Block(ss) => check_stmts(ss, 0, strings_allowed, max_int, level, loop_depth),
        StmtModel::Decl(_, e) => check_expr(e, strings_allowed, max_int),
        StmtModel::Assign(_, e) => check_expr(e, strings_allowed, max_int),
        StmtModel::If(c, t, e) => match check_expr(c, strings_allowed, max_int) {
            Err(x) => Err(x),
            Ok(_) => match check_stmt(*t, strings_allowed, max_int, level, loop_depth) {
                Err(x) => Err(x),
                Ok(_) => match e {
                    Some(e) => check_stmt(*e, strings_allowed, max_int, level, loop_depth),
                    None => Ok(()),
                },
            },
        },
        StmtModel::Loop(b) => if !allows_loops(level) {
            Err(UnlockErrorModel::LoopsLocked)
        } else if !allows_nested_loops(level) && loop_depth >= 1 {
            Err(UnlockErrorModel::NestedLoopsLocked)
        } else {
            check_stmt(*b, strings_allowed, max_int, level, deeper(loop_depth))
        },
        StmtModel::Return(e) => if !allows_functions(level) {
            Err(UnlockErrorModel::ReturnLocked)
        } else {
            match e {
                Some(e) => check_expr(e, strings_allowed, max_int),
                None => Ok(()),
            }
        },
        StmtModel::Function(name, _, body, is_pure) => if !allows_functions(level) {
            Err(UnlockErrorModel::FunctionsLocked)
        } else if is_pure && !allows_pure_functions(level) {
            Err(UnlockErrorModel::PureFunctionsLocked)
        } else {
            let calls = count_calls(*body, name);
            let max = max_recursive_calls(level);
            if calls > max {
                if max == 0 {
                    Err(UnlockErrorModel::RecursionLocked { name })
                } else {
                    Err(UnlockErrorModel::TooManyRecursiveCalls { name, calls, max })
                }
            } else {
                check_stmt(*body, strings_allowed, max_int, level, 0)
            }
        },
    }
}

/// The first refusal among statements from position `i` on, if any.
pub open spec fn check_stmts(
    ss: Seq<StmtModel>,
    i: nat,
    strings_allowed: bool,
    max_int: i64,
    level: CodeStatementLevels,
    loop_depth: u32,
) -> Result<(), UnlockErrorModel>
    decreases ss, ss.len() - i,
{
    if i >= ss.len() {
        Ok(())
    } else {
        match check_stmt(ss[i as int], strings_allowed, max_int, level, loop_depth) {
            Ok(_) => check_stmts(ss, i + 1, strings_allowed, max_int, level, loop_depth),
            Err(x) => Err(x),
        }
    }
}

/// The refusal of a program, if any: by its lines first, then by its syntax tree.
pub open spec fn check_program(source: Seq<char>, program: StmtModel, limits: UnlockLimits) -> Result<(), UnlockErrorModel> {
    match check_lines(source, limits) {
        Err(x) => Err(x),
        Ok(_) => check_stmt(program, limits.strings_allowed, limits.max_int as i64, limits.statements, 0),
    }
}

/// A single literal is allowed: an integer literal of absolute value at most
/// `max_int`, and a string literal only where strings are unlocked.
pub open spec fn literal_allowed(e: ExprModel, strings_allowed: bool, max_int: i64) -> bool {
    match e {
        ExprModel::Int(n) => -max_int <= n <= max_int,
        ExprModel::Str(_, _) => strings_allowed,
        _ => true,
    }
}

/// Every expression of `e`, `e` itself and all that it contains at any depth, is an
/// allowed literal or no literal.
pub open spec fn all_literals_allowed(e: ExprModel, strings_allowed: bool, max_int: i64) -> bool
    decreases e,
{
    &&& literal_allowed(e, strings_allowed, max_int)
    &&& match e {
        ExprModel::List(es) => forall|i: int| 0 <= i < es.len() ==> all_literals_allowed(#[trigger] es[i], strings_allowed, max_int),
        ExprModel::Call(_, es) => forall|i: int| 0 <= i < es.len() ==> all_literals_allowed(#[trigger] es[i], strings_allowed, max_int),
        ExprModel::Dict(ps) => forall|i: int| 0 <= i < ps.len() ==> all_literals_allowed(#[trigger] ps[i].0, strings_allowed, max_int)
            && all_literals_allowed(ps[i].1, strings_allowed, max_int),
        ExprModel::BinaryOp(_, a, b) => all_literals_allowed(*a, strings_allowed, max_int) && all_literals_allowed(*b, strings_allowed, max_int),
        ExprModel::UnaryOp(_, v) => all_literals_allowed(*v, strings_allowed, max_int),
        ExprModel::Index(_, i) => all_literals_allowed(*i, strings_allowed, max_int),
        _ => true,
    }
}

/// Every expression of every statement of `s`, at any depth (conditions, assignments,
/// declarations, returns, call arguments, and the bodies of blocks, branches, loops and
/// functions), holds only allowed literals.
pub open spec fn stmt_literals_allowed(s: StmtModel, strings_allowed: bool, max_int: i64) -> bool
    decreases s,
{
    match s {
        StmtModel::Call(_, es) => forall|i: int| 0 <= i < es.len() ==> all_literals_allowed(#[trigger] es[i], strings_allowed, max_int),
        StmtModel::Block(ss) => forall|i: int| 0 <= i < ss.len() ==> stmt_literals_allowed(#[trigger] ss[i], strings_allowed, max_int),
        StmtModel::Decl(_, e) => all_literals_allowed(e, strings_allowed, max_int),
        StmtModel::Assign(_, e) => all_literals_allowed(e, strings_allowed, max_int),
        StmtModel::If(c, t, e) => all_literals_allowed(c, strings_allowed, max_int)
            && stmt_literals_allowed(*t, strings_allowed, max_int)
            && match e {
                Some(e) => stmt_literals_allowed(*e, strings_allowed, max_int),
                None => true,
            },
        StmtModel::Loop(b) => stmt_literals_allowed(*b, strings_allowed, max_int),
        StmtModel::Return(e) => match e {
            Some(e) => all_literals_allowed(e, strings_allowed, max_int),
            None => true,
        },
        StmtModel::Function(_, _, b, _) => stmt_literals_allowed(*b, strings_allowed, max_int),
        _ => true,
    }
}

proof fn lemma_check_expr_literals(e: ExprModel, strings_allowed: bool, max_int: i64)
    requires
        check_expr(e, strings_allowed, max_int) is Ok,
    ensures
        all_literals_allowed(e, strings_allowed, max_int),
    decreases e, 1nat,
{
    match e {
        ExprModel::List(es) => lemma_check_exprs_literals(es, 0, strings_allowed, max_int),
        ExprModel::Call(_, es) => lemma_check_exprs_literals(es, 0, strings_allowed, max_int),
        ExprModel::Dict(ps) => lemma_check_pairs_literals(ps, 0, strings_allowed, max_int),
        ExprModel::BinaryOp(_, a, b) => {
            lemma_check_expr_literals(*a, strings_allowed, max_int);
            lemma_check_expr_literals(*b, strings_allowed, max_int);
        },
        ExprModel::UnaryOp(_, v) => lemma_check_expr_literals(*v, strings_allowed, max_int),
        ExprModel::Index(_, i) => lemma_check_expr_literals(*i, strings_allowed, max_int),
        _ => {},
    }
}

proof fn lemma_check_exprs_literals(es: Seq<ExprModel>, i: nat, strings_allowed: bool, max_int: i64)
    requires
        check_exprs(es, i, strings_allowed, max_int) is Ok,
    ensures
        forall|j: int| i <= j < es.len() ==> all_literals_allowed(#[trigger] es[j], strings_allowed, max_int),
    decreases es, es.len() - i,
{
    if i < es.len() {
        lemma_check_expr_literals(es[i as int], strings_allowed, max_int);
        lemma_check_exprs_literals(es, i + 1, strings_allowed, max_int);
    }
}

proof fn lemma_check_pairs_literals(ps: Seq<(ExprModel, ExprModel)>, i: nat, strings_allowed: bool, max_int: i64)
    requires
        check_pairs(ps, i, strings_allowed, max_int) is Ok,
    ensures
        forall|j: int| i <= j < ps.len() ==> all_literals_allowed(#[trigger] ps[j].0, strings_allowed, max_int)
            && all_literals_allowed(ps[j].1, strings_allowed, max_int),
    decreases ps, ps.len() - i,
{
    if i < ps.len() {
        assert(decreases_to!(ps => ps[i as int]));
        assert(decreases_to!(ps[i as int] => ps[i as int].0));
        assert(decreases_to!(ps[i as int] => ps[i as int].1));
        lemma_check_expr_literals(ps[i as int].0, strings_allowed, max_int);
        lemma_check_expr_literals(ps[i as int].1, strings_allowed, max_int);
        lemma_check_pairs_literals(ps, i + 1, strings_allowed, max_int);
    }
}

/// A statement that the unlock check accepts holds only allowed literals, wherever they
/// stand in it.
pub proof fn lemma_check_stmt_literals(
    s: StmtModel,
    strings_allowed: bool,
    max_int: i64,
    level: CodeStatementLevels,
    loop_depth: u32,
)
    requires
        check_stmt(s, strings_allowed, max_int, level, loop_depth) is Ok,
    ensures
        stmt_literals_allowed(s, strings_allowed, max_int),
    decreases s, 1nat,
{
    match s {
        StmtModel::Call(_, es) => lemma_check_exprs_literals(es, 0, strings_allowed, max_int),
        StmtModel::Block(ss) => lemma_check_stmts_literals(ss, 0, strings_allowed, max_int, level, loop_depth),
        StmtModel::Decl(_, e) => lemma_check_expr_literals(e, strings_allowed, max_int),
        StmtModel::Assign(_, e) => lemma_check_expr_literals(e, strings_allowed, max_int),
        StmtModel::If(c, t, e) => {
            lemma_check_expr_literals(c, strings_allowed, max_int);
            lemma_check_stmt_literals(*t, strings_allowed, max_int, level, loop_depth);
            if let Some(e) = e {
                lemma_check_stmt_literals(*e, strings_allowed, max_int, level, loop_depth);
            }
        },
        StmtModel::Loop(b) => lemma_check_stmt_literals(*b, strings_allowed, max_int, level, deeper(loop_depth)),
        StmtModel::Return(e) => {
            if let Some(e) = e {
                lemma_check_expr_literals(e, strings_allowed, max_int);
            }
        },
        StmtModel::Function(_, _, b, _) => lemma_check_stmt_literals(*b, strings_allowed, max_int, level, 0),
        _ => {},
    }
}

proof fn lemma_check_stmts_literals(
    ss: Seq<StmtModel>,
    i: nat,
    strings_allowed: bool,
    max_int: i64,
    level: CodeStatementLevels,
    loop_depth: u32,
)
    requires
        check_stmts(ss, i, strings_allowed, max_int, level, loop_depth) is Ok,
    ensures
        forall|j: int| i <= j < ss.len() ==> stmt_literals_allowed(#[trigger] ss[j], strings_allowed, max_int),
    decreases ss, ss.len() - i,
{
    if i < ss.len() {
        lemma_check_stmt_literals(ss[i as int], strings_allowed, max_int, level, loop_depth);
        lemma_check_stmts_literals(ss, i + 1, strings_allowed, max_int, level, loop_depth);
    }
}

/// The law of literal limits: a program that the unlock check accepts has, in every
/// statement and at any depth, no integer literal of absolute value above the largest
/// unlocked literal, and no string literal where strings are locked.
pub proof fn lemma_accepted_program_literals(source: Seq<char>, program: StmtModel, limits: UnlockLimits)
    requires
        check_program(source, program, limits) is Ok,
    ensures
        stmt_literals_allowed(program, limits.strings_allowed, limits.max_int as i64),
{
    lemma_check_stmt_literals(program, limits.strings_allowed, limits.max_int as i64, limits.statements, 0);
}

/// An exec result matching a spec result.
pub open spec fn matches_check(r: Result<(), UnlockError>, c: Result<(), UnlockErrorModel>) -> bool {
    match r {
        Ok(()) => c is Ok,
        Err(e) => c == Err::<(), UnlockErrorModel>(e.model()),
    }
}

fn verify_expr(expr: &NotPythonExpr, strings_allowed: bool, max_int: i64) -> (r: Result<(), UnlockError>)
    requires
        max_int >= 0,
    ensures
        matches_check(r, check_expr(expr.model(), strings_allowed, max_int)),
    decreases expr, 0nat,
{
    match expr {
        NotPythonExpr::Int(n) => {
            let too_large = if *n < 0 {
                *n < -max_int
            } else {
                *n > max_int
            };
            if too_large {
                return Err(UnlockError::IntegerTooLarge { value: *n, max: max_int });
            }
            Ok(())
        },
        NotPythonExpr::String(_) => {
            if !strings_allowed {
                return Err(UnlockError::StringsLocked);
            }
            Ok(())
        },
        NotPythonExpr::List(es) => {
            assert(expr.model()->List_0 =~= exprs_model(es@));
            verify_exprs(es, strings_allowed, max_int)
        },
        NotPythonExpr::Dict(ps) => {
            assert(expr.model()->Dict_0 =~= pairs_model(ps@));
            verify_pairs(ps, strings_allowed, max_int)
        },
        NotPythonExpr::BinaryOp(_, a, b) => {
            match verify_expr(a, strings_allowed, max_int) {
                Ok(()) => {},
                Err(e) => return Err(e),
            }
            verify_expr(b, strings_allowed, max_int)
        },
        NotPythonExpr::UnaryOp(_, v) => verify_expr(v, strings_allowed, max_int),
        NotPythonExpr::Call(_, args) => {
            assert(expr.model()->Call_1 =~= exprs_model(args@));
            verify_exprs(args, strings_allowed, max_int)
        },
        NotPythonExpr::Index(_, i) => verify_expr(i, strings_allowed, max_int),
        _ => Ok(()),
    }
}

fn verify_pairs(ps: &Vec<(NotPythonExpr, NotPythonExpr)>, strings_allowed: bool, max_int: i64) -> (r: Result<(), UnlockError>)
    requires
        max_int >= 0,
    ensures
        matches_check(r, check_pairs(pairs_model(ps@), 0, strings_allowed, max_int)),
    decreases ps, 1nat,
{
    let ghost pm = pairs_model(ps@);
    let mut i: usize = 0;
    while i < ps.len()
        invariant
            0 <= i <= ps@.len(),
            max_int >= 0,
            pm == pairs_model(ps@),
            check_pairs(pm, 0, strings_allowed, max_int) == check_pairs(pm, i as nat, strings_allowed, max_int),
        decreases ps@.len() - i,
    {
        proof {
            assert(decreases_to!(ps@[i as int] => ps@[i as int].0));
            assert(decreases_to!(ps@[i as int] => ps@[i as int].1));
        }
        match verify_expr(&ps[i].0, strings_allowed, max_int) {
            Ok(()) => {},
            Err(e) => return Err(e),
        }
        match verify_expr(&ps[i].1, strings_allowed, max_int) {
            Ok(()) => {},
            Err(e) => return Err(e),
        }
        i = i + 1;
    }
    Ok(())
}

fn verify_exprs(es: &Vec<NotPythonExpr>, strings_allowed: bool, max_int: i64) -> (r: Result<(), UnlockError>)
    requires
        max_int >= 0,
    ensures
        matches_check(r, check_exprs(exprs_model(es@), 0, strings_allowed, max_int)),
    decreases es, 1nat,
{
    let ghost em = exprs_model(es@);
    let mut i: usize = 0;
    while i < es.len()
        invariant
            0 <= i <= es@.len(),
            max_int >= 0,
            em == exprs_model(es@),
            check_exprs(em, 0, strings_allowed, max_int) == check_exprs(em, i as nat, strings_allowed, max_int),
        decreases es@.len() - i,
    {
        match verify_expr(&es[i], strings_allowed, max_int) {
            Ok(()) => {},
            Err(e) => return Err(e),
        }
        i = i + 1;
    }
    Ok(())
}

fn count_direct_calls(stmt: &NotPythonStmt, fn_name: &String) -> (r: usize)
    ensures
        r == count_calls(stmt.model(), fn_name@),
    decreases stmt, 0nat,
{
    match stmt {
        NotPythonStmt::Call(name, _) => if *name == *fn_name {
            1
        } else {
            0
        },
        NotPythonStmt::Block(stmts) => {
            assert(stmt.model()->Block_0 =~= stmts_model(stmts@));
            count_block_calls(stmts, fn_name)
        },
        NotPythonStmt::If { then, else_, .. } => {
            let a = count_direct_calls(then, fn_name);
            let b = match else_ {
                Some(e) => count_direct_calls(e, fn_name),
                None => 0,
            };
            a.saturating_add(b)
        },
        NotPythonStmt::Loop(body) => count_direct_calls(body, fn_name),
        NotPythonStmt::Function { body, .. } => count_direct_calls(body, fn_name),
        _ => 0,
    }
}

fn count_block_calls(stmts: &Vec<NotPythonStmt>, fn_name: &String) -> (r: usize)
    ensures
        r == count_calls_from(stmts_model(stmts@), 0, fn_name@),
    decreases stmts, 1nat,
{
    let ghost sm = stmts_model(stmts@);
    let mut total: usize = 0;
    let mut i: usize = stmts.len();
    while i > 0
        invariant
            0 <= i <= stmts@.len(),
            sm == stmts_model(stmts@),
            total == count_calls_from(sm, i as nat, fn_name@),
        decreases i,
    {
        let c = count_direct_calls(&stmts[i - 1], fn_name);
        total = c.saturating_add(total);
        i = i - 1;
    }
    total
}

pub fn verify_stmt(
    stmt: &NotPythonStmt,
    strings_allowed: bool,
    max_int: i64,
    level: CodeStatementLevels,
    loop_depth: u32,
) -> (r: Result<(), UnlockError>)
    requires
        max_int >= 0,
    ensures
        matches_check(r, check_stmt(stmt.model(), strings_allowed, max_int, level, loop_depth)),
    decreases stmt, 0nat,
{
    let allows_loops = !matches!(level, CodeStatementLevels::NoneUnlocked);
    let allows_nested_loops = !matches!(level, CodeStatementLevels::NoneUnlocked | CodeStatementLevels::SimpleLoops);
    let allows_functions = matches!(
        level,
        CodeStatementLevels::Functions | CodeStatementLevels::PureFunctions
            | CodeStatementLevels::SingleRecursion | CodeStatementLevels::MultiRecursion
    );
    let allows_pure_functions = matches!(
        level,
        CodeStatementLevels::PureFunctions | CodeStatementLevels::SingleRecursion
            | CodeStatementLevels::MultiRecursion
    );
    match stmt {
        NotPythonStmt::Call(_, args) => {
            assert(stmt.model()->Call_1 =~= exprs_model(args@));
            verify_exprs(args, strings_allowed, max_int)
        },
        NotPythonStmt::Pass => Ok(()),
        NotPythonStmt::Break | NotPythonStmt::Continue => {
            if !allows_loops {
                return Err(UnlockError::BreakContinueLocked);
            }
            Ok(())
        },
        NotPythonStmt::Block(stmts) => {
            assert(stmt.model()->Block_0 =~= stmts_model(stmts@));
            verify_block(stmts, strings_allowed, max_int, level, loop_depth)
        },
        NotPythonStmt::Decl(_, e) => verify_expr(e, strings_allowed, max_int),
        NotPythonStmt::Assign(_, e) => verify_expr(e, strings_allowed, max_int),
        NotPythonStmt::If { condition, then, else_ } => {
            match verify_expr(condition, strings_allowed, max_int) {
                Ok(()) => {},
                Err(e) => return Err(e),
            }
            match verify_stmt(then, strings_allowed, max_int, level, loop_depth) {
                Ok(()) => {},
                Err(e) => return Err(e),
            }
            match else_ {
                Some(e) => verify_stmt(e, strings_allowed, max_int, level, loop_depth),
                None => Ok(()),
            }
        },
        NotPythonStmt::Loop(body) => {
            if !allows_loops {
                return Err(UnlockError::LoopsLocked);
            }
            if !allows_nested_loops && loop_depth >= 1 {
                return Err(UnlockError::NestedLoopsLocked);
            }
            verify_stmt(body, strings_allowed, max_int, level, loop_depth.saturating_add(1))
        },
        NotPythonStmt::Return(e) => {
            if !allows_functions {
                return Err(UnlockError::ReturnLocked);
            }
            match e {
                Some(e) => verify_expr(e, strings_allowed, max_int),
                None => Ok(()),
            }
        },
        NotPythonStmt::Function { name, body, is_pure, .. } => {
            if !allows_functions {
                return Err(UnlockError::FunctionsLocked);
            }
            if *is_pure && !allows_pure_functions {
                return Err(UnlockError::PureFunctionsLocked);
            }
            let self_calls = count_direct_calls(body, name);
            let max_recursive: usize = match level {
                CodeStatementLevels::SingleRecursion => 1,
                CodeStatementLevels::MultiRecursion => usize::MAX,
                _ => 0,
            };
            if self_calls > max_recursive {
                if max_recursive == 0 {
                    return Err(UnlockError::RecursionLocked { name: name.clone() });
                } else {
                    return Err(UnlockError::TooManyRecursiveCalls {
                        name: name.clone(),
                        calls: self_calls,
                        max: max_recursive,
                    });
                }
            }
            verify_stmt(body, strings_allowed, max_int, level, 0)
        },
    }
}

fn verify_block(
    stmts: &Vec<NotPythonStmt>,
    strings_allowed: bool,
    max_int: i64,
    level: CodeStatementLevels,
    loop_depth: u32,
) -> (r: Result<(), UnlockError>)
    requires
        max_int >= 0,
    ensures
        matches_check(r, check_stmts(stmts_model(stmts@), 0, strings_allowed, max_int, level, loop_depth)),
    decreases stmts, 1nat,
{
    let ghost sm = stmts_model(stmts@);
    let mut i: usize = 0;
    while i < stmts.len()
        invariant
            0 <= i <= stmts@.len(),
            max_int >= 0,
            sm == stmts_model(stmts@),
            check_stmts(sm, 0, strings_allowed, max_int, level, loop_depth)
                == check_stmts(sm, i as nat, strings_allowed, max_int, level, loop_depth),
        decreases stmts@.len() - i,
    {
        match verify_stmt(&stmts[i], strings_allowed, max_int, level, loop_depth) {
            Ok(()) => {},
            Err(e) => return Err(e),
        }
        i = i + 1;
    }
    Ok(())
}

/// Checks whether a program uses only features that have been unlocked: first the
/// number of non-blank lines and the width of each line of its source, then its
/// literals and statements.
pub fn verify_unlocks(source: &str, parsed_program: &NotPythonProgram, limits: &UnlockLimits) -> (r: Result<(), UnlockError>)
    requires
        4 * source@.len() <= usize::MAX,
    ensures
        matches_check(r, check_program(source@, parsed_program.model(), *limits)),
{
    let chars = chars_of(source);
    match verify_lines(&chars, limits) {
        Ok(()) => {},
        Err(e) => return Err(e),
    }
    verify_stmt(&parsed_program.statement, limits.strings_allowed, limits.max_int as i64, limits.statements, 0)
}

} // verus!
