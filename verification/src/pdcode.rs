//! Generates a program that makes the most of the unlocked features: as many
//! instructions, sleeps and printed characters as the line limits allow.
use vstd::prelude::*;
use crate::unlocks::CodeStatementLevels;
use crate::upgrades::{
    UpgradeId, Upgrades, line_count_table, line_width_table, literals_table, statements_table, total_of,
};
use crate::values::{decimal, decimal_text, digit_char};

verus! {

/// The parts joined by line breaks.
pub open spec fn join_lines(parts: Seq<Seq<char>>) -> Seq<char>
    decreases parts.len(),
{
    if parts.len() == 0 {
        Seq::empty()
    } else if parts.len() == 1 {
        parts[0]
    } else {
        join_lines(parts.drop_last()) + seq!['\n'] + parts.last()
    }
}

/// The parts joined by `*`.
pub open spec fn join_stars(parts: Seq<Seq<char>>) -> Seq<char>
    decreases parts.len(),
{
    if parts.len() == 0 {
        Seq::empty()
    } else if parts.len() == 1 {
        parts[0]
    } else {
        join_stars(parts.drop_last()) + seq!['*'] + parts.last()
    }
}

/// `n` copies of a text.
pub open spec fn copies(item: Seq<char>, n: nat) -> Seq<Seq<char>> {
    Seq::new(n, |i: int| item)
}

/// `n` times the character `a`.
pub open spec fn a_run(n: nat) -> Seq<char> {
    Seq::new(n, |i: int| 'a')
}

pub open spec fn sat_sub(a: nat, b: nat) -> nat {
    if a >= b { (a - b) as nat } else { 0 }
}

/// A product of equal integer literals that fills `expr_len` characters, with literals
/// no larger than `max_int_lit`; `1` where not even one fits.
pub open spec fn spec_counter_expr(expr_len: nat, max_int_lit: u8) -> Seq<char> {
    let max_len_lit: nat = if expr_len == 0 { 0 } else if expr_len == 1 { 9 } else if expr_len == 2 { 99 } else { 255 };
    let lit: nat = if max_int_lit <= max_len_lit { max_int_lit as nat } else { max_len_lit };
    let lit_chars = decimal(lit).len();
    let n = (expr_len + 1) / (lit_chars + 1);
    if n == 0 {
        seq!['1']
    } else {
        join_stars(copies(decimal(lit), n))
    }
}

/// A call of `sleep` that fills a line of `width` characters.
pub open spec fn spec_sleep_line(width: nat, max_int_lit: u8) -> Seq<char> {
    "sleep("@ + spec_counter_expr(sat_sub(width, 8), max_int_lit) + ");"@
}

/// An append to `s` that fills a line of `width` characters.
pub open spec fn spec_print_append_line(width: nat) -> Seq<char> {
    "s=s+\""@ + a_run(sat_sub(width, 7)) + "\";"@
}

/// The extra lines of the innermost loop body: the append, then the sleep.
pub open spec fn spec_loop_body_extras(width: nat, max_int_lit: u8, unlock_sleep: bool, print_on: bool) -> Seq<Seq<char>> {
    let a: Seq<Seq<char>> = if print_on { seq![spec_print_append_line(width)] } else { Seq::empty() };
    if unlock_sleep { a.push(spec_sleep_line(width, max_int_lit)) } else { a }
}

/// A program without loops: a sleep first where it is unlocked, the rest `pass`.
pub open spec fn spec_no_loops_code(lines: nat, width: nat, max_int_lit: u8, unlock_sleep: bool) -> Seq<char> {
    if unlock_sleep && lines > 0 {
        join_lines(seq![spec_sleep_line(width, max_int_lit)] + copies("pass;"@, (lines - 1) as nat))
    } else {
        join_lines(copies("pass;"@, lines))
    }
}

/// The names of the counters of nested loops.
pub open spec fn loop_vars() -> Seq<Seq<char>> {
    seq![seq!['i'], seq!['j'], seq!['k'], seq!['l'], seq!['m'], seq!['n'], seq!['o'], seq!['p'], seq!['q'], seq!['r']]
}

/// Loops nested one per counter, each counting down from `expr`, around a body of the
/// extra lines and `pass` up to `body_passes` lines.
pub open spec fn spec_build_nested_loop(vars: Seq<Seq<char>>, expr: Seq<char>, body_passes: nat, extras: Seq<Seq<char>>) -> Seq<char>
    decreases vars.len(),
{
    if vars.len() == 0 {
        join_lines(extras + copies("pass;"@, sat_sub(body_passes, extras.len())))
    } else {
        let v = vars[0];
        v + ":="@ + expr + ";\nloop:\nif "@ + v + "==0:\nbreak;\nend\n"@
            + spec_build_nested_loop(vars.subrange(1, vars.len() as int), expr, body_passes, extras)
            + seq!['\n'] + v + "="@ + v + "-1;\nend"@
    }
}

/// As many nested loops as the lines allow, up to `max_depth`.
pub open spec fn spec_nested_loops_code(width: nat, lines: nat, max_int_lit: u8, max_depth: nat, extras: Seq<Seq<char>>) -> Seq<char> {
    if lines < 8 || width < 9 {
        join_lines(copies("pass;"@, lines))
    } else {
        let min_body: nat = if extras.len() >= 1 { extras.len() } else { 1 };
        let d0 = sat_sub(lines, min_body) / 7;
        let depth = if d0 <= max_depth { d0 } else { max_depth };
        let body_passes = (lines - 7 * depth) as nat;
        let depth2 = if depth <= 10 { depth } else { 10 };
        let expr = spec_counter_expr((width - 4) as nat, max_int_lit);
        spec_build_nested_loop(loop_vars().subrange(0, depth2 as int), expr, body_passes, extras)
    }
}

/// Nested loops that call a pure helper which sleeps.
pub open spec fn spec_pure_helper_nested_code(width: nat, lines: nat, max_int_lit: u8, unlock_sleep: bool, print_on: bool) -> Seq<char> {
    if !unlock_sleep || lines < 11 {
        spec_nested_loops_code(width, lines, max_int_lit, usize::MAX as nat, spec_loop_body_extras(width, max_int_lit, unlock_sleep, print_on))
    } else {
        let fn_def = "def pure g(x):\n"@ + spec_sleep_line(width, max_int_lit) + "\nend"@;
        let a: Seq<Seq<char>> = if print_on { seq![spec_print_append_line(width)] } else { Seq::empty() };
        let loop_code = spec_nested_loops_code(width, (lines - 3) as nat, max_int_lit, usize::MAX as nat, a.push("g(0);"@));
        fn_def + seq!['\n'] + loop_code
    }
}

/// A pure function that calls itself as often as the lines allow, a loop that builds
/// the printed text, and the call.
pub open spec fn spec_pure_multi_recursion_code(width: nat, lines: nat, max_int_lit: u8, unlock_sleep: bool, print_on: bool) -> Seq<char> {
    let fallback = spec_nested_loops_code(width, lines, max_int_lit, usize::MAX as nat, spec_loop_body_extras(width, max_int_lit, unlock_sleep, print_on));
    if lines < 8 || width < 9 {
        fallback
    } else {
        let sleep_lines: nat = if unlock_sleep { 1 } else { 0 };
        let string_loop_lines: nat = if print_on { 8 } else { 0 };
        let fixed = 6 + sleep_lines + string_loop_lines;
        if lines < fixed + 2 {
            fallback
        } else {
            let k = (lines - fixed) as nat;
            let expr = spec_counter_expr((width - 4) as nat, max_int_lit);
            let calls = join_lines(copies("f(n-1);"@, k));
            let sleep_part = if unlock_sleep { seq!['\n'] + spec_sleep_line(width, max_int_lit) } else { Seq::empty() };
            let fn_def = "def pure f(n):\nif n==0:\nreturn 0;\nend"@ + sleep_part + seq!['\n'] + calls + "\nend"@;
            let string_loop = if print_on {
                "\ni:="@ + expr + ";\nloop:\nif i==0:\nbreak;\nend\n"@ + spec_print_append_line(width) + "\ni=i-1;\nend"@
            } else {
                Seq::empty()
            };
            fn_def + string_loop + "\nf("@ + expr + ");"@
        }
    }
}

/// The generated program for the given limits and unlocks.
pub open spec fn spec_predefined_code(
    width: nat,
    lines: nat,
    strings_allowed: bool,
    max_int_lit: u8,
    unlock_sleep: bool,
    unlock_print: bool,
    unlock_brk: bool,
    level: CodeStatementLevels,
) -> Seq<char> {
    let print_on = unlock_print && strings_allowed;
    let l1: Seq<Seq<char>> = if unlock_brk { seq!["brk();"@] } else { Seq::empty() };
    let leading = if print_on { l1.push("s:=\"\";"@) } else { l1 };
    let trailing: Seq<Seq<char>> = if print_on { seq!["print(s);"@] } else { Seq::empty() };
    let main_lines = sat_sub(lines, leading.len() + trailing.len());
    let extras = spec_loop_body_extras(width, max_int_lit, unlock_sleep, print_on);
    let main_body = match level {
        CodeStatementLevels::NoneUnlocked => spec_no_loops_code(main_lines, width, max_int_lit, unlock_sleep),
        CodeStatementLevels::SimpleLoops => spec_nested_loops_code(width, main_lines, max_int_lit, 1, extras),
        CodeStatementLevels::PureFunctions => spec_pure_helper_nested_code(width, main_lines, max_int_lit, unlock_sleep, print_on),
        CodeStatementLevels::MultiRecursion => spec_pure_multi_recursion_code(width, main_lines, max_int_lit, unlock_sleep, print_on),
        _ => spec_nested_loops_code(width, main_lines, max_int_lit, usize::MAX as nat, extras),
    };
    let parts = if main_body.len() > 0 { leading.push(main_body) } else { leading };
    join_lines(parts + trailing)
}

// ----------------------------------------------------------------------------
// Text building
// ----------------------------------------------------------------------------

pub open spec fn strings_model(v: Seq<String>) -> Seq<Seq<char>> {
    Seq::new(v.len(), |i: int| v[i]@)
}

fn push_string(v: &mut Vec<String>, s: String)
    ensures
        strings_model(final(v)@) == strings_model(old(v)@).push(s@),
{
    let ghost m = s@;
    v.push(s);
    assert(strings_model(v@) =~= strings_model(old(v)@).push(m));
}

/// The texts joined by line breaks.
fn join_with_newlines(parts: &Vec<String>) -> (r: String)
    ensures
        r@ == join_lines(strings_model(parts@)),
{
    let ghost pm = strings_model(parts@);
    if parts.len() == 0 {
        return String::new();
    }
    let mut r = parts[0].clone();
    let mut i: usize = 1;
    assert(pm.subrange(0, 1).drop_last() =~= Seq::<Seq<char>>::empty());
    while i < parts.len()
        invariant
            1 <= i <= parts@.len(),
            pm == strings_model(parts@),
            r@ == join_lines(pm.subrange(0, i as int)),
        decreases parts@.len() - i,
    {
        proof {
            reveal_strlit("\n");
            assert(pm.subrange(0, i + 1).drop_last() =~= pm.subrange(0, i as int));
        }
        r.append("\n");
        r.append(parts[i].as_str());
        assert(r@ =~= join_lines(pm.subrange(0, i + 1)));
        i = i + 1;
    }
    assert(pm.subrange(0, parts@.len() as int) =~= pm);
    r
}

/// `n` copies of a text, each as its own element.
fn copies_vec(item: &str, n: usize) -> (r: Vec<String>)
    ensures
        strings_model(r@) == copies(item@, n as nat),
{
    let mut r: Vec<String> = Vec::new();
    let mut i: usize = 0;
    while i < n
        invariant
            0 <= i <= n,
            strings_model(r@) =~= copies(item@, i as nat),
        decreases n - i,
    {
        push_string(&mut r, String::from_str(item));
        i = i + 1;
    }
    r
}

/// `n` copies of a text joined by `*`.
fn join_stars_exec(item: &String, n: usize) -> (r: String)
    requires
        n >= 1,
    ensures
        r@ == join_stars(copies(item@, n as nat)),
{
    let mut r = item.clone();
    let mut i: usize = 1;
    assert(copies(item@, 1) =~= seq![item@]);
    while i < n
        invariant
            1 <= i <= n,
            r@ == join_stars(copies(item@, i as nat)),
        decreases n - i,
    {
        proof {
            reveal_strlit("*");
            assert(copies(item@, (i + 1) as nat).drop_last() =~= copies(item@, i as nat));
        }
        r.append("*");
        r.append(item.as_str());
        assert(r@ =~= join_stars(copies(item@, (i + 1) as nat)));
        i = i + 1;
    }
    r
}

/// A product of equal integer literals that fills `expr_len` characters.
fn counter_expr(expr_len: usize, max_int_lit: u8) -> (r: String)
    ensures
        r@ == spec_counter_expr(expr_len as nat, max_int_lit),
{
    let max_len_lit: u8 = if expr_len == 0 { 0 } else if expr_len == 1 { 9 } else if expr_len == 2 { 99 } else { 255 };
    let lit: u8 = if max_int_lit <= max_len_lit { max_int_lit } else { max_len_lit };
    let text = decimal_text(lit as u64);
    let lit_chars = text.as_str().unicode_len();
    let wide: u128 = (expr_len as u128 + 1) / (lit_chars as u128 + 1);
    assert(wide <= expr_len + 1) by (nonlinear_arith)
        requires
            wide == (expr_len as u128 + 1) / (lit_chars as u128 + 1),
            lit_chars >= 0;
    let n: usize = if wide > expr_len as u128 { expr_len } else { wide as usize };
    proof {
        if wide > expr_len as u128 {
            assert(lit_chars >= 1) by {
                reveal_with_fuel(decimal, 4);
            }
            assert(wide <= (expr_len + 1) / 2) by (nonlinear_arith)
                requires
                    wide == (expr_len as u128 + 1) / (lit_chars as u128 + 1),
                    lit_chars >= 1;
            assert(false);
        }
    }
    if n == 0 {
        proof { reveal_strlit("1"); }
        let r = String::from_str("1");
        assert(r@ =~= seq!['1']);
        r
    } else {
        join_stars_exec(&text, n)
    }
}

/// A call of `sleep` that fills a line of `width` characters.
fn sleep_line(width: usize, max_int_lit: u8) -> (r: String)
    ensures
        r@ == spec_sleep_line(width as nat, max_int_lit),
{
    let expr = counter_expr(width.saturating_sub(8), max_int_lit);
    String::from_str("sleep(").concat(expr.as_str()).concat(");")
}

/// An append to `s` that fills a line of `width` characters.
fn print_append_line(width: usize) -> (r: String)
    ensures
        r@ == spec_print_append_line(width as nat),
{
    let n = width.saturating_sub(7);
    let mut r = String::from_str("s=s+\"");
    let ghost prefix = r@;
    let mut i: usize = 0;
    proof { reveal_strlit("a"); }
    while i < n
        invariant
            0 <= i <= n,
            r@ == prefix + a_run(i as nat),
        decreases n - i,
    {
        proof { reveal_strlit("a"); }
        r.append("a");
        assert(r@ =~= prefix + a_run((i + 1) as nat));
        i = i + 1;
    }
    r.concat("\";")
}

/// The extra lines of the innermost loop body.
fn loop_body_extras(width: usize, max_int_lit: u8, unlock_sleep: bool, print_on: bool) -> (r: Vec<String>)
    ensures
        strings_model(r@) == spec_loop_body_extras(width as nat, max_int_lit, unlock_sleep, print_on),
{
    let mut extras: Vec<String> = Vec::new();
    if print_on {
        push_string(&mut extras, print_append_line(width));
    }
    if unlock_sleep {
        push_string(&mut extras, sleep_line(width, max_int_lit));
    }
    assert(strings_model(extras@) =~= spec_loop_body_extras(width as nat, max_int_lit, unlock_sleep, print_on));
    extras
}

/// A program without loops.
fn no_loops_code(lines: usize, width: usize, max_int_lit: u8, unlock_sleep: bool) -> (r: String)
    ensures
        r@ == spec_no_loops_code(lines as nat, width as nat, max_int_lit, unlock_sleep),
{
    if unlock_sleep && lines > 0 {
        let mut parts: Vec<String> = Vec::new();
        push_string(&mut parts, sleep_line(width, max_int_lit));
        let mut i: usize = 1;
        while i < lines
            invariant
                1 <= i <= lines,
                strings_model(parts@) =~= seq![spec_sleep_line(width as nat, max_int_lit)] + copies("pass;"@, (i - 1) as nat),
            decreases lines - i,
        {
            push_string(&mut parts, String::from_str("pass;"));
            i = i + 1;
        }
        join_with_newlines(&parts)
    } else {
        join_with_newlines(&copies_vec("pass;", lines))
    }
}

fn loop_var(i: usize) -> (r: String)
    requires
        i < 10,
    ensures
        r@ == loop_vars()[i as int],
{
    proof {
        reveal_strlit("i"); reveal_strlit("j"); reveal_strlit("k"); reveal_strlit("l"); reveal_strlit("m");
        reveal_strlit("n"); reveal_strlit("o"); reveal_strlit("p"); reveal_strlit("q"); reveal_strlit("r");
    }
    let t = if i == 0 { "i" } else if i == 1 { "j" } else if i == 2 { "k" } else if i == 3 { "l" }
        else if i == 4 { "m" } else if i == 5 { "n" } else if i == 6 { "o" } else if i == 7 { "p" }
        else if i == 8 { "q" } else { "r" };
    let r = String::from_str(t);
    assert(r@ =~= loop_vars()[i as int]);
    r
}

/// Loops nested one per counter from position `first` of the counter names on.
fn build_nested_loop(first: usize, depth: usize, expr: &String, body_passes: usize, extras: &Vec<String>) -> (r: String)
    requires
        first <= depth <= 10,
    ensures
        r@ == spec_build_nested_loop(loop_vars().subrange(first as int, depth as int), expr@, body_passes as nat, strings_model(extras@)),
    decreases depth - first,
{
    let ghost vars = loop_vars().subrange(first as int, depth as int);
    if first == depth {
        let mut lines: Vec<String> = Vec::new();
        let mut i: usize = 0;
        while i < extras.len()
            invariant
                0 <= i <= extras@.len(),
                strings_model(lines@) =~= strings_model(extras@).subrange(0, i as int),
            decreases extras@.len() - i,
        {
            push_string(&mut lines, extras[i].clone());
            i = i + 1;
        }
        let pass_count = body_passes.saturating_sub(extras.len());
        let mut j: usize = 0;
        while j < pass_count
            invariant
                0 <= j <= pass_count,
                strings_model(lines@) =~= strings_model(extras@) + copies("pass;"@, j as nat),
            decreases pass_count - j,
        {
            push_string(&mut lines, String::from_str("pass;"));
            j = j + 1;
        }
        assert(vars.len() == 0);
        return join_with_newlines(&lines);
    }
    let v = loop_var(first);
    let inner = build_nested_loop(first + 1, depth, expr, body_passes, extras);
    assert(vars.subrange(1, vars.len() as int) =~= loop_vars().subrange(first + 1, depth as int));
    proof { reveal_strlit("\n"); }
    let r = v.clone().concat(":=").concat(expr.as_str()).concat(";\nloop:\nif ").concat(v.as_str()).concat(
        "==0:\nbreak;\nend\n",
    ).concat(inner.as_str()).concat("\n").concat(v.as_str()).concat("=").concat(v.as_str()).concat("-1;\nend");
    assert(r@ =~= spec_build_nested_loop(vars, expr@, body_passes as nat, strings_model(extras@)));
    r
}

/// As many nested loops as the lines allow, up to `max_depth`.
fn nested_loops_code(width: usize, lines: usize, max_int_lit: u8, max_depth: usize, extras: &Vec<String>) -> (r: String)
    ensures
        r@ == spec_nested_loops_code(width as nat, lines as nat, max_int_lit, max_depth as nat, strings_model(extras@)),
{
    if lines < 8 || width < 9 {
        return join_with_newlines(&copies_vec("pass;", lines));
    }
    let min_body = if extras.len() >= 1 { extras.len() } else { 1 };
    let d0 = lines.saturating_sub(min_body) / 7;
    let depth = if d0 <= max_depth { d0 } else { max_depth };
    let body_passes = lines - 7 * depth;
    let depth2 = if depth <= 10 { depth } else { 10 };
    let expr = counter_expr(width - 4, max_int_lit);
    assert(loop_vars().subrange(0, depth2 as int).subrange(0, depth2 as int) =~= loop_vars().subrange(0, depth2 as int));
    build_nested_loop(0, depth2, &expr, body_passes, extras)
}

/// Nested loops that call a pure helper which sleeps.
fn pure_helper_nested_code(width: usize, lines: usize, max_int_lit: u8, unlock_sleep: bool, print_on: bool) -> (r: String)
    ensures
        r@ == spec_pure_helper_nested_code(width as nat, lines as nat, max_int_lit, unlock_sleep, print_on),
{
    if !unlock_sleep || lines < 11 {
        let extras = loop_body_extras(width, max_int_lit, unlock_sleep, print_on);
        return nested_loops_code(width, lines, max_int_lit, usize::MAX, &extras);
    }
    let sl = sleep_line(width, max_int_lit);
    let fn_def = String::from_str("def pure g(x):\n").concat(sl.as_str()).concat("\nend");
    let mut loop_extras: Vec<String> = Vec::new();
    if print_on {
        push_string(&mut loop_extras, print_append_line(width));
    }
    push_string(&mut loop_extras, String::from_str("g(0);"));
    let ghost a: Seq<Seq<char>> = if print_on { seq![spec_print_append_line(width as nat)] } else { Seq::empty() };
    assert(strings_model(loop_extras@) =~= a.push("g(0);"@));
    let loop_code = nested_loops_code(width, lines - 3, max_int_lit, usize::MAX, &loop_extras);
    proof { reveal_strlit("\n"); }
    let r = fn_def.concat("\n").concat(loop_code.as_str());
    assert(r@ =~= spec_pure_helper_nested_code(width as nat, lines as nat, max_int_lit, unlock_sleep, print_on));
    r
}

/// A pure function that calls itself as often as the lines allow, a loop that builds
/// the printed text, and the call.
fn pure_multi_recursion_code(width: usize, lines: usize, max_int_lit: u8, unlock_sleep: bool, print_on: bool) -> (r: String)
    ensures
        r@ == spec_pure_multi_recursion_code(width as nat, lines as nat, max_int_lit, unlock_sleep, print_on),
{
    if lines < 8 || width < 9 {
        let extras = loop_body_extras(width, max_int_lit, unlock_sleep, print_on);
        return nested_loops_code(width, lines, max_int_lit, usize::MAX, &extras);
    }
    let sleep_lines: usize = if unlock_sleep { 1 } else { 0 };
    let string_loop_lines: usize = if print_on { 8 } else { 0 };
    let fixed = 6 + sleep_lines + string_loop_lines;
    if lines < fixed + 2 {
        let extras = loop_body_extras(width, max_int_lit, unlock_sleep, print_on);
        return nested_loops_code(width, lines, max_int_lit, usize::MAX, &extras);
    }
    let k = lines - fixed;
    let expr = counter_expr(width - 4, max_int_lit);
    let calls = join_with_newlines(&copies_vec("f(n-1);", k));
    proof { reveal_strlit("\n"); }
    let sleep_part = if unlock_sleep {
        let sl = sleep_line(width, max_int_lit);
        String::from_str("\n").concat(sl.as_str())
    } else {
        String::new()
    };
    assert(sleep_part@ =~= if unlock_sleep { seq!['\n'] + spec_sleep_line(width as nat, max_int_lit) } else { Seq::empty() });
    let fn_def = String::from_str("def pure f(n):\nif n==0:\nreturn 0;\nend").concat(sleep_part.as_str()).concat("\n").concat(
        calls.as_str(),
    ).concat("\nend");
    let string_loop = if print_on {
        let append = print_append_line(width);
        String::from_str("\ni:=").concat(expr.as_str()).concat(";\nloop:\nif i==0:\nbreak;\nend\n").concat(append.as_str()).concat(
            "\ni=i-1;\nend",
        )
    } else {
        String::new()
    };
    let r = fn_def.concat(string_loop.as_str()).concat("\nf(").concat(expr.as_str()).concat(");");
    assert(r@ =~= spec_pure_multi_recursion_code(width as nat, lines as nat, max_int_lit, unlock_sleep, print_on));
    r
}

/// A program that makes the most of the unlocked features within the line limits.
pub fn get_predefined_code(current_upgrades: &Upgrades) -> (r: String)
    requires
        current_upgrades.wf(),
    ensures
        r@ == spec_predefined_code(
            line_width_table()[total_of(current_upgrades@[6]) as int] as nat,
            line_count_table()[total_of(current_upgrades@[7]) as int] as nat,
            literals_table()[total_of(current_upgrades@[9]) as int].0,
            literals_table()[total_of(current_upgrades@[9]) as int].1,
            total_of(current_upgrades@[17]) == 1,
            total_of(current_upgrades@[23]) == 1,
            total_of(current_upgrades@[28]) == 1,
            statements_table()[total_of(current_upgrades@[12]) as int],
        ),
{
    let width = current_upgrades.code_line_width() as usize;
    let lines = current_upgrades.code_line_count() as usize;
    let (strings_allowed, max_int_lit) = current_upgrades.literals();
    let unlock_sleep = current_upgrades.is_unlocked(UpgradeId::UnlockSleep);
    let unlock_print = current_upgrades.is_unlocked(UpgradeId::UnlockPrint);
    let unlock_brk = current_upgrades.is_unlocked(UpgradeId::UnlockBrk);
    let print_on = unlock_print && strings_allowed;

    let mut leading: Vec<String> = Vec::new();
    if unlock_brk {
        push_string(&mut leading, String::from_str("brk();"));
    }
    if print_on {
        push_string(&mut leading, String::from_str("s:=\"\";"));
    }
    let mut trailing: Vec<String> = Vec::new();
    if print_on {
        push_string(&mut trailing, String::from_str("print(s);"));
    }
    let ghost l1: Seq<Seq<char>> = if unlock_brk { seq!["brk();"@] } else { Seq::empty() };
    let ghost lead = if print_on { l1.push("s:=\"\";"@) } else { l1 };
    let ghost trail: Seq<Seq<char>> = if print_on { seq!["print(s);"@] } else { Seq::empty() };
    assert(strings_model(leading@) =~= lead);
    assert(strings_model(trailing@) =~= trail);
    assert(leading@.len() <= 2 && trailing@.len() <= 1);
    let main_lines = lines.saturating_sub(leading.len() + trailing.len());
    let main_body = match current_upgrades.statements() {
        CodeStatementLevels::NoneUnlocked => no_loops_code(main_lines, width, max_int_lit, unlock_sleep),
        CodeStatementLevels::SimpleLoops => {
            let extras = loop_body_extras(width, max_int_lit, unlock_sleep, print_on);
            nested_loops_code(width, main_lines, max_int_lit, 1, &extras)
        },
        CodeStatementLevels::PureFunctions => pure_helper_nested_code(width, main_lines, max_int_lit, unlock_sleep, print_on),
        CodeStatementLevels::MultiRecursion => pure_multi_recursion_code(width, main_lines, max_int_lit, unlock_sleep, print_on),
        _ => {
            let extras = loop_body_extras(width, max_int_lit, unlock_sleep, print_on);
            nested_loops_code(width, main_lines, max_int_lit, usize::MAX, &extras)
        },
    };
    let ghost mb = main_body@;
    let mut parts = leading;
    if main_body.as_str().unicode_len() > 0 {
        push_string(&mut parts, main_body);
    }
    assert(strings_model(parts@) =~= (if mb.len() > 0 { lead.push(mb) } else { lead }));
    let mut i: usize = 0;
    let ghost before = strings_model(parts@);
    while i < trailing.len()
        invariant
            0 <= i <= trailing@.len(),
            strings_model(parts@) =~= before + strings_model(trailing@).subrange(0, i as int),
        decreases trailing@.len() - i,
    {
        push_string(&mut parts, trailing[i].clone());
        i = i + 1;
    }
    assert(strings_model(trailing@).subrange(0, trailing@.len() as int) =~= strings_model(trailing@));
    assert(strings_model(parts@) =~= (if mb.len() > 0 { lead.push(mb) } else { lead }) + trail);
    join_with_newlines(&parts)
}


// ----------------------------------------------------------------------------
// Loops of the generated program
// ----------------------------------------------------------------------------

/// The number of times the character `c` occurs in `s`.
pub open spec fn count_char(s: Seq<char>, c: char) -> nat
    decreases s.len(),
{
    if s.len() == 0 {
        0
    } else {
        count_char(s.drop_last(), c) + if s.last() == c { 1nat } else { 0nat }
    }
}

/// The loop header `loop:`.
pub open spec fn loop_keyword() -> Seq<char> {
    seq!['l', 'o', 'o', 'p', ':']
}

/// The number of places in `s` where a loop header `loop:` begins.
pub open spec fn loop_headers(s: Seq<char>) -> nat
    decreases s.len(),
{
    if s.len() < 5 {
        0
    } else {
        (if s.subrange(0, 5) == loop_keyword() { 1nat } else { 0nat }) + loop_headers(s.drop_first())
    }
}

proof fn lemma_count_concat(a: Seq<char>, b: Seq<char>, c: char)
    ensures
        count_char(a + b, c) == count_char(a, c) + count_char(b, c),
    decreases b.len(),
{
    if b.len() == 0 {
        assert(a + b =~= a);
    } else {
        assert((a + b).drop_last() =~= a + b.drop_last());
        lemma_count_concat(a, b.drop_last(), c);
    }
}

proof fn lemma_count_absent(s: Seq<char>, c: char)
    requires
        forall|i: int| 0 <= i < s.len() ==> s[i] != c,
    ensures
        count_char(s, c) == 0,
    decreases s.len(),
{
    if s.len() > 0 {
        lemma_count_absent(s.drop_last(), c);
    }
}

proof fn lemma_count_first(s: Seq<char>, c: char)
    requires
        s.len() > 0,
    ensures
        count_char(s, c) == count_char(s.drop_first(), c) + if s[0] == c { 1nat } else { 0nat },
{
    assert(s =~= seq![s[0]] + s.drop_first());
    lemma_count_concat(seq![s[0]], s.drop_first(), c);
    assert(seq![s[0]].drop_last() =~= Seq::<char>::empty());
    assert(count_char(seq![s[0]], c) == count_char(Seq::<char>::empty(), c) + if s[0] == c { 1nat } else { 0nat });
}

proof fn lemma_headers_skip(s: Seq<char>)
    requires
        s.len() > 0,
        s[0] != 'l',
    ensures
        loop_headers(s) == loop_headers(s.drop_first()),
{
    if s.len() >= 5 {
        assert(s.subrange(0, 5)[0] != loop_keyword()[0]);
    }
}

/// Each loop header holds two `o`, and no two headers share a character.
proof fn lemma_headers_by_o(s: Seq<char>)
    ensures
        2 * loop_headers(s) <= count_char(s, 'o'),
    decreases s.len(),
{
    if s.len() >= 5 {
        let s1 = s.drop_first();
        lemma_count_first(s, 'o');
        if s.subrange(0, 5) == loop_keyword() {
            assert(s[0] == 'l' && s[1] == 'o' && s[2] == 'o') by {
                assert(s.subrange(0, 5)[0] == 'l');
                assert(s.subrange(0, 5)[1] == 'o');
                assert(s.subrange(0, 5)[2] == 'o');
            }
            let s2 = s1.drop_first();
            let s3 = s2.drop_first();
            lemma_headers_skip(s1);
            lemma_headers_skip(s2);
            lemma_count_first(s1, 'o');
            lemma_count_first(s2, 'o');
            lemma_headers_by_o(s3);
        } else {
            lemma_headers_by_o(s1);
        }
    }
}

/// A text of literal parts: only part `k` may hold an `o`.
proof fn lemma_join_lines_count(parts: Seq<Seq<char>>, k: int)
    requires
        forall|i: int| 0 <= i < parts.len() && i != k ==> count_char(#[trigger] parts[i], 'o') == 0,
    ensures
        count_char(join_lines(parts), 'o') == (if 0 <= k < parts.len() { count_char(parts[k], 'o') } else { 0 }),
    decreases parts.len(),
{
    if parts.len() == 1 {
    } else if parts.len() > 1 {
        let init = parts.drop_last();
        lemma_join_lines_count(init, k);
        lemma_count_concat(join_lines(init), seq!['\n'], 'o');
        lemma_count_concat(join_lines(init) + seq!['\n'], parts.last(), 'o');
        reveal_with_fuel(count_char, 2);
    }
}

proof fn lemma_join_stars_count(parts: Seq<Seq<char>>)
    requires
        forall|i: int| 0 <= i < parts.len() ==> count_char(#[trigger] parts[i], 'o') == 0,
    ensures
        count_char(join_stars(parts), 'o') == 0,
    decreases parts.len(),
{
    if parts.len() > 1 {
        let init = parts.drop_last();
        lemma_join_stars_count(init);
        lemma_count_concat(join_stars(init), seq!['*'], 'o');
        lemma_count_concat(join_stars(init) + seq!['*'], parts.last(), 'o');
        reveal_with_fuel(count_char, 2);
    }
}

proof fn lemma_decimal_count(n: nat)
    ensures
        count_char(decimal(n), 'o') == 0,
    decreases n,
{
    let d = decimal(n);
    if n >= 10 {
        lemma_decimal_count(n / 10);
        assert(d.drop_last() =~= decimal(n / 10));
        assert(d.last() == digit_char(n % 10));
        assert(digit_char(n % 10) != 'o');
    } else {
        assert(d.last() == digit_char(n));
        assert(digit_char(n) != 'o');
        assert(d.drop_last() =~= Seq::<char>::empty());
        assert(count_char(d.drop_last(), 'o') == 0);
    }
    assert(d.len() > 0);
    assert(count_char(d, 'o') == count_char(d.drop_last(), 'o') + if d.last() == 'o' { 1nat } else { 0nat });
}

proof fn lemma_counter_expr_count(expr_len: nat, max_int_lit: u8)
    ensures
        count_char(spec_counter_expr(expr_len, max_int_lit), 'o') == 0,
{
    let max_len_lit: nat = if expr_len == 0 { 0 } else if expr_len == 1 { 9 } else if expr_len == 2 { 99 } else { 255 };
    let lit: nat = if max_int_lit <= max_len_lit { max_int_lit as nat } else { max_len_lit };
    lemma_decimal_count(lit);
    let n = (expr_len + 1) / (decimal(lit).len() + 1);
    if n == 0 {
        reveal_with_fuel(count_char, 2);
    } else {
        lemma_join_stars_count(copies(decimal(lit), n));
    }
}

proof fn lemma_extras_count(width: nat, max_int_lit: u8, unlock_sleep: bool, print_on: bool)
    ensures
        forall|i: int| 0 <= i < spec_loop_body_extras(width, max_int_lit, unlock_sleep, print_on).len()
            ==> count_char(#[trigger] spec_loop_body_extras(width, max_int_lit, unlock_sleep, print_on)[i], 'o') == 0,
{
    reveal_strlit("s=s+\"");
    reveal_strlit("\";");
    reveal_strlit("sleep(");
    reveal_strlit(");");
    lemma_count_absent("s=s+\""@, 'o');
    lemma_count_absent("\";"@, 'o');
    lemma_count_absent("sleep("@, 'o');
    lemma_count_absent(");"@, 'o');
    let run = a_run(sat_sub(width, 7));
    lemma_count_absent(run, 'o');
    lemma_count_concat("s=s+\""@, run, 'o');
    lemma_count_concat("s=s+\""@ + run, "\";"@, 'o');
    let ce = spec_counter_expr(sat_sub(width, 8), max_int_lit);
    lemma_counter_expr_count(sat_sub(width, 8), max_int_lit);
    lemma_count_concat("sleep("@, ce, 'o');
    lemma_count_concat("sleep("@ + ce, ");"@, 'o');
}

proof fn lemma_passes_count(n: nat)
    ensures
        count_char(join_lines(copies("pass;"@, n)), 'o') == 0,
{
    reveal_strlit("pass;");
    lemma_count_absent("pass;"@, 'o');
    lemma_join_lines_count(copies("pass;"@, n), -1);
}

/// Loops around a body of the extra lines and `pass`: two `o` for each loop.
proof fn lemma_nested_loop_count(vars: Seq<Seq<char>>, expr: Seq<char>, body_passes: nat, extras: Seq<Seq<char>>)
    requires
        vars.len() <= 1,
        vars.len() == 1 ==> count_char(vars[0], 'o') == 0,
        count_char(expr, 'o') == 0,
        forall|i: int| 0 <= i < extras.len() ==> count_char(#[trigger] extras[i], 'o') == 0,
    ensures
        count_char(spec_build_nested_loop(vars, expr, body_passes, extras), 'o') == 2 * vars.len(),
{
    reveal_strlit("pass;");
    lemma_count_absent("pass;"@, 'o');
    let body_parts = extras + copies("pass;"@, sat_sub(body_passes, extras.len()));
    assert forall|i: int| 0 <= i < body_parts.len() implies count_char(#[trigger] body_parts[i], 'o') == 0 by {
        if i >= extras.len() {
            assert(body_parts[i] == "pass;"@);
        }
    }
    lemma_join_lines_count(body_parts, -1);
    if vars.len() == 1 {
        let v = vars[0];
        let rest = vars.subrange(1, 1);
        assert(rest =~= Seq::<Seq<char>>::empty());
        let inner = spec_build_nested_loop(rest, expr, body_passes, extras);
        assert(inner == join_lines(body_parts));
        reveal_strlit(":=");
        reveal_strlit(";\nloop:\nif ");
        reveal_strlit("==0:\nbreak;\nend\n");
        reveal_strlit("=");
        reveal_strlit("-1;\nend");
        lemma_count_absent(":="@, 'o');
        lemma_count_absent("==0:\nbreak;\nend\n"@, 'o');
        lemma_count_absent("="@, 'o');
        lemma_count_absent("-1;\nend"@, 'o');
        lemma_count_absent(seq!['\n'], 'o');
        let head = ";\nloop:\nif "@;
        assert(head =~= seq![';', '\n'] + seq!['l', 'o', 'o', 'p'] + seq![':', '\n', 'i', 'f', ' ']);
        lemma_count_absent(seq![';', '\n'], 'o');
        lemma_count_absent(seq![':', '\n', 'i', 'f', ' '], 'o');
        lemma_count_concat(seq![';', '\n'], seq!['l', 'o', 'o', 'p'], 'o');
        lemma_count_concat(seq![';', '\n'] + seq!['l', 'o', 'o', 'p'], seq![':', '\n', 'i', 'f', ' '], 'o');
        assert(count_char(seq!['l', 'o', 'o', 'p'], 'o') == 2) by {
            reveal_with_fuel(count_char, 5);
        }
        let p1 = v + ":="@;
        let p2 = p1 + expr;
        let p3 = p2 + head;
        let p4 = p3 + v;
        let p5 = p4 + "==0:\nbreak;\nend\n"@;
        let p6 = p5 + inner;
        let p7 = p6 + seq!['\n'];
        let p8 = p7 + v;
        let p9 = p8 + "="@;
        let p10 = p9 + v;
        let p11 = p10 + "-1;\nend"@;
        lemma_count_concat(v, ":="@, 'o');
        lemma_count_concat(p1, expr, 'o');
        lemma_count_concat(p2, head, 'o');
        lemma_count_concat(p3, v, 'o');
        lemma_count_concat(p4, "==0:\nbreak;\nend\n"@, 'o');
        lemma_count_concat(p5, inner, 'o');
        lemma_count_concat(p6, seq!['\n'], 'o');
        lemma_count_concat(p7, v, 'o');
        lemma_count_concat(p8, "="@, 'o');
        lemma_count_concat(p9, v, 'o');
        lemma_count_concat(p10, "-1;\nend"@, 'o');
        assert(spec_build_nested_loop(vars, expr, body_passes, extras) == p11);
    }
}

/// The law of the generated program's loops: where only simple loops are unlocked,
/// the generated program holds at most one loop header, so no loop stands inside
/// another; where no loop is unlocked, it holds none.
pub proof fn lemma_predefined_code_loops(
    width: nat,
    lines: nat,
    strings_allowed: bool,
    max_int_lit: u8,
    unlock_sleep: bool,
    unlock_print: bool,
    unlock_brk: bool,
)
    ensures
        loop_headers(spec_predefined_code(width, lines, strings_allowed, max_int_lit, unlock_sleep, unlock_print,
            unlock_brk, CodeStatementLevels::SimpleLoops)) <= 1,
        loop_headers(spec_predefined_code(width, lines, strings_allowed, max_int_lit, unlock_sleep, unlock_print,
            unlock_brk, CodeStatementLevels::NoneUnlocked)) == 0,
{
    let print_on = unlock_print && strings_allowed;
    reveal_strlit("brk();");
    reveal_strlit("s:=\"\";");
    reveal_strlit("print(s);");
    lemma_count_absent("brk();"@, 'o');
    lemma_count_absent("s:=\"\";"@, 'o');
    lemma_count_absent("print(s);"@, 'o');
    let l1: Seq<Seq<char>> = if unlock_brk { seq!["brk();"@] } else { Seq::empty() };
    let leading = if print_on { l1.push("s:=\"\";"@) } else { l1 };
    let trailing: Seq<Seq<char>> = if print_on { seq!["print(s);"@] } else { Seq::empty() };
    let main_lines = sat_sub(lines, leading.len() + trailing.len());
    let extras = spec_loop_body_extras(width, max_int_lit, unlock_sleep, print_on);
    lemma_extras_count(width, max_int_lit, unlock_sleep, print_on);
    // the loops of the main part
    let simple = spec_nested_loops_code(width, main_lines, max_int_lit, 1, extras);
    if main_lines < 8 || width < 9 {
        lemma_passes_count(main_lines);
    } else {
        let min_body: nat = if extras.len() >= 1 { extras.len() } else { 1 };
        let d0 = sat_sub(main_lines, min_body) / 7;
        let depth: nat = if d0 <= 1 { d0 } else { 1 };
        let expr = spec_counter_expr((width - 4) as nat, max_int_lit);
        lemma_counter_expr_count((width - 4) as nat, max_int_lit);
        let vars = loop_vars().subrange(0, depth as int);
        if depth == 1 {
            assert(vars[0] == seq!['i']);
            lemma_count_absent(seq!['i'], 'o');
        }
        lemma_nested_loop_count(vars, expr, (main_lines - 7 * depth) as nat, extras);
    }
    assert(count_char(simple, 'o') <= 2);
    // no loop without loops
    let none = spec_no_loops_code(main_lines, width, max_int_lit, unlock_sleep);
    reveal_strlit("pass;");
    lemma_count_absent("pass;"@, 'o');
    if unlock_sleep && main_lines > 0 {
        let sl = spec_sleep_line(width, max_int_lit);
        lemma_extras_count(width, max_int_lit, true, false);
        assert(spec_loop_body_extras(width, max_int_lit, true, false)[0] == sl);
        let parts = seq![sl] + copies("pass;"@, (main_lines - 1) as nat);
        assert forall|i: int| 0 <= i < parts.len() implies count_char(#[trigger] parts[i], 'o') == 0 by {
            if i > 0 {
                assert(parts[i] == "pass;"@);
            }
        }
        lemma_join_lines_count(parts, -1);
    } else {
        lemma_passes_count(main_lines);
    }
    assert(count_char(none, 'o') == 0);
    // the whole program: the leading lines, the main part, the trailing lines
    let k = leading.len() as int;
    let all_simple = (if simple.len() > 0 { leading.push(simple) } else { leading }) + trailing;
    assert forall|i: int| 0 <= i < all_simple.len() && i != k implies count_char(#[trigger] all_simple[i], 'o') == 0 by {
        if i < k {
            assert(all_simple[i] == leading[i]);
        }
    }
    lemma_join_lines_count(all_simple, k);
    lemma_headers_by_o(join_lines(all_simple));
    let all_none = (if none.len() > 0 { leading.push(none) } else { leading }) + trailing;
    assert forall|i: int| 0 <= i < all_none.len() && i != k implies count_char(#[trigger] all_none[i], 'o') == 0 by {
        if i < k {
            assert(all_none[i] == leading[i]);
        }
    }
    lemma_join_lines_count(all_none, k);
    lemma_headers_by_o(join_lines(all_none));
}

} // verus!
