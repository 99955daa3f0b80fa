//! A recursive-descent parser that follows the grammar in `grammar` step by step.
use vstd::prelude::*;
use crate::ast::{
    BinaryOp, ExprModel, NotPythonExpr, NotPythonExprVariable, NotPythonProgram, NotPythonStmt,
    StmtModel, UnaryOp, exprs_model, names_model, pairs_model, push_expr, push_pair, push_stmt,
    push_var, stmts_model,
};
use crate::grammar::{
    all_digits, digit_value, digits_value, expr_level, fold_elifs, is_kind, level_binop,
    line_end, p_atom, p_base, p_block, p_chain, p_def, p_elifs, p_if, p_items, p_items_tail,
    p_level, p_named, p_pair, p_pairs, p_pairs_tail, p_params, p_params_tail, p_program, p_stmt,
    semi_end, text,
};
use crate::hashed_string::HashedString;
use crate::lexer::{NotPythonLangToken, Token, chars_of, is_digit, lex, lex_from, scan, tokenize, tokens_in_bounds};

verus! {

/// Why a program does not parse: the index of the first token that no statement could
/// consume (the number of tokens, where the statements end before the input does).
#[derive(Debug, PartialEq, Eq, Structural)]
pub struct ParseError {
    pub token_index: usize,
}

pub open spec fn wf(src: &str, c: &Vec<char>, t: &Vec<Token>) -> bool {
    &&& c@ == src@
    &&& tokens_in_bounds(t@, c@.len() as int)
    &&& t@.len() + 8 <= usize::MAX
}

pub open spec fn expr_result(r: Option<(NotPythonExpr, usize)>) -> Option<(ExprModel, int)> {
    match r {
        Some((e, p)) => Some((e.model(), p as int)),
        None => None,
    }
}

pub open spec fn stmt_result(r: Option<(NotPythonStmt, usize)>) -> Option<(StmtModel, int)> {
    match r {
        Some((s, p)) => Some((s.model(), p as int)),
        None => None,
    }
}

pub open spec fn elifs_model(s: Seq<(NotPythonExpr, NotPythonStmt)>) -> Seq<(ExprModel, StmtModel)> {
    Seq::new(s.len(), |i: int| (s[i].0.model(), s[i].1.model()))
}

pub open spec fn opt_stmt_model(o: Option<NotPythonStmt>) -> Option<StmtModel> {
    match o {
        Some(s) => Some(s.model()),
        None => None,
    }
}

proof fn lemma_lex_len(chars: Seq<char>, pos: int)
    requires
        0 <= pos,
    ensures
        lex_from(chars, pos).len() <= if pos <= chars.len() { chars.len() - pos } else { 0 },
    decreases chars.len() - pos,
{
    if pos < chars.len() {
        let (tk, next) = scan(chars, pos);
        if next > pos && next <= chars.len() {
            lemma_lex_len(chars, next);
        }
    }
}

fn kind_is(t: &Vec<Token>, p: usize, k: NotPythonLangToken) -> (r: bool)
    ensures
        r == is_kind(t@, p as int, k),
{
    p < t.len() && t[p].kind == k
}

fn token_text(src: &str, c: &Vec<char>, t: &Vec<Token>, p: usize) -> (r: String)
    requires
        wf(src, c, t),
        p < t@.len(),
    ensures
        r@ == text(c@, t@[p as int]),
{
    let tk = t[p];
    assert(tk.start <= tk.end <= c@.len());
    let s = src.substring_char(tk.start, tk.end);
    s.to_owned()
}

proof fn lemma_digits_value_nonneg(s: Seq<char>)
    requires
        all_digits(s),
    ensures
        digits_value(s) >= 0,
    decreases s.len(),
{
    if s.len() > 0 {
        assert(all_digits(s.drop_last()));
        lemma_digits_value_nonneg(s.drop_last());
        assert(is_digit(s[s.len() - 1]));
    }
}

proof fn lemma_digits_value_prefix(s: Seq<char>, k: int)
    requires
        all_digits(s),
        0 <= k <= s.len(),
    ensures
        digits_value(s.take(k)) <= digits_value(s),
    decreases s.len() - k,
{
    if k == s.len() {
        assert(s.take(k) =~= s);
    } else {
        lemma_digits_value_prefix(s, k + 1);
        assert(s.take(k + 1).drop_last() =~= s.take(k));
        assert(all_digits(s.take(k)));
        lemma_digits_value_nonneg(s.take(k));
        assert(is_digit(s[k]));
    }
}

/// The value of the digits `c[start..end]`, unless they are not all digits or it
/// exceeds the largest `i64`.
fn parse_int(c: &Vec<char>, start: usize, end: usize) -> (r: Option<i64>)
    requires
        start <= end <= c@.len(),
    ensures
        ({
            let s = c@.subrange(start as int, end as int);
            match r {
                Some(v) => all_digits(s) && digits_value(s) <= i64::MAX && v == digits_value(s),
                None => !(all_digits(s) && digits_value(s) <= i64::MAX),
            }
        }),
{
    let ghost s = c@.subrange(start as int, end as int);
    let mut v: i64 = 0;
    let mut i = start;
    while i < end
        invariant
            start <= i <= end <= c@.len(),
            s == c@.subrange(start as int, end as int),
            all_digits(s.take(i - start)),
            v == digits_value(s.take(i - start)),
        decreases end - i,
    {
        let ch = c[i];
        if !('0' <= ch && ch <= '9') {
            assert(s[i - start] == ch);
            return None;
        }
        let d = (ch as u32 - '0' as u32) as i64;
        proof {
            lemma_digits_value_nonneg(s.take(i - start));
        }
        assert(d == digit_value(ch));
        assert(s.take(i - start + 1).drop_last() =~= s.take(i - start));
        assert(s.take(i - start + 1).last() == ch);
        if v > (i64::MAX - d) / 10 {
            proof {
                assert(all_digits(s.take(i - start + 1)));
                assert(digits_value(s.take(i - start + 1)) == v * 10 + d);
                assert(v * 10 + d > i64::MAX) by (nonlinear_arith)
                    requires
                        v > (i64::MAX - d) / 10,
                        0 <= d <= 9,
                ;
                if all_digits(s) {
                    lemma_digits_value_prefix(s, i - start + 1);
                }
            }
            return None;
        }
        assert(v * 10 + d <= i64::MAX) by (nonlinear_arith)
            requires
                v <= (i64::MAX - d) / 10,
                0 <= d <= 9,
                0 <= v,
        ;
        proof {
            lemma_digits_value_nonneg(s.take(i - start));
        }
        v = v * 10 + d;
        i = i + 1;
        assert(all_digits(s.take(i - start)));
    }
    assert(s.take(i - start) =~= s);
    Some(v)
}

fn level_binop_exec(lvl: usize, k: NotPythonLangToken) -> (r: Option<BinaryOp>)
    ensures
        r == level_binop(lvl as nat, k),
{
    if lvl == 1 {
        if k == NotPythonLangToken::Star {
            Some(BinaryOp::Mul)
        } else if k == NotPythonLangToken::Slash {
            Some(BinaryOp::Div)
        } else {
            None
        }
    } else if lvl == 2 {
        if k == NotPythonLangToken::Plus {
            Some(BinaryOp::Add)
        } else if k == NotPythonLangToken::Minus {
            Some(BinaryOp::Sub)
        } else {
            None
        }
    } else if lvl == 3 {
        if k == NotPythonLangToken::Percent {
            Some(BinaryOp::Mod)
        } else {
            None
        }
    } else if lvl == 4 {
        if k == NotPythonLangToken::EqEqual {
            Some(BinaryOp::Equal)
        } else if k == NotPythonLangToken::NotEqual {
            Some(BinaryOp::NotEqual)
        } else if k == NotPythonLangToken::Less {
            Some(BinaryOp::Less)
        } else if k == NotPythonLangToken::Greater {
            Some(BinaryOp::Greater)
        } else if k == NotPythonLangToken::LessEqual {
            Some(BinaryOp::LessEqual)
        } else if k == NotPythonLangToken::GreaterEqual {
            Some(BinaryOp::GreaterEqual)
        } else {
            None
        }
    } else if lvl == 5 {
        if k == NotPythonLangToken::KwIn {
            Some(BinaryOp::In)
        } else {
            None
        }
    } else if lvl == 7 {
        if k == NotPythonLangToken::KwAnd {
            Some(BinaryOp::And)
        } else {
            None
        }
    } else if lvl == 8 {
        if k == NotPythonLangToken::KwOr {
            Some(BinaryOp::Or)
        } else {
            None
        }
    } else {
        None
    }
}

fn mk_list(v: Vec<NotPythonExpr>) -> (e: NotPythonExpr)
    ensures
        e.model() == ExprModel::List(exprs_model(v@)),
{
    let ghost m = exprs_model(v@);
    let e = NotPythonExpr::List(v);
    assert(e.model()->List_0 =~= m);
    e
}

fn mk_dict(v: Vec<(NotPythonExpr, NotPythonExpr)>) -> (e: NotPythonExpr)
    ensures
        e.model() == ExprModel::Dict(pairs_model(v@)),
{
    let ghost m = pairs_model(v@);
    let e = NotPythonExpr::Dict(v);
    assert(e.model()->Dict_0 =~= m);
    e
}

fn mk_call_expr(name: String, args: Vec<NotPythonExpr>) -> (e: NotPythonExpr)
    ensures
        e.model() == ExprModel::Call(name@, exprs_model(args@)),
{
    let ghost m = exprs_model(args@);
    let e = NotPythonExpr::Call(name, args);
    assert(e.model()->Call_1 =~= m);
    e
}

fn mk_call_stmt(name: String, args: Vec<NotPythonExpr>) -> (s: NotPythonStmt)
    ensures
        s.model() == StmtModel::Call(name@, exprs_model(args@)),
{
    let ghost m = exprs_model(args@);
    let s = NotPythonStmt::Call(name, args);
    assert(s.model()->Call_1 =~= m);
    s
}

fn mk_block(v: Vec<NotPythonStmt>) -> (s: NotPythonStmt)
    ensures
        s.model() == StmtModel::Block(stmts_model(v@)),
{
    let ghost m = stmts_model(v@);
    let s = NotPythonStmt::Block(v);
    assert(s.model()->Block_0 =~= m);
    s
}

fn mk_function(
    name: String,
    params: Vec<NotPythonExprVariable>,
    body: NotPythonStmt,
    is_pure: bool,
) -> (s: NotPythonStmt)
    ensures
        s.model() == StmtModel::Function(name@, names_model(params@), Box::new(body.model()), is_pure),
{
    let ghost m = names_model(params@);
    let s = NotPythonStmt::Function { name, params, body: Box::new(body), is_pure };
    assert(s.model()->Function_1 =~= m);
    s
}

/// A single-token expression at `pos`.
fn parse_atom(src: &str, c: &Vec<char>, t: &Vec<Token>, pos: usize) -> (r: Option<(NotPythonExpr, usize)>)
    requires
        wf(src, c, t),
    ensures
        expr_result(r) == p_atom(c@, t@, pos as int),
        r matches Some((_, p)) ==> p == pos + 1 && p <= t@.len(),
{
    if pos >= t.len() {
        return None;
    }
    let tk = t[pos];
    assert(tk.start <= tk.end <= c@.len());
    let k = tk.kind;
    if k == NotPythonLangToken::Int {
        match parse_int(c, tk.start, tk.end) {
            Some(v) => Some((NotPythonExpr::Int(v), pos + 1)),
            None => None,
        }
    } else if k == NotPythonLangToken::Float {
        Some((NotPythonExpr::Float(token_text(src, c, t, pos)), pos + 1))
    } else if k == NotPythonLangToken::StringLiteral {
        let s = src.substring_char(tk.start, tk.end);
        let h = HashedString::new(s);
        Some((NotPythonExpr::String((s.to_owned(), h)), pos + 1))
    } else if k == NotPythonLangToken::KwTrue {
        Some((NotPythonExpr::Boolean(true), pos + 1))
    } else if k == NotPythonLangToken::KwFalse {
        Some((NotPythonExpr::Boolean(false), pos + 1))
    } else if k == NotPythonLangToken::KwNone {
        Some((NotPythonExpr::NoneValue, pos + 1))
    } else if k == NotPythonLangToken::Identifier {
        Some((NotPythonExpr::Variable(NotPythonExprVariable { name: token_text(src, c, t, pos) }), pos + 1))
    } else {
        None
    }
}

/// An expression at precedence level `lvl` starting at `pos`.
fn parse_level(src: &str, c: &Vec<char>, t: &Vec<Token>, lvl: usize, pos: usize) -> (r: Option<(NotPythonExpr, usize)>)
    requires
        wf(src, c, t),
        lvl <= 8,
        pos <= t@.len(),
    ensures
        expr_result(r) == p_level(c@, t@, lvl as nat, pos as int),
        r matches Some((_, p)) ==> pos <= p <= t@.len(),
    decreases t@.len() - pos, lvl + 2, 1nat,
{
    if lvl == 0 || lvl == 6 {
        let (op_kind, op) = if lvl == 0 {
            (NotPythonLangToken::Minus, UnaryOp::Neg)
        } else {
            (NotPythonLangToken::KwNot, UnaryOp::Not)
        };
        if kind_is(t, pos, op_kind) {
            match parse_level(src, c, t, lvl, pos + 1) {
                Some((e, p)) => Some((NotPythonExpr::UnaryOp(op, Box::new(e)), p)),
                None => None,
            }
        } else if lvl == 0 {
            parse_base(src, c, t, pos)
        } else {
            parse_level(src, c, t, 5, pos)
        }
    } else {
        match parse_level(src, c, t, lvl - 1, pos) {
            Some((l, p)) => {
                let (e, q) = parse_chain(src, c, t, lvl, l, p);
                Some((e, q))
            },
            None => None,
        }
    }
}

/// Left-associated operators of level `lvl` and their operands after `lhs`.
fn parse_chain(src: &str, c: &Vec<char>, t: &Vec<Token>, lvl: usize, lhs: NotPythonExpr, pos: usize) -> (r: (NotPythonExpr, usize))
    requires
        wf(src, c, t),
        1 <= lvl <= 8,
        pos <= t@.len(),
    ensures
        (r.0.model(), r.1 as int) == p_chain(c@, t@, lvl as nat, lhs.model(), pos as int),
        pos <= r.1 <= t@.len(),
    decreases t@.len() - pos, lvl + 2, 0nat,
{
    let ghost target = p_chain(c@, t@, lvl as nat, lhs.model(), pos as int);
    let mut acc = lhs;
    let mut p = pos;
    loop
        invariant_except_break
            wf(src, c, t),
            1 <= lvl <= 8,
            pos <= p <= t@.len(),
            p_chain(c@, t@, lvl as nat, acc.model(), p as int) == target,
        ensures
            pos <= p <= t@.len(),
            (acc.model(), p as int) == target,
        decreases t@.len() - p,
    {
        if p >= t.len() {
            break;
        }
        match level_binop_exec(lvl, t[p].kind) {
            None => {
                break;
            },
            Some(op) => {
                match parse_level(src, c, t, lvl - 1, p + 1) {
                    None => {
                        break;
                    },
                    Some((rhs, q)) => {
                        if !(p < q && q <= t.len()) {
                            break;
                        }
                        acc = NotPythonExpr::BinaryOp(op, Box::new(acc), Box::new(rhs));
                        p = q;
                    },
                }
            },
        }
    }
    (acc, p)
}

/// A primary expression at `pos`.
fn parse_base(src: &str, c: &Vec<char>, t: &Vec<Token>, pos: usize) -> (r: Option<(NotPythonExpr, usize)>)
    requires
        wf(src, c, t),
        pos <= t@.len(),
    ensures
        expr_result(r) == p_base(c@, t@, pos as int),
        r matches Some((_, p)) ==> pos <= p <= t@.len(),
    decreases t@.len() - pos, 1nat, 0nat,
{
    if pos >= t.len() {
        return None;
    }
    if kind_is(t, pos, NotPythonLangToken::Identifier) && kind_is(t, pos + 1, NotPythonLangToken::LParen) {
        let (args, p) = parse_items(src, c, t, pos + 2);
        if kind_is(t, p, NotPythonLangToken::RParen) {
            let name = token_text(src, c, t, pos);
            return Some((mk_call_expr(name, args), p + 1));
        }
    }
    if kind_is(t, pos, NotPythonLangToken::Identifier) && kind_is(t, pos + 1, NotPythonLangToken::LBracket) {
        match parse_level(src, c, t, 8, pos + 2) {
            Some((e, p)) => {
                if kind_is(t, p, NotPythonLangToken::RBracket) {
                    let name = token_text(src, c, t, pos);
                    return Some(
                        (NotPythonExpr::Index(NotPythonExprVariable { name }, Box::new(e)), p + 1),
                    );
                }
            },
            None => {},
        }
    }
    if kind_is(t, pos, NotPythonLangToken::LBracket) {
        let (items, p) = parse_items(src, c, t, pos + 1);
        if kind_is(t, p, NotPythonLangToken::RBracket) {
            return Some((mk_list(items), p + 1));
        }
    }
    if kind_is(t, pos, NotPythonLangToken::LBrace) {
        let (pairs, p) = parse_pairs(src, c, t, pos + 1);
        if kind_is(t, p, NotPythonLangToken::RBrace) {
            return Some((mk_dict(pairs), p + 1));
        }
    }
    parse_atom(src, c, t, pos)
}

/// Comma-separated expressions, with an optional trailing comma.
fn parse_items(src: &str, c: &Vec<char>, t: &Vec<Token>, pos: usize) -> (r: (Vec<NotPythonExpr>, usize))
    requires
        wf(src, c, t),
        pos <= t@.len(),
    ensures
        (exprs_model(r.0@), r.1 as int) == p_items(c@, t@, pos as int),
        pos <= r.1 <= t@.len(),
    decreases t@.len() - pos, 20nat, 0nat,
{
    let mut items: Vec<NotPythonExpr> = Vec::new();
    match parse_level(src, c, t, 8, pos) {
        None => {
            assert(exprs_model(items@) =~= seq![]);
            (items, pos)
        },
        Some((e, p0)) => {
            if !(pos < p0 && p0 <= t.len()) {
                assert(exprs_model(items@) =~= seq![]);
                return (items, pos);
            }
            let ghost first = e.model();
            let ghost target = p_items_tail(c@, t@, p0 as int);
            push_expr(&mut items, e);
            assert(exprs_model(items@) =~= seq![first]);
            let mut p = p0;
            loop
                invariant_except_break
                    wf(src, c, t),
                    pos < p0 <= p <= t@.len(),
                    exprs_model(items@) + p_items_tail(c@, t@, p as int).0 == seq![first]
                        + target.0,
                    p_items_tail(c@, t@, p as int).1 == target.1,
                ensures
                    pos < p <= t@.len(),
                    exprs_model(items@) == seq![first] + target.0,
                    p == target.1,
                decreases t@.len() - p,
            {
                if !kind_is(t, p, NotPythonLangToken::Comma) {
                    assert(exprs_model(items@) + seq![] =~= exprs_model(items@));
                    break;
                }
                match parse_level(src, c, t, 8, p + 1) {
                    None => {
                        p = p + 1;
                        assert(exprs_model(items@) + seq![] =~= exprs_model(items@));
                        break;
                    },
                    Some((e2, q)) => {
                        if !(p + 1 < q && q <= t.len()) {
                            p = p + 1;
                            assert(exprs_model(items@) + seq![] =~= exprs_model(items@));
                            break;
                        }
                        let ghost old_items = exprs_model(items@);
                        let ghost m2 = e2.model();
                        push_expr(&mut items, e2);
                        assert(old_items + (seq![m2] + p_items_tail(c@, t@, q as int).0)
                            =~= exprs_model(items@) + p_items_tail(c@, t@, q as int).0);
                        p = q;
                    },
                }
            }
            (items, p)
        },
    }
}

/// A `key: value` pair.
fn parse_pair(src: &str, c: &Vec<char>, t: &Vec<Token>, pos: usize) -> (r: Option<((NotPythonExpr, NotPythonExpr), usize)>)
    requires
        wf(src, c, t),
        pos <= t@.len(),
    ensures
        match r {
            Some((kv, p)) => p_pair(c@, t@, pos as int) == Some(
                ((kv.0.model(), kv.1.model()), p as int),
            ) && pos <= p <= t@.len(),
            None => p_pair(c@, t@, pos as int) is None,
        },
    decreases t@.len() - pos, 19nat, 0nat,
{
    match parse_level(src, c, t, 8, pos) {
        Some((k, p1)) => {
            if kind_is(t, p1, NotPythonLangToken::Colon) {
                match parse_level(src, c, t, 8, p1 + 1) {
                    Some((v, p2)) => Some(((k, v), p2)),
                    None => None,
                }
            } else {
                None
            }
        },
        None => None,
    }
}

/// Comma-separated pairs, with an optional trailing comma.
fn parse_pairs(src: &str, c: &Vec<char>, t: &Vec<Token>, pos: usize) -> (r: (Vec<(NotPythonExpr, NotPythonExpr)>, usize))
    requires
        wf(src, c, t),
        pos <= t@.len(),
    ensures
        (pairs_model(r.0@), r.1 as int) == p_pairs(c@, t@, pos as int),
        pos <= r.1 <= t@.len(),
    decreases t@.len() - pos, 20nat, 0nat,
{
    let mut items: Vec<(NotPythonExpr, NotPythonExpr)> = Vec::new();
    match parse_pair(src, c, t, pos) {
        None => {
            assert(pairs_model(items@) =~= seq![]);
            (items, pos)
        },
        Some((kv, p0)) => {
            if !(pos < p0 && p0 <= t.len()) {
                assert(pairs_model(items@) =~= seq![]);
                return (items, pos);
            }
            let ghost first = (kv.0.model(), kv.1.model());
            let ghost target = p_pairs_tail(c@, t@, p0 as int);
            push_pair(&mut items, kv.0, kv.1);
            assert(pairs_model(items@) =~= seq![first]);
            let mut p = p0;
            loop
                invariant_except_break
                    wf(src, c, t),
                    pos < p0 <= p <= t@.len(),
                    pairs_model(items@) + p_pairs_tail(c@, t@, p as int).0 == seq![first]
                        + target.0,
                    p_pairs_tail(c@, t@, p as int).1 == target.1,
                ensures
                    pos < p <= t@.len(),
                    pairs_model(items@) == seq![first] + target.0,
                    p == target.1,
                decreases t@.len() - p,
            {
                if !kind_is(t, p, NotPythonLangToken::Comma) {
                    assert(pairs_model(items@) + seq![] =~= pairs_model(items@));
                    break;
                }
                match parse_pair(src, c, t, p + 1) {
                    None => {
                        p = p + 1;
                        assert(pairs_model(items@) + seq![] =~= pairs_model(items@));
                        break;
                    },
                    Some((kv2, q)) => {
                        if !(p + 1 < q && q <= t.len()) {
                            p = p + 1;
                            assert(pairs_model(items@) + seq![] =~= pairs_model(items@));
                            break;
                        }
                        let ghost old_items = pairs_model(items@);
                        let ghost m2 = (kv2.0.model(), kv2.1.model());
                        push_pair(&mut items, kv2.0, kv2.1);
                        assert(old_items + (seq![m2] + p_pairs_tail(c@, t@, q as int).0)
                            =~= pairs_model(items@) + p_pairs_tail(c@, t@, q as int).0);
                        p = q;
                    },
                }
            }
            (items, p)
        },
    }
}

fn line_end_exec(t: &Vec<Token>, p: usize) -> (r: Option<usize>)
    requires
        t@.len() + 8 <= usize::MAX,
    ensures
        match r {
            Some(q) => line_end(t@, p as int) == Some(q as int) && q <= t@.len(),
            None => line_end(t@, p as int) is None,
        },
{
    if kind_is(t, p, NotPythonLangToken::Newline) {
        Some(p + 1)
    } else if p == t.len() {
        Some(p)
    } else {
        None
    }
}

fn semi_end_exec(t: &Vec<Token>, p: usize) -> (r: Option<usize>)
    requires
        t@.len() + 8 <= usize::MAX,
    ensures
        match r {
            Some(q) => semi_end(t@, p as int) == Some(q as int) && q <= t@.len(),
            None => semi_end(t@, p as int) is None,
        },
{
    if kind_is(t, p, NotPythonLangToken::Semi) {
        line_end_exec(t, p + 1)
    } else {
        None
    }
}

/// Comma-separated parameter names, with an optional trailing comma.
fn parse_params(src: &str, c: &Vec<char>, t: &Vec<Token>, pos: usize) -> (r: (Vec<NotPythonExprVariable>, usize))
    requires
        wf(src, c, t),
        pos <= t@.len(),
    ensures
        (names_model(r.0@), r.1 as int) == p_params(c@, t@, pos as int),
        pos <= r.1 <= t@.len(),
{
    let mut params: Vec<NotPythonExprVariable> = Vec::new();
    if !kind_is(t, pos, NotPythonLangToken::Identifier) {
        assert(names_model(params@) =~= seq![]);
        return (params, pos);
    }
    let name = token_text(src, c, t, pos);
    let ghost first = name@;
    let ghost target = p_params_tail(c@, t@, pos + 1);
    push_var(&mut params, NotPythonExprVariable { name });
    assert(names_model(params@) =~= seq![first]);
    let mut p = pos + 1;
    loop
        invariant_except_break
            wf(src, c, t),
            pos < p <= t@.len(),
            names_model(params@) + p_params_tail(c@, t@, p as int).0 == seq![first] + target.0,
            p_params_tail(c@, t@, p as int).1 == target.1,
        ensures
            pos < p <= t@.len(),
            names_model(params@) == seq![first] + target.0,
            p == target.1,
        decreases t@.len() - p,
    {
        if !kind_is(t, p, NotPythonLangToken::Comma) {
            assert(names_model(params@) + seq![] =~= names_model(params@));
            break;
        }
        if !kind_is(t, p + 1, NotPythonLangToken::Identifier) {
            p = p + 1;
            assert(names_model(params@) + seq![] =~= names_model(params@));
            break;
        }
        let name2 = token_text(src, c, t, p + 1);
        let ghost old_names = names_model(params@);
        let ghost m2 = name2@;
        push_var(&mut params, NotPythonExprVariable { name: name2 });
        assert(old_names + (seq![m2] + p_params_tail(c@, t@, p + 2).0) =~= names_model(params@)
            + p_params_tail(c@, t@, p + 2).0);
        p = p + 2;
    }
    (params, p)
}

/// Statements, as many as parse one after the other.
fn parse_block(src: &str, c: &Vec<char>, t: &Vec<Token>, pos: usize) -> (r: (Vec<NotPythonStmt>, usize))
    requires
        wf(src, c, t),
        pos <= t@.len(),
    ensures
        (stmts_model(r.0@), r.1 as int) == p_block(c@, t@, pos as int),
        pos <= r.1 <= t@.len(),
    decreases t@.len() - pos, 3nat,
{
    let ghost target = p_block(c@, t@, pos as int);
    let mut stmts: Vec<NotPythonStmt> = Vec::new();
    let mut p = pos;
    assert(stmts_model(stmts@) + p_block(c@, t@, p as int).0 =~= target.0);
    loop
        invariant_except_break
            wf(src, c, t),
            pos <= p <= t@.len(),
            stmts_model(stmts@) + p_block(c@, t@, p as int).0 == target.0,
            p_block(c@, t@, p as int).1 == target.1,
        ensures
            pos <= p <= t@.len(),
            stmts_model(stmts@) == target.0,
            p == target.1,
        decreases t@.len() - p,
    {
        match parse_stmt(src, c, t, p) {
            None => {
                assert(stmts_model(stmts@) + seq![] =~= stmts_model(stmts@));
                break;
            },
            Some((s, q)) => {
                if !(p < q && q <= t.len()) {
                    assert(stmts_model(stmts@) + seq![] =~= stmts_model(stmts@));
                    break;
                }
                let ghost old_stmts = stmts_model(stmts@);
                let ghost m = s.model();
                push_stmt(&mut stmts, s);
                assert(old_stmts + (seq![m] + p_block(c@, t@, q as int).0) =~= stmts_model(
                    stmts@,
                ) + p_block(c@, t@, q as int).0);
                p = q;
            },
        }
    }
    (stmts, p)
}

/// `elif` branches with their blocks.
fn parse_elifs(src: &str, c: &Vec<char>, t: &Vec<Token>, pos: usize) -> (r: (Vec<(NotPythonExpr, NotPythonStmt)>, usize))
    requires
        wf(src, c, t),
        pos <= t@.len(),
    ensures
        (elifs_model(r.0@), r.1 as int) == p_elifs(c@, t@, pos as int),
        pos <= r.1 <= t@.len(),
    decreases t@.len() - pos, 1nat,
{
    let ghost target = p_elifs(c@, t@, pos as int);
    let mut elifs: Vec<(NotPythonExpr, NotPythonStmt)> = Vec::new();
    let mut p = pos;
    assert(elifs_model(elifs@) + p_elifs(c@, t@, p as int).0 =~= target.0);
    loop
        invariant_except_break
            wf(src, c, t),
            pos <= p <= t@.len(),
            elifs_model(elifs@) + p_elifs(c@, t@, p as int).0 == target.0,
            p_elifs(c@, t@, p as int).1 == target.1,
        ensures
            pos <= p <= t@.len(),
            elifs_model(elifs@) == target.0,
            p == target.1,
        decreases t@.len() - p,
    {
        if !kind_is(t, p, NotPythonLangToken::KwElif) {
            assert(elifs_model(elifs@) + seq![] =~= elifs_model(elifs@));
            break;
        }
        let cond = parse_level(src, c, t, 8, p + 1);
        match cond {
            None => {
                assert(elifs_model(elifs@) + seq![] =~= elifs_model(elifs@));
                break;
            },
            Some((e, p1)) => {
                if !(kind_is(t, p1, NotPythonLangToken::Colon) && kind_is(t, p1 + 1, NotPythonLangToken::Newline)) {
                    assert(elifs_model(elifs@) + seq![] =~= elifs_model(elifs@));
                    break;
                }
                let (b, p2) = parse_block(src, c, t, p1 + 2);
                let block = mk_block(b);
                let ghost old_elifs = elifs_model(elifs@);
                let ghost m = (e.model(), block.model());
                elifs.push((e, block));
                assert(elifs_model(elifs@) =~= old_elifs.push(m));
                assert(old_elifs + (seq![m] + p_elifs(c@, t@, p2 as int).0) =~= elifs_model(elifs@)
                    + p_elifs(c@, t@, p2 as int).0);
                p = p2;
            },
        }
    }
    (elifs, p)
}

/// The nested conditionals of `elif` branches and an optional `else` block.
fn fold_elifs_exec(elifs: Vec<(NotPythonExpr, NotPythonStmt)>, els: Option<NotPythonStmt>) -> (r: Option<Box<NotPythonStmt>>)
    ensures
        (match r {
            Some(b) => Some(Box::new(b.model())),
            None => None,
        }) == fold_elifs(elifs_model(elifs@), opt_stmt_model(els)),
{
    let ghost all = elifs_model(elifs@);
    let ghost els_m = opt_stmt_model(els);
    let mut elifs = elifs;
    let mut acc: Option<Box<NotPythonStmt>> = match els {
        Some(e) => Some(Box::new(e)),
        None => None,
    };
    assert(all.subrange(all.len() as int, all.len() as int) =~= seq![]);
    while elifs.len() > 0
        invariant
            elifs_model(elifs@) == all.subrange(0, elifs@.len() as int),
            elifs@.len() <= all.len(),
            (match acc {
                Some(b) => Some(Box::new(b.model())),
                None => None,
            }) == fold_elifs(all.subrange(elifs@.len() as int, all.len() as int), els_m),
        decreases elifs@.len(),
    {
        let ghost n = elifs@.len();
        let (cond, then) = elifs.pop().unwrap();
        assert(elifs_model(elifs@) =~= all.subrange(0, elifs@.len() as int));
        let ghost rest = all.subrange(n - 1, all.len() as int);
        assert(rest.drop_first() =~= all.subrange(n as int, all.len() as int));
        assert(rest[0] == all[n - 1]);
        assert(all.subrange(0, n as int)[n - 1] == (cond.model(), then.model()));
        acc = Some(Box::new(NotPythonStmt::If { condition: cond, then: Box::new(then), else_: acc }));
    }
    assert(all.subrange(0, all.len() as int) =~= all);
    acc
}

/// An `if` statement at `pos`.
fn parse_if(src: &str, c: &Vec<char>, t: &Vec<Token>, pos: usize) -> (r: Option<(NotPythonStmt, usize)>)
    requires
        wf(src, c, t),
        pos < t@.len(),
    ensures
        stmt_result(r) == p_if(c@, t@, pos as int),
        r matches Some((_, p)) ==> p <= t@.len(),
    decreases t@.len() - pos, 1nat,
{
    let (cond, p1) = match parse_level(src, c, t, 8, pos + 1) {
        Some(x) => x,
        None => return None,
    };
    if !(pos < p1 && kind_is(t, p1, NotPythonLangToken::Colon) && kind_is(t, p1 + 1, NotPythonLangToken::Newline)) {
        return None;
    }
    let (then_b, p2) = parse_block(src, c, t, p1 + 2);
    let (elifs, p3) = parse_elifs(src, c, t, p2);
    let has_else = kind_is(t, p3, NotPythonLangToken::KwElse) && kind_is(t, p3 + 1, NotPythonLangToken::Colon)
        && kind_is(t, p3 + 2, NotPythonLangToken::Newline);
    let (els, p4) = if has_else {
        let (b, p) = parse_block(src, c, t, p3 + 3);
        (Some(mk_block(b)), p)
    } else {
        (None, p3)
    };
    if !kind_is(t, p4, NotPythonLangToken::KwEnd) {
        return None;
    }
    match line_end_exec(t, p4 + 1) {
        None => None,
        Some(q) => {
            let then_s = mk_block(then_b);
            let else_ = fold_elifs_exec(elifs, els);
            Some((NotPythonStmt::If { condition: cond, then: Box::new(then_s), else_ }, q))
        },
    }
}

/// A function definition at `pos`.
fn parse_def(src: &str, c: &Vec<char>, t: &Vec<Token>, pos: usize) -> (r: Option<(NotPythonStmt, usize)>)
    requires
        wf(src, c, t),
        pos < t@.len(),
    ensures
        stmt_result(r) == p_def(c@, t@, pos as int),
        r matches Some((_, p)) ==> p <= t@.len(),
    decreases t@.len() - pos, 1nat,
{
    let is_pure = kind_is(t, pos + 1, NotPythonLangToken::KwPure);
    let q = if is_pure {
        pos + 2
    } else {
        pos + 1
    };
    if !(kind_is(t, q, NotPythonLangToken::Identifier) && kind_is(t, q + 1, NotPythonLangToken::LParen)) {
        return None;
    }
    let (params, p1) = parse_params(src, c, t, q + 2);
    if !(kind_is(t, p1, NotPythonLangToken::RParen) && kind_is(t, p1 + 1, NotPythonLangToken::Colon)
        && kind_is(t, p1 + 2, NotPythonLangToken::Newline)) {
        return None;
    }
    let (body, p2) = parse_block(src, c, t, p1 + 3);
    if !kind_is(t, p2, NotPythonLangToken::KwEnd) {
        return None;
    }
    match line_end_exec(t, p2 + 1) {
        None => None,
        Some(e) => {
            let name = token_text(src, c, t, q);
            Some((mk_function(name, params, mk_block(body), is_pure), e))
        },
    }
}

/// A declaration, an assignment or a call statement at `pos`.
fn parse_named(src: &str, c: &Vec<char>, t: &Vec<Token>, pos: usize) -> (r: Option<(NotPythonStmt, usize)>)
    requires
        wf(src, c, t),
        pos < t@.len(),
    ensures
        stmt_result(r) == p_named(c@, t@, pos as int),
        r matches Some((_, p)) ==> p <= t@.len(),
{
    if kind_is(t, pos + 1, NotPythonLangToken::ColonEqual) {
        match parse_level(src, c, t, 8, pos + 2) {
            Some((e, p)) => match semi_end_exec(t, p) {
                Some(q) => {
                    let name = token_text(src, c, t, pos);
                    return Some((NotPythonStmt::Decl(NotPythonExprVariable { name }, e), q));
                },
                None => {},
            },
            None => {},
        }
    }
    if kind_is(t, pos + 1, NotPythonLangToken::Equal) {
        match parse_level(src, c, t, 8, pos + 2) {
            Some((e, p)) => match semi_end_exec(t, p) {
                Some(q) => {
                    let name = token_text(src, c, t, pos);
                    return Some((NotPythonStmt::Assign(NotPythonExprVariable { name }, e), q));
                },
                None => {},
            },
            None => {},
        }
    }
    if kind_is(t, pos + 1, NotPythonLangToken::LParen) {
        let (args, p) = parse_items(src, c, t, pos + 2);
        if kind_is(t, p, NotPythonLangToken::RParen) {
            match semi_end_exec(t, p + 1) {
                Some(q) => {
                    let name = token_text(src, c, t, pos);
                    return Some((mk_call_stmt(name, args), q));
                },
                None => {},
            }
        }
    }
    None
}

/// A statement at `pos`.
fn parse_stmt(src: &str, c: &Vec<char>, t: &Vec<Token>, pos: usize) -> (r: Option<(NotPythonStmt, usize)>)
    requires
        wf(src, c, t),
        pos <= t@.len(),
    ensures
        stmt_result(r) == p_stmt(c@, t@, pos as int),
        r matches Some((_, p)) ==> p <= t@.len(),
    decreases t@.len() - pos, 2nat,
{
    if pos >= t.len() {
        return None;
    }
    let k = t[pos].kind;
    if k == NotPythonLangToken::KwPass {
        match semi_end_exec(t, pos + 1) {
            Some(q) => Some((NotPythonStmt::Pass, q)),
            None => None,
        }
    } else if k == NotPythonLangToken::KwBreak {
        match semi_end_exec(t, pos + 1) {
            Some(q) => Some((NotPythonStmt::Break, q)),
            None => None,
        }
    } else if k == NotPythonLangToken::KwContinue {
        match semi_end_exec(t, pos + 1) {
            Some(q) => Some((NotPythonStmt::Continue, q)),
            None => None,
        }
    } else if k == NotPythonLangToken::KwReturn {
        let (e, p1) = match parse_level(src, c, t, 8, pos + 1) {
            Some((e, p)) => (Some(e), p),
            None => (None, pos + 1),
        };
        match semi_end_exec(t, p1) {
            Some(q) => Some((NotPythonStmt::Return(e), q)),
            None => None,
        }
    } else if k == NotPythonLangToken::KwIf {
        parse_if(src, c, t, pos)
    } else if k == NotPythonLangToken::KwLoop {
        if kind_is(t, pos + 1, NotPythonLangToken::Colon) && kind_is(t, pos + 2, NotPythonLangToken::Newline) {
            let (body, p) = parse_block(src, c, t, pos + 3);
            if kind_is(t, p, NotPythonLangToken::KwEnd) {
                match line_end_exec(t, p + 1) {
                    Some(q) => Some((NotPythonStmt::Loop(Box::new(mk_block(body))), q)),
                    None => None,
                }
            } else {
                None
            }
        } else {
            None
        }
    } else if k == NotPythonLangToken::KwDef {
        parse_def(src, c, t, pos)
    } else if k == NotPythonLangToken::Identifier {
        parse_named(src, c, t, pos)
    } else {
        None
    }
}

/// Parses a program: its statements, up to the end of the input, as one block.
pub fn parse_program(src: &str) -> (r: Result<NotPythonProgram, ParseError>)
    requires
        src@.len() + 8 <= usize::MAX,
    ensures
        match r {
            Ok(prog) => p_program(src@, lex(src@)) == Some(prog.model()),
            Err(e) => p_program(src@, lex(src@)) is None && e.token_index == p_block(
                src@,
                lex(src@),
                0,
            ).1,
        },
{
    let c = chars_of(src);
    let t = tokenize(&c);
    proof {
        lemma_lex_len(c@, 0);
    }
    let (stmts, p) = parse_block(src, &c, &t, 0);
    if p == t.len() {
        Ok(NotPythonProgram { statement: mk_block(stmts) })
    } else {
        Err(ParseError { token_index: p })
    }
}

} // verus!
