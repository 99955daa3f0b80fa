//! The grammar of the language, as functions from a token sequence and a position
//! to what is parsed there and the position after it. Alternatives are tried in
//! order, the first that succeeds wins, and repetitions take as many items as parse.
use vstd::prelude::*;
use crate::ast::{BinaryOp, ExprModel, StmtModel, UnaryOp};
use crate::hashed_string::byte_len;
use crate::lexer::{NotPythonLangToken, Token, is_digit, lex, lex_from};
use crate::values::{ValueModel, spec_binary_op};

verus! {

pub open spec fn is_kind(t: Seq<Token>, p: int, k: NotPythonLangToken) -> bool {
    0 <= p < t.len() && t[p].kind == k
}

/// The source text that a token carries.
pub open spec fn text(c: Seq<char>, tk: Token) -> Seq<char> {
    c.subrange(tk.start as int, tk.end as int)
}

pub open spec fn digit_value(ch: char) -> int {
    (ch as int) - ('0' as int)
}

/// The decimal value of a run of digits.
pub open spec fn digits_value(s: Seq<char>) -> int
    decreases s.len(),
{
    if s.len() == 0 {
        0
    } else {
        digits_value(s.drop_last()) * 10 + digit_value(s.last())
    }
}

pub open spec fn all_digits(s: Seq<char>) -> bool {
    forall|i: int| 0 <= i < s.len() ==> is_digit(#[trigger] s[i])
}

/// The binary operator that a token stands for at a precedence level, tightest first:
/// 1 `* /`, 2 `+ -`, 3 `%`, 4 comparisons, 5 `in`, 7 `and`, 8 `or`
/// (levels 0 and 6 are the prefix operators `-` and `not`).
pub open spec fn level_binop(lvl: nat, k: NotPythonLangToken) -> Option<BinaryOp> {
    if lvl == 1 {
        if k == NotPythonLangToken::Star {
            Some(BinaryOp::Mul)
        } else if k == NotPythonLangToken::Slash {
            Some(BinaryOp::Div)
        } else {
            None
        }
    } else if lvl == 2 {
        if k == NotPythonLangToken::Plus {
            Some(BinaryOp::Add)
        } else if k == NotPythonLangToken::Minus {
            Some(BinaryOp::Sub)
        } else {
            None
        }
    } else if lvl == 3 {
        if k == NotPythonLangToken::Percent {
            Some(BinaryOp::Mod)
        } else {
            None
        }
    } else if lvl == 4 {
        if k == NotPythonLangToken::EqEqual {
            Some(BinaryOp::Equal)
        } else if k == NotPythonLangToken::NotEqual {
            Some(BinaryOp::NotEqual)
        } else if k == NotPythonLangToken::Less {
            Some(BinaryOp::Less)
        } else if k == NotPythonLangToken::Greater {
            Some(BinaryOp::Greater)
        } else if k == NotPythonLangToken::LessEqual {
            Some(BinaryOp::LessEqual)
        } else if k == NotPythonLangToken::GreaterEqual {
            Some(BinaryOp::GreaterEqual)
        } else {
            None
        }
    } else if lvl == 5 {
        if k == NotPythonLangToken::KwIn {
            Some(BinaryOp::In)
        } else {
            None
        }
    } else if lvl == 7 {
        if k == NotPythonLangToken::KwAnd {
            Some(BinaryOp::And)
        } else {
            None
        }
    } else if lvl == 8 {
        if k == NotPythonLangToken::KwOr {
            Some(BinaryOp::Or)
        } else {
            None
        }
    } else {
        None
    }
}

/// The top precedence level: a whole expression.
pub open spec fn expr_level() -> nat {
    8
}

/// An expression at precedence level `lvl` starting at `pos`.
pub open spec fn p_level(c: Seq<char>, t: Seq<Token>, lvl: nat, pos: int) -> Option<(ExprModel, int)>
    decreases t.len() - pos, lvl + 2, 1nat,
{
    if lvl > 8 || pos < 0 || pos > t.len() {
        None
    } else if lvl == 0 || lvl == 6 {
        let (op_kind, op) = if lvl == 0 {
            (NotPythonLangToken::Minus, UnaryOp::Neg)
        } else {
            (NotPythonLangToken::KwNot, UnaryOp::Not)
        };
        if is_kind(t, pos, op_kind) {
            match p_level(c, t, lvl, pos + 1) {
                Some((e, p)) => Some((ExprModel::UnaryOp(op, Box::new(e)), p)),
                None => None,
            }
        } else if lvl == 0 {
            p_base(c, t, pos)
        } else {
            p_level(c, t, 5, pos)
        }
    } else {
        match p_level(c, t, (lvl - 1) as nat, pos) {
            Some((l, p)) => if pos <= p <= t.len() {
                Some(p_chain(c, t, lvl, l, p))
            } else {
                None
            },
            None => None,
        }
    }
}

/// Left-associated operators of level `lvl` and their operands after `lhs`, from `pos` on.
pub open spec fn p_chain(c: Seq<char>, t: Seq<Token>, lvl: nat, lhs: ExprModel, pos: int) -> (
    ExprModel,
    int,
)
    decreases t.len() - pos, lvl + 2, 0nat,
{
    if lvl == 0 || lvl > 8 || pos < 0 || pos >= t.len() {
        (lhs, pos)
    } else {
        match level_binop(lvl, t[pos].kind) {
            Some(op) => match p_level(c, t, (lvl - 1) as nat, pos + 1) {
                Some((r, p)) => if pos < p <= t.len() {
                    p_chain(c, t, lvl, ExprModel::BinaryOp(op, Box::new(lhs), Box::new(r)), p)
                } else {
                    (lhs, pos)
                },
                None => (lhs, pos),
            },
            None => (lhs, pos),
        }
    }
}

/// A single-token expression.
pub open spec fn p_atom(c: Seq<char>, t: Seq<Token>, pos: int) -> Option<(ExprModel, int)> {
    if pos < 0 || pos >= t.len() {
        None
    } else {
        let tk = t[pos];
        let s = text(c, tk);
        if tk.kind == NotPythonLangToken::Int {
            if all_digits(s) && digits_value(s) <= i64::MAX {
                Some((ExprModel::Int(digits_value(s) as i64), pos + 1))
            } else {
                None
            }
        } else if tk.kind == NotPythonLangToken::Float {
            Some((ExprModel::Float(s), pos + 1))
        } else if tk.kind == NotPythonLangToken::StringLiteral {
            Some((ExprModel::Str(s, byte_len(s)), pos + 1))
        } else if tk.kind == NotPythonLangToken::KwTrue {
            Some((ExprModel::Boolean(true), pos + 1))
        } else if tk.kind == NotPythonLangToken::KwFalse {
            Some((ExprModel::Boolean(false), pos + 1))
        } else if tk.kind == NotPythonLangToken::KwNone {
            Some((ExprModel::NoneValue, pos + 1))
        } else if tk.kind == NotPythonLangToken::Identifier {
            Some((ExprModel::Variable(s), pos + 1))
        } else {
            None
        }
    }
}

/// A primary expression: a call, an index, a list, a dict or an atom, tried in this order.
pub open spec fn p_base(c: Seq<char>, t: Seq<Token>, pos: int) -> Option<(ExprModel, int)>
    decreases t.len() - pos, 1nat, 0nat,
{
    if pos < 0 || pos >= t.len() {
        None
    } else {
        let call = if is_kind(t, pos, NotPythonLangToken::Identifier) && is_kind(
            t,
            pos + 1,
            NotPythonLangToken::LParen,
        ) {
            let (args, p) = p_items(c, t, pos + 2);
            if is_kind(t, p, NotPythonLangToken::RParen) {
                Some((ExprModel::Call(text(c, t[pos]), args), p + 1))
            } else {
                None
            }
        } else {
            None
        };
        let index = if is_kind(t, pos, NotPythonLangToken::Identifier) && is_kind(
            t,
            pos + 1,
            NotPythonLangToken::LBracket,
        ) {
            match p_level(c, t, expr_level(), pos + 2) {
                Some((e, p)) => if is_kind(t, p, NotPythonLangToken::RBracket) {
                    Some((ExprModel::Index(text(c, t[pos]), Box::new(e)), p + 1))
                } else {
                    None
                },
                None => None,
            }
        } else {
            None
        };
        let list = if is_kind(t, pos, NotPythonLangToken::LBracket) {
            let (items, p) = p_items(c, t, pos + 1);
            if is_kind(t, p, NotPythonLangToken::RBracket) {
                Some((ExprModel::List(items), p + 1))
            } else {
                None
            }
        } else {
            None
        };
        let dict = if is_kind(t, pos, NotPythonLangToken::LBrace) {
            let (pairs, p) = p_pairs(c, t, pos + 1);
            if is_kind(t, p, NotPythonLangToken::RBrace) {
                Some((ExprModel::Dict(pairs), p + 1))
            } else {
                None
            }
        } else {
            None
        };
        if call is Some {
            call
        } else if index is Some {
            index
        } else if list is Some {
            list
        } else if dict is Some {
            dict
        } else {
            p_atom(c, t, pos)
        }
    }
}

/// Comma-separated expressions, with an optional trailing comma after the last one.
pub open spec fn p_items(c: Seq<char>, t: Seq<Token>, pos: int) -> (Seq<ExprModel>, int)
    decreases t.len() - pos, 20nat, 0nat,
{
    if pos < 0 || pos > t.len() {
        (seq![], pos)
    } else {
        match p_level(c, t, expr_level(), pos) {
            Some((e, p)) => if pos < p <= t.len() {
                let (rest, q) = p_items_tail(c, t, p);
                (seq![e] + rest, q)
            } else {
                (seq![], pos)
            },
            None => (seq![], pos),
        }
    }
}

/// The items that follow the first one of a comma-separated list.
pub open spec fn p_items_tail(c: Seq<char>, t: Seq<Token>, pos: int) -> (Seq<ExprModel>, int)
    decreases t.len() - pos, 20nat, 0nat,
{
    if is_kind(t, pos, NotPythonLangToken::Comma) {
        match p_level(c, t, expr_level(), pos + 1) {
            Some((e, p)) => if pos + 1 < p <= t.len() {
                let (rest, q) = p_items_tail(c, t, p);
                (seq![e] + rest, q)
            } else {
                (seq![], pos + 1)
            },
            None => (seq![], pos + 1),
        }
    } else {
        (seq![], pos)
    }
}

/// A `key: value` pair of a dict literal.
pub open spec fn p_pair(c: Seq<char>, t: Seq<Token>, pos: int) -> Option<((ExprModel, ExprModel), int)>
    decreases t.len() - pos, 19nat, 0nat,
{
    if pos < 0 || pos > t.len() {
        None
    } else {
        match p_level(c, t, expr_level(), pos) {
            Some((k, p1)) => if pos <= p1 && is_kind(t, p1, NotPythonLangToken::Colon) {
                match p_level(c, t, expr_level(), p1 + 1) {
                    Some((v, p2)) => Some(((k, v), p2)),
                    None => None,
                }
            } else {
                None
            },
            None => None,
        }
    }
}

/// Comma-separated pairs, with an optional trailing comma after the last one.
pub open spec fn p_pairs(c: Seq<char>, t: Seq<Token>, pos: int) -> (Seq<(ExprModel, ExprModel)>, int)
    decreases t.len() - pos, 20nat, 0nat,
{
    if pos < 0 || pos > t.len() {
        (seq![], pos)
    } else {
        match p_pair(c, t, pos) {
            Some((kv, p)) => if pos < p <= t.len() {
                let (rest, q) = p_pairs_tail(c, t, p);
                (seq![kv] + rest, q)
            } else {
                (seq![], pos)
            },
            None => (seq![], pos),
        }
    }
}

/// The pairs that follow the first one of a comma-separated list.
pub open spec fn p_pairs_tail(c: Seq<char>, t: Seq<Token>, pos: int) -> (Seq<(ExprModel, ExprModel)>, int)
    decreases t.len() - pos, 20nat, 0nat,
{
    if is_kind(t, pos, NotPythonLangToken::Comma) {
        match p_pair(c, t, pos + 1) {
            Some((kv, p)) => if pos + 1 < p <= t.len() {
                let (rest, q) = p_pairs_tail(c, t, p);
                (seq![kv] + rest, q)
            } else {
                (seq![], pos + 1)
            },
            None => (seq![], pos + 1),
        }
    } else {
        (seq![], pos)
    }
}

/// The end of a line: a line break, or the end of the input.
pub open spec fn line_end(t: Seq<Token>, p: int) -> Option<int> {
    if is_kind(t, p, NotPythonLangToken::Newline) {
        Some(p + 1)
    } else if p == t.len() {
        Some(p)
    } else {
        None
    }
}

/// `;` and the end of a line.
pub open spec fn semi_end(t: Seq<Token>, p: int) -> Option<int> {
    if is_kind(t, p, NotPythonLangToken::Semi) {
        line_end(t, p + 1)
    } else {
        None
    }
}

/// Comma-separated parameter names, with an optional trailing comma after the last one.
pub open spec fn p_params(c: Seq<char>, t: Seq<Token>, pos: int) -> (Seq<Seq<char>>, int) {
    if is_kind(t, pos, NotPythonLangToken::Identifier) {
        let (rest, q) = p_params_tail(c, t, pos + 1);
        (seq![text(c, t[pos])] + rest, q)
    } else {
        (seq![], pos)
    }
}

pub open spec fn p_params_tail(c: Seq<char>, t: Seq<Token>, pos: int) -> (Seq<Seq<char>>, int)
    decreases t.len() - pos,
{
    if is_kind(t, pos, NotPythonLangToken::Comma) {
        if is_kind(t, pos + 1, NotPythonLangToken::Identifier) {
            let (rest, q) = p_params_tail(c, t, pos + 2);
            (seq![text(c, t[pos + 1])] + rest, q)
        } else {
            (seq![], pos + 1)
        }
    } else {
        (seq![], pos)
    }
}

/// The nested conditionals that a chain of `elif` branches and an optional `else`
/// branch stand for.
pub open spec fn fold_elifs(elifs: Seq<(ExprModel, StmtModel)>, els: Option<StmtModel>) -> Option<
    Box<StmtModel>,
>
    decreases elifs.len(),
{
    if elifs.len() == 0 {
        match els {
            Some(e) => Some(Box::new(e)),
            None => None,
        }
    } else {
        Some(
            Box::new(
                StmtModel::If(
                    elifs[0].0,
                    Box::new(elifs[0].1),
                    fold_elifs(elifs.drop_first(), els),
                ),
            ),
        )
    }
}

/// `elif <expr>:` branches with their blocks.
pub open spec fn p_elifs(c: Seq<char>, t: Seq<Token>, pos: int) -> (Seq<(ExprModel, StmtModel)>, int)
    decreases t.len() - pos, 1nat,
{
    if pos >= 0 && is_kind(t, pos, NotPythonLangToken::KwElif) {
        match p_level(c, t, expr_level(), pos + 1) {
            Some((e, p1)) => if pos < p1 && is_kind(t, p1, NotPythonLangToken::Colon) && is_kind(
                t,
                p1 + 1,
                NotPythonLangToken::Newline,
            ) {
                let (b, p2) = p_block(c, t, p1 + 2);
                if p1 + 2 <= p2 <= t.len() {
                    let (rest, p3) = p_elifs(c, t, p2);
                    (seq![(e, StmtModel::Block(b))] + rest, p3)
                } else {
                    (seq![], pos)
                }
            } else {
                (seq![], pos)
            },
            None => (seq![], pos),
        }
    } else {
        (seq![], pos)
    }
}

/// A sequence of statements: as many as parse one after the other.
pub open spec fn p_block(c: Seq<char>, t: Seq<Token>, pos: int) -> (Seq<StmtModel>, int)
    decreases t.len() - pos, 3nat,
{
    if pos < 0 || pos > t.len() {
        (seq![], pos)
    } else {
        match p_stmt(c, t, pos) {
            Some((s, p)) => if pos < p <= t.len() {
                let (rest, q) = p_block(c, t, p);
                (seq![s] + rest, q)
            } else {
                (seq![], pos)
            },
            None => (seq![], pos),
        }
    }
}

/// An `if` statement starting at `pos`, which holds `if`.
pub open spec fn p_if(c: Seq<char>, t: Seq<Token>, pos: int) -> Option<(StmtModel, int)>
    decreases t.len() - pos, 1nat,
{
    if pos < 0 || pos >= t.len() {
        None
    } else {
        match p_level(c, t, expr_level(), pos + 1) {
            Some((cond, p1)) => if pos < p1 && is_kind(t, p1, NotPythonLangToken::Colon) && is_kind(
                t,
                p1 + 1,
                NotPythonLangToken::Newline,
            ) {
                let (then_b, p2) = p_block(c, t, p1 + 2);
                if p1 + 2 <= p2 <= t.len() {
                    let (elifs, p3) = p_elifs(c, t, p2);
                    if p2 <= p3 <= t.len() {
                        let has_else = is_kind(t, p3, NotPythonLangToken::KwElse) && is_kind(
                            t,
                            p3 + 1,
                            NotPythonLangToken::Colon,
                        ) && is_kind(t, p3 + 2, NotPythonLangToken::Newline);
                        let (els, p4) = if has_else {
                            let (b, p) = p_block(c, t, p3 + 3);
                            (Some(StmtModel::Block(b)), p)
                        } else {
                            (None, p3)
                        };
                        if is_kind(t, p4, NotPythonLangToken::KwEnd) && line_end(t, p4 + 1) is Some {
                            Some(
                                (
                                    StmtModel::If(
                                        cond,
                                        Box::new(StmtModel::Block(then_b)),
                                        fold_elifs(elifs, els),
                                    ),
                                    line_end(t, p4 + 1).unwrap(),
                                ),
                            )
                        } else {
                            None
                        }
                    } else {
                        None
                    }
                } else {
                    None
                }
            } else {
                None
            },
            None => None,
        }
    }
}

/// A function definition starting at `pos`, which holds `def`.
pub open spec fn p_def(c: Seq<char>, t: Seq<Token>, pos: int) -> Option<(StmtModel, int)>
    decreases t.len() - pos, 1nat,
{
    if pos < 0 || pos >= t.len() {
        None
    } else {
        let is_pure = is_kind(t, pos + 1, NotPythonLangToken::KwPure);
        let q = if is_pure {
            pos + 2
        } else {
            pos + 1
        };
        if is_kind(t, q, NotPythonLangToken::Identifier) && is_kind(
            t,
            q + 1,
            NotPythonLangToken::LParen,
        ) {
            let (params, p1) = p_params(c, t, q + 2);
            if q + 2 <= p1 && is_kind(t, p1, NotPythonLangToken::RParen) && is_kind(
                t,
                p1 + 1,
                NotPythonLangToken::Colon,
            ) && is_kind(t, p1 + 2, NotPythonLangToken::Newline) {
                let (body, p2) = p_block(c, t, p1 + 3);
                if is_kind(t, p2, NotPythonLangToken::KwEnd) && line_end(t, p2 + 1) is Some {
                    Some(
                        (
                            StmtModel::Function(
                                text(c, t[q]),
                                params,
                                Box::new(StmtModel::Block(body)),
                                is_pure,
                            ),
                            line_end(t, p2 + 1).unwrap(),
                        ),
                    )
                } else {
                    None
                }
            } else {
                None
            }
        } else {
            None
        }
    }
}

/// A statement starting with a name: a declaration, an assignment or a call,
/// tried in this order.
pub open spec fn p_named(c: Seq<char>, t: Seq<Token>, pos: int) -> Option<(StmtModel, int)> {
    if pos < 0 || pos >= t.len() {
        None
    } else {
        let name = text(c, t[pos]);
        let decl = if is_kind(t, pos + 1, NotPythonLangToken::ColonEqual) {
            match p_level(c, t, expr_level(), pos + 2) {
                Some((e, p)) => match semi_end(t, p) {
                    Some(q) => Some((StmtModel::Decl(name, e), q)),
                    None => None,
                },
                None => None,
            }
        } else {
            None
        };
        let assign = if is_kind(t, pos + 1, NotPythonLangToken::Equal) {
            match p_level(c, t, expr_level(), pos + 2) {
                Some((e, p)) => match semi_end(t, p) {
                    Some(q) => Some((StmtModel::Assign(name, e), q)),
                    None => None,
                },
                None => None,
            }
        } else {
            None
        };
        let call = if is_kind(t, pos + 1, NotPythonLangToken::LParen) {
            let (args, p) = p_items(c, t, pos + 2);
            if is_kind(t, p, NotPythonLangToken::RParen) {
                match semi_end(t, p + 1) {
                    Some(q) => Some((StmtModel::Call(name, args), q)),
                    None => None,
                }
            } else {
                None
            }
        } else {
            None
        };
        if decl is Some {
            decl
        } else if assign is Some {
            assign
        } else {
            call
        }
    }
}

/// A statement starting at `pos`.
pub open spec fn p_stmt(c: Seq<char>, t: Seq<Token>, pos: int) -> Option<(StmtModel, int)>
    decreases t.len() - pos, 2nat,
{
    if pos < 0 || pos >= t.len() {
        None
    } else {
        let k = t[pos].kind;
        if k == NotPythonLangToken::KwPass {
            match semi_end(t, pos + 1) {
                Some(q) => Some((StmtModel::Pass, q)),
                None => None,
            }
        } else if k == NotPythonLangToken::KwBreak {
            match semi_end(t, pos + 1) {
                Some(q) => Some((StmtModel::Break, q)),
                None => None,
            }
        } else if k == NotPythonLangToken::KwContinue {
            match semi_end(t, pos + 1) {
                Some(q) => Some((StmtModel::Continue, q)),
                None => None,
            }
        } else if k == NotPythonLangToken::KwReturn {
            let (e, p1) = match p_level(c, t, expr_level(), pos + 1) {
                Some((e, p)) => (Some(e), p),
                None => (None, pos + 1),
            };
            match semi_end(t, p1) {
                Some(q) => Some((StmtModel::Return(e), q)),
                None => None,
            }
        } else if k == NotPythonLangToken::KwIf {
            p_if(c, t, pos)
        } else if k == NotPythonLangToken::KwLoop {
            if is_kind(t, pos + 1, NotPythonLangToken::Colon) && is_kind(
                t,
                pos + 2,
                NotPythonLangToken::Newline,
            ) {
                let (body, p) = p_block(c, t, pos + 3);
                if is_kind(t, p, NotPythonLangToken::KwEnd) && line_end(t, p + 1) is Some {
                    Some(
                        (
                            StmtModel::Loop(Box::new(StmtModel::Block(body))),
                            line_end(t, p + 1).unwrap(),
                        ),
                    )
                } else {
                    None
                }
            } else {
                None
            }
        } else if k == NotPythonLangToken::KwDef {
            p_def(c, t, pos)
        } else if k == NotPythonLangToken::Identifier {
            p_named(c, t, pos)
        } else {
            None
        }
    }
}

/// A whole program: statements up to the end of the input, as one block.
pub open spec fn p_program(c: Seq<char>, t: Seq<Token>) -> Option<StmtModel> {
    let (stmts, p) = p_block(c, t, 0);
    if p == t.len() {
        Some(StmtModel::Block(stmts))
    } else {
        None
    }
}


/// The comparison operator that the text `sym` is read as at the comparison level of
/// the grammar: `sym` lexes to exactly one token, and the level gives its operator.
pub open spec fn comparison_of_symbol(sym: Seq<char>) -> Option<BinaryOp> {
    if lex(sym).len() == 1 {
        level_binop(4, lex(sym)[0].kind)
    } else {
        None
    }
}

proof fn lemma_symbol_token(sym: Seq<char>)
    requires
        1 <= sym.len() <= 2,
        sym[0] == '<' || sym[0] == '>' || sym[0] == '=' || sym[0] == '!',
        sym.len() == 2 ==> sym[1] == '=',
    ensures
        lex(sym).len() == 1,
        crate::lexer::comparison_kinds(sym[0]) matches Some((one, two))
            && lex(sym)[0].kind == (if sym.len() == 2 { two } else { one }),
{
    assert(lex_from(sym, sym.len() as int) == Seq::<Token>::empty());
    assert(lex(sym) =~= seq![crate::lexer::scan(sym, 0).0->0] + lex_from(sym, sym.len() as int));
}

/// The law of the comparison symbols: each of `<`, `>`, `<=`, `>=`, `==` and `!=` is
/// read as its own operator, and comparing two integers with the operator read from the
/// symbol gives the mathematical comparison.
pub proof fn lemma_comparison_symbols(a: i64, b: i64)
    ensures
        comparison_of_symbol("<"@) matches Some(op) && spec_binary_op(ValueModel::Int(a), ValueModel::Int(b), op)
            == Ok::<ValueModel, Seq<char>>(ValueModel::Bool(a < b)),
        comparison_of_symbol(">"@) matches Some(op) && spec_binary_op(ValueModel::Int(a), ValueModel::Int(b), op)
            == Ok::<ValueModel, Seq<char>>(ValueModel::Bool(a > b)),
        comparison_of_symbol("<="@) matches Some(op) && spec_binary_op(ValueModel::Int(a), ValueModel::Int(b), op)
            == Ok::<ValueModel, Seq<char>>(ValueModel::Bool(a <= b)),
        comparison_of_symbol(">="@) matches Some(op) && spec_binary_op(ValueModel::Int(a), ValueModel::Int(b), op)
            == Ok::<ValueModel, Seq<char>>(ValueModel::Bool(a >= b)),
        comparison_of_symbol("=="@) matches Some(op) && spec_binary_op(ValueModel::Int(a), ValueModel::Int(b), op)
            == Ok::<ValueModel, Seq<char>>(ValueModel::Bool(a == b)),
        comparison_of_symbol("!="@) matches Some(op) && spec_binary_op(ValueModel::Int(a), ValueModel::Int(b), op)
            == Ok::<ValueModel, Seq<char>>(ValueModel::Bool(a != b)),
{
    reveal_strlit("<");
    reveal_strlit(">");
    reveal_strlit("<=");
    reveal_strlit(">=");
    reveal_strlit("==");
    reveal_strlit("!=");
    lemma_symbol_token("<"@);
    lemma_symbol_token(">"@);
    lemma_symbol_token("<="@);
    lemma_symbol_token(">="@);
    lemma_symbol_token("=="@);
    lemma_symbol_token("!="@);
}

} // verus!
