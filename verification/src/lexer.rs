use vstd::prelude::*;

verus! {

/// The kinds of tokens of the language.
#[derive(Clone, Copy, Debug, PartialEq, Eq, Structural)]
pub enum NotPythonLangToken {
    Int,
    Float,
    StringLiteral,
    Identifier,
    KwTrue,
    KwFalse,
    KwNone,
    KwIn,
    KwNot,
    KwAnd,
    KwOr,
    KwPass,
    KwBreak,
    KwContinue,
    KwReturn,
    KwIf,
    KwElif,
    KwElse,
    KwEnd,
    KwLoop,
    KwDef,
    KwPure,
    Comma,
    LBracket,
    RBracket,
    LBrace,
    RBrace,
    LParen,
    RParen,
    Colon,
    ColonEqual,
    Equal,
    EqEqual,
    NotEqual,
    Less,
    Greater,
    LessEqual,
    GreaterEqual,
    Plus,
    Minus,
    Star,
    Slash,
    Percent,
    Semi,
    Newline,
    LexError,
}

/// A token: its kind and the character range `start..end` of the source that it
/// carries (the digits of a number, the name of an identifier or keyword, the text
/// between the quotes of a string literal, the characters of an operator).
#[derive(Clone, Copy, Debug, PartialEq, Eq, Structural)]
pub struct Token {
    pub kind: NotPythonLangToken,
    pub start: usize,
    pub end: usize,
}

pub open spec fn is_digit(c: char) -> bool {
    '0' <= c && c <= '9'
}

pub open spec fn is_ident_start(c: char) -> bool {
    ('a' <= c && c <= 'z') || ('A' <= c && c <= 'Z') || c == '_'
}

pub open spec fn is_ident_char(c: char) -> bool {
    is_ident_start(c) || is_digit(c)
}

pub open spec fn is_blank(c: char) -> bool {
    c == ' ' || c == '\t' || c == '\r'
}

/// The end of the run of digits that starts at `i`.
pub open spec fn digits_end(chars: Seq<char>, i: int) -> int
    decreases chars.len() - i,
{
    if 0 <= i < chars.len() && is_digit(chars[i]) {
        digits_end(chars, i + 1)
    } else {
        i
    }
}

/// The end of the run of identifier characters that starts at `i`.
pub open spec fn ident_end(chars: Seq<char>, i: int) -> int
    decreases chars.len() - i,
{
    if 0 <= i < chars.len() && is_ident_char(chars[i]) {
        ident_end(chars, i + 1)
    } else {
        i
    }
}

/// The first index from `i` on that holds a quote or a line break, or the end.
pub open spec fn string_end(chars: Seq<char>, i: int) -> int
    decreases chars.len() - i,
{
    if 0 <= i < chars.len() && chars[i] != '"' && chars[i] != '\n' {
        string_end(chars, i + 1)
    } else {
        i
    }
}

/// The keyword that a word spells, if any.
pub open spec fn keyword_of(w: Seq<char>) -> Option<NotPythonLangToken> {
    if w == seq!['T', 'r', 'u', 'e'] {
        Some(NotPythonLangToken::KwTrue)
    } else if w == seq!['F', 'a', 'l', 's', 'e'] {
        Some(NotPythonLangToken::KwFalse)
    } else if w == seq!['N', 'o', 'n', 'e'] {
        Some(NotPythonLangToken::KwNone)
    } else if w == seq!['i', 'n'] {
        Some(NotPythonLangToken::KwIn)
    } else if w == seq!['n', 'o', 't'] {
        Some(NotPythonLangToken::KwNot)
    } else if w == seq!['a', 'n', 'd'] {
        Some(NotPythonLangToken::KwAnd)
    } else if w == seq!['o', 'r'] {
        Some(NotPythonLangToken::KwOr)
    } else if w == seq!['p', 'a', 's', 's'] {
        Some(NotPythonLangToken::KwPass)
    } else if w == seq!['b', 'r', 'e', 'a', 'k'] {
        Some(NotPythonLangToken::KwBreak)
    } else if w == seq!['c', 'o', 'n', 't', 'i', 'n', 'u', 'e'] {
        Some(NotPythonLangToken::KwContinue)
    } else if w == seq!['r', 'e', 't', 'u', 'r', 'n'] {
        Some(NotPythonLangToken::KwReturn)
    } else if w == seq!['i', 'f'] {
        Some(NotPythonLangToken::KwIf)
    } else if w == seq!['e', 'l', 'i', 'f'] {
        Some(NotPythonLangToken::KwElif)
    } else if w == seq!['e', 'l', 's', 'e'] {
        Some(NotPythonLangToken::KwElse)
    } else if w == seq!['e', 'n', 'd'] {
        Some(NotPythonLangToken::KwEnd)
    } else if w == seq!['l', 'o', 'o', 'p'] {
        Some(NotPythonLangToken::KwLoop)
    } else if w == seq!['d', 'e', 'f'] {
        Some(NotPythonLangToken::KwDef)
    } else if w == seq!['p', 'u', 'r', 'e'] {
        Some(NotPythonLangToken::KwPure)
    } else {
        None
    }
}

/// The kind of a one-character punctuation token.
pub open spec fn single_char_kind(c: char) -> Option<NotPythonLangToken> {
    if c == '+' {
        Some(NotPythonLangToken::Plus)
    } else if c == '-' {
        Some(NotPythonLangToken::Minus)
    } else if c == '*' {
        Some(NotPythonLangToken::Star)
    } else if c == '/' {
        Some(NotPythonLangToken::Slash)
    } else if c == '%' {
        Some(NotPythonLangToken::Percent)
    } else if c == ';' {
        Some(NotPythonLangToken::Semi)
    } else if c == ',' {
        Some(NotPythonLangToken::Comma)
    } else if c == '(' {
        Some(NotPythonLangToken::LParen)
    } else if c == ')' {
        Some(NotPythonLangToken::RParen)
    } else if c == '[' {
        Some(NotPythonLangToken::LBracket)
    } else if c == ']' {
        Some(NotPythonLangToken::RBracket)
    } else if c == '{' {
        Some(NotPythonLangToken::LBrace)
    } else if c == '}' {
        Some(NotPythonLangToken::RBrace)
    } else if c == '\n' {
        Some(NotPythonLangToken::Newline)
    } else {
        None
    }
}

/// The kind of an operator whose first character is `c`, given whether `=` follows it:
/// the one-character and the two-character form.
pub open spec fn comparison_kinds(c: char) -> Option<(NotPythonLangToken, NotPythonLangToken)> {
    if c == ':' {
        Some((NotPythonLangToken::Colon, NotPythonLangToken::ColonEqual))
    } else if c == '=' {
        Some((NotPythonLangToken::Equal, NotPythonLangToken::EqEqual))
    } else if c == '!' {
        Some((NotPythonLangToken::LexError, NotPythonLangToken::NotEqual))
    } else if c == '<' {
        Some((NotPythonLangToken::Less, NotPythonLangToken::LessEqual))
    } else if c == '>' {
        Some((NotPythonLangToken::Greater, NotPythonLangToken::GreaterEqual))
    } else {
        None
    }
}

pub open spec fn tok(kind: NotPythonLangToken, start: int, end: int) -> Token {
    Token { kind, start: start as usize, end: end as usize }
}

/// The token (if any) that starts at `pos` under longest match, and the position after it.
pub open spec fn scan(chars: Seq<char>, pos: int) -> (Option<Token>, int) {
    let c = chars[pos];
    if is_blank(c) {
        (None, pos + 1)
    } else if is_digit(c) {
        let e = digits_end(chars, pos);
        if e + 1 < chars.len() && chars[e] == '.' && is_digit(chars[e + 1]) {
            let e2 = digits_end(chars, e + 1);
            (Some(tok(NotPythonLangToken::Float, pos, e2)), e2)
        } else {
            (Some(tok(NotPythonLangToken::Int, pos, e)), e)
        }
    } else if is_ident_start(c) {
        let e = ident_end(chars, pos);
        let kind = match keyword_of(chars.subrange(pos, e)) {
            Some(k) => k,
            None => NotPythonLangToken::Identifier,
        };
        (Some(tok(kind, pos, e)), e)
    } else if c == '"' {
        let e = string_end(chars, pos + 1);
        if e < chars.len() && chars[e] == '"' {
            (Some(tok(NotPythonLangToken::StringLiteral, pos + 1, e)), e + 1)
        } else {
            (Some(tok(NotPythonLangToken::LexError, pos, pos + 1)), pos + 1)
        }
    } else if comparison_kinds(c) is Some {
        let (one, two) = comparison_kinds(c).unwrap();
        if pos + 1 < chars.len() && chars[pos + 1] == '=' {
            (Some(tok(two, pos, pos + 2)), pos + 2)
        } else {
            (Some(tok(one, pos, pos + 1)), pos + 1)
        }
    } else if single_char_kind(c) is Some {
        (Some(tok(single_char_kind(c).unwrap(), pos, pos + 1)), pos + 1)
    } else {
        (Some(tok(NotPythonLangToken::LexError, pos, pos + 1)), pos + 1)
    }
}

/// The tokens of `chars` from position `pos` on.
pub open spec fn lex_from(chars: Seq<char>, pos: int) -> Seq<Token>
    decreases chars.len() - pos,
{
    if pos < 0 || pos >= chars.len() {
        seq![]
    } else {
        let (t, next) = scan(chars, pos);
        if next <= pos || next > chars.len() {
            seq![]
        } else {
            match t {
                Some(t) => seq![t] + lex_from(chars, next),
                None => lex_from(chars, next),
            }
        }
    }
}

/// The tokens of a source text.
pub open spec fn lex(chars: Seq<char>) -> Seq<Token> {
    lex_from(chars, 0)
}

/// Every token of a lexed text carries a range within the text.
pub open spec fn tokens_in_bounds(tokens: Seq<Token>, n: int) -> bool {
    forall|i: int| 0 <= i < tokens.len() ==> #[trigger] tokens[i].start <= tokens[i].end <= n
}

fn digits_end_exec(chars: &Vec<char>, i: usize) -> (e: usize)
    requires
        i <= chars@.len(),
    ensures
        e == digits_end(chars@, i as int),
        i <= e <= chars@.len(),
        i < chars@.len() && is_digit(chars@[i as int]) ==> i < e,
{
    let mut j = i;
    while j < chars.len() && '0' <= chars[j] && chars[j] <= '9'
        invariant
            i <= j <= chars@.len(),
            digits_end(chars@, j as int) == digits_end(chars@, i as int),
        decreases chars@.len() - j,
    {
        j = j + 1;
    }
    j
}

fn ident_end_exec(chars: &Vec<char>, i: usize) -> (e: usize)
    requires
        i <= chars@.len(),
    ensures
        e == ident_end(chars@, i as int),
        i <= e <= chars@.len(),
        i < chars@.len() && is_ident_char(chars@[i as int]) ==> i < e,
{
    let mut j = i;
    while j < chars.len() && (('a' <= chars[j] && chars[j] <= 'z') || ('A' <= chars[j]
        && chars[j] <= 'Z') || chars[j] == '_' || ('0' <= chars[j] && chars[j] <= '9'))
        invariant
            i <= j <= chars@.len(),
            ident_end(chars@, j as int) == ident_end(chars@, i as int),
        decreases chars@.len() - j,
    {
        j = j + 1;
    }
    j
}

fn string_end_exec(chars: &Vec<char>, i: usize) -> (e: usize)
    requires
        i <= chars@.len(),
    ensures
        e == string_end(chars@, i as int),
        i <= e <= chars@.len(),
{
    let mut j = i;
    while j < chars.len() && chars[j] != '"' && chars[j] != '\n'
        invariant
            i <= j <= chars@.len(),
            string_end(chars@, j as int) == string_end(chars@, i as int),
        decreases chars@.len() - j,
    {
        j = j + 1;
    }
    j
}

/// Whether `chars[start..end]` spells `word`.
pub fn word_eq(chars: &Vec<char>, start: usize, end: usize, word: &[char]) -> (r: bool)
    requires
        start <= end <= chars@.len(),
    ensures
        r == (chars@.subrange(start as int, end as int) == word@),
{
    if end - start != word.len() {
        proof {
            if chars@.subrange(start as int, end as int) == word@ {
                assert(chars@.subrange(start as int, end as int).len() == word@.len());
            }
        }
        return false;
    }
    let mut k: usize = 0;
    while k < word.len()
        invariant
            start <= end <= chars@.len(),
            end - start == word@.len(),
            0 <= k <= word@.len(),
            forall|j: int| 0 <= j < k ==> chars@[start + j] == word@[j],
        decreases word@.len() - k,
    {
        if chars[start + k] != word[k] {
            proof {
                if chars@.subrange(start as int, end as int) == word@ {
                    assert(chars@.subrange(start as int, end as int)[k as int] == word@[k as int]);
                }
            }
            return false;
        }
        k = k + 1;
    }
    assert(chars@.subrange(start as int, end as int) =~= word@);
    true
}

fn keyword_of_exec(chars: &Vec<char>, start: usize, end: usize) -> (r: Option<NotPythonLangToken>)
    requires
        start <= end <= chars@.len(),
    ensures
        r == keyword_of(chars@.subrange(start as int, end as int)),
{
    let ghost w = chars@.subrange(start as int, end as int);
    let kw_true = ['T', 'r', 'u', 'e'];
    assert(kw_true@ =~= seq!['T', 'r', 'u', 'e']);
    if word_eq(chars, start, end, &kw_true) {
        return Some(NotPythonLangToken::KwTrue);
    }
    let kw_false = ['F', 'a', 'l', 's', 'e'];
    assert(kw_false@ =~= seq!['F', 'a', 'l', 's', 'e']);
    if word_eq(chars, start, end, &kw_false) {
        return Some(NotPythonLangToken::KwFalse);
    }
    let kw_none = ['N', 'o', 'n', 'e'];
    assert(kw_none@ =~= seq!['N', 'o', 'n', 'e']);
    if word_eq(chars, start, end, &kw_none) {
        return Some(NotPythonLangToken::KwNone);
    }
    let kw_in = ['i', 'n'];
    assert(kw_in@ =~= seq!['i', 'n']);
    if word_eq(chars, start, end, &kw_in) {
        return Some(NotPythonLangToken::KwIn);
    }
    let kw_not = ['n', 'o', 't'];
    assert(kw_not@ =~= seq!['n', 'o', 't']);
    if word_eq(chars, start, end, &kw_not) {
        return Some(NotPythonLangToken::KwNot);
    }
    let kw_and = ['a', 'n', 'd'];
    assert(kw_and@ =~= seq!['a', 'n', 'd']);
    if word_eq(chars, start, end, &kw_and) {
        return Some(NotPythonLangToken::KwAnd);
    }
    let kw_or = ['o', 'r'];
    assert(kw_or@ =~= seq!['o', 'r']);
    if word_eq(chars, start, end, &kw_or) {
        return Some(NotPythonLangToken::KwOr);
    }
    let kw_pass = ['p', 'a', 's', 's'];
    assert(kw_pass@ =~= seq!['p', 'a', 's', 's']);
    if word_eq(chars, start, end, &kw_pass) {
        return Some(NotPythonLangToken::KwPass);
    }
    let kw_break = ['b', 'r', 'e', 'a', 'k'];
    assert(kw_break@ =~= seq!['b', 'r', 'e', 'a', 'k']);
    if word_eq(chars, start, end, &kw_break) {
        return Some(NotPythonLangToken::KwBreak);
    }
    let kw_continue = ['c', 'o', 'n', 't', 'i', 'n', 'u', 'e'];
    assert(kw_continue@ =~= seq!['c', 'o', 'n', 't', 'i', 'n', 'u', 'e']);
    if word_eq(chars, start, end, &kw_continue) {
        return Some(NotPythonLangToken::KwContinue);
    }
    let kw_return = ['r', 'e', 't', 'u', 'r', 'n'];
    assert(kw_return@ =~= seq!['r', 'e', 't', 'u', 'r', 'n']);
    if word_eq(chars, start, end, &kw_return) {
        return Some(NotPythonLangToken::KwReturn);
    }
    let kw_if = ['i', 'f'];
    assert(kw_if@ =~= seq!['i', 'f']);
    if word_eq(chars, start, end, &kw_if) {
        return Some(NotPythonLangToken::KwIf);
    }
    let kw_elif = ['e', 'l', 'i', 'f'];
    assert(kw_elif@ =~= seq!['e', 'l', 'i', 'f']);
    if word_eq(chars, start, end, &kw_elif) {
        return Some(NotPythonLangToken::KwElif);
    }
    let kw_else = ['e', 'l', 's', 'e'];
    assert(kw_else@ =~= seq!['e', 'l', 's', 'e']);
    if word_eq(chars, start, end, &kw_else) {
        return Some(NotPythonLangToken::KwElse);
    }
    let kw_end = ['e', 'n', 'd'];
    assert(kw_end@ =~= seq!['e', 'n', 'd']);
    if word_eq(chars, start, end, &kw_end) {
        return Some(NotPythonLangToken::KwEnd);
    }
    let kw_loop = ['l', 'o', 'o', 'p'];
    assert(kw_loop@ =~= seq!['l', 'o', 'o', 'p']);
    if word_eq(chars, start, end, &kw_loop) {
        return Some(NotPythonLangToken::KwLoop);
    }
    let kw_def = ['d', 'e', 'f'];
    assert(kw_def@ =~= seq!['d', 'e', 'f']);
    if word_eq(chars, start, end, &kw_def) {
        return Some(NotPythonLangToken::KwDef);
    }
    let kw_pure = ['p', 'u', 'r', 'e'];
    assert(kw_pure@ =~= seq!['p', 'u', 'r', 'e']);
    if word_eq(chars, start, end, &kw_pure) {
        return Some(NotPythonLangToken::KwPure);
    }
    None
}

fn single_char_kind_exec(c: char) -> (r: Option<NotPythonLangToken>)
    ensures
        r == single_char_kind(c),
{
    if c == '+' {
        Some(NotPythonLangToken::Plus)
    } else if c == '-' {
        Some(NotPythonLangToken::Minus)
    } else if c == '*' {
        Some(NotPythonLangToken::Star)
    } else if c == '/' {
        Some(NotPythonLangToken::Slash)
    } else if c == '%' {
        Some(NotPythonLangToken::Percent)
    } else if c == ';' {
        Some(NotPythonLangToken::Semi)
    } else if c == ',' {
        Some(NotPythonLangToken::Comma)
    } else if c == '(' {
        Some(NotPythonLangToken::LParen)
    } else if c == ')' {
        Some(NotPythonLangToken::RParen)
    } else if c == '[' {
        Some(NotPythonLangToken::LBracket)
    } else if c == ']' {
        Some(NotPythonLangToken::RBracket)
    } else if c == '{' {
        Some(NotPythonLangToken::LBrace)
    } else if c == '}' {
        Some(NotPythonLangToken::RBrace)
    } else if c == '\n' {
        Some(NotPythonLangToken::Newline)
    } else {
        None
    }
}

fn comparison_kinds_exec(c: char) -> (r: Option<(NotPythonLangToken, NotPythonLangToken)>)
    ensures
        r == comparison_kinds(c),
{
    if c == ':' {
        Some((NotPythonLangToken::Colon, NotPythonLangToken::ColonEqual))
    } else if c == '=' {
        Some((NotPythonLangToken::Equal, NotPythonLangToken::EqEqual))
    } else if c == '!' {
        Some((NotPythonLangToken::LexError, NotPythonLangToken::NotEqual))
    } else if c == '<' {
        Some((NotPythonLangToken::Less, NotPythonLangToken::LessEqual))
    } else if c == '>' {
        Some((NotPythonLangToken::Greater, NotPythonLangToken::GreaterEqual))
    } else {
        None
    }
}

fn scan_exec(chars: &Vec<char>, pos: usize) -> (r: (Option<Token>, usize))
    requires
        pos < chars@.len(),
    ensures
        (r.0, r.1 as int) == scan(chars@, pos as int),
        pos < r.1 <= chars@.len(),
        r.0 matches Some(t) ==> t.start <= t.end <= chars@.len(),
{
    let n = chars.len();
    let c = chars[pos];
    if c == ' ' || c == '\t' || c == '\r' {
        (None, pos + 1)
    } else if '0' <= c && c <= '9' {
        let e = digits_end_exec(chars, pos);
        if e < n && e + 1 < n && chars[e] == '.' && '0' <= chars[e + 1] && chars[e + 1] <= '9' {
            let e2 = digits_end_exec(chars, e + 1);
            (Some(Token { kind: NotPythonLangToken::Float, start: pos, end: e2 }), e2)
        } else {
            (Some(Token { kind: NotPythonLangToken::Int, start: pos, end: e }), e)
        }
    } else if ('a' <= c && c <= 'z') || ('A' <= c && c <= 'Z') || c == '_' {
        let e = ident_end_exec(chars, pos);
        let kind = match keyword_of_exec(chars, pos, e) {
            Some(k) => k,
            None => NotPythonLangToken::Identifier,
        };
        (Some(Token { kind, start: pos, end: e }), e)
    } else if c == '"' {
        let e = string_end_exec(chars, pos + 1);
        if e < chars.len() && chars[e] == '"' {
            (Some(Token { kind: NotPythonLangToken::StringLiteral, start: pos + 1, end: e }), e + 1)
        } else {
            (Some(Token { kind: NotPythonLangToken::LexError, start: pos, end: pos + 1 }), pos + 1)
        }
    } else {
        match comparison_kinds_exec(c) {
            Some((one, two)) => {
                if pos + 1 < chars.len() && chars[pos + 1] == '=' {
                    (Some(Token { kind: two, start: pos, end: pos + 2 }), pos + 2)
                } else {
                    (Some(Token { kind: one, start: pos, end: pos + 1 }), pos + 1)
                }
            },
            None => {
                match single_char_kind_exec(c) {
                    Some(k) => (Some(Token { kind: k, start: pos, end: pos + 1 }), pos + 1),
                    None => (
                        Some(Token { kind: NotPythonLangToken::LexError, start: pos, end: pos + 1 }),
                        pos + 1,
                    ),
                }
            },
        }
    }
}

/// The characters of a string, in order.
pub fn chars_of(src: &str) -> (chars: Vec<char>)
    ensures
        chars@ == src@,
{
    let n = src.unicode_len();
    let mut chars: Vec<char> = Vec::new();
    let mut i: usize = 0;
    while i < n
        invariant
            n == src@.len(),
            0 <= i <= n,
            chars@ == src@.take(i as int),
        decreases n - i,
    {
        let c = src.get_char(i);
        chars.push(c);
        i = i + 1;
        assert(chars@ =~= src@.take(i as int));
    }
    assert(src@.take(n as int) =~= src@);
    chars
}

/// Splits source characters into tokens: blanks are skipped, and everything else
/// becomes the longest token that starts there (a character that starts none becomes
/// a `LexError` token).
pub fn tokenize(chars: &Vec<char>) -> (tokens: Vec<Token>)
    ensures
        tokens@ == lex(chars@),
        tokens_in_bounds(tokens@, chars@.len() as int),
{
    let mut tokens: Vec<Token> = Vec::new();
    let mut pos: usize = 0;
    while pos < chars.len()
        invariant
            0 <= pos <= chars@.len(),
            tokens@ + lex_from(chars@, pos as int) == lex(chars@),
            tokens_in_bounds(tokens@, chars@.len() as int),
        decreases chars@.len() - pos,
    {
        let (t, next) = scan_exec(chars, pos);
        let ghost old_tokens = tokens@;
        match t {
            Some(t) => {
                tokens.push(t);
                assert(old_tokens + (seq![t] + lex_from(chars@, next as int)) =~= tokens@
                    + lex_from(chars@, next as int));
            },
            None => {},
        }
        pos = next;
    }
    assert(lex_from(chars@, pos as int) =~= seq![]);
    assert(tokens@ + seq![] =~= tokens@);
    tokens
}

} // verus!
