//! The command parser.
//!
//! A line has the shape `[name =] expr`, where `expr` is an arithmetic
//! expression over `+ - * / ^`, parentheses, unsigned integer literals, and
//! variable names. Precedence, low to high: `+ -` (left-associative), `* /`
//! (left-associative), `^` (right-associative); so `1+2+3` parses as
//! `(1+2)+3` and `2^3^2` as `2^(3^2)`.
//!
//! The grammar is stated as spec functions: a lexer over the character
//! sequence and a recursive-descent parser over the token sequence. The
//! executable parser is proved to return exactly what those functions say,
//! so parsing is a pure, deterministic function of the input string.

use vstd::prelude::*;
use vstd::string::StrSliceExecFns;

use crate::calc::syntax::{BinOp, Command, CommandV, Expression, ExprV, ParseError};

verus! {

/// A lexical token of the command grammar.
#[derive(Debug, PartialEq, Eq)]
pub enum Token {
    /// An unsigned integer literal.
    Num(u64),
    /// A variable name.
    Ident(String),
    /// `+`
    Plus,
    /// `-`
    Minus,
    /// `*`
    Star,
    /// `/`
    Slash,
    /// `^`
    Caret,
    /// `(`
    LParen,
    /// `)`
    RParen,
    /// `=`
    Equals,
}

/// The mathematical view of a [`Token`].
pub enum TokenV {
    /// An unsigned integer literal.
    Num(u64),
    /// A variable name.
    Ident(Seq<char>),
    /// `+`
    Plus,
    /// `-`
    Minus,
    /// `*`
    Star,
    /// `/`
    Slash,
    /// `^`
    Caret,
    /// `(`
    LParen,
    /// `)`
    RParen,
    /// `=`
    Equals,
}

impl View for Token {
    type V = TokenV;

    open spec fn view(&self) -> TokenV {
        match self {
            Token::Num(n) => TokenV::Num(*n),
            Token::Ident(x) => TokenV::Ident(x@),
            Token::Plus => TokenV::Plus,
            Token::Minus => TokenV::Minus,
            Token::Star => TokenV::Star,
            Token::Slash => TokenV::Slash,
            Token::Caret => TokenV::Caret,
            Token::LParen => TokenV::LParen,
            Token::RParen => TokenV::RParen,
            Token::Equals => TokenV::Equals,
        }
    }
}

/// The views of a token sequence.
pub open spec fn toks_view(ts: Seq<Token>) -> Seq<TokenV> {
    ts.map_values(|t: Token| t@)
}

/// Blank characters between tokens.
pub open spec fn is_space(c: char) -> bool {
    c == ' ' || c == '\t'
}

/// A decimal digit.
pub open spec fn is_digit(c: char) -> bool {
    '0' <= c && c <= '9'
}

/// The value of a decimal digit.
pub open spec fn digit_of(c: char) -> nat {
    ((c as int) - ('0' as int)) as nat
}

/// A character that may start a variable name: a letter or an underscore.
pub open spec fn is_ident_start(c: char) -> bool {
    ('a' <= c && c <= 'z') || ('A' <= c && c <= 'Z') || c == '_'
}

/// A character that may continue a variable name.
pub open spec fn is_ident_char(c: char) -> bool {
    is_ident_start(c) || is_digit(c)
}

/// The index just past the run of digits that starts at `i`.
pub open spec fn digits_end(s: Seq<char>, i: int) -> int
    decreases s.len() - i when 0 <= i <= s.len()
{
    if i < s.len() && is_digit(s[i]) {
        digits_end(s, i + 1)
    } else {
        i
    }
}

/// The numeric value of the digits `s[i..j]`, most significant first.
pub open spec fn digits_val(s: Seq<char>, i: int, j: int) -> nat
    decreases j - i when i <= j
{
    if i < j {
        digits_val(s, i, j - 1) * 10 + digit_of(s[j - 1])
    } else {
        0
    }
}

/// The index just past the run of name characters that starts at `i`.
pub open spec fn ident_end(s: Seq<char>, i: int) -> int
    decreases s.len() - i when 0 <= i <= s.len()
{
    if i < s.len() && is_ident_char(s[i]) {
        ident_end(s, i + 1)
    } else {
        i
    }
}

proof fn lemma_digits_end_bounds(s: Seq<char>, i: int)
    requires
        0 <= i <= s.len(),
    ensures
        i <= digits_end(s, i) <= s.len(),
    decreases s.len() - i,
{
    if i < s.len() && is_digit(s[i]) {
        lemma_digits_end_bounds(s, i + 1);
    }
}

proof fn lemma_ident_end_bounds(s: Seq<char>, i: int)
    requires
        0 <= i <= s.len(),
    ensures
        i <= ident_end(s, i) <= s.len(),
    decreases s.len() - i,
{
    if i < s.len() && is_ident_char(s[i]) {
        lemma_ident_end_bounds(s, i + 1);
    }
}

/// The tokens of `s` from position `i` on, or `None` when some character (or
/// an oversized literal) does not fit the grammar. `fuel` only bounds the
/// recursion; [`lex`] supplies enough of it for any input.
pub open spec fn lex_from(s: Seq<char>, i: int, fuel: nat) -> Option<Seq<TokenV>>
    decreases fuel,
{
    if fuel == 0 {
        Option::None
    } else if i >= s.len() || i < 0 {
        Option::Some(Seq::empty())
    } else {
        let c = s[i];
        if is_space(c) {
            lex_from(s, i + 1, (fuel - 1) as nat)
        } else if is_digit(c) {
            let j = digits_end(s, i);
            let v = digits_val(s, i, j);
            if v > u64::MAX {
                Option::None
            } else {
                match lex_from(s, j, (fuel - 1) as nat) {
                    Option::Some(rest) => Option::Some(seq![TokenV::Num(v as u64)] + rest),
                    Option::None => Option::None,
                }
            }
        } else if is_ident_start(c) {
            let j = ident_end(s, i);
            match lex_from(s, j, (fuel - 1) as nat) {
                Option::Some(rest) => Option::Some(
                    seq![TokenV::Ident(s.subrange(i, j))] + rest,
                ),
                Option::None => Option::None,
            }
        } else {
            let tok = if c == '+' {
                Option::Some(TokenV::Plus)
            } else if c == '-' {
                Option::Some(TokenV::Minus)
            } else if c == '*' {
                Option::Some(TokenV::Star)
            } else if c == '/' {
                Option::Some(TokenV::Slash)
            } else if c == '^' {
                Option::Some(TokenV::Caret)
            } else if c == '(' {
                Option::Some(TokenV::LParen)
            } else if c == ')' {
                Option::Some(TokenV::RParen)
            } else if c == '=' {
                Option::Some(TokenV::Equals)
            } else {
                Option::None
            };
            match tok {
                Option::Some(t) => match lex_from(s, i + 1, (fuel - 1) as nat) {
                    Option::Some(rest) => Option::Some(seq![t] + rest),
                    Option::None => Option::None,
                },
                Option::None => Option::None,
            }
        }
    }
}

/// The token sequence of a whole line, or `None` when it does not lex.
pub open spec fn lex(s: Seq<char>) -> Option<Seq<TokenV>> {
    lex_from(s, 0, (s.len() + 1) as nat)
}

/// The operator of a `*` or `/` token.
pub open spec fn term_op(tok: TokenV) -> Option<BinOp> {
    match tok {
        TokenV::Star => Option::Some(BinOp::Multiply),
        TokenV::Slash => Option::Some(BinOp::Divide),
        _ => Option::None,
    }
}

/// The operator of a `+` or `-` token.
pub open spec fn expr_op(tok: TokenV) -> Option<BinOp> {
    match tok {
        TokenV::Plus => Option::Some(BinOp::Add),
        TokenV::Minus => Option::Some(BinOp::Subtract),
        _ => Option::None,
    }
}

/// Parses an atom at `i`: a literal, a name, or a parenthesised expression.
/// Each parse function yields the tree and the index just past it, or `None`
/// when the tokens do not fit its rule; `fuel` only bounds the recursion, and
/// [`parse_command_spec`] supplies enough of it for any token sequence.
pub open spec fn parse_atom(t: Seq<TokenV>, i: int, fuel: nat) -> Option<(ExprV, int)>
    decreases fuel,
{
    if fuel == 0 {
        Option::None
    } else if 0 <= i < t.len() {
        match t[i] {
            TokenV::Num(n) => Option::Some((ExprV::Num(n), i + 1)),
            TokenV::Ident(x) => Option::Some((ExprV::Variable(x), i + 1)),
            TokenV::LParen => match parse_expr(t, i + 1, (fuel - 1) as nat) {
                Option::Some((e, j)) => if 0 <= j < t.len() && t[j] is RParen {
                    Option::Some((e, j + 1))
                } else {
                    Option::None
                },
                Option::None => Option::None,
            },
            _ => Option::None,
        }
    } else {
        Option::None
    }
}

/// Parses a factor at `i`: an atom, optionally raised by `^` to a factor.
/// `^` is right-associative: the right operand extends as far as it can.
pub open spec fn parse_factor(t: Seq<TokenV>, i: int, fuel: nat) -> Option<(ExprV, int)>
    decreases fuel,
{
    if fuel == 0 {
        Option::None
    } else {
        match parse_atom(t, i, (fuel - 1) as nat) {
            Option::Some((a, j)) => if 0 <= j < t.len() && t[j] is Caret {
                match parse_factor(t, j + 1, (fuel - 1) as nat) {
                    Option::Some((b, k)) => Option::Some(
                        (
                            ExprV::BinOp { op: BinOp::Power, lhs: Box::new(a), rhs: Box::new(b) },
                            k,
                        ),
                    ),
                    Option::None => Option::None,
                }
            } else {
                Option::Some((a, j))
            },
            Option::None => Option::None,
        }
    }
}

/// Extends `acc` to the left-associated chain of `*` and `/` factors at `j`.
pub open spec fn parse_term_more(t: Seq<TokenV>, j: int, acc: ExprV, fuel: nat) -> Option<
    (ExprV, int),
>
    decreases fuel,
{
    if fuel == 0 {
        Option::None
    } else if 0 <= j < t.len() && term_op(t[j]) is Some {
        match parse_factor(t, j + 1, (fuel - 1) as nat) {
            Option::Some((b, k)) => parse_term_more(
                t,
                k,
                ExprV::BinOp {
                    op: term_op(t[j]).unwrap(),
                    lhs: Box::new(acc),
                    rhs: Box::new(b),
                },
                (fuel - 1) as nat,
            ),
            Option::None => Option::None,
        }
    } else {
        Option::Some((acc, j))
    }
}

/// Parses a term at `i`: a left-associated chain of `*` and `/` factors.
pub open spec fn parse_term(t: Seq<TokenV>, i: int, fuel: nat) -> Option<(ExprV, int)>
    decreases fuel,
{
    if fuel == 0 {
        Option::None
    } else {
        match parse_factor(t, i, (fuel - 1) as nat) {
            Option::Some((a, j)) => parse_term_more(t, j, a, (fuel - 1) as nat),
            Option::None => Option::None,
        }
    }
}

/// Extends `acc` to the left-associated chain of `+` and `-` terms at `j`.
pub open spec fn parse_expr_more(t: Seq<TokenV>, j: int, acc: ExprV, fuel: nat) -> Option<
    (ExprV, int),
>
    decreases fuel,
{
    if fuel == 0 {
        Option::None
    } else if 0 <= j < t.len() && expr_op(t[j]) is Some {
        match parse_term(t, j + 1, (fuel - 1) as nat) {
            Option::Some((b, k)) => parse_expr_more(
                t,
                k,
                ExprV::BinOp { op: expr_op(t[j]).unwrap(), lhs: Box::new(acc), rhs: Box::new(b) },
                (fuel - 1) as nat,
            ),
            Option::None => Option::None,
        }
    } else {
        Option::Some((acc, j))
    }
}

/// Parses an expression at `i`: a left-associated chain of `+` and `-` terms.
pub open spec fn parse_expr(t: Seq<TokenV>, i: int, fuel: nat) -> Option<(ExprV, int)>
    decreases fuel,
{
    if fuel == 0 {
        Option::None
    } else {
        match parse_term(t, i, (fuel - 1) as nat) {
            Option::Some((a, j)) => parse_expr_more(t, j, a, (fuel - 1) as nat),
            Option::None => Option::None,
        }
    }
}

/// Parses a full expression covering the tokens from `i` to the end.
pub open spec fn parse_all(t: Seq<TokenV>, i: int, variable: Option<Seq<char>>) -> Option<
    CommandV,
> {
    match parse_expr(t, i, (8 * t.len() + 8) as nat) {
        Option::Some((e, j)) => if j == t.len() {
            Option::Some(CommandV { variable: variable, expression: e })
        } else {
            Option::None
        },
        Option::None => Option::None,
    }
}

/// What [`parse_command`] returns: the command denoted by the line, or `None`
/// when the line does not belong to the grammar. A line is `name = expr` when
/// its first two tokens are a name and `=`; otherwise it must be a bare
/// expression.
pub open spec fn parse_command_spec(s: Seq<char>) -> Option<CommandV> {
    match lex(s) {
        Option::Some(toks) => if toks.len() >= 2 && toks[0] is Ident && toks[1] is Equals {
            parse_all(toks, 2, Option::Some(toks[0]->Ident_0))
        } else {
            parse_all(toks, 0, Option::None)
        },
        Option::None => Option::None,
    }
}

/// Parsing is deterministic: the command a line denotes is a function of the
/// line's characters alone — no state survives a parse, so parsing the same
/// string again, at any time, yields the same result, and in particular a
/// structurally equal tree.
pub proof fn lemma_parse_deterministic(s1: Seq<char>, s2: Seq<char>)
    requires
        s1 == s2,
    ensures
        parse_command_spec(s1) == parse_command_spec(s2),
{
}

fn is_space_x(c: char) -> (b: bool)
    ensures
        b == is_space(c),
{
    c == ' ' || c == '\t'
}

fn is_digit_x(c: char) -> (b: bool)
    ensures
        b == is_digit(c),
{
    let n = c as u32;
    48 <= n && n <= 57
}

fn is_ident_start_x(c: char) -> (b: bool)
    ensures
        b == is_ident_start(c),
{
    let n = c as u32;
    (97 <= n && n <= 122) || (65 <= n && n <= 90) || n == 95
}

fn is_ident_char_x(c: char) -> (b: bool)
    ensures
        b == is_ident_char(c),
{
    is_ident_start_x(c) || is_digit_x(c)
}

/// Scans the digit run starting at `start` and its value; the value is `None`
/// when it does not fit in a `u64`.
fn scan_digits(s: &str, n: usize, start: usize) -> (r: (usize, Option<u64>))
    requires
        n == s@.len(),
        start <= n,
    ensures
        r.0 as int == digits_end(s@, start as int),
        start <= r.0 <= n,
        match r.1 {
            Option::Some(v) => v as nat == digits_val(s@, start as int, r.0 as int),
            Option::None => digits_val(s@, start as int, r.0 as int) > u64::MAX,
        },
{
    let mut j: usize = start;
    let mut acc: u64 = 0;
    let mut fits: bool = true;
    loop
        invariant
            n == s@.len(),
            start <= j <= n,
            digits_end(s@, start as int) == digits_end(s@, j as int),
            fits ==> acc as nat == digits_val(s@, start as int, j as int),
            !fits ==> digits_val(s@, start as int, j as int) > u64::MAX,
        ensures
            start <= j <= n,
            j as int == digits_end(s@, start as int),
            fits ==> acc as nat == digits_val(s@, start as int, j as int),
            !fits ==> digits_val(s@, start as int, j as int) > u64::MAX,
        decreases n - j,
    {
        if j >= n {
            break;
        }
        let c = s.get_char(j);
        if !is_digit_x(c) {
            break;
        }
        let d: u64 = (c as u32 - 48) as u64;
        if fits {
            match acc.checked_mul(10) {
                Option::Some(m) => match m.checked_add(d) {
                    Option::Some(v) => {
                        acc = v;
                    },
                    Option::None => {
                        fits = false;
                    },
                },
                Option::None => {
                    proof {
                        assert(digits_val(s@, start as int, j as int) * 10 + digit_of(s@[j as int])
                            > u64::MAX) by (nonlinear_arith)
                            requires
                                digits_val(s@, start as int, j as int) * 10 > u64::MAX,
                        ;
                    }
                    fits = false;
                },
            }
        } else {
            proof {
                assert(digits_val(s@, start as int, j as int) <= digits_val(
                    s@,
                    start as int,
                    j as int,
                ) * 10) by (nonlinear_arith);
            }
        }
        j = j + 1;
    }
    (j, if fits { Option::Some(acc) } else { Option::None })
}

/// Scans the run of name characters starting at `start`.
fn scan_ident(s: &str, n: usize, start: usize) -> (j: usize)
    requires
        n == s@.len(),
        start <= n,
    ensures
        j as int == ident_end(s@, start as int),
        start <= j <= n,
{
    let mut j: usize = start;
    loop
        invariant
            n == s@.len(),
            start <= j <= n,
            ident_end(s@, start as int) == ident_end(s@, j as int),
        ensures
            start <= j <= n,
            j as int == ident_end(s@, start as int),
        decreases n - j,
    {
        if j >= n {
            break;
        }
        if !is_ident_char_x(s.get_char(j)) {
            break;
        }
        j = j + 1;
    }
    j
}

/// The executable lexer, one recursive step per token or blank.
fn lex_exec(s: &str, n: usize, i: usize, Ghost(fuel): Ghost<nat>) -> (r: Option<Vec<Token>>)
    requires
        n == s@.len(),
        i <= n,
        fuel >= n - i + 1,
    ensures
        match r {
            Option::Some(toks) => lex_from(s@, i as int, fuel) == Option::Some(
                toks_view(toks@),
            ),
            Option::None => lex_from(s@, i as int, fuel) is None,
        },
    decreases n - i,
{
    if i >= n {
        assert(toks_view(Seq::<Token>::empty()) =~= Seq::<TokenV>::empty());
        return Option::Some(Vec::new());
    }
    let c = s.get_char(i);
    if is_space_x(c) {
        let r = lex_exec(s, n, i + 1, Ghost((fuel - 1) as nat));
        proof {
            assert(lex_from(s@, i as int, fuel) == lex_from(s@, i as int + 1, (fuel - 1) as nat));
        }
        r
    } else if is_digit_x(c) {
        let (j, val) = scan_digits(s, n, i);
        match val {
            Option::Some(v) => {
                proof {
                    lemma_digits_end_bounds(s@, i as int + 1);
                }
                match lex_exec(s, n, j, Ghost((fuel - 1) as nat)) {
                    Option::Some(mut rest) => {
                        rest.insert(0, Token::Num(v));
                        proof {
                            assert(toks_view(rest@) =~= seq![TokenV::Num(v)] + toks_view(
                                rest@.subrange(1, rest@.len() as int),
                            ));
                        }
                        Option::Some(rest)
                    },
                    Option::None => Option::None,
                }
            },
            Option::None => Option::None,
        }
    } else if is_ident_start_x(c) {
        let j = scan_ident(s, n, i);
        proof {
            lemma_ident_end_bounds(s@, i as int + 1);
        }
        let name = s.substring_char(i, j).to_owned();
        match lex_exec(s, n, j, Ghost((fuel - 1) as nat)) {
            Option::Some(mut rest) => {
                rest.insert(0, Token::Ident(name));
                proof {
                    assert(toks_view(rest@) =~= seq![TokenV::Ident(s@.subrange(i as int, j as int))]
                        + toks_view(rest@.subrange(1, rest@.len() as int)));
                }
                Option::Some(rest)
            },
            Option::None => Option::None,
        }
    } else {
        let tok: Option<Token> = if c == '+' {
            Option::Some(Token::Plus)
        } else if c == '-' {
            Option::Some(Token::Minus)
        } else if c == '*' {
            Option::Some(Token::Star)
        } else if c == '/' {
            Option::Some(Token::Slash)
        } else if c == '^' {
            Option::Some(Token::Caret)
        } else if c == '(' {
            Option::Some(Token::LParen)
        } else if c == ')' {
            Option::Some(Token::RParen)
        } else if c == '=' {
            Option::Some(Token::Equals)
        } else {
            Option::None
        };
        match tok {
            Option::Some(t) => match lex_exec(s, n, i + 1, Ghost((fuel - 1) as nat)) {
                Option::Some(mut rest) => {
                    let ghost tv = t@;
                    rest.insert(0, t);
                    proof {
                        assert(toks_view(rest@) =~= seq![tv] + toks_view(
                            rest@.subrange(1, rest@.len() as int),
                        ));
                    }
                    Option::Some(rest)
                },
                Option::None => Option::None,
            },
            Option::None => Option::None,
        }
    }
}

fn parse_atom_x(t: &Vec<Token>, i: usize, Ghost(fuel): Ghost<nat>) -> (r: Option<
    (Expression, usize),
>)
    requires
        i <= t@.len(),
        fuel >= 8 * (t@.len() - i) + 1,
    ensures
        match r {
            Option::Some(p) => parse_atom(toks_view(t@), i as int, fuel) == Option::Some(
                (p.0@, p.1 as int),
            ) && i < p.1 <= t@.len(),
            Option::None => parse_atom(toks_view(t@), i as int, fuel) is None,
        },
    decreases fuel,
{
    proof {
        assert(toks_view(t@).len() == t@.len());
    }
    if i >= t.len() {
        return Option::None;
    }
    proof {
        assert(toks_view(t@)[i as int] == t@[i as int]@);
    }
    match &t[i] {
        Token::Num(n) => Option::Some((Expression::Num(*n), i + 1)),
        Token::Ident(x) => Option::Some((Expression::Variable(x.clone()), i + 1)),
        Token::LParen => {
            match parse_expr_x(t, i + 1, Ghost((fuel - 1) as nat)) {
                Option::Some((e, j)) => {
                    if j < t.len() {
                        proof {
                            assert(toks_view(t@)[j as int] == t@[j as int]@);
                        }
                        match &t[j] {
                            Token::RParen => Option::Some((e, j + 1)),
                            _ => Option::None,
                        }
                    } else {
                        Option::None
                    }
                },
                Option::None => Option::None,
            }
        },
        _ => Option::None,
    }
}

fn parse_factor_x(t: &Vec<Token>, i: usize, Ghost(fuel): Ghost<nat>) -> (r: Option<
    (Expression, usize),
>)
    requires
        i <= t@.len(),
        fuel >= 8 * (t@.len() - i) + 2,
    ensures
        match r {
            Option::Some(p) => parse_factor(toks_view(t@), i as int, fuel) == Option::Some(
                (p.0@, p.1 as int),
            ) && i < p.1 <= t@.len(),
            Option::None => parse_factor(toks_view(t@), i as int, fuel) is None,
        },
    decreases fuel,
{
    proof {
        assert(toks_view(t@).len() == t@.len());
    }
    match parse_atom_x(t, i, Ghost((fuel - 1) as nat)) {
        Option::Some((a, j)) => {
            if j < t.len() {
                proof {
                    assert(toks_view(t@)[j as int] == t@[j as int]@);
                }
                match &t[j] {
                    Token::Caret => {
                        match parse_factor_x(t, j + 1, Ghost((fuel - 1) as nat)) {
                            Option::Some((b, k)) => Option::Some(
                                (
                                    Expression::BinOp {
                                        op: BinOp::Power,
                                        lhs: Box::new(a),
                                        rhs: Box::new(b),
                                    },
                                    k,
                                ),
                            ),
                            Option::None => Option::None,
                        }
                    },
                    _ => Option::Some((a, j)),
                }
            } else {
                Option::Some((a, j))
            }
        },
        Option::None => Option::None,
    }
}

/// The `*` or `/` operator of the token, if it is one.
fn term_op_x(tok: &Token) -> (r: Option<BinOp>)
    ensures
        r == term_op(tok@),
{
    match tok {
        Token::Star => Option::Some(BinOp::Multiply),
        Token::Slash => Option::Some(BinOp::Divide),
        _ => Option::None,
    }
}

/// The `+` or `-` operator of the token, if it is one.
fn expr_op_x(tok: &Token) -> (r: Option<BinOp>)
    ensures
        r == expr_op(tok@),
{
    match tok {
        Token::Plus => Option::Some(BinOp::Add),
        Token::Minus => Option::Some(BinOp::Subtract),
        _ => Option::None,
    }
}

fn parse_term_more_x(t: &Vec<Token>, j: usize, acc: Expression, Ghost(fuel): Ghost<nat>) -> (r:
    Option<(Expression, usize)>)
    requires
        j <= t@.len(),
        fuel >= 8 * (t@.len() - j) + 5,
    ensures
        match r {
            Option::Some(p) => parse_term_more(toks_view(t@), j as int, acc@, fuel)
                == Option::Some((p.0@, p.1 as int)) && j <= p.1 <= t@.len(),
            Option::None => parse_term_more(toks_view(t@), j as int, acc@, fuel) is None,
        },
    decreases fuel,
{
    proof {
        assert(toks_view(t@).len() == t@.len());
    }
    if j < t.len() {
        proof {
            assert(toks_view(t@)[j as int] == t@[j as int]@);
        }
        match term_op_x(&t[j]) {
            Option::Some(op) => {
                match parse_factor_x(t, j + 1, Ghost((fuel - 1) as nat)) {
                    Option::Some((b, k)) => parse_term_more_x(
                        t,
                        k,
                        Expression::BinOp { op, lhs: Box::new(acc), rhs: Box::new(b) },
                        Ghost((fuel - 1) as nat),
                    ),
                    Option::None => Option::None,
                }
            },
            Option::None => Option::Some((acc, j)),
        }
    } else {
        Option::Some((acc, j))
    }
}

fn parse_term_x(t: &Vec<Token>, i: usize, Ghost(fuel): Ghost<nat>) -> (r: Option<
    (Expression, usize),
>)
    requires
        i <= t@.len(),
        fuel >= 8 * (t@.len() - i) + 3,
    ensures
        match r {
            Option::Some(p) => parse_term(toks_view(t@), i as int, fuel) == Option::Some(
                (p.0@, p.1 as int),
            ) && i < p.1 <= t@.len(),
            Option::None => parse_term(toks_view(t@), i as int, fuel) is None,
        },
    decreases fuel,
{
    match parse_factor_x(t, i, Ghost((fuel - 1) as nat)) {
        Option::Some((a, j)) => parse_term_more_x(t, j, a, Ghost((fuel - 1) as nat)),
        Option::None => Option::None,
    }
}

fn parse_expr_more_x(t: &Vec<Token>, j: usize, acc: Expression, Ghost(fuel): Ghost<nat>) -> (r:
    Option<(Expression, usize)>)
    requires
        j <= t@.len(),
        fuel >= 8 * (t@.len() - j) + 5,
    ensures
        match r {
            Option::Some(p) => parse_expr_more(toks_view(t@), j as int, acc@, fuel)
                == Option::Some((p.0@, p.1 as int)) && j <= p.1 <= t@.len(),
            Option::None => parse_expr_more(toks_view(t@), j as int, acc@, fuel) is None,
        },
    decreases fuel,
{
    proof {
        assert(toks_view(t@).len() == t@.len());
    }
    if j < t.len() {
        proof {
            assert(toks_view(t@)[j as int] == t@[j as int]@);
        }
        match expr_op_x(&t[j]) {
            Option::Some(op) => {
                match parse_term_x(t, j + 1, Ghost((fuel - 1) as nat)) {
                    Option::Some((b, k)) => parse_expr_more_x(
                        t,
                        k,
                        Expression::BinOp { op, lhs: Box::new(acc), rhs: Box::new(b) },
                        Ghost((fuel - 1) as nat),
                    ),
                    Option::None => Option::None,
                }
            },
            Option::None => Option::Some((acc, j)),
        }
    } else {
        Option::Some((acc, j))
    }
}

fn parse_expr_x(t: &Vec<Token>, i: usize, Ghost(fuel): Ghost<nat>) -> (r: Option<
    (Expression, usize),
>)
    requires
        i <= t@.len(),
        fuel >= 8 * (t@.len() - i) + 4,
    ensures
        match r {
            Option::Some(p) => parse_expr(toks_view(t@), i as int, fuel) == Option::Some(
                (p.0@, p.1 as int),
            ) && i < p.1 <= t@.len(),
            Option::None => parse_expr(toks_view(t@), i as int, fuel) is None,
        },
    decreases fuel,
{
    match parse_term_x(t, i, Ghost((fuel - 1) as nat)) {
        Option::Some((a, j)) => parse_expr_more_x(t, j, a, Ghost((fuel - 1) as nat)),
        Option::None => Option::None,
    }
}

/// Parses one input line into a command.
///
/// Returns `Ok` exactly on the lines of the grammar — `[name =] expr` with
/// the precedence and associativity stated at the top of this module — and
/// `Err(ParseError)` on every other line. Pure: the result is a function of
/// the line alone, so parsing the same line twice gives equal trees.
pub fn parse_command(line: &str) -> (r: Result<Command, ParseError>)
    ensures
        match r {
            Result::Ok(c) => parse_command_spec(line@) == Option::Some(c@),
            Result::Err(e) => parse_command_spec(line@) is None && e == ParseError,
        },
{
    let n = line.unicode_len();
    let toks = match lex_exec(line, n, 0, Ghost((line@.len() + 1) as nat)) {
        Option::Some(toks) => toks,
        Option::None => {
            return Result::Err(ParseError);
        },
    };
    proof {
        assert(toks_view(toks@).len() == toks@.len());
    }
    let ghost fuel = (8 * toks@.len() + 8) as nat;
    if toks.len() >= 2 {
        proof {
            assert(toks_view(toks@)[0] == toks@[0]@);
            assert(toks_view(toks@)[1] == toks@[1]@);
        }
        let is_assign = match (&toks[0], &toks[1]) {
            (Token::Ident(_), Token::Equals) => true,
            _ => false,
        };
        if is_assign {
            let name = match &toks[0] {
                Token::Ident(x) => x.clone(),
                _ => unreached(),
            };
            match parse_expr_x(&toks, 2, Ghost(fuel)) {
                Option::Some((e, j)) => {
                    if j == toks.len() {
                        return Result::Ok(
                            Command { variable: Option::Some(name), expression: e },
                        );
                    } else {
                        return Result::Err(ParseError);
                    }
                },
                Option::None => {
                    return Result::Err(ParseError);
                },
            }
        }
    }
    match parse_expr_x(&toks, 0, Ghost(fuel)) {
        Option::Some((e, j)) => {
            if j == toks.len() {
                Result::Ok(Command { variable: Option::None, expression: e })
            } else {
                Result::Err(ParseError)
            }
        },
        Option::None => Result::Err(ParseError),
    }
}

} // verus!
