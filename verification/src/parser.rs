//! Grammar-driven parser: three statement forms (`CREATE TABLE`, `INSERT`,
//! `SELECT`) over a shared, precedence-aware expression sub-grammar.
//!
//! The grammar is stated twice: once as spec functions over `Seq<char>`
//! (the model), and once as recursive-descent exec functions whose
//! contracts say they compute exactly what the model assigns.  Precedence
//! levels are layered, lowest first: equality, sum, product, unary
//! negation, atoms; binary operators fold to the left.
//!
//! Keywords here are matched case-insensitively — all upper case or all
//! lower case, never mixed — unlike the strict lexer; whitespace is
//! skipped permissively around operators and atoms.

use vstd::prelude::*;
use vstd::string::StrSliceExecFns;

use crate::scan::{digit_run, digit_run_end, digits_value, ident_run, ident_run_end, is_digit,
    is_digit_char, is_ident, is_ident_char, is_ident_start, is_ident_start_char, lit_at,
    lit_match, seq_to_num};

verus! {

// ---------------------------------------------------------------------------
// Whitespace and small primitives
// ---------------------------------------------------------------------------

/// Whitespace skipped by the grammar around atoms, operators and keywords.
pub open spec fn is_ws_char(c: char) -> bool {
    c == ' ' || c == '\t' || c == '\n' || c == '\r'
}

pub fn is_ws(c: char) -> (r: bool)
    ensures
        r == is_ws_char(c),
{
    c == ' ' || c == '\t' || c == '\n' || c == '\r'
}

/// Length of the whitespace run starting at `pos`.
pub open spec fn ws_count(s: Seq<char>, pos: int) -> nat
    decreases s.len() - pos,
{
    if 0 <= pos && pos < s.len() && is_ws_char(s[pos]) {
        (ws_count(s, pos + 1) + 1) as nat
    } else {
        0
    }
}

/// First non-whitespace position at or after `pos`.
pub open spec fn skip_ws(s: Seq<char>, pos: int) -> int {
    pos + ws_count(s, pos)
}

fn skip_ws_end(s: &str, pos: usize) -> (r: usize)
    requires
        pos <= s@.len(),
    ensures
        r as int == skip_ws(s@, pos as int),
        pos <= r <= s@.len(),
{
    let n = s.unicode_len();
    let mut i = pos;
    while i < n
        invariant
            pos <= i <= n,
            n == s@.len(),
            skip_ws(s@, pos as int) == skip_ws(s@, i as int),
        decreases n - i,
    {
        let c = s.get_char(i);
        if !is_ws(c) {
            assert(ws_count(s@, i as int) == 0);
            return i;
        }
        i = i + 1;
    }
    assert(ws_count(s@, i as int) == 0);
    i
}

/// A single or double quote, either of which opens or closes a string
/// literal of the expression grammar.
pub open spec fn is_quote_char(c: char) -> bool {
    c == '"' || c == '\''
}

pub fn is_quote(c: char) -> (r: bool)
    ensures
        r == is_quote_char(c),
{
    c == '"' || c == '\''
}

/// Length of the run of non-quote characters starting at `pos`.
pub open spec fn nonquote_run(s: Seq<char>, pos: int) -> nat
    decreases s.len() - pos,
{
    if 0 <= pos && pos < s.len() && !is_quote_char(s[pos]) {
        (nonquote_run(s, pos + 1) + 1) as nat
    } else {
        0
    }
}

fn nonquote_end(s: &str, pos: usize) -> (r: usize)
    requires
        pos <= s@.len(),
    ensures
        r == pos + nonquote_run(s@, pos as int),
        r <= s@.len(),
{
    let n = s.unicode_len();
    let mut i = pos;
    while i < n
        invariant
            pos <= i <= n,
            n == s@.len(),
            nonquote_run(s@, pos as int) == i - pos + nonquote_run(s@, i as int),
        decreases n - i,
    {
        let c = s.get_char(i);
        if is_quote(c) {
            assert(nonquote_run(s@, i as int) == 0);
            return i;
        }
        i = i + 1;
    }
    assert(nonquote_run(s@, i as int) == 0);
    i
}

/// No identifier character follows at `p`, so a keyword ending there is a
/// whole word.
pub open spec fn ident_boundary(s: Seq<char>, p: int) -> bool {
    p >= s.len() || !is_ident_char(s[p])
}

/// A whole-word keyword at `pos`, in upper or lower case, with whitespace
/// skipped before and after; yields the position after the trailing skip.
pub open spec fn kw_at(s: Seq<char>, pos: int, up: Seq<char>, lo: Seq<char>) -> Option<int> {
    let j = skip_ws(s, pos);
    if (lit_at(s, j, up) || lit_at(s, j, lo)) && ident_boundary(s, j + up.len()) {
        Some(skip_ws(s, j + up.len()))
    } else {
        None
    }
}

/// A literal word at `pos` (no word-boundary check), in upper or lower
/// case, with whitespace skipped before and after.
pub open spec fn word_at(s: Seq<char>, pos: int, up: Seq<char>, lo: Seq<char>) -> Option<int> {
    let j = skip_ws(s, pos);
    if lit_at(s, j, up) || lit_at(s, j, lo) {
        Some(skip_ws(s, j + up.len()))
    } else {
        None
    }
}

/// A single punctuation character at `pos`, with whitespace skipped before
/// and after.
pub open spec fn punct_at(s: Seq<char>, pos: int, c: char) -> Option<int> {
    let j = skip_ws(s, pos);
    if 0 <= j && j < s.len() && s[j] == c {
        Some(skip_ws(s, j + 1))
    } else {
        None
    }
}

fn kw_match(s: &str, pos: usize, up: &str, lo: &str) -> (r: Option<usize>)
    requires
        pos <= s@.len(),
        up@.len() == lo@.len(),
    ensures
        match r {
            Some(p) => kw_at(s@, pos as int, up@, lo@) == Some(p as int) && pos <= p <= s@.len(),
            None => kw_at(s@, pos as int, up@, lo@) is None,
        },
{
    let n = s.unicode_len();
    let j = skip_ws_end(s, pos);
    let m = up.unicode_len();
    let matched = lit_match(s, j, up) || lit_match(s, j, lo);
    if !matched {
        return None;
    }
    assert(j + m <= n);
    let bpos = j + m;
    let boundary_ok = if bpos >= n {
        true
    } else {
        !is_ident(s.get_char(bpos))
    };
    if boundary_ok {
        Some(skip_ws_end(s, bpos))
    } else {
        None
    }
}

fn word_match(s: &str, pos: usize, up: &str, lo: &str) -> (r: Option<usize>)
    requires
        pos <= s@.len(),
        up@.len() == lo@.len(),
    ensures
        match r {
            Some(p) => word_at(s@, pos as int, up@, lo@) == Some(p as int) && pos <= p <= s@.len(),
            None => word_at(s@, pos as int, up@, lo@) is None,
        },
{
    let n = s.unicode_len();
    let j = skip_ws_end(s, pos);
    let m = up.unicode_len();
    let matched = lit_match(s, j, up) || lit_match(s, j, lo);
    if !matched {
        return None;
    }
    assert(j + m <= n);
    Some(skip_ws_end(s, j + m))
}

fn punct_match(s: &str, pos: usize, c: char) -> (r: Option<usize>)
    requires
        pos <= s@.len(),
    ensures
        match r {
            Some(p) => punct_at(s@, pos as int, c) == Some(p as int) && pos <= p <= s@.len(),
            None => punct_at(s@, pos as int, c) is None,
        },
{
    let n = s.unicode_len();
    let j = skip_ws_end(s, pos);
    if j < n && s.get_char(j) == c {
        Some(skip_ws_end(s, j + 1))
    } else {
        None
    }
}

// ---------------------------------------------------------------------------
// Tokens of the grammar: identifiers, integers, string literals
// ---------------------------------------------------------------------------

/// An identifier `[_a-zA-Z][_a-zA-Z0-9]*` at `pos`: its text and end.
pub open spec fn spec_ident(s: Seq<char>, pos: int) -> Option<(Seq<char>, int)> {
    if 0 <= pos && pos < s.len() && is_ident_start_char(s[pos]) {
        Some((s.subrange(pos, pos + ident_run(s, pos)), pos + ident_run(s, pos)))
    } else {
        None
    }
}

fn parse_ident(s: &str, pos: usize) -> (r: Option<(String, usize)>)
    requires
        pos <= s@.len(),
    ensures
        match r {
            Some(v) => spec_ident(s@, pos as int) == Some((v.0@, v.1 as int)) && pos <= v.1
                <= s@.len(),
            None => spec_ident(s@, pos as int) is None,
        },
{
    let n = s.unicode_len();
    if pos < n && is_ident_start(s.get_char(pos)) {
        let e = ident_run_end(s, pos);
        Some((s.substring_char(pos, e).to_owned(), e))
    } else {
        None
    }
}

/// A decimal numeral at `pos`: a nonzero digit followed by digits, or the
/// single digit `0`; yields its value and end.
pub open spec fn spec_int(s: Seq<char>, pos: int) -> Option<(int, int)> {
    if 0 <= pos && pos < s.len() && is_digit_char(s[pos]) {
        let e = if s[pos] == '0' {
            pos + 1
        } else {
            pos + digit_run(s, pos)
        };
        Some((seq_to_num(s.subrange(pos, e)), e))
    } else {
        None
    }
}

/// A quoted string at `pos`: either quote opens, characters up to the next
/// quote of either kind are the content, and that quote closes; an
/// unterminated literal does not parse.
pub open spec fn spec_string_lit(s: Seq<char>, pos: int) -> Option<(Seq<char>, int)> {
    if 0 <= pos && pos < s.len() && is_quote_char(s[pos]) {
        let e = pos + 1 + nonquote_run(s, pos + 1);
        if e < s.len() {
            Some((s.subrange(pos + 1, e), e + 1))
        } else {
            None
        }
    } else {
        None
    }
}

// ---------------------------------------------------------------------------
// Expression trees
// ---------------------------------------------------------------------------

/// An expression tree; each compound variant owns its operands.
#[derive(Debug, PartialEq, Eq)]
pub enum Expr {
    Num(i32),
    Var(String),
    Neg(Box<Expr>),
    StringLiteral(String),
    Add(Box<Expr>, Box<Expr>),
    Sub(Box<Expr>, Box<Expr>),
    Mul(Box<Expr>, Box<Expr>),
    Div(Box<Expr>, Box<Expr>),
    Equal(Box<Expr>, Box<Expr>),
}

/// Mathematical counterpart of `Expr`.
pub enum ExprV {
    Num(int),
    Var(Seq<char>),
    Neg(Box<ExprV>),
    StringLiteral(Seq<char>),
    Add(Box<ExprV>, Box<ExprV>),
    Sub(Box<ExprV>, Box<ExprV>),
    Mul(Box<ExprV>, Box<ExprV>),
    Div(Box<ExprV>, Box<ExprV>),
    Equal(Box<ExprV>, Box<ExprV>),
}

impl View for Expr {
    type V = ExprV;

    open spec fn view(&self) -> ExprV
        decreases self,
    {
        match self {
            Expr::Num(n) => ExprV::Num(*n as int),
            Expr::Var(t) => ExprV::Var(t@),
            Expr::Neg(e) => ExprV::Neg(Box::new((**e)@)),
            Expr::StringLiteral(t) => ExprV::StringLiteral(t@),
            Expr::Add(a, b) => ExprV::Add(Box::new((**a)@), Box::new((**b)@)),
            Expr::Sub(a, b) => ExprV::Sub(Box::new((**a)@), Box::new((**b)@)),
            Expr::Mul(a, b) => ExprV::Mul(Box::new((**a)@), Box::new((**b)@)),
            Expr::Div(a, b) => ExprV::Div(Box::new((**a)@), Box::new((**b)@)),
            Expr::Equal(a, b) => ExprV::Equal(Box::new((**a)@), Box::new((**b)@)),
        }
    }
}

/// A grammar-level recognition failure: the text matched no rule.  It
/// carries the offending input position — which one is reported is fixed
/// by the contract of each parsing function that returns this error.
#[derive(Debug, PartialEq, Eq)]
pub struct SyntaxError {
    pub pos: usize,
}

// ---------------------------------------------------------------------------
// The expression grammar, lowest precedence outermost:
//   equality -> sum (('=' | '==') sum)*      left-associative
//   sum      -> product (('+' | '-') product)*
//   product  -> unary (('*' | '/') unary)*
//   unary    -> ('-')* atom                  folds into nested Neg
//   atom     -> integer | '(' equality ')' | identifier | string literal
// ---------------------------------------------------------------------------

/// An atom: an integer literal (whose value must fit in `i32`), a
/// parenthesized sub-expression, an identifier, or a string literal.
/// Whitespace is skipped around integers and identifiers, but not before
/// a parenthesis or a quote.
pub open spec fn spec_atom(s: Seq<char>, pos: int) -> Option<(ExprV, int)>
    decreases s.len() - pos, 0int,
{
    let j = skip_ws(s, pos);
    if 0 <= j && j < s.len() && is_digit_char(s[j]) {
        match spec_int(s, j) {
            Some((v, e)) => if v <= i32::MAX as int {
                Some((ExprV::Num(v), skip_ws(s, e)))
            } else {
                None
            },
            None => None,
        }
    } else if 0 <= pos && pos < s.len() && s[pos] == '(' {
        match spec_equality(s, pos + 1) {
            Some((e, p)) => if 0 <= p && p < s.len() && s[p] == ')' {
                Some((e, p + 1))
            } else {
                None
            },
            None => None,
        }
    } else if 0 <= j && j < s.len() && is_ident_start_char(s[j]) {
        match spec_ident(s, j) {
            Some((name, e)) => Some((ExprV::Var(name), skip_ws(s, e))),
            None => None,
        }
    } else if 0 <= pos && pos < s.len() && is_quote_char(s[pos]) {
        match spec_string_lit(s, pos) {
            Some((t, e)) => Some((ExprV::StringLiteral(t), e)),
            None => None,
        }
    } else {
        None
    }
}

/// Zero or more leading `-` signs folding right-to-left into `Neg`.
pub open spec fn spec_unary(s: Seq<char>, pos: int) -> Option<(ExprV, int)>
    decreases s.len() - pos, 1int,
{
    let j = skip_ws(s, pos);
    if 0 <= j && j < s.len() && s[j] == '-' && skip_ws(s, j + 1) <= s.len() {
        match spec_unary(s, skip_ws(s, j + 1)) {
            Some((e, p)) => Some((ExprV::Neg(Box::new(e)), p)),
            None => None,
        }
    } else {
        spec_atom(s, pos)
    }
}

/// Left fold of `acc` with `*` / `/` steps.
pub open spec fn spec_product_rest(s: Seq<char>, pos: int, acc: ExprV) -> Option<(ExprV, int)>
    decreases s.len() - pos, 2int,
{
    let j = skip_ws(s, pos);
    if 0 <= j && j < s.len() && (s[j] == '*' || s[j] == '/') && skip_ws(s, j + 1) <= s.len() {
        match spec_unary(s, skip_ws(s, j + 1)) {
            Some((rhs, p2)) => if pos < p2 && p2 <= s.len() {
                let newacc = if s[j] == '*' {
                    ExprV::Mul(Box::new(acc), Box::new(rhs))
                } else {
                    ExprV::Div(Box::new(acc), Box::new(rhs))
                };
                spec_product_rest(s, p2, newacc)
            } else {
                Some((acc, pos))
            },
            None => Some((acc, pos)),
        }
    } else {
        Some((acc, pos))
    }
}

pub open spec fn spec_product(s: Seq<char>, pos: int) -> Option<(ExprV, int)>
    decreases s.len() - pos, 3int,
{
    match spec_unary(s, pos) {
        Some((e, p)) => if pos <= p && p <= s.len() {
            spec_product_rest(s, p, e)
        } else {
            Some((e, p))
        },
        None => None,
    }
}

/// Left fold of `acc` with `+` / `-` steps.
pub open spec fn spec_sum_rest(s: Seq<char>, pos: int, acc: ExprV) -> Option<(ExprV, int)>
    decreases s.len() - pos, 4int,
{
    let j = skip_ws(s, pos);
    if 0 <= j && j < s.len() && (s[j] == '+' || s[j] == '-') && skip_ws(s, j + 1) <= s.len() {
        match spec_product(s, skip_ws(s, j + 1)) {
            Some((rhs, p2)) => if pos < p2 && p2 <= s.len() {
                let newacc = if s[j] == '+' {
                    ExprV::Add(Box::new(acc), Box::new(rhs))
                } else {
                    ExprV::Sub(Box::new(acc), Box::new(rhs))
                };
                spec_sum_rest(s, p2, newacc)
            } else {
                Some((acc, pos))
            },
            None => Some((acc, pos)),
        }
    } else {
        Some((acc, pos))
    }
}

pub open spec fn spec_sum(s: Seq<char>, pos: int) -> Option<(ExprV, int)>
    decreases s.len() - pos, 5int,
{
    match spec_product(s, pos) {
        Some((e, p)) => if pos <= p && p <= s.len() {
            spec_sum_rest(s, p, e)
        } else {
            Some((e, p))
        },
        None => None,
    }
}

/// Left fold of `acc` with `=` / `==` steps, each building `Equal`.
pub open spec fn spec_equality_rest(s: Seq<char>, pos: int, acc: ExprV) -> Option<(ExprV, int)>
    decreases s.len() - pos, 6int,
{
    let j = skip_ws(s, pos);
    if 0 <= j && j < s.len() && s[j] == '=' {
        let oplen: int = if j + 1 < s.len() && s[j + 1] == '=' {
            2
        } else {
            1
        };
        if skip_ws(s, j + oplen) <= s.len() {
            match spec_sum(s, skip_ws(s, j + oplen)) {
                Some((rhs, p2)) => if pos < p2 && p2 <= s.len() {
                    spec_equality_rest(s, p2, ExprV::Equal(Box::new(acc), Box::new(rhs)))
                } else {
                    Some((acc, pos))
                },
                None => Some((acc, pos)),
            }
        } else {
            Some((acc, pos))
        }
    } else {
        Some((acc, pos))
    }
}

/// The full expression grammar at `pos`.
pub open spec fn spec_equality(s: Seq<char>, pos: int) -> Option<(ExprV, int)>
    decreases s.len() - pos, 7int,
{
    match spec_sum(s, pos) {
        Some((e, p)) => if pos <= p && p <= s.len() {
            spec_equality_rest(s, p, e)
        } else {
            Some((e, p))
        },
        None => None,
    }
}

/// The expression assigned to a whole input, ignoring what follows it.
pub open spec fn spec_parse_expr(s: Seq<char>) -> Option<ExprV> {
    match spec_equality(s, 0) {
        Some((e, _p)) => Some(e),
        None => None,
    }
}

// ---------------------------------------------------------------------------
// Executable expression parser
// ---------------------------------------------------------------------------

fn parse_atom(s: &str, pos: usize) -> (r: Option<(Expr, usize)>)
    requires
        pos <= s@.len(),
    ensures
        match r {
            Some(v) => spec_atom(s@, pos as int) == Some((v.0@, v.1 as int)) && v.1 <= s@.len(),
            None => spec_atom(s@, pos as int) is None,
        },
    decreases s@.len() - pos, 0int,
{
    let n = s.unicode_len();
    let j = skip_ws_end(s, pos);
    if j < n && is_digit(s.get_char(j)) {
        let c = s.get_char(j);
        let e = if c == '0' {
            j + 1
        } else {
            digit_run_end(s, j)
        };
        proof {
            crate::scan::lemma_digit_run_in_bounds(s@, j as int);
        }
        match digits_value(s, j, e) {
            Some(v) => Some((Expr::Num(v), skip_ws_end(s, e))),
            None => None,
        }
    } else if pos < n && s.get_char(pos) == '(' {
        match parse_equality(s, pos + 1) {
            Some((e, p)) => {
                if p < n && s.get_char(p) == ')' {
                    Some((e, p + 1))
                } else {
                    None
                }
            },
            None => None,
        }
    } else if j < n && is_ident_start(s.get_char(j)) {
        match parse_ident(s, j) {
            Some((name, e)) => Some((Expr::Var(name), skip_ws_end(s, e))),
            None => None,
        }
    } else if pos < n && is_quote(s.get_char(pos)) {
        let e = nonquote_end(s, pos + 1);
        if e < n {
            let t = s.substring_char(pos + 1, e).to_owned();
            Some((Expr::StringLiteral(t), e + 1))
        } else {
            None
        }
    } else {
        None
    }
}

fn parse_unary(s: &str, pos: usize) -> (r: Option<(Expr, usize)>)
    requires
        pos <= s@.len(),
    ensures
        match r {
            Some(v) => spec_unary(s@, pos as int) == Some((v.0@, v.1 as int)) && v.1 <= s@.len(),
            None => spec_unary(s@, pos as int) is None,
        },
    decreases s@.len() - pos, 1int,
{
    let n = s.unicode_len();
    let j = skip_ws_end(s, pos);
    if j < n && s.get_char(j) == '-' {
        let j2 = skip_ws_end(s, j + 1);
        match parse_unary(s, j2) {
            Some((e, p)) => Some((Expr::Neg(Box::new(e)), p)),
            None => None,
        }
    } else {
        parse_atom(s, pos)
    }
}

fn parse_product_rest(s: &str, pos: usize, acc: Expr) -> (r: Option<(Expr, usize)>)
    requires
        pos <= s@.len(),
    ensures
        match r {
            Some(v) => spec_product_rest(s@, pos as int, acc@) == Some((v.0@, v.1 as int)) && v.1
                <= s@.len(),
            None => spec_product_rest(s@, pos as int, acc@) is None,
        },
    decreases s@.len() - pos, 2int,
{
    let n = s.unicode_len();
    let j = skip_ws_end(s, pos);
    if j < n && (s.get_char(j) == '*' || s.get_char(j) == '/') {
        let star = s.get_char(j) == '*';
        let j2 = skip_ws_end(s, j + 1);
        match parse_unary(s, j2) {
            Some((rhs, p2)) => {
                if pos < p2 && p2 <= n {
                    let newacc = if star {
                        Expr::Mul(Box::new(acc), Box::new(rhs))
                    } else {
                        Expr::Div(Box::new(acc), Box::new(rhs))
                    };
                    parse_product_rest(s, p2, newacc)
                } else {
                    Some((acc, pos))
                }
            },
            None => Some((acc, pos)),
        }
    } else {
        Some((acc, pos))
    }
}

fn parse_product(s: &str, pos: usize) -> (r: Option<(Expr, usize)>)
    requires
        pos <= s@.len(),
    ensures
        match r {
            Some(v) => spec_product(s@, pos as int) == Some((v.0@, v.1 as int)) && v.1 <= s@.len(),
            None => spec_product(s@, pos as int) is None,
        },
    decreases s@.len() - pos, 3int,
{
    let n = s.unicode_len();
    match parse_unary(s, pos) {
        Some((e, p)) => {
            if pos <= p && p <= n {
                parse_product_rest(s, p, e)
            } else {
                Some((e, p))
            }
        },
        None => None,
    }
}

fn parse_sum_rest(s: &str, pos: usize, acc: Expr) -> (r: Option<(Expr, usize)>)
    requires
        pos <= s@.len(),
    ensures
        match r {
            Some(v) => spec_sum_rest(s@, pos as int, acc@) == Some((v.0@, v.1 as int)) && v.1
                <= s@.len(),
            None => spec_sum_rest(s@, pos as int, acc@) is None,
        },
    decreases s@.len() - pos, 4int,
{
    let n = s.unicode_len();
    let j = skip_ws_end(s, pos);
    if j < n && (s.get_char(j) == '+' || s.get_char(j) == '-') {
        let plus = s.get_char(j) == '+';
        let j2 = skip_ws_end(s, j + 1);
        match parse_product(s, j2) {
            Some((rhs, p2)) => {
                if pos < p2 && p2 <= n {
                    let newacc = if plus {
                        Expr::Add(Box::new(acc), Box::new(rhs))
                    } else {
                        Expr::Sub(Box::new(acc), Box::new(rhs))
                    };
                    parse_sum_rest(s, p2, newacc)
                } else {
                    Some((acc, pos))
                }
            },
            None => Some((acc, pos)),
        }
    } else {
        Some((acc, pos))
    }
}

fn parse_sum(s: &str, pos: usize) -> (r: Option<(Expr, usize)>)
    requires
        pos <= s@.len(),
    ensures
        match r {
            Some(v) => spec_sum(s@, pos as int) == Some((v.0@, v.1 as int)) && v.1 <= s@.len(),
            None => spec_sum(s@, pos as int) is None,
        },
    decreases s@.len() - pos, 5int,
{
    let n = s.unicode_len();
    match parse_product(s, pos) {
        Some((e, p)) => {
            if pos <= p && p <= n {
                parse_sum_rest(s, p, e)
            } else {
                Some((e, p))
            }
        },
        None => None,
    }
}

fn parse_equality_rest(s: &str, pos: usize, acc: Expr) -> (r: Option<(Expr, usize)>)
    requires
        pos <= s@.len(),
    ensures
        match r {
            Some(v) => spec_equality_rest(s@, pos as int, acc@) == Some((v.0@, v.1 as int)) && v.1
                <= s@.len(),
            None => spec_equality_rest(s@, pos as int, acc@) is None,
        },
    decreases s@.len() - pos, 6int,
{
    let n = s.unicode_len();
    let j = skip_ws_end(s, pos);
    if j < n && s.get_char(j) == '=' {
        let oplen: usize = if j + 1 < n && s.get_char(j + 1) == '=' {
            2
        } else {
            1
        };
        let j2 = skip_ws_end(s, j + oplen);
        match parse_sum(s, j2) {
            Some((rhs, p2)) => {
                if pos < p2 && p2 <= n {
                    parse_equality_rest(s, p2, Expr::Equal(Box::new(acc), Box::new(rhs)))
                } else {
                    Some((acc, pos))
                }
            },
            None => Some((acc, pos)),
        }
    } else {
        Some((acc, pos))
    }
}

fn parse_equality(s: &str, pos: usize) -> (r: Option<(Expr, usize)>)
    requires
        pos <= s@.len(),
    ensures
        match r {
            Some(v) => spec_equality(s@, pos as int) == Some((v.0@, v.1 as int)) && v.1
                <= s@.len(),
            None => spec_equality(s@, pos as int) is None,
        },
    decreases s@.len() - pos, 7int,
{
    let n = s.unicode_len();
    match parse_sum(s, pos) {
        Some((e, p)) => {
            if pos <= p && p <= n {
                parse_equality_rest(s, p, e)
            } else {
                Some((e, p))
            }
        },
        None => None,
    }
}

/// The offending position when no expression starts at `pos`: past any
/// leading minus signs, the first character that fits no atom — or, for a
/// parenthesized sub-expression, the position where the missing closing
/// parenthesis was expected, and for an unterminated string literal the
/// position where its closing quote was expected.
pub open spec fn spec_expr_fail_pos(s: Seq<char>, pos: int) -> int
    decreases s.len() - pos,
{
    let j = skip_ws(s, pos);
    if 0 <= j && j < s.len() && s[j] == '-' && skip_ws(s, j + 1) <= s.len() {
        spec_expr_fail_pos(s, skip_ws(s, j + 1))
    } else if 0 <= j && j < s.len() && is_digit_char(s[j]) {
        j
    } else if 0 <= pos && pos < s.len() && s[pos] == '(' {
        match spec_equality(s, pos + 1) {
            Some((e, p)) => p,
            None => spec_expr_fail_pos(s, pos + 1),
        }
    } else if 0 <= pos && pos < s.len() && is_quote_char(s[pos]) {
        pos + 1 + nonquote_run(s, pos + 1)
    } else {
        j
    }
}

fn expr_fail_pos(s: &str, pos: usize) -> (r: usize)
    requires
        pos <= s@.len(),
    ensures
        r as int == spec_expr_fail_pos(s@, pos as int),
        r <= s@.len(),
    decreases s@.len() - pos,
{
    let n = s.unicode_len();
    let j = skip_ws_end(s, pos);
    if j < n && s.get_char(j) == '-' {
        let j2 = skip_ws_end(s, j + 1);
        expr_fail_pos(s, j2)
    } else if j < n && is_digit(s.get_char(j)) {
        j
    } else if pos < n && s.get_char(pos) == '(' {
        match parse_equality(s, pos + 1) {
            Some((_e, p)) => p,
            None => expr_fail_pos(s, pos + 1),
        }
    } else if pos < n && is_quote(s.get_char(pos)) {
        nonquote_end(s, pos + 1)
    } else {
        j
    }
}

// ---------------------------------------------------------------------------
// The public expression parser
// ---------------------------------------------------------------------------

/// Parser for a single expression.
pub struct ExprParser {}

/// The expression grammar as a value whose `parse` method runs it.
pub fn gen_parser_expr() -> (r: ExprParser) {
    ExprParser {  }
}

impl ExprParser {
    /// Parse an expression from the start of `source`; text after the
    /// recognized expression is ignored.  Returns exactly the tree the
    /// grammar model assigns, or an error whose position is the model's
    /// offending position when no expression starts there.
    pub fn parse(&self, source: &str) -> (r: Result<Expr, SyntaxError>)
        ensures
            match r {
                Ok(e) => spec_parse_expr(source@) == Some(e@),
                Err(er) => spec_parse_expr(source@) is None && er.pos as int == spec_expr_fail_pos(
                    source@,
                    0,
                ),
            },
    {
        match parse_equality(source, 0) {
            Some((e, _p)) => Ok(e),
            None => Err(SyntaxError { pos: expr_fail_pos(source, 0) }),
        }
    }
}

// ---------------------------------------------------------------------------
// Statement trees
// ---------------------------------------------------------------------------

/// One column definition of a `CREATE TABLE` statement.
#[derive(Debug, PartialEq, Eq)]
pub struct Column {
    pub name: String,
    pub v_type: String,
    pub is_primary_key: bool,
    pub is_not_null: bool,
    pub auto_increment: bool,
}

/// Mathematical counterpart of `Column`.
pub struct ColumnV {
    pub name: Seq<char>,
    pub v_type: Seq<char>,
    pub is_primary_key: bool,
    pub is_not_null: bool,
    pub auto_increment: bool,
}

impl View for Column {
    type V = ColumnV;

    open spec fn view(&self) -> ColumnV {
        ColumnV {
            name: self.name@,
            v_type: self.v_type@,
            is_primary_key: self.is_primary_key,
            is_not_null: self.is_not_null,
            auto_increment: self.auto_increment,
        }
    }
}

/// One selected column of a `SELECT` statement, optionally aliased.
#[derive(Debug, PartialEq, Eq)]
pub struct Selector {
    pub column_name: String,
    pub alias: Option<String>,
}

/// Mathematical counterpart of `Selector`.
pub struct SelectorV {
    pub column_name: Seq<char>,
    pub alias: Option<Seq<char>>,
}

impl View for Selector {
    type V = SelectorV;

    open spec fn view(&self) -> SelectorV {
        SelectorV {
            column_name: self.column_name@,
            alias: match &self.alias {
                Some(a) => Some(a@),
                None => None,
            },
        }
    }
}

/// A parsed statement: one of the three recognized forms.
#[derive(Debug, PartialEq, Eq)]
pub enum Statement {
    Select {
        table_name: String,
        selectors: Vec<Selector>,
        where_conditions: Option<Vec<Expr>>,
    },
    CreateTable { table_name: String, columns: Vec<Column> },
    Insert { table_name: String, field_names: Vec<String>, values: Vec<Expr> },
}

/// Mathematical counterpart of `Statement`.
pub enum StatementV {
    Select {
        table_name: Seq<char>,
        selectors: Seq<SelectorV>,
        where_conditions: Option<Seq<ExprV>>,
    },
    CreateTable { table_name: Seq<char>, columns: Seq<ColumnV> },
    Insert { table_name: Seq<char>, field_names: Seq<Seq<char>>, values: Seq<ExprV> },
}

/// View of an optional `WHERE` list.
pub open spec fn where_view(w: Option<Vec<Expr>>) -> Option<Seq<ExprV>> {
    match w {
        Some(v) => Some(v@.map_values(|x: Expr| x@)),
        None => None,
    }
}

impl View for Statement {
    type V = StatementV;

    open spec fn view(&self) -> StatementV {
        match self {
            Statement::Select { table_name, selectors, where_conditions } => (StatementV::Select {
                table_name: table_name@,
                selectors: selectors@.map_values(|x: Selector| x@),
                where_conditions: where_view(*where_conditions),
            }),
            Statement::CreateTable { table_name, columns } => (StatementV::CreateTable {
                table_name: table_name@,
                columns: columns@.map_values(|x: Column| x@),
            }),
            Statement::Insert { table_name, field_names, values } => (StatementV::Insert {
                table_name: table_name@,
                field_names: field_names@.map_values(|x: String| x@),
                values: values@.map_values(|x: Expr| x@),
            }),
        }
    }
}

// ---------------------------------------------------------------------------
// Small statement-grammar pieces
// ---------------------------------------------------------------------------

/// A comma directly at `p` is consumed; otherwise nothing is.
pub open spec fn opt_comma(s: Seq<char>, p: int) -> int {
    if 0 <= p && p < s.len() && s[p] == ',' {
        p + 1
    } else {
        p
    }
}

fn opt_comma_match(s: &str, p: usize) -> (r: usize)
    requires
        p <= s@.len(),
    ensures
        r as int == opt_comma(s@, p as int),
        p <= r <= s@.len(),
{
    let n = s.unicode_len();
    if p < n && s.get_char(p) == ',' {
        p + 1
    } else {
        p
    }
}

/// An optional literal word: whether it was present, and the position after
/// it (after its surrounding whitespace) or `pos` unchanged.
pub open spec fn opt_word(s: Seq<char>, pos: int, up: Seq<char>, lo: Seq<char>) -> (bool, int) {
    match word_at(s, pos, up, lo) {
        Some(p) => (true, p),
        None => (false, pos),
    }
}

fn opt_word_match(s: &str, pos: usize, up: &str, lo: &str) -> (r: (bool, usize))
    requires
        pos <= s@.len(),
        up@.len() == lo@.len(),
    ensures
        opt_word(s@, pos as int, up@, lo@) == (r.0, r.1 as int),
        pos <= r.1 <= s@.len(),
{
    match word_match(s, pos, up, lo) {
        Some(p) => (true, p),
        None => (false, pos),
    }
}

// ---------------------------------------------------------------------------
// Selectors
// ---------------------------------------------------------------------------

/// One selector: an identifier that does not begin the `FROM` keyword,
/// an optional `AS <alias>`, and an optional comma directly after.
pub open spec fn spec_selector(s: Seq<char>, pos: int) -> Option<(SelectorV, int)> {
    let j0 = skip_ws(s, pos);
    if kw_at(s, j0, "FROM"@, "from"@) is Some {
        None
    } else {
        match spec_ident(s, j0) {
            Some((name, p1)) => {
                let p2 = skip_ws(s, p1);
                match kw_at(s, p2, "AS"@, "as"@) {
                    Some(p3) => match spec_ident(s, p3) {
                        Some((al, p4)) => Some(
                            (SelectorV { column_name: name, alias: Some(al) }, opt_comma(s, p4)),
                        ),
                        None => Some(
                            (SelectorV { column_name: name, alias: None }, opt_comma(s, p2)),
                        ),
                    },
                    None => Some((SelectorV { column_name: name, alias: None }, opt_comma(s, p2))),
                }
            },
            None => None,
        }
    }
}

fn parse_selector(s: &str, pos: usize) -> (r: Option<(Selector, usize)>)
    requires
        pos <= s@.len(),
    ensures
        match r {
            Some(v) => spec_selector(s@, pos as int) == Some((v.0@, v.1 as int)) && v.1
                <= s@.len(),
            None => spec_selector(s@, pos as int) is None,
        },
{
    proof {
        reveal_strlit("FROM");
        reveal_strlit("from");
        reveal_strlit("AS");
        reveal_strlit("as");
    }
    let j0 = skip_ws_end(s, pos);
    if kw_match(s, j0, "FROM", "from").is_some() {
        return None;
    }
    match parse_ident(s, j0) {
        Some((name, p1)) => {
            let p2 = skip_ws_end(s, p1);
            match kw_match(s, p2, "AS", "as") {
                Some(p3) => match parse_ident(s, p3) {
                    Some((al, p4)) => {
                        let e = opt_comma_match(s, p4);
                        Some((Selector { column_name: name, alias: Some(al) }, e))
                    },
                    None => {
                        let e = opt_comma_match(s, p2);
                        Some((Selector { column_name: name, alias: None }, e))
                    },
                },
                None => {
                    let e = opt_comma_match(s, p2);
                    Some((Selector { column_name: name, alias: None }, e))
                },
            }
        },
        None => None,
    }
}

/// Zero or more selectors, in order.
pub open spec fn spec_selector_list(s: Seq<char>, pos: int) -> (Seq<SelectorV>, int)
    decreases s.len() - pos,
{
    match spec_selector(s, pos) {
        Some((sel, p)) => if pos < p && p <= s.len() {
            let (rest, e) = spec_selector_list(s, p);
            (seq![sel] + rest, e)
        } else {
            (seq![sel], p)
        },
        None => (Seq::<SelectorV>::empty(), pos),
    }
}

fn parse_selector_list(s: &str, pos: usize) -> (r: (Vec<Selector>, usize))
    requires
        pos <= s@.len(),
    ensures
        spec_selector_list(s@, pos as int) == (r.0@.map_values(|x: Selector| x@), r.1 as int),
        r.1 <= s@.len(),
    decreases s@.len() - pos,
{
    let n = s.unicode_len();
    match parse_selector(s, pos) {
        Some((sel, p)) => {
            if pos < p && p <= n {
                let (mut rest, e) = parse_selector_list(s, p);
                let ghost prev = rest@;
                let mut v: Vec<Selector> = Vec::new();
                v.push(sel);
                let ghost selv = v@;
                v.append(&mut rest);
                proof {
                    assert(v@.map_values(|x: Selector| x@) =~= seq![selv[0]@] + prev.map_values(
                        |x: Selector| x@,
                    ));
                }
                (v, e)
            } else {
                let mut v: Vec<Selector> = Vec::new();
                v.push(sel);
                proof {
                    assert(v@.map_values(|x: Selector| x@) =~= seq![v@[0]@]);
                }
                (v, p)
            }
        },
        None => {
            let v: Vec<Selector> = Vec::new();
            proof {
                assert(v@.map_values(|x: Selector| x@) =~= Seq::<SelectorV>::empty());
            }
            (v, pos)
        },
    }
}

// ---------------------------------------------------------------------------
// Columns
// ---------------------------------------------------------------------------

/// One column definition: name, type, then the optional modifiers
/// `NOT NULL`, `AUTO_INCREMENT`, `PRIMARY KEY` in exactly that order.
/// A modifier out of that order is not recognized and is not reordered.
pub open spec fn spec_column(s: Seq<char>, pos: int) -> Option<(ColumnV, int)> {
    let j = skip_ws(s, pos);
    match spec_ident(s, j) {
        Some((name, p1)) => {
            let p2 = skip_ws(s, p1);
            match spec_ident(s, p2) {
                Some((vt, p3)) => {
                    let p4 = skip_ws(s, p3);
                    let (nn, p5) = opt_word(s, p4, "NOT NULL"@, "not null"@);
                    let (ai, p6) = opt_word(s, p5, "AUTO_INCREMENT"@, "auto_increment"@);
                    let (pk, p7) = opt_word(s, p6, "PRIMARY KEY"@, "primary key"@);
                    Some(
                        (
                            ColumnV {
                                name,
                                v_type: vt,
                                is_primary_key: pk,
                                is_not_null: nn,
                                auto_increment: ai,
                            },
                            p7,
                        ),
                    )
                },
                None => None,
            }
        },
        None => None,
    }
}

fn parse_column(s: &str, pos: usize) -> (r: Option<(Column, usize)>)
    requires
        pos <= s@.len(),
    ensures
        match r {
            Some(v) => spec_column(s@, pos as int) == Some((v.0@, v.1 as int)) && v.1 <= s@.len(),
            None => spec_column(s@, pos as int) is None,
        },
{
    proof {
        reveal_strlit("NOT NULL");
        reveal_strlit("not null");
        reveal_strlit("AUTO_INCREMENT");
        reveal_strlit("auto_increment");
        reveal_strlit("PRIMARY KEY");
        reveal_strlit("primary key");
    }
    let j = skip_ws_end(s, pos);
    match parse_ident(s, j) {
        Some((name, p1)) => {
            let p2 = skip_ws_end(s, p1);
            match parse_ident(s, p2) {
                Some((vt, p3)) => {
                    let p4 = skip_ws_end(s, p3);
                    let (nn, p5) = opt_word_match(s, p4, "NOT NULL", "not null");
                    let (ai, p6) = opt_word_match(s, p5, "AUTO_INCREMENT", "auto_increment");
                    let (pk, p7) = opt_word_match(s, p6, "PRIMARY KEY", "primary key");
                    Some(
                        (
                            Column {
                                name,
                                v_type: vt,
                                is_primary_key: pk,
                                is_not_null: nn,
                                auto_increment: ai,
                            },
                            p7,
                        ),
                    )
                },
                None => None,
            }
        },
        None => None,
    }
}

/// Zero or more comma-separated column definitions, in order.  A further
/// column requires a comma before it, so stray words after a column end
/// the list (and then fail the statement); a trailing comma after the
/// last column is tolerated.
pub open spec fn spec_column_list(s: Seq<char>, pos: int) -> (Seq<ColumnV>, int)
    decreases s.len() - pos,
{
    match spec_column(s, pos) {
        Some((col, p)) => if 0 <= p && p < s.len() && s[p] == ',' {
            let p2 = skip_ws(s, p + 1);
            if pos < p2 && p2 <= s.len() {
                let (rest, e) = spec_column_list(s, p2);
                (seq![col] + rest, e)
            } else {
                (seq![col], p2)
            }
        } else {
            (seq![col], p)
        },
        None => (Seq::<ColumnV>::empty(), pos),
    }
}

fn parse_column_list(s: &str, pos: usize) -> (r: (Vec<Column>, usize))
    requires
        pos <= s@.len(),
    ensures
        spec_column_list(s@, pos as int) == (r.0@.map_values(|x: Column| x@), r.1 as int),
        r.1 <= s@.len(),
    decreases s@.len() - pos,
{
    let n = s.unicode_len();
    match parse_column(s, pos) {
        Some((col, p)) => {
            if p < n && s.get_char(p) == ',' {
                let p2 = skip_ws_end(s, p + 1);
                if pos < p2 && p2 <= n {
                    let (mut rest, e) = parse_column_list(s, p2);
                    let ghost prev = rest@;
                    let mut v: Vec<Column> = Vec::new();
                    v.push(col);
                    let ghost colv = v@;
                    v.append(&mut rest);
                    proof {
                        assert(v@.map_values(|x: Column| x@) =~= seq![colv[0]@] + prev.map_values(
                            |x: Column| x@,
                        ));
                    }
                    (v, e)
                } else {
                    let mut v: Vec<Column> = Vec::new();
                    v.push(col);
                    proof {
                        assert(v@.map_values(|x: Column| x@) =~= seq![v@[0]@]);
                    }
                    (v, p2)
                }
            } else {
                let mut v: Vec<Column> = Vec::new();
                v.push(col);
                proof {
                    assert(v@.map_values(|x: Column| x@) =~= seq![v@[0]@]);
                }
                (v, p)
            }
        },
        None => {
            let v: Vec<Column> = Vec::new();
            proof {
                assert(v@.map_values(|x: Column| x@) =~= Seq::<ColumnV>::empty());
            }
            (v, pos)
        },
    }
}

// ---------------------------------------------------------------------------
// Insert pieces: field names and value expressions
// ---------------------------------------------------------------------------

/// One field name with its surrounding whitespace and optional comma.
pub open spec fn spec_field(s: Seq<char>, pos: int) -> Option<(Seq<char>, int)> {
    let j = skip_ws(s, pos);
    match spec_ident(s, j) {
        Some((f, p)) => Some((f, opt_comma(s, skip_ws(s, p)))),
        None => None,
    }
}

fn parse_field(s: &str, pos: usize) -> (r: Option<(String, usize)>)
    requires
        pos <= s@.len(),
    ensures
        match r {
            Some(v) => spec_field(s@, pos as int) == Some((v.0@, v.1 as int)) && v.1 <= s@.len(),
            None => spec_field(s@, pos as int) is None,
        },
{
    let j = skip_ws_end(s, pos);
    match parse_ident(s, j) {
        Some((f, p)) => {
            let p2 = skip_ws_end(s, p);
            Some((f, opt_comma_match(s, p2)))
        },
        None => None,
    }
}

/// Zero or more field names, in order.
pub open spec fn spec_field_list(s: Seq<char>, pos: int) -> (Seq<Seq<char>>, int)
    decreases s.len() - pos,
{
    match spec_field(s, pos) {
        Some((f, p)) => if pos < p && p <= s.len() {
            let (rest, e) = spec_field_list(s, p);
            (seq![f] + rest, e)
        } else {
            (seq![f], p)
        },
        None => (Seq::<Seq<char>>::empty(), pos),
    }
}

fn parse_field_list(s: &str, pos: usize) -> (r: (Vec<String>, usize))
    requires
        pos <= s@.len(),
    ensures
        spec_field_list(s@, pos as int) == (r.0@.map_values(|x: String| x@), r.1 as int),
        r.1 <= s@.len(),
    decreases s@.len() - pos,
{
    let n = s.unicode_len();
    match parse_field(s, pos) {
        Some((f, p)) => {
            if pos < p && p <= n {
                let (mut rest, e) = parse_field_list(s, p);
                let ghost prev = rest@;
                let mut v: Vec<String> = Vec::new();
                v.push(f);
                let ghost fv = v@;
                v.append(&mut rest);
                proof {
                    assert(v@.map_values(|x: String| x@) =~= seq![fv[0]@] + prev.map_values(
                        |x: String| x@,
                    ));
                }
                (v, e)
            } else {
                let mut v: Vec<String> = Vec::new();
                v.push(f);
                proof {
                    assert(v@.map_values(|x: String| x@) =~= seq![v@[0]@]);
                }
                (v, p)
            }
        },
        None => {
            let v: Vec<String> = Vec::new();
            proof {
                assert(v@.map_values(|x: String| x@) =~= Seq::<Seq<char>>::empty());
            }
            (v, pos)
        },
    }
}

/// One value expression with its surrounding whitespace and optional comma.
pub open spec fn spec_value(s: Seq<char>, pos: int) -> Option<(ExprV, int)> {
    let j = skip_ws(s, pos);
    match spec_equality(s, j) {
        Some((e, p)) => Some((e, opt_comma(s, skip_ws(s, p)))),
        None => None,
    }
}

fn parse_value(s: &str, pos: usize) -> (r: Option<(Expr, usize)>)
    requires
        pos <= s@.len(),
    ensures
        match r {
            Some(v) => spec_value(s@, pos as int) == Some((v.0@, v.1 as int)) && v.1 <= s@.len(),
            None => spec_value(s@, pos as int) is None,
        },
{
    let j = skip_ws_end(s, pos);
    match parse_equality(s, j) {
        Some((e, p)) => {
            let p2 = skip_ws_end(s, p);
            Some((e, opt_comma_match(s, p2)))
        },
        None => None,
    }
}

/// Zero or more value expressions, in order.
pub open spec fn spec_value_list(s: Seq<char>, pos: int) -> (Seq<ExprV>, int)
    decreases s.len() - pos,
{
    match spec_value(s, pos) {
        Some((e, p)) => if pos < p && p <= s.len() {
            let (rest, q) = spec_value_list(s, p);
            (seq![e] + rest, q)
        } else {
            (seq![e], p)
        },
        None => (Seq::<ExprV>::empty(), pos),
    }
}

fn parse_value_list(s: &str, pos: usize) -> (r: (Vec<Expr>, usize))
    requires
        pos <= s@.len(),
    ensures
        spec_value_list(s@, pos as int) == (r.0@.map_values(|x: Expr| x@), r.1 as int),
        r.1 <= s@.len(),
    decreases s@.len() - pos,
{
    let n = s.unicode_len();
    match parse_value(s, pos) {
        Some((e0, p)) => {
            if pos < p && p <= n {
                let (mut rest, e) = parse_value_list(s, p);
                let ghost prev = rest@;
                let mut v: Vec<Expr> = Vec::new();
                v.push(e0);
                let ghost ev = v@;
                v.append(&mut rest);
                proof {
                    assert(v@.map_values(|x: Expr| x@) =~= seq![ev[0]@] + prev.map_values(
                        |x: Expr| x@,
                    ));
                }
                (v, e)
            } else {
                let mut v: Vec<Expr> = Vec::new();
                v.push(e0);
                proof {
                    assert(v@.map_values(|x: Expr| x@) =~= seq![v@[0]@]);
                }
                (v, p)
            }
        },
        None => {
            let v: Vec<Expr> = Vec::new();
            proof {
                assert(v@.map_values(|x: Expr| x@) =~= Seq::<ExprV>::empty());
            }
            (v, pos)
        },
    }
}

// ---------------------------------------------------------------------------
// The WHERE clause: one or more expressions, with no connector between them
// ---------------------------------------------------------------------------

/// Zero or more bare expressions, in order, each parsed directly after the
/// previous one.
pub open spec fn spec_expr_list(s: Seq<char>, pos: int) -> (Seq<ExprV>, int)
    decreases s.len() - pos,
{
    match spec_equality(s, pos) {
        Some((e, p)) => if pos < p && p <= s.len() {
            let (rest, q) = spec_expr_list(s, p);
            (seq![e] + rest, q)
        } else {
            (seq![e], p)
        },
        None => (Seq::<ExprV>::empty(), pos),
    }
}

fn parse_expr_list(s: &str, pos: usize) -> (r: (Vec<Expr>, usize))
    requires
        pos <= s@.len(),
    ensures
        spec_expr_list(s@, pos as int) == (r.0@.map_values(|x: Expr| x@), r.1 as int),
        r.1 <= s@.len(),
    decreases s@.len() - pos,
{
    let n = s.unicode_len();
    match parse_equality(s, pos) {
        Some((e0, p)) => {
            if pos < p && p <= n {
                let (mut rest, e) = parse_expr_list(s, p);
                let ghost prev = rest@;
                let mut v: Vec<Expr> = Vec::new();
                v.push(e0);
                let ghost ev = v@;
                v.append(&mut rest);
                proof {
                    assert(v@.map_values(|x: Expr| x@) =~= seq![ev[0]@] + prev.map_values(
                        |x: Expr| x@,
                    ));
                }
                (v, e)
            } else {
                let mut v: Vec<Expr> = Vec::new();
                v.push(e0);
                proof {
                    assert(v@.map_values(|x: Expr| x@) =~= seq![v@[0]@]);
                }
                (v, p)
            }
        },
        None => {
            let v: Vec<Expr> = Vec::new();
            proof {
                assert(v@.map_values(|x: Expr| x@) =~= Seq::<ExprV>::empty());
            }
            (v, pos)
        },
    }
}

/// An optional `WHERE` clause: when the keyword is present, one or more
/// expressions must follow — `WHERE` with an empty condition list is a
/// parse failure (`None`); without the keyword the clause is absent.
pub open spec fn spec_where_opt(s: Seq<char>, pos: int) -> Option<(Option<Seq<ExprV>>, int)> {
    match kw_at(s, pos, "WHERE"@, "where"@) {
        Some(p) => {
            let (es, p2) = spec_expr_list(s, p);
            if es.len() == 0 {
                None
            } else {
                Some((Some(es), p2))
            }
        },
        None => Some((None, pos)),
    }
}

/// The offending position when a `WHERE` clause fails: where its first
/// expression should have begun.
pub open spec fn spec_where_fail_pos(s: Seq<char>, pos: int) -> int {
    match kw_at(s, pos, "WHERE"@, "where"@) {
        Some(p) => spec_expr_fail_pos(s, p),
        None => pos,
    }
}

fn parse_where_opt(s: &str, pos: usize) -> (r: Result<(Option<Vec<Expr>>, usize), usize>)
    requires
        pos <= s@.len(),
    ensures
        match r {
            Ok(v) => spec_where_opt(s@, pos as int) == Some((where_view(v.0), v.1 as int)) && v.1
                <= s@.len(),
            Err(fp) => spec_where_opt(s@, pos as int) is None && fp as int == spec_where_fail_pos(
                s@,
                pos as int,
            ) && fp <= s@.len(),
        },
{
    proof {
        reveal_strlit("WHERE");
        reveal_strlit("where");
    }
    match kw_match(s, pos, "WHERE", "where") {
        Some(p) => {
            let (es, p2) = parse_expr_list(s, p);
            if es.len() == 0 {
                Err(expr_fail_pos(s, p))
            } else {
                Ok((Some(es), p2))
            }
        },
        None => Ok((None, pos)),
    }
}

// ---------------------------------------------------------------------------
// The three statement grammars
// ---------------------------------------------------------------------------

/// `CREATE TABLE <name> ( <column>,* ) ;`
pub open spec fn spec_create_table(s: Seq<char>, pos: int) -> Option<(StatementV, int)> {
    match kw_at(s, pos, "CREATE"@, "create"@) {
        Some(p1) => match kw_at(s, p1, "TABLE"@, "table"@) {
            Some(p2) => match spec_ident(s, p2) {
                Some((tname, p3)) => match punct_at(s, p3, '(') {
                    Some(p4) => {
                        let (cols, p5) = spec_column_list(s, p4);
                        match punct_at(s, p5, ')') {
                            Some(p6) => match punct_at(s, p6, ';') {
                                Some(p7) => Some(
                                    (
                                        StatementV::CreateTable {
                                            table_name: tname,
                                            columns: cols,
                                        },
                                        p7,
                                    ),
                                ),
                                None => None,
                            },
                            None => None,
                        }
                    },
                    None => None,
                },
                None => None,
            },
            None => None,
        },
        None => None,
    }
}

/// The offending position when the `CREATE TABLE` rule fails: where the
/// missing keyword, name or punctuation was expected.  On success it is
/// the position after the statement.
pub open spec fn spec_create_table_fail_pos(s: Seq<char>, pos: int) -> int {
    match kw_at(s, pos, "CREATE"@, "create"@) {
        None => skip_ws(s, pos),
        Some(p1) => match kw_at(s, p1, "TABLE"@, "table"@) {
            None => skip_ws(s, p1),
            Some(p2) => match spec_ident(s, p2) {
                None => p2,
                Some((tname, p3)) => match punct_at(s, p3, '(') {
                    None => skip_ws(s, p3),
                    Some(p4) => {
                        let (cols, p5) = spec_column_list(s, p4);
                        match punct_at(s, p5, ')') {
                            None => skip_ws(s, p5),
                            Some(p6) => match punct_at(s, p6, ';') {
                                None => skip_ws(s, p6),
                                Some(p7) => p7,
                            },
                        }
                    },
                },
            },
        },
    }
}

fn parse_create_table(s: &str, pos: usize) -> (r: Result<(Statement, usize), usize>)
    requires
        pos <= s@.len(),
    ensures
        match r {
            Ok(v) => spec_create_table(s@, pos as int) == Some((v.0@, v.1 as int)) && v.1
                <= s@.len(),
            Err(fp) => spec_create_table(s@, pos as int) is None && fp as int
                == spec_create_table_fail_pos(s@, pos as int) && fp <= s@.len(),
        },
{
    proof {
        reveal_strlit("CREATE");
        reveal_strlit("create");
        reveal_strlit("TABLE");
        reveal_strlit("table");
    }
    match kw_match(s, pos, "CREATE", "create") {
        Some(p1) => match kw_match(s, p1, "TABLE", "table") {
            Some(p2) => match parse_ident(s, p2) {
                Some((tname, p3)) => match punct_match(s, p3, '(') {
                    Some(p4) => {
                        let (cols, p5) = parse_column_list(s, p4);
                        match punct_match(s, p5, ')') {
                            Some(p6) => match punct_match(s, p6, ';') {
                                Some(p7) => Ok(
                                    (
                                        Statement::CreateTable {
                                            table_name: tname,
                                            columns: cols,
                                        },
                                        p7,
                                    ),
                                ),
                                None => Err(skip_ws_end(s, p6)),
                            },
                            None => Err(skip_ws_end(s, p5)),
                        }
                    },
                    None => Err(skip_ws_end(s, p3)),
                },
                None => Err(p2),
            },
            None => Err(skip_ws_end(s, p1)),
        },
        None => Err(skip_ws_end(s, pos)),
    }
}

/// `INSERT INTO <name> ( <field>,* ) VALUES ( <expr>,* );` — the final
/// semicolon must follow the closing parenthesis directly.
pub open spec fn spec_insert(s: Seq<char>, pos: int) -> Option<(StatementV, int)> {
    match word_at(s, pos, "INSERT INTO"@, "insert into"@) {
        Some(p1) => match spec_ident(s, p1) {
            Some((tname, p2)) => match punct_at(s, p2, '(') {
                Some(p3) => {
                    let (fields, p4) = spec_field_list(s, p3);
                    match punct_at(s, p4, ')') {
                        Some(p5) => match word_at(s, p5, "VALUES"@, "values"@) {
                            Some(p6) => match punct_at(s, p6, '(') {
                                Some(p7) => {
                                    let (vals, p8) = spec_value_list(s, p7);
                                    match punct_at(s, p8, ')') {
                                        Some(p9) => if 0 <= p9 && p9 < s.len() && s[p9] == ';' {
                                            Some(
                                                (
                                                    StatementV::Insert {
                                                        table_name: tname,
                                                        field_names: fields,
                                                        values: vals,
                                                    },
                                                    p9 + 1,
                                                ),
                                            )
                                        } else {
                                            None
                                        },
                                        None => None,
                                    }
                                },
                                None => None,
                            },
                            None => None,
                        },
                        None => None,
                    }
                },
                None => None,
            },
            None => None,
        },
        None => None,
    }
}

/// The offending position when the `INSERT` rule fails: where the missing
/// word, name or punctuation was expected.  On success it is the position
/// after the statement.
pub open spec fn spec_insert_fail_pos(s: Seq<char>, pos: int) -> int {
    match word_at(s, pos, "INSERT INTO"@, "insert into"@) {
        None => skip_ws(s, pos),
        Some(p1) => match spec_ident(s, p1) {
            None => p1,
            Some((tname, p2)) => match punct_at(s, p2, '(') {
                None => skip_ws(s, p2),
                Some(p3) => {
                    let (fields, p4) = spec_field_list(s, p3);
                    match punct_at(s, p4, ')') {
                        None => skip_ws(s, p4),
                        Some(p5) => match word_at(s, p5, "VALUES"@, "values"@) {
                            None => skip_ws(s, p5),
                            Some(p6) => match punct_at(s, p6, '(') {
                                None => skip_ws(s, p6),
                                Some(p7) => {
                                    let (vals, p8) = spec_value_list(s, p7);
                                    match punct_at(s, p8, ')') {
                                        None => skip_ws(s, p8),
                                        Some(p9) => if 0 <= p9 && p9 < s.len() && s[p9] == ';' {
                                            p9 + 1
                                        } else {
                                            p9
                                        },
                                    }
                                },
                            },
                        },
                    }
                },
            },
        },
    }
}

fn parse_insert(s: &str, pos: usize) -> (r: Result<(Statement, usize), usize>)
    requires
        pos <= s@.len(),
    ensures
        match r {
            Ok(v) => spec_insert(s@, pos as int) == Some((v.0@, v.1 as int)) && v.1 <= s@.len(),
            Err(fp) => spec_insert(s@, pos as int) is None && fp as int == spec_insert_fail_pos(
                s@,
                pos as int,
            ) && fp <= s@.len(),
        },
{
    proof {
        reveal_strlit("INSERT INTO");
        reveal_strlit("insert into");
        reveal_strlit("VALUES");
        reveal_strlit("values");
    }
    let n = s.unicode_len();
    match word_match(s, pos, "INSERT INTO", "insert into") {
        Some(p1) => match parse_ident(s, p1) {
            Some((tname, p2)) => match punct_match(s, p2, '(') {
                Some(p3) => {
                    let (fields, p4) = parse_field_list(s, p3);
                    match punct_match(s, p4, ')') {
                        Some(p5) => match word_match(s, p5, "VALUES", "values") {
                            Some(p6) => match punct_match(s, p6, '(') {
                                Some(p7) => {
                                    let (vals, p8) = parse_value_list(s, p7);
                                    match punct_match(s, p8, ')') {
                                        Some(p9) => {
                                            if p9 < n && s.get_char(p9) == ';' {
                                                Ok(
                                                    (
                                                        Statement::Insert {
                                                            table_name: tname,
                                                            field_names: fields,
                                                            values: vals,
                                                        },
                                                        p9 + 1,
                                                    ),
                                                )
                                            } else {
                                                Err(p9)
                                            }
                                        },
                                        None => Err(skip_ws_end(s, p8)),
                                    }
                                },
                                None => Err(skip_ws_end(s, p6)),
                            },
                            None => Err(skip_ws_end(s, p5)),
                        },
                        None => Err(skip_ws_end(s, p4)),
                    }
                },
                None => Err(skip_ws_end(s, p2)),
            },
            None => Err(p1),
        },
        None => Err(skip_ws_end(s, pos)),
    }
}

/// `SELECT <selector>,* FROM <name> [WHERE <expr>+] ;`
pub open spec fn spec_select(s: Seq<char>, pos: int) -> Option<(StatementV, int)> {
    match kw_at(s, pos, "SELECT"@, "select"@) {
        Some(p1) => {
            let (sels, p2) = spec_selector_list(s, p1);
            match kw_at(s, p2, "FROM"@, "from"@) {
                Some(p3) => match spec_ident(s, p3) {
                    Some((tname, p4)) => {
                        let p5 = skip_ws(s, p4);
                        match spec_where_opt(s, p5) {
                            Some((wc, p6)) => match punct_at(s, p6, ';') {
                                Some(p7) => Some(
                                    (
                                        StatementV::Select {
                                            table_name: tname,
                                            selectors: sels,
                                            where_conditions: wc,
                                        },
                                        p7,
                                    ),
                                ),
                                None => None,
                            },
                            None => None,
                        }
                    },
                    None => None,
                },
                None => None,
            }
        },
        None => None,
    }
}

/// The offending position when the `SELECT` rule fails: where the missing
/// keyword, table name, condition or semicolon was expected.  On success
/// it is the position after the statement.
pub open spec fn spec_select_fail_pos(s: Seq<char>, pos: int) -> int {
    match kw_at(s, pos, "SELECT"@, "select"@) {
        None => skip_ws(s, pos),
        Some(p1) => {
            let (sels, p2) = spec_selector_list(s, p1);
            match kw_at(s, p2, "FROM"@, "from"@) {
                None => skip_ws(s, p2),
                Some(p3) => match spec_ident(s, p3) {
                    None => p3,
                    Some((tname, p4)) => {
                        let p5 = skip_ws(s, p4);
                        match spec_where_opt(s, p5) {
                            None => spec_where_fail_pos(s, p5),
                            Some((wc, p6)) => match punct_at(s, p6, ';') {
                                None => skip_ws(s, p6),
                                Some(p7) => p7,
                            },
                        }
                    },
                },
            }
        },
    }
}

fn parse_select(s: &str, pos: usize) -> (r: Result<(Statement, usize), usize>)
    requires
        pos <= s@.len(),
    ensures
        match r {
            Ok(v) => spec_select(s@, pos as int) == Some((v.0@, v.1 as int)) && v.1 <= s@.len(),
            Err(fp) => spec_select(s@, pos as int) is None && fp as int == spec_select_fail_pos(
                s@,
                pos as int,
            ) && fp <= s@.len(),
        },
{
    proof {
        reveal_strlit("SELECT");
        reveal_strlit("select");
        reveal_strlit("FROM");
        reveal_strlit("from");
    }
    match kw_match(s, pos, "SELECT", "select") {
        Some(p1) => {
            let (sels, p2) = parse_selector_list(s, p1);
            match kw_match(s, p2, "FROM", "from") {
                Some(p3) => match parse_ident(s, p3) {
                    Some((tname, p4)) => {
                        let p5 = skip_ws_end(s, p4);
                        match parse_where_opt(s, p5) {
                            Ok((wc, p6)) => match punct_match(s, p6, ';') {
                                Some(p7) => Ok(
                                    (
                                        Statement::Select {
                                            table_name: tname,
                                            selectors: sels,
                                            where_conditions: wc,
                                        },
                                        p7,
                                    ),
                                ),
                                None => Err(skip_ws_end(s, p6)),
                            },
                            Err(fp) => Err(fp),
                        }
                    },
                    None => Err(p3),
                },
                None => Err(skip_ws_end(s, p2)),
            }
        },
        None => Err(skip_ws_end(s, pos)),
    }
}

// ---------------------------------------------------------------------------
// The top-level dispatcher
// ---------------------------------------------------------------------------

/// A rule's result counts only when it consumed the whole input.
pub open spec fn stmt_at_end(r: Option<(StatementV, int)>, n: int) -> Option<StatementV> {
    match r {
        Some((st, p)) => if p == n {
            Some(st)
        } else {
            None
        },
        None => None,
    }
}

/// The statement assigned to a whole input: the three rules are tried in
/// priority order — `CREATE TABLE`, then `INSERT`, then `SELECT` — and the
/// first that matches the full input wins.
pub open spec fn spec_parse_statement(s: Seq<char>) -> Option<StatementV> {
    let c = stmt_at_end(spec_create_table(s, 0), s.len() as int);
    let i = stmt_at_end(spec_insert(s, 0), s.len() as int);
    let q = stmt_at_end(spec_select(s, 0), s.len() as int);
    if c is Some {
        c
    } else if i is Some {
        i
    } else {
        q
    }
}

/// Where one rule stopped: the end of the statement it recognized (its
/// leftover begins there), or the position at which it failed.
pub open spec fn spec_stop_pos(r: Option<(StatementV, int)>, fp: int) -> int {
    match r {
        Some((st, p)) => p,
        None => fp,
    }
}

/// The position reported when no rule matches the whole input: the
/// furthest position any of the three rules reached.
pub open spec fn spec_statement_fail_pos(s: Seq<char>) -> int {
    let c = spec_stop_pos(spec_create_table(s, 0), spec_create_table_fail_pos(s, 0));
    let i = spec_stop_pos(spec_insert(s, 0), spec_insert_fail_pos(s, 0));
    let q = spec_stop_pos(spec_select(s, 0), spec_select_fail_pos(s, 0));
    if c >= i && c >= q {
        c
    } else if i >= q {
        i
    } else {
        q
    }
}

/// The `CREATE TABLE` tree assigned to the start of an input.
pub open spec fn spec_parse_create_table(s: Seq<char>) -> Option<StatementV> {
    match spec_create_table(s, 0) {
        Some((st, _p)) => Some(st),
        None => None,
    }
}

/// The `INSERT` tree assigned to the start of an input.
pub open spec fn spec_parse_insert(s: Seq<char>) -> Option<StatementV> {
    match spec_insert(s, 0) {
        Some((st, _p)) => Some(st),
        None => None,
    }
}

/// The `SELECT` tree assigned to the start of an input.
pub open spec fn spec_parse_select(s: Seq<char>) -> Option<StatementV> {
    match spec_select(s, 0) {
        Some((st, _p)) => Some(st),
        None => None,
    }
}

/// Parser for a complete statement of any of the three forms.
pub struct StatementParser {}

/// Parser for a `SELECT` statement.
pub struct SelectParser {}

/// Parser for a `CREATE TABLE` statement.
pub struct CreateTableParser {}

/// Parser for an `INSERT` statement.
pub struct InsertParser {}

/// The full statement grammar as a value whose `parse` method runs it.
pub fn gen_parser() -> (r: StatementParser) {
    StatementParser {  }
}

/// The `SELECT` grammar as a value whose `parse` method runs it.
pub fn gen_parser_select_statement() -> (r: SelectParser) {
    SelectParser {  }
}

/// The `CREATE TABLE` grammar as a value whose `parse` method runs it.
pub fn gen_parser_create_table_statement() -> (r: CreateTableParser) {
    CreateTableParser {  }
}

/// The `INSERT` grammar as a value whose `parse` method runs it.
pub fn gen_parser_insert_statement() -> (r: InsertParser) {
    InsertParser {  }
}

impl StatementParser {
    /// Parse one complete statement: the three rules are tried in priority
    /// order and the first that matches the whole of `source` wins.  When
    /// none does, no tree is returned; the error carries the furthest
    /// position any rule reached — where the best attempt went wrong.
    pub fn parse(&self, source: &str) -> (r: Result<Statement, SyntaxError>)
        ensures
            match r {
                Ok(st) => spec_parse_statement(source@) == Some(st@),
                Err(er) => spec_parse_statement(source@) is None && er.pos as int
                    == spec_statement_fail_pos(source@),
            },
    {
        let n = source.unicode_len();
        let c_stop = match parse_create_table(source, 0) {
            Ok((st, p)) => {
                if p == n {
                    return Ok(st);
                }
                p
            },
            Err(fp) => fp,
        };
        let i_stop = match parse_insert(source, 0) {
            Ok((st, p)) => {
                if p == n {
                    return Ok(st);
                }
                p
            },
            Err(fp) => fp,
        };
        let q_stop = match parse_select(source, 0) {
            Ok((st, p)) => {
                if p == n {
                    return Ok(st);
                }
                p
            },
            Err(fp) => fp,
        };
        let mut worst = c_stop;
        if i_stop > worst {
            worst = i_stop;
        }
        if q_stop > worst {
            worst = q_stop;
        }
        Err(SyntaxError { pos: worst })
    }
}

impl SelectParser {
    /// Parse a `SELECT` statement from the start of `source`; text after
    /// its terminating semicolon is ignored.  On failure the error carries
    /// the rule's offending position.
    pub fn parse(&self, source: &str) -> (r: Result<Statement, SyntaxError>)
        ensures
            match r {
                Ok(st) => spec_parse_select(source@) == Some(st@),
                Err(er) => spec_parse_select(source@) is None && er.pos as int
                    == spec_select_fail_pos(source@, 0),
            },
    {
        match parse_select(source, 0) {
            Ok((st, _p)) => Ok(st),
            Err(fp) => Err(SyntaxError { pos: fp }),
        }
    }
}

impl CreateTableParser {
    /// Parse a `CREATE TABLE` statement from the start of `source`; text
    /// after its terminating semicolon is ignored.  On failure the error
    /// carries the rule's offending position.
    pub fn parse(&self, source: &str) -> (r: Result<Statement, SyntaxError>)
        ensures
            match r {
                Ok(st) => spec_parse_create_table(source@) == Some(st@),
                Err(er) => spec_parse_create_table(source@) is None && er.pos as int
                    == spec_create_table_fail_pos(source@, 0),
            },
    {
        match parse_create_table(source, 0) {
            Ok((st, _p)) => Ok(st),
            Err(fp) => Err(SyntaxError { pos: fp }),
        }
    }
}

impl InsertParser {
    /// Parse an `INSERT` statement from the start of `source`; text after
    /// its terminating semicolon is ignored.  On failure the error carries
    /// the rule's offending position.
    pub fn parse(&self, source: &str) -> (r: Result<Statement, SyntaxError>)
        ensures
            match r {
                Ok(st) => spec_parse_insert(source@) == Some(st@),
                Err(er) => spec_parse_insert(source@) is None && er.pos as int
                    == spec_insert_fail_pos(source@, 0),
            },
    {
        match parse_insert(source, 0) {
            Ok((st, _p)) => Ok(st),
            Err(fp) => Err(SyntaxError { pos: fp }),
        }
    }
}

} // verus!
