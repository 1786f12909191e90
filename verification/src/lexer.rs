//! Hand-written lexer: one classified token at a time from a cursor over
//! an owned source string, with `k`-token lookahead that never moves the
//! cursor.
//!
//! Keyword recognition here is literal and case-sensitive: once the first
//! character of a keyword is seen, the remaining characters must follow,
//! or the scan fails — there is no fallback to identifier classification.
//! `spec_next_pop` is the mathematical model of one scanning step.

use vstd::prelude::*;
use vstd::string::StrSliceExecFns;

use crate::scan::{digit_run, digit_run_end, ident_run, ident_run_end, is_digit, is_digit_char,
    is_ident_start, is_ident_start_char, lit_at, lit_match};

verus! {

/// A classified lexical unit.
#[derive(Debug, PartialEq, Eq)]
pub enum Tocken {
    SELECT,
    FROM,
    WHERE,
    CREATE,
    TABLE,
    OpenParenthesis,
    CloseParenthesis,
    COMMA,
    SEMICON,
    AND,
    OR,
    EOF,
    EQUAL,
    ColumnName(String),
    StringLiteral(String),
    NumberLiteral(String),
}

/// Mathematical counterpart of `Tocken`, with payloads as `Seq<char>`.
pub enum TockenV {
    SELECT,
    FROM,
    WHERE,
    CREATE,
    TABLE,
    OpenParenthesis,
    CloseParenthesis,
    COMMA,
    SEMICON,
    AND,
    OR,
    EOF,
    EQUAL,
    ColumnName(Seq<char>),
    StringLiteral(Seq<char>),
    NumberLiteral(Seq<char>),
}

impl View for Tocken {
    type V = TockenV;

    open spec fn view(&self) -> TockenV {
        match self {
            Tocken::SELECT => TockenV::SELECT,
            Tocken::FROM => TockenV::FROM,
            Tocken::WHERE => TockenV::WHERE,
            Tocken::CREATE => TockenV::CREATE,
            Tocken::TABLE => TockenV::TABLE,
            Tocken::OpenParenthesis => TockenV::OpenParenthesis,
            Tocken::CloseParenthesis => TockenV::CloseParenthesis,
            Tocken::COMMA => TockenV::COMMA,
            Tocken::SEMICON => TockenV::SEMICON,
            Tocken::AND => TockenV::AND,
            Tocken::OR => TockenV::OR,
            Tocken::EOF => TockenV::EOF,
            Tocken::EQUAL => TockenV::EQUAL,
            Tocken::ColumnName(t) => TockenV::ColumnName(t@),
            Tocken::StringLiteral(t) => TockenV::StringLiteral(t@),
            Tocken::NumberLiteral(t) => TockenV::NumberLiteral(t@),
        }
    }
}

/// A character-level recognition failure, carrying the offending input
/// position: the character offset at which the failing token begins.
#[derive(Debug)]
pub struct ParseError {
    pub pos: usize,
}

/// Length of the run of characters other than `"` starting at `pos`.
pub open spec fn nondq_run(s: Seq<char>, pos: int) -> nat
    decreases s.len() - pos,
{
    if 0 <= pos && pos < s.len() && s[pos] != '"' {
        (nondq_run(s, pos + 1) + 1) as nat
    } else {
        0
    }
}

/// One scanning step at `pos`: the token recognized there and the cursor
/// position after it, or `None` on a lexical error.  Spaces are skipped by
/// re-scanning; end of input yields `EOF` without moving.
pub open spec fn spec_next_pop(s: Seq<char>, pos: int) -> Option<(TockenV, int)>
    decreases s.len() - pos,
{
    if !(0 <= pos && pos < s.len()) {
        Some((TockenV::EOF, pos))
    } else {
        let c = s[pos];
        if c == '(' {
            Some((TockenV::OpenParenthesis, pos + 1))
        } else if c == ')' {
            Some((TockenV::CloseParenthesis, pos + 1))
        } else if c == ';' {
            Some((TockenV::SEMICON, pos + 1))
        } else if c == 'A' {
            if lit_at(s, pos, "AND"@) {
                Some((TockenV::AND, pos + 3))
            } else {
                None
            }
        } else if c == 'O' {
            if lit_at(s, pos, "OR"@) {
                Some((TockenV::OR, pos + 2))
            } else {
                None
            }
        } else if c == 'W' {
            if lit_at(s, pos, "WHERE"@) {
                Some((TockenV::WHERE, pos + 5))
            } else {
                None
            }
        } else if c == 'S' {
            if lit_at(s, pos, "SELECT"@) {
                Some((TockenV::SELECT, pos + 6))
            } else {
                None
            }
        } else if c == 'C' {
            if lit_at(s, pos, "CREATE"@) {
                Some((TockenV::CREATE, pos + 6))
            } else {
                None
            }
        } else if c == 'T' {
            if lit_at(s, pos, "TABLE"@) {
                Some((TockenV::TABLE, pos + 5))
            } else {
                None
            }
        } else if c == 'F' {
            if lit_at(s, pos, "FROM"@) {
                Some((TockenV::FROM, pos + 4))
            } else {
                None
            }
        } else if c == '"' {
            let e = pos + 1 + nondq_run(s, pos + 1);
            if e < s.len() {
                Some((TockenV::StringLiteral(s.subrange(pos + 1, e)), e + 1))
            } else {
                None
            }
        } else if c == ',' {
            Some((TockenV::COMMA, pos + 1))
        } else if c == '=' {
            Some((TockenV::EQUAL, pos + 1))
        } else if c == ' ' {
            spec_next_pop(s, pos + 1)
        } else if is_digit_char(c) {
            let e = if c == '0' {
                pos + 1
            } else {
                pos + digit_run(s, pos)
            };
            Some((TockenV::NumberLiteral(s.subrange(pos, e)), e))
        } else if is_ident_start_char(c) {
            Some((TockenV::ColumnName(s.subrange(pos, pos + ident_run(s, pos))), pos + ident_run(
                s,
                pos,
            )))
        } else {
            None
        }
    }
}

/// The `k`-th token ahead of `pos` (`EOF` for `k == 0`), or `None` when a
/// lexical error occurs within the first `k` tokens.
pub open spec fn spec_peek(s: Seq<char>, pos: int, k: nat) -> Option<TockenV>
    decreases k,
{
    if k == 0 {
        Some(TockenV::EOF)
    } else {
        match spec_next_pop(s, pos) {
            Some((t, p)) => if k == 1 {
                Some(t)
            } else {
                spec_peek(s, p, (k - 1) as nat)
            },
            None => None,
        }
    }
}

/// The position reported when scanning at `pos` fails: the first
/// non-space position, where the failing token begins.
pub open spec fn spec_lex_fail_pos(s: Seq<char>, pos: int) -> int
    decreases s.len() - pos,
{
    if 0 <= pos && pos < s.len() && s[pos] == ' ' {
        spec_lex_fail_pos(s, pos + 1)
    } else {
        pos
    }
}

/// The position reported when looking `k` tokens ahead of `pos` meets a
/// lexical error: the start of the first token that fails to scan.
pub open spec fn spec_peek_fail_pos(s: Seq<char>, pos: int, k: nat) -> int
    decreases k,
{
    match spec_next_pop(s, pos) {
        Some((t, p)) => if k <= 1 {
            p
        } else {
            spec_peek_fail_pos(s, p, (k - 1) as nat)
        },
        None => spec_lex_fail_pos(s, pos),
    }
}

/// First index at or after `pos` holding a character other than a space.
fn space_end(s: &str, pos: usize) -> (r: usize)
    requires
        pos <= s@.len(),
    ensures
        pos <= r <= s@.len(),
        spec_next_pop(s@, pos as int) == spec_next_pop(s@, r as int),
        spec_lex_fail_pos(s@, pos as int) == r as int,
        r < s@.len() ==> s@[r as int] != ' ',
{
    let n = s.unicode_len();
    let mut i = pos;
    while i < n
        invariant
            pos <= i <= n,
            n == s@.len(),
            spec_next_pop(s@, pos as int) == spec_next_pop(s@, i as int),
            spec_lex_fail_pos(s@, pos as int) == spec_lex_fail_pos(s@, i as int),
        decreases n - i,
    {
        let c = s.get_char(i);
        if c != ' ' {
            return i;
        }
        i = i + 1;
    }
    i
}

/// Cursor over an owned source string.
pub struct Lexer {
    source: String,
    current: usize,
}

/// Abstract state of a `Lexer`: the source text and the cursor offset.
pub struct LexerV {
    pub source: Seq<char>,
    pub current: int,
}

impl View for Lexer {
    type V = LexerV;

    closed spec fn view(&self) -> LexerV {
        LexerV { source: self.source@, current: self.current as int }
    }
}

impl Lexer {
    /// A lexer positioned at the start of `source`.
    pub fn new(source: String) -> (r: Lexer)
        ensures
            r@.source == source@,
            r@.current == 0,
    {
        Lexer { source: source, current: 0 }
    }

    /// Look ahead `k` tokens without moving the cursor: the `k`-th token
    /// from here (`EOF` when `k` is zero or the input runs out first), or
    /// the lexical error met on the way.  The cursor is restored in every
    /// case.
    pub fn next(&mut self, k: usize) -> (r: Result<Tocken, ParseError>)
        ensures
            final(self)@.source == old(self)@.source,
            final(self)@.current == old(self)@.current,
            match r {
                Ok(t) => spec_peek(old(self)@.source, old(self)@.current, k as nat) == Some(t@),
                Err(e) => spec_peek(old(self)@.source, old(self)@.current, k as nat) is None
                    && e.pos as int == spec_peek_fail_pos(
                    old(self)@.source,
                    old(self)@.current,
                    k as nat,
                ),
            },
    {
        let saved = self.current;
        let ghost s0 = old(self)@.source;
        let ghost c0 = old(self)@.current;
        let mut result = Tocken::EOF;
        let mut i: usize = 0;
        while i < k
            invariant
                i <= k,
                s0 == old(self)@.source,
                c0 == old(self)@.current,
                self@.source == s0,
                saved as int == c0,
                spec_peek(s0, c0, k as nat) == (if i < k {
                    spec_peek(s0, self@.current, (k - i) as nat)
                } else {
                    Some(result@)
                }),
                i < k ==> spec_peek_fail_pos(s0, c0, k as nat) == spec_peek_fail_pos(
                    s0,
                    self@.current,
                    (k - i) as nat,
                ),
            decreases k - i,
        {
            let ghost cur_pre = self@.current;
            match self.next_pop() {
                Ok(t) => {
                    result = t;
                },
                Err(e) => {
                    self.current = saved;
                    proof {
                        assert(spec_peek(s0, cur_pre, (k - i) as nat) is None);
                        assert(spec_peek_fail_pos(s0, cur_pre, (k - i) as nat)
                            == spec_lex_fail_pos(s0, cur_pre));
                    }
                    return Err(e);
                },
            }
            i = i + 1;
        }
        self.current = saved;
        Ok(result)
    }

    /// Recognize and consume exactly one token, advancing the cursor past
    /// it; on a lexical error the cursor is left where it was.
    pub fn next_pop(&mut self) -> (r: Result<Tocken, ParseError>)
        ensures
            final(self)@.source == old(self)@.source,
            match r {
                Ok(t) => spec_next_pop(old(self)@.source, old(self)@.current) == Some(
                    (t@, final(self)@.current),
                ),
                Err(e) => spec_next_pop(old(self)@.source, old(self)@.current) is None
                    && final(self)@.current == old(self)@.current
                    && e.pos as int == spec_lex_fail_pos(
                    old(self)@.source,
                    old(self)@.current,
                ),
            },
    {
        let saved = self.current;
        match self.scan_token() {
            Ok(t) => Ok(t),
            Err(e) => {
                self.current = saved;
                Err(e)
            },
        }
    }

    /// One scanning step; on error the cursor may rest mid-token.
    fn scan_token(&mut self) -> (r: Result<Tocken, ParseError>)
        ensures
            final(self)@.source == old(self)@.source,
            match r {
                Ok(t) => spec_next_pop(old(self)@.source, old(self)@.current) == Some(
                    (t@, final(self)@.current),
                ),
                Err(e) => spec_next_pop(old(self)@.source, old(self)@.current) is None && e.pos
                    as int == spec_lex_fail_pos(old(self)@.source, old(self)@.current),
            },
    {
        let n = self.source.as_str().unicode_len();
        if self.current >= n {
            return Ok(Tocken::EOF);
        }
        let p = space_end(self.source.as_str(), self.current);
        self.current = p;
        match self.next_char() {
            None => Ok(Tocken::EOF),
            Some(c) => {
                if c == '(' {
                    self.current = self.current + 1;
                    Ok(Tocken::OpenParenthesis)
                } else if c == ')' {
                    self.current = self.current + 1;
                    Ok(Tocken::CloseParenthesis)
                } else if c == ';' {
                    self.current = self.current + 1;
                    Ok(Tocken::SEMICON)
                } else if c == 'A' {
                    proof {
                        reveal_strlit("AND");
                    }
                    if lit_match(self.source.as_str(), self.current, "AND") {
                        self.current = self.current + 3;
                        Ok(Tocken::AND)
                    } else {
                        Err(ParseError { pos: self.current })
                    }
                } else if c == 'O' {
                    proof {
                        reveal_strlit("OR");
                    }
                    if lit_match(self.source.as_str(), self.current, "OR") {
                        self.current = self.current + 2;
                        Ok(Tocken::OR)
                    } else {
                        Err(ParseError { pos: self.current })
                    }
                } else if c == 'W' {
                    proof {
                        reveal_strlit("WHERE");
                    }
                    if lit_match(self.source.as_str(), self.current, "WHERE") {
                        self.current = self.current + 5;
                        Ok(Tocken::WHERE)
                    } else {
                        Err(ParseError { pos: self.current })
                    }
                } else if c == 'S' {
                    proof {
                        reveal_strlit("SELECT");
                    }
                    if lit_match(self.source.as_str(), self.current, "SELECT") {
                        self.current = self.current + 6;
                        Ok(Tocken::SELECT)
                    } else {
                        Err(ParseError { pos: self.current })
                    }
                } else if c == 'C' {
                    proof {
                        reveal_strlit("CREATE");
                    }
                    if lit_match(self.source.as_str(), self.current, "CREATE") {
                        self.current = self.current + 6;
                        Ok(Tocken::CREATE)
                    } else {
                        Err(ParseError { pos: self.current })
                    }
                } else if c == 'T' {
                    proof {
                        reveal_strlit("TABLE");
                    }
                    if lit_match(self.source.as_str(), self.current, "TABLE") {
                        self.current = self.current + 5;
                        Ok(Tocken::TABLE)
                    } else {
                        Err(ParseError { pos: self.current })
                    }
                } else if c == 'F' {
                    proof {
                        reveal_strlit("FROM");
                    }
                    if lit_match(self.source.as_str(), self.current, "FROM") {
                        self.current = self.current + 4;
                        Ok(Tocken::FROM)
                    } else {
                        Err(ParseError { pos: self.current })
                    }
                } else if c == '"' {
                    let e = nondq_end(self.source.as_str(), self.current + 1);
                    if e < n {
                        let text = self.source.as_str().substring_char(
                            self.current + 1,
                            e,
                        ).to_owned();
                        self.current = e + 1;
                        Ok(Tocken::StringLiteral(text))
                    } else {
                        Err(ParseError { pos: self.current })
                    }
                } else if c == ',' {
                    match self.expect(',') {
                        Ok(_) => Ok(Tocken::COMMA),
                        Err(e) => Err(e),
                    }
                } else if c == '=' {
                    match self.expect('=') {
                        Ok(_) => Ok(Tocken::EQUAL),
                        Err(e) => Err(e),
                    }
                } else if is_digit(c) {
                    let e = if c == '0' {
                        self.current + 1
                    } else {
                        digit_run_end(self.source.as_str(), self.current)
                    };
                    let text = self.source.as_str().substring_char(self.current, e).to_owned();
                    self.current = e;
                    Ok(Tocken::NumberLiteral(text))
                } else if is_ident_start(c) {
                    let e = ident_run_end(self.source.as_str(), self.current);
                    let text = self.source.as_str().substring_char(self.current, e).to_owned();
                    self.current = e;
                    Ok(Tocken::ColumnName(text))
                } else {
                    Err(ParseError { pos: self.current })
                }
            },
        }
    }

    /// Consume `ch` at the cursor, or fail without moving.
    fn expect(&mut self, ch: char) -> (r: Result<(), ParseError>)
        ensures
            final(self)@.source == old(self)@.source,
            match r {
                Ok(_) => old(self)@.current < old(self)@.source.len()
                    && old(self)@.source[old(self)@.current] == ch
                    && final(self)@.current == old(self)@.current + 1,
                Err(e) => final(self)@.current == old(self)@.current
                    && e.pos as int == old(self)@.current
                    && !(old(self)@.current < old(self)@.source.len()
                        && old(self)@.source[old(self)@.current] == ch),
            },
    {
        let n = self.source.as_str().unicode_len();
        if self.current >= n {
            return Err(ParseError { pos: self.current });
        }
        let c = self.source.as_str().get_char(self.current);
        if c == ch {
            self.current = self.current + 1;
            Ok(())
        } else {
            Err(ParseError { pos: self.current })
        }
    }

    /// The character at the cursor, without consuming it.
    fn next_char(&self) -> (r: Option<char>)
        ensures
            r == (if self@.current < self@.source.len() {
                Some(self@.source[self@.current])
            } else {
                None::<char>
            }),
    {
        let n = self.source.as_str().unicode_len();
        if self.current < n {
            Some(self.source.as_str().get_char(self.current))
        } else {
            None
        }
    }
}

/// First index at or after `pos` whose character is `"` , or the length.
fn nondq_end(s: &str, pos: usize) -> (r: usize)
    requires
        pos <= s@.len(),
    ensures
        r == pos + nondq_run(s@, pos as int),
        r <= s@.len(),
        r < s@.len() ==> s@[r as int] == '"',
{
    let n = s.unicode_len();
    let mut i = pos;
    while i < n
        invariant
            pos <= i <= n,
            n == s@.len(),
            nondq_run(s@, pos as int) == i - pos + nondq_run(s@, i as int),
        decreases n - i,
    {
        let c = s.get_char(i);
        if c == '"' {
            assert(nondq_run(s@, i as int) == 0);
            return i;
        }
        i = i + 1;
    }
    assert(nondq_run(s@, i as int) == 0);
    i
}

} // verus!
