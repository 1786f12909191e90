//! Character-level scanning: character classes, maximal runs, literal
//! matches, and the numeric value of a digit sequence.
//!
//! These spec functions are the vocabulary in which both the lexer and
//! the grammar state what they recognize; the exec functions are their
//! verified mirrors over `&str`.

use vstd::prelude::*;
use vstd::string::StrSliceExecFns;

verus! {

// ---------------------------------------------------------------------------
// Character classes
// ---------------------------------------------------------------------------

/// A decimal digit `0`..`9`.
pub open spec fn is_digit_char(c: char) -> bool {
    ('0' as u32) <= (c as u32) && (c as u32) <= ('9' as u32)
}

/// A character that may start an identifier: `[_a-zA-Z]`.
pub open spec fn is_ident_start_char(c: char) -> bool {
    c == '_' || (('a' as u32) <= (c as u32) && (c as u32) <= ('z' as u32)) || (('A' as u32) <= (
    c as u32) && (c as u32) <= ('Z' as u32))
}

/// A character that may continue an identifier: `[_a-zA-Z0-9]`.
pub open spec fn is_ident_char(c: char) -> bool {
    is_ident_start_char(c) || is_digit_char(c)
}

pub fn is_digit(c: char) -> (r: bool)
    ensures
        r == is_digit_char(c),
{
    let u = c as u32;
    ('0' as u32) <= u && u <= ('9' as u32)
}

pub fn is_ident_start(c: char) -> (r: bool)
    ensures
        r == is_ident_start_char(c),
{
    let u = c as u32;
    c == '_' || (('a' as u32) <= u && u <= ('z' as u32)) || (('A' as u32) <= u && u <= (
    'Z' as u32))
}

pub fn is_ident(c: char) -> (r: bool)
    ensures
        r == is_ident_char(c),
{
    is_ident_start(c) || is_digit(c)
}

// ---------------------------------------------------------------------------
// Maximal runs
// ---------------------------------------------------------------------------

/// Length of the maximal run of digits starting at `pos`.
pub open spec fn digit_run(s: Seq<char>, pos: int) -> nat
    decreases s.len() - pos,
{
    if 0 <= pos && pos < s.len() && is_digit_char(s[pos]) {
        (digit_run(s, pos + 1) + 1) as nat
    } else {
        0
    }
}

/// Length of the maximal run of identifier characters starting at `pos`.
pub open spec fn ident_run(s: Seq<char>, pos: int) -> nat
    decreases s.len() - pos,
{
    if 0 <= pos && pos < s.len() && is_ident_char(s[pos]) {
        (ident_run(s, pos + 1) + 1) as nat
    } else {
        0
    }
}

pub proof fn lemma_digit_run_in_bounds(s: Seq<char>, pos: int)
    requires
        0 <= pos <= s.len(),
    ensures
        pos + digit_run(s, pos) <= s.len(),
        forall|k: int| pos <= k < pos + digit_run(s, pos) ==> is_digit_char(s[k]),
    decreases s.len() - pos,
{
    if pos < s.len() && is_digit_char(s[pos]) {
        lemma_digit_run_in_bounds(s, pos + 1);
    }
}

/// One past the maximal digit run beginning at `pos`.
pub fn digit_run_end(s: &str, pos: usize) -> (r: usize)
    requires
        pos <= s@.len(),
    ensures
        r == pos + digit_run(s@, pos as int),
        r <= s@.len(),
{
    let n = s.unicode_len();
    let mut i = pos;
    while i < n
        invariant
            pos <= i <= n,
            n == s@.len(),
            digit_run(s@, pos as int) == i - pos + digit_run(s@, i as int),
        decreases n - i,
    {
        let c = s.get_char(i);
        if !is_digit(c) {
            assert(digit_run(s@, i as int) == 0);
            return i;
        }
        i = i + 1;
    }
    assert(digit_run(s@, i as int) == 0);
    i
}

/// One past the maximal identifier-character run beginning at `pos`.
pub fn ident_run_end(s: &str, pos: usize) -> (r: usize)
    requires
        pos <= s@.len(),
    ensures
        r == pos + ident_run(s@, pos as int),
        r <= s@.len(),
{
    let n = s.unicode_len();
    let mut i = pos;
    while i < n
        invariant
            pos <= i <= n,
            n == s@.len(),
            ident_run(s@, pos as int) == i - pos + ident_run(s@, i as int),
        decreases n - i,
    {
        let c = s.get_char(i);
        if !is_ident(c) {
            assert(ident_run(s@, i as int) == 0);
            return i;
        }
        i = i + 1;
    }
    assert(ident_run(s@, i as int) == 0);
    i
}

// ---------------------------------------------------------------------------
// Literal match
// ---------------------------------------------------------------------------

/// The characters of `w` occur verbatim in `s` starting at `pos`.
pub open spec fn lit_at(s: Seq<char>, pos: int, w: Seq<char>) -> bool {
    0 <= pos && pos + w.len() <= s.len() && s.subrange(pos, pos + w.len()) == w
}

pub fn lit_match(s: &str, pos: usize, w: &str) -> (r: bool)
    requires
        pos <= s@.len(),
    ensures
        r == lit_at(s@, pos as int, w@),
{
    let n = s.unicode_len();
    let m = w.unicode_len();
    if m > n - pos {
        assert(!lit_at(s@, pos as int, w@));
        return false;
    }
    let mut i: usize = 0;
    while i < m
        invariant
            0 <= i <= m,
            pos + m <= n,
            n == s@.len(),
            m == w@.len(),
            forall|k: int| 0 <= k < i ==> s@[pos + k] == w@[k],
        decreases m - i,
    {
        let cs = s.get_char(pos + i);
        let cw = w.get_char(i);
        if cs != cw {
            proof {
                assert(s@.subrange(pos as int, pos + w@.len())[i as int] == s@[pos + i]);
            }
            return false;
        }
        i = i + 1;
    }
    proof {
        assert(s@.subrange(pos as int, pos + w@.len()) =~= w@);
    }
    true
}

// ---------------------------------------------------------------------------
// Value of a digit sequence
// ---------------------------------------------------------------------------

/// Numeric value of a digit character.
pub open spec fn digit_val(c: char) -> int {
    (c as u32) - ('0' as u32)
}

/// Every character of `s` is a decimal digit.
pub open spec fn all_digits(s: Seq<char>) -> bool {
    forall|i: int| 0 <= i < s.len() ==> is_digit_char(s[i])
}

/// The number denoted by a sequence of decimal digits, most significant first.
pub open spec fn seq_to_num(s: Seq<char>) -> int
    decreases s.len(),
{
    if s.len() == 0 {
        0
    } else {
        seq_to_num(s.drop_last()) * 10 + digit_val(s.last())
    }
}

pub proof fn lemma_seq_to_num_nonneg(s: Seq<char>)
    requires
        all_digits(s),
    ensures
        seq_to_num(s) >= 0,
    decreases s.len(),
{
    if s.len() > 0 {
        assert(all_digits(s.drop_last()));
        lemma_seq_to_num_nonneg(s.drop_last());
        assert(is_digit_char(s.last()));
    }
}

/// Extending a digit sequence on the right cannot decrease its value.
pub proof fn lemma_seq_to_num_prefix_le(s: Seq<char>, k: int)
    requires
        all_digits(s),
        0 <= k <= s.len(),
    ensures
        seq_to_num(s.subrange(0, k)) <= seq_to_num(s),
    decreases s.len() - k,
{
    if k == s.len() {
        assert(s.subrange(0, k) =~= s);
    } else {
        lemma_seq_to_num_prefix_le(s, k + 1);
        let t = s.subrange(0, k + 1);
        assert(t.drop_last() =~= s.subrange(0, k));
        assert(all_digits(s.subrange(0, k)));
        lemma_seq_to_num_nonneg(s.subrange(0, k));
        assert(is_digit_char(t.last()));
        assert(seq_to_num(t) == seq_to_num(s.subrange(0, k)) * 10 + digit_val(t.last()));
    }
}

/// Value of the digits `s[from..to]`, or `None` when it exceeds `i32::MAX`.
pub fn digits_value(s: &str, from: usize, to: usize) -> (r: Option<i32>)
    requires
        from <= to <= s@.len(),
        forall|k: int| from <= k < to ==> is_digit_char(s@[k]),
    ensures
        match r {
            Some(v) => 0 <= v && v as int == seq_to_num(s@.subrange(from as int, to as int)),
            None => seq_to_num(s@.subrange(from as int, to as int)) > i32::MAX as int,
        },
{
    let ghost whole = s@.subrange(from as int, to as int);
    let mut acc: u64 = 0;
    let mut i = from;
    while i < to
        invariant
            from <= i <= to <= s@.len(),
            forall|k: int| from <= k < to ==> is_digit_char(s@[k]),
            whole == s@.subrange(from as int, to as int),
            acc as int == seq_to_num(s@.subrange(from as int, i as int)),
            acc <= i32::MAX as u64,
        decreases to - i,
    {
        let c = s.get_char(i);
        assert(is_digit_char(c));
        let d: u32 = (c as u32) - ('0' as u32);
        let next: u64 = acc * 10 + (d as u64);
        proof {
            let p = s@.subrange(from as int, i as int);
            let q = s@.subrange(from as int, i + 1);
            assert(q.drop_last() =~= p);
            assert(q.last() == s@[i as int]);
            assert(seq_to_num(q) == seq_to_num(p) * 10 + digit_val(s@[i as int]));
        }
        if next > (i32::MAX as u64) {
            proof {
                let q = s@.subrange(from as int, i + 1);
                assert(all_digits(whole));
                assert(q =~= whole.subrange(0, i + 1 - from));
                lemma_seq_to_num_prefix_le(whole, i + 1 - from);
            }
            return None;
        }
        acc = next;
        i = i + 1;
    }
    assert(whole =~= s@.subrange(from as int, i as int));
    Some(acc as i32)
}

} // verus!
