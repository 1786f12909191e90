//! General properties of the grammar, proved once and for all inputs.
//!
//! The central ones: for all machine integers `a` and `b`, the text
//! `"a + b"` (with the numerals written in decimal) parses to
//! `Add(Num(a), Num(b))`, the text `"a - b = c"` parses to
//! `Equal(Sub(Num(a), Num(b)), Num(c))`, and parsing is deterministic.
//! The exec parsers' contracts tie their results to the same spec
//! functions these lemmas speak about.

use vstd::prelude::*;

use crate::parser::{is_ws_char, skip_ws, spec_atom, spec_equality, spec_equality_rest,
    spec_parse_expr, spec_parse_statement, spec_product, spec_product_rest, spec_sum,
    spec_sum_rest, spec_unary, ws_count, ExprV};
use crate::scan::{all_digits, digit_run, digit_val, is_digit_char, seq_to_num};

verus! {

// ---------------------------------------------------------------------------
// Decimal numerals
// ---------------------------------------------------------------------------

/// The decimal digit character for `d` in `0..10`.
pub open spec fn digit_char(d: int) -> char {
    if d == 0 {
        '0'
    } else if d == 1 {
        '1'
    } else if d == 2 {
        '2'
    } else if d == 3 {
        '3'
    } else if d == 4 {
        '4'
    } else if d == 5 {
        '5'
    } else if d == 6 {
        '6'
    } else if d == 7 {
        '7'
    } else if d == 8 {
        '8'
    } else {
        '9'
    }
}

/// The decimal numeral of `n`, most significant digit first.
pub open spec fn dec_rep(n: int) -> Seq<char>
    decreases n,
{
    if n < 0 {
        Seq::<char>::empty()
    } else if n < 10 {
        seq![digit_char(n)]
    } else {
        dec_rep(n / 10).push(digit_char(n % 10))
    }
}

/// A numeral denotes its number: it is nonempty, all digits, without a
/// leading zero unless it is `"0"` itself, and `seq_to_num` reads back `n`.
pub proof fn lemma_dec_rep(n: int)
    requires
        n >= 0,
    ensures
        dec_rep(n).len() >= 1,
        all_digits(dec_rep(n)),
        seq_to_num(dec_rep(n)) == n,
        n >= 1 ==> dec_rep(n)[0] != '0',
        n == 0 ==> dec_rep(n) == seq!['0'],
        n < 10 ==> dec_rep(n).len() == 1,
    decreases n,
{
    if n < 10 {
        let s = dec_rep(n);
        assert(s == seq![digit_char(n)]);
        assert(s.drop_last() =~= Seq::<char>::empty());
        assert(s.last() == digit_char(n));
        assert(is_digit_char(digit_char(n)));
        assert(digit_val(digit_char(n)) == n);
        assert(seq_to_num(s) == seq_to_num(Seq::<char>::empty()) * 10 + digit_val(digit_char(n)));
        assert(all_digits(s));
    } else {
        lemma_dec_rep(n / 10);
        let t = dec_rep(n / 10);
        let s = dec_rep(n);
        assert(s == t.push(digit_char(n % 10)));
        assert(s.drop_last() =~= t);
        assert(s.last() == digit_char(n % 10));
        assert(0 <= n % 10 < 10);
        assert(is_digit_char(digit_char(n % 10)));
        assert(digit_val(digit_char(n % 10)) == n % 10);
        assert(seq_to_num(s) == seq_to_num(t) * 10 + (n % 10));
        assert((n / 10) * 10 + (n % 10) == n);
        assert forall|i: int| 0 <= i < s.len() implies is_digit_char(s[i]) by {
            if i < t.len() {
                assert(s[i] == t[i]);
                assert(is_digit_char(t[i]));
            } else {
                assert(s[i] == digit_char(n % 10));
            }
        }
        assert(s[0] == t[0]);
        assert(n / 10 >= 1);
    }
}

/// A stretch of `len` digits bounded by a non-digit (or the end) is the
/// maximal digit run.
pub proof fn lemma_digit_run_exact(s: Seq<char>, pos: int, len: int)
    requires
        0 <= pos,
        0 <= len,
        pos + len <= s.len(),
        forall|k: int| pos <= k < pos + len ==> is_digit_char(s[k]),
        pos + len == s.len() || !is_digit_char(s[pos + len]),
    ensures
        digit_run(s, pos) == len,
    decreases len,
{
    if len > 0 {
        assert(is_digit_char(s[pos]));
        lemma_digit_run_exact(s, pos + 1, len - 1);
    }
}

/// Skipping whitespace stays within bounds and is exhaustive: no
/// whitespace remains at the resulting position.
pub proof fn lemma_skip_ws_le(s: Seq<char>, pos: int)
    requires
        0 <= pos <= s.len(),
    ensures
        pos <= skip_ws(s, pos) <= s.len(),
        ws_count(s, skip_ws(s, pos)) == 0,
    decreases s.len() - pos,
{
    if pos < s.len() && is_ws_char(s[pos]) {
        lemma_skip_ws_le(s, pos + 1);
    }
}

/// The numeral of `a` written at `pos` (bounded by a non-digit) parses as
/// the atom `Num(a)`, and likewise through the unary level.
pub proof fn lemma_atom_num(s: Seq<char>, pos: int, a: int)
    requires
        0 <= pos,
        pos + dec_rep(a).len() <= s.len(),
        s.subrange(pos, pos + dec_rep(a).len()) == dec_rep(a),
        0 <= a <= i32::MAX as int,
        pos + dec_rep(a).len() == s.len() || !is_digit_char(s[pos + dec_rep(a).len()]),
    ensures
        spec_atom(s, pos) == Some((ExprV::Num(a), skip_ws(s, pos + dec_rep(a).len()))),
        spec_unary(s, pos) == Some((ExprV::Num(a), skip_ws(s, pos + dec_rep(a).len()))),
{
    lemma_dec_rep(a);
    let d = dec_rep(a);
    let e = pos + d.len();
    assert(s[pos] == d[0]) by {
        assert(s.subrange(pos, e)[0] == s[pos]);
    }
    assert(is_digit_char(s[pos]));
    assert(ws_count(s, pos) == 0);
    assert(skip_ws(s, pos) == pos);
    assert forall|k: int| pos <= k < e implies is_digit_char(s[k]) by {
        assert(s.subrange(pos, e)[k - pos] == s[k]);
        assert(is_digit_char(d[k - pos]));
    }
    if a == 0 {
        assert(s[pos] == '0');
        assert(s.subrange(pos, pos + 1) == d);
        assert(seq_to_num(s.subrange(pos, pos + 1)) == 0);
    } else {
        assert(d[0] != '0');
        assert(s[pos] != '0');
        lemma_digit_run_exact(s, pos, d.len() as int);
        assert(seq_to_num(s.subrange(pos, e)) == a);
    }
}

/// The numeral of `a` at `pos`, with no `*` or `/` after it, parses as
/// `Num(a)` through the product level, ending after the trailing
/// whitespace.
pub proof fn lemma_product_num(s: Seq<char>, pos: int, a: int)
    requires
        0 <= pos,
        pos + dec_rep(a).len() <= s.len(),
        s.subrange(pos, pos + dec_rep(a).len()) == dec_rep(a),
        0 <= a <= i32::MAX as int,
        pos + dec_rep(a).len() == s.len() || !is_digit_char(s[pos + dec_rep(a).len()]),
        ({
            let q = skip_ws(s, pos + dec_rep(a).len());
            q >= s.len() || (s[q] != '*' && s[q] != '/')
        }),
    ensures
        ({
            let q = skip_ws(s, pos + dec_rep(a).len());
            spec_product(s, pos) == Some((ExprV::Num(a), q)) && pos <= q <= s.len()
        }),
{
    lemma_atom_num(s, pos, a);
    lemma_dec_rep(a);
    lemma_skip_ws_le(s, pos + dec_rep(a).len());
    let q = skip_ws(s, pos + dec_rep(a).len());
    assert(skip_ws(s, q) == q);
    assert(spec_product_rest(s, q, ExprV::Num(a)) == Some((ExprV::Num(a), q)));
}

// ---------------------------------------------------------------------------
// The laws
// ---------------------------------------------------------------------------

/// For all integers `a` and `b` that fit the `Num` payload, the text
/// `"a + b"` — the decimal numeral of `a`, a spaced `+`, the decimal
/// numeral of `b` — parses to `Add(Num(a), Num(b))`.
pub proof fn lemma_parse_add(a: int, b: int)
    requires
        0 <= a <= i32::MAX as int,
        0 <= b <= i32::MAX as int,
    ensures
        spec_parse_expr(dec_rep(a) + " + "@ + dec_rep(b)) == Some(
            ExprV::Add(Box::new(ExprV::Num(a)), Box::new(ExprV::Num(b))),
        ),
{
    reveal_strlit(" + ");
    let mid = " + "@;
    let d1 = dec_rep(a);
    let d2 = dec_rep(b);
    let s = d1 + mid + d2;
    lemma_dec_rep(a);
    lemma_dec_rep(b);
    let la = d1.len() as int;
    let n = s.len() as int;
    assert(n == la + 3 + d2.len());
    assert(s.subrange(0, la) =~= d1);
    assert(s[la] == ' ');
    assert(s[la + 1] == '+');
    assert(s[la + 2] == ' ');
    assert(s.subrange(la + 3, n) =~= d2);

    // `a` through the product level: after it comes `' '` then `'+'`.
    assert(!is_digit_char(s[la]));
    assert(ws_count(s, la + 1) == 0);
    assert(ws_count(s, la) == 1);
    assert(skip_ws(s, la) == la + 1);
    lemma_product_num(s, 0, a);
    let p = la + 1;
    assert(spec_product(s, 0) == Some((ExprV::Num(a), p)));

    // `b` through the product level: it ends the input.
    assert(s.subrange(la + 3, n) == d2);
    assert(ws_count(s, n) == 0);
    lemma_product_num(s, la + 3, b);
    assert(skip_ws(s, la + 3 + d2.len()) == n);
    assert(spec_product(s, la + 3) == Some((ExprV::Num(b), n)));

    // The sum level folds the two into Add.
    let addv = ExprV::Add(Box::new(ExprV::Num(a)), Box::new(ExprV::Num(b)));
    assert(ws_count(s, p) == 0);
    assert(s[p] == '+');
    assert(ws_count(s, la + 3) == 0) by {
        assert(s[la + 3] == d2[0]);
        assert(is_digit_char(d2[0]));
    }
    assert(ws_count(s, la + 2) == 1);
    assert(skip_ws(s, p + 1) == la + 3);
    assert(spec_sum_rest(s, n, addv) == Some((addv, n)));
    assert(spec_sum_rest(s, p, ExprV::Num(a)) == Some((addv, n)));
    assert(spec_sum(s, 0) == Some((addv, n)));

    // No `=` follows, so the equality level passes the sum through.
    assert(spec_equality_rest(s, n, addv) == Some((addv, n)));
    assert(spec_equality(s, 0) == Some((addv, n)));
}

/// For all integers `a`, `b` and `c` that fit the `Num` payload, the text
/// `"a - b = c"` parses to `Equal(Sub(Num(a), Num(b)), Num(c))`: the
/// difference is built first, then the equality wraps it on the left.
pub proof fn lemma_parse_sub_equal(a: int, b: int, c: int)
    requires
        0 <= a <= i32::MAX as int,
        0 <= b <= i32::MAX as int,
        0 <= c <= i32::MAX as int,
    ensures
        spec_parse_expr(dec_rep(a) + " - "@ + dec_rep(b) + " = "@ + dec_rep(c)) == Some(
            ExprV::Equal(
                Box::new(ExprV::Sub(Box::new(ExprV::Num(a)), Box::new(ExprV::Num(b)))),
                Box::new(ExprV::Num(c)),
            ),
        ),
{
    reveal_strlit(" - ");
    reveal_strlit(" = ");
    let d1 = dec_rep(a);
    let d2 = dec_rep(b);
    let d3 = dec_rep(c);
    let s = d1 + " - "@ + d2 + " = "@ + d3;
    lemma_dec_rep(a);
    lemma_dec_rep(b);
    lemma_dec_rep(c);
    let la = d1.len() as int;
    let eb = la + 3 + d2.len();  // end of the numeral of b
    let n = s.len() as int;
    assert(n == eb + 3 + d3.len());
    assert(s.subrange(0, la) =~= d1);
    assert(s[la] == ' ');
    assert(s[la + 1] == '-');
    assert(s[la + 2] == ' ');
    assert(s.subrange(la + 3, eb) =~= d2);
    assert(s[eb] == ' ');
    assert(s[eb + 1] == '=');
    assert(s[eb + 2] == ' ');
    assert(s.subrange(eb + 3, n) =~= d3);

    // `a` through the product level; `' '` then `'-'` follow.
    assert(!is_digit_char(s[la]));
    assert(ws_count(s, la + 1) == 0);
    assert(ws_count(s, la) == 1);
    lemma_product_num(s, 0, a);
    let p = la + 1;
    assert(spec_product(s, 0) == Some((ExprV::Num(a), p)));

    // `b` through the product level; `' '` then `'='` follow.
    assert(!is_digit_char(s[eb]));
    assert(ws_count(s, eb + 1) == 0);
    assert(ws_count(s, eb) == 1);
    lemma_product_num(s, la + 3, b);
    let pb = eb + 1;
    assert(skip_ws(s, eb) == pb);
    assert(spec_product(s, la + 3) == Some((ExprV::Num(b), pb)));

    // The sum level folds a - b into Sub and stops at the `=`.
    let subv = ExprV::Sub(Box::new(ExprV::Num(a)), Box::new(ExprV::Num(b)));
    assert(ws_count(s, p) == 0);
    assert(s[p] == '-');
    assert(ws_count(s, la + 3) == 0) by {
        assert(s[la + 3] == d2[0]);
        assert(is_digit_char(d2[0]));
    }
    assert(ws_count(s, la + 2) == 1);
    assert(skip_ws(s, p + 1) == la + 3);
    assert(ws_count(s, pb) == 0);
    assert(s[pb] == '=');
    assert(spec_sum_rest(s, pb, subv) == Some((subv, pb)));
    assert(spec_sum_rest(s, p, ExprV::Num(a)) == Some((subv, pb)));
    assert(spec_sum(s, 0) == Some((subv, pb)));

    // `c` through the sum level: it ends the input.
    assert(s.subrange(eb + 3, n) == d3);
    assert(ws_count(s, n) == 0);
    lemma_product_num(s, eb + 3, c);
    assert(skip_ws(s, eb + 3 + d3.len()) == n);
    assert(spec_product(s, eb + 3) == Some((ExprV::Num(c), n)));
    assert(spec_sum_rest(s, n, ExprV::Num(c)) == Some((ExprV::Num(c), n)));
    assert(spec_sum(s, eb + 3) == Some((ExprV::Num(c), n)));

    // The equality level wraps the difference on the left.
    let eqv = ExprV::Equal(Box::new(subv), Box::new(ExprV::Num(c)));
    assert(s[pb + 1] == ' ');
    assert(ws_count(s, eb + 3) == 0) by {
        assert(s[eb + 3] == d3[0]);
        assert(is_digit_char(d3[0]));
    }
    assert(ws_count(s, pb + 2) == 0);
    assert(ws_count(s, pb + 1) == 1);
    assert(skip_ws(s, pb + 1) == eb + 3);
    assert(spec_equality_rest(s, n, eqv) == Some((eqv, n)));
    assert(spec_equality_rest(s, pb, subv) == Some((eqv, n)));
    assert(spec_equality(s, 0) == Some((eqv, n)));
}

/// Determinism: what a text parses to is a function of the text alone, so
/// parsing the same input twice always yields structurally equal trees.
/// The exec parsers return exactly these spec values, so this carries over
/// to every pair of calls on equal inputs.
pub proof fn lemma_parse_deterministic(s1: Seq<char>, s2: Seq<char>)
    requires
        s1 == s2,
    ensures
        spec_parse_statement(s1) == spec_parse_statement(s2),
        spec_parse_expr(s1) == spec_parse_expr(s2),
{
}

} // verus!
