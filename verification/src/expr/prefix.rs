//! Removing an optional `y' =` or `dy/dx =` in front of the right-hand side.
use vstd::prelude::*;
use crate::text::{is_white_space, lemma_leading_ws_char, lemma_trim_char, lemma_trim_idempotent, lemma_trim_range, lower, slice_chars, to_lower, trim, trim_start, trimmed, trimmed_start};

verus! {

/// What follows an `=` that starts `rest` after optional whitespace, trimmed; `None`
/// when there is no such `=`.
pub open spec fn after_equals(rest: Seq<char>) -> Option<Seq<char>> {
    let r = trim_start(rest);
    if r.len() > 0 && r[0] == '=' {
        Some(trim(r.skip(1)))
    } else {
        None
    }
}

/// `t` starts with `dy/dx`, letters in any case.
pub open spec fn starts_dy_dx(t: Seq<char>) -> bool {
    &&& t.len() >= 5
    &&& lower(t[0]) == 'd'
    &&& lower(t[1]) == 'y'
    &&& t[2] == '/'
    &&& lower(t[3]) == 'd'
    &&& lower(t[4]) == 'x'
}

/// The right-hand side after a leading `dy/dx =` (case-insensitive), if there is one.
pub open spec fn strip_dy_dx_spec(s: Seq<char>) -> Option<Seq<char>> {
    let t = trim_start(s);
    if starts_dy_dx(t) {
        after_equals(t.skip(5))
    } else {
        None
    }
}

/// A prime mark: `'`, `′` (U+2032) or `’` (U+2019).
pub open spec fn is_prime_mark(c: char) -> bool {
    c == '\'' || c == '\u{2032}' || c == '\u{2019}'
}

/// The right-hand side after a leading `y' =` (any prime mark, `y` in any case), if there is one.
pub open spec fn strip_y_prime_spec(s: Seq<char>) -> Option<Seq<char>> {
    let t = trim_start(s);
    if t.len() < 2 || lower(t[0]) != 'y' || !is_prime_mark(t[1]) {
        None
    } else {
        after_equals(t.skip(2))
    }
}

/// The right-hand side of `s`: without a `dy/dx =` or else a `y' =` prefix, trimmed.
pub open spec fn strip_equation_lhs_spec(s: Seq<char>) -> Seq<char> {
    trim(
        match strip_dy_dx_spec(s) {
            Some(r) => r,
            None => match strip_y_prime_spec(s) {
                Some(r) => r,
                None => s,
            },
        },
    )
}

/// The optional right-hand side as a mathematical value.
pub open spec fn opt_view(r: Option<Vec<char>>) -> Option<Seq<char>> {
    match r {
        Some(v) => Some(v@),
        None => None,
    }
}

/// Executable `after_equals`.
fn strip_equals(rest: &[char]) -> (res: Option<Vec<char>>)
    ensures
        opt_view(res) == after_equals(rest@),
{
    let r = trimmed_start(rest);
    if r.len() > 0 && r[0] == '=' {
        let tail = slice_chars(r.as_slice(), 1, r.len());
        assert(tail@ == r@.skip(1));
        Some(trimmed(tail.as_slice()))
    } else {
        None
    }
}

/// Strip a leading `dy/dx =` (case-insensitive) prefix.
fn strip_dy_dx_prefix(s: &[char]) -> (res: Option<Vec<char>>)
    ensures
        opt_view(res) == strip_dy_dx_spec(s@),
{
    let t = trimmed_start(s);
    if t.len() < 5 || to_lower(t[0]) != 'd' || to_lower(t[1]) != 'y' || t[2] != '/'
        || to_lower(t[3]) != 'd' || to_lower(t[4]) != 'x' {
        return None;
    }
    let rest = slice_chars(t.as_slice(), 5, t.len());
    assert(rest@ == t@.skip(5));
    strip_equals(rest.as_slice())
}

/// Strip a leading `y' =` / `y′ =` prefix.
fn strip_y_prime_prefix(s: &[char]) -> (res: Option<Vec<char>>)
    ensures
        opt_view(res) == strip_y_prime_spec(s@),
{
    let t = trimmed_start(s);
    if t.len() < 2 || to_lower(t[0]) != 'y' {
        return None;
    }
    let prime = t[1];
    if !(prime == '\'' || prime == '\u{2032}' || prime == '\u{2019}') {
        return None;
    }
    let rest = slice_chars(t.as_slice(), 2, t.len());
    assert(rest@ == t@.skip(2));
    strip_equals(rest.as_slice())
}

/// Remove an optional `y' =` / `dy/dx =` prefix if the user pasted the whole equation.
pub fn strip_equation_lhs(s: &[char]) -> (res: Vec<char>)
    ensures
        res@ == strip_equation_lhs_spec(s@),
{
    match strip_dy_dx_prefix(s) {
        Some(r) => trimmed(r.as_slice()),
        None => match strip_y_prime_prefix(s) {
            Some(r) => trimmed(r.as_slice()),
            None => trimmed(s),
        },
    }
}

/// A right-hand side without a prefix of its own is only trimmed.
pub proof fn lemma_unprefixed_is_trimmed(r: Seq<char>)
    requires
        strip_dy_dx_spec(r) is None,
        strip_y_prime_spec(r) is None,
    ensures
        strip_equation_lhs_spec(r) == trim(r),
{
}

/// `trim(x)` with `x` starting with `c` (not whitespace) keeps its first character.
proof fn lemma_no_leading_ws(x: Seq<char>)
    requires
        x.len() > 0,
        !is_white_space(x[0]),
    ensures
        trim_start(x) == x,
{
    lemma_leading_ws_char(x, 0);
    assert(x.skip(0) =~= x);
}

/// Pasting `y'=` or `dy/dx=` in front of a right-hand side yields the trimmed
/// right-hand side again.
pub proof fn lemma_pasted_lhs_is_stripped(lhs: Seq<char>, r: Seq<char>)
    requires
        lhs == seq!['y', '\'', '='] || lhs == seq!['d', 'y', '/', 'd', 'x', '='],
    ensures
        strip_equation_lhs_spec(trim(lhs + r)) == trim(r),
{
    let (a, b) = lemma_trim_range(r);
    let hb: int = if a < b {
        b
    } else {
        0
    };
    let q = lhs + r;
    let n = lhs.len() as int;
    assert(!is_white_space('y') && !is_white_space('d') && !is_white_space('='));
    assert forall|i: int| n + hb <= i < q.len() implies is_white_space(#[trigger] q[i]) by {
        assert(q[i] == r[i - n]);
    }
    if hb > 0 {
        assert(q[n + hb - 1] == r[b - 1]);
    } else {
        assert(q[n - 1] == '=');
    }
    lemma_trim_char(q, 0, n + hb);
    let t = trim(q);
    assert(t =~= lhs + r.take(hb));
    lemma_no_leading_ws(t);
    let x = r.take(hb);
    let a2: int = if a < b {
        a
    } else {
        0
    };
    assert forall|i: int| 0 <= i < a2 implies is_white_space(#[trigger] x[i]) by {
        assert(x[i] == r[i]);
    }
    if a2 < hb {
        assert(x[a2] == r[a]);
        assert(x[hb - 1] == r[b - 1]);
    }
    lemma_trim_char(x, a2, hb);
    assert(trim(x) =~= trim(r));
    let rest = seq!['='] + x;
    lemma_no_leading_ws(rest);
    assert(rest.skip(1) =~= x);
    if lhs == seq!['y', '\'', '='] {
        assert(t.skip(2) =~= rest);
        assert(strip_y_prime_spec(t) == Some(trim(r)));
    } else {
        assert(starts_dy_dx(t));
        assert(t.skip(5) =~= rest);
        assert(strip_dy_dx_spec(t) == Some(trim(r)));
    }
    lemma_trim_idempotent(r);
}

} // verus!
