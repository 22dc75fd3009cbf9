//! Tidying the decimal text of a formatted number.
use vstd::prelude::*;
use crate::text::{chars_of, slice_chars, string_from_chars};

verus! {

/// Number of trailing `'0'` characters.
pub open spec fn trailing_zeros(s: Seq<char>) -> nat
    decreases s.len(),
{
    if s.len() > 0 && s.last() == '0' {
        1 + trailing_zeros(s.drop_last())
    } else {
        0
    }
}

/// Index of the first `.` at or after `k`, or `s.len()`.
pub open spec fn first_dot_from(s: Seq<char>, k: int) -> int
    decreases s.len() - k,
{
    if k < 0 || k >= s.len() {
        s.len() as int
    } else if s[k] == '.' {
        k
    } else {
        first_dot_from(s, k + 1)
    }
}

/// The shortest form of a formatted number: text in exponent notation or without a
/// decimal point is kept; otherwise trailing zeros go, and so does the point when
/// nothing follows it.
pub open spec fn trim_float_spec(s: Seq<char>) -> Seq<char> {
    if s.contains('e') || s.contains('E') {
        s
    } else if s.contains('.') {
        let t = s.take(s.len() - trailing_zeros(s));
        if t.len() > 0 && t.last() == '.' {
            t.take(first_dot_from(s, 0))
        } else {
            t
        }
    } else {
        s
    }
}

proof fn lemma_first_dot_from(s: Seq<char>, k: int)
    requires
        0 <= k <= s.len(),
    ensures
        k <= first_dot_from(s, k) <= s.len(),
        first_dot_from(s, k) < s.len() ==> s[first_dot_from(s, k)] == '.',
        forall|i: int| k <= i < first_dot_from(s, k) ==> s[i] != '.',
    decreases s.len() - k,
{
    if k < s.len() && s[k] != '.' {
        lemma_first_dot_from(s, k + 1);
    }
}

proof fn lemma_trailing_zeros(s: Seq<char>, k: int)
    requires
        0 <= k <= s.len(),
        forall|i: int| s.len() - k <= i < s.len() ==> #[trigger] s[i] == '0',
        k < s.len() ==> s[s.len() - k - 1] != '0',
    ensures
        trailing_zeros(s) == k,
    decreases s.len(),
{
    if k > 0 {
        let t = s.drop_last();
        assert forall|i: int| t.len() - (k - 1) <= i < t.len() implies #[trigger] t[i] == '0' by {
            assert(t[i] == s[i]);
        }
        if k - 1 < t.len() {
            assert(t[t.len() - (k - 1) - 1] == s[s.len() - k - 1]);
        }
        lemma_trailing_zeros(t, k - 1);
    }
}

proof fn lemma_trailing_zeros_facts(s: Seq<char>)
    ensures
        trailing_zeros(s) <= s.len(),
        forall|i: int| s.len() - trailing_zeros(s) <= i < s.len() ==> s[i] == '0',
    decreases s.len(),
{
    if s.len() > 0 && s.last() == '0' {
        let t = s.drop_last();
        lemma_trailing_zeros_facts(t);
        assert forall|i: int| s.len() - trailing_zeros(s) <= i < s.len() implies s[i] == '0' by {
            if i < s.len() - 1 {
                assert(s[i] == t[i]);
            }
        }
    }
}

/// Trimming only shortens the text from its end, never past the decimal point: the
/// result is a prefix of the input that keeps every character before the point, and a
/// text without a point or an exponent comes back unchanged. When the text has one
/// point, everything removed is that point or a `0`.
pub proof fn lemma_trim_float_keeps_number(s: Seq<char>)
    ensures
        trim_float_spec(s).len() <= s.len(),
        trim_float_spec(s) == s.take(trim_float_spec(s).len() as int),
        trim_float_spec(s).len() >= first_dot_from(s, 0),
        !s.contains('.') && !s.contains('e') && !s.contains('E') ==> trim_float_spec(s) == s,
        (forall|i: int, j: int|
            0 <= i < s.len() && 0 <= j < s.len() && s[i] == '.' && s[j] == '.' ==> i == j)
            ==> forall|i: int|
            trim_float_spec(s).len() <= i < s.len() ==> s[i] == '0' || s[i] == '.',
{
    lemma_first_dot_from(s, 0);
    lemma_trailing_zeros_facts(s);
    let d = first_dot_from(s, 0);
    let z = trailing_zeros(s) as int;
    let n = s.len() as int;
    let r = trim_float_spec(s);
    if s.contains('e') || s.contains('E') {
        assert(s.take(n) =~= s);
    } else if s.contains('.') {
        let w = choose|w: int| 0 <= w < n && s[w] == '.';
        assert(d < n);
        assert(s[d] == '.');
        assert(d < n - z);
        let t = s.take(n - z);
        if t.len() > 0 && t.last() == '.' {
            assert(r =~= s.take(d));
            if forall|i: int, j: int|
                0 <= i < n && 0 <= j < n && s[i] == '.' && s[j] == '.' ==> i == j {
                assert(s[n - z - 1] == '.');
                assert(n - z - 1 == d);
            }
        } else {
            assert(r =~= s.take(n - z));
        }
    } else {
        assert(d == n);
        assert(s.take(n) =~= s);
    }
}

/// Trim a formatted number (the text `format!("{v}")` gives for a float) to its
/// shortest form: `1.500` becomes `1.5`, `2.0` becomes `2`.
pub fn trim_float(text: &str) -> (res: String)
    ensures
        res@ == trim_float_spec(text@),
{
    let s = chars_of(text);
    let n = s.len();
    let mut has_e = false;
    let mut dot: usize = n;
    let mut i: usize = 0;
    while i < n
        invariant
            n == s@.len(),
            i <= n,
            has_e == exists|k: int| 0 <= k < i && (s@[k] == 'e' || s@[k] == 'E'),
            dot == (if exists|k: int| 0 <= k < i && s@[k] == '.' {
                first_dot_from(s@, 0)
            } else {
                n as int
            }),
            forall|k: int| 0 <= k < i && s@[k] == '.' ==> dot <= k,
            first_dot_from(s@, 0) == (if dot < n {
                dot as int
            } else {
                first_dot_from(s@, i as int)
            }),
        decreases n - i,
    {
        if s[i] == 'e' || s[i] == 'E' {
            has_e = true;
        }
        if s[i] == '.' && dot == n {
            dot = i;
        }
        i += 1;
    }
    proof {
        if has_e {
            let k = choose|k: int| 0 <= k < n && (s@[k] == 'e' || s@[k] == 'E');
            if s@[k] == 'e' {
                assert(s@.contains('e'));
            } else {
                assert(s@.contains('E'));
            }
        } else {
            assert(!s@.contains('e'));
            assert(!s@.contains('E'));
        }
        lemma_first_dot_from(s@, 0);
        if dot < n {
            assert(s@[dot as int] == '.');
            assert(s@.contains('.'));
        } else {
            assert(!s@.contains('.'));
        }
    }
    if has_e || dot == n {
        return string_from_chars(s.as_slice());
    }
    let mut end: usize = n;
    while end > 0 && s[end - 1] == '0'
        invariant
            end <= n == s@.len(),
            forall|k: int| end <= k < n ==> #[trigger] s@[k] == '0',
        decreases end,
    {
        end -= 1;
    }
    proof {
        lemma_trailing_zeros(s@, n - end);
    }
    let t = slice_chars(s.as_slice(), 0, end);
    assert(t@ == s@.take(end as int));
    if end > 0 && t[end - 1] == '.' {
        assert(dot < end);
        let head = slice_chars(t.as_slice(), 0, dot);
        assert(head@ =~= t@.take(dot as int));
        string_from_chars(head.as_slice())
    } else {
        string_from_chars(t.as_slice())
    }
}

} // verus!
