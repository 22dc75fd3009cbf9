//! Character classification, trimming and conversions between `str` and `char` sequences.
use vstd::prelude::*;

verus! {

/// `String::push` appends one character to the end of the string.
pub assume_specification[ String::push ](string: &mut String, ch: char)
    ensures
        final(string)@ == old(string)@.push(ch),
;

/// The characters of `s`, in order.
pub fn chars_of(s: &str) -> (res: Vec<char>)
    ensures
        res@ == s@,
{
    let mut res: Vec<char> = Vec::new();
    for c in it: s.chars()
        invariant
            res@ == it.seq().take(it.index() as int),
            it.seq() == s@,
    {
        res.push(c);
    }
    res
}

/// A `String` holding exactly the characters of `cs`.
pub fn string_from_chars(cs: &[char]) -> (res: String)
    ensures
        res@ == cs@,
{
    let mut res = String::new();
    let mut i: usize = 0;
    while i < cs.len()
        invariant
            i <= cs.len(),
            res@ == cs@.take(i as int),
        decreases cs.len() - i,
    {
        res.push(cs[i]);
        assert(cs@.take(i + 1) == cs@.take(i as int).push(cs@[i as int]));
        i += 1;
    }
    assert(cs@.take(cs.len() as int) == cs@);
    res
}


/// ASCII decimal digit (`u8::is_ascii_digit` on the same code point).
pub open spec fn is_digit(c: char) -> bool {
    '0' <= c <= '9'
}

/// ASCII letter.
pub open spec fn is_alpha(c: char) -> bool {
    ('a' <= c <= 'z') || ('A' <= c <= 'Z')
}

/// ASCII letter or digit.
pub open spec fn is_alnum(c: char) -> bool {
    is_alpha(c) || is_digit(c)
}

/// ASCII whitespace as `u8::is_ascii_whitespace` defines it: space, tab, line feed,
/// form feed and carriage return (not vertical tab).
pub open spec fn is_ascii_space(c: char) -> bool {
    c == ' ' || c == '\t' || c == '\n' || c == '\x0C' || c == '\r'
}

/// Unicode `White_Space`, the set that `char::is_whitespace` (and so `str::trim`) uses.
pub open spec fn is_white_space(c: char) -> bool {
    let v = c as u32;
    ||| 0x09 <= v <= 0x0D
    ||| v == 0x20
    ||| v == 0x85
    ||| v == 0xA0
    ||| v == 0x1680
    ||| 0x2000 <= v <= 0x200A
    ||| v == 0x2028
    ||| v == 0x2029
    ||| v == 0x202F
    ||| v == 0x205F
    ||| v == 0x3000
}

/// ASCII lower-casing of one character; other characters are unchanged.
pub open spec fn lower(c: char) -> char {
    if 'A' <= c <= 'Z' {
        ((c as u32) + 32) as char
    } else {
        c
    }
}

/// ASCII lower-casing of every character.
pub open spec fn lower_all(s: Seq<char>) -> Seq<char> {
    s.map_values(|c: char| lower(c))
}

/// Equality up to ASCII case.
pub open spec fn eq_ignore_case(a: Seq<char>, b: Seq<char>) -> bool {
    lower_all(a) == lower_all(b)
}

/// Number of leading `White_Space` characters.
pub open spec fn leading_ws(s: Seq<char>) -> nat
    decreases s.len(),
{
    if s.len() > 0 && is_white_space(s[0]) {
        1 + leading_ws(s.drop_first())
    } else {
        0
    }
}

/// Number of trailing `White_Space` characters.
pub open spec fn trailing_ws(s: Seq<char>) -> nat
    decreases s.len(),
{
    if s.len() > 0 && is_white_space(s.last()) {
        1 + trailing_ws(s.drop_last())
    } else {
        0
    }
}

/// `s` without its leading whitespace (`str::trim_start`).
pub open spec fn trim_start(s: Seq<char>) -> Seq<char> {
    s.skip(leading_ws(s) as int)
}

/// `s` without its trailing whitespace (`str::trim_end`).
pub open spec fn trim_end(s: Seq<char>) -> Seq<char> {
    s.take(s.len() - trailing_ws(s))
}

/// `s` without leading and trailing whitespace (`str::trim`).
pub open spec fn trim(s: Seq<char>) -> Seq<char> {
    trim_end(trim_start(s))
}

pub proof fn lemma_leading_ws_bound(s: Seq<char>)
    ensures
        leading_ws(s) <= s.len(),
        forall|i: int| 0 <= i < leading_ws(s) ==> is_white_space(#[trigger] s[i]),
        leading_ws(s) < s.len() ==> !is_white_space(s[leading_ws(s) as int]),
    decreases s.len(),
{
    if s.len() > 0 && is_white_space(s[0]) {
        lemma_leading_ws_bound(s.drop_first());
        assert forall|i: int| 0 <= i < leading_ws(s) implies is_white_space(#[trigger] s[i]) by {
            if i > 0 {
                assert(s[i] == s.drop_first()[i - 1]);
            }
        }
    }
}

pub proof fn lemma_trailing_ws_bound(s: Seq<char>)
    ensures
        trailing_ws(s) <= s.len(),
        forall|i: int| s.len() - trailing_ws(s) <= i < s.len() ==> is_white_space(#[trigger] s[i]),
        trailing_ws(s) < s.len() ==> !is_white_space(s[s.len() - trailing_ws(s) - 1]),
    decreases s.len(),
{
    if s.len() > 0 && is_white_space(s.last()) {
        lemma_trailing_ws_bound(s.drop_last());
        assert forall|i: int| s.len() - trailing_ws(s) <= i < s.len() implies is_white_space(#[trigger] s[i]) by {
            if i < s.len() - 1 {
                assert(s[i] == s.drop_last()[i]);
            }
        }
    }
}

/// `leading_ws` is the length of the longest all-whitespace prefix.
pub proof fn lemma_leading_ws_char(s: Seq<char>, k: int)
    requires
        0 <= k <= s.len(),
        forall|i: int| 0 <= i < k ==> is_white_space(#[trigger] s[i]),
        k < s.len() ==> !is_white_space(s[k]),
    ensures
        leading_ws(s) == k,
    decreases s.len(),
{
    if k > 0 {
        assert(is_white_space(s[0]));
        assert forall|i: int| 0 <= i < k - 1 implies is_white_space(#[trigger] s.drop_first()[i]) by {
            assert(s.drop_first()[i] == s[i + 1]);
        }
        if k - 1 < s.drop_first().len() {
            assert(s.drop_first()[k - 1] == s[k]);
        }
        lemma_leading_ws_char(s.drop_first(), k - 1);
    } else if s.len() > 0 {
        assert(!is_white_space(s[0]));
    }
}

/// `trailing_ws` is the length of the longest all-whitespace suffix.
pub proof fn lemma_trailing_ws_char(s: Seq<char>, k: int)
    requires
        0 <= k <= s.len(),
        forall|i: int| s.len() - k <= i < s.len() ==> is_white_space(#[trigger] s[i]),
        k < s.len() ==> !is_white_space(s[s.len() - k - 1]),
    ensures
        trailing_ws(s) == k,
    decreases s.len(),
{
    if k > 0 {
        assert(is_white_space(s.last()));
        let t = s.drop_last();
        assert forall|i: int| t.len() - (k - 1) <= i < t.len() implies is_white_space(#[trigger] t[i]) by {
            assert(t[i] == s[i]);
        }
        if k - 1 < t.len() {
            assert(t[t.len() - (k - 1) - 1] == s[s.len() - k - 1]);
        }
        lemma_trailing_ws_char(t, k - 1);
    } else if s.len() > 0 {
        assert(!is_white_space(s.last()));
    }
}

/// Executable `is_digit`.
pub fn digit(c: char) -> (res: bool)
    ensures
        res == is_digit(c),
{
    '0' <= c && c <= '9'
}

/// Executable `is_alpha`.
pub fn alpha(c: char) -> (res: bool)
    ensures
        res == is_alpha(c),
{
    ('a' <= c && c <= 'z') || ('A' <= c && c <= 'Z')
}

/// Executable `is_alnum`.
pub fn alnum(c: char) -> (res: bool)
    ensures
        res == is_alnum(c),
{
    alpha(c) || digit(c)
}

/// Executable `is_ascii_space`.
pub fn ascii_space(c: char) -> (res: bool)
    ensures
        res == is_ascii_space(c),
{
    c == ' ' || c == '\t' || c == '\n' || c == '\x0C' || c == '\r'
}

/// Executable `is_white_space`.
pub fn white_space(c: char) -> (res: bool)
    ensures
        res == is_white_space(c),
{
    let v = c as u32;
    (0x09 <= v && v <= 0x0D) || v == 0x20 || v == 0x85 || v == 0xA0 || v == 0x1680 || (0x2000
        <= v && v <= 0x200A) || v == 0x2028 || v == 0x2029 || v == 0x202F || v == 0x205F || v
        == 0x3000
}

/// Executable `lower`.
pub fn to_lower(c: char) -> (res: char)
    ensures
        res == lower(c),
{
    if 'A' <= c && c <= 'Z' {
        let b: u8 = (c as u8) + 32;
        b as char
    } else {
        c
    }
}

/// The characters `cs[lo..hi]` as a new vector.
pub fn slice_chars(cs: &[char], lo: usize, hi: usize) -> (res: Vec<char>)
    requires
        lo <= hi <= cs@.len(),
    ensures
        res@ == cs@.subrange(lo as int, hi as int),
{
    let mut res: Vec<char> = Vec::new();
    let mut i = lo;
    while i < hi
        invariant
            lo <= i <= hi <= cs@.len(),
            res@ == cs@.subrange(lo as int, i as int),
        decreases hi - i,
    {
        res.push(cs[i]);
        assert(cs@.subrange(lo as int, i + 1) == cs@.subrange(lo as int, i as int).push(cs@[i as int]));
        i += 1;
    }
    res
}

/// Index of the first character at or after `from` that is not whitespace.
fn skip_white_space(cs: &[char], from: usize) -> (res: usize)
    requires
        from <= cs@.len(),
    ensures
        from <= res <= cs@.len(),
        leading_ws(cs@.skip(from as int)) == res - from,
{
    let mut i = from;
    while i < cs.len() && white_space(cs[i])
        invariant
            from <= i <= cs@.len(),
            forall|k: int| from <= k < i ==> is_white_space(#[trigger] cs@[k]),
        decreases cs.len() - i,
    {
        i += 1;
    }
    proof {
        let t = cs@.skip(from as int);
        assert forall|k: int| 0 <= k < i - from implies is_white_space(#[trigger] t[k]) by {
            assert(t[k] == cs@[from + k]);
        }
        if i - from < t.len() {
            assert(t[i - from] == cs@[i as int]);
        }
        lemma_leading_ws_char(t, i - from);
    }
    i
}

/// `trim_start` of `cs`.
pub fn trimmed_start(cs: &[char]) -> (res: Vec<char>)
    ensures
        res@ == trim_start(cs@),
{
    let lo = skip_white_space(cs, 0);
    assert(cs@.skip(0) == cs@);
    slice_chars(cs, lo, cs.len())
}

/// `trim` of `cs`.
pub fn trimmed(cs: &[char]) -> (res: Vec<char>)
    ensures
        res@ == trim(cs@),
{
    let lo = skip_white_space(cs, 0);
    assert(cs@.skip(0) == cs@);
    let mut hi = cs.len();
    while hi > lo && white_space(cs[hi - 1])
        invariant
            lo <= hi <= cs@.len(),
            forall|k: int| hi <= k < cs@.len() ==> is_white_space(#[trigger] cs@[k]),
        decreases hi,
    {
        hi -= 1;
    }
    proof {
        let t = trim_start(cs@);
        assert(t == cs@.subrange(lo as int, cs@.len() as int));
        let k = cs@.len() - hi;
        assert forall|i: int| t.len() - k <= i < t.len() implies is_white_space(#[trigger] t[i]) by {
            assert(t[i] == cs@[lo + i]);
        }
        if k < t.len() {
            assert(t[t.len() - k - 1] == cs@[hi - 1]);
        }
        lemma_trailing_ws_char(t, k);
        assert(trim_end(t) == cs@.subrange(lo as int, hi as int));
    }
    slice_chars(cs, lo, hi)
}

/// Append the characters of `t` to `out`.
pub fn push_all(out: &mut Vec<char>, t: &[char])
    ensures
        final(out)@ == old(out)@ + t@,
{
    let ghost start = out@;
    let mut i: usize = 0;
    while i < t.len()
        invariant
            i <= t@.len(),
            out@ == start + t@.take(i as int),
        decreases t.len() - i,
    {
        out.push(t[i]);
        assert(t@.take(i + 1) == t@.take(i as int).push(t@[i as int]));
        i += 1;
    }
    assert(t@.take(t@.len() as int) == t@);
}

/// `trim(x)` is `x[lo..hi]` when everything outside `lo..hi` is whitespace and the
/// range, if not empty, starts and ends with non-whitespace.
pub proof fn lemma_trim_char(x: Seq<char>, lo: int, hi: int)
    requires
        0 <= lo <= hi <= x.len(),
        forall|i: int| 0 <= i < lo ==> is_white_space(#[trigger] x[i]),
        forall|i: int| hi <= i < x.len() ==> is_white_space(#[trigger] x[i]),
        lo < hi ==> !is_white_space(x[lo]) && !is_white_space(x[hi - 1]),
    ensures
        trim(x) == x.subrange(lo, hi),
{
    if lo < hi {
        lemma_leading_ws_char(x, lo);
        let y = x.skip(lo);
        let k = x.len() - hi;
        assert forall|i: int| y.len() - k <= i < y.len() implies is_white_space(#[trigger] y[i]) by {
            assert(y[i] == x[lo + i]);
        }
        assert(y[y.len() - k - 1] == x[hi - 1]);
        lemma_trailing_ws_char(y, k);
        assert(trim(x) =~= x.subrange(lo, hi));
    } else {
        assert forall|i: int| 0 <= i < x.len() implies is_white_space(#[trigger] x[i]) by {
            if i >= lo {
                assert(i >= hi);
            }
        }
        lemma_leading_ws_char(x, x.len() as int);
        assert(trim_start(x) =~= Seq::<char>::empty());
        assert(trim(x) =~= x.subrange(lo, hi));
    }
}

/// The range `trim` keeps: `x[lo..hi]`, with whitespace only outside it.
pub proof fn lemma_trim_range(x: Seq<char>) -> (r: (int, int))
    ensures
        0 <= r.0 <= r.1 <= x.len(),
        forall|i: int| 0 <= i < r.0 ==> is_white_space(#[trigger] x[i]),
        forall|i: int| r.1 <= i < x.len() ==> is_white_space(#[trigger] x[i]),
        r.0 < r.1 ==> !is_white_space(x[r.0]) && !is_white_space(x[r.1 - 1]),
        trim(x) == x.subrange(r.0, r.1),
{
    lemma_leading_ws_bound(x);
    let lo = leading_ws(x) as int;
    let y = x.skip(lo);
    lemma_trailing_ws_bound(y);
    let hi = x.len() - trailing_ws(y);
    assert forall|i: int| hi <= i < x.len() implies is_white_space(#[trigger] x[i]) by {
        assert(x[i] == y[i - lo]);
    }
    if lo < hi {
        assert(x[hi - 1] == y[y.len() - trailing_ws(y) - 1]);
    }
    lemma_trim_char(x, lo, hi);
    (lo, hi)
}

/// Trimming twice is trimming once.
pub proof fn lemma_trim_idempotent(x: Seq<char>)
    ensures
        trim(trim(x)) == trim(x),
{
    let (lo, hi) = lemma_trim_range(x);
    let t = x.subrange(lo, hi);
    if lo < hi {
        assert(t[0] == x[lo]);
        assert(t[t.len() - 1] == x[hi - 1]);
    }
    lemma_trim_char(t, 0, t.len() as int);
    assert(t.subrange(0, t.len() as int) =~= t);
}

} // verus!
