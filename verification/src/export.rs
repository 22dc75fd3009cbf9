//! File names for exported solution data.
use vstd::prelude::*;
use crate::text::{alnum, chars_of, is_alnum, is_white_space, lemma_trim_char, lemma_trim_range, slice_chars, string_from_chars, trim, trimmed};

verus! {

/// A character kept in a file name: ASCII letter, digit, `_` or `-`.
pub open spec fn is_safe_char(c: char) -> bool {
    is_alnum(c) || c == '_' || c == '-'
}

/// `c` if it is safe, else `_`.
pub open spec fn safe_char(c: char) -> char {
    if is_safe_char(c) {
        c
    } else {
        '_'
    }
}

/// `s` without a final `.txt`.
pub open spec fn without_txt(s: Seq<char>) -> Seq<char> {
    let ext = ".txt"@;
    if s.len() >= ext.len() && s.skip(s.len() - ext.len()) == ext {
        s.take(s.len() - ext.len())
    } else {
        s
    }
}

/// Number of leading `_`.
pub open spec fn leading_underscores(s: Seq<char>) -> nat
    decreases s.len(),
{
    if s.len() > 0 && s[0] == '_' {
        1 + leading_underscores(s.drop_first())
    } else {
        0
    }
}

/// Number of trailing `_`.
pub open spec fn trailing_underscores(s: Seq<char>) -> nat
    decreases s.len(),
{
    if s.len() > 0 && s.last() == '_' {
        1 + trailing_underscores(s.drop_last())
    } else {
        0
    }
}

/// `s` without leading and trailing `_` (`trim_matches('_')`).
pub open spec fn trim_underscores(s: Seq<char>) -> Seq<char> {
    let t = s.skip(leading_underscores(s) as int);
    t.take(t.len() - trailing_underscores(t))
}

/// The file-name stem made from user input: trimmed, without `.txt`, every unsafe
/// character replaced by `_`, and without leading or trailing `_`.
pub open spec fn sanitize_filename_spec(raw: Seq<char>) -> Seq<char> {
    trim_underscores(without_txt(trim(raw)).map_values(|c: char| safe_char(c)))
}

proof fn lemma_leading_underscores(s: Seq<char>, k: int)
    requires
        0 <= k <= s.len(),
        forall|i: int| 0 <= i < k ==> #[trigger] s[i] == '_',
        k < s.len() ==> s[k] != '_',
    ensures
        leading_underscores(s) == k,
    decreases s.len(),
{
    if k > 0 {
        assert forall|i: int| 0 <= i < k - 1 implies #[trigger] s.drop_first()[i] == '_' by {
            assert(s.drop_first()[i] == s[i + 1]);
        }
        if k - 1 < s.drop_first().len() {
            assert(s.drop_first()[k - 1] == s[k]);
        }
        lemma_leading_underscores(s.drop_first(), k - 1);
    }
}

proof fn lemma_trailing_underscores(s: Seq<char>, k: int)
    requires
        0 <= k <= s.len(),
        forall|i: int| s.len() - k <= i < s.len() ==> #[trigger] s[i] == '_',
        k < s.len() ==> s[s.len() - k - 1] != '_',
    ensures
        trailing_underscores(s) == k,
    decreases s.len(),
{
    if k > 0 {
        let t = s.drop_last();
        assert forall|i: int| t.len() - (k - 1) <= i < t.len() implies #[trigger] t[i] == '_' by {
            assert(t[i] == s[i]);
        }
        if k - 1 < t.len() {
            assert(t[t.len() - (k - 1) - 1] == s[s.len() - k - 1]);
        }
        lemma_trailing_underscores(t, k - 1);
    }
}

/// Reduce a user-provided name to safe ASCII for use as a filename stem.
pub fn sanitize_filename(raw: &str) -> (res: String)
    ensures
        res@ == sanitize_filename_spec(raw@),
{
    let cs = chars_of(raw);
    let trimmed_name = trimmed(cs.as_slice());
    let ext = chars_of(".txt");
    let n = trimmed_name.len();
    let mut stem_len = n;
    if n >= ext.len() {
        let tail = slice_chars(trimmed_name.as_slice(), n - ext.len(), n);
        let mut same = true;
        let mut i: usize = 0;
        while i < ext.len()
            invariant
                tail@.len() == ext@.len(),
                i <= ext@.len(),
                same == (forall|k: int| 0 <= k < i ==> tail@[k] == ext@[k]),
            decreases ext.len() - i,
        {
            if tail[i] != ext[i] {
                same = false;
            }
            i += 1;
        }
        assert(tail@ == trimmed_name@.skip(n - ext@.len()));
        if same {
            assert(tail@ =~= ext@);
            stem_len = n - ext.len();
        } else {
            assert(tail@ != ext@ ==> exists|k: int| 0 <= k < ext@.len() && tail@[k] != ext@[k]);
        }
    }
    let stem = slice_chars(trimmed_name.as_slice(), 0, stem_len);
    assert(stem@ == without_txt(trim(raw@)));
    let mut mapped: Vec<char> = Vec::new();
    let mut i: usize = 0;
    while i < stem.len()
        invariant
            i <= stem@.len(),
            mapped@ == stem@.take(i as int).map_values(|c: char| safe_char(c)),
        decreases stem.len() - i,
    {
        let c = stem[i];
        let kept = if alnum(c) || c == '_' || c == '-' {
            c
        } else {
            '_'
        };
        mapped.push(kept);
        assert(stem@.take(i + 1).map_values(|c: char| safe_char(c)) =~= stem@.take(i as int).map_values(
            |c: char| safe_char(c),
        ).push(safe_char(c)));
        i += 1;
    }
    assert(stem@.take(stem@.len() as int) =~= stem@);
    let m = mapped.len();
    let mut lo: usize = 0;
    while lo < m && mapped[lo] == '_'
        invariant
            lo <= m == mapped@.len(),
            forall|k: int| 0 <= k < lo ==> #[trigger] mapped@[k] == '_',
        decreases m - lo,
    {
        lo += 1;
    }
    proof {
        lemma_leading_underscores(mapped@, lo as int);
    }
    let mut hi: usize = m;
    while hi > lo && mapped[hi - 1] == '_'
        invariant
            lo <= hi <= m == mapped@.len(),
            forall|k: int| hi <= k < m ==> #[trigger] mapped@[k] == '_',
        decreases hi,
    {
        hi -= 1;
    }
    proof {
        let t = mapped@.skip(lo as int);
        let k = m - hi;
        assert forall|i: int| t.len() - k <= i < t.len() implies #[trigger] t[i] == '_' by {
            assert(t[i] == mapped@[lo + i]);
        }
        if k < t.len() {
            assert(t[t.len() - k - 1] == mapped@[hi - 1]);
        }
        lemma_trailing_underscores(t, k);
        assert(t.take(t.len() - k) =~= mapped@.subrange(lo as int, hi as int));
    }
    let out = slice_chars(mapped.as_slice(), lo, hi);
    string_from_chars(out.as_slice())
}

/// The message given when nothing of the requested file name survives sanitizing.
pub open spec fn empty_stem_message() -> Seq<char> {
    "filename cannot be empty"@
}

/// The file-name stem for an export: the sanitized name, or an error when it is empty.
pub fn export_stem(filename: &str) -> (res: Result<String, String>)
    ensures
        match res {
            Ok(stem) => stem@ == sanitize_filename_spec(filename@) && stem@.len() > 0,
            Err(m) => sanitize_filename_spec(filename@).len() == 0 && m@ == empty_stem_message(),
        },
{
    let name = sanitize_filename(filename);
    if name.as_str().unicode_len() == 0 {
        let mut m = String::new();
        m.append("filename cannot be empty");
        proof {
            reveal_strlit("filename cannot be empty");
        }
        Err(m)
    } else {
        Ok(name)
    }
}

/// A sanitized name holds only ASCII letters, digits, `_` and `-`, and neither starts
/// nor ends with `_`.
pub proof fn lemma_sanitized_is_safe(raw: Seq<char>)
    ensures
        forall|i: int|
            0 <= i < sanitize_filename_spec(raw).len() ==> is_safe_char(
                #[trigger] sanitize_filename_spec(raw)[i],
            ),
        sanitize_filename_spec(raw).len() > 0 ==> sanitize_filename_spec(raw)[0] != '_',
        sanitize_filename_spec(raw).len() > 0 ==> sanitize_filename_spec(raw).last() != '_',
{
    let m = without_txt(trim(raw)).map_values(|c: char| safe_char(c));
    let lo = leading_underscores(m);
    lemma_leading_count(m);
    let t = m.skip(lo as int);
    lemma_trailing_count(t);
    let r = sanitize_filename_spec(raw);
    assert forall|i: int| 0 <= i < r.len() implies is_safe_char(#[trigger] r[i]) by {
        assert(r[i] == m[lo + i]);
    }
    if r.len() > 0 {
        assert(r[0] == t[0]);
        assert(r.last() == t[t.len() - trailing_underscores(t) - 1]);
    }
}

/// A sanitized name is never longer than the input, and sanitizing it again changes
/// nothing.
pub proof fn lemma_sanitize_shrinks_and_is_idempotent(raw: Seq<char>)
    ensures
        sanitize_filename_spec(raw).len() <= raw.len(),
        sanitize_filename_spec(sanitize_filename_spec(raw)) == sanitize_filename_spec(raw),
{
    lemma_trim_range(raw);
    let w = without_txt(trim(raw));
    let m = w.map_values(|c: char| safe_char(c));
    lemma_leading_count(m);
    lemma_trailing_count(m.skip(leading_underscores(m) as int));
    lemma_sanitized_is_safe(raw);
    let r = sanitize_filename_spec(raw);
    assert(r.len() <= m.len() == w.len() <= trim(raw).len() <= raw.len());
    // `r` holds no whitespace, so trimming keeps it.
    assert forall|i: int| 0 <= i < r.len() implies !is_white_space(#[trigger] r[i]) by {
        assert(is_safe_char(r[i]));
    }
    lemma_trim_char(r, 0, r.len() as int);
    assert(r.subrange(0, r.len() as int) =~= r);
    // `r` holds no `.`, so it does not end in `.txt`.
    reveal_strlit(".txt");
    if r.len() >= 4 && r.skip(r.len() - 4) == ".txt"@ {
        assert(r.skip(r.len() - 4)[0] == r[r.len() - 4]);
        assert(is_safe_char(r[r.len() - 4]));
    }
    assert(without_txt(r) == r);
    // Every character of `r` is safe, so mapping keeps it.
    let m2 = r.map_values(|c: char| safe_char(c));
    assert forall|i: int| 0 <= i < r.len() implies #[trigger] m2[i] == r[i] by {
        assert(is_safe_char(r[i]));
    }
    assert(m2 =~= r);
    // `r` neither starts nor ends with `_`.
    lemma_leading_underscores(r, 0);
    assert(r.skip(0) =~= r);
    lemma_trailing_underscores(r, 0);
    assert(r.take(r.len() as int) =~= r);
}

proof fn lemma_leading_count(s: Seq<char>)
    ensures
        leading_underscores(s) <= s.len(),
        leading_underscores(s) < s.len() ==> s[leading_underscores(s) as int] != '_',
    decreases s.len(),
{
    if s.len() > 0 && s[0] == '_' {
        lemma_leading_count(s.drop_first());
        if leading_underscores(s) < s.len() {
            assert(s[leading_underscores(s) as int] == s.drop_first()[leading_underscores(s.drop_first()) as int]);
        }
    }
}

proof fn lemma_trailing_count(s: Seq<char>)
    ensures
        trailing_underscores(s) <= s.len(),
        trailing_underscores(s) < s.len() ==> s[s.len() - trailing_underscores(s) - 1] != '_',
    decreases s.len(),
{
    if s.len() > 0 && s.last() == '_' {
        lemma_trailing_count(s.drop_last());
        if trailing_underscores(s) < s.len() {
            assert(s[s.len() - trailing_underscores(s) - 1] == s.drop_last()[s.drop_last().len() - trailing_underscores(s.drop_last()) - 1]);
        }
    }
}

} // verus!
