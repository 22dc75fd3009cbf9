//! Rewriting a checked expression for the expression engine: `math::` function names
//! and explicit `*` for implicit multiplication.
use vstd::prelude::*;
use crate::text::{alnum, alpha, chars_of, eq_ignore_case, is_alnum, is_alpha, lower_all, push_all, to_lower};
use crate::expr::error::{ExprError, ParseFault};
use crate::expr::lexer::{is_xy_product, name_end, name_tokens, prepend, tokenize, tokenize_from, tokenize_spec, view_tokens, SpecToken, Token, TokenKind};
use crate::expr::names::{eq_ignore_ascii_case, is_function_name, is_function_name_spec, lemma_one_letter_is_no_function};

verus! {

/// End of the run of letters, digits and `_` that starts at `j`.
pub open spec fn word_end(s: Seq<char>, j: int) -> int
    decreases s.len() - j,
{
    if 0 <= j < s.len() && (is_alnum(s[j]) || s[j] == '_') {
        word_end(s, j + 1)
    } else {
        j
    }
}

pub proof fn lemma_word_end(s: Seq<char>, j: int)
    requires
        0 <= j <= s.len(),
    ensures
        j <= word_end(s, j) <= s.len(),
    decreases s.len() - j,
{
    if j < s.len() && (is_alnum(s[j]) || s[j] == '_') {
        lemma_word_end(s, j + 1);
    }
}

/// How one word is written for the expression engine: a function becomes `math::`
/// and its lower-case name, `e`/`E` becomes `e`, anything else stays.
pub open spec fn mapped_word(name: Seq<char>) -> Seq<char> {
    if is_function_name_spec(name) {
        "math::"@ + lower_all(name)
    } else if eq_ignore_case(name, "e"@) {
        seq!['e']
    } else {
        name
    }
}

/// `s` from position `i` on with every word (a letter followed by letters, digits and
/// `_`) replaced by `mapped_word`; other characters are copied.
pub open spec fn map_functions_from(s: Seq<char>, i: int) -> Seq<char>
    decreases s.len() - i,
{
    if i < 0 || i >= s.len() {
        seq![]
    } else if is_alpha(s[i]) {
        let e = word_end(s, i + 1);
        proof {
            lemma_word_end(s, i + 1);
        }
        mapped_word(s.subrange(i, e)) + map_functions_from(s, e)
    } else {
        seq![s[i]] + map_functions_from(s, i + 1)
    }
}

/// `s` with every word replaced by `mapped_word`.
pub open spec fn map_math_functions_spec(s: Seq<char>) -> Seq<char> {
    map_functions_from(s, 0)
}

/// Rewrite function names to `math::` calls and normalize `e`.
pub fn map_math_functions(s: &[char]) -> (out: Vec<char>)
    ensures
        out@ == map_math_functions_spec(s@),
{
    let mut out: Vec<char> = Vec::new();
    let n = s.len();
    let mut i: usize = 0;
    while i < n
        invariant
            n == s@.len(),
            i <= n,
            map_functions_from(s@, 0) == out@ + map_functions_from(s@, i as int),
        decreases n - i,
    {
        let ghost before = out@;
        if alpha(s[i]) {
            let start = i;
            proof {
                lemma_word_end(s@, i + 1);
            }
            i += 1;
            while i < n && (alnum(s[i]) || s[i] == '_')
                invariant
                    n == s@.len(),
                    start < i <= n,
                    word_end(s@, i as int) == word_end(s@, start + 1),
                decreases n - i,
            {
                i += 1;
            }
            let name = crate::text::slice_chars(s, start, i);
            if is_function_name(name.as_slice()) {
                let prefix = chars_of("math::");
                push_all(&mut out, prefix.as_slice());
                let mut k: usize = 0;
                let ghost mid = out@;
                while k < name.len()
                    invariant
                        k <= name@.len(),
                        out@ == mid + lower_all(name@).take(k as int),
                    decreases name.len() - k,
                {
                    out.push(to_lower(name[k]));
                    assert(lower_all(name@).take(k + 1) =~= lower_all(name@).take(k as int).push(
                        lower_all(name@)[k as int],
                    ));
                    k += 1;
                }
                assert(lower_all(name@).take(name@.len() as int) =~= lower_all(name@));
                assert(out@ =~= before + mapped_word(name@));
            } else if eq_ignore_ascii_case(name.as_slice(), chars_of("e").as_slice()) {
                out.push('e');
                assert(out@ =~= before + mapped_word(name@));
            } else {
                push_all(&mut out, name.as_slice());
            }
            assert(before + (mapped_word(name@) + map_functions_from(s@, i as int)) =~= (before
                + mapped_word(name@)) + map_functions_from(s@, i as int));
        } else {
            out.push(s[i]);
            i += 1;
            assert(before + (seq![s@[i - 1]] + map_functions_from(s@, i as int)) =~= out@
                + map_functions_from(s@, i as int));
        }
    }
    assert(out@ + Seq::<char>::empty() =~= out@);
    out
}

/// A token kind that can end the left factor of an implicit product.
pub open spec fn ends_factor_spec(k: TokenKind) -> bool {
    k == TokenKind::Number || k == TokenKind::Ident || k == TokenKind::RParen
}

/// A token kind that can start the right factor of an implicit product.
pub open spec fn starts_factor_spec(k: TokenKind) -> bool {
    k == TokenKind::Number || k == TokenKind::Ident || k == TokenKind::LParen
}

/// A `*` goes between adjacent tokens `p` and `c`: `p` ends a factor, `c` starts one,
/// and they are not a function name and its `(`.
pub open spec fn needs_mult(p: SpecToken, c: SpecToken) -> bool {
    &&& ends_factor_spec(p.0)
    &&& starts_factor_spec(c.0)
    &&& !(p.0 == TokenKind::Ident && c.0 == TokenKind::LParen && is_function_name_spec(p.1))
}

/// The texts of tokens `k..` joined without spaces, with `*` where `needs_mult` holds.
pub open spec fn join_from(ts: Seq<SpecToken>, k: int) -> Seq<char>
    decreases ts.len() - k,
{
    if k < 0 || k >= ts.len() {
        seq![]
    } else {
        (if k > 0 && needs_mult(ts[k - 1], ts[k]) {
            seq!['*']
        } else {
            seq![]
        }) + ts[k].1 + join_from(ts, k + 1)
    }
}

/// The tokens of `s` joined with explicit `*` for implicit multiplication.
pub open spec fn implicit_mult_spec(s: Seq<char>) -> Result<Seq<char>, ParseFault> {
    match tokenize_spec(s) {
        Ok(ts) => Ok(join_from(ts, 0)),
        Err(f) => Err(f),
    }
}

/// Between a name and the `(` right after it, the rewrite puts `*` exactly when the
/// name is not a supported function: `x(...)` is a product, `sin(...)` a call.
pub proof fn lemma_name_before_paren(ts: Seq<SpecToken>, k: int)
    requires
        0 < k < ts.len(),
        ts[k - 1].0 == TokenKind::Ident,
        ts[k].0 == TokenKind::LParen,
    ensures
        !is_function_name_spec(ts[k - 1].1) ==> join_from(ts, k) == seq!['*'] + ts[k].1
            + join_from(ts, k + 1),
        is_function_name_spec(ts[k - 1].1) ==> join_from(ts, k) == ts[k].1 + join_from(
            ts,
            k + 1,
        ),
{
    assert(seq![] + ts[k].1 =~= ts[k].1);
}

/// A variable `x`, `y` or `e` written directly before `(` is multiplied with the
/// bracket: the rewrite of `v(...` starts with `v*(`.
pub proof fn lemma_variable_times_paren(c: char, r: Seq<char>)
    requires
        c == 'x' || c == 'y' || c == 'e',
    ensures
        tokenize_spec(seq![c, '('] + r) is Ok ==> implicit_mult_spec(seq![c, '('] + r) is Ok,
        implicit_mult_spec(seq![c, '('] + r) matches Ok(out) ==> out.len() >= 3 && out.take(3)
            == seq![c, '*', '('],
{
    let s = seq![c, '('] + r;
    assert(s[0] == c && s[1] == '(');
    assert(name_end(s, 1) == 1);
    assert(s.subrange(0, 1) =~= seq![c]);
    assert(!is_xy_product(seq![c]));
    assert(name_tokens(s.subrange(0, 1)) == seq![(TokenKind::Ident, seq![c])]);
    assert(tokenize_from(s, 0) == prepend(seq![(TokenKind::Ident, seq![c])], tokenize_from(s, 1)));
    assert(tokenize_from(s, 1) == prepend(seq![(TokenKind::LParen, seq!['('])], tokenize_from(s, 2)));
    lemma_one_letter_is_no_function(c);
    if let Ok(rest) = tokenize_from(s, 2) {
        let ts = seq![(TokenKind::Ident, seq![c])] + (seq![(TokenKind::LParen, seq!['('])] + rest);
        assert(tokenize_spec(s) == Ok::<Seq<SpecToken>, ParseFault>(ts));
        assert(ts[0] == (TokenKind::Ident, seq![c]));
        assert(ts[1] == (TokenKind::LParen, seq!['(']));
        lemma_name_before_paren(ts, 1);
        let out = join_from(ts, 0);
        assert(out == seq![] + seq![c] + join_from(ts, 1));
        assert(out =~= seq![c, '*', '('] + join_from(ts, 2));
    }
}

/// Return whether a token kind can end an implicit-multiplication left factor.
fn ends_factor(kind: TokenKind) -> (res: bool)
    ensures
        res == ends_factor_spec(kind),
{
    kind == TokenKind::Number || kind == TokenKind::Ident || kind == TokenKind::RParen
}

/// Return whether a token kind can start an implicit-multiplication right factor.
fn starts_factor(kind: TokenKind) -> (res: bool)
    ensures
        res == starts_factor_spec(kind),
{
    kind == TokenKind::Number || kind == TokenKind::Ident || kind == TokenKind::LParen
}

/// Return whether to insert `*` between two adjacent tokens.
fn needs_implicit_mult(prev: &Token, curr: &Token) -> (res: bool)
    ensures
        res == needs_mult(prev@, curr@),
{
    if !ends_factor(prev.kind) || !starts_factor(curr.kind) {
        return false;
    }
    if prev.kind == TokenKind::Ident && curr.kind == TokenKind::LParen {
        return !is_function_name(prev.text.as_slice());
    }
    true
}

/// A rewriting result as a mathematical value.
pub open spec fn chars_result(r: Result<Vec<char>, ExprError>) -> Result<Seq<char>, ParseFault> {
    match r {
        Ok(v) => Ok(v@),
        Err(e) => Err(e@),
    }
}

/// Insert `*` between tokens that require implicit multiplication.
pub fn insert_implicit_multiplication(s: &[char]) -> (res: Result<Vec<char>, ExprError>)
    ensures
        chars_result(res) == implicit_mult_spec(s@),
{
    let tokens = tokenize(s)?;
    let ghost ts = view_tokens(tokens@);
    let mut out: Vec<char> = Vec::new();
    let n = tokens.len();
    let mut k: usize = 0;
    assert(join_from(ts, 0) =~= out@ + join_from(ts, 0));
    while k < n
        invariant
            n == tokens@.len() == ts.len(),
            ts == view_tokens(tokens@),
            k <= n,
            tokenize_spec(s@) == Ok::<Seq<SpecToken>, ParseFault>(ts),
            join_from(ts, 0) == out@ + join_from(ts, k as int),
        decreases n - k,
    {
        let ghost before = out@;
        assert(ts[k as int] == tokens@[k as int]@);
        if k > 0 {
            assert(ts[k - 1] == tokens@[k - 1]@);
        }
        let star = k > 0 && needs_implicit_mult(&tokens[k - 1], &tokens[k]);
        if star {
            out.push('*');
        }
        push_all(&mut out, tokens[k].text.as_slice());
        let ghost sep: Seq<char> = if star { seq!['*'] } else { seq![] };
        assert(out@ =~= before + sep + ts[k as int].1);
        assert(before + (sep + ts[k as int].1 + join_from(ts, k + 1)) =~= out@ + join_from(ts, k + 1));
        k += 1;
    }
    assert(out@ + Seq::<char>::empty() =~= out@);
    Ok(out)
}

} // verus!
