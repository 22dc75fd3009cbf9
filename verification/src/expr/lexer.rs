//! Splitting an equation into numbers, names, operators and parentheses.
use vstd::prelude::*;
use crate::text::{alnum, alpha, ascii_space, digit, is_alnum, is_alpha, is_ascii_space, is_digit, lower, slice_chars, to_lower};
use crate::expr::error::{ExprError, ParseFault};

verus! {

/// Lexer token category.
#[derive(Debug, Clone, Copy, PartialEq, Eq, Structural)]
pub enum TokenKind {
    Number,
    Ident,
    Op,
    LParen,
    RParen,
}

/// One lexer token: its category and its source text.
#[derive(Debug)]
pub struct Token {
    pub kind: TokenKind,
    pub text: Vec<char>,
}

/// A token as a mathematical value: category and text.
pub type SpecToken = (TokenKind, Seq<char>);

impl View for Token {
    type V = SpecToken;

    open spec fn view(&self) -> SpecToken {
        (self.kind, self.text@)
    }
}

/// The tokens of `ts` as mathematical values.
pub open spec fn view_tokens(ts: Seq<Token>) -> Seq<SpecToken> {
    ts.map_values(|t: Token| t@)
}

/// End of the run of digits and dots that starts at `j`.
pub open spec fn digits_dots_end(s: Seq<char>, j: int) -> int
    decreases s.len() - j,
{
    if 0 <= j < s.len() && (is_digit(s[j]) || s[j] == '.') {
        digits_dots_end(s, j + 1)
    } else {
        j
    }
}

/// End of the run of digits that starts at `j`.
pub open spec fn digits_end(s: Seq<char>, j: int) -> int
    decreases s.len() - j,
{
    if 0 <= j < s.len() && is_digit(s[j]) {
        digits_end(s, j + 1)
    } else {
        j
    }
}

/// At `k` stands an exponent marker `e`/`E` followed by a digit, or by a sign and a digit.
pub open spec fn has_exponent(s: Seq<char>, k: int) -> bool {
    &&& 0 <= k < s.len()
    &&& (s[k] == 'e' || s[k] == 'E')
    &&& {
        ||| (k + 1 < s.len() && is_digit(s[k + 1]))
        ||| (k + 2 < s.len() && (s[k + 1] == '+' || s[k + 1] == '-') && is_digit(s[k + 2]))
    }
}

/// Where the exponent digits start, after the marker at `k` and an optional sign.
pub open spec fn exponent_digits_start(s: Seq<char>, k: int) -> int {
    if k + 1 < s.len() && (s[k + 1] == '+' || s[k + 1] == '-') {
        k + 2
    } else {
        k + 1
    }
}

/// End of the number literal that starts at `start`: a run of digits and dots,
/// then an optional exponent.
pub open spec fn number_end(s: Seq<char>, start: int) -> int {
    let k = digits_dots_end(s, start + 1);
    if has_exponent(s, k) {
        digits_end(s, exponent_digits_start(s, k))
    } else {
        k
    }
}

/// A character that may continue a name: letter, digit, `_` or `:`.
pub open spec fn is_name_char(c: char) -> bool {
    is_alnum(c) || c == '_' || c == ':'
}

/// End of the run of name characters that starts at `j`.
pub open spec fn name_end(s: Seq<char>, j: int) -> int
    decreases s.len() - j,
{
    if 0 <= j < s.len() && is_name_char(s[j]) {
        name_end(s, j + 1)
    } else {
        j
    }
}

/// A number starts at `i`: a digit, or a dot followed by a digit.
pub open spec fn starts_number(s: Seq<char>, i: int) -> bool {
    is_digit(s[i]) || (s[i] == '.' && i + 1 < s.len() && is_digit(s[i + 1]))
}

/// A name starts with a letter or `_`.
pub open spec fn starts_name(c: char) -> bool {
    is_alpha(c) || c == '_'
}

/// One of the operator characters `+ - * / ^ =`.
pub open spec fn is_op_char(c: char) -> bool {
    c == '+' || c == '-' || c == '*' || c == '/' || c == '^' || c == '='
}

/// A name of two or more letters, each `x` or `y` in either case (read as a product).
pub open spec fn is_xy_product(name: Seq<char>) -> bool {
    &&& name.len() > 1
    &&& forall|i: int|
        0 <= i < name.len() ==> #[trigger] name[i] == 'x' || name[i] == 'y' || name[i] == 'X'
            || name[i] == 'Y'
}

/// The identifier tokens a name yields: one per letter for an `x`/`y` product
/// (lower-cased), else the name itself.
pub open spec fn name_tokens(name: Seq<char>) -> Seq<SpecToken> {
    if is_xy_product(name) {
        Seq::new(name.len(), |i: int| (TokenKind::Ident, seq![lower(name[i])]))
    } else {
        seq![(TokenKind::Ident, name)]
    }
}

/// `prefix` in front of the tokens of a lexing result; an error passes through.
pub open spec fn prepend(prefix: Seq<SpecToken>, r: Result<Seq<SpecToken>, ParseFault>) -> Result<
    Seq<SpecToken>,
    ParseFault,
> {
    match r {
        Ok(t) => Ok(prefix + t),
        Err(e) => Err(e),
    }
}

pub proof fn lemma_digits_dots_end(s: Seq<char>, j: int)
    requires
        0 <= j <= s.len(),
    ensures
        j <= digits_dots_end(s, j) <= s.len(),
    decreases s.len() - j,
{
    if j < s.len() && (is_digit(s[j]) || s[j] == '.') {
        lemma_digits_dots_end(s, j + 1);
    }
}

pub proof fn lemma_digits_end(s: Seq<char>, j: int)
    requires
        0 <= j <= s.len(),
    ensures
        j <= digits_end(s, j) <= s.len(),
    decreases s.len() - j,
{
    if j < s.len() && is_digit(s[j]) {
        lemma_digits_end(s, j + 1);
    }
}

pub proof fn lemma_name_end(s: Seq<char>, j: int)
    requires
        0 <= j <= s.len(),
    ensures
        j <= name_end(s, j) <= s.len(),
    decreases s.len() - j,
{
    if j < s.len() && is_name_char(s[j]) {
        lemma_name_end(s, j + 1);
    }
}

pub proof fn lemma_number_end(s: Seq<char>, start: int)
    requires
        0 <= start < s.len(),
    ensures
        start < number_end(s, start) <= s.len(),
{
    let k = digits_dots_end(s, start + 1);
    lemma_digits_dots_end(s, start + 1);
    if has_exponent(s, k) {
        lemma_digits_end(s, exponent_digits_start(s, k));
    }
}

/// The tokens of `s` from position `i` on, or the fault at the first character that
/// no token can hold.
pub open spec fn tokenize_from(s: Seq<char>, i: int) -> Result<Seq<SpecToken>, ParseFault>
    decreases s.len() - i,
{
    if i < 0 || i >= s.len() {
        Ok(seq![])
    } else {
        let c = s[i];
        if is_ascii_space(c) {
            tokenize_from(s, i + 1)
        } else if starts_number(s, i) {
            let e = number_end(s, i);
            proof {
                lemma_number_end(s, i);
            }
            prepend(seq![(TokenKind::Number, s.subrange(i, e))], tokenize_from(s, e))
        } else if starts_name(c) {
            let e = name_end(s, i + 1);
            proof {
                lemma_name_end(s, i + 1);
            }
            prepend(name_tokens(s.subrange(i, e)), tokenize_from(s, e))
        } else if is_op_char(c) {
            prepend(seq![(TokenKind::Op, seq![c])], tokenize_from(s, i + 1))
        } else if c == '(' {
            prepend(seq![(TokenKind::LParen, seq!['('])], tokenize_from(s, i + 1))
        } else if c == ')' {
            prepend(seq![(TokenKind::RParen, seq![')'])], tokenize_from(s, i + 1))
        } else {
            Err(ParseFault::UnexpectedCharacter(c))
        }
    }
}

/// The tokens of `s`, or the fault at the first character that no token can hold.
pub open spec fn tokenize_spec(s: Seq<char>) -> Result<Seq<SpecToken>, ParseFault> {
    tokenize_from(s, 0)
}

proof fn lemma_digits_dots_run(s: Seq<char>, j: int, k: int)
    requires
        0 <= j <= k <= s.len(),
        forall|i: int| j <= i < k ==> is_digit(#[trigger] s[i]) || s[i] == '.',
        k < s.len() ==> !is_digit(s[k]) && s[k] != '.',
    ensures
        digits_dots_end(s, j) == k,
    decreases k - j,
{
    if j < k {
        lemma_digits_dots_run(s, j + 1, k);
    }
}

/// A literal of digits and decimal points that starts with a digit is read as one
/// number, up to the first character that is none of a digit, `.`, `e` and `E`:
/// `0.5*y` lexes as the number `0.5`, then the rest, and `3.25` alone is one number.
pub proof fn lemma_decimal_is_one_number(s: Seq<char>, k: int)
    requires
        0 < k <= s.len(),
        is_digit(s[0]),
        forall|i: int| 0 <= i < k ==> is_digit(#[trigger] s[i]) || s[i] == '.',
        k < s.len() ==> !is_digit(s[k]) && s[k] != '.' && s[k] != 'e' && s[k] != 'E',
    ensures
        tokenize_spec(s) == prepend(seq![(TokenKind::Number, s.take(k))], tokenize_from(s, k)),
        k == s.len() ==> tokenize_spec(s) == Ok::<Seq<SpecToken>, ParseFault>(
            seq![(TokenKind::Number, s)],
        ),
{
    lemma_digits_dots_run(s, 1, k);
    assert(!has_exponent(s, k));
    assert(number_end(s, 0) == k);
    assert(!is_ascii_space(s[0]));
    assert(starts_number(s, 0));
    assert(s.subrange(0, k) =~= s.take(k));
    if k == s.len() {
        assert(s.take(k) =~= s);
        assert(seq![(TokenKind::Number, s)] + seq![] =~= seq![(TokenKind::Number, s)]);
    }
}

/// A lexing result as a mathematical value.
pub open spec fn tokens_result(r: Result<Vec<Token>, ExprError>) -> Result<Seq<SpecToken>, ParseFault> {
    match r {
        Ok(ts) => Ok(view_tokens(ts@)),
        Err(e) => Err(e@),
    }
}

proof fn lemma_prepend_assoc(a: Seq<SpecToken>, b: Seq<SpecToken>, r: Result<Seq<SpecToken>, ParseFault>)
    ensures
        prepend(a, prepend(b, r)) == prepend(a + b, r),
{
    if let Ok(t) = r {
        assert(a + (b + t) =~= (a + b) + t);
    }
}

/// Executable `is_xy_product`.
fn split_xy_product(name: &[char]) -> (res: bool)
    ensures
        res == is_xy_product(name@),
{
    if name.len() <= 1 {
        return false;
    }
    let mut i: usize = 0;
    while i < name.len()
        invariant
            i <= name@.len(),
            forall|k: int|
                0 <= k < i ==> #[trigger] name@[k] == 'x' || name@[k] == 'y' || name@[k] == 'X'
                    || name@[k] == 'Y',
        decreases name.len() - i,
    {
        let c = name[i];
        if !(c == 'x' || c == 'y' || c == 'X' || c == 'Y') {
            return false;
        }
        i += 1;
    }
    true
}

fn push_token(tokens: &mut Vec<Token>, kind: TokenKind, text: Vec<char>)
    ensures
        view_tokens(final(tokens)@) == view_tokens(old(tokens)@) + seq![(kind, text@)],
{
    let ghost before = tokens@;
    tokens.push(Token { kind, text });
    assert(view_tokens(tokens@) =~= view_tokens(before) + seq![(kind, text@)]);
}

/// Lex a math expression into numbers, names, operators and parentheses.
pub fn tokenize(s: &[char]) -> (res: Result<Vec<Token>, ExprError>)
    ensures
        tokens_result(res) == tokenize_spec(s@),
{
    let mut tokens: Vec<Token> = Vec::new();
    let mut i: usize = 0;
    let n = s.len();
    assert(view_tokens(tokens@) =~= Seq::<SpecToken>::empty());
    assert(prepend(seq![], tokenize_from(s@, 0)) == tokenize_from(s@, 0)) by {
        if let Ok(t) = tokenize_from(s@, 0) {
            assert(Seq::<SpecToken>::empty() + t =~= t);
        }
    }
    while i < n
        invariant
            n == s@.len(),
            i <= n,
            tokenize_spec(s@) == prepend(view_tokens(tokens@), tokenize_from(s@, i as int)),
        decreases n - i,
    {
        let ghost before = view_tokens(tokens@);
        let c = s[i];
        if ascii_space(c) {
            i += 1;
        } else if digit(c) || (c == '.' && i + 1 < n && digit(s[i + 1])) {
            let start = i;
            proof {
                lemma_number_end(s@, start as int);
            }
            i += 1;
            while i < n && (digit(s[i]) || s[i] == '.')
                invariant
                    n == s@.len(),
                    start < i <= n,
                    digits_dots_end(s@, i as int) == digits_dots_end(s@, start + 1),
                decreases n - i,
            {
                i += 1;
            }
            if i < n && (s[i] == 'e' || s[i] == 'E') {
                let has_exp = i + 1 < n && (digit(s[i + 1]) || (i + 2 < n && (s[i + 1] == '+'
                    || s[i + 1] == '-') && digit(s[i + 2])));
                if has_exp {
                    i += 1;
                    if i < n && (s[i] == '+' || s[i] == '-') {
                        i += 1;
                    }
                    let ghost m = i;
                    while i < n && digit(s[i])
                        invariant
                            n == s@.len(),
                            m <= i <= n,
                            digits_end(s@, i as int) == digits_end(s@, m as int),
                        decreases n - i,
                    {
                        i += 1;
                    }
                }
            }
            assert(i == number_end(s@, start as int));
            let text = slice_chars(s, start, i);
            push_token(&mut tokens, TokenKind::Number, text);
            proof {
                lemma_prepend_assoc(before, seq![(TokenKind::Number, s@.subrange(start as int, i as int))], tokenize_from(s@, i as int));
            }
        } else if alpha(c) || c == '_' {
            let start = i;
            i += 1;
            while i < n && (alnum(s[i]) || s[i] == '_' || s[i] == ':')
                invariant
                    n == s@.len(),
                    start < i <= n,
                    name_end(s@, i as int) == name_end(s@, start + 1),
                decreases n - i,
            {
                i += 1;
            }
            let name = slice_chars(s, start, i);
            let ghost nm = name@;
            if split_xy_product(name.as_slice()) {
                let mut k: usize = 0;
                while k < name.len()
                    invariant
                        name@ == nm,
                        is_xy_product(nm),
                        k <= nm.len(),
                        view_tokens(tokens@) == before + name_tokens(nm).take(k as int),
                    decreases name.len() - k,
                {
                    let lc = to_lower(name[k]);
                    let mut t: Vec<char> = Vec::new();
                    t.push(lc);
                    push_token(&mut tokens, TokenKind::Ident, t);
                    assert(name_tokens(nm).take(k + 1) =~= name_tokens(nm).take(k as int).push((TokenKind::Ident, seq![lc])));
                    assert(t@ =~= seq![lc]);
                    k += 1;
                }
                assert(name_tokens(nm).take(nm.len() as int) =~= name_tokens(nm));
            } else {
                push_token(&mut tokens, TokenKind::Ident, name);
            }
            proof {
                lemma_prepend_assoc(before, name_tokens(nm), tokenize_from(s@, i as int));
            }
        } else if c == '+' || c == '-' || c == '*' || c == '/' || c == '^' || c == '=' {
            let mut t: Vec<char> = Vec::new();
            t.push(c);
            assert(t@ =~= seq![c]);
            push_token(&mut tokens, TokenKind::Op, t);
            i += 1;
            proof {
                lemma_prepend_assoc(before, seq![(TokenKind::Op, seq![c])], tokenize_from(s@, i as int));
            }
        } else if c == '(' {
            let mut t: Vec<char> = Vec::new();
            t.push('(');
            assert(t@ =~= seq!['(']);
            push_token(&mut tokens, TokenKind::LParen, t);
            i += 1;
            proof {
                lemma_prepend_assoc(before, seq![(TokenKind::LParen, seq!['('])], tokenize_from(s@, i as int));
            }
        } else if c == ')' {
            let mut t: Vec<char> = Vec::new();
            t.push(')');
            assert(t@ =~= seq![')']);
            push_token(&mut tokens, TokenKind::RParen, t);
            i += 1;
            proof {
                lemma_prepend_assoc(before, seq![(TokenKind::RParen, seq![')'])], tokenize_from(s@, i as int));
            }
        } else {
            return Err(ExprError::UnexpectedCharacter(c));
        }
    }
    assert(view_tokens(tokens@) + seq![] =~= view_tokens(tokens@));
    Ok(tokens)
}

} // verus!
