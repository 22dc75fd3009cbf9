//! The names an equation may use: the variables, Euler's number and the supported functions.
use vstd::prelude::*;
use crate::text::{eq_ignore_case, lower, lower_all, chars_of, to_lower};

verus! {

/// Number of supported function names.
pub const FUNCTION_COUNT: usize = 23;

/// The supported function names, in lower case.
pub open spec fn function_names() -> Seq<Seq<char>> {
    seq![
        "sin"@, "cos"@, "tan"@, "sec"@, "csc"@, "cot"@, "asin"@, "acos"@, "atan"@, "sinh"@,
        "cosh"@, "tanh"@, "ln"@, "log"@, "exp"@, "sqrt"@, "abs"@, "floor"@, "ceil"@, "round"@,
        "min"@, "max"@, "pow"@,
    ]
}

/// The `i`-th supported function name.
pub fn function_name(i: usize) -> (res: &'static str)
    requires
        i < FUNCTION_COUNT,
    ensures
        res@ == function_names()[i as int],
{
    match i {
        0 => "sin",
        1 => "cos",
        2 => "tan",
        3 => "sec",
        4 => "csc",
        5 => "cot",
        6 => "asin",
        7 => "acos",
        8 => "atan",
        9 => "sinh",
        10 => "cosh",
        11 => "tanh",
        12 => "ln",
        13 => "log",
        14 => "exp",
        15 => "sqrt",
        16 => "abs",
        17 => "floor",
        18 => "ceil",
        19 => "round",
        20 => "min",
        21 => "max",
        _ => "pow",
    }
}

/// The start of the last `::` in `name` at or before position `k`.
pub open spec fn last_separator_from(name: Seq<char>, k: int) -> Option<int>
    decreases k + 1,
{
    if k < 0 {
        None
    } else if k + 1 < name.len() && name[k] == ':' && name[k + 1] == ':' {
        Some(k)
    } else {
        last_separator_from(name, k - 1)
    }
}

/// What follows the last `::` in `name`, or `name` itself when it has none
/// (the first piece `rsplit("::")` yields).
pub open spec fn base_name(name: Seq<char>) -> Seq<char> {
    match last_separator_from(name, name.len() - 2) {
        Some(k) => name.skip(k + 2),
        None => name,
    }
}

/// `name`, optionally qualified with `...::`, is a supported function in any ASCII case.
pub open spec fn is_function_name_spec(name: Seq<char>) -> bool {
    exists|i: int|
        0 <= i < function_names().len() && eq_ignore_case(#[trigger] function_names()[i], base_name(name))
}

/// Every supported function name has at least two letters, so no one-letter name (such
/// as `x`, `y` or `e`) is a function.
pub proof fn lemma_one_letter_is_no_function(c: char)
    ensures
        !is_function_name_spec(seq![c]),
{
    reveal_strlit("sin");
    reveal_strlit("cos");
    reveal_strlit("tan");
    reveal_strlit("sec");
    reveal_strlit("csc");
    reveal_strlit("cot");
    reveal_strlit("asin");
    reveal_strlit("acos");
    reveal_strlit("atan");
    reveal_strlit("sinh");
    reveal_strlit("cosh");
    reveal_strlit("tanh");
    reveal_strlit("ln");
    reveal_strlit("log");
    reveal_strlit("exp");
    reveal_strlit("sqrt");
    reveal_strlit("abs");
    reveal_strlit("floor");
    reveal_strlit("ceil");
    reveal_strlit("round");
    reveal_strlit("min");
    reveal_strlit("max");
    reveal_strlit("pow");
    let name = seq![c];
    assert(base_name(name) == name);
    assert forall|i: int| 0 <= i < function_names().len() implies !eq_ignore_case(
        #[trigger] function_names()[i],
        base_name(name),
    ) by {
        assert(function_names()[i].len() >= 2);
        assert(lower_all(function_names()[i]).len() == function_names()[i].len());
        assert(lower_all(name).len() == 1);
    }
}

/// `name` is `x`, `y`, `e` (any case) or a supported function.
pub open spec fn is_allowed_identifier_spec(name: Seq<char>) -> bool {
    ||| eq_ignore_case(name, "x"@)
    ||| eq_ignore_case(name, "y"@)
    ||| eq_ignore_case(name, "e"@)
    ||| is_function_name_spec(name)
}

/// Equality of two character sequences up to ASCII case.
pub fn eq_ignore_ascii_case(a: &[char], b: &[char]) -> (res: bool)
    ensures
        res == eq_ignore_case(a@, b@),
{
    if a.len() != b.len() {
        assert(lower_all(a@).len() != lower_all(b@).len());
        return false;
    }
    let mut i: usize = 0;
    while i < a.len()
        invariant
            a@.len() == b@.len(),
            i <= a@.len(),
            forall|k: int| 0 <= k < i ==> lower(#[trigger] a@[k]) == lower(b@[k]),
        decreases a.len() - i,
    {
        if to_lower(a[i]) != to_lower(b[i]) {
            assert(lower_all(a@)[i as int] != lower_all(b@)[i as int]);
            return false;
        }
        i += 1;
    }
    assert(lower_all(a@) =~= lower_all(b@));
    true
}

/// Executable `base_name`, as the range `name[start..]`.
fn base_start(name: &[char]) -> (start: usize)
    ensures
        start <= name@.len(),
        base_name(name@) == name@.skip(start as int),
{
    let n = name.len();
    let mut i: usize = n;
    while i >= 2
        invariant
            i <= n == name@.len(),
            last_separator_from(name@, n - 2) == last_separator_from(name@, i - 2),
        decreases i,
    {
        if name[i - 2] == ':' && name[i - 1] == ':' {
            return i;
        }
        i -= 1;
    }
    assert(last_separator_from(name@, i - 2) is None);
    assert(name@.skip(0) =~= name@);
    0
}

/// Return whether `name` is a supported math function.
pub fn is_function_name(name: &[char]) -> (res: bool)
    ensures
        res == is_function_name_spec(name@),
{
    let start = base_start(name);
    let base = crate::text::slice_chars(name, start, name.len());
    assert(base@ == base_name(name@));
    let mut i: usize = 0;
    while i < FUNCTION_COUNT
        invariant
            i <= FUNCTION_COUNT,
            base@ == base_name(name@),
            forall|k: int| 0 <= k < i ==> !eq_ignore_case(#[trigger] function_names()[k], base@),
        decreases FUNCTION_COUNT - i,
    {
        let f = chars_of(function_name(i));
        if eq_ignore_ascii_case(f.as_slice(), base.as_slice()) {
            return true;
        }
        i += 1;
    }
    false
}

/// Return whether `name` is a legal bare identifier in user input.
pub fn is_allowed_identifier(name: &[char]) -> (res: bool)
    ensures
        res == is_allowed_identifier_spec(name@),
{
    let x = chars_of("x");
    let y = chars_of("y");
    let e = chars_of("e");
    eq_ignore_ascii_case(name, x.as_slice()) || eq_ignore_ascii_case(name, y.as_slice())
        || eq_ignore_ascii_case(name, e.as_slice()) || is_function_name(name)
}

} // verus!
