//! Reading the right-hand side F(x, y) of `y' = F(x, y)` from user-facing math notation.
pub mod validate;
pub mod error;
pub mod lexer;
pub mod names;
pub mod prefix;
pub mod rewrite;

use vstd::prelude::*;
use evalexpr::Node;
use crate::text::{chars_of, lemma_trim_idempotent, string_from_chars, trim, trimmed};
use crate::expr::validate::{unit_result, validate_expression, validate_expression_spec};
use crate::expr::error::{ExprError, ParseFault};
use crate::expr::prefix::{lemma_pasted_lhs_is_stripped, lemma_unprefixed_is_trimmed, strip_dy_dx_spec, strip_equation_lhs, strip_equation_lhs_spec, strip_y_prime_spec};
use crate::expr::rewrite::{chars_result, implicit_mult_spec, insert_implicit_multiplication, map_math_functions, map_math_functions_spec};

verus! {

/// The parse tree type of the `evalexpr` crate.
#[verifier::external_type_specification]
#[verifier::external_body]
pub struct ExNode(Node);

/// What `evalexpr::build_operator_tree` makes of an expression text: the tree it
/// builds, or the display text of the error it returns.
pub uninterp spec fn operator_tree(expr: Seq<char>) -> Result<Node, Seq<char>>;

/// `evalexpr::build_operator_tree`: parses `expr` into an evaluable tree. The claim is
/// that the tree, or the error's display text, depends on `expr` alone; nothing is
/// claimed of the tree's shape.
#[verifier::external_body]
fn build_operator_tree(expr: &str) -> (res: Result<Node, String>)
    ensures
        match res {
            Ok(t) => operator_tree(expr@) == Ok::<Node, Seq<char>>(t),
            Err(m) => operator_tree(expr@) == Err::<Node, Seq<char>>(m@),
        },
{
    match evalexpr::build_operator_tree(expr) {
        Ok(tree) => Ok(tree),
        Err(e) => Err(e.to_string()),
    }
}

/// The expression text handed to the expression engine for the user's input `raw`:
/// trimmed, without its `y' =` / `dy/dx =` prefix, checked, with functions written
/// `math::name` and implicit products made explicit.
pub open spec fn normalize_spec(raw: Seq<char>) -> Result<Seq<char>, ParseFault> {
    let s = strip_equation_lhs_spec(trim(raw));
    if s.len() == 0 {
        Err(ParseFault::Empty)
    } else {
        match validate_expression_spec(s) {
            Err(f) => Err(f),
            Ok(()) => implicit_mult_spec(map_math_functions_spec(s)),
        }
    }
}

/// Prepare user-facing math notation for the expression engine.
///
/// Strips equation prefixes, validates tokens, maps functions, and inserts
/// implicit multiplication (e.g. `2y` → `2*y`).
pub fn normalize_expression(raw: &str) -> (res: Result<String, ExprError>)
    ensures
        match res {
            Ok(out) => normalize_spec(raw@) == Ok::<Seq<char>, ParseFault>(out@),
            Err(e) => normalize_spec(raw@) == Err::<Seq<char>, ParseFault>(e@),
        },
{
    let cs = chars_of(raw);
    let t = trimmed(cs.as_slice());
    let s = strip_equation_lhs(t.as_slice());
    if s.len() == 0 {
        return Err(ExprError::Empty);
    }
    let checked = validate_expression(s.as_slice());
    assert(unit_result(checked) == validate_expression_spec(s@));
    checked?;
    let mapped = map_math_functions(s.as_slice());
    let out = insert_implicit_multiplication(mapped.as_slice());
    assert(chars_result(out) == implicit_mult_spec(mapped@));
    let out = out?;
    Ok(string_from_chars(out.as_slice()))
}

/// Parsed right-hand side F(x, y) for y' = F(x, y).
pub struct OdeFunction {
    tree: Node,
    source: Ghost<Seq<char>>,
}

impl OdeFunction {
    /// The expression text the tree was built from.
    pub closed spec fn source(&self) -> Seq<char> {
        self.source@
    }

    /// The tree is the one the expression engine builds from the source text.
    #[verifier::type_invariant]
    closed spec fn built_from_source(self) -> bool {
        operator_tree(self.source@) == Ok::<Node, Seq<char>>(self.tree)
    }

    /// Parse and compile a user equation into an evaluable function.
    ///
    /// Fails with the first fault of the notation, or, once the notation is accepted,
    /// with the expression engine's message when it cannot build a tree.
    pub fn parse(raw: &str) -> (res: Result<OdeFunction, ExprError>)
        ensures
            match normalize_spec(raw@) {
                Err(f) => res matches Err(e) && e@ == f,
                Ok(norm) => match operator_tree(norm) {
                    Ok(_) => res matches Ok(func) && func.source() == norm,
                    Err(m) => res matches Err(e) && e@ == ParseFault::Syntax(m),
                },
            },
    {
        let normalized = normalize_expression(raw)?;
        match build_operator_tree(normalized.as_str()) {
            Ok(tree) => Ok(OdeFunction { tree, source: Ghost(normalized@) }),
            Err(m) => Err(ExprError::Syntax(m)),
        }
    }

    /// The parse tree, for evaluation: the one the expression engine built from
    /// the source text.
    pub fn tree(&self) -> (res: &Node)
        ensures
            operator_tree(self.source()) == Ok::<Node, Seq<char>>(*res),
    {
        proof {
            use_type_invariant(self);
        }
        &self.tree
    }
}

/// Pasting the whole equation, `y'=F` or `dy/dx=F`, gives what typing `F` alone gives
/// (for an `F` that does not itself start with such a prefix).
pub proof fn lemma_pasted_equation_same_as_rhs(lhs: Seq<char>, rhs: Seq<char>)
    requires
        lhs == seq!['y', '\'', '='] || lhs == seq!['d', 'y', '/', 'd', 'x', '='],
        strip_dy_dx_spec(trim(rhs)) is None,
        strip_y_prime_spec(trim(rhs)) is None,
    ensures
        normalize_spec(lhs + rhs) == normalize_spec(rhs),
{
    lemma_pasted_lhs_is_stripped(lhs, rhs);
    lemma_unprefixed_is_trimmed(trim(rhs));
    lemma_trim_idempotent(rhs);
}

} // verus!
