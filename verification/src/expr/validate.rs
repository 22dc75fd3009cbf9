//! Structural checks on the token stream before the expression is handed on.
use vstd::prelude::*;
use crate::text::string_from_chars;
use crate::expr::error::{ExprError, ParseFault};
use crate::expr::lexer::{tokenize, tokenize_spec, view_tokens, SpecToken, Token, TokenKind};
use crate::expr::names::{is_allowed_identifier, is_allowed_identifier_spec, is_function_name, is_function_name_spec};

verus! {

/// `t` is the operator token `c`.
pub open spec fn is_op(t: SpecToken, c: char) -> bool {
    t.0 == TokenKind::Op && t.1 == seq![c]
}

/// The token at `j` exists and can end an operand: a number, a name or `)`.
pub open spec fn ends_operand(ts: Seq<SpecToken>, j: int) -> bool {
    0 <= j < ts.len() && (ts[j].0 == TokenKind::Number || ts[j].0 == TokenKind::Ident || ts[j].0
        == TokenKind::RParen)
}

/// The token at `j` exists and can start an operand: a number, a name, `(` or `-`.
pub open spec fn starts_operand(ts: Seq<SpecToken>, j: int) -> bool {
    0 <= j < ts.len() && (ts[j].0 == TokenKind::Number || ts[j].0 == TokenKind::Ident || ts[j].0
        == TokenKind::LParen || is_op(ts[j], '-'))
}

/// The first fault, from token `k` on with `depth` parentheses open, among: a `)` with
/// none open, an unknown name, an `=`; or an unclosed `(` at the end.
pub open spec fn structure_fault(ts: Seq<SpecToken>, k: int, depth: int) -> Option<ParseFault>
    decreases ts.len() - k,
{
    if k < 0 || k >= ts.len() {
        if depth > 0 {
            Some(ParseFault::UnclosedParen)
        } else {
            None
        }
    } else {
        let t = ts[k];
        match t.0 {
            TokenKind::LParen => structure_fault(ts, k + 1, depth + 1),
            TokenKind::RParen => if depth - 1 < 0 {
                Some(ParseFault::UnexpectedCloseParen)
            } else {
                structure_fault(ts, k + 1, depth - 1)
            },
            TokenKind::Ident => if !is_allowed_identifier_spec(t.1) {
                Some(ParseFault::UnknownIdentifier(t.1))
            } else {
                structure_fault(ts, k + 1, depth)
            },
            TokenKind::Op => if t.1 == seq!['='] {
                Some(ParseFault::UnexpectedEquals)
            } else {
                structure_fault(ts, k + 1, depth)
            },
            TokenKind::Number => structure_fault(ts, k + 1, depth),
        }
    }
}

/// The first function name, from token `k` on, that is not followed by `(`.
pub open spec fn function_fault(ts: Seq<SpecToken>, k: int) -> Option<ParseFault>
    decreases ts.len() - k,
{
    if k < 0 || k >= ts.len() {
        None
    } else if ts[k].0 == TokenKind::Ident && is_function_name_spec(ts[k].1) && !(k + 1 < ts.len()
        && ts[k + 1].0 == TokenKind::LParen) {
        if k + 1 < ts.len() && is_op(ts[k + 1], '^') {
            Some(ParseFault::FunctionPower(ts[k].1))
        } else {
            Some(ParseFault::FunctionCall(ts[k].1))
        }
    } else {
        function_fault(ts, k + 1)
    }
}

/// `c` is one of the binary operators `+ * / ^`.
pub open spec fn is_binary_op_char(c: char) -> bool {
    c == '+' || c == '*' || c == '/' || c == '^'
}

/// The first operator, from token `k` on, that lacks an operand.
pub open spec fn operator_fault(ts: Seq<SpecToken>, k: int) -> Option<ParseFault>
    decreases ts.len() - k,
{
    if k < 0 || k >= ts.len() {
        None
    } else if is_op(ts[k], '-') && !starts_operand(ts, k + 1) {
        if !ends_operand(ts, k - 1) {
            Some(ParseFault::MissingOperand)
        } else {
            Some(ParseFault::OperatorAtEnd('-'))
        }
    } else if ts[k].0 == TokenKind::Op && ts[k].1.len() == 1 && is_binary_op_char(ts[k].1[0])
        && !ends_operand(ts, k - 1) {
        Some(ParseFault::OperatorAtStart(ts[k].1[0]))
    } else if ts[k].0 == TokenKind::Op && ts[k].1.len() == 1 && is_binary_op_char(ts[k].1[0])
        && !starts_operand(ts, k + 1) {
        Some(ParseFault::OperatorAtEnd(ts[k].1[0]))
    } else {
        operator_fault(ts, k + 1)
    }
}

/// Operator and function-call rules on a token stream: function faults first, then
/// operator faults, each the first in token order.
pub open spec fn validate_syntax_spec(ts: Seq<SpecToken>) -> Result<(), ParseFault> {
    match function_fault(ts, 0) {
        Some(f) => Err(f),
        None => match operator_fault(ts, 0) {
            Some(f) => Err(f),
            None => Ok(()),
        },
    }
}

/// All checks on a right-hand side: lexing, then parentheses, names and `=`, then syntax.
pub open spec fn validate_expression_spec(s: Seq<char>) -> Result<(), ParseFault> {
    match tokenize_spec(s) {
        Err(f) => Err(f),
        Ok(ts) => match structure_fault(ts, 0, 0) {
            Some(f) => Err(f),
            None => validate_syntax_spec(ts),
        },
    }
}

/// A check result as a mathematical value.
pub open spec fn unit_result(r: Result<(), ExprError>) -> Result<(), ParseFault> {
    match r {
        Ok(()) => Ok(()),
        Err(e) => Err(e@),
    }
}

/// Executable `is_op`.
fn is_op_token(t: &Token, c: char) -> (res: bool)
    ensures
        res == is_op(t@, c),
{
    let r = t.kind == TokenKind::Op && t.text.len() == 1 && t.text[0] == c;
    proof {
        if t.kind == TokenKind::Op && t.text@.len() == 1 && t.text@[0] == c {
            assert(t.text@ =~= seq![c]);
        }
    }
    r
}

/// Return whether a token can end a mathematical operand.
fn is_operand_end(tok: Option<&Token>) -> (res: bool)
    ensures
        res == match tok {
            Some(t) => t.kind == TokenKind::Number || t.kind == TokenKind::Ident || t.kind
                == TokenKind::RParen,
            None => false,
        },
{
    match tok {
        Some(t) => t.kind == TokenKind::Number || t.kind == TokenKind::Ident || t.kind
            == TokenKind::RParen,
        None => false,
    }
}

/// Return whether a token can start a mathematical operand.
fn is_operand_start(tok: Option<&Token>) -> (res: bool)
    ensures
        res == match tok {
            Some(t) => t.kind == TokenKind::Number || t.kind == TokenKind::Ident || t.kind
                == TokenKind::LParen || is_op(t@, '-'),
            None => false,
        },
{
    match tok {
        Some(t) => t.kind == TokenKind::Number || t.kind == TokenKind::Ident || t.kind
            == TokenKind::LParen || is_op_token(t, '-'),
        None => false,
    }
}

fn token_at(tokens: &[Token], j: usize) -> (res: Option<&Token>)
    ensures
        j < tokens@.len() ==> res == Some(&tokens@[j as int]),
        j >= tokens@.len() ==> res is None,
{
    if j < tokens.len() {
        Some(&tokens[j])
    } else {
        None
    }
}

/// Catch token sequences that lex but are not valid math.
fn validate_syntax(tokens: &[Token]) -> (res: Result<(), ExprError>)
    ensures
        unit_result(res) == validate_syntax_spec(view_tokens(tokens@)),
{
    let ghost ts = view_tokens(tokens@);
    let n = tokens.len();
    let mut i: usize = 0;
    while i < n
        invariant
            n == tokens@.len() == ts.len(),
            ts == view_tokens(tokens@),
            i <= n,
            function_fault(ts, 0) == function_fault(ts, i as int),
        decreases n - i,
    {
        let tok = &tokens[i];
        assert(ts[i as int] == tok@);
        if tok.kind == TokenKind::Ident && is_function_name(tok.text.as_slice()) {
            let next = token_at(tokens, i + 1);
            let power = match next {
                Some(t) => is_op_token(t, '^'),
                None => false,
            };
            let call = match next {
                Some(t) => t.kind == TokenKind::LParen,
                None => false,
            };
            if i + 1 < n {
                assert(ts[i + 1] == tokens@[i + 1]@);
            }
            if power {
                return Err(ExprError::FunctionPower(string_from_chars(tok.text.as_slice())));
            }
            if !call {
                return Err(ExprError::FunctionCall(string_from_chars(tok.text.as_slice())));
            }
        }
        i += 1;
    }
    let mut i: usize = 0;
    while i < n
        invariant
            n == tokens@.len() == ts.len(),
            ts == view_tokens(tokens@),
            i <= n,
            function_fault(ts, 0) is None,
            operator_fault(ts, 0) == operator_fault(ts, i as int),
        decreases n - i,
    {
        let tok = &tokens[i];
        assert(ts[i as int] == tok@);
        let prev = if i == 0 {
            None
        } else {
            token_at(tokens, i - 1)
        };
        let next = token_at(tokens, i + 1);
        if i > 0 {
            assert(ts[i - 1] == tokens@[i - 1]@);
        }
        if i + 1 < n {
            assert(ts[i + 1] == tokens@[i + 1]@);
        }
        if tok.kind == TokenKind::Op && tok.text.len() == 1 {
            let op = tok.text[0];
            if op == '-' {
                assert(tok.text@ =~= seq!['-']);
                if !is_operand_start(next) {
                    if !is_operand_end(prev) {
                        return Err(ExprError::MissingOperand);
                    } else {
                        return Err(ExprError::OperatorAtEnd('-'));
                    }
                }
            } else if op == '+' || op == '*' || op == '/' || op == '^' {
                assert(!is_op(ts[i as int], '-'));
                if !is_operand_end(prev) {
                    return Err(ExprError::OperatorAtStart(op));
                }
                if !is_operand_start(next) {
                    return Err(ExprError::OperatorAtEnd(op));
                }
            } else {
                assert(!is_op(ts[i as int], '-'));
            }
        }
        i += 1;
    }
    Ok(())
}

/// Reject unknown names and other structural issues before the expression is rewritten.
pub fn validate_expression(s: &[char]) -> (res: Result<(), ExprError>)
    ensures
        unit_result(res) == validate_expression_spec(s@),
{
    let tokens = tokenize(s)?;
    let ghost ts = view_tokens(tokens@);
    let n = tokens.len();
    let mut depth: usize = 0;
    let mut i: usize = 0;
    while i < n
        invariant
            n == tokens@.len() == ts.len(),
            ts == view_tokens(tokens@),
            i <= n,
            depth <= i,
            tokenize_spec(s@) == Ok::<Seq<SpecToken>, ParseFault>(ts),
            structure_fault(ts, 0, 0) == structure_fault(ts, i as int, depth as int),
        decreases n - i,
    {
        let tok = &tokens[i];
        assert(ts[i as int] == tok@);
        match tok.kind {
            TokenKind::LParen => {
                depth += 1;
            },
            TokenKind::RParen => {
                if depth == 0 {
                    return Err(ExprError::UnexpectedCloseParen);
                }
                depth -= 1;
            },
            TokenKind::Ident => {
                if !is_allowed_identifier(tok.text.as_slice()) {
                    return Err(ExprError::UnknownIdentifier(string_from_chars(tok.text.as_slice())));
                }
            },
            TokenKind::Op => {
                if tok.text.len() == 1 && tok.text[0] == '=' {
                    assert(tok.text@ =~= seq!['=']);
                    return Err(ExprError::UnexpectedEquals);
                }
            },
            TokenKind::Number => {},
        }
        i += 1;
    }
    if depth > 0 {
        return Err(ExprError::UnclosedParen);
    }
    validate_syntax(tokens.as_slice())
}

/// Opening minus closing parentheses among the first `j` tokens.
pub open spec fn paren_depth(ts: Seq<SpecToken>, j: int) -> int
    decreases j,
{
    if j <= 0 || j > ts.len() {
        0
    } else {
        paren_depth(ts, j - 1) + if ts[j - 1].0 == TokenKind::LParen {
            1int
        } else if ts[j - 1].0 == TokenKind::RParen {
            -1int
        } else {
            0int
        }
    }
}

proof fn lemma_structure_fault_none(ts: Seq<SpecToken>, k: int)
    requires
        0 <= k <= ts.len(),
        paren_depth(ts, k) >= 0,
        structure_fault(ts, k, paren_depth(ts, k)) is None,
    ensures
        forall|j: int| k <= j <= ts.len() ==> paren_depth(ts, j) >= 0,
        paren_depth(ts, ts.len() as int) == 0,
        forall|j: int|
            k <= j < ts.len() && ts[j].0 == TokenKind::Ident ==> is_allowed_identifier_spec(
                #[trigger] ts[j].1,
            ),
        forall|j: int| k <= j < ts.len() ==> !is_op(#[trigger] ts[j], '='),
    decreases ts.len() - k,
{
    if k < ts.len() {
        assert(paren_depth(ts, k + 1) == paren_depth(ts, k) + if ts[k].0 == TokenKind::LParen {
            1int
        } else if ts[k].0 == TokenKind::RParen {
            -1int
        } else {
            0int
        });
        lemma_structure_fault_none(ts, k + 1);
    }
}

proof fn lemma_function_fault_none(ts: Seq<SpecToken>, k: int)
    requires
        0 <= k <= ts.len(),
        function_fault(ts, k) is None,
    ensures
        forall|j: int|
            k <= j < ts.len() && ts[j].0 == TokenKind::Ident && is_function_name_spec(
                #[trigger] ts[j].1,
            ) ==> j + 1 < ts.len() && ts[j + 1].0 == TokenKind::LParen,
    decreases ts.len() - k,
{
    if k < ts.len() {
        lemma_function_fault_none(ts, k + 1);
    }
}

/// An accepted right-hand side lexes; it names only `x`, `y`, `e` and supported
/// functions; it holds no `=`; its parentheses never close more than they opened and all
/// close by the end; and every function name is followed by `(`.
pub proof fn lemma_accepted_is_well_formed(s: Seq<char>)
    requires
        validate_expression_spec(s) is Ok,
    ensures
        tokenize_spec(s) is Ok,
        ({
            let ts = tokenize_spec(s)->Ok_0;
            &&& forall|j: int| 0 <= j <= ts.len() ==> paren_depth(ts, j) >= 0
            &&& paren_depth(ts, ts.len() as int) == 0
            &&& forall|j: int|
                0 <= j < ts.len() && ts[j].0 == TokenKind::Ident ==> is_allowed_identifier_spec(
                    #[trigger] ts[j].1,
                )
            &&& forall|j: int| 0 <= j < ts.len() ==> !is_op(#[trigger] ts[j], '=')
            &&& forall|j: int|
                0 <= j < ts.len() && ts[j].0 == TokenKind::Ident && is_function_name_spec(
                    #[trigger] ts[j].1,
                ) ==> j + 1 < ts.len() && ts[j + 1].0 == TokenKind::LParen
        }),
{
    let ts = tokenize_spec(s)->Ok_0;
    assert(paren_depth(ts, 0) == 0);
    lemma_structure_fault_none(ts, 0);
    lemma_function_fault_none(ts, 0);
}

} // verus!
