//! Errors reported while reading an equation, and their messages.
use vstd::prelude::*;

verus! {

/// Why an equation was refused.
#[derive(Debug, PartialEq, Eq)]
pub enum ExprError {
    /// Nothing is left once the `y' =` / `dy/dx =` prefix and whitespace are removed.
    Empty,
    /// A character the lexer does not know; holds that character.
    UnexpectedCharacter(char),
    /// A `)` without a matching `(` before it.
    UnexpectedCloseParen,
    /// A name that is neither `x`, `y`, `e` nor a supported function.
    UnknownIdentifier(String),
    /// An `=` inside the right-hand side.
    UnexpectedEquals,
    /// A `(` that is never closed.
    UnclosedParen,
    /// A function name directly followed by `^`, such as `sin^2`.
    FunctionPower(String),
    /// A function name not followed by `(`.
    FunctionCall(String),
    /// A unary `-` with nothing after it.
    MissingOperand,
    /// A binary operator with no left operand.
    OperatorAtStart(char),
    /// An operator with no right operand.
    OperatorAtEnd(char),
    /// The expression engine refused the rewritten expression; holds its message.
    Syntax(String),
}

/// The mathematical content of an [`ExprError`]: names are character sequences.
pub enum ParseFault {
    Empty,
    UnexpectedCharacter(char),
    UnexpectedCloseParen,
    UnknownIdentifier(Seq<char>),
    UnexpectedEquals,
    UnclosedParen,
    FunctionPower(Seq<char>),
    FunctionCall(Seq<char>),
    MissingOperand,
    OperatorAtStart(char),
    OperatorAtEnd(char),
    Syntax(Seq<char>),
}

impl View for ExprError {
    type V = ParseFault;

    open spec fn view(&self) -> ParseFault {
        match self {
            ExprError::Empty => ParseFault::Empty,
            ExprError::UnexpectedCharacter(c) => ParseFault::UnexpectedCharacter(*c),
            ExprError::UnexpectedCloseParen => ParseFault::UnexpectedCloseParen,
            ExprError::UnknownIdentifier(n) => ParseFault::UnknownIdentifier(n@),
            ExprError::UnexpectedEquals => ParseFault::UnexpectedEquals,
            ExprError::UnclosedParen => ParseFault::UnclosedParen,
            ExprError::FunctionPower(n) => ParseFault::FunctionPower(n@),
            ExprError::FunctionCall(n) => ParseFault::FunctionCall(n@),
            ExprError::MissingOperand => ParseFault::MissingOperand,
            ExprError::OperatorAtStart(c) => ParseFault::OperatorAtStart(*c),
            ExprError::OperatorAtEnd(c) => ParseFault::OperatorAtEnd(*c),
            ExprError::Syntax(m) => ParseFault::Syntax(m@),
        }
    }
}

impl ParseFault {
    /// The message shown to the user for this fault.
    pub open spec fn text(self) -> Seq<char> {
        match self {
            ParseFault::Empty => "equation cannot be empty"@,
            ParseFault::UnexpectedCharacter(c) => "parse error: unexpected character '"@ + seq![c]
                + "'"@,
            ParseFault::UnexpectedCloseParen => "parse error: unexpected ')'"@,
            ParseFault::UnknownIdentifier(n) => "parse error: unknown identifier '"@ + n + "'"@,
            ParseFault::UnexpectedEquals => "parse error: unexpected '=' in expression"@,
            ParseFault::UnclosedParen => "parse error: unclosed '('"@,
            ParseFault::FunctionPower(n) => "parse error: cannot raise function '"@ + n
                + "' to a power; write "@ + n + "(...)^... instead, e.g. "@ + n + "(x)^3"@,
            ParseFault::FunctionCall(n) => "parse error: function '"@ + n
                + "' must be called with parentheses, e.g. "@ + n + "(x)"@,
            ParseFault::MissingOperand => "parse error: '-' is missing an operand"@,
            ParseFault::OperatorAtStart(c) => "parse error: unexpected '"@ + seq![c]
                + "' at start of expression"@,
            ParseFault::OperatorAtEnd(c) => "parse error: unexpected '"@ + seq![c]
                + "' at end of expression"@,
            ParseFault::Syntax(m) => "syntax error: "@ + m,
        }
    }
}

impl ExprError {
    /// The message shown to the user.
    pub fn message(&self) -> (res: String)
        ensures
            res@ == self@.text(),
    {
        let mut m = String::new();
        match self {
            ExprError::Empty => {
                m.append("equation cannot be empty");
            },
            ExprError::UnexpectedCharacter(c) => {
                m.append("parse error: unexpected character '");
                m.push(*c);
                m.append("'");
            },
            ExprError::UnexpectedCloseParen => {
                m.append("parse error: unexpected ')'");
            },
            ExprError::UnknownIdentifier(n) => {
                m.append("parse error: unknown identifier '");
                m.append(n.as_str());
                m.append("'");
            },
            ExprError::UnexpectedEquals => {
                m.append("parse error: unexpected '=' in expression");
            },
            ExprError::UnclosedParen => {
                m.append("parse error: unclosed '('");
            },
            ExprError::FunctionPower(n) => {
                m.append("parse error: cannot raise function '");
                m.append(n.as_str());
                m.append("' to a power; write ");
                m.append(n.as_str());
                m.append("(...)^... instead, e.g. ");
                m.append(n.as_str());
                m.append("(x)^3");
            },
            ExprError::FunctionCall(n) => {
                m.append("parse error: function '");
                m.append(n.as_str());
                m.append("' must be called with parentheses, e.g. ");
                m.append(n.as_str());
                m.append("(x)");
            },
            ExprError::MissingOperand => {
                m.append("parse error: '-' is missing an operand");
            },
            ExprError::OperatorAtStart(c) => {
                m.append("parse error: unexpected '");
                m.push(*c);
                m.append("' at start of expression");
            },
            ExprError::OperatorAtEnd(c) => {
                m.append("parse error: unexpected '");
                m.push(*c);
                m.append("' at end of expression");
            },
            ExprError::Syntax(s) => {
                m.append("syntax error: ");
                m.append(s.as_str());
            },
        }
        m
    }
}

} // verus!
