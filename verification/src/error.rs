//! The errors that a parse can end in.

use vstd::prelude::*;
use crate::position::Position;
use crate::token::{LexError, LexErrorV};

verus! {

/// What went wrong in a parse.
#[derive(Debug, Clone, PartialEq, Eq)]
pub enum ParseErrorType {
    /// The script ends where more was expected.
    UnexpectedEOF,
    /// The lexer could not read the input.
    BadInput(LexError),
    /// An operator that is not known.
    UnknownOperator(String),
    /// A token is missing: the token, and where it is missing.
    MissingToken(String, String),
    /// An index expression that cannot be right.
    MalformedIndexExpr(String),
    /// An `in` expression that cannot be right.
    MalformedInExpr(String),
    /// A capturing call in a place that does not support it.
    MalformedCapture(String),
    /// A property that an object-map literal names twice.
    DuplicatedProperty(String),
    /// A switch case that stands twice.
    DuplicatedSwitchCase,
    /// A reserved word where a name is wanted.
    Reserved(String),
    /// An expression of the named kind is wanted.
    ExprExpected(String),
    /// A property name is wanted.
    PropertyExpected,
    /// A variable name is wanted.
    VariableExpected,
    /// A doc-comment that does not stand before a function.
    WrongDocComment,
    /// A function defined elsewhere than at global level.
    WrongFnDefinition,
    /// A function definition without a name.
    FnMissingName,
    /// A function definition without a parameter list.
    FnMissingParams(String),
    /// A function definition that names a parameter twice.
    FnDuplicatedParam(String, String),
    /// A function definition without a body.
    FnMissingBody(String),
    /// An export elsewhere than at global level.
    WrongExport,
    /// An assignment to a constant.
    AssignmentToConstant(String),
    /// An assignment to something that cannot be assigned to.
    AssignmentToInvalidLHS(String),
    /// Expressions nested deeper than the limit.
    ExprTooDeep,
    /// A literal larger than the limit: what is too large, and the limit.
    LiteralTooLarge(String, usize),
    /// `break` or `continue` outside a loop.
    LoopBreak,
}

/// The mathematical value of a [`ParseErrorType`].
pub ghost enum ParseErrorTypeV {
    UnexpectedEOF,
    BadInput(LexErrorV),
    UnknownOperator(Seq<char>),
    MissingToken(Seq<char>, Seq<char>),
    MalformedIndexExpr(Seq<char>),
    MalformedInExpr(Seq<char>),
    MalformedCapture(Seq<char>),
    DuplicatedProperty(Seq<char>),
    DuplicatedSwitchCase,
    Reserved(Seq<char>),
    ExprExpected(Seq<char>),
    PropertyExpected,
    VariableExpected,
    WrongDocComment,
    WrongFnDefinition,
    FnMissingName,
    FnMissingParams(Seq<char>),
    FnDuplicatedParam(Seq<char>, Seq<char>),
    FnMissingBody(Seq<char>),
    WrongExport,
    AssignmentToConstant(Seq<char>),
    AssignmentToInvalidLHS(Seq<char>),
    ExprTooDeep,
    LiteralTooLarge(Seq<char>, usize),
    LoopBreak,
}

impl View for ParseErrorType {
    type V = ParseErrorTypeV;

    open spec fn view(&self) -> ParseErrorTypeV {
        match self {
            ParseErrorType::UnexpectedEOF => ParseErrorTypeV::UnexpectedEOF,
            ParseErrorType::BadInput(e) => ParseErrorTypeV::BadInput(e@),
            ParseErrorType::UnknownOperator(s) => ParseErrorTypeV::UnknownOperator(s@),
            ParseErrorType::MissingToken(t, m) => ParseErrorTypeV::MissingToken(t@, m@),
            ParseErrorType::MalformedIndexExpr(s) => ParseErrorTypeV::MalformedIndexExpr(s@),
            ParseErrorType::MalformedInExpr(s) => ParseErrorTypeV::MalformedInExpr(s@),
            ParseErrorType::MalformedCapture(s) => ParseErrorTypeV::MalformedCapture(s@),
            ParseErrorType::DuplicatedProperty(s) => ParseErrorTypeV::DuplicatedProperty(s@),
            ParseErrorType::DuplicatedSwitchCase => ParseErrorTypeV::DuplicatedSwitchCase,
            ParseErrorType::Reserved(s) => ParseErrorTypeV::Reserved(s@),
            ParseErrorType::ExprExpected(s) => ParseErrorTypeV::ExprExpected(s@),
            ParseErrorType::PropertyExpected => ParseErrorTypeV::PropertyExpected,
            ParseErrorType::VariableExpected => ParseErrorTypeV::VariableExpected,
            ParseErrorType::WrongDocComment => ParseErrorTypeV::WrongDocComment,
            ParseErrorType::WrongFnDefinition => ParseErrorTypeV::WrongFnDefinition,
            ParseErrorType::FnMissingName => ParseErrorTypeV::FnMissingName,
            ParseErrorType::FnMissingParams(s) => ParseErrorTypeV::FnMissingParams(s@),
            ParseErrorType::FnDuplicatedParam(f, p) => ParseErrorTypeV::FnDuplicatedParam(f@, p@),
            ParseErrorType::FnMissingBody(s) => ParseErrorTypeV::FnMissingBody(s@),
            ParseErrorType::WrongExport => ParseErrorTypeV::WrongExport,
            ParseErrorType::AssignmentToConstant(s) => ParseErrorTypeV::AssignmentToConstant(s@),
            ParseErrorType::AssignmentToInvalidLHS(s) => ParseErrorTypeV::AssignmentToInvalidLHS(
                s@,
            ),
            ParseErrorType::ExprTooDeep => ParseErrorTypeV::ExprTooDeep,
            ParseErrorType::LiteralTooLarge(s, n) => ParseErrorTypeV::LiteralTooLarge(s@, *n),
            ParseErrorType::LoopBreak => ParseErrorTypeV::LoopBreak,
        }
    }
}

/// An error of a parse, with the position at which it was met.
#[derive(Debug, Clone, PartialEq, Eq)]
pub struct ParseError(pub Box<ParseErrorType>, pub Position);

/// The mathematical value of a [`ParseError`].
pub ghost struct ParseErrorV {
    pub kind: ParseErrorTypeV,
    pub pos: Position,
}

impl View for ParseError {
    type V = ParseErrorV;

    open spec fn view(&self) -> ParseErrorV {
        ParseErrorV { kind: self.0@, pos: self.1 }
    }
}

/// The error of the given kind at the given position.
pub open spec fn err_at(kind: ParseErrorTypeV, pos: Position) -> ParseErrorV {
    ParseErrorV { kind, pos }
}

/// The error by which a lexer error is passed on.
pub open spec fn lex_err_at(err: LexErrorV, pos: Position) -> ParseErrorV {
    ParseErrorV { kind: ParseErrorTypeV::BadInput(err), pos }
}

/// The error for a token that is missing.
pub open spec fn missing_token(token: Seq<char>, context: Seq<char>, pos: Position) -> ParseErrorV {
    ParseErrorV { kind: ParseErrorTypeV::MissingToken(token, context), pos }
}

impl ParseErrorType {
    /// The error of this kind at `pos`.
    pub fn into_err(self, pos: Position) -> (r: ParseError)
        ensures
            r@ == err_at(self@, pos),
    {
        ParseError(Box::new(self), pos)
    }
}

impl LexError {
    /// The parse error by which this lexer error is passed on.
    pub fn into_err(self, pos: Position) -> (r: ParseError)
        ensures
            r@ == lex_err_at(self@, pos),
    {
        ParseError(Box::new(ParseErrorType::BadInput(self)), pos)
    }
}

/// The error for a token that is missing where `context` says.
pub fn missing(token: &str, context: &str, pos: Position) -> (r: ParseError)
    ensures
        r@ == missing_token(token@, context@, pos),
{
    ParseErrorType::MissingToken(String::from_str(token), String::from_str(context)).into_err(pos)
}

} // verus!
