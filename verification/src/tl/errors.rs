//! Errors raised while parsing Type Language text.

use vstd::prelude::*;

verus! {

/// Why a single parameter (`name:type`) could not be parsed.
#[derive(Clone, Debug, PartialEq)]
pub enum ParamParseError {
    /// The parameter, its name or its type is empty.
    Empty,
    /// A generic argument was opened with `<` but the type does not end in `>`.
    InvalidGeneric,
    /// The text is a generic type definition such as `{X:Type}`, not a parameter.
    TypeDef { name: String },
    /// The text starts like a generic type definition but is not one.
    MissingDef,
    /// The parameter has a form this parser does not handle (no `:`).
    NotImplemented,
}

/// Mathematical model of a `ParamParseError`.
pub enum ParamParseErrorView {
    Empty,
    InvalidGeneric,
    TypeDef { name: Seq<char> },
    MissingDef,
    NotImplemented,
}

impl View for ParamParseError {
    type V = ParamParseErrorView;

    open spec fn view(&self) -> ParamParseErrorView {
        match self {
            ParamParseError::Empty => ParamParseErrorView::Empty,
            ParamParseError::InvalidGeneric => ParamParseErrorView::InvalidGeneric,
            ParamParseError::TypeDef { name } => ParamParseErrorView::TypeDef { name: name@ },
            ParamParseError::MissingDef => ParamParseErrorView::MissingDef,
            ParamParseError::NotImplemented => ParamParseErrorView::NotImplemented,
        }
    }
}

/// Why a whole definition could not be parsed.
#[derive(Clone, Debug, PartialEq)]
pub enum ParseError {
    /// The definition holds nothing but white space.
    Empty,
    /// A section separator other than `---functions---` or `---types---`.
    UnknownSeparator,
    /// One of the parameters is invalid.
    InvalidParam(ParamParseError),
    /// There is no name before the parameters.
    MissingName,
    /// There is no `= Type` part, or the type after `=` is invalid.
    MissingType,
    /// The definition uses a form this parser does not handle.
    NotImplemented,
}

/// Mathematical model of a `ParseError`.
pub enum ParseErrorView {
    Empty,
    UnknownSeparator,
    InvalidParam(ParamParseErrorView),
    MissingName,
    MissingType,
    NotImplemented,
}

impl View for ParseError {
    type V = ParseErrorView;

    open spec fn view(&self) -> ParseErrorView {
        match self {
            ParseError::Empty => ParseErrorView::Empty,
            ParseError::UnknownSeparator => ParseErrorView::UnknownSeparator,
            ParseError::InvalidParam(e) => ParseErrorView::InvalidParam(e@),
            ParseError::MissingName => ParseErrorView::MissingName,
            ParseError::MissingType => ParseErrorView::MissingType,
            ParseError::NotImplemented => ParseErrorView::NotImplemented,
        }
    }
}

} // verus!
