use vstd::prelude::*;
use crate::ast::Span;
use crate::dynval::{ConversionError, ConvV};

verus! {

/// The closed taxonomy of evaluation failures. `Spanned` attaches a
/// source location to an inner error without losing it.
#[derive(Debug)]
pub enum EvalError {
    /// A variable was referenced in a context that allows none.
    NoVariablesAllowed(String),
    /// A regular expression failed to compile; the payload is the
    /// compiler's message.
    InvalidRegex(String),
    /// A variable was referenced that the environment does not bind.
    UnresolvedVariable(String),
    /// A value refused a conversion to the type an operation needed.
    ConversionError(ConversionError),
    /// A built-in function was called with the wrong number of arguments.
    WrongArgCount(String),
    /// A function name that no registry resolves.
    UnknownFunction(String),
    /// A variable that substitution could not resolve.
    UnknownVariable(String),
    /// The indexed value is not a JSON array or object.
    CannotIndex(String),
    /// An inner error, located at a span.
    Spanned(Span, Box<EvalError>),
}

/// The mathematical model of an `EvalError`.
pub enum ErrV {
    NoVariablesAllowed(Seq<char>),
    InvalidRegex(Seq<char>),
    UnresolvedVariable(Seq<char>),
    Conversion(ConvV),
    WrongArgCount(Seq<char>),
    UnknownFunction(Seq<char>),
    UnknownVariable(Seq<char>),
    CannotIndex(Seq<char>),
    Spanned(Span, Box<ErrV>),
}

pub open spec fn err_view(e: EvalError) -> ErrV
    decreases e,
{
    match e {
        EvalError::NoVariablesAllowed(n) => ErrV::NoVariablesAllowed(n@),
        EvalError::InvalidRegex(m) => ErrV::InvalidRegex(m@),
        EvalError::UnresolvedVariable(n) => ErrV::UnresolvedVariable(n@),
        EvalError::ConversionError(c) => ErrV::Conversion(c@),
        EvalError::WrongArgCount(f) => ErrV::WrongArgCount(f@),
        EvalError::UnknownFunction(n) => ErrV::UnknownFunction(n@),
        EvalError::UnknownVariable(n) => ErrV::UnknownVariable(n@),
        EvalError::CannotIndex(v) => ErrV::CannotIndex(v@),
        EvalError::Spanned(sp, inner) => ErrV::Spanned(sp, Box::new(err_view(*inner))),
    }
}

impl View for EvalError {
    type V = ErrV;

    open spec fn view(&self) -> ErrV {
        err_view(*self)
    }
}

/// The span an error reports: the outermost attached location, or, for a
/// conversion failure, the span of the offending value.
pub open spec fn spec_err_span(e: ErrV) -> Option<Span> {
    match e {
        ErrV::Spanned(sp, _) => Some(sp),
        ErrV::Conversion(c) => c.value.span,
        _ => None,
    }
}

impl EvalError {
    pub fn span(&self) -> (r: Option<Span>)
        ensures
            r == spec_err_span(self@),
    {
        match self {
            EvalError::Spanned(sp, _) => Some(*sp),
            EvalError::ConversionError(c) => c.value.span,
            _ => None,
        }
    }

    /// Wraps the error with a source location.
    pub fn at(self, span: Span) -> (r: Self)
        ensures
            r@ == ErrV::Spanned(span, Box::new(self@)),
    {
        EvalError::Spanned(span, Box::new(self))
    }
}

} // verus!
