use crate::value::{Value, ValueView};
use vstd::prelude::*;

verus! {

/// Why an evaluation ended without a value. The last three are no faults:
/// they carry `break`, `continue` and `return` to the loop or the call
/// that takes them.
#[derive(Debug, PartialEq)]
pub enum AsaErrorKind {
    /// No variable or function of that name is in any frame.
    UndefinedFunction,
    VariableNotDefined(String),
    /// The right operand of `/` or `%` is zero.
    DivisionByZero,
    /// A number above the largest 32-bit signed integer.
    NumberOverflow,
    /// A number below the smallest 32-bit signed integer.
    NumberUnderflow,
    TypeMismatch(String),
    /// A call with too many arguments, or too few for the parameters
    /// without a default.
    ArgumentCountMismatch,
    /// An index outside the array or string.
    IndexOutOfRange,
    UnsupportedOperation(String),
    /// Calls nested deeper than the interpreter allows.
    CallDepthExceeded,
    /// A loop that went on for more rounds than the interpreter allows.
    LoopLimitExceeded,
    Generic(String),
    BreakSignal,
    ContinueSignal,
    ReturnSignal(Value),
}

/// The mathematical value of an [`AsaErrorKind`].
pub enum ErrorView {
    UndefinedFunction,
    VariableNotDefined(Seq<char>),
    DivisionByZero,
    NumberOverflow,
    NumberUnderflow,
    TypeMismatch(Seq<char>),
    ArgumentCountMismatch,
    IndexOutOfRange,
    UnsupportedOperation(Seq<char>),
    CallDepthExceeded,
    LoopLimitExceeded,
    Generic(Seq<char>),
    BreakSignal,
    ContinueSignal,
    ReturnSignal(ValueView),
}

impl View for AsaErrorKind {
    type V = ErrorView;

    open spec fn view(&self) -> ErrorView {
        match *self {
            AsaErrorKind::UndefinedFunction => ErrorView::UndefinedFunction,
            AsaErrorKind::VariableNotDefined(s) => ErrorView::VariableNotDefined(s@),
            AsaErrorKind::DivisionByZero => ErrorView::DivisionByZero,
            AsaErrorKind::NumberOverflow => ErrorView::NumberOverflow,
            AsaErrorKind::NumberUnderflow => ErrorView::NumberUnderflow,
            AsaErrorKind::TypeMismatch(s) => ErrorView::TypeMismatch(s@),
            AsaErrorKind::ArgumentCountMismatch => ErrorView::ArgumentCountMismatch,
            AsaErrorKind::IndexOutOfRange => ErrorView::IndexOutOfRange,
            AsaErrorKind::UnsupportedOperation(s) => ErrorView::UnsupportedOperation(s@),
            AsaErrorKind::CallDepthExceeded => ErrorView::CallDepthExceeded,
            AsaErrorKind::LoopLimitExceeded => ErrorView::LoopLimitExceeded,
            AsaErrorKind::Generic(s) => ErrorView::Generic(s@),
            AsaErrorKind::BreakSignal => ErrorView::BreakSignal,
            AsaErrorKind::ContinueSignal => ErrorView::ContinueSignal,
            AsaErrorKind::ReturnSignal(v) => ErrorView::ReturnSignal(v@),
        }
    }
}

/// What an evaluation yields in the model.
pub type Outcome = Result<ValueView, ErrorView>;

/// The model's reading of what an evaluation returned.
pub open spec fn outcome_view(r: Result<Value, AsaErrorKind>) -> Outcome {
    match r {
        Ok(v) => Ok(v@),
        Err(e) => Err(e@),
    }
}

} // verus!
