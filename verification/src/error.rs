//! The failures of evaluation.

use vstd::prelude::*;
use vstd::string::*;
use crate::ast::Text;
use crate::text::{digits_of, push_digits};

verus! {

/// Why an evaluation failed. The first failure ends the whole run.
#[derive(Debug, PartialEq)]
pub enum EvalError {
    /// The name is bound neither locally, nor in a saved scope, nor in the registry.
    UnresolvedVariable(String),
    /// A function was invoked with a number of arguments other than that of its parameters.
    ArityMismatch { expected: usize, actual: usize },
    /// The target of a call or of an `apply` is no continuation.
    NotInvocable,
    /// The registry holds no continuation of that name.
    UndefinedEntryPoint(String),
    /// A built-in operation was invoked with an empty argument list.
    EmptyNativeArguments,
    /// An output operation was invoked with a reply continuation and nothing to print.
    MissingOperand,
    /// The first argument of a built-in operation is no continuation.
    ReplyNotInvocable,
    /// `rem` met a zero divisor, or the least integer with the divisor -1.
    InvalidRemainder,
    /// The node is a record field access, which has no evaluation rule.
    Unsupported,
    /// More invocations followed one another, or nested, than the given limit.
    DepthExceeded,
}

/// The model of a failure.
pub ghost enum EvalErrorView {
    UnresolvedVariable(Text),
    ArityMismatch { expected: nat, actual: nat },
    NotInvocable,
    UndefinedEntryPoint(Text),
    EmptyNativeArguments,
    MissingOperand,
    ReplyNotInvocable,
    InvalidRemainder,
    Unsupported,
    DepthExceeded,
}

impl View for EvalError {
    type V = EvalErrorView;

    open spec fn view(&self) -> EvalErrorView {
        match self {
            EvalError::UnresolvedVariable(name) => EvalErrorView::UnresolvedVariable(name@),
            EvalError::ArityMismatch { expected, actual } => EvalErrorView::ArityMismatch {
                expected: *expected as nat,
                actual: *actual as nat,
            },
            EvalError::NotInvocable => EvalErrorView::NotInvocable,
            EvalError::UndefinedEntryPoint(name) => EvalErrorView::UndefinedEntryPoint(name@),
            EvalError::EmptyNativeArguments => EvalErrorView::EmptyNativeArguments,
            EvalError::MissingOperand => EvalErrorView::MissingOperand,
            EvalError::ReplyNotInvocable => EvalErrorView::ReplyNotInvocable,
            EvalError::InvalidRemainder => EvalErrorView::InvalidRemainder,
            EvalError::Unsupported => EvalErrorView::Unsupported,
            EvalError::DepthExceeded => EvalErrorView::DepthExceeded,
        }
    }
}

/// The failure in words.
pub open spec fn message_of(e: EvalErrorView) -> Text {
    match e {
        EvalErrorView::UnresolvedVariable(name) => "No variable with the name `"@ + name + "`"@,
        EvalErrorView::ArityMismatch { expected, actual } => "Expected "@ + digits_of(expected)
            + " args for function, but got "@ + digits_of(actual),
        EvalErrorView::NotInvocable => "Apply LHS is not a continuation"@,
        EvalErrorView::UndefinedEntryPoint(name) => "No continuation named `"@ + name + "`"@,
        EvalErrorView::EmptyNativeArguments =>
            "Expected continuation for first argument, but got no args"@,
        EvalErrorView::MissingOperand => "Expected 2 args for println"@,
        EvalErrorView::ReplyNotInvocable => "Expected continuation for first argument"@,
        EvalErrorView::InvalidRemainder => "Remainder is not defined"@,
        EvalErrorView::Unsupported => "Unsupported expression"@,
        EvalErrorView::DepthExceeded => "Depth limit exceeded"@,
    }
}

impl EvalError {
    /// The failure in words.
    pub fn message(&self) -> (r: String)
        ensures
            r@ == message_of(self@),
    {
        match self {
            EvalError::UnresolvedVariable(name) => {
                let mut r = String::from_str("No variable with the name `");
                r.append(name.as_str());
                r.append("`");
                r
            },
            EvalError::ArityMismatch { expected, actual } => {
                let mut r = String::from_str("Expected ");
                push_digits(&mut r, *expected as u64);
                r.append(" args for function, but got ");
                push_digits(&mut r, *actual as u64);
                r
            },
            EvalError::NotInvocable => String::from_str("Apply LHS is not a continuation"),
            EvalError::UndefinedEntryPoint(name) => {
                let mut r = String::from_str("No continuation named `");
                r.append(name.as_str());
                r.append("`");
                r
            },
            EvalError::EmptyNativeArguments => String::from_str(
                "Expected continuation for first argument, but got no args",
            ),
            EvalError::MissingOperand => String::from_str("Expected 2 args for println"),
            EvalError::ReplyNotInvocable => String::from_str(
                "Expected continuation for first argument",
            ),
            EvalError::InvalidRemainder => String::from_str("Remainder is not defined"),
            EvalError::Unsupported => String::from_str("Unsupported expression"),
            EvalError::DepthExceeded => String::from_str("Depth limit exceeded"),
        }
    }
}

} // verus!
