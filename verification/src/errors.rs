//! The error taxonomy of the service.
//!
//! Every error is a deterministic validation or state error; none is
//! transient or retryable, and each is surfaced verbatim to the caller.

use vstd::prelude::*;

verus! {

/// Errors raised by loan validation and by the result registry.
#[derive(Debug, Clone, Copy, PartialEq, Eq, Structural)]
pub enum AppError {
    /// No credit program was flagged as selected.
    LoanProgramEmpty,
    /// More than one credit program was flagged as selected.
    LoanProgramMoreThanOne,
    /// The initial payment is below the minimum share of the object cost.
    MinInitialPayment,
    /// The registry holds no computed loans yet.
    EmptyCache,
}

impl AppError {
    /// The caller-facing message for this error.
    pub fn message(&self) -> (r: &'static str)
        ensures
            *self == AppError::LoanProgramEmpty ==> r@ == "choose credit program"@,
            *self == AppError::LoanProgramMoreThanOne ==> r@ == "choose only 1 credit program"@,
            *self == AppError::MinInitialPayment ==> r@ == "the initial payment should be more"@,
            *self == AppError::EmptyCache ==> r@ == "empty cache"@,
    {
        match self {
            AppError::LoanProgramEmpty => "choose credit program",
            AppError::LoanProgramMoreThanOne => "choose only 1 credit program",
            AppError::MinInitialPayment => "the initial payment should be more",
            AppError::EmptyCache => "empty cache",
        }
    }
}

} // verus!
