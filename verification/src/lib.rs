//! A verified mortgage-loan service core.
//!
//! The crate computes mortgage loan terms (interest rate, monthly annuity
//! payment, total overpayment, final payment date) from borrower-supplied
//! parameters, validates the business constraints, and stores each finished
//! computation in a registry keyed by a monotonically assigned identifier.
//! Monetary amounts are whole currency units; the annuity payment is derived
//! with exact fixed-point arithmetic and ceiling rounding.

pub mod date;
pub mod errors;
pub mod mortgage;
pub mod registry;
pub mod schema;
