//! Request and response values exchanged with the caller.

use vstd::prelude::*;

use crate::mortgage::{Mortgage, Program};

verus! {

/// A loan computation request: the borrower's parameters and the selected program.
#[derive(Debug, Default, Clone, Copy)]
pub struct Request {
    /// Cost of the financed object, in whole currency units.
    pub object_cost: u64,
    /// Upfront payment by the borrower, in whole currency units.
    pub initial_payment: u64,
    /// Loan term in months.
    pub months: u8,
    /// The selected credit program flags.
    pub program: Program,
}

/// A registry entry handed back to the caller: the assigned identifier and the loan.
#[derive(Debug, Default)]
pub struct Response {
    pub id: u32,
    pub loan: Mortgage,
}

impl Clone for Response {
    /// The clone holds the same values and is independent of the original.
    fn clone(&self) -> (r: Self)
        ensures
            r == *self,
    {
        Response { id: self.id, loan: self.loan.clone() }
    }
}

impl Response {
    /// Pairs an assigned identifier with a finished loan computation.
    pub fn new(id: u32, loan: Mortgage) -> (r: Self)
        ensures
            r.id == id,
            r.loan == loan,
    {
        Self { id, loan }
    }
}

} // verus!
