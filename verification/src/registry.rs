//! The result registry: a shared store of finished loan computations.
//!
//! The registry assigns each stored record a unique, strictly increasing
//! identifier starting at zero, and never skips or reuses one. Entries are
//! write-once and append-only; a snapshot observes all of them at one
//! instant. Callers that share one registry across tasks serialize every
//! `insert` behind an exclusive lock, so the identifier counter has at most
//! one writer at a time.

use vstd::prelude::*;

use crate::errors::AppError;
use crate::mortgage::Mortgage;
use crate::schema::Response;

verus! {

/// The shared application state: the next identifier and the stored loans.
#[derive(Debug, Default)]
pub struct AppState {
    /// The identifier the next insertion will receive.
    pub id: u32,
    /// The stored entries, in insertion order.
    pub cache: Vec<Response>,
}

impl AppState {
    /// The registry invariant: the counter equals the number of stored
    /// entries, and the entry at position `i` carries identifier `i`.
    pub open spec fn wf(self) -> bool {
        &&& self.id == self.cache@.len()
        &&& forall|i: int| 0 <= i < self.cache@.len() ==> (#[trigger] self.cache@[i]).id == i
    }

    /// An empty registry whose first assigned identifier will be zero.
    pub fn new() -> (s: AppState)
        ensures
            s.wf(),
            s.cache@.len() == 0,
            s.id == 0,
    {
        AppState { id: 0, cache: Vec::new() }
    }

    /// Stores a finished loan computation and returns the identifier
    /// assigned to it: the current counter value, after which the counter
    /// advances by one.
    pub fn insert(&mut self, loan: Mortgage) -> (id: u32)
        requires
            old(self).wf(),
            old(self).id < u32::MAX,
        ensures
            final(self).wf(),
            id == old(self).id,
            final(self).id == old(self).id + 1,
            final(self).cache@ == old(self).cache@.push((Response { id, loan })),
    {
        let id: u32 = self.id;
        self.cache.push(Response::new(id, loan));
        self.id = self.id + 1;
        id
    }

    /// A consistent view of all stored entries, in insertion order; reports
    /// `EmptyCache` while nothing is stored yet.
    pub fn snapshot(&self) -> (r: Result<Vec<Response>, AppError>)
        ensures
            r is Err <==> self.cache@.len() == 0,
            r matches Err(e) ==> e == AppError::EmptyCache,
            r matches Ok(v) ==> v@ == self.cache@,
    {
        if self.cache.len() == 0 {
            return Err(AppError::EmptyCache);
        }
        let mut out: Vec<Response> = Vec::new();
        let mut i: usize = 0;
        while i < self.cache.len()
            invariant
                i <= self.cache@.len(),
                out@.len() == i,
                forall|j: int| 0 <= j < i as int ==> out@[j] == self.cache@[j],
            decreases self.cache@.len() - i,
        {
            out.push(self.cache[i].clone());
            i = i + 1;
        }
        proof {
            assert(out@ =~= self.cache@);
        }
        Ok(out)
    }
}

/// Identifiers are assigned contiguously from zero: in a well-formed
/// registry the entry at position `k` carries identifier `k`, so `N`
/// inserts into a fresh registry hand out exactly the identifiers
/// `0, 1, …, N-1`, in insertion order and without repeats or gaps.
pub proof fn lemma_ids_contiguous(s: AppState)
    requires
        s.wf(),
    ensures
        forall|i: int| 0 <= i < s.cache@.len() ==> (#[trigger] s.cache@[i]).id == i,
        forall|i: int, j: int|
            0 <= i < j < s.cache@.len() ==> s.cache@[i].id < s.cache@[j].id,
{
}

} // verus!
