//! The three escrow operations, each with the parties it involves, the
//! outcome it must have on a given ledger state, and the code that brings
//! that outcome about.
//!
//! An operation is a fixed sequence of ledger steps. It fails with the
//! error of the first step that cannot be done, before anything has
//! changed; otherwise all of its steps are done.

pub mod make;
pub mod refund;
pub mod take;

use crate::error::{EscrowError, LedgerError};
use crate::model::LedgerState;
use vstd::prelude::*;

verus! {

/// An operation that reported `done` and turned `before` into `after` did
/// what `outcome` asks: on success the ledger is in the new state, on
/// failure the error is the one asked for and the ledger is as it was.
pub open spec fn carried_out(
    done: Result<(), EscrowError>,
    before: LedgerState,
    after: LedgerState,
    outcome: Result<LedgerState, EscrowError>,
) -> bool {
    match outcome {
        Ok(state) => done is Ok && after == state,
        Err(error) => done == Err::<(), EscrowError>(error) && after == before,
    }
}

/// Takes the result of a ledger step that was checked beforehand and so
/// cannot have been refused.
pub(crate) fn sure(step: Result<(), LedgerError>)
    requires
        step is Ok,
{
    match step {
        Ok(()) => (),
        Err(_) => (),
    }
}

} // verus!
