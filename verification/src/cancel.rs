//! Cancellation flags shared between a running transfer and the user
//! interface.

use vstd::prelude::*;
use std::sync::Arc;
use std::sync::atomic::AtomicBool;
use std::sync::atomic::Ordering;
use crate::registry::KeyedRegistry;

verus! {

/// A fresh flag, not set (`Arc::new(AtomicBool::new(false))`).
pub fn new_cancellation() -> Arc<AtomicBool> {
    Arc::new(AtomicBool::new(false))
}

/// The message of a cancelled transfer.
pub open spec fn cancelled_message() -> Seq<char> {
    "Transfer cancelled"@
}

/// What a transfer does after reading its flag: stop when it is set.
pub fn cancellation_check(cancelled: bool) -> (r: Result<(), String>)
    ensures
        !cancelled ==> r is Ok,
        cancelled ==> (r matches Err(m) && m@ == cancelled_message()),
{
    if cancelled {
        Err("Transfer cancelled".to_owned())
    } else {
        Ok(())
    }
}

/// Reads the flag and stops the transfer when it is set. The flag may be
/// set by another thread at any time, so only the two outcomes are stated.
pub fn ensure_not_cancelled(cancellation: &AtomicBool) -> (r: Result<(), String>)
    ensures
        r matches Err(m) ==> m@ == cancelled_message(),
{
    cancellation_check(cancellation.load(Ordering::Relaxed))
}

/// The message when no transfer with the given id is running.
pub open spec fn inactive_transfer_message() -> Seq<char> {
    "That transfer is no longer active"@
}

/// Sets the flag of the running transfer `transfer_id`; refuses an id that
/// is not running.
pub fn cancel_transfer(cancellations: &KeyedRegistry<Arc<AtomicBool>>, transfer_id: &str) -> (r:
    Result<(), String>)
    requires
        cancellations.wf(),
    ensures
        r is Ok <==> cancellations.map().dom().contains(transfer_id@),
        r matches Err(m) ==> m@ == inactive_transfer_message(),
{
    match cancellations.get(transfer_id) {
        Some(flag) => {
            flag.store(true, Ordering::Relaxed);
            Ok(())
        },
        None => Err("That transfer is no longer active".to_owned()),
    }
}

} // verus!
