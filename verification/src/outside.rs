//! Types of std and of outside crates that the verified code carries but
//! does not look into.

use vstd::prelude::*;

verus! {

/// `anyhow::Error`: the error a user's foreign actor or dormant store
/// reports. The library only passes it on.
#[verifier::external_type_specification]
#[verifier::external_body]
pub struct ExAnyhowError(anyhow::Error);

/// `std::time::Instant`: a reading of the monotonic clock. The library
/// only stores it and asks the clock about it.
#[verifier::external_type_specification]
#[verifier::external_body]
pub struct ExInstant(std::time::Instant);

} // verus!

verus! {

/// `std::sync::Mutex`: the lock around a request's reply slot.
#[verifier::external_type_specification]
#[verifier::external_body]
#[verifier::reject_recursive_types(T)]
pub struct ExMutex<T: ?Sized>(std::sync::Mutex<T>);

/// `tokio::sync::oneshot::Sender`: the sending half of a request's reply
/// channel.
#[verifier::external_type_specification]
#[verifier::external_body]
#[verifier::reject_recursive_types(T)]
pub struct ExOneshotSender<T>(tokio::sync::oneshot::Sender<T>);

} // verus!
