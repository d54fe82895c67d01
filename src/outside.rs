use rand::Rng;
use tokio::sync::broadcast::{Receiver, Sender};
use vstd::prelude::*;

verus! {

/// The sending half of a tokio broadcast channel: each room holds one.
#[verifier::external_type_specification]
#[verifier::external_body]
#[verifier::reject_recursive_types(T)]
pub struct ExSender<T>(Sender<T>);

/// The receiving half of a tokio broadcast channel: a session holds one for
/// the room it is in.
#[verifier::external_type_specification]
#[verifier::external_body]
#[verifier::reject_recursive_types(T)]
pub struct ExReceiver<T>(Receiver<T>);

/// Relies on `tokio::sync::broadcast::channel`: it makes a channel that keeps
/// up to `capacity` unread messages per receiver, and panics on a capacity of
/// zero or of more than `usize::MAX / 2`.
#[verifier::external_body]
pub(crate) fn open_channel(capacity: usize) -> (r: Sender<String>)
    requires
        0 < capacity <= usize::MAX / 2,
{
    tokio::sync::broadcast::channel(capacity).0
}

/// Relies on `tokio::sync::broadcast::Sender::subscribe`: a new receiver that
/// sees the messages sent after this call only. It panics only once
/// `usize::MAX / 4` receivers are alive at the same time.
#[verifier::external_body]
pub(crate) fn subscribe(tx: &Sender<String>) -> (r: Receiver<String>) {
    tx.subscribe()
}

/// Relies on `tokio::sync::broadcast::Sender::send`: it hands the message to
/// every live receiver and returns how many there were; with no receiver it
/// fails, which is a count of zero here.
#[verifier::external_body]
pub(crate) fn publish(tx: &Sender<String>, message: String) -> (r: usize) {
    match tx.send(message) {
        Ok(n) => n,
        Err(_) => 0,
    }
}

/// Relies on `rand::Rng::gen_range` over the thread-local generator: a number
/// drawn from `lo..hi`; it panics on an empty range.
#[verifier::external_body]
pub(crate) fn random_between(lo: u16, hi: u16) -> (r: u16)
    requires
        lo < hi,
    ensures
        lo <= r < hi,
{
    rand::thread_rng().gen_range(lo..hi)
}

/// Relies on `uuid::Uuid::new_v4` and its `Display`: a random version-4
/// identifier in its hyphenated text form.
#[verifier::external_body]
pub(crate) fn new_user_id() -> (r: String) {
    uuid::Uuid::new_v4().to_string()
}

} // verus!
