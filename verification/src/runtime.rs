//! The engine's contact with the world outside: the wall clock, identifier
//! generation, chance, and the broadcast channel that carries task events.
//!
//! Nothing here is proved. Each function states only what the outside
//! crate's source guarantees for every call, and the verified code of the
//! other modules is written to work whatever these calls hand back.
//!
//! A `requires` below leaves out the arguments on which the outside
//! function panics. Four panics depend on the machine and on no argument,
//! so no `requires` can leave them out: the clock read panics on a system
//! clock set before 1970, the two random draws panic where the operating
//! system's random source fails, and a new receiver panics once a quarter
//! of `usize::MAX` receivers are alive on one channel.

use crate::models::Task;
use vstd::prelude::*;

verus! {

/// `tokio::sync::broadcast::Sender`, the sending half of the event channel.
/// Nothing is known of what a value holds.
#[verifier::external_type_specification]
#[verifier::external_body]
#[verifier::reject_recursive_types(T)]
pub struct ExBroadcastSender<T>(tokio::sync::broadcast::Sender<T>);

/// `tokio::sync::broadcast::Receiver`, one observer's end of the event
/// channel. Nothing is known of what a value holds.
#[verifier::external_type_specification]
#[verifier::external_body]
#[verifier::reject_recursive_types(T)]
pub struct ExBroadcastReceiver<T>(tokio::sync::broadcast::Receiver<T>);

/// The channel that a sender sends on. Two handles with the same number
/// share one channel.
pub uninterp spec fn sender_channel(sender: tokio::sync::broadcast::Sender<(u128, Task)>) -> nat;

/// The channel that a receiver listens on.
pub uninterp spec fn receiver_channel(
    receiver: tokio::sync::broadcast::Receiver<(u128, Task)>,
) -> nat;

/// The number of events that a sender's channel was made to keep for an
/// observer that falls behind. (The channel may keep more: it rounds the
/// number up to a power of two.)
pub uninterp spec fn sender_capacity(sender: tokio::sync::broadcast::Sender<(u128, Task)>) -> nat;

/// Calls `chrono::Utc::now` and converts the instant with
/// `DateTime::timestamp_millis` to whole milliseconds since the Unix epoch.
/// The result depends on the machine's clock, so nothing is claimed of it.
/// (`Utc::now` panics on a clock set before the epoch.)
#[verifier::external_body]
pub(crate) fn now_millis() -> (now: i64) {
    chrono::Utc::now().timestamp_millis()
}

/// Calls `uuid::Uuid::new_v4` and converts the identifier with
/// `Uuid::as_u128` to the 128-bit number that holds its bytes. The result is
/// random, so nothing is claimed of it: in particular not that it differs
/// from any identifier drawn before.
#[verifier::external_body]
pub(crate) fn random_task_id() -> (id: u128) {
    uuid::Uuid::new_v4().as_u128()
}

/// Calls `rand::Rng::gen_ratio` on `rand::thread_rng()`: a draw that is true
/// with probability `numerator / denominator`. Only the two certain cases
/// are claimed, as the crate documents them: never true for a zero
/// numerator, always true when numerator and denominator are equal. The
/// outside function panics on the arguments that `requires` leaves out.
#[verifier::external_body]
pub(crate) fn random_ratio(numerator: u32, denominator: u32) -> (hit: bool)
    requires
        0 < denominator,
        numerator <= denominator,
    ensures
        numerator == 0 ==> !hit,
        numerator == denominator ==> hit,
{
    rand::Rng::gen_ratio(&mut rand::thread_rng(), numerator, denominator)
}

/// Calls `tokio::sync::broadcast::channel` and keeps the sending half; the
/// first receiver is dropped at once, so the channel starts without
/// observers. Claimed is only that the channel was made with the capacity
/// asked for. The outside function panics on the capacities that `requires`
/// leaves out.
#[verifier::external_body]
pub(crate) fn open_channel(capacity: usize) -> (sender: tokio::sync::broadcast::Sender<
    (u128, Task),
>)
    requires
        0 < capacity <= usize::MAX / 2,
    ensures
        sender_capacity(sender) == capacity,
{
    let (sender, _) = tokio::sync::broadcast::channel(capacity);
    sender
}

/// Calls `tokio::sync::broadcast::Sender::send` with the pair `(id, task)`
/// and drops its answer, which only counts the observers alive at that
/// moment. Whether anyone receives the event depends on those observers, so
/// nothing is claimed.
#[verifier::external_body]
pub(crate) fn publish(sender: &tokio::sync::broadcast::Sender<(u128, Task)>, id: u128, task: Task) {
    let _ = sender.send((id, task));
}

/// Calls `tokio::sync::broadcast::Sender::subscribe`, which hands out a
/// receiver for the events sent after this call. Claimed is only that the
/// receiver listens on the sender's own channel: the outside function
/// builds it from the state that the sender shares with its channel. Where
/// in the stream of events the receiver starts is not claimed.
#[verifier::external_body]
pub(crate) fn subscribe(sender: &tokio::sync::broadcast::Sender<(u128, Task)>) -> (receiver:
    tokio::sync::broadcast::Receiver<(u128, Task)>)
    ensures
        receiver_channel(receiver) == sender_channel(*sender),
{
    sender.subscribe()
}

} // verus!
