//! The broadcast channel of a room, provided by `tokio::sync::broadcast`.

use vstd::prelude::*;

use crate::message::TweetMsg;

verus! {

#[verifier::external_type_specification]
#[verifier::external_body]
#[verifier::reject_recursive_types(T)]
pub struct ExSender<T>(tokio::sync::broadcast::Sender<T>);

/// Number of messages a room's channel buffers for slow subscribers.
pub const ROOM_CAPACITY: usize = 100000;

/// Relies on `tokio::sync::broadcast::channel`: it creates a new channel
/// of the given capacity, panicking only on a capacity of zero or above
/// `usize::MAX / 2`. The initial receiver is dropped right away.
#[verifier::external_body]
pub(crate) fn open_channel(capacity: usize) -> (tx: tokio::sync::broadcast::Sender<TweetMsg>)
    requires
        0 < capacity <= usize::MAX / 2,
{
    tokio::sync::broadcast::channel(capacity).0
}

/// Relies on `tokio::sync::broadcast::Sender::send`: it fails only when no
/// receiver is subscribed, and on success returns the number of
/// subscribed receivers, which is then at least one.
#[verifier::external_body]
pub(crate) fn publish(tx: &tokio::sync::broadcast::Sender<TweetMsg>, msg: TweetMsg) -> (r: Option<usize>)
    ensures
        r matches Some(n) ==> n >= 1,
{
    match tx.send(msg) {
        Ok(n) => Some(n),
        Err(_) => None,
    }
}

} // verus!
