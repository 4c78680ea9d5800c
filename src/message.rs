//! Chat messages and the decision the receive loop takes on each inbound
//! frame.

use vstd::prelude::*;

use crate::channel::publish;

verus! {

/// Longest message text, in characters, that is ever published.
pub const MAX_MESSAGE_CHARS: usize = 128;

/// An inbound message as a client sends it: `{"message": <string>}`.
#[derive(Clone, Debug, PartialEq, Eq)]
pub struct ChatMsg {
    pub message: String,
}

/// A published message, tagged with the sender's username:
/// `{"user": <string>, "message": <string>}`.
#[derive(Clone, Debug, PartialEq, Eq)]
pub struct TweetMsg {
    pub user: String,
    pub message: String,
}

/// What the receive loop did with one inbound frame.
#[derive(Clone, Copy, Debug, PartialEq, Eq)]
pub enum ReceiveOutcome {
    /// The frame was malformed or too long and was dropped; keep reading.
    Ignored,
    /// The message was handed to the room's channel; keep reading.
    Published,
    /// The channel refused the message; the receive loop ends.
    ChannelClosed,
}

/// The message that an inbound frame becomes, if it is delivered at all:
/// a frame that did not parse (`None`) or whose text is longer than
/// `MAX_MESSAGE_CHARS` characters is dropped.
pub open spec fn outbound_of(user: Seq<char>, parsed: Option<ChatMsg>) -> Option<(Seq<char>, Seq<char>)> {
    match parsed {
        Some(m) => if m.message@.len() <= MAX_MESSAGE_CHARS {
            Some((user, m.message@))
        } else {
            None
        },
        None => None,
    }
}

/// Builds the message to publish for a frame received from `username`.
/// The sender is always the connection's own username.
pub fn accept_inbound(username: &String, parsed: Option<ChatMsg>) -> (r: Option<TweetMsg>)
    ensures
        match outbound_of(username@, parsed) {
            Some((u, t)) => r matches Some(m) && m.user@ == u && m.message@ == t,
            None => r is None,
        },
{
    match parsed {
        Some(m) => {
            let n = m.message.as_str().unicode_len();
            if n <= MAX_MESSAGE_CHARS {
                Some(TweetMsg { user: username.clone(), message: m.message })
            } else {
                None
            }
        },
        None => None,
    }
}

/// Handles one inbound frame of `username`'s connection: drops it, or
/// publishes the tagged message on the room's channel `tx`.
pub fn forward_inbound(
    tx: &tokio::sync::broadcast::Sender<TweetMsg>,
    username: &String,
    parsed: Option<ChatMsg>,
) -> (r: ReceiveOutcome)
    ensures
        outbound_of(username@, parsed) is None <==> r == ReceiveOutcome::Ignored,
{
    match accept_inbound(username, parsed) {
        Some(m) => match publish(tx, m) {
            Some(_) => ReceiveOutcome::Published,
            None => ReceiveOutcome::ChannelClosed,
        },
        None => ReceiveOutcome::Ignored,
    }
}

/// A message longer than `MAX_MESSAGE_CHARS` characters is never
/// forwarded, whoever sends it.
pub proof fn lemma_long_message_dropped(user: Seq<char>, m: ChatMsg)
    requires
        m.message@.len() > MAX_MESSAGE_CHARS,
    ensures
        outbound_of(user, Some(m)) is None,
{
}

/// A well-formed message of acceptable length is forwarded as sent, tagged
/// with the sending connection's username.
pub proof fn lemma_message_tagged_with_sender(user: Seq<char>, m: ChatMsg)
    requires
        m.message@.len() <= MAX_MESSAGE_CHARS,
    ensures
        outbound_of(user, Some(m)) == Some((user, m.message@)),
{
}


} // verus!
