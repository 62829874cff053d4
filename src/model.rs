//! Plain data that flows through the relay: messages and the records of
//! the replicas posted for them.

use vstd::prelude::*;

verus! {

/// One replica of an origin message, posted into a destination channel
/// through that channel's relay handle. Immutable once created.
#[derive(Clone, Copy, Debug, PartialEq, Eq, Structural)]
pub struct CacheValue {
    pub related_channel_id: u64,
    pub related_message_id: u64,
    pub related_webhook_id: u64,
}

/// The author of a message as the relay sees it.
#[derive(Debug)]
pub struct Author {
    pub id: u64,
    pub name: String,
    pub avatar_url: String,
    pub bot: bool,
}

/// A chat message on its way through the relay. Never changed in place.
#[derive(Debug)]
pub struct Message {
    pub id: u64,
    /// The channel the message was posted in.
    pub channel_id: u64,
    /// The server of that channel; `None` for a private channel.
    pub guild_id: Option<u64>,
    pub author: Author,
    pub content: String,
    /// Reference URLs of the attachments.
    pub attachments: Vec<String>,
    /// The message this one replies to, if any.
    pub referenced_message: Option<Box<Message>>,
}

/// The relay handle (a webhook) through which copies are posted into one
/// linked channel.
#[derive(Clone, Copy, Debug, PartialEq, Eq, Structural)]
pub struct RelayHandle {
    pub channel_id: u64,
    pub webhook_id: u64,
}

} // verus!
