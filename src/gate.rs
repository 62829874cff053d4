//! The access gate: which chat messages may be published to the bus.

use vstd::prelude::*;

use crate::bans::{BanList, BanEntry, unban_spec};
use crate::model::{Message, RelayHandle};

verus! {

/// Whether an outgoing message may be published, and if not, why.
#[derive(Clone, Copy, Debug, PartialEq, Eq, Structural)]
pub enum Admission {
    /// The message passes every check and is published.
    Publish,
    /// The message's channel is not a linked channel.
    NotLinked,
    /// The message was written by the relay itself.
    OwnMessage,
    /// The author is banned.
    Banned,
}

/// The decision for a message in `channel_id` by `author_id`, given the
/// linked channels, the relay's own identities and the ban list.
pub open spec fn admission_spec(
    linked: Seq<u64>,
    own: Seq<u64>,
    bans: Map<u64, BanEntry>,
    channel_id: u64,
    author_id: u64,
) -> Admission {
    if !linked.contains(channel_id) {
        Admission::NotLinked
    } else if own.contains(author_id) {
        Admission::OwnMessage
    } else if bans.contains_key(author_id) {
        Admission::Banned
    } else {
        Admission::Publish
    }
}

/// Whether `x` is one of `v`.
fn contains_id(v: &Vec<u64>, x: u64) -> (r: bool)
    ensures
        r == v@.contains(x),
{
    let mut i: usize = 0;
    while i < v.len()
        invariant
            i <= v@.len(),
            forall|j: int| 0 <= j < i ==> v@[j] != x,
        decreases v@.len() - i,
    {
        if v[i] == x {
            assert(v@[i as int] == x);
            return true;
        }
        i = i + 1;
    }
    false
}

/// Decides whether `message` goes to the bus: it must come from one of the
/// `linked` channels, not from one of the relay's `own` identities (its bot
/// account and its relay handles), and not from a banned author.
pub fn check_outbound(linked: &Vec<u64>, own: &Vec<u64>, bans: &BanList, message: &Message) -> (r:
    Admission)
    ensures
        r == admission_spec(linked@, own@, bans@, message.channel_id, message.author.id),
{
    if !contains_id(linked, message.channel_id) {
        Admission::NotLinked
    } else if contains_id(own, message.author.id) {
        Admission::OwnMessage
    } else if bans.is_banned(message.author.id) {
        Admission::Banned
    } else {
        Admission::Publish
    }
}

/// A banned author's messages never reach the bus, and once the ban is
/// lifted the next message of that author from a linked channel, not
/// written by the relay itself, is published.
pub proof fn lemma_ban_gates_author(
    linked: Seq<u64>,
    own: Seq<u64>,
    bans: Map<u64, BanEntry>,
    channel_id: u64,
    author_id: u64,
)
    ensures
        bans.contains_key(author_id) ==> admission_spec(linked, own, bans, channel_id, author_id)
            != Admission::Publish,
        linked.contains(channel_id) && !own.contains(author_id) ==> admission_spec(
            linked,
            own,
            unban_spec(bans, author_id),
            channel_id,
            author_id,
        ) == Admission::Publish,
{
}

/// The identities the relay posts under: its bot account, then each relay
/// handle in order.
pub fn relay_identities(bot_id: u64, relays: &Vec<RelayHandle>) -> (r: Vec<u64>)
    ensures
        r@ == seq![bot_id] + relays@.map_values(|h: RelayHandle| h.webhook_id),
{
    let mut out: Vec<u64> = Vec::new();
    out.push(bot_id);
    let mut i: usize = 0;
    while i < relays.len()
        invariant
            i <= relays@.len(),
            out@ == seq![bot_id] + relays@.subrange(0, i as int).map_values(|h: RelayHandle| h.webhook_id),
        decreases relays@.len() - i,
    {
        out.push(relays[i].webhook_id);
        assert(relays@.subrange(0, i + 1).map_values(|h: RelayHandle| h.webhook_id) =~= relays@.subrange(
            0,
            i as int,
        ).map_values(|h: RelayHandle| h.webhook_id).push(relays@[i as int].webhook_id));
        i = i + 1;
    }
    assert(relays@.subrange(0, relays@.len() as int) =~= relays@);
    out
}

} // verus!
