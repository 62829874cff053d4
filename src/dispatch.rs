//! Fan-out: one inbound message becomes one post per linked channel other
//! than its own, and each post that succeeds is recorded in the correlation
//! cache.

use vstd::prelude::*;

use crate::cache::{
    MessageCache, Entries, append_spec, has_key, keys_distinct, keys_of, lemma_append_present,
    lookup_spec, reserve_spec,
};
use crate::model::{CacheValue, Message, RelayHandle};
use crate::text::{excerpt, excerpt_spec, jump_link, message_link};

verus! {

/// The quote attached to a copy of a reply: a link to the replied-to
/// message with an excerpt of it, and that message's author.
#[derive(Debug)]
pub struct QuoteEmbed {
    pub description: String,
    pub footer_text: String,
    pub footer_icon_url: String,
}

/// One post to make through a relay handle, on behalf of the original
/// author.
#[derive(Debug)]
pub struct PostRequest {
    pub relay: RelayHandle,
    pub content: String,
    pub username: String,
    pub avatar_url: String,
    pub attachment_urls: Vec<String>,
    pub quote: Option<QuoteEmbed>,
}

/// The text of a quote for `rm`.
pub open spec fn quote_description(rm: Message) -> Seq<char> {
    "**[Reply to:]("@ + jump_link(rm.id, rm.channel_id, rm.guild_id) + ")** "@ + excerpt_spec(
        rm.content@,
    )
}

/// `q` is the quote of `rm`.
pub open spec fn is_quote_of(q: QuoteEmbed, rm: Message) -> bool {
    &&& q.description@ == quote_description(rm)
    &&& q.footer_text@ == rm.author.name@
    &&& q.footer_icon_url@ == rm.author.avatar_url@
}

/// `p` is the copy of `m` to post through `relay`.
pub open spec fn is_post_of(p: PostRequest, m: Message, relay: RelayHandle) -> bool {
    &&& p.relay == relay
    &&& p.content@ == m.content@
    &&& p.username@ == m.author.name@
    &&& p.avatar_url@ == m.author.avatar_url@
    &&& p.attachment_urls@ == m.attachments@
    &&& match m.referenced_message {
        Some(rm) => p.quote is Some && is_quote_of(p.quote->0, *rm),
        None => p.quote is None,
    }
}

/// The relay handles a message from `origin` goes out through: every one
/// but those of its own channel.
pub open spec fn destinations(relays: Seq<RelayHandle>, origin: u64) -> Seq<RelayHandle> {
    relays.filter(|r: RelayHandle| r.channel_id != origin)
}

/// Builds the quote for a reply to `rm`.
pub fn build_reply_for_webhook(rm: &Message) -> (r: QuoteEmbed)
    ensures
        is_quote_of(r, *rm),
{
    let mut description = String::from_str("**[Reply to:](");
    let link = message_link(rm.id, rm.channel_id, rm.guild_id);
    description.append(link.as_str());
    description.append(")** ");
    let shown = excerpt(rm.content.as_str());
    description.append(shown.as_str());
    QuoteEmbed {
        description,
        footer_text: rm.author.name.clone(),
        footer_icon_url: rm.author.avatar_url.clone(),
    }
}

/// A copy of `urls`.
fn copy_urls(urls: &Vec<String>) -> (r: Vec<String>)
    ensures
        r@ == urls@,
{
    let mut out: Vec<String> = Vec::new();
    let mut i: usize = 0;
    while i < urls.len()
        invariant
            i <= urls@.len(),
            out@ == urls@.subrange(0, i as int),
        decreases urls@.len() - i,
    {
        out.push(urls[i].clone());
        assert(out@ =~= urls@.subrange(0, i + 1));
        i = i + 1;
    }
    assert(out@ =~= urls@);
    out
}

/// The post that copies `message` through `relay`, or `None` when the relay
/// serves the message's own channel.
pub fn post_for_relay(message: &Message, relay: RelayHandle) -> (r: Option<PostRequest>)
    ensures
        match r {
            Some(p) => relay.channel_id != message.channel_id && is_post_of(p, *message, relay),
            None => relay.channel_id == message.channel_id,
        },
{
    if message.channel_id == relay.channel_id {
        return None;
    }
    let quote = match &message.referenced_message {
        Some(rm) => Some(build_reply_for_webhook(rm)),
        None => None,
    };
    Some(
        PostRequest {
            relay,
            content: message.content.clone(),
            username: message.author.name.clone(),
            avatar_url: message.author.avatar_url.clone(),
            attachment_urls: copy_urls(&message.attachments),
            quote,
        },
    )
}

/// The posts for `message`, one per relay handle whose channel is not the
/// message's own, in the order of `relays`.
pub fn plan_fan_out(message: &Message, relays: &Vec<RelayHandle>) -> (r: Vec<PostRequest>)
    ensures
        r@.len() == destinations(relays@, message.channel_id).len(),
        forall|i: int|
            0 <= i < r@.len() ==> is_post_of(
                #[trigger] r@[i],
                *message,
                destinations(relays@, message.channel_id)[i],
            ),
{
    let ghost origin = message.channel_id;
    let mut out: Vec<PostRequest> = Vec::new();
    let mut i: usize = 0;
    while i < relays.len()
        invariant
            i <= relays@.len(),
            origin == message.channel_id,
            out@.len() == destinations(relays@.subrange(0, i as int), origin).len(),
            forall|j: int|
                0 <= j < out@.len() ==> is_post_of(
                    #[trigger] out@[j],
                    *message,
                    destinations(relays@.subrange(0, i as int), origin)[j],
                ),
        decreases relays@.len() - i,
    {
        let relay = relays[i];
        proof {
            assert(relays@.subrange(0, i + 1).drop_last() =~= relays@.subrange(0, i as int));
            assert(relays@.subrange(0, i + 1).last() == relay);
            reveal(Seq::filter);
        }
        match post_for_relay(message, relay) {
            Some(p) => {
                out.push(p);
            },
            None => {},
        }
        i = i + 1;
    }
    assert(relays@.subrange(0, relays@.len() as int) =~= relays@);
    out
}

/// Starts the dispatch of `message`: reserves its entry in the cache, so
/// that every completed post has a slot to be recorded in, and returns the
/// posts to make.
pub fn begin_dispatch(cache: &mut MessageCache, message: &Message, relays: &Vec<RelayHandle>) -> (r:
    Vec<PostRequest>)
    requires
        old(cache).wf(),
    ensures
        final(cache).wf(),
        final(cache).capacity() == old(cache).capacity(),
        final(cache)@ == reserve_spec(old(cache)@, old(cache).capacity(), message.id, Seq::empty()),
        r@.len() == destinations(relays@, message.channel_id).len(),
        forall|i: int|
            0 <= i < r@.len() ==> is_post_of(
                #[trigger] r@[i],
                *message,
                destinations(relays@, message.channel_id)[i],
            ),
{
    cache.push(message.id, Vec::new());
    plan_fan_out(message, relays)
}

/// The record of a post through `relay` that created `posted_message_id`.
pub open spec fn record_of(relay: RelayHandle, posted_message_id: u64) -> CacheValue {
    CacheValue {
        related_channel_id: relay.channel_id,
        related_message_id: posted_message_id,
        related_webhook_id: relay.webhook_id,
    }
}

/// The cache after a post through `relay` for `origin_id` completed:
/// recorded when it created a message, unchanged when it failed.
pub open spec fn record_post_spec(s: Entries, origin_id: u64, relay: RelayHandle, posted: Option<u64>) -> Entries {
    match posted {
        Some(m) => append_spec(s, origin_id, record_of(relay, m)),
        None => s,
    }
}

/// Records the outcome of one post for `origin_id` through `relay`:
/// `Some` with the id of the created message, `None` when the post failed.
/// A failure changes nothing and does not touch other posts.
pub fn record_post(cache: &mut MessageCache, origin_id: u64, relay: RelayHandle, posted: Option<u64>)
    requires
        old(cache).wf(),
    ensures
        final(cache).wf(),
        final(cache).capacity() == old(cache).capacity(),
        final(cache)@ == record_post_spec(old(cache)@, origin_id, relay, posted),
{
    match posted {
        Some(m) => {
            cache.push_into_value(
                origin_id,
                CacheValue {
                    related_channel_id: relay.channel_id,
                    related_message_id: m,
                    related_webhook_id: relay.webhook_id,
                },
            );
        },
        None => {},
    }
}

/// No two relay handles serve the same channel.
pub open spec fn channels_distinct(relays: Seq<RelayHandle>) -> bool {
    forall|i: int, j: int|
        0 <= i < j < relays.len() ==> #[trigger] relays[i].channel_id != #[trigger] relays[j].channel_id
}

/// Some relay handle serves `channel`.
pub open spec fn serves(relays: Seq<RelayHandle>, channel: u64) -> bool {
    exists|i: int| 0 <= i < relays.len() && #[trigger] relays[i].channel_id == channel
}

proof fn lemma_destinations_unserved(relays: Seq<RelayHandle>, origin: u64)
    requires
        !serves(relays, origin),
    ensures
        destinations(relays, origin) == relays,
    decreases relays.len(),
{
    reveal(Seq::filter);
    if relays.len() > 0 {
        let p = relays.drop_last();
        assert(!serves(p, origin)) by {
            if serves(p, origin) {
                let i = choose|i: int| 0 <= i < p.len() && #[trigger] p[i].channel_id == origin;
                assert(relays[i].channel_id == origin);
            }
        }
        lemma_destinations_unserved(p, origin);
        assert(relays[relays.len() - 1].channel_id != origin);
        assert(p.push(relays.last()) =~= relays);
    }
}

proof fn lemma_destinations_len(relays: Seq<RelayHandle>, origin: u64)
    requires
        channels_distinct(relays),
        serves(relays, origin),
    ensures
        destinations(relays, origin).len() == relays.len() - 1,
    decreases relays.len(),
{
    reveal(Seq::filter);
    let p = relays.drop_last();
    let x = relays.last();
    let n = relays.len();
    if x.channel_id == origin {
        assert(!serves(p, origin)) by {
            if serves(p, origin) {
                let i = choose|i: int| 0 <= i < p.len() && #[trigger] p[i].channel_id == origin;
                assert(relays[i].channel_id != relays[n - 1].channel_id);
            }
        }
        lemma_destinations_unserved(p, origin);
    } else {
        assert(serves(p, origin)) by {
            let i = choose|i: int| 0 <= i < n && #[trigger] relays[i].channel_id == origin;
            assert(i != n - 1);
            assert(p[i].channel_id == origin);
        }
        assert(channels_distinct(p)) by {
            assert forall|i: int, j: int| 0 <= i < j < p.len() implies #[trigger] p[i].channel_id
                != #[trigger] p[j].channel_id by {
                assert(relays[i].channel_id != relays[j].channel_id);
            }
        }
        lemma_destinations_len(p, origin);
    }
}

/// Fan-out: with one relay handle per channel and the origin channel among
/// them, a message from the origin goes out through exactly the other
/// `n - 1` handles: none of them serves the origin, and every handle that
/// does not serve it is used.
pub proof fn lemma_fan_out_skips_origin(relays: Seq<RelayHandle>, origin: u64)
    requires
        channels_distinct(relays),
        serves(relays, origin),
    ensures
        destinations(relays, origin).len() == relays.len() - 1,
        forall|i: int|
            0 <= i < destinations(relays, origin).len() ==> (#[trigger] destinations(
                relays,
                origin,
            )[i]).channel_id != origin,
        forall|i: int|
            0 <= i < relays.len() && (#[trigger] relays[i]).channel_id != origin ==> destinations(
                relays,
                origin,
            ).contains(relays[i]),
{
    broadcast use vstd::seq_lib::group_filter_ensures;

    lemma_destinations_len(relays, origin);
}

/// The records that a run of completed posts contributes, in completion
/// order: one per post that created a message, none for a failed one.
pub open spec fn successes(done: Seq<(RelayHandle, Option<u64>)>) -> Seq<CacheValue>
    decreases done.len(),
{
    if done.len() == 0 {
        Seq::empty()
    } else {
        let rest = successes(done.drop_last());
        match done.last().1 {
            Some(m) => rest.push(record_of(done.last().0, m)),
            None => rest,
        }
    }
}

/// The cache after recording each of `done` for `origin_id`, in order.
pub open spec fn record_all(s: Entries, origin_id: u64, done: Seq<(RelayHandle, Option<u64>)>) -> Entries
    decreases done.len(),
{
    if done.len() == 0 {
        s
    } else {
        let last = done.last();
        record_post_spec(record_all(s, origin_id, done.drop_last()), origin_id, last.0, last.1)
    }
}

/// Partial failure isolation: while the entry of a message is tracked,
/// recording any mix of successful and failed posts, in any completion
/// order, leaves exactly the records of the successful ones appended to it,
/// and every other entry as it was.
pub proof fn lemma_partial_failure(s: Entries, origin_id: u64, done: Seq<(RelayHandle, Option<u64>)>)
    requires
        keys_distinct(s),
        has_key(s, origin_id),
    ensures
        keys_of(record_all(s, origin_id, done)) == keys_of(s),
        keys_distinct(record_all(s, origin_id, done)),
        lookup_spec(record_all(s, origin_id, done), origin_id) == Some(
            lookup_spec(s, origin_id)->0 + successes(done),
        ),
        forall|k: u64| k != origin_id ==> lookup_spec(record_all(s, origin_id, done), k) == lookup_spec(s, k),
    decreases done.len(),
{
    if done.len() == 0 {
        assert(lookup_spec(s, origin_id)->0 + Seq::<CacheValue>::empty() =~= lookup_spec(s, origin_id)->0);
    } else {
        let p = done.drop_last();
        let last = done.last();
        lemma_partial_failure(s, origin_id, p);
        let t = record_all(s, origin_id, p);
        assert(has_key(t, origin_id)) by {
            let i = choose|i: int| 0 <= i < s.len() && #[trigger] s[i].0 == origin_id;
            assert(keys_of(t).len() == t.len() && keys_of(s).len() == s.len());
            assert(keys_of(t)[i] == t[i].0 && keys_of(s)[i] == s[i].0);
            assert(t[i].0 == origin_id);
        }
        match last.1 {
            Some(m) => {
                let r = record_of(last.0, m);
                lemma_append_present(t, origin_id, r);
                assert(lookup_spec(s, origin_id)->0 + successes(done) =~= (lookup_spec(s, origin_id)->0
                    + successes(p)).push(r));
                lemma_append_other_keys(t, origin_id, r);
            },
            None => {},
        }
    }
}

/// Appending to one key leaves what every other key maps to unchanged.
proof fn lemma_append_other_keys(s: Entries, k: u64, r: CacheValue)
    requires
        keys_distinct(s),
    ensures
        forall|k2: u64| k2 != k ==> lookup_spec(append_spec(s, k, r), k2) == lookup_spec(s, k2),
{
    let t = append_spec(s, k, r);
    assert forall|k2: u64| k2 != k implies lookup_spec(t, k2) == lookup_spec(s, k2) by {
        assert(forall|i: int| 0 <= i < s.len() ==> (#[trigger] t[i]).0 == s[i].0);
        if has_key(s, k2) {
            let i = choose|i: int| 0 <= i < s.len() && #[trigger] s[i].0 == k2;
            assert(t[i].0 == k2);
        }
        if has_key(t, k2) {
            let i = choose|i: int| 0 <= i < t.len() && #[trigger] t[i].0 == k2;
            assert(s[i].0 == k2);
        }
    }
}

} // verus!
