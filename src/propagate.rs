//! Mirroring edits and deletions of an origin message onto every replica
//! recorded for it.

use vstd::prelude::*;

use crate::cache::{MessageCache, has_key, lookup_spec, remove_spec};
use crate::model::CacheValue;

verus! {

/// Replace the content of one replica, through the relay handle that
/// posted it.
#[derive(Debug)]
pub struct EditRequest {
    pub webhook_id: u64,
    pub message_id: u64,
    pub content: String,
}

/// Delete one replica.
#[derive(Clone, Copy, Debug, PartialEq, Eq, Structural)]
pub struct DeleteRequest {
    pub channel_id: u64,
    pub message_id: u64,
}

/// `r` edits each of `records`, in order, to `content`.
pub open spec fn edits_match(r: Seq<EditRequest>, records: Seq<CacheValue>, content: Seq<char>) -> bool {
    &&& r.len() == records.len()
    &&& forall|i: int|
        0 <= i < r.len() ==> {
            &&& (#[trigger] r[i]).webhook_id == records[i].related_webhook_id
            &&& r[i].message_id == records[i].related_message_id
            &&& r[i].content@ == content
        }
}

/// `r` deletes each of `records`, in order.
pub open spec fn deletes_match(r: Seq<DeleteRequest>, records: Seq<CacheValue>) -> bool {
    &&& r.len() == records.len()
    &&& forall|i: int|
        0 <= i < r.len() ==> {
            &&& (#[trigger] r[i]).channel_id == records[i].related_channel_id
            &&& r[i].message_id == records[i].related_message_id
        }
}

/// The edits that mirror a new `content` of `origin_id`: one per recorded
/// replica. Nothing when the content did not change or the message is not
/// tracked.
pub fn plan_edit(cache: &MessageCache, origin_id: u64, content: &Option<String>) -> (r: Vec<EditRequest>)
    requires
        cache.wf(),
    ensures
        match (content, lookup_spec(cache@, origin_id)) {
            (Some(c), Some(records)) => edits_match(r@, records, c@),
            _ => r@.len() == 0,
        },
{
    let mut out: Vec<EditRequest> = Vec::new();
    let text = match content {
        Some(c) => c,
        None => return out,
    };
    let records = match cache.get_entry(origin_id) {
        Some(v) => v,
        None => return out,
    };
    let mut i: usize = 0;
    while i < records.len()
        invariant
            i <= records@.len(),
            edits_match(out@, records@.subrange(0, i as int), text@),
        decreases records@.len() - i,
    {
        let rec = records[i];
        out.push(
            EditRequest {
                webhook_id: rec.related_webhook_id,
                message_id: rec.related_message_id,
                content: text.clone(),
            },
        );
        i = i + 1;
    }
    assert(records@.subrange(0, records@.len() as int) =~= records@);
    out
}

/// The deletions that mirror the deletion of `origin_id`: one per recorded
/// replica. The entry leaves the cache now, whatever becomes of those
/// deletions; nothing happens when the message is not tracked.
pub fn plan_delete(cache: &mut MessageCache, origin_id: u64) -> (r: Vec<DeleteRequest>)
    requires
        old(cache).wf(),
    ensures
        final(cache).wf(),
        final(cache).capacity() == old(cache).capacity(),
        final(cache)@ == remove_spec(old(cache)@, origin_id),
        !has_key(final(cache)@, origin_id),
        match lookup_spec(old(cache)@, origin_id) {
            Some(records) => deletes_match(r@, records),
            None => r@.len() == 0,
        },
{
    let mut out: Vec<DeleteRequest> = Vec::new();
    match cache.get_entry(origin_id) {
        Some(records) => {
            let mut i: usize = 0;
            while i < records.len()
                invariant
                    i <= records@.len(),
                    deletes_match(out@, records@.subrange(0, i as int)),
                decreases records@.len() - i,
            {
                let rec = records[i];
                out.push(
                    DeleteRequest {
                        channel_id: rec.related_channel_id,
                        message_id: rec.related_message_id,
                    },
                );
                i = i + 1;
            }
            assert(records@.subrange(0, records@.len() as int) =~= records@);
        },
        None => {},
    }
    cache.remove(origin_id);
    out
}

} // verus!
