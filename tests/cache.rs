use intergalactic_chat::cache::MessageCache;
use intergalactic_chat::model::CacheValue;

fn keys(c: &MessageCache) -> Vec<u64> {
    c.to_entries().iter().map(|e| e.0).collect()
}

fn rec(channel: u64, message: u64, webhook: u64) -> CacheValue {
    CacheValue { related_channel_id: channel, related_message_id: message, related_webhook_id: webhook }
}

#[test]
fn scenario_a_capacity_two() {
    let (a, b, c, d) = (10u64, 20u64, 30u64, 40u64);
    let mut cache = MessageCache::new(2);
    cache.push(a, Vec::new());
    cache.push(b, Vec::new());
    cache.push(c, Vec::new());
    assert_eq!(keys(&cache), vec![b, c]);
    cache.push(d, Vec::new());
    assert_eq!(keys(&cache), vec![c, d]);
    assert!(cache.get_entry(a).is_none());
    assert!(cache.get_entry(b).is_none());
}

#[test]
fn size_never_exceeds_capacity() {
    for cap in 0usize..5 {
        let mut cache = MessageCache::new(cap);
        for k in 0u64..12 {
            cache.push(k % 7, Vec::new());
            assert!(cache.len() <= cap);
            assert!(cache.len() <= cache.size());
        }
    }
}

#[test]
fn capacity_zero_holds_nothing() {
    let mut cache = MessageCache::new(0);
    cache.push(1, Vec::new());
    assert_eq!(cache.len(), 0);
    assert!(cache.get_entry(1).is_none());
    cache.push_into_value(1, rec(1, 2, 3));
    assert_eq!(cache.len(), 0);
}

#[test]
fn fifo_eviction_keeps_last_c_keys() {
    let mut cache = MessageCache::new(3);
    for k in [5u64, 6, 7, 8] {
        cache.push(k, Vec::new());
    }
    assert_eq!(keys(&cache), vec![6, 7, 8]);
    assert!(cache.get_entry(5).is_none());
}

#[test]
fn eviction_is_by_insertion_not_access() {
    let mut cache = MessageCache::new(2);
    cache.push(1, Vec::new());
    cache.push(2, Vec::new());
    assert!(cache.get_entry(1).is_some());
    cache.push_into_value(1, rec(9, 9, 9));
    cache.push(3, Vec::new());
    assert_eq!(keys(&cache), vec![2, 3]);
}

#[test]
fn reserving_a_present_key_changes_nothing() {
    let mut cache = MessageCache::new(2);
    cache.push(1, Vec::new());
    cache.push_into_value(1, rec(1, 2, 3));
    cache.push(2, Vec::new());
    cache.push(1, Vec::new());
    assert_eq!(keys(&cache), vec![1, 2]);
    assert_eq!(cache.get_entry(1).unwrap(), &vec![rec(1, 2, 3)]);
}

#[test]
fn append_after_eviction_is_noop() {
    let mut cache = MessageCache::new(2);
    cache.push(1, Vec::new());
    cache.push(2, Vec::new());
    cache.push(3, Vec::new());
    let before = cache.to_entries();
    cache.push_into_value(1, rec(4, 5, 6));
    assert_eq!(cache.len(), 2);
    assert_eq!(cache.to_entries(), before);
    assert!(cache.get_entry(1).is_none());
}

#[test]
fn append_keeps_arrival_order() {
    let mut cache = MessageCache::new(4);
    cache.push(7, Vec::new());
    cache.push_into_value(7, rec(3, 30, 300));
    cache.push_into_value(7, rec(1, 10, 100));
    assert_eq!(cache.get_entry(7).unwrap(), &vec![rec(3, 30, 300), rec(1, 10, 100)]);
}

#[test]
fn lookup_after_remove_and_remove_twice() {
    let mut cache = MessageCache::new(3);
    cache.push(1, Vec::new());
    cache.push(2, Vec::new());
    cache.remove(1);
    assert!(cache.get_entry(1).is_none());
    let after_first = cache.to_entries();
    cache.remove(1);
    assert_eq!(cache.to_entries(), after_first);
    assert_eq!(keys(&cache), vec![2]);
}

#[test]
fn remove_frees_room_without_eviction() {
    let mut cache = MessageCache::new(2);
    cache.push(1, Vec::new());
    cache.push(2, Vec::new());
    cache.remove(1);
    cache.push(3, Vec::new());
    assert_eq!(keys(&cache), vec![2, 3]);
}

#[test]
fn snapshot_round_trip() {
    let entries = vec![(1u64, vec![rec(1, 2, 3)]), (2, Vec::new()), (1, vec![rec(7, 7, 7)]), (3, Vec::new())];
    let cache = MessageCache::from_entries(2, entries);
    assert_eq!(cache.to_entries(), vec![(2u64, Vec::new()), (3, Vec::new())]);
    let again = MessageCache::from_entries(5, vec![(1u64, vec![rec(1, 2, 3)]), (1, vec![rec(7, 7, 7)])]);
    assert_eq!(again.to_entries(), vec![(1u64, vec![rec(1, 2, 3)])]);
}
