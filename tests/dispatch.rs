use intergalactic_chat::cache::MessageCache;
use intergalactic_chat::dispatch::{begin_dispatch, build_reply_for_webhook, plan_fan_out, post_for_relay, record_post};
use intergalactic_chat::model::{Author, CacheValue, Message, RelayHandle};

fn author(id: u64, name: &str) -> Author {
    Author { id, name: name.to_string(), avatar_url: format!("https://cdn.example/{id}.png"), bot: false }
}

fn message(id: u64, channel_id: u64, content: &str) -> Message {
    Message {
        id,
        channel_id,
        guild_id: Some(900),
        author: author(42, "alice"),
        content: content.to_string(),
        attachments: vec!["https://files.example/a.png".to_string()],
        referenced_message: None,
    }
}

fn relays() -> Vec<RelayHandle> {
    vec![
        RelayHandle { channel_id: 1, webhook_id: 101 },
        RelayHandle { channel_id: 2, webhook_id: 102 },
        RelayHandle { channel_id: 3, webhook_id: 103 },
    ]
}

#[test]
fn scenario_b_three_channels_origin_two() {
    let mut cache = MessageCache::new(10);
    let m = message(555, 2, "hello");
    let posts = begin_dispatch(&mut cache, &m, &relays());
    let channels: Vec<u64> = posts.iter().map(|p| p.relay.channel_id).collect();
    assert_eq!(channels, vec![1, 3]);
    assert_eq!(cache.get_entry(555).unwrap().len(), 0);
    for (i, p) in posts.iter().enumerate() {
        record_post(&mut cache, 555, p.relay, Some(7000 + i as u64));
    }
    let entry = cache.get_entry(555).unwrap();
    assert_eq!(entry.len(), 2);
    assert_eq!(entry[0], CacheValue { related_channel_id: 1, related_message_id: 7000, related_webhook_id: 101 });
    assert_eq!(entry[1], CacheValue { related_channel_id: 3, related_message_id: 7001, related_webhook_id: 103 });
}

#[test]
fn fan_out_skips_only_the_origin() {
    let m = message(1, 3, "x");
    let posts = plan_fan_out(&m, &relays());
    let channels: Vec<u64> = posts.iter().map(|p| p.relay.channel_id).collect();
    assert_eq!(channels, vec![1, 2]);
    let outside = message(1, 99, "x");
    assert_eq!(plan_fan_out(&outside, &relays()).len(), 3);
    assert_eq!(plan_fan_out(&m, &Vec::new()).len(), 0);
}

#[test]
fn partial_failure_records_only_successes() {
    let mut cache = MessageCache::new(10);
    let m = message(77, 9, "hi");
    let posts = begin_dispatch(&mut cache, &m, &relays());
    assert_eq!(posts.len(), 3);
    record_post(&mut cache, 77, posts[2].relay, Some(33));
    record_post(&mut cache, 77, posts[1].relay, None);
    record_post(&mut cache, 77, posts[0].relay, Some(11));
    let entry = cache.get_entry(77).unwrap();
    assert_eq!(
        entry,
        &vec![
            CacheValue { related_channel_id: 3, related_message_id: 33, related_webhook_id: 103 },
            CacheValue { related_channel_id: 1, related_message_id: 11, related_webhook_id: 101 },
        ]
    );
}

#[test]
fn post_copies_author_content_and_attachments() {
    let m = message(5, 1, "content here");
    let p = post_for_relay(&m, RelayHandle { channel_id: 2, webhook_id: 8 }).unwrap();
    assert_eq!(p.content, "content here");
    assert_eq!(p.username, "alice");
    assert_eq!(p.avatar_url, "https://cdn.example/42.png");
    assert_eq!(p.attachment_urls, vec!["https://files.example/a.png".to_string()]);
    assert!(p.quote.is_none());
    assert!(post_for_relay(&m, RelayHandle { channel_id: 1, webhook_id: 8 }).is_none());
}

#[test]
fn reply_quote_links_and_truncates() {
    let mut original = message(333, 44, "0123456789\nabcdefghijklmnopqrstuvwxyz");
    original.author = author(7, "bob");
    let q = build_reply_for_webhook(&original);
    assert_eq!(
        q.description,
        "**[Reply to:](https://discord.com/channels/900/44/333)** 0123456789abcdefghijklmnopqrs..."
    );
    assert_eq!(q.footer_text, "bob");
    assert_eq!(q.footer_icon_url, "https://cdn.example/7.png");
}

#[test]
fn reply_quote_short_private_message() {
    let mut original = message(3, 2, "short");
    original.guild_id = None;
    let q = build_reply_for_webhook(&original);
    assert_eq!(q.description, "**[Reply to:](https://discord.com/channels/@me/2/3)** short");
    let mut exact = message(3, 2, "abcdefghijklmnopqrstuvwxyz0123");
    exact.guild_id = None;
    let q = build_reply_for_webhook(&exact);
    assert_eq!(q.description, "**[Reply to:](https://discord.com/channels/@me/2/3)** abcdefghijklmnopqrstuvwxyz0123");
}

#[test]
fn reply_post_carries_quote() {
    let mut m = message(10, 1, "answer");
    m.referenced_message = Some(Box::new(message(9, 1, "question")));
    let p = post_for_relay(&m, RelayHandle { channel_id: 2, webhook_id: 5 }).unwrap();
    let q = p.quote.unwrap();
    assert_eq!(q.description, "**[Reply to:](https://discord.com/channels/900/1/9)** question");
}
