use intergalactic_chat::bans::{BanEntry, BanError, BanList};
use intergalactic_chat::gate::{check_outbound, relay_identities, Admission};
use intergalactic_chat::model::{Author, Message, RelayHandle};

fn from(author_id: u64, channel_id: u64) -> Message {
    Message {
        id: 1,
        channel_id,
        guild_id: Some(5),
        author: Author { id: author_id, name: "u".to_string(), avatar_url: String::new(), bot: false },
        content: "hi".to_string(),
        attachments: Vec::new(),
        referenced_message: None,
    }
}

fn entry(reason: &str) -> BanEntry {
    BanEntry { reason: reason.to_string(), executor: 9, ban_origin: 5, timestamp: 1_700_000_000 }
}

#[test]
fn scenario_c_ban_then_unban() {
    let linked = vec![100u64, 200];
    let own = vec![1u64];
    let mut bans = BanList::new();
    let u = 77u64;
    assert_eq!(bans.ban(u, entry("spam")), Ok(()));
    assert_eq!(bans.get(u).unwrap().reason, "spam");
    assert_eq!(check_outbound(&linked, &own, &bans, &from(u, 100)), Admission::Banned);
    assert!(bans.unban(u).is_ok());
    assert_eq!(check_outbound(&linked, &own, &bans, &from(u, 100)), Admission::Publish);
}

#[test]
fn gate_checks_in_order() {
    let linked = vec![100u64];
    let own = vec![1u64];
    let mut bans = BanList::new();
    bans.ban(1, entry("x")).unwrap();
    bans.ban(2, entry("x")).unwrap();
    assert_eq!(check_outbound(&linked, &own, &bans, &from(2, 300)), Admission::NotLinked);
    assert_eq!(check_outbound(&linked, &own, &bans, &from(1, 100)), Admission::OwnMessage);
    assert_eq!(check_outbound(&linked, &own, &bans, &from(2, 100)), Admission::Banned);
    assert_eq!(check_outbound(&linked, &own, &bans, &from(3, 100)), Admission::Publish);
}

#[test]
fn ban_and_unban_report_no_ops() {
    let mut bans = BanList::new();
    assert_eq!(bans.unban(4).unwrap_err(), BanError::NotBanned);
    bans.ban(4, entry("first")).unwrap();
    assert_eq!(bans.ban(4, entry("second")), Err(BanError::AlreadyBanned));
    assert_eq!(bans.get(4).unwrap().reason, "first");
    assert_eq!(bans.unban(4).unwrap().reason, "first");
    assert!(!bans.is_banned(4));
}

#[test]
fn relay_identities_lists_bot_and_handles() {
    let relays = vec![RelayHandle { channel_id: 1, webhook_id: 11 }, RelayHandle { channel_id: 2, webhook_id: 22 }];
    assert_eq!(relay_identities(5, &relays), vec![5, 11, 22]);
    let own = relay_identities(5, &relays);
    let bans = BanList::new();
    assert_eq!(check_outbound(&vec![1], &own, &bans, &from(22, 1)), Admission::OwnMessage);
}
