use intergalactic_chat::bans::BanList;
use intergalactic_chat::commands::{
    ban_notice, ban_reply, command_of, network_ban, network_unban, unban_reply, BanOutcome, CommandKind,
    OptionValue, UnbanOutcome,
};
use intergalactic_chat::config::Config;
use intergalactic_chat::text::{decimal_string, excerpt};

#[test]
fn command_names() {
    assert_eq!(command_of("ping"), Some(CommandKind::Ping));
    assert_eq!(command_of("about"), Some(CommandKind::About));
    assert_eq!(command_of("network-ban"), Some(CommandKind::NetworkBan));
    assert_eq!(command_of("network-unban"), Some(CommandKind::NetworkUnban));
    assert_eq!(command_of("network"), None);
    assert_eq!(command_of(""), None);
}

#[test]
fn network_ban_records_entry_and_replies() {
    let mut bans = BanList::new();
    let user = OptionValue::User { id: 123, bot: false };
    let reason = OptionValue::Text("spam".to_string());
    let outcome = network_ban(&mut bans, &user, &reason, 9, 8, 175928847299117063);
    assert!(matches!(&outcome, BanOutcome::Banned { user: 123, reason } if reason == "spam"));
    let e = bans.get(123).unwrap();
    assert_eq!((e.executor, e.ban_origin, e.timestamp), (9, 8, 1462015105));
    assert_eq!(
        ban_reply(&outcome, true),
        "Banned <@123> from the chat link with the reason: \"spam\"\n\nThe user was successfully notified by direct message."
    );
    let again = network_ban(&mut bans, &user, &OptionValue::Text("other".to_string()), 1, 1, 1);
    assert!(matches!(again, BanOutcome::AlreadyBanned));
    assert_eq!(bans.get(123).unwrap().reason, "spam");
    assert_eq!(
        ban_reply(&again, false),
        "This user has already been banned. Are you looking for the `/network-unban` command?"
    );
}

#[test]
fn network_ban_edge_options() {
    let mut bans = BanList::new();
    let none = network_ban(&mut bans, &OptionValue::Other, &OptionValue::Text("x".to_string()), 1, 1, 0);
    assert!(matches!(none, BanOutcome::NoSuchUser));
    assert_eq!(ban_reply(&none, false), "The user provided does not exist.");
    let bot = network_ban(&mut bans, &OptionValue::User { id: 5, bot: true }, &OptionValue::Other, 1, 1, 0);
    assert!(matches!(&bot, BanOutcome::Banned { user: 5, reason } if reason == "Invalid reason"));
    assert_eq!(bans.get(5).unwrap().timestamp, 1420070400);
    assert_eq!(
        ban_reply(&bot, false),
        "Banned <@5> from the chat link with the reason: \"Invalid reason\"\n\nThe user was unable to be notified by direct message."
    );
}

#[test]
fn network_unban_outcomes() {
    let mut bans = BanList::new();
    let user = OptionValue::User { id: 31, bot: false };
    assert_eq!(network_unban(&mut bans, &user), UnbanOutcome::NotBanned);
    network_ban(&mut bans, &user, &OptionValue::Text("r".to_string()), 1, 1, 0);
    assert_eq!(network_unban(&mut bans, &user), UnbanOutcome::Unbanned { user: 31 });
    assert!(!bans.is_banned(31));
    assert_eq!(network_unban(&mut bans, &OptionValue::Text("x".to_string())), UnbanOutcome::NoSuchUser);
    assert_eq!(
        unban_reply(&UnbanOutcome::Unbanned { user: 31 }, true),
        "Unbanned <@31> from the chat link.\n\nThe user was successfully notified by direct message."
    );
    assert_eq!(
        unban_reply(&UnbanOutcome::NotBanned, true),
        "This user is not banned. Are you looking for the `/network-ban` command?"
    );
    assert_eq!(unban_reply(&UnbanOutcome::NoSuchUser, true), "The user provided does not exist.");
}

#[test]
fn ban_notice_quotes_reason() {
    assert!(ban_notice("too loud").ends_with("provided a reason for your ban:\n\"too loud\""));
    assert!(ban_notice("x").starts_with("You have been network banned by a moderator."));
}

#[test]
fn decimal_and_excerpt() {
    assert_eq!(decimal_string(0), "0");
    assert_eq!(decimal_string(907), "907");
    assert_eq!(decimal_string(u64::MAX), "18446744073709551615");
    assert_eq!(excerpt(""), "");
    assert_eq!(excerpt("a\nb"), "ab");
    assert_eq!(excerpt("ééééééééééééééééééééééééééééééé"), "éééééééééééééééééééééééééééééé...");
}

#[test]
fn empty_config() {
    let c = Config::new();
    assert_eq!(c.mqtt.client_id, "");
    assert_eq!(c.mqtt.broker_ip, "");
    assert_eq!(c.mqtt.broker_port, 0);
    assert_eq!(c.mqtt.topic, "");
    assert!(c.discord.channels.is_empty());
    assert_eq!(c.discord.bot_id, 0);
    assert_eq!(c.discord.token, "");
}
