//! The moderation commands: which command was invoked, what `network-ban`
//! and `network-unban` do to the ban list, and the texts they answer with.

use vstd::prelude::*;

use crate::bans::{BanEntry, BanError, BanList, ban_spec, unban_spec};
use crate::text::{decimal, decimal_string};

verus! {

/// The commands the relay answers.
#[derive(Clone, Copy, Debug, PartialEq, Eq, Structural)]
pub enum CommandKind {
    Ping,
    About,
    NetworkBan,
    NetworkUnban,
}

/// The command registered under `name`.
pub open spec fn command_spec(name: Seq<char>) -> Option<CommandKind> {
    if name == "ping"@ {
        Some(CommandKind::Ping)
    } else if name == "about"@ {
        Some(CommandKind::About)
    } else if name == "network-ban"@ {
        Some(CommandKind::NetworkBan)
    } else if name == "network-unban"@ {
        Some(CommandKind::NetworkUnban)
    } else {
        None
    }
}

/// The command registered under `name`, if any.
pub fn command_of(name: &str) -> (r: Option<CommandKind>)
    ensures
        r == command_spec(name@),
{
    let n = name.to_owned();
    if n == String::from_str("ping") {
        Some(CommandKind::Ping)
    } else if n == String::from_str("about") {
        Some(CommandKind::About)
    } else if n == String::from_str("network-ban") {
        Some(CommandKind::NetworkBan)
    } else if n == String::from_str("network-unban") {
        Some(CommandKind::NetworkUnban)
    } else {
        None
    }
}

/// A resolved option of a command invocation.
#[derive(Debug)]
pub enum OptionValue {
    /// A user of the platform.
    User { id: u64, bot: bool },
    /// A piece of text.
    Text(String),
    /// Any other kind of value.
    Other,
}

/// What `network-ban` did.
#[derive(Debug)]
pub enum BanOutcome {
    /// The option did not name a user.
    NoSuchUser,
    /// The user was banned already; the ban list is unchanged.
    AlreadyBanned,
    /// The user is now banned for `reason`.
    Banned { user: u64, reason: String },
}

/// What `network-unban` did.
#[derive(Clone, Copy, Debug, PartialEq, Eq, Structural)]
pub enum UnbanOutcome {
    /// The option did not name a user.
    NoSuchUser,
    /// The user was not banned; the ban list is unchanged.
    NotBanned,
    /// The user's ban is lifted.
    Unbanned { user: u64 },
}

/// Creation time, in whole seconds since the Unix epoch, of the platform
/// object with snowflake id `id`: the id's top 42 bits count milliseconds
/// since the start of 2015.
pub open spec fn snowflake_secs(id: u64) -> int {
    (id as int / 0x40_0000 + 1_420_070_400_000) / 1000
}

/// Relies on serenity's `InteractionId::created_at` and
/// `Timestamp::unix_timestamp`: when a snowflake id was created.
#[verifier::external_body]
fn created_at_secs(id: u64) -> (r: i64)
    ensures
        r == snowflake_secs(id),
{
    serenity::model::id::InteractionId(id).created_at().unix_timestamp()
}

/// The reason a ban is recorded with: the text of the option, or a
/// placeholder when the option holds no text.
pub open spec fn reason_spec(reason: OptionValue) -> Seq<char> {
    match reason {
        OptionValue::Text(s) => s@,
        _ => "Invalid reason"@,
    }
}

/// Runs `network-ban` for the `user` option with `reason`, issued by
/// `executor` from server `guild` in the interaction `interaction_id`,
/// which also dates the ban. Bot users may be banned too.
pub fn network_ban(
    bans: &mut BanList,
    user: &OptionValue,
    reason: &OptionValue,
    executor: u64,
    guild: u64,
    interaction_id: u64,
) -> (r: BanOutcome)
    ensures
        match *user {
            OptionValue::User { id, .. } => if old(bans)@.contains_key(id) {
                &&& r is AlreadyBanned
                &&& final(bans)@ == old(bans)@
            } else {
                &&& r matches BanOutcome::Banned { user: u, reason: text } && u == id && text@
                    == reason_spec(*reason)
                &&& final(bans)@.dom() == old(bans)@.dom().insert(id)
                &&& forall|k: u64| k != id && #[trigger] old(bans)@.contains_key(k) ==> final(bans)@[k]
                    == old(bans)@[k]
                &&& final(bans)@[id].reason@ == reason_spec(*reason)
                &&& final(bans)@[id].executor == executor
                &&& final(bans)@[id].ban_origin == guild
                &&& final(bans)@[id].timestamp == snowflake_secs(interaction_id)
            },
            _ => {
                &&& r is NoSuchUser
                &&& final(bans)@ == old(bans)@
            },
        },
{
    let id = match user {
        OptionValue::User { id, .. } => *id,
        _ => return BanOutcome::NoSuchUser,
    };
    if bans.is_banned(id) {
        return BanOutcome::AlreadyBanned;
    }
    let text = match reason {
        OptionValue::Text(s) => s.clone(),
        _ => String::from_str("Invalid reason"),
    };
    let entry = BanEntry {
        reason: text.clone(),
        executor,
        ban_origin: guild,
        timestamp: created_at_secs(interaction_id),
    };
    let res = bans.ban(id, entry);
    assert(res is Ok);
    BanOutcome::Banned { user: id, reason: text }
}

/// Runs `network-unban` for the `user` option.
pub fn network_unban(bans: &mut BanList, user: &OptionValue) -> (r: UnbanOutcome)
    ensures
        match *user {
            OptionValue::User { id, .. } => {
                &&& final(bans)@ == unban_spec(old(bans)@, id)
                &&& r == if old(bans)@.contains_key(id) {
                    UnbanOutcome::Unbanned { user: id }
                } else {
                    UnbanOutcome::NotBanned
                }
            },
            _ => {
                &&& r == UnbanOutcome::NoSuchUser
                &&& final(bans)@ == old(bans)@
            },
        },
{
    let id = match user {
        OptionValue::User { id, .. } => *id,
        _ => return UnbanOutcome::NoSuchUser,
    };
    match bans.unban(id) {
        Ok(_) => UnbanOutcome::Unbanned { user: id },
        Err(_) => UnbanOutcome::NotBanned,
    }
}

/// How the direct-message notice went, as the reply puts it.
pub open spec fn notified_spec(notified: bool) -> Seq<char> {
    if notified {
        "successfully notified"@
    } else {
        "unable to be notified"@
    }
}

/// The reply to the moderator who ran `network-ban`; `notified` says
/// whether the banned user could be told by direct message.
pub open spec fn ban_reply_spec(outcome: BanOutcome, notified: bool) -> Seq<char> {
    match outcome {
        BanOutcome::NoSuchUser => "The user provided does not exist."@,
        BanOutcome::AlreadyBanned =>
            "This user has already been banned. Are you looking for the `/network-unban` command?"@,
        BanOutcome::Banned { user, reason } => "Banned <@"@ + decimal(user as nat)
            + "> from the chat link with the reason: \""@ + reason@ + "\"\n\nThe user was "@
            + notified_spec(notified) + " by direct message."@,
    }
}

/// The reply to the moderator who ran `network-unban`.
pub open spec fn unban_reply_spec(outcome: UnbanOutcome, notified: bool) -> Seq<char> {
    match outcome {
        UnbanOutcome::NoSuchUser => "The user provided does not exist."@,
        UnbanOutcome::NotBanned =>
            "This user is not banned. Are you looking for the `/network-ban` command?"@,
        UnbanOutcome::Unbanned { user } => "Unbanned <@"@ + decimal(user as nat)
            + "> from the chat link.\n\nThe user was "@ + notified_spec(notified)
            + " by direct message."@,
    }
}

/// The direct message that tells a user of their ban and its reason.
pub open spec fn ban_notice_spec(reason: Seq<char>) -> Seq<char> {
    "You have been network banned by a moderator. This prevents your messages from being sent to other servers, but you can still read and sent messages in linked channels.\n\nThe moderators have provided a reason for your ban:\n\""@
        + reason + "\""@
}

fn notified_text(notified: bool) -> (r: &'static str)
    ensures
        r@ == notified_spec(notified),
{
    if notified {
        "successfully notified"
    } else {
        "unable to be notified"
    }
}

/// The reply to `network-ban`.
pub fn ban_reply(outcome: &BanOutcome, notified: bool) -> (r: String)
    ensures
        r@ == ban_reply_spec(*outcome, notified),
{
    match outcome {
        BanOutcome::NoSuchUser => String::from_str("The user provided does not exist."),
        BanOutcome::AlreadyBanned => String::from_str(
            "This user has already been banned. Are you looking for the `/network-unban` command?",
        ),
        BanOutcome::Banned { user, reason } => {
            let mut s = String::from_str("Banned <@");
            let id = decimal_string(*user);
            s.append(id.as_str());
            s.append("> from the chat link with the reason: \"");
            s.append(reason.as_str());
            s.append("\"\n\nThe user was ");
            s.append(notified_text(notified));
            s.append(" by direct message.");
            s
        },
    }
}

/// The reply to `network-unban`.
pub fn unban_reply(outcome: &UnbanOutcome, notified: bool) -> (r: String)
    ensures
        r@ == unban_reply_spec(*outcome, notified),
{
    match outcome {
        UnbanOutcome::NoSuchUser => String::from_str("The user provided does not exist."),
        UnbanOutcome::NotBanned => String::from_str(
            "This user is not banned. Are you looking for the `/network-ban` command?",
        ),
        UnbanOutcome::Unbanned { user } => {
            let mut s = String::from_str("Unbanned <@");
            let id = decimal_string(*user);
            s.append(id.as_str());
            s.append("> from the chat link.\n\nThe user was ");
            s.append(notified_text(notified));
            s.append(" by direct message.");
            s
        },
    }
}

/// The direct message to a user just banned for `reason`.
pub fn ban_notice(reason: &str) -> (r: String)
    ensures
        r@ == ban_notice_spec(reason@),
{
    let mut s = String::from_str(
        "You have been network banned by a moderator. This prevents your messages from being sent to other servers, but you can still read and sent messages in linked channels.\n\nThe moderators have provided a reason for your ban:\n\"",
    );
    s.append(reason);
    s.append("\"");
    s
}

} // verus!
