//! Text pieces of relayed posts: decimal ids, message links and the short
//! excerpt shown in a reply quote.

use vstd::prelude::*;

verus! {

/// The most characters of a replied-to message that a quote shows.
pub const QUOTE_CHARS: usize = 30;

/// The character of decimal digit `d`.
pub open spec fn digit_char(d: nat) -> char {
    if d == 0 {
        '0'
    } else if d == 1 {
        '1'
    } else if d == 2 {
        '2'
    } else if d == 3 {
        '3'
    } else if d == 4 {
        '4'
    } else if d == 5 {
        '5'
    } else if d == 6 {
        '6'
    } else if d == 7 {
        '7'
    } else if d == 8 {
        '8'
    } else {
        '9'
    }
}

/// `n` written in decimal, without leading zeros.
pub open spec fn decimal(n: nat) -> Seq<char>
    decreases n,
{
    if n < 10 {
        seq![digit_char(n)]
    } else {
        decimal(n / 10).push(digit_char(n % 10))
    }
}

/// The link that jumps to message `message_id` in `channel_id`, in server
/// `guild_id` or, without one, among private channels.
pub open spec fn jump_link(message_id: u64, channel_id: u64, guild_id: Option<u64>) -> Seq<char> {
    let place = match guild_id {
        Some(g) => decimal(g as nat),
        None => seq!['@', 'm', 'e'],
    };
    "https://discord.com/channels/"@ + place + seq!['/'] + decimal(channel_id as nat) + seq!['/']
        + decimal(message_id as nat)
}

/// Whether a character is kept in a quote excerpt.
pub open spec fn kept_in_excerpt(c: char) -> bool {
    c != '\n'
}

/// The excerpt of `s` shown in a quote: its first characters with line
/// breaks dropped, and an ellipsis when `s` is longer than that.
pub open spec fn excerpt_spec(s: Seq<char>) -> Seq<char> {
    let head = if s.len() > QUOTE_CHARS {
        s.subrange(0, QUOTE_CHARS as int)
    } else {
        s
    };
    let shown = head.filter(|c: char| kept_in_excerpt(c));
    if s.len() > QUOTE_CHARS {
        shown + "..."@
    } else {
        shown
    }
}

/// The one-character string of decimal digit `d`.
fn digit_str(d: u64) -> (r: &'static str)
    requires
        d < 10,
    ensures
        r@ == seq![digit_char(d as nat)],
{
    proof {
        reveal_strlit("0");
        reveal_strlit("1");
        reveal_strlit("2");
        reveal_strlit("3");
        reveal_strlit("4");
        reveal_strlit("5");
        reveal_strlit("6");
        reveal_strlit("7");
        reveal_strlit("8");
        reveal_strlit("9");
    }
    if d == 0 {
        "0"
    } else if d == 1 {
        "1"
    } else if d == 2 {
        "2"
    } else if d == 3 {
        "3"
    } else if d == 4 {
        "4"
    } else if d == 5 {
        "5"
    } else if d == 6 {
        "6"
    } else if d == 7 {
        "7"
    } else if d == 8 {
        "8"
    } else {
        "9"
    }
}

/// `n` in decimal.
pub fn decimal_string(n: u64) -> (r: String)
    ensures
        r@ == decimal(n as nat),
    decreases n,
{
    if n < 10 {
        String::from_str(digit_str(n))
    } else {
        let mut s = decimal_string(n / 10);
        s.append(digit_str(n % 10));
        s
    }
}

/// Relies on serenity's `MessageId::link`: the jump link of a message,
/// `https://discord.com/channels/{guild or @me}/{channel}/{message}` with
/// each id in decimal.
#[verifier::external_body]
pub(crate) fn message_link(message_id: u64, channel_id: u64, guild_id: Option<u64>) -> (r: String)
    ensures
        r@ == jump_link(message_id, channel_id, guild_id),
{
    serenity::model::id::MessageId(message_id).link(
        serenity::model::id::ChannelId(channel_id),
        guild_id.map(serenity::model::id::GuildId),
    )
}

/// The quote excerpt of `s`.
pub fn excerpt(s: &str) -> (r: String)
    ensures
        r@ == excerpt_spec(s@),
{
    let n = s.unicode_len();
    let end: usize = if n > QUOTE_CHARS {
        QUOTE_CHARS
    } else {
        n
    };
    let ghost head = s@.subrange(0, end as int);
    let mut out = String::new();
    let mut i: usize = 0;
    while i < end
        invariant
            n == s@.len(),
            end <= n,
            i <= end,
            head == s@.subrange(0, end as int),
            out@ == s@.subrange(0, i as int).filter(|c: char| kept_in_excerpt(c)),
        decreases end - i,
    {
        let c = s.get_char(i);
        let piece = s.substring_char(i, i + 1);
        proof {
            assert(s@.subrange(0, i + 1).drop_last() =~= s@.subrange(0, i as int));
            assert(s@.subrange(0, i + 1).last() == c);
            assert(piece@ =~= seq![c]);
            reveal(Seq::filter);
        }
        if c != '\n' {
            out.append(piece);
        }
        i = i + 1;
    }
    proof {
        if n > QUOTE_CHARS {
            assert(head == s@.subrange(0, QUOTE_CHARS as int));
        } else {
            assert(head =~= s@);
        }
    }
    if n > QUOTE_CHARS {
        out.append("...");
    }
    out
}

} // verus!
