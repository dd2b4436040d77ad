//! What dispatching a command asks the IRC side to deliver.

use vstd::prelude::*;

use super::config::IrcConfig;
use super::nickserv::{
    help_lines, identify_account_line, identify_nick_command, identify_relay_ack, player_help_text,
    MANUAL_REGISTRATION_HINT,
};
use crate::text::{join, lines, owned, split_lines, str_eq, views};

verus! {

/// IRC routing instructions produced by command dispatch.
#[derive(Debug, Clone, PartialEq, Eq)]
pub struct DispatchOutcome {
    pub sender: String,
    pub to_sender: Vec<String>,
    pub private: Vec<(String, String)>,
    pub room_audience: Vec<RoomDelivery>,
    pub channel: Vec<(String, String)>,
    pub channel_sync: Option<ChannelSync>,
    /// NickServ PRIVMSG bodies relayed from the bot connection (`IDENTIFY nick pass`, etc.).
    pub nickserv_outbound: Vec<String>,
    pub persist: bool,
}

impl Default for DispatchOutcome {
    fn default() -> (r: Self)
        ensures
            r.sender@.len() == 0,
            r.to_sender@.len() == 0,
            r.private@.len() == 0,
            r.room_audience@.len() == 0,
            r.channel@.len() == 0,
            r.channel_sync is None,
            r.nickserv_outbound@.len() == 0,
            !r.persist,
    {
        DispatchOutcome {
            sender: String::new(),
            to_sender: Vec::new(),
            private: Vec::new(),
            room_audience: Vec::new(),
            channel: Vec::new(),
            channel_sync: None,
            nickserv_outbound: Vec::new(),
            persist: false,
        }
    }
}

/// Lines delivered to co-located players (excluding the speaker).
#[derive(Debug, Clone, PartialEq, Eq)]
pub struct RoomDelivery {
    pub audience: Vec<String>,
    pub lines: Vec<String>,
}

/// Join/part instructions for room channel membership.
#[derive(Debug, Clone, PartialEq, Eq)]
pub struct ChannelSync {
    pub nick: String,
    pub join: Vec<String>,
    pub part: Vec<String>,
}

/// `r` answers `sender` alone: nothing for other players, channels or
/// persistence.
pub open spec fn sender_only(r: DispatchOutcome, sender: String) -> bool {
    &&& r.sender == sender
    &&& r.private@.len() == 0
    &&& r.room_audience@.len() == 0
    &&& r.channel@.len() == 0
    &&& r.channel_sync is None
    &&& !r.persist
}

/// How to use `nickserv identify`.
pub open spec fn identify_usage() -> Seq<char> {
    "Usage: nickserv identify <password> (or /msg NickServ IDENTIFY <password>)"@
}

/// What `identify <password>` from a logged-out `nick` asks: the first
/// argument is the password; without one the sender gets the usage line,
/// with one the bot relays `IDENTIFY <nick> <password>` to NickServ and
/// acknowledges without repeating the password.
pub open spec fn identify_reply(nick: Seq<char>, args: Seq<Seq<char>>) -> (Seq<Seq<char>>, Seq<Seq<char>>) {
    if args.len() == 0 || args[0].len() == 0 {
        (seq![identify_usage()], Seq::empty())
    } else {
        (
            seq!["Identification request sent to NickServ. When the network confirms, try 'login' again."@],
            seq![identify_account_line(nick, args[0])],
        )
    }
}

fn one_line(s: String) -> (r: Vec<String>)
    ensures
        views(r@) == seq![s@],
{
    let r = vec![s];
    assert(views(r@) =~= seq![s@]);
    r
}

/// `identify <password>` (or `nickserv identify <password>`) from a player
/// who is not logged in.
pub fn dispatch_nickserv_identify(nick: &str, sender: String, args: &[String], _config: &IrcConfig) -> (r:
    DispatchOutcome)
    ensures
        sender_only(r, sender),
        (views(r.to_sender@), views(r.nickserv_outbound@)) == identify_reply(nick@, views(args@)),
{
    if args.len() == 0 || args[0].as_str().unicode_len() == 0 {
        let usage = "Usage: nickserv identify <password> (or /msg NickServ IDENTIFY <password>)";
        proof {
            reveal_strlit("Usage: nickserv identify <password> (or /msg NickServ IDENTIFY <password>)");
        }
        let to_sender = one_line(owned(usage));
        let nickserv_outbound: Vec<String> = Vec::new();
        assert(views(nickserv_outbound@) =~= Seq::<Seq<char>>::empty());
        return DispatchOutcome {
            sender,
            to_sender,
            private: Vec::new(),
            room_audience: Vec::new(),
            channel: Vec::new(),
            channel_sync: None,
            nickserv_outbound,
            persist: false,
        };
    }
    let to_sender = one_line(owned(identify_relay_ack()));
    let nickserv_outbound = one_line(identify_nick_command(nick, args[0].as_str()));
    DispatchOutcome {
        sender,
        to_sender,
        private: Vec::new(),
        room_audience: Vec::new(),
        channel: Vec::new(),
        channel_sync: None,
        nickserv_outbound,
        persist: false,
    }
}

/// What `nickserv <args>` from a logged-out player is answered: help (split
/// into lines) for no arguments, `help` or `?`; `identify` relays the rest;
/// `register` gets the manual-registration hint; anything else the help text
/// as one message.
pub open spec fn nickserv_logged_out_reply(nick: Seq<char>, args: Seq<Seq<char>>, strict: bool) -> (
    Seq<Seq<char>>,
    Seq<Seq<char>>,
) {
    if args.len() == 0 || args[0] == "help"@ || args[0] == "?"@ {
        (lines(join(help_lines(strict), "\n"@)), Seq::empty())
    } else if args[0] == "identify"@ {
        identify_reply(nick, args.skip(1))
    } else if args[0] == "register"@ {
        (seq![MANUAL_REGISTRATION_HINT@], Seq::empty())
    } else {
        (seq![join(help_lines(strict), "\n"@)], Seq::empty())
    }
}

/// `nickserv …` from a player who is not logged in.
pub fn dispatch_nickserv_logged_out(nick: &str, sender: String, args: &[String], config: &IrcConfig) -> (r:
    DispatchOutcome)
    ensures
        sender_only(r, sender),
        (views(r.to_sender@), views(r.nickserv_outbound@)) == nickserv_logged_out_reply(
            nick@,
            views(args@),
            config.identity_policy.strict(),
        ),
{
    let strict = config.identity_policy.is_strict();
    let empty: Vec<String> = Vec::new();
    assert(views(empty@) =~= Seq::<Seq<char>>::empty());
    let to_sender = if args.len() == 0 || str_eq(args[0].as_str(), "help") || str_eq(args[0].as_str(), "?") {
        split_lines(player_help_text(strict).as_str())
    } else if str_eq(args[0].as_str(), "identify") {
        let (_, rest) = args.split_at(1);
        assert(views(rest@) =~= views(args@).skip(1));
        return dispatch_nickserv_identify(nick, sender, rest, config);
    } else if str_eq(args[0].as_str(), "register") {
        one_line(owned(MANUAL_REGISTRATION_HINT))
    } else {
        one_line(player_help_text(strict))
    };
    DispatchOutcome {
        sender,
        to_sender,
        private: Vec::new(),
        room_audience: Vec::new(),
        channel: Vec::new(),
        channel_sync: None,
        nickserv_outbound: empty,
        persist: false,
    }
}

} // verus!
