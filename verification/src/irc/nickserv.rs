//! NickServ IDENTIFY helpers for bot startup and player relay.
//!
//! Nick registration is a one-time manual step in your IRC client (`/msg NickServ REGISTER …`).
//! The bot only auto-IDENTIFYs on connect and relays player IDENTIFY on request.

use vstd::prelude::*;

use crate::text::{
    contains, contains_seq, join, join_all, lower_seq, owned, push_str, split_char, split_on,
    to_lower, trim, trim_seq, views,
};

verus! {

/// Runtime NickServ settings (bot credentials and service nick).
#[derive(Debug, Clone, PartialEq, Eq)]
pub struct IrcNickServConfig {
    /// NickServ service nick (usually `NickServ`).
    pub service: String,
    /// Registered NickServ account name when it differs from the connection nick.
    pub account: Option<String>,
    /// Bot account password — sent as `IDENTIFY` during IRC registration.
    pub password: Option<String>,
}

impl Default for IrcNickServConfig {
    fn default() -> (r: Self)
        ensures
            r.service@ == "NickServ"@,
            r.account is None,
            r.password is None,
    {
        IrcNickServConfig { service: owned("NickServ"), account: None, password: None }
    }
}

impl IrcNickServConfig {
    pub fn is_configured(&self) -> (r: bool)
        ensures
            r == self.password is Some,
    {
        self.password.is_some()
    }

    /// Outbound NickServ line for the bot during IRC registration (before `001`).
    pub fn bot_identify_command(&self) -> (r: Option<String>)
        ensures
            r is Some <==> self.password is Some,
            r matches Some(c) ==> c@ == match self.account {
                Some(a) => identify_account_line(a@, self.password.unwrap()@),
                None => identify_line(self.password.unwrap()@),
            },
    {
        let password = match &self.password {
            Some(p) => p.as_str(),
            None => return None,
        };
        Some(
            match &self.account {
                Some(account) => identify_account_command(account.as_str(), password),
                None => identify_bot_command(password),
            },
        )
    }
}

pub open spec fn identify_line(password: Seq<char>) -> Seq<char> {
    "IDENTIFY "@ + password
}

pub open spec fn identify_account_line(account: Seq<char>, password: Seq<char>) -> Seq<char> {
    "IDENTIFY "@ + account + " "@ + password
}

/// `IDENTIFY <password>` — identifies the current connection nick (bot startup).
pub fn identify_bot_command(password: &str) -> (r: String)
    ensures
        r@ == identify_line(password@),
{
    let mut r = owned("IDENTIFY ");
    push_str(&mut r, password);
    r
}

/// `IDENTIFY <account> <password>` — identify a registered account from another nick.
pub fn identify_account_command(account: &str, password: &str) -> (r: String)
    ensures
        r@ == identify_account_line(account@, password@),
{
    let mut r = owned("IDENTIFY ");
    push_str(&mut r, account);
    push_str(&mut r, " ");
    push_str(&mut r, password);
    r
}

/// `IDENTIFY <nick> <password>` — identify a player nick via bot relay.
pub fn identify_nick_command(nick: &str, password: &str) -> (r: String)
    ensures
        r@ == identify_account_line(nick@, password@),
{
    identify_account_command(nick, password)
}

/// One-time manual registration — not a bot command; use your IRC client.
pub const MANUAL_REGISTRATION_HINT: &'static str =
    "Register your nick once in your IRC client: /msg NickServ REGISTER <password> <email>";

/// The lines of the player-facing NickServ help.
pub open spec fn help_lines(strict_identity: bool) -> Seq<Seq<char>> {
    seq![
        MANUAL_REGISTRATION_HINT@,
        Seq::empty(),
        "Bot commands (password is not echoed back):"@,
        "  nickserv identify <password>  — identify your IRC nick"@,
        "  nickserv help  — this summary"@,
        Seq::empty(),
        "Or in your IRC client:"@,
        "  /msg NickServ IDENTIFY <password>"@,
    ] + if strict_identity {
        seq![
            Seq::empty(),
            "This network requires an identified account before MUDL commands. Identify first, then 'login'."@,
        ]
    } else {
        Seq::empty()
    }
}

/// Player-facing help for NickServ (passwords never echoed).
pub fn player_help_text(strict_identity: bool) -> (r: String)
    ensures
        r@ == join(help_lines(strict_identity), "\n"@),
{
    let mut lines: Vec<String> = Vec::new();
    lines.push(owned(MANUAL_REGISTRATION_HINT));
    lines.push(String::new());
    lines.push(owned("Bot commands (password is not echoed back):"));
    lines.push(owned("  nickserv identify <password>  — identify your IRC nick"));
    lines.push(owned("  nickserv help  — this summary"));
    lines.push(String::new());
    lines.push(owned("Or in your IRC client:"));
    lines.push(owned("  /msg NickServ IDENTIFY <password>"));
    if strict_identity {
        lines.push(String::new());
        lines.push(
            owned(
                "This network requires an identified account before MUDL commands. Identify first, then 'login'.",
            ),
        );
    }
    assert(views(lines@) =~= help_lines(strict_identity));
    join_all(&lines, "\n")
}

/// Generic ack after relaying IDENTIFY (password not repeated).
pub fn identify_relay_ack() -> (r: &'static str)
    ensures
        r@ == "Identification request sent to NickServ. When the network confirms, try 'login' again."@,
{
    "Identification request sent to NickServ. When the network confirms, try 'login' again."
}

/// Parsed NickServ feedback lines (NOTICE or PRIVMSG body).
#[derive(Debug, Clone, PartialEq, Eq)]
pub enum NickServNotice {
    Identified { nick: Option<String> },
    InvalidPassword,
    Other(String),
}

/// The text between the first pair of single quotes, trimmed, when not empty.
pub open spec fn quoted_nick(text: Seq<char>) -> Option<Seq<char>> {
    let parts = split_char(text, '\'');
    if parts.len() > 1 && trim_seq(parts[1]).len() > 0 {
        Some(trim_seq(parts[1]))
    } else {
        None
    }
}

/// Whether a reply reports a successful identification.
pub open spec fn reports_identified(lower: Seq<char>) -> bool {
    contains_seq(lower, "password accepted"@) || contains_seq(lower, "you are now identified"@)
        || contains_seq(lower, "successfully identified"@) || contains_seq(lower, "now recognized"@)
}

/// Whether a reply reports a rejected password.
pub open spec fn reports_bad_password(lower: Seq<char>) -> bool {
    contains_seq(lower, "invalid password"@) || contains_seq(lower, "authentication failed"@)
        || contains_seq(lower, "incorrect password"@)
}

fn extract_quoted_nick(text: &str) -> (r: Option<String>)
    ensures
        match r {
            Some(n) => quoted_nick(text@) == Some(n@),
            None => quoted_nick(text@) is None,
        },
{
    let parts = split_on(text, '\'');
    if parts.len() > 1 {
        let t = trim(parts[1].as_str());
        if t.unicode_len() > 0 {
            return Some(owned(t));
        }
    }
    None
}

/// Classify common NickServ/Atheme replies for session hints.
pub fn parse_nickserv_reply(text: &str) -> (r: NickServNotice)
    ensures
        reports_identified(lower_seq(text@)) ==> (r matches NickServNotice::Identified { nick } && match nick {
            Some(n) => quoted_nick(text@) == Some(n@),
            None => quoted_nick(text@) is None,
        }),
        !reports_identified(lower_seq(text@)) && reports_bad_password(lower_seq(text@)) ==> r
            is InvalidPassword,
        !reports_identified(lower_seq(text@)) && !reports_bad_password(lower_seq(text@)) ==> (r matches NickServNotice::Other(t) && t@ == text@),
{
    let lower = to_lower(text);
    let l = lower.as_str();
    if contains(l, "password accepted") || contains(l, "you are now identified") || contains(
        l,
        "successfully identified",
    ) || contains(l, "now recognized") {
        let nick = extract_quoted_nick(text);
        return NickServNotice::Identified { nick };
    }
    if contains(l, "invalid password") || contains(l, "authentication failed") || contains(
        l,
        "incorrect password",
    ) {
        return NickServNotice::InvalidPassword;
    }
    NickServNotice::Other(owned(text))
}

/// An optional setting: trimmed, and `None` when nothing is left.
pub open spec fn optional_setting(raw: Option<Seq<char>>) -> Option<Seq<char>> {
    match raw {
        Some(v) => if trim_seq(v).len() > 0 {
            Some(trim_seq(v))
        } else {
            None
        },
        None => None,
    }
}

fn read_optional(raw: Option<&str>) -> (r: Option<String>)
    ensures
        match r {
            Some(s) => optional_setting(match raw {
                Some(x) => Some(x@),
                None => None,
            }) == Some(s@),
            None => optional_setting(match raw {
                Some(x) => Some(x@),
                None => None,
            }) is None,
        },
{
    match raw {
        Some(v) => {
            let t = trim(v);
            if t.unicode_len() > 0 {
                Some(owned(t))
            } else {
                None
            }
        },
        None => None,
    }
}

impl IrcNickServConfig {
    /// The NickServ settings that `IRC_NICKSERV_SERVICE`, `IRC_NICKSERV_ACCOUNT`
    /// and the bot password describe (each `None` when unset): the service is
    /// `NickServ` unless set; account and password are trimmed, and dropped
    /// when blank.
    pub fn from_settings(service: Option<&str>, account: Option<&str>, password: Option<&str>) -> (r: Self)
        ensures
            r.service@ == match service {
                Some(s) => s@,
                None => "NickServ"@,
            },
            match r.account {
                Some(a) => optional_setting(match account {
                    Some(x) => Some(x@),
                    None => None,
                }) == Some(a@),
                None => optional_setting(match account {
                    Some(x) => Some(x@),
                    None => None,
                }) is None,
            },
            match r.password {
                Some(p) => optional_setting(match password {
                    Some(x) => Some(x@),
                    None => None,
                }) == Some(p@),
                None => optional_setting(match password {
                    Some(x) => Some(x@),
                    None => None,
                }) is None,
            },
    {
        IrcNickServConfig {
            service: match service {
                Some(s) => owned(s),
                None => owned("NickServ"),
            },
            account: read_optional(account),
            password: read_optional(password),
        }
    }
}

} // verus!
