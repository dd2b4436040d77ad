//! IRC bot configuration values and the parsing of their textual settings.

use vstd::prelude::*;

use super::identity::IrcIdentityPolicy;
use super::nickserv::IrcNickServConfig;
use super::reconnect::IrcReconnectConfig;
use crate::text::{
    concat2, decimal, decimal_string, has_prefix, lower_seq, owned, parse_u64, parse_unsigned,
    push_str, starts_with, str_eq, to_lower, trim, trim_seq,
};

verus! {

/// Story (per-room channels) or open-world (one shared channel) play.
#[derive(Debug, Clone, Copy, PartialEq, Eq)]
pub enum PlayMode {
    Story,
    Open,
}

/// Runtime settings for the MUDL IRC gateway.
///
/// Defaults assume an **IRCv3-capable server over TLS** (port 6697).
#[derive(Debug, Clone, PartialEq)]
pub struct IrcConfig {
    /// IRC server hostname (used for TLS SNI and TCP connect).
    pub server: String,
    /// IRC server port (`6697` for TLS, `6667` for plaintext).
    pub port: u16,
    /// Connect with TLS (recommended; required by most public networks).
    pub tls: bool,
    /// Negotiate IRCv3 capabilities during registration (`CAP LS 302`).
    pub ircv3: bool,
    /// Bot nickname on the IRC network.
    pub bot_nick: String,
    /// `USER` realname gecos field.
    pub realname: String,
    /// Global out-of-character channel (e.g. `#mudl`).
    pub world_channel: String,
    /// Prefix for per-room channels (`#mudl-void-001` when prefix is `#mudl-`).
    pub room_channel_prefix: String,
    /// SQLite database URL shared with the REPL.
    pub database_url: String,
    /// Default player object used when bootstrapping an empty world.
    pub default_player: String,
    /// Optional IRC account-tag verification.
    pub identity_policy: IrcIdentityPolicy,
    /// NickServ auto-IDENTIFY for bot startup and player relay.
    pub nickserv: IrcNickServConfig,
    /// Story vs open-world visibility and channel routing.
    pub play_mode: PlayMode,
    /// TCP/TLS connect timeout in seconds.
    pub connect_timeout_secs: u64,
    /// Per-line read timeout while waiting on the server.
    pub read_timeout_secs: u64,
    /// Max seconds to wait for `001` welcome during registration.
    pub registration_timeout_secs: u64,
    /// Automatic reconnect with exponential backoff after transport loss.
    pub reconnect: IrcReconnectConfig,
}

impl Default for IrcConfig {
    fn default() -> (r: Self)
        ensures
            r.server@ == "irc.libera.chat"@,
            r.port == 6697,
            r.tls,
            r.ircv3,
            r.bot_nick@ == "mudl"@,
            r.realname@ == "MUDL Bot"@,
            r.world_channel@ == "#mudl"@,
            r.room_channel_prefix@ == "#mudl-"@,
            r.database_url@ == "sqlite://mudl.db"@,
            r.default_player@ == "player:admin-001"@,
            !r.identity_policy.require_account_tag,
            r.identity_policy.account_bindings@.len() == 0,
            r.nickserv.service@ == "NickServ"@,
            r.nickserv.account is None,
            r.nickserv.password is None,
            r.play_mode == PlayMode::Story,
            r.connect_timeout_secs == 30,
            r.read_timeout_secs == 120,
            r.registration_timeout_secs == 90,
            r.reconnect.enabled,
            r.reconnect.initial_secs == 5,
            r.reconnect.max_secs == 300,
            r.reconnect.max_attempts == 0,
    {
        IrcConfig {
            server: owned("irc.libera.chat"),
            port: 6697,
            tls: true,
            ircv3: true,
            bot_nick: owned("mudl"),
            realname: owned("MUDL Bot"),
            world_channel: owned("#mudl"),
            room_channel_prefix: owned("#mudl-"),
            database_url: owned("sqlite://mudl.db"),
            default_player: owned("player:admin-001"),
            identity_policy: IrcIdentityPolicy::default(),
            nickserv: IrcNickServConfig::default(),
            play_mode: PlayMode::Story,
            connect_timeout_secs: 30,
            read_timeout_secs: 120,
            registration_timeout_secs: 90,
            reconnect: IrcReconnectConfig::default(),
        }
    }
}

/// `host:port (tls|plain, ircv3|legacy)`.
pub open spec fn summary_of(server: Seq<char>, port: u16, tls: bool, ircv3: bool) -> Seq<char> {
    server + ":"@ + decimal(port as nat) + " ("@ + (if tls {
        "tls"@
    } else {
        "plain"@
    }) + ", "@ + (if ircv3 {
        "ircv3"@
    } else {
        "legacy"@
    }) + ")"@
}

impl IrcConfig {
    /// Human-readable connection summary for logs.
    pub fn connection_summary(&self) -> (r: String)
        ensures
            r@ == summary_of(self.server@, self.port, self.tls, self.ircv3),
    {
        let security = if self.tls {
            "tls"
        } else {
            "plain"
        };
        let caps = if self.ircv3 {
            "ircv3"
        } else {
            "legacy"
        };
        let mut r = self.server.clone();
        push_str(&mut r, ":");
        let port = decimal_string(self.port as u64);
        push_str(&mut r, port.as_str());
        push_str(&mut r, " (");
        push_str(&mut r, security);
        push_str(&mut r, ", ");
        push_str(&mut r, caps);
        push_str(&mut r, ")");
        r
    }
}

/// A positive whole-second setting, or `default` when missing or invalid.
pub open spec fn seconds_setting(raw: Option<Seq<char>>, default: u64) -> u64 {
    match raw {
        Some(s) => match parse_unsigned(trim_seq(s), u64::MAX as nat) {
            Some(v) => if v > 0 {
                v as u64
            } else {
                default
            },
            None => default,
        },
        None => default,
    }
}

/// Read a positive whole-second setting.
pub fn parse_u64_env(raw: Option<&str>, default: u64) -> (r: u64)
    ensures
        r == seconds_setting(
            match raw {
                Some(s) => Some(s@),
                None => None,
            },
            default,
        ),
{
    match raw {
        Some(s) => match parse_u64(trim(s)) {
            Some(v) => if v > 0 {
                v
            } else {
                default
            },
            None => default,
        },
        None => default,
    }
}

/// An on/off setting: `1/true/yes/on` and `0/false/no/off`, case-insensitively.
pub open spec fn bool_setting(raw: Seq<char>, default: bool) -> bool {
    let v = lower_seq(trim_seq(raw));
    if v == "1"@ || v == "true"@ || v == "yes"@ || v == "on"@ {
        true
    } else if v == "0"@ || v == "false"@ || v == "no"@ || v == "off"@ {
        false
    } else {
        default
    }
}

/// Read an on/off setting.
pub fn parse_bool(raw: &str, default: bool) -> (r: bool)
    ensures
        r == bool_setting(raw@, default),
{
    let v = to_lower(trim(raw));
    let v = v.as_str();
    if str_eq(v, "1") || str_eq(v, "true") || str_eq(v, "yes") || str_eq(v, "on") {
        true
    } else if str_eq(v, "0") || str_eq(v, "false") || str_eq(v, "no") || str_eq(v, "off") {
        false
    } else {
        default
    }
}

/// A channel name: trimmed, with a leading `#` added when missing.
pub open spec fn channel_name(raw: Seq<char>) -> Seq<char> {
    let t = trim_seq(raw);
    if has_prefix(t, "#"@) {
        t
    } else {
        "#"@ + t
    }
}

/// A room channel prefix: trimmed; a bare word `w` becomes `#w-`.
pub open spec fn channel_prefix(raw: Seq<char>) -> Seq<char> {
    let t = trim_seq(raw);
    if has_prefix(t, "#"@) {
        t
    } else {
        "#"@ + t + "-"@
    }
}

pub fn normalize_channel_name(raw: &str) -> (r: String)
    ensures
        r@ == channel_name(raw@),
{
    let trimmed = trim(raw);
    if starts_with(trimmed, "#") {
        owned(trimmed)
    } else {
        concat2("#", trimmed)
    }
}

pub fn normalize_channel_prefix(raw: &str) -> (r: String)
    ensures
        r@ == channel_prefix(raw@),
{
    let trimmed = trim(raw);
    if starts_with(trimmed, "#") {
        owned(trimmed)
    } else {
        let mut r = concat2("#", trimmed);
        push_str(&mut r, "-");
        r
    }
}

} // verus!
