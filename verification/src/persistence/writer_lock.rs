//! Single-writer policy for file-backed SQLite databases: which databases take a
//! lock, where the lock file lives, and what a refused writer is told.

use vstd::prelude::*;

use crate::text::{
    concat2, decimal, decimal_string, ends_with, has_suffix, lower_seq, owned, push_str, str_eq,
    strip_prefix, to_lower, trim, trim_seq,
};

verus! {

/// Which MUDL front-end holds the database write lock.
#[derive(Debug, Clone, Copy, PartialEq, Eq, Structural)]
pub enum WriterMode {
    Repl,
    Irc,
    Slack,
}

impl WriterMode {
    pub open spec fn name(self) -> Seq<char> {
        match self {
            WriterMode::Repl => "repl"@,
            WriterMode::Irc => "irc"@,
            WriterMode::Slack => "slack"@,
        }
    }

    pub fn as_str(self) -> (r: &'static str)
        ensures
            r@ == self.name(),
    {
        match self {
            WriterMode::Repl => "repl",
            WriterMode::Irc => "irc",
            WriterMode::Slack => "slack",
        }
    }
}

/// Policy for enforcing one live writer per database file.
#[derive(Debug, Clone, PartialEq, Eq)]
pub struct WriterLockOptions {
    pub enabled: bool,
    pub mode: WriterMode,
}

impl WriterLockOptions {
    /// No lock at all.
    pub fn disabled() -> (r: Self)
        ensures
            !r.enabled,
            r.mode == WriterMode::Repl,
    {
        WriterLockOptions { enabled: false, mode: WriterMode::Repl }
    }
}

/// The mode a `MUDL_WRITER_MODE` setting names (trimmed, any ASCII case), else `default_mode`.
pub open spec fn mode_of(raw: Option<Seq<char>>, default_mode: WriterMode) -> WriterMode {
    match raw {
        Some(r) => {
            let m = lower_seq(trim_seq(r));
            if m == "irc"@ {
                WriterMode::Irc
            } else if m == "slack"@ {
                WriterMode::Slack
            } else if m == "repl"@ {
                WriterMode::Repl
            } else {
                default_mode
            }
        },
        None => default_mode,
    }
}

/// The writer mode of an optional `MUDL_WRITER_MODE` setting.
pub fn writer_mode_setting(raw: Option<&str>, default_mode: WriterMode) -> (r: WriterMode)
    ensures
        r == mode_of(
            match raw {
                Some(s) => Some(s@),
                None => None,
            },
            default_mode,
        ),
{
    match raw {
        Some(s) => {
            let lowered = to_lower(trim(s));
            let m = lowered.as_str();
            if str_eq(m, "irc") {
                WriterMode::Irc
            } else if str_eq(m, "slack") {
                WriterMode::Slack
            } else if str_eq(m, "repl") {
                WriterMode::Repl
            } else {
                default_mode
            }
        },
        None => default_mode,
    }
}

/// A boolean setting: `1/true/yes/on` or `0/false/no/off` (trimmed, any ASCII case),
/// else `default`.
pub open spec fn bool_setting_of(raw: Seq<char>, default: bool) -> bool {
    let t = lower_seq(trim_seq(raw));
    if t == "1"@ || t == "true"@ || t == "yes"@ || t == "on"@ {
        true
    } else if t == "0"@ || t == "false"@ || t == "no"@ || t == "off"@ {
        false
    } else {
        default
    }
}

/// Parse a boolean environment setting.
pub fn parse_bool_env(raw: &str, default: bool) -> (r: bool)
    ensures
        r == bool_setting_of(raw@, default),
{
    let lowered = to_lower(trim(raw));
    let t = lowered.as_str();
    if str_eq(t, "1") || str_eq(t, "true") || str_eq(t, "yes") || str_eq(t, "on") {
        true
    } else if str_eq(t, "0") || str_eq(t, "false") || str_eq(t, "no") || str_eq(t, "off") {
        false
    } else {
        default
    }
}

/// Metadata written into the lock file for operator diagnostics.
#[derive(Debug, Clone, PartialEq, Eq)]
pub struct WriterLockRecord {
    pub pid: u32,
    pub mode: WriterMode,
    pub database_url: String,
    pub started_at: String,
}

/// A writer refused because another one holds the lock.
#[derive(Debug, Clone, PartialEq, Eq)]
pub struct WriterLockError {
    pub database_url: String,
    /// The lock file's path (empty when none could be derived).
    pub lock_path: String,
    pub holder: Option<WriterLockRecord>,
}

impl WriterLockError {
    /// The text shown to a refused writer.
    pub open spec fn text(&self) -> Seq<char> {
        "database '"@ + self.database_url@ + "' is already open for writing"@ + match self.holder {
            Some(h) => " ("@ + h.mode.name() + " mode, pid "@ + decimal(h.pid as nat) + ", started "@
                + h.started_at@ + ")"@,
            None => Seq::empty(),
        } + ". Only one live writer (REPL, IRC, or Slack) may use the same DATABASE_URL at a time (SEC-23). Stop the other process, or set MUDL_SINGLE_WRITER_ENABLED=0 for local debugging."@
    }

    /// The error as text.
    pub fn message(&self) -> (r: String)
        ensures
            r@ == self.text(),
    {
        let mut s = owned("database '");
        push_str(&mut s, self.database_url.as_str());
        push_str(&mut s, "' is already open for writing");
        if let Some(h) = &self.holder {
            push_str(&mut s, " (");
            push_str(&mut s, h.mode.as_str());
            push_str(&mut s, " mode, pid ");
            push_str(&mut s, decimal_string(h.pid as u64).as_str());
            push_str(&mut s, ", started ");
            push_str(&mut s, h.started_at.as_str());
            push_str(&mut s, ")");
        }
        push_str(
            &mut s,
            ". Only one live writer (REPL, IRC, or Slack) may use the same DATABASE_URL at a time (SEC-23). Stop the other process, or set MUDL_SINGLE_WRITER_ENABLED=0 for local debugging.",
        );
        s
    }
}

/// Whether a database URL names an in-memory database.
pub open spec fn memory_url(url: Seq<char>) -> bool {
    url == ":memory:"@ || has_suffix(url, ":memory:"@)
}

pub fn is_memory_database(database_url: &str) -> (r: bool)
    ensures
        r == memory_url(database_url@),
{
    str_eq(database_url, ":memory:") || ends_with(database_url, ":memory:")
}

/// The file path a database URL names: without `sqlite://` or `sqlite:`.
pub open spec fn database_path(url: Seq<char>) -> Seq<char> {
    if crate::text::has_prefix(url, "sqlite://"@) {
        url.skip(9)
    } else if crate::text::has_prefix(url, "sqlite:"@) {
        url.skip(7)
    } else {
        url
    }
}

/// The file path of a file database, `None` for an in-memory one.
pub fn database_path_from_url(database_url: &str) -> (r: Option<String>)
    ensures
        memory_url(database_url@) ==> r is None,
        !memory_url(database_url@) ==> (r matches Some(p) && p@ == database_path(database_url@)),
{
    proof {
        reveal_strlit("sqlite://");
        reveal_strlit("sqlite:");
    }
    if is_memory_database(database_url) {
        return None;
    }
    let raw = match strip_prefix(database_url, "sqlite://") {
        Some(rest) => rest,
        None => match strip_prefix(database_url, "sqlite:") {
            Some(rest) => rest,
            None => database_url,
        },
    };
    Some(owned(raw))
}

/// The lock file of a file database: its path followed by `.writer.lock`.
pub fn lock_path_for_database_url(database_url: &str) -> (r: Option<String>)
    ensures
        memory_url(database_url@) ==> r is None,
        !memory_url(database_url@) ==> (r matches Some(p) && p@ == database_path(database_url@)
            + ".writer.lock"@),
{
    match database_path_from_url(database_url) {
        Some(p) => Some(concat2(p.as_str(), ".writer.lock")),
        None => None,
    }
}

} // verus!
