//! IRCv3 capability negotiation during server registration.

use vstd::prelude::*;

use super::message::{format_outgoing, outgoing};
use crate::text::{contains, contains_seq, has_prefix, join, join_all, split_words, str_eq, views, words};

verus! {

/// IRCv3 capabilities requested from the server (see https://ircv3.net).
pub fn ircv3_capabilities() -> (r: Vec<&'static str>)
    ensures
        r@.map_values(|c: &str| c@) == seq![
            "cap-notify"@,
            "server-time"@,
            "message-tags"@,
            "echo-message"@,
            "batch"@,
            "labeled-response"@,
            "account-tag"@,
        ],
{
    let r = vec![
        "cap-notify",
        "server-time",
        "message-tags",
        "echo-message",
        "batch",
        "labeled-response",
        "account-tag",
    ];
    assert(r@.map_values(|c: &str| c@) =~= seq![
        "cap-notify"@,
        "server-time"@,
        "message-tags"@,
        "echo-message"@,
        "batch"@,
        "labeled-response"@,
        "account-tag"@,
    ]);
    r
}

/// Whether an incoming server line completes a `CAP * LS` multiline advertisement.
pub fn cap_ls_complete(line: &str) -> (r: bool)
    ensures
        r == (contains_seq(line@, " CAP "@) && contains_seq(line@, " LS "@) && !contains_seq(
            line@,
            " LS * "@,
        )),
{
    contains(line, " CAP ") && contains(line, " LS ") && !contains(line, " LS * ")
}

/// The registration lines sent before `CAP END`.
pub open spec fn registration_lines(nick: Seq<char>, realname: Seq<char>, ircv3: bool) -> Seq<
    Seq<char>,
> {
    (if ircv3 {
        seq![outgoing("CAP"@, seq!["LS"@, "302"@], None)]
    } else {
        Seq::empty()
    }) + seq![
        outgoing("NICK"@, seq![nick], None),
        outgoing("USER"@, seq![nick, "0"@, "*"@], Some(realname)),
    ]
}

/// Outgoing lines to begin IRC registration (before `CAP END`).
pub fn registration_commands(nick: &str, realname: &str, ircv3: bool) -> (r: Vec<String>)
    ensures
        views(r@) == registration_lines(nick@, realname@, ircv3),
{
    let mut lines: Vec<String> = Vec::new();
    if ircv3 {
        let ls = vec!["LS", "302"];
        assert(ls@.map_values(|x: &str| x@) =~= seq!["LS"@, "302"@]);
        lines.push(format_outgoing("CAP", ls.as_slice(), None));
    }
    let n = vec![nick];
    assert(n@.map_values(|x: &str| x@) =~= seq![nick@]);
    lines.push(format_outgoing("NICK", n.as_slice(), None));
    let u = vec![nick, "0", "*"];
    assert(u@.map_values(|x: &str| x@) =~= seq![nick@, "0"@, "*"@]);
    lines.push(format_outgoing("USER", u.as_slice(), Some(realname)));
    assert(views(lines@) =~= registration_lines(nick@, realname@, ircv3));
    lines
}

/// `CAP REQ` for the IRCv3 capability set.
pub fn cap_request_command() -> (r: String)
    ensures
        r@ == outgoing(
            "CAP"@,
            seq!["REQ"@],
            Some(
                join(
                    seq![
                        "cap-notify"@,
                        "server-time"@,
                        "message-tags"@,
                        "echo-message"@,
                        "batch"@,
                        "labeled-response"@,
                        "account-tag"@,
                    ],
                    " "@,
                ),
            ),
        ),
{
    let caps = ircv3_capabilities();
    let mut owned_caps: Vec<String> = Vec::new();
    let mut i: usize = 0;
    while i < caps.len()
        invariant
            0 <= i <= caps.len(),
            views(owned_caps@) =~= caps@.map_values(|c: &str| c@).take(i as int),
        decreases caps.len() - i,
    {
        let ghost before = views(owned_caps@);
        owned_caps.push(crate::text::owned(caps[i]));
        assert(views(owned_caps@) =~= before.push(caps@[i as int]@));
        i += 1;
    }
    assert(caps@.map_values(|c: &str| c@).take(caps@.len() as int) =~= caps@.map_values(
        |c: &str| c@,
    ));
    let joined = join_all(&owned_caps, " ");
    let req = vec!["REQ"];
    assert(req@.map_values(|x: &str| x@) =~= seq!["REQ"@]);
    format_outgoing("CAP", req.as_slice(), Some(joined.as_str()))
}

/// `CAP END` — finish capability negotiation and complete registration.
pub fn cap_end_command() -> (r: String)
    ensures
        r@ == outgoing("CAP"@, seq!["END"@], None),
{
    let end = vec!["END"];
    assert(end@.map_values(|x: &str| x@) =~= seq!["END"@]);
    format_outgoing("CAP", end.as_slice(), None)
}

/// Whether the server welcomed us (RPL 001): the second word of a prefixed line is `001`.
pub open spec fn welcome_line(line: Seq<char>) -> bool {
    has_prefix(line, ":"@) && words(line).len() > 1 && words(line)[1] == "001"@
}

/// Whether the server welcomed us (RPL 001).
pub fn is_welcome(line: &str) -> (r: bool)
    ensures
        r == welcome_line(line@),
{
    if !crate::text::starts_with(line, ":") {
        return false;
    }
    let parts = split_words(line);
    parts.len() > 1 && str_eq(parts[1].as_str(), "001")
}

} // verus!
