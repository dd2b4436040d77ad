//! IRC command input normalization — client prefixes and nick canonicalization.

use vstd::prelude::*;

use crate::text::{
    eq_ignore_case, has_prefix, join, join_from, lower_seq, owned, split_words, strip_prefix, trim,
    trim_seq, views, words,
};

verus! {

/// The command a player typed, without a `/msg <bot>` or `/query <bot>` prefix.
pub open spec fn command_input(input: Seq<char>, bot: Seq<char>) -> Seq<char> {
    let t = trim_seq(input);
    if !has_prefix(t, "/"@) {
        t
    } else {
        let ws = words(t.subrange("/"@.len() as int, t.len() as int));
        let verb = if ws.len() > 0 { ws[0] } else { Seq::empty() };
        if lower_seq(verb) != lower_seq("msg"@) && lower_seq(verb) != lower_seq("query"@) {
            t
        } else if ws.len() < 2 {
            t
        } else if lower_seq(ws[1]) != lower_seq(bot) {
            t
        } else {
            join(ws.subrange(2, ws.len() as int), " "@)
        }
    }
}

/// Strip common IRC client prefixes so pasted commands work in mock mode and tests.
///
/// Accepts `/msg mudl look`, `/query mudl inventory`, and plain `look`.
pub fn normalize_irc_command_input(input: &str, bot_nick: &str) -> (r: String)
    ensures
        r@ == command_input(input@, bot_nick@),
{
    let trimmed = trim(input);
    let rest = match strip_prefix(trimmed, "/") {
        Some(rest) => rest,
        None => return owned(trimmed),
    };
    let parts = split_words(rest);
    let verb: &str = if parts.len() > 0 {
        parts[0].as_str()
    } else {
        ""
    };
    assert(verb@ == (if words(rest@).len() > 0 { words(rest@)[0] } else { Seq::<char>::empty() })) by {
        reveal_strlit("");
    }
    if !eq_ignore_case(verb, "msg") && !eq_ignore_case(verb, "query") {
        return owned(trimmed);
    }
    if parts.len() < 2 {
        return owned(trimmed);
    }
    if !eq_ignore_case(parts[1].as_str(), bot_nick) {
        return owned(trimmed);
    }
    join_from(&parts, 2, " ")
}

} // verus!
