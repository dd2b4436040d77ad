//! In-character and out-of-character social message formatting.

use vstd::prelude::*;

use super::nick::{nick_display, ooc_text, sanitize_nick_display, sanitize_ooc_text};
use crate::text::{owned, push_str};

verus! {

/// In-character speech visible to co-located players.
pub fn format_say(speaker: &str, text: &str) -> (r: String)
    ensures
        r@ == speaker@ + " says, \""@ + text@ + "\""@,
{
    let mut r = owned(speaker);
    push_str(&mut r, " says, \"");
    push_str(&mut r, text);
    push_str(&mut r, "\"");
    r
}

/// In-character emote visible to co-located players.
pub fn format_emote(speaker: &str, text: &str) -> (r: String)
    ensures
        r@ == speaker@ + " "@ + text@,
{
    let mut r = owned(speaker);
    push_str(&mut r, " ");
    push_str(&mut r, text);
    r
}

/// Private tell between two players.
pub fn format_tell(from: &str, text: &str) -> (r: String)
    ensures
        r@ == from@ + " tells you, \""@ + text@ + "\""@,
{
    let mut r = owned(from);
    push_str(&mut r, " tells you, \"");
    push_str(&mut r, text);
    push_str(&mut r, "\"");
    r
}

/// Confirmation shown to the tell sender.
pub fn format_tell_sent(to: &str, text: &str) -> (r: String)
    ensures
        r@ == "You tell "@ + to@ + ", \""@ + text@ + "\""@,
{
    let mut r = owned("You tell ");
    push_str(&mut r, to);
    push_str(&mut r, ", \"");
    push_str(&mut r, text);
    push_str(&mut r, "\"");
    r
}

/// Out-of-character speech on the world channel.
///
/// Speaker and body are sanitized — no embedded newlines or control characters.
pub fn format_ooc(speaker: &str, text: &str) -> (r: String)
    ensures
        r@ == "[OOC] "@ + nick_display(speaker@) + ": "@ + ooc_text(text@),
{
    let speaker = sanitize_nick_display(speaker);
    let text = sanitize_ooc_text(text);
    let mut r = owned("[OOC] ");
    push_str(&mut r, speaker.as_str());
    push_str(&mut r, ": ");
    push_str(&mut r, text.as_str());
    r
}

} // verus!
