//! MUDL `@trigger` definitions — attach scripted events to places and objects.

use vstd::prelude::*;

use super::lines::{find_ws, first_ws};
use crate::text::{lower_case_of, owned, str_to_lowercase, trim, trim_seq};

verus! {

/// A single trigger script bound to an event name (`on_enter`, `on_break`, etc.).
#[derive(Debug, Clone, PartialEq, Eq)]
pub struct TriggerDef {
    pub event: String,
    pub code: String,
}

/// A trigger's event name and script.
pub struct TriggerDefView {
    pub event: Seq<char>,
    pub code: Seq<char>,
}

impl View for TriggerDef {
    type V = TriggerDefView;

    open spec fn view(&self) -> TriggerDefView {
        TriggerDefView { event: self.event@, code: self.code@ }
    }
}

/// `<event> <script>`: the event (in lower case) is the first word, the script
/// the trimmed rest; both must be non-empty.
pub open spec fn trigger_of(rest: Seq<char>) -> Option<TriggerDefView> {
    let t = trim_seq(rest);
    match first_ws(t) {
        None => None,
        Some(i) => {
            let event = lower_case_of(trim_seq(t.take(i)));
            let code = trim_seq(t.skip(i + 1));
            if event.len() == 0 || code.len() == 0 {
                None
            } else {
                Some(TriggerDefView { event, code })
            }
        },
    }
}

/// Parse `@trigger <event> <action> [text...]` or `@trigger <event> <full script>`.
pub fn parse_trigger_line(rest: &str) -> (r: Option<TriggerDef>)
    ensures
        match r {
            Some(t) => trigger_of(rest@) == Some(t@),
            None => trigger_of(rest@) is None,
        },
{
    let t = trim(rest);
    let n = t.unicode_len();
    if n == 0 {
        return None;
    }
    match find_ws(t) {
        None => None,
        Some(i) => {
            let head = t.substring_char(0, i);
            let tail = t.substring_char(i + 1, n);
            assert(head@ =~= t@.take(i as int));
            assert(tail@ =~= t@.skip(i + 1));
            let event = str_to_lowercase(trim(head));
            let code = trim(tail);
            if event.unicode_len() == 0 || code.unicode_len() == 0 {
                None
            } else {
                Some(TriggerDef { event, code: owned(code) })
            }
        },
    }
}

} // verus!
