//! Shared `@behavior` line parser for NPC and spawn-template definitions.

use vstd::prelude::*;

use super::behavior_def::{react_of, CreatureReact};
use super::npc_def::{behavior_parts, behavior_text, NpcBehaviorDef, NpcBehaviorView};
use crate::text::{eq_ignore_case, lower_seq, str_eq, trim_seq, words};

verus! {

/// A behavior line: `<event> react <reaction>`, a bare reaction word after
/// `on_discovered` or `on_enter`, or `<event> <action> <text…>`.
pub open spec fn behavior_of(rest: Seq<char>) -> Option<NpcBehaviorView> {
    let ws = words(rest);
    if ws.len() < 2 {
        None
    } else {
        let event = ws[0];
        let action = ws[1];
        let text = behavior_text(ws);
        if action == "react"@ && text.len() > 0 {
            Some(
                NpcBehaviorView {
                    event,
                    action: Seq::empty(),
                    text: Seq::empty(),
                    react: Some(react_of(lower_seq(trim_seq(text)))),
                },
            )
        } else if text.len() == 0 && (event == "on_discovered"@ || event == "on_enter"@) {
            let react = react_of(lower_seq(trim_seq(action)));
            if react != CreatureReact::Ignore || lower_seq(action) == "ignore"@ {
                Some(NpcBehaviorView { event, action: Seq::empty(), text: Seq::empty(), react: Some(react) })
            } else {
                None
            }
        } else if text.len() == 0 {
            None
        } else {
            Some(NpcBehaviorView { event, action, text, react: None })
        }
    }
}

/// Parse `@behavior <event> <action> <text…>` or react shorthand.
///
/// Supported forms:
/// - `on_enter emote waves slowly.` — scripted action + text
/// - `on_discovered react flee` — explicit react directive
/// - `on_enter attack` — react shorthand when action is a known react verb
pub fn parse_behavior_line(rest: &str) -> (r: Option<NpcBehaviorDef>)
    ensures
        match r {
            Some(b) => behavior_of(rest@) == Some(b@),
            None => behavior_of(rest@) is None,
        },
{
    proof {
        reveal_strlit("ignore");
    }
    match behavior_parts(rest) {
        None => None,
        Some((event, action, text)) => {
            if str_eq(action.as_str(), "react") && text.unicode_len() > 0 {
                return Some(
                    NpcBehaviorDef {
                        event,
                        action: String::new(),
                        text: String::new(),
                        react: Some(CreatureReact::parse(text.as_str())),
                    },
                );
            }
            if text.unicode_len() == 0 && (str_eq(event.as_str(), "on_discovered") || str_eq(
                event.as_str(),
                "on_enter",
            )) {
                let react = CreatureReact::parse(action.as_str());
                if react != CreatureReact::Ignore || eq_ignore_case(action.as_str(), "ignore") {
                    assert(lower_seq("ignore"@) =~= "ignore"@);
                    return Some(
                        NpcBehaviorDef {
                            event,
                            action: String::new(),
                            text: String::new(),
                            react: Some(react),
                        },
                    );
                }
                assert(lower_seq("ignore"@) =~= "ignore"@);
                return None;
            }
            if text.unicode_len() == 0 {
                return None;
            }
            Some(NpcBehaviorDef { event, action, text, react: None })
        },
    }
}

} // verus!
