//! Reusable creature behavior templates — composable AI personalities in MUDL.

use vstd::prelude::*;

use super::lines::{comment_free, key_value, split_key_value, strip_comment};
use crate::text::{
    lstrip_ws, rstrip_ws, before_char, first_piece, has_prefix, lower_seq, owned, parse_signed, parse_unsigned,
    split_lines, str_eq, strip_prefix, to_lower, trim, trim_seq, lines, parse_i64, parse_u32,
};

verus! {

/// How a creature reacts when a player enters its room.
#[derive(Debug, Clone, Copy, PartialEq, Eq, Structural)]
pub enum CreatureReact {
    Ignore,
    Warn,
    Attack,
    Flee,
    Wander,
}

/// The reaction a trimmed, lower-case word names; unknown words mean `Ignore`.
pub open spec fn react_of(t: Seq<char>) -> CreatureReact {
    if t == "warn"@ || t == "guard"@ {
        CreatureReact::Warn
    } else if t == "attack"@ || t == "aggressive"@ {
        CreatureReact::Attack
    } else if t == "flee"@ || t == "coward"@ || t == "passive_flee"@ {
        CreatureReact::Flee
    } else if t == "wander"@ || t == "roam"@ {
        CreatureReact::Wander
    } else {
        CreatureReact::Ignore
    }
}

impl CreatureReact {
    pub open spec fn name(self) -> Seq<char> {
        match self {
            CreatureReact::Ignore => "ignore"@,
            CreatureReact::Warn => "warn"@,
            CreatureReact::Attack => "attack"@,
            CreatureReact::Flee => "flee"@,
            CreatureReact::Wander => "wander"@,
        }
    }

    /// Parse a reaction word, ignoring case and surrounding whitespace.
    pub fn parse(s: &str) -> (r: CreatureReact)
        ensures
            r == react_of(lower_seq(trim_seq(s@))),
    {
        let lowered = to_lower(trim(s));
        let t = lowered.as_str();
        if str_eq(t, "warn") || str_eq(t, "guard") {
            CreatureReact::Warn
        } else if str_eq(t, "attack") || str_eq(t, "aggressive") {
            CreatureReact::Attack
        } else if str_eq(t, "flee") || str_eq(t, "coward") || str_eq(t, "passive_flee") {
            CreatureReact::Flee
        } else if str_eq(t, "wander") || str_eq(t, "roam") {
            CreatureReact::Wander
        } else {
            CreatureReact::Ignore
        }
    }

    pub fn as_str(self) -> (r: &'static str)
        ensures
            r@ == self.name(),
    {
        match self {
            CreatureReact::Ignore => "ignore",
            CreatureReact::Warn => "warn",
            CreatureReact::Attack => "attack",
            CreatureReact::Flee => "flee",
            CreatureReact::Wander => "wander",
        }
    }
}

impl Default for CreatureReact {
    fn default() -> (r: Self)
        ensures
            r == CreatureReact::Ignore,
    {
        CreatureReact::Ignore
    }
}

/// A reusable behavior template defined in MUDL (`@behavior-template`).
#[derive(Debug, Clone, PartialEq, Eq)]
pub struct BehaviorTemplateDef {
    pub base_name: String,
    pub react: CreatureReact,
    /// Optional scripted line on player enter (`say`, `emote`, etc.).
    pub on_enter_action: Option<String>,
    pub on_enter_text: Option<String>,
    /// For `wander`: emote every N player entries in the room (default 3).
    pub wander_interval: u32,
    /// Default damage for `attack` react when no script overrides.
    pub attack_damage: i64,
}

pub struct BehaviorTemplateView {
    pub base_name: Seq<char>,
    pub react: CreatureReact,
    pub on_enter_action: Option<Seq<char>>,
    pub on_enter_text: Option<Seq<char>>,
    pub wander_interval: u32,
    pub attack_damage: i64,
}

/// The characters of an optional string.
pub open spec fn opt_chars(o: Option<String>) -> Option<Seq<char>> {
    match o {
        Some(s) => Some(s@),
        None => None,
    }
}

impl View for BehaviorTemplateDef {
    type V = BehaviorTemplateView;

    open spec fn view(&self) -> BehaviorTemplateView {
        BehaviorTemplateView {
            base_name: self.base_name@,
            react: self.react,
            on_enter_action: opt_chars(self.on_enter_action),
            on_enter_text: opt_chars(self.on_enter_text),
            wander_interval: self.wander_interval,
            attack_damage: self.attack_damage,
        }
    }
}

/// A template named `name` with every setting at its default.
pub open spec fn template_named(name: Seq<char>) -> BehaviorTemplateView {
    BehaviorTemplateView {
        base_name: name,
        react: CreatureReact::Ignore,
        on_enter_action: None,
        on_enter_text: None,
        wander_interval: 3,
        attack_damage: 8,
    }
}

impl Default for BehaviorTemplateDef {
    fn default() -> (r: Self)
        ensures
            r@ == template_named(Seq::empty()),
    {
        BehaviorTemplateDef {
            base_name: String::new(),
            react: CreatureReact::Ignore,
            on_enter_action: None,
            on_enter_text: None,
            wander_interval: 3,
            attack_damage: 8,
        }
    }
}

/// `<action> <text>` of an `on_enter=` value: the action is everything before the
/// first space; the text, trimmed, only when non-empty.
pub open spec fn on_enter_of(value: Seq<char>) -> (Option<Seq<char>>, Option<Seq<char>>) {
    let v = trim_seq(value);
    if v.len() == 0 {
        (None, None)
    } else {
        let action = before_char(v, ' ');
        let text = if action.len() < v.len() {
            let t = trim_seq(v.skip(action.len() as int + 1));
            if t.len() > 0 {
                Some(t)
            } else {
                None
            }
        } else {
            None
        };
        (Some(action), text)
    }
}

fn parse_on_enter_script(value: &str) -> (r: (Option<String>, Option<String>))
    ensures
        (opt_chars(r.0), opt_chars(r.1)) == on_enter_of(value@),
{
    let v = trim(value);
    let n = v.unicode_len();
    if n == 0 {
        return (None, None);
    }
    let action = first_piece(v, ' ');
    let m = action.unicode_len();
    let text = if m < n {
        let rest = v.substring_char(m + 1, n);
        assert(rest@ =~= v@.skip(m + 1));
        let t = trim(rest);
        if t.unicode_len() > 0 {
            Some(owned(t))
        } else {
            None
        }
    } else {
        None
    };
    (Some(owned(action)), text)
}

/// The views of a list of templates.
pub open spec fn template_views(v: Seq<BehaviorTemplateDef>) -> Seq<BehaviorTemplateView> {
    v.map_values(|t: BehaviorTemplateDef| t@)
}

/// The view of the template being read, if any.
pub open spec fn open_template(o: Option<BehaviorTemplateDef>) -> Option<BehaviorTemplateView> {
    match o {
        Some(t) => Some(t@),
        None => None,
    }
}

/// The finished templates with the open one closed.
pub open spec fn close_template(
    done: Seq<BehaviorTemplateView>,
    cur: Option<BehaviorTemplateView>,
) -> Seq<BehaviorTemplateView> {
    match cur {
        Some(t) => done.push(t),
        None => done,
    }
}

/// A `key=value` setting applied to the open template.
pub open spec fn template_setting(t: BehaviorTemplateView, key: Seq<char>, value: Seq<char>) -> BehaviorTemplateView {
    if key == "react"@ {
        BehaviorTemplateView { react: react_of(lower_seq(trim_seq(value))), ..t }
    } else if key == "on_enter"@ {
        BehaviorTemplateView {
            on_enter_action: on_enter_of(value).0,
            on_enter_text: on_enter_of(value).1,
            ..t
        }
    } else if key == "wander_interval"@ || key == "interval"@ {
        let n = match parse_unsigned(value, u32::MAX as nat) {
            Some(v) => v,
            None => 3,
        };
        BehaviorTemplateView { wander_interval: if n < 1 { 1 } else { n as u32 }, ..t }
    } else if key == "attack_damage"@ || key == "damage"@ {
        let d = match parse_signed(value) {
            Some(v) => v,
            None => 8,
        };
        BehaviorTemplateView { attack_damage: if d < 0 { 0 } else { d as i64 }, ..t }
    } else {
        t
    }
}

/// One source line read into the templates finished so far and the open one.
pub open spec fn template_step(
    done: Seq<BehaviorTemplateView>,
    cur: Option<BehaviorTemplateView>,
    raw: Seq<char>,
) -> (Seq<BehaviorTemplateView>, Option<BehaviorTemplateView>) {
    let line = comment_free(raw);
    if line.len() == 0 {
        (done, cur)
    } else if line == "@end"@ {
        (close_template(done, cur), None)
    } else if has_prefix(line, "@behavior-template "@) {
        (close_template(done, cur), Some(template_named(trim_seq(line.skip(19)))))
    } else {
        match key_value(line) {
            Some((key, value)) => match cur {
                Some(t) => (done, Some(template_setting(t, key, value))),
                None => (done, None),
            },
            None => (done, cur),
        }
    }
}

/// The state after reading `ls` in order.
pub open spec fn template_fold(ls: Seq<Seq<char>>) -> (Seq<BehaviorTemplateView>, Option<BehaviorTemplateView>)
    decreases ls.len(),
{
    if ls.len() == 0 {
        (Seq::empty(), None)
    } else {
        let (done, cur) = template_fold(ls.drop_last());
        template_step(done, cur, ls.last())
    }
}

/// The templates of a MUDL source, in order.
pub open spec fn templates_of(content: Seq<char>) -> Seq<BehaviorTemplateView> {
    let (done, cur) = template_fold(lines(content));
    close_template(done, cur)
}

/// Closes the open template, if any, into `done`.
fn close_open(done: &mut Vec<BehaviorTemplateDef>, cur: &mut Option<BehaviorTemplateDef>)
    ensures
        template_views(final(done)@) == close_template(template_views(old(done)@), open_template(*old(cur))),
        *final(cur) is None,
{
    if let Some(t) = cur.take() {
        let ghost before = template_views(done@);
        let ghost tv = t@;
        done.push(t);
        assert(template_views(done@) =~= before.push(tv));
    }
}

/// Applies a setting to a template.
fn apply_setting(t: &mut BehaviorTemplateDef, key: &str, value: &str)
    ensures
        final(t)@ == template_setting(old(t)@, key@, value@),
{
    proof {
        reveal_strlit("react");
        reveal_strlit("on_enter");
        reveal_strlit("wander_interval");
        reveal_strlit("interval");
        reveal_strlit("attack_damage");
        reveal_strlit("damage");
    }
    if str_eq(key, "react") {
        t.react = CreatureReact::parse(value);
    } else if str_eq(key, "on_enter") {
        let (action, text) = parse_on_enter_script(value);
        t.on_enter_action = action;
        t.on_enter_text = text;
    } else if str_eq(key, "wander_interval") || str_eq(key, "interval") {
        let n = match parse_u32(value) {
            Some(v) => v,
            None => 3,
        };
        t.wander_interval = if n < 1 { 1 } else { n };
    } else if str_eq(key, "attack_damage") || str_eq(key, "damage") {
        let d = match parse_i64(value) {
            Some(v) => v,
            None => 8,
        };
        t.attack_damage = if d < 0 { 0 } else { d };
    }
}

/// Reads one source line.
fn template_line(done: &mut Vec<BehaviorTemplateDef>, cur: &mut Option<BehaviorTemplateDef>, raw: &str)
    ensures
        (template_views(final(done)@), open_template(*final(cur))) == template_step(
            template_views(old(done)@),
            open_template(*old(cur)),
            raw@,
        ),
{
    proof {
        reveal_strlit("@end");
        reveal_strlit("@behavior-template ");
    }
    let line = strip_comment(raw);
    if line.unicode_len() == 0 {
        return;
    }
    if str_eq(line, "@end") {
        close_open(done, cur);
        return;
    }
    if let Some(name) = strip_prefix(line, "@behavior-template ") {
        close_open(done, cur);
        let mut t = BehaviorTemplateDef::default();
        t.base_name = owned(trim(name));
        *cur = Some(t);
        return;
    }
    if let Some((key, value)) = split_key_value(line) {
        match cur.take() {
            Some(t) => {
                let mut t = t;
                apply_setting(&mut t, key.as_str(), value);
                *cur = Some(t);
            },
            None => {},
        }
    }
}

/// Parse `@behavior-template` blocks from MUDL source.
pub fn parse_behavior_file(content: &str) -> (r: Vec<BehaviorTemplateDef>)
    ensures
        template_views(r@) == templates_of(content@),
{
    let ls = split_lines(content);
    let mut done: Vec<BehaviorTemplateDef> = Vec::new();
    let mut cur: Option<BehaviorTemplateDef> = None;
    let mut i: usize = 0;
    while i < ls.len()
        invariant
            0 <= i <= ls@.len(),
            crate::text::views(ls@) == lines(content@),
            (template_views(done@), open_template(cur)) == template_fold(
                crate::text::views(ls@).take(i as int),
            ),
        decreases ls@.len() - i,
    {
        let ghost ws = crate::text::views(ls@);
        assert(ws.take(i + 1).drop_last() =~= ws.take(i as int));
        assert(ws.take(i + 1).last() == ls@[i as int]@);
        template_line(&mut done, &mut cur, ls[i].as_str());
        i += 1;
    }
    assert(crate::text::views(ls@).take(ls@.len() as int) =~= crate::text::views(ls@));
    close_open(&mut done, &mut cur);
    done
}

/// Each reaction reads back as itself from the word it is written as.
pub proof fn law_react_name_round_trip(r: CreatureReact)
    ensures
        react_of(lower_seq(trim_seq(r.name()))) == r,
{
    reveal_strlit("ignore");
    reveal_strlit("warn");
    reveal_strlit("guard");
    reveal_strlit("attack");
    reveal_strlit("aggressive");
    reveal_strlit("flee");
    reveal_strlit("coward");
    reveal_strlit("passive_flee");
    reveal_strlit("wander");
    reveal_strlit("roam");
    let n = r.name();
    assert(lstrip_ws(n) == n);
    assert(rstrip_ws(n) == n);
    assert(lower_seq(n) =~= n);
    assert(n[0] != "warn"@[0] ==> n != "warn"@);
    assert(n[0] != "attack"@[0] ==> n != "attack"@);
    assert(n[0] != "coward"@[0] ==> n != "coward"@);
    assert(n[0] != "wander"@[0] ==> n != "wander"@);
    assert(n[0] != "flee"@[0] ==> n != "flee"@);
    assert(n[0] != "roam"@[0] ==> n != "roam"@);
}

/// A template that wanders at least every tick and does no negative damage.
pub open spec fn template_sane(t: BehaviorTemplateView) -> bool {
    t.wander_interval >= 1 && t.attack_damage >= 0
}

pub open spec fn templates_sane(done: Seq<BehaviorTemplateView>, cur: Option<BehaviorTemplateView>) -> bool {
    &&& forall|i: int| 0 <= i < done.len() ==> template_sane(#[trigger] done[i])
    &&& cur matches Some(t) ==> template_sane(t)
}

proof fn lemma_template_fold_sane(ls: Seq<Seq<char>>)
    ensures
        templates_sane(template_fold(ls).0, template_fold(ls).1),
    decreases ls.len(),
{
    if ls.len() > 0 {
        lemma_template_fold_sane(ls.drop_last());
        let (done, cur) = template_fold(ls.drop_last());
        let (d2, c2) = template_step(done, cur, ls.last());
        assert forall|i: int| 0 <= i < d2.len() implies template_sane(#[trigger] d2[i]) by {
            if i < done.len() {
                assert(close_template(done, cur)[i] == done[i]);
            }
        }
    }
}

/// Every behaviour template of a MUDL source wanders at least every tick and
/// deals no negative damage: smaller values are read as 1 and 0.
pub proof fn law_templates_sane(content: Seq<char>)
    ensures
        forall|i: int| 0 <= i < templates_of(content).len() ==> template_sane(#[trigger] templates_of(content)[i]),
{
    lemma_template_fold_sane(lines(content));
    let (done, cur) = template_fold(lines(content));
    assert forall|i: int| 0 <= i < templates_of(content).len() implies template_sane(#[trigger] templates_of(content)[i]) by {
        if i < done.len() {
            assert(close_template(done, cur)[i] == done[i]);
        }
    }
}

} // verus!
