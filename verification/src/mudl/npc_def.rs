//! NPC spawn definitions and scripted behaviors from MUDL.

use vstd::prelude::*;

use super::behavior_def::CreatureReact;
use super::lines::{comment_free, key_value, split_key_value, strip_comment};
use crate::object::Value;
use crate::text::{
    has_prefix, join, join_all, lines, owned, split_lines, split_words, str_eq, strip_prefix, trim,
    trim_seq, views, words,
};

verus! {

/// A single scripted behavior on an NPC or spawn template.
#[derive(Debug, Clone, PartialEq, Eq)]
pub struct NpcBehaviorDef {
    pub event: String,
    pub action: String,
    pub text: String,
    /// A reaction directive in place of a scripted action.
    pub react: Option<CreatureReact>,
}

pub struct NpcBehaviorView {
    pub event: Seq<char>,
    pub action: Seq<char>,
    pub text: Seq<char>,
    pub react: Option<CreatureReact>,
}

impl View for NpcBehaviorDef {
    type V = NpcBehaviorView;

    open spec fn view(&self) -> NpcBehaviorView {
        NpcBehaviorView { event: self.event@, action: self.action@, text: self.text@, react: self.react }
    }
}

/// The words after the first two of a behavior line, joined by single spaces.
pub open spec fn behavior_text(ws: Seq<Seq<char>>) -> Seq<char> {
    trim_seq(join(ws.skip(2), " "@))
}

/// `<event> <action> <text…>` with a non-empty text.
pub open spec fn scripted_behavior_of(rest: Seq<char>) -> Option<NpcBehaviorView> {
    let ws = words(rest);
    if ws.len() < 2 || behavior_text(ws).len() == 0 {
        None
    } else {
        Some(NpcBehaviorView { event: ws[0], action: ws[1], text: behavior_text(ws), react: None })
    }
}

/// The first word, the second word and the rest of a behavior line.
pub(crate) fn behavior_parts(rest: &str) -> (r: Option<(String, String, String)>)
    ensures
        match r {
            Some((e, a, t)) => words(rest@).len() >= 2 && e@ == words(rest@)[0] && a@ == words(rest@)[1]
                && t@ == behavior_text(words(rest@)),
            None => words(rest@).len() < 2,
        },
{
    let ws = split_words(rest);
    if ws.len() < 2 {
        return None;
    }
    let text = crate::text::join_from(&ws, 2, " ");
    assert(views(ws@).subrange(2, ws@.len() as int) =~= views(ws@).skip(2));
    Some((ws[0].clone(), ws[1].clone(), owned(trim(text.as_str()))))
}

pub(crate) fn parse_scripted_behavior(rest: &str) -> (r: Option<NpcBehaviorDef>)
    ensures
        match r {
            Some(b) => scripted_behavior_of(rest@) == Some(b@),
            None => scripted_behavior_of(rest@) is None,
        },
{
    match behavior_parts(rest) {
        None => None,
        Some((event, action, text)) => {
            if text.unicode_len() == 0 {
                None
            } else {
                Some(NpcBehaviorDef { event, action, text, react: None })
            }
        },
    }
}

/// An NPC instance defined in MUDL and spawned at bootstrap.
#[derive(Debug, Clone, PartialEq, Eq)]
pub struct NpcDef {
    pub base_name: String,
    pub name: Option<String>,
    pub creature: String,
    pub location: String,
    pub behaviors: Vec<NpcBehaviorDef>,
    /// `@use-behavior` template names applied at bootstrap.
    pub use_behaviors: Vec<String>,
}

pub struct NpcView {
    pub base_name: Seq<char>,
    pub name: Option<Seq<char>>,
    pub creature: Seq<char>,
    pub location: Seq<char>,
    pub behaviors: Seq<NpcBehaviorView>,
    pub use_behaviors: Seq<Seq<char>>,
}

pub open spec fn behavior_views(v: Seq<NpcBehaviorDef>) -> Seq<NpcBehaviorView> {
    v.map_values(|b: NpcBehaviorDef| b@)
}

impl View for NpcDef {
    type V = NpcView;

    open spec fn view(&self) -> NpcView {
        NpcView {
            base_name: self.base_name@,
            name: match self.name {
                Some(n) => Some(n@),
                None => None,
            },
            creature: self.creature@,
            location: self.location@,
            behaviors: behavior_views(self.behaviors@),
            use_behaviors: views(self.use_behaviors@),
        }
    }
}

/// A new NPC named `name`, a human with no location yet.
pub open spec fn npc_named(name: Seq<char>) -> NpcView {
    NpcView {
        base_name: name,
        name: None,
        creature: "human"@,
        location: Seq::empty(),
        behaviors: Seq::empty(),
        use_behaviors: Seq::empty(),
    }
}

/// One source line read into the NPCs finished so far and the open one.
/// A new `@npc` replaces an unfinished one; only `@end` keeps an NPC.
pub open spec fn npc_step(done: Seq<NpcView>, cur: Option<NpcView>, raw: Seq<char>) -> (
    Seq<NpcView>,
    Option<NpcView>,
) {
    let line = comment_free(raw);
    if line.len() == 0 {
        (done, cur)
    } else if line == "@end"@ {
        match cur {
            Some(n) => (done.push(n), None),
            None => (done, None),
        }
    } else if has_prefix(line, "@npc "@) {
        (done, Some(npc_named(trim_seq(line.skip(5)))))
    } else if has_prefix(line, "@use-behavior "@) {
        let t = trim_seq(line.skip(14));
        match cur {
            Some(n) => if t.len() > 0 && !n.use_behaviors.contains(t) {
                (done, Some(NpcView { use_behaviors: n.use_behaviors.push(t), ..n }))
            } else {
                (done, cur)
            },
            None => (done, None),
        }
    } else if has_prefix(line, "@behavior "@) {
        match (scripted_behavior_of(line.skip(10)), cur) {
            (Some(b), Some(n)) => (done, Some(NpcView { behaviors: n.behaviors.push(b), ..n })),
            _ => (done, cur),
        }
    } else {
        match (key_value(line), cur) {
            (Some((key, value)), Some(n)) => (
                done,
                Some(
                    if key == "name"@ {
                        NpcView { name: Some(value), ..n }
                    } else if key == "creature"@ {
                        NpcView { creature: value, ..n }
                    } else if key == "location"@ {
                        NpcView { location: value, ..n }
                    } else {
                        n
                    },
                ),
            ),
            _ => (done, cur),
        }
    }
}

/// The state after reading `ls` in order.
pub open spec fn npc_fold(ls: Seq<Seq<char>>) -> (Seq<NpcView>, Option<NpcView>)
    decreases ls.len(),
{
    if ls.len() == 0 {
        (Seq::empty(), None)
    } else {
        let (done, cur) = npc_fold(ls.drop_last());
        npc_step(done, cur, ls.last())
    }
}

/// The NPCs of a MUDL source: each block closed by `@end`, in order.
pub open spec fn npcs_of(content: Seq<char>) -> Seq<NpcView> {
    npc_fold(lines(content)).0
}

pub open spec fn npc_views(v: Seq<NpcDef>) -> Seq<NpcView> {
    v.map_values(|n: NpcDef| n@)
}

pub open spec fn open_npc(o: Option<NpcDef>) -> Option<NpcView> {
    match o {
        Some(n) => Some(n@),
        None => None,
    }
}

/// Whether `v` already names `t`.
pub(crate) fn names_contain(v: &Vec<String>, t: &str) -> (r: bool)
    ensures
        r == views(v@).contains(t@),
{
    let mut i: usize = 0;
    while i < v.len()
        invariant
            0 <= i <= v@.len(),
            forall|j: int| 0 <= j < i ==> views(v@)[j] != t@,
        decreases v@.len() - i,
    {
        if str_eq(v[i].as_str(), t) {
            assert(views(v@)[i as int] == t@);
            return true;
        }
        i += 1;
    }
    false
}

fn npc_line(done: &mut Vec<NpcDef>, cur: &mut Option<NpcDef>, raw: &str)
    ensures
        (npc_views(final(done)@), open_npc(*final(cur))) == npc_step(
            npc_views(old(done)@),
            open_npc(*old(cur)),
            raw@,
        ),
{
    proof {
        reveal_strlit("@end");
        reveal_strlit("@npc ");
        reveal_strlit("@use-behavior ");
        reveal_strlit("@behavior ");
    }
    let line = strip_comment(raw);
    if line.unicode_len() == 0 {
        return;
    }
    if str_eq(line, "@end") {
        if let Some(n) = cur.take() {
            let ghost before = npc_views(done@);
            let ghost nv = n@;
            done.push(n);
            assert(npc_views(done@) =~= before.push(nv));
        }
        return;
    }
    if let Some(name) = strip_prefix(line, "@npc ") {
        let n = NpcDef {
            base_name: owned(trim(name)),
            name: None,
            creature: owned("human"),
            location: String::new(),
            behaviors: Vec::new(),
            use_behaviors: Vec::new(),
        };
        assert(n@ == npc_named(trim_seq(line@.skip(5)))) by {
            assert(name@ =~= line@.skip(5));
            assert(n@.behaviors =~= Seq::<NpcBehaviorView>::empty());
            assert(n@.use_behaviors =~= Seq::<Seq<char>>::empty());
        }
        *cur = Some(n);
        return;
    }
    if let Some(name) = strip_prefix(line, "@use-behavior ") {
        assert(name@ =~= line@.skip(14));
        let t = trim(name);
        match cur.take() {
            Some(n) => {
                let mut n = n;
                if t.unicode_len() > 0 && !names_contain(&n.use_behaviors, t) {
                    let ghost before = views(n.use_behaviors@);
                    n.use_behaviors.push(owned(t));
                    assert(views(n.use_behaviors@) =~= before.push(t@));
                }
                *cur = Some(n);
            },
            None => {},
        }
        return;
    }
    if let Some(rest) = strip_prefix(line, "@behavior ") {
        assert(rest@ =~= line@.skip(10));
        if let Some(b) = parse_scripted_behavior(rest) {
            match cur.take() {
                Some(n) => {
                    let mut n = n;
                    let ghost before = behavior_views(n.behaviors@);
                    let ghost bv = b@;
                    n.behaviors.push(b);
                    assert(behavior_views(n.behaviors@) =~= before.push(bv));
                    *cur = Some(n);
                },
                None => {},
            }
        }
        return;
    }
    if let Some((key, value)) = split_key_value(line) {
        match cur.take() {
            Some(n) => {
                let mut n = n;
                if str_eq(key.as_str(), "name") {
                    n.name = Some(owned(value));
                } else if str_eq(key.as_str(), "creature") {
                    n.creature = owned(value);
                } else if str_eq(key.as_str(), "location") {
                    n.location = owned(value);
                }
                *cur = Some(n);
            },
            None => {},
        }
    }
}

/// Parse `@npc` blocks from MUDL source.
pub fn parse_npc_file(content: &str) -> (r: Vec<NpcDef>)
    ensures
        npc_views(r@) == npcs_of(content@),
{
    let ls = split_lines(content);
    let mut done: Vec<NpcDef> = Vec::new();
    let mut cur: Option<NpcDef> = None;
    let mut i: usize = 0;
    while i < ls.len()
        invariant
            0 <= i <= ls@.len(),
            views(ls@) == lines(content@),
            (npc_views(done@), open_npc(cur)) == npc_fold(views(ls@).take(i as int)),
        decreases ls@.len() - i,
    {
        let ghost ws = views(ls@);
        assert(ws.take(i + 1).drop_last() =~= ws.take(i as int));
        assert(ws.take(i + 1).last() == ls@[i as int]@);
        npc_line(&mut done, &mut cur, ls[i].as_str());
        i += 1;
    }
    assert(views(ls@).take(ls@.len() as int) =~= views(ls@));
    done
}

/// The stored form of one behavior: a mapping of its event, action and text.
pub open spec fn behavior_value(b: NpcBehaviorDef, v: Value) -> bool {
    v matches Value::Mapping(es) && es@.len() == 3 && es@[0].0@ == "event"@ && es@[0].1 == Value::String(
        b.event,
    ) && es@[1].0@ == "action"@ && es@[1].1 == Value::String(b.action) && es@[2].0@ == "text"@
        && es@[2].1 == Value::String(b.text)
}

/// Serialize behaviors for storage on the NPC object.
pub fn behaviors_to_values(behaviors: &[NpcBehaviorDef]) -> (r: Vec<Value>)
    ensures
        r@.len() == behaviors@.len(),
        forall|i: int| 0 <= i < r@.len() ==> behavior_value(behaviors@[i], #[trigger] r@[i]),
{
    let mut out: Vec<Value> = Vec::new();
    let mut i: usize = 0;
    while i < behaviors.len()
        invariant
            0 <= i <= behaviors@.len(),
            out@.len() == i,
            forall|j: int| 0 <= j < i ==> behavior_value(behaviors@[j], #[trigger] out@[j]),
        decreases behaviors@.len() - i,
    {
        let b = &behaviors[i];
        let mut es: Vec<(String, Value)> = Vec::new();
        es.push((owned("event"), Value::String(b.event.clone())));
        es.push((owned("action"), Value::String(b.action.clone())));
        es.push((owned("text"), Value::String(b.text.clone())));
        out.push(Value::Mapping(es));
        i += 1;
    }
    out
}

/// The behaviour templates an NPC uses are named, each once.
pub open spec fn uses_distinct(n: NpcView) -> bool {
    &&& forall|i: int| 0 <= i < n.use_behaviors.len() ==> (#[trigger] n.use_behaviors[i]).len() > 0
    &&& forall|i: int, j: int|
        0 <= i < n.use_behaviors.len() && 0 <= j < n.use_behaviors.len() && i != j ==> n.use_behaviors[i]
            != n.use_behaviors[j]
}

pub open spec fn npcs_use_distinct(done: Seq<NpcView>, cur: Option<NpcView>) -> bool {
    &&& forall|i: int| 0 <= i < done.len() ==> uses_distinct(#[trigger] done[i])
    &&& cur matches Some(n) ==> uses_distinct(n)
}

proof fn lemma_npc_step_distinct(done: Seq<NpcView>, cur: Option<NpcView>, raw: Seq<char>)
    requires
        npcs_use_distinct(done, cur),
    ensures
        npcs_use_distinct(npc_step(done, cur, raw).0, npc_step(done, cur, raw).1),
{
    let (d2, c2) = npc_step(done, cur, raw);
    assert forall|i: int| 0 <= i < d2.len() implies uses_distinct(#[trigger] d2[i]) by {
        if i < done.len() {
            assert(d2[i] == done[i]);
        }
    }
    let line = comment_free(raw);
    if line.len() > 0 && line != "@end"@ && !has_prefix(line, "@npc "@) && has_prefix(line, "@use-behavior "@) {
        let t = trim_seq(line.skip(14));
        if let Some(n) = cur {
            if t.len() > 0 && !n.use_behaviors.contains(t) {
                let u = n.use_behaviors.push(t);
                assert forall|i: int, j: int| 0 <= i < u.len() && 0 <= j < u.len() && i != j implies u[i] != u[j] by {
                    if i == u.len() - 1 {
                        assert(n.use_behaviors.contains(u[j]) ==> u[j] != t);
                    }
                    if j == u.len() - 1 {
                        assert(n.use_behaviors[i] == u[i]);
                    }
                }
            }
        }
    }
}

proof fn lemma_npc_fold_distinct(ls: Seq<Seq<char>>)
    ensures
        npcs_use_distinct(npc_fold(ls).0, npc_fold(ls).1),
    decreases ls.len(),
{
    if ls.len() > 0 {
        lemma_npc_fold_distinct(ls.drop_last());
        let (done, cur) = npc_fold(ls.drop_last());
        lemma_npc_step_distinct(done, cur, ls.last());
    }
}

/// Every NPC of a MUDL source names each behaviour template it uses once,
/// and never with an empty name.
pub proof fn law_npc_uses_distinct(content: Seq<char>)
    ensures
        forall|i: int| 0 <= i < npcs_of(content).len() ==> uses_distinct(#[trigger] npcs_of(content)[i]),
{
    lemma_npc_fold_distinct(lines(content));
}

} // verus!
