//! Loot spawner definitions — weighted item templates attached to locations or objects.

use vstd::prelude::*;

use super::lines::{comment_free, key_value, split_key_value, strip_comment};
use super::spawner_def::{entry_line_of, parse_entry_line, SpawnerEntryDef, SpawnerEntryView};
use crate::spawning::entry_views;
use crate::text::{
    has_prefix, lines, lower_case_of, owned, parse_u32, parse_unsigned, split_lines, str_eq,
    str_to_lowercase, strip_prefix, trim, trim_seq, views,
};

verus! {

/// When a loot spawner attempts to create items.
#[derive(Debug, Clone, Copy, PartialEq, Eq, Structural)]
pub enum LootSpawnerTrigger {
    OnEnter,
    OnOpen,
    OnKill,
    OnBreak,
    Timer,
}

/// The loot trigger a lower-case word names; unknown words mean on enter.
pub open spec fn loot_trigger_of(t: Seq<char>) -> LootSpawnerTrigger {
    if t == "on_open"@ || t == "open"@ {
        LootSpawnerTrigger::OnOpen
    } else if t == "on_kill"@ || t == "kill"@ {
        LootSpawnerTrigger::OnKill
    } else if t == "on_break"@ || t == "break"@ {
        LootSpawnerTrigger::OnBreak
    } else if t == "timer"@ || t == "periodic"@ {
        LootSpawnerTrigger::Timer
    } else {
        LootSpawnerTrigger::OnEnter
    }
}

impl LootSpawnerTrigger {
    pub open spec fn name(self) -> Seq<char> {
        match self {
            LootSpawnerTrigger::OnEnter => "on_enter"@,
            LootSpawnerTrigger::OnOpen => "on_open"@,
            LootSpawnerTrigger::OnKill => "on_kill"@,
            LootSpawnerTrigger::OnBreak => "on_break"@,
            LootSpawnerTrigger::Timer => "timer"@,
        }
    }

    pub fn parse(s: &str) -> (r: LootSpawnerTrigger)
        ensures
            r == loot_trigger_of(lower_case_of(s@)),
    {
        let lowered = str_to_lowercase(s);
        let t = lowered.as_str();
        if str_eq(t, "on_open") || str_eq(t, "open") {
            LootSpawnerTrigger::OnOpen
        } else if str_eq(t, "on_kill") || str_eq(t, "kill") {
            LootSpawnerTrigger::OnKill
        } else if str_eq(t, "on_break") || str_eq(t, "break") {
            LootSpawnerTrigger::OnBreak
        } else if str_eq(t, "timer") || str_eq(t, "periodic") {
            LootSpawnerTrigger::Timer
        } else {
            LootSpawnerTrigger::OnEnter
        }
    }

    pub fn as_str(self) -> (r: &'static str)
        ensures
            r@ == self.name(),
    {
        match self {
            LootSpawnerTrigger::OnEnter => "on_enter",
            LootSpawnerTrigger::OnOpen => "on_open",
            LootSpawnerTrigger::OnKill => "on_kill",
            LootSpawnerTrigger::OnBreak => "on_break",
            LootSpawnerTrigger::Timer => "timer",
        }
    }
}

/// Reusable loot template (references an item prototype, not placed until spawned).
#[derive(Debug, Clone, PartialEq, Eq)]
pub struct LootTemplateDef {
    pub base_name: String,
    /// Item prototype base name (`trail-rations`, `gold-coins`, …).
    pub prototype: String,
    /// Stack count when the prototype is stackable (default 1).
    pub count: u32,
}

pub struct LootTemplateView {
    pub base_name: Seq<char>,
    pub prototype: Seq<char>,
    pub count: u32,
}

impl View for LootTemplateDef {
    type V = LootTemplateView;

    open spec fn view(&self) -> LootTemplateView {
        LootTemplateView { base_name: self.base_name@, prototype: self.prototype@, count: self.count }
    }
}

/// Loot spawner attached to a location or object (container, door, creature).
#[derive(Debug, Clone, PartialEq)]
pub struct LootSpawnerDef {
    pub base_name: String,
    /// Location or item base name (room, container, door, or creature).
    pub target: String,
    pub trigger: LootSpawnerTrigger,
    /// For `timer`: attempt every N qualifying ticks (default 5).
    pub periodic_interval: u32,
    /// The text of the last `chance=` setting, when there is one. It is read
    /// as a probability in [0, 1] (1 when absent or unreadable) where the
    /// definition becomes a spawner object.
    pub chance: Option<String>,
    /// Maximum concurrently active loot items from this spawner at the target.
    pub max_active: u32,
    /// When true, the spawner fires at most once per game (good for chest surprises).
    pub once: bool,
    pub entries: Vec<SpawnerEntryDef>,
}

pub struct LootSpawnerView {
    pub base_name: Seq<char>,
    pub target: Seq<char>,
    pub trigger: LootSpawnerTrigger,
    pub periodic_interval: u32,
    pub chance: Option<Seq<char>>,
    pub max_active: u32,
    pub once: bool,
    pub entries: Seq<SpawnerEntryView>,
}

impl View for LootSpawnerDef {
    type V = LootSpawnerView;

    open spec fn view(&self) -> LootSpawnerView {
        LootSpawnerView {
            base_name: self.base_name@,
            target: self.target@,
            trigger: self.trigger,
            periodic_interval: self.periodic_interval,
            chance: match &self.chance {
                Some(c) => Some(c@),
                None => None,
            },
            max_active: self.max_active,
            once: self.once,
            entries: entry_views(self.entries@),
        }
    }
}

/// A number setting: the value read as a `u32`, `d` when unreadable.
pub open spec fn u32_or(value: Seq<char>, d: u32) -> u32 {
    match parse_unsigned(value, u32::MAX as nat) {
        Some(n) => n as u32,
        None => d,
    }
}

/// At least 1.
pub open spec fn at_least_one(n: u32) -> u32 {
    if n < 1 {
        1
    } else {
        n
    }
}

/// Read a `u32` setting, `d` when unreadable.
pub fn read_u32_or(value: &str, d: u32) -> (r: u32)
    ensures
        r == u32_or(value@, d),
{
    match parse_u32(value) {
        Some(n) => n,
        None => d,
    }
}

/// A `key=value` setting applied to the open loot template.
pub open spec fn loot_template_setting(t: LootTemplateView, key: Seq<char>, value: Seq<char>) -> LootTemplateView {
    if key == "prototype"@ {
        LootTemplateView { prototype: value, ..t }
    } else if key == "count"@ {
        LootTemplateView { count: at_least_one(u32_or(value, 1)), ..t }
    } else {
        t
    }
}

/// A `key=value` setting applied to the open loot spawner.
pub open spec fn loot_spawner_setting(s: LootSpawnerView, key: Seq<char>, value: Seq<char>) -> LootSpawnerView {
    if key == "target"@ || key == "location"@ || key == "attach"@ {
        LootSpawnerView { target: value, ..s }
    } else if key == "trigger"@ {
        LootSpawnerView { trigger: loot_trigger_of(lower_case_of(value)), ..s }
    } else if key == "periodic_interval"@ || key == "interval"@ {
        LootSpawnerView { periodic_interval: at_least_one(u32_or(value, 5)), ..s }
    } else if key == "chance"@ {
        LootSpawnerView { chance: Some(value), ..s }
    } else if key == "max_active"@ {
        LootSpawnerView { max_active: u32_or(value, 4), ..s }
    } else if key == "once"@ {
        LootSpawnerView { once: value == "true"@, ..s }
    } else {
        s
    }
}

/// A fresh loot template named `name`.
pub open spec fn new_loot_template(name: Seq<char>) -> LootTemplateView {
    LootTemplateView { base_name: trim_seq(name), prototype: Seq::empty(), count: 1 }
}

/// A fresh loot spawner named `name`, with the defaults.
pub open spec fn new_loot_spawner(name: Seq<char>) -> LootSpawnerView {
    LootSpawnerView {
        base_name: trim_seq(name),
        target: Seq::empty(),
        trigger: LootSpawnerTrigger::OnOpen,
        periodic_interval: 5,
        chance: None,
        max_active: 4,
        once: false,
        entries: Seq::empty(),
    }
}

/// What has been read of a loot file: the finished templates and spawners and
/// the open ones.
pub struct LootRead {
    pub templates: Seq<LootTemplateView>,
    pub spawners: Seq<LootSpawnerView>,
    pub template: Option<LootTemplateView>,
    pub spawner: Option<LootSpawnerView>,
}

pub open spec fn close_loot_template(st: LootRead) -> LootRead {
    match st.template {
        Some(t) => LootRead { templates: st.templates.push(t), template: None, ..st },
        None => st,
    }
}

pub open spec fn close_loot_spawner(st: LootRead) -> LootRead {
    match st.spawner {
        Some(s) => LootRead { spawners: st.spawners.push(s), spawner: None, ..st },
        None => st,
    }
}

/// A `key=value` line applied to whichever blocks are open.
pub open spec fn loot_settings(st: LootRead, key: Seq<char>, value: Seq<char>) -> LootRead {
    LootRead {
        template: match st.template {
            Some(t) => Some(loot_template_setting(t, key, value)),
            None => None,
        },
        spawner: match st.spawner {
            Some(s) => Some(loot_spawner_setting(s, key, value)),
            None => None,
        },
        ..st
    }
}

/// One source line of a loot file.
pub open spec fn loot_step(st: LootRead, raw: Seq<char>) -> LootRead {
    let line = comment_free(raw);
    if line.len() == 0 {
        st
    } else if line == "@end"@ {
        close_loot_spawner(close_loot_template(st))
    } else if has_prefix(line, "@loot-template "@) {
        LootRead { template: Some(new_loot_template(line.skip(15))), ..close_loot_template(close_loot_spawner(st)) }
    } else if has_prefix(line, "@loot-spawner "@) {
        LootRead { spawner: Some(new_loot_spawner(line.skip(14))), ..close_loot_spawner(close_loot_template(st)) }
    } else if has_prefix(line, "@entry "@) {
        match (st.spawner, entry_line_of(line.skip(7))) {
            (Some(s), Some(e)) => LootRead { spawner: Some(LootSpawnerView { entries: s.entries.push(e), ..s }), ..st },
            _ => st,
        }
    } else {
        match key_value(line) {
            Some((key, value)) => loot_settings(st, key, value),
            None => st,
        }
    }
}

pub open spec fn loot_fold(ls: Seq<Seq<char>>) -> LootRead
    decreases ls.len(),
{
    if ls.len() == 0 {
        LootRead { templates: Seq::empty(), spawners: Seq::empty(), template: None, spawner: None }
    } else {
        loot_step(loot_fold(ls.drop_last()), ls.last())
    }
}

/// The loot templates and spawners of a MUDL source, in order.
pub open spec fn loot_file_of(content: Seq<char>) -> (Seq<LootTemplateView>, Seq<LootSpawnerView>) {
    let st = close_loot_spawner(close_loot_template(loot_fold(lines(content))));
    (st.templates, st.spawners)
}

pub open spec fn loot_template_views(v: Seq<LootTemplateDef>) -> Seq<LootTemplateView> {
    v.map_values(|t: LootTemplateDef| t@)
}

pub open spec fn loot_spawner_views(v: Seq<LootSpawnerDef>) -> Seq<LootSpawnerView> {
    v.map_values(|s: LootSpawnerDef| s@)
}

/// The reading state held by the parser.
pub struct LootReader {
    pub templates: Vec<LootTemplateDef>,
    pub spawners: Vec<LootSpawnerDef>,
    pub template: Option<LootTemplateDef>,
    pub spawner: Option<LootSpawnerDef>,
}

impl View for LootReader {
    type V = LootRead;

    open spec fn view(&self) -> LootRead {
        LootRead {
            templates: loot_template_views(self.templates@),
            spawners: loot_spawner_views(self.spawners@),
            template: match &self.template {
                Some(t) => Some(t@),
                None => None,
            },
            spawner: match &self.spawner {
                Some(s) => Some(s@),
                None => None,
            },
        }
    }
}

impl LootReader {
    fn close_template(&mut self)
        ensures
            final(self)@ == close_loot_template(old(self)@),
    {
        if let Some(t) = self.template.take() {
            let ghost before = loot_template_views(self.templates@);
            let ghost tv = t@;
            self.templates.push(t);
            assert(loot_template_views(self.templates@) =~= before.push(tv));
        }
    }

    fn close_spawner(&mut self)
        ensures
            final(self)@ == close_loot_spawner(old(self)@),
    {
        if let Some(s) = self.spawner.take() {
            let ghost before = loot_spawner_views(self.spawners@);
            let ghost sv = s@;
            self.spawners.push(s);
            assert(loot_spawner_views(self.spawners@) =~= before.push(sv));
        }
    }

    fn apply_settings(&mut self, key: &str, value: &str)
        ensures
            final(self)@ == loot_settings(old(self)@, key@, value@),
    {
        if let Some(t) = self.template.take() {
            let mut t = t;
            if str_eq(key, "prototype") {
                t.prototype = owned(value);
            } else if str_eq(key, "count") {
                let n = read_u32_or(value, 1);
                t.count = if n < 1 { 1 } else { n };
            }
            self.template = Some(t);
        }
        if let Some(s) = self.spawner.take() {
            let mut s = s;
            let ghost s0 = s@;
            if str_eq(key, "target") || str_eq(key, "location") || str_eq(key, "attach") {
                s.target = owned(value);
            } else if str_eq(key, "trigger") {
                s.trigger = LootSpawnerTrigger::parse(value);
            } else if str_eq(key, "periodic_interval") || str_eq(key, "interval") {
                let n = read_u32_or(value, 5);
                s.periodic_interval = if n < 1 { 1 } else { n };
            } else if str_eq(key, "chance") {
                s.chance = Some(owned(value));
            } else if str_eq(key, "max_active") {
                s.max_active = read_u32_or(value, 4);
            } else if str_eq(key, "once") {
                s.once = str_eq(value, "true");
            }
            assert(s@ == loot_spawner_setting(s0, key@, value@));
            self.spawner = Some(s);
        }
    }

    fn read_line(&mut self, raw: &str)
        ensures
            final(self)@ == loot_step(old(self)@, raw@),
    {
        proof {
            reveal_strlit("@end");
            reveal_strlit("@loot-template ");
            reveal_strlit("@loot-spawner ");
            reveal_strlit("@entry ");
        }
        let line = strip_comment(raw);
        if line.unicode_len() == 0 {
            return;
        }
        if str_eq(line, "@end") {
            self.close_template();
            self.close_spawner();
            return;
        }
        if let Some(name) = strip_prefix(line, "@loot-template ") {
            self.close_spawner();
            self.close_template();
            self.template = Some(LootTemplateDef { base_name: owned(trim(name)), prototype: String::new(), count: 1 });
            return;
        }
        if let Some(name) = strip_prefix(line, "@loot-spawner ") {
            self.close_template();
            self.close_spawner();
            self.spawner = Some(
                LootSpawnerDef {
                    base_name: owned(trim(name)),
                    target: String::new(),
                    trigger: LootSpawnerTrigger::OnOpen,
                    periodic_interval: 5,
                    chance: None,
                    max_active: 4,
                    once: false,
                    entries: Vec::new(),
                },
            );
            proof {
                assert(entry_views(Seq::<SpawnerEntryDef>::empty()) =~= Seq::<SpawnerEntryView>::empty());
            }
            return;
        }
        if let Some(rest) = strip_prefix(line, "@entry ") {
            if self.spawner.is_some() {
                if let Some(e) = parse_entry_line(rest) {
                    let mut s = self.spawner.take().unwrap();
                    let ghost before = entry_views(s.entries@);
                    let ghost ev = e@;
                    s.entries.push(e);
                    assert(entry_views(s.entries@) =~= before.push(ev));
                    self.spawner = Some(s);
                }
            }
            return;
        }
        if let Some((key, value)) = split_key_value(line) {
            self.apply_settings(key.as_str(), value);
        }
    }
}

/// Parse `@loot-template`, `@loot-spawner`, and related blocks from MUDL source.
pub fn parse_loot_spawner_file(content: &str) -> (r: (Vec<LootTemplateDef>, Vec<LootSpawnerDef>))
    ensures
        (loot_template_views(r.0@), loot_spawner_views(r.1@)) == loot_file_of(content@),
{
    let ls = split_lines(content);
    let mut rd = LootReader { templates: Vec::new(), spawners: Vec::new(), template: None, spawner: None };
    assert(rd@.templates =~= Seq::<LootTemplateView>::empty());
    assert(rd@.spawners =~= Seq::<LootSpawnerView>::empty());
    let mut i: usize = 0;
    while i < ls.len()
        invariant
            0 <= i <= ls@.len(),
            views(ls@) == lines(content@),
            rd@ == loot_fold(views(ls@).take(i as int)),
        decreases ls@.len() - i,
    {
        let ghost ws = views(ls@);
        assert(ws.take(i + 1).drop_last() =~= ws.take(i as int));
        assert(ws.take(i + 1).last() == ls@[i as int]@);
        rd.read_line(ls[i].as_str());
        i += 1;
    }
    assert(views(ls@).take(ls@.len() as int) =~= views(ls@));
    rd.close_template();
    rd.close_spawner();
    (rd.templates, rd.spawners)
}

/// Every template read so far makes at least one item, and every spawner
/// attempts at least every tick.
pub open spec fn loot_counts_positive(st: LootRead) -> bool {
    &&& forall|i: int| 0 <= i < st.templates.len() ==> (#[trigger] st.templates[i]).count >= 1
    &&& st.template matches Some(t) ==> t.count >= 1
    &&& forall|i: int| 0 <= i < st.spawners.len() ==> (#[trigger] st.spawners[i]).periodic_interval >= 1
    &&& st.spawner matches Some(s) ==> s.periodic_interval >= 1
}

proof fn lemma_loot_closes_positive(st: LootRead)
    requires
        loot_counts_positive(st),
    ensures
        loot_counts_positive(close_loot_template(st)),
        loot_counts_positive(close_loot_spawner(st)),
        loot_counts_positive(close_loot_spawner(close_loot_template(st))),
        loot_counts_positive(close_loot_template(close_loot_spawner(st))),
{
    assert forall|a: LootRead| loot_counts_positive(a) implies loot_counts_positive(#[trigger] close_loot_template(a)) by {
        let b = close_loot_template(a);
        assert forall|i: int| 0 <= i < b.templates.len() implies (#[trigger] b.templates[i]).count >= 1 by {
            if i < a.templates.len() {
                assert(b.templates[i] == a.templates[i]);
            }
        }
    }
    assert forall|a: LootRead| loot_counts_positive(a) implies loot_counts_positive(#[trigger] close_loot_spawner(a)) by {
        let b = close_loot_spawner(a);
        assert forall|i: int| 0 <= i < b.spawners.len() implies (#[trigger] b.spawners[i]).periodic_interval >= 1 by {
            if i < a.spawners.len() {
                assert(b.spawners[i] == a.spawners[i]);
            }
        }
    }
}

proof fn lemma_loot_step_positive(st: LootRead, raw: Seq<char>)
    requires
        loot_counts_positive(st),
    ensures
        loot_counts_positive(loot_step(st, raw)),
{
    lemma_loot_closes_positive(st);
    let line = comment_free(raw);
    if line.len() == 0 || line == "@end"@ || has_prefix(line, "@loot-template "@) || has_prefix(
        line,
        "@loot-spawner "@,
    ) {
    } else if has_prefix(line, "@entry "@) {
    } else {
        match key_value(line) {
            Some((key, value)) => {
                let b = loot_settings(st, key, value);
                assert(b.templates == st.templates && b.spawners == st.spawners);
            },
            None => {},
        }
    }
}

proof fn lemma_loot_fold_positive(ls: Seq<Seq<char>>)
    ensures
        loot_counts_positive(loot_fold(ls)),
    decreases ls.len(),
{
    if ls.len() > 0 {
        lemma_loot_fold_positive(ls.drop_last());
        lemma_loot_step_positive(loot_fold(ls.drop_last()), ls.last());
    }
}

/// Every loot template of a MUDL source makes at least one item and every
/// loot spawner attempts at least every tick: smaller (or unreadable) counts
/// and intervals are read as 1 or the default.
pub proof fn law_loot_counts_positive(content: Seq<char>)
    ensures
        forall|i: int| 0 <= i < loot_file_of(content).0.len() ==> (#[trigger] loot_file_of(content).0[i]).count >= 1,
        forall|i: int|
            0 <= i < loot_file_of(content).1.len() ==> (#[trigger] loot_file_of(content).1[i]).periodic_interval >= 1,
{
    lemma_loot_fold_positive(lines(content));
    lemma_loot_closes_positive(loot_fold(lines(content)));
}

} // verus!
