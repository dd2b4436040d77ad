//! Creature spawner definitions — weighted templates attached to locations.

use vstd::prelude::*;

use super::lines::{comment_free, key_value, split_key_value, strip_comment};
use super::loot_spawner_def::{at_least_one, read_u32_or, u32_or};
use super::npc_def::{
    behavior_views, names_contain, parse_scripted_behavior, scripted_behavior_of, NpcBehaviorDef,
    NpcBehaviorView,
};
use super::trigger_def::{parse_trigger_line, trigger_of, TriggerDef, TriggerDefView};
use super::world_def::trigger_views;
use crate::spawning::entry_views;
use crate::text::{
    eq_ignore_case, has_prefix, lines, starts_with, lower_case_of, lower_seq, owned, parse_u32, parse_unsigned,
    split_lines, split_once, split_once_str, split_words, str_eq, str_to_lowercase, strip_prefix,
    trim, trim_seq, views, words,
};

verus! {

/// When a spawner attempts to create creatures.
#[derive(Debug, Clone, Copy, PartialEq, Eq, Structural)]
pub enum SpawnerTrigger {
    OnEnter,
    Periodic,
}

impl SpawnerTrigger {
    pub open spec fn name(self) -> Seq<char> {
        match self {
            SpawnerTrigger::OnEnter => "on_enter"@,
            SpawnerTrigger::Periodic => "periodic"@,
        }
    }

    /// `periodic` (in any case) means periodic; anything else means on enter.
    pub fn parse(s: &str) -> (r: SpawnerTrigger)
        ensures
            r == if lower_case_of(s@) == "periodic"@ {
                SpawnerTrigger::Periodic
            } else {
                SpawnerTrigger::OnEnter
            },
    {
        let lowered = str_to_lowercase(s);
        if str_eq(lowered.as_str(), "periodic") {
            SpawnerTrigger::Periodic
        } else {
            SpawnerTrigger::OnEnter
        }
    }

    pub fn as_str(self) -> (r: &'static str)
        ensures
            r@ == self.name(),
    {
        match self {
            SpawnerTrigger::OnEnter => "on_enter",
            SpawnerTrigger::Periodic => "periodic",
        }
    }
}

/// Reusable creature template for spawners (not placed until spawned).
#[derive(Debug, Clone, PartialEq, Eq)]
pub struct SpawnTemplateDef {
    pub base_name: String,
    pub name: Option<String>,
    pub creature: String,
    pub behaviors: Vec<NpcBehaviorDef>,
    pub use_behaviors: Vec<String>,
    pub triggers: Vec<TriggerDef>,
}

/// Weighted reference to a spawn template inside a spawner.
#[derive(Debug, Clone, PartialEq, Eq)]
pub struct SpawnerEntryDef {
    pub template: String,
    pub weight: u32,
}

pub struct SpawnerEntryView {
    pub template: Seq<char>,
    pub weight: u32,
}

impl View for SpawnerEntryDef {
    type V = SpawnerEntryView;

    open spec fn view(&self) -> SpawnerEntryView {
        SpawnerEntryView { template: self.template@, weight: self.weight }
    }
}

/// The weight after one part of an `@entry` line: a `weight=` part (in any
/// case) sets it, 1 when its number is unreadable; other parts keep `w`.
pub open spec fn weight_step(part: Seq<char>, w: u32) -> u32 {
    match split_once(part, "="@) {
        Some((k, v)) => if lower_seq(k) == "weight"@ {
            match parse_unsigned(v, u32::MAX as nat) {
                Some(n) => n as u32,
                None => 1,
            }
        } else {
            w
        },
        None => w,
    }
}

/// The weight that the parts after the template give, starting from 1.
pub open spec fn entry_weight(parts: Seq<Seq<char>>) -> u32
    decreases parts.len(),
{
    if parts.len() == 0 {
        1
    } else {
        weight_step(parts.last(), entry_weight(parts.drop_last()))
    }
}

fn apply_weight_part(part: &str, w: u32) -> (r: u32)
    ensures
        r == weight_step(part@, w),
{
    proof {
        reveal_strlit("weight");
        assert(lower_seq("weight"@) =~= "weight"@);
    }
    match split_once_str(part, "=") {
        Some((key, value)) => if eq_ignore_case(key, "weight") {
            match parse_u32(value) {
                Some(n) => n,
                None => 1,
            }
        } else {
            w
        },
        None => w,
    }
}

/// The entry an `@entry <template> [weight=N]` line names, if it names a template.
pub open spec fn entry_line_of(rest: Seq<char>) -> Option<SpawnerEntryView> {
    let ws = words(rest);
    if ws.len() == 0 {
        None
    } else {
        Some(SpawnerEntryView { template: ws[0], weight: entry_weight(ws.drop_first()) })
    }
}

/// Read the rest of an `@entry` line.
#[verifier::rlimit(30)]
pub fn parse_entry_line(rest: &str) -> (r: Option<SpawnerEntryDef>)
    ensures
        match r {
            Some(e) => entry_line_of(rest@) == Some(e@),
            None => entry_line_of(rest@) is None,
        },
{
    let parts = split_words(rest);
    let ghost ws = views(parts@);
    assert(ws == words(rest@));
    if parts.len() == 0 {
        return None;
    }
    let mut weight: u32 = 1;
    let mut i: usize = 1;
    while i < parts.len()
        invariant
            1 <= i <= parts@.len(),
            ws == views(parts@),
            weight == entry_weight(ws.subrange(1, i as int)),
        decreases parts@.len() - i,
    {
        assert(ws.subrange(1, i + 1).drop_last() =~= ws.subrange(1, i as int));
        assert(ws.subrange(1, i + 1).last() == parts@[i as int]@);
        weight = apply_weight_part(parts[i].as_str(), weight);
        i += 1;
    }
    assert(ws.subrange(1, parts@.len() as int) =~= ws.drop_first());
    let template = parts[0].clone();
    assert(ws[0] == template@);
    Some(SpawnerEntryDef { template, weight })
}

pub struct SpawnTemplateView {
    pub base_name: Seq<char>,
    pub name: Option<Seq<char>>,
    pub creature: Seq<char>,
    pub behaviors: Seq<NpcBehaviorView>,
    pub use_behaviors: Seq<Seq<char>>,
    pub triggers: Seq<TriggerDefView>,
}

impl View for SpawnTemplateDef {
    type V = SpawnTemplateView;

    open spec fn view(&self) -> SpawnTemplateView {
        SpawnTemplateView {
            base_name: self.base_name@,
            name: match &self.name {
                Some(n) => Some(n@),
                None => None,
            },
            creature: self.creature@,
            behaviors: behavior_views(self.behaviors@),
            use_behaviors: views(self.use_behaviors@),
            triggers: trigger_views(self.triggers@),
        }
    }
}

/// Spawner attached to a location — controls weighted random creature creation.
#[derive(Debug, Clone, PartialEq)]
pub struct SpawnerDef {
    pub base_name: String,
    /// Area base name when the spawner is room-attached.
    pub location: String,
    /// Item instance base name when the spawner is object-attached (ethereal).
    pub target: String,
    pub trigger: SpawnerTrigger,
    /// For `periodic`: attempt every N room entries (default 5).
    pub periodic_interval: u32,
    /// The text of the last `chance=` setting, when there is one. It is read
    /// as a probability in [0, 1] (1 when absent or unreadable) where the
    /// definition becomes a spawner object.
    pub chance: Option<String>,
    /// Maximum concurrently active creatures from this spawner in the location.
    pub max_active: u32,
    pub entries: Vec<SpawnerEntryDef>,
}

pub struct SpawnerView {
    pub base_name: Seq<char>,
    pub location: Seq<char>,
    pub target: Seq<char>,
    pub trigger: SpawnerTrigger,
    pub periodic_interval: u32,
    pub chance: Option<Seq<char>>,
    pub max_active: u32,
    pub entries: Seq<SpawnerEntryView>,
}

impl View for SpawnerDef {
    type V = SpawnerView;

    open spec fn view(&self) -> SpawnerView {
        SpawnerView {
            base_name: self.base_name@,
            location: self.location@,
            target: self.target@,
            trigger: self.trigger,
            periodic_interval: self.periodic_interval,
            chance: match &self.chance {
                Some(c) => Some(c@),
                None => None,
            },
            max_active: self.max_active,
            entries: entry_views(self.entries@),
        }
    }
}

/// The spawner trigger a setting names.
pub open spec fn spawner_trigger_of(value: Seq<char>) -> SpawnerTrigger {
    if lower_case_of(value) == "periodic"@ {
        SpawnerTrigger::Periodic
    } else {
        SpawnerTrigger::OnEnter
    }
}

/// A `key=value` setting applied to the open spawn template.
pub open spec fn template_setting(t: SpawnTemplateView, key: Seq<char>, value: Seq<char>) -> SpawnTemplateView {
    if key == "name"@ {
        SpawnTemplateView { name: Some(value), ..t }
    } else if key == "creature"@ {
        SpawnTemplateView { creature: value, ..t }
    } else {
        t
    }
}

/// A `key=value` setting applied to the open creature spawner.
pub open spec fn spawner_setting(s: SpawnerView, key: Seq<char>, value: Seq<char>) -> SpawnerView {
    if key == "location"@ {
        SpawnerView { location: value, ..s }
    } else if key == "target"@ || key == "attach"@ {
        SpawnerView { target: value, ..s }
    } else if key == "trigger"@ {
        SpawnerView { trigger: spawner_trigger_of(value), ..s }
    } else if key == "periodic_interval"@ {
        SpawnerView { periodic_interval: at_least_one(u32_or(value, 5)), ..s }
    } else if key == "chance"@ {
        SpawnerView { chance: Some(value), ..s }
    } else if key == "max_active"@ {
        SpawnerView { max_active: u32_or(value, 1), ..s }
    } else {
        s
    }
}

/// A fresh spawn template named `name`: a human with nothing else yet.
pub open spec fn new_spawn_template(name: Seq<char>) -> SpawnTemplateView {
    SpawnTemplateView {
        base_name: trim_seq(name),
        name: None,
        creature: "human"@,
        behaviors: Seq::empty(),
        use_behaviors: Seq::empty(),
        triggers: Seq::empty(),
    }
}

/// A fresh creature spawner named `name`, with the defaults.
pub open spec fn new_spawner(name: Seq<char>) -> SpawnerView {
    SpawnerView {
        base_name: trim_seq(name),
        location: Seq::empty(),
        target: Seq::empty(),
        trigger: SpawnerTrigger::OnEnter,
        periodic_interval: 5,
        chance: None,
        max_active: 1,
        entries: Seq::empty(),
    }
}

/// What has been read of a spawner file: the finished templates and spawners
/// and the open ones.
pub struct SpawnRead {
    pub templates: Seq<SpawnTemplateView>,
    pub spawners: Seq<SpawnerView>,
    pub template: Option<SpawnTemplateView>,
    pub spawner: Option<SpawnerView>,
}

pub open spec fn close_spawn_template(st: SpawnRead) -> SpawnRead {
    match st.template {
        Some(t) => SpawnRead { templates: st.templates.push(t), template: None, ..st },
        None => st,
    }
}

pub open spec fn close_spawner(st: SpawnRead) -> SpawnRead {
    match st.spawner {
        Some(s) => SpawnRead { spawners: st.spawners.push(s), spawner: None, ..st },
        None => st,
    }
}

/// A `key=value` line applied to whichever blocks are open.
pub open spec fn spawn_settings(st: SpawnRead, key: Seq<char>, value: Seq<char>) -> SpawnRead {
    SpawnRead {
        template: match st.template {
            Some(t) => Some(template_setting(t, key, value)),
            None => None,
        },
        spawner: match st.spawner {
            Some(s) => Some(spawner_setting(s, key, value)),
            None => None,
        },
        ..st
    }
}

/// The open template with `use-behavior` name `t` added, when it is new and not empty.
pub open spec fn with_use_behavior(t: SpawnTemplateView, name: Seq<char>) -> SpawnTemplateView {
    if name.len() > 0 && !t.use_behaviors.contains(name) {
        SpawnTemplateView { use_behaviors: t.use_behaviors.push(name), ..t }
    } else {
        t
    }
}

/// A template line: `@spawn-template`, `@trigger` or `@use-behavior`.
pub open spec fn is_template_line(line: Seq<char>) -> bool {
    has_prefix(line, "@spawn-template "@) || has_prefix(line, "@trigger "@) || has_prefix(
        line,
        "@use-behavior "@,
    )
}

/// A template line applied to what has been read.
pub open spec fn template_line(st: SpawnRead, line: Seq<char>) -> SpawnRead {
    if has_prefix(line, "@spawn-template "@) {
        SpawnRead { template: Some(new_spawn_template(line.skip(16))), ..close_spawn_template(close_spawner(st)) }
    } else if has_prefix(line, "@trigger "@) {
        match (st.template, trigger_of(line.skip(9))) {
            (Some(t), Some(g)) => SpawnRead { template: Some(SpawnTemplateView { triggers: t.triggers.push(g), ..t }), ..st },
            _ => st,
        }
    } else {
        match st.template {
            Some(t) => SpawnRead { template: Some(with_use_behavior(t, trim_seq(line.skip(14)))), ..st },
            None => st,
        }
    }
}

/// Any other line applied to what has been read.
pub open spec fn spawner_line(st: SpawnRead, line: Seq<char>) -> SpawnRead {
    if has_prefix(line, "@spawner "@) {
        SpawnRead { spawner: Some(new_spawner(line.skip(9))), ..close_spawner(close_spawn_template(st)) }
    } else if has_prefix(line, "@entry "@) {
        match (st.spawner, entry_line_of(line.skip(7))) {
            (Some(s), Some(e)) => SpawnRead { spawner: Some(SpawnerView { entries: s.entries.push(e), ..s }), ..st },
            _ => st,
        }
    } else if has_prefix(line, "@behavior "@) {
        match (st.template, scripted_behavior_of(line.skip(10))) {
            (Some(t), Some(b)) => SpawnRead { template: Some(SpawnTemplateView { behaviors: t.behaviors.push(b), ..t }), ..st },
            _ => st,
        }
    } else {
        match key_value(line) {
            Some((key, value)) => spawn_settings(st, key, value),
            None => st,
        }
    }
}

/// One source line of a creature spawner file.
#[verifier::opaque]
pub open spec fn spawn_step(st: SpawnRead, raw: Seq<char>) -> SpawnRead {
    let line = comment_free(raw);
    if line.len() == 0 {
        st
    } else if line == "@end"@ {
        close_spawner(close_spawn_template(st))
    } else if is_template_line(line) {
        template_line(st, line)
    } else {
        spawner_line(st, line)
    }
}

pub open spec fn spawn_fold(ls: Seq<Seq<char>>) -> SpawnRead
    decreases ls.len(),
{
    if ls.len() == 0 {
        SpawnRead { templates: Seq::empty(), spawners: Seq::empty(), template: None, spawner: None }
    } else {
        spawn_step(spawn_fold(ls.drop_last()), ls.last())
    }
}

/// The spawn templates and creature spawners of a MUDL source, in order.
pub open spec fn spawner_file_of(content: Seq<char>) -> (Seq<SpawnTemplateView>, Seq<SpawnerView>) {
    let st = close_spawner(close_spawn_template(spawn_fold(lines(content))));
    (st.templates, st.spawners)
}

pub open spec fn spawn_template_views(v: Seq<SpawnTemplateDef>) -> Seq<SpawnTemplateView> {
    v.map_values(|t: SpawnTemplateDef| t@)
}

pub open spec fn spawner_views(v: Seq<SpawnerDef>) -> Seq<SpawnerView> {
    v.map_values(|s: SpawnerDef| s@)
}

/// The reading state held by the parser.
pub struct SpawnReader {
    pub templates: Vec<SpawnTemplateDef>,
    pub spawners: Vec<SpawnerDef>,
    pub template: Option<SpawnTemplateDef>,
    pub spawner: Option<SpawnerDef>,
}

impl View for SpawnReader {
    type V = SpawnRead;

    open spec fn view(&self) -> SpawnRead {
        SpawnRead {
            templates: spawn_template_views(self.templates@),
            spawners: spawner_views(self.spawners@),
            template: match &self.template {
                Some(t) => Some(t@),
                None => None,
            },
            spawner: match &self.spawner {
                Some(s) => Some(s@),
                None => None,
            },
        }
    }
}

impl SpawnReader {
    fn close_template(&mut self)
        ensures
            final(self)@ == close_spawn_template(old(self)@),
    {
        if let Some(t) = self.template.take() {
            let ghost before = spawn_template_views(self.templates@);
            let ghost tv = t@;
            self.templates.push(t);
            assert(spawn_template_views(self.templates@) =~= before.push(tv));
        }
    }

    fn close_spawner(&mut self)
        ensures
            final(self)@ == close_spawner(old(self)@),
    {
        if let Some(s) = self.spawner.take() {
            let ghost before = spawner_views(self.spawners@);
            let ghost sv = s@;
            self.spawners.push(s);
            assert(spawner_views(self.spawners@) =~= before.push(sv));
        }
    }

    fn apply_settings(&mut self, key: &str, value: &str)
        ensures
            final(self)@ == spawn_settings(old(self)@, key@, value@),
    {
        if let Some(t) = self.template.take() {
            let mut t = t;
            if str_eq(key, "name") {
                t.name = Some(owned(value));
            } else if str_eq(key, "creature") {
                t.creature = owned(value);
            }
            self.template = Some(t);
        }
        if let Some(s) = self.spawner.take() {
            let mut s = s;
            let ghost s0 = s@;
            if str_eq(key, "location") {
                s.location = owned(value);
            } else if str_eq(key, "target") || str_eq(key, "attach") {
                s.target = owned(value);
            } else if str_eq(key, "trigger") {
                s.trigger = SpawnerTrigger::parse(value);
            } else if str_eq(key, "periodic_interval") {
                let n = read_u32_or(value, 5);
                s.periodic_interval = if n < 1 { 1 } else { n };
            } else if str_eq(key, "chance") {
                s.chance = Some(owned(value));
            } else if str_eq(key, "max_active") {
                s.max_active = read_u32_or(value, 1);
            }
            assert(s@ == spawner_setting(s0, key@, value@));
            self.spawner = Some(s);
        }
    }

    fn read_template_line(&mut self, line: &str)
        requires
            is_template_line(line@),
        ensures
            final(self)@ == template_line(old(self)@, line@),
    {
        proof {
            reveal_strlit("@spawn-template ");
            reveal_strlit("@trigger ");
            reveal_strlit("@use-behavior ");
        }
        if let Some(name) = strip_prefix(line, "@spawn-template ") {
            self.close_spawner();
            self.close_template();
            let t = SpawnTemplateDef {
                base_name: owned(trim(name)),
                name: None,
                creature: owned("human"),
                behaviors: Vec::new(),
                use_behaviors: Vec::new(),
                triggers: Vec::new(),
            };
            assert(t@ == new_spawn_template(line@.skip(16))) by {
                assert(name@ =~= line@.skip(16));
                assert(t@.behaviors =~= Seq::<NpcBehaviorView>::empty());
                assert(t@.use_behaviors =~= Seq::<Seq<char>>::empty());
                assert(t@.triggers =~= Seq::<TriggerDefView>::empty());
            }
            self.template = Some(t);
            return;
        }
        if let Some(rest) = strip_prefix(line, "@trigger ") {
            assert(rest@ =~= line@.skip(9));
            if self.template.is_some() {
                if let Some(g) = parse_trigger_line(rest) {
                    let mut t = self.template.take().unwrap();
                    let ghost before = trigger_views(t.triggers@);
                    let ghost gv = g@;
                    t.triggers.push(g);
                    assert(trigger_views(t.triggers@) =~= before.push(gv));
                    self.template = Some(t);
                }
            }
            return;
        }
        if let Some(name) = strip_prefix(line, "@use-behavior ") {
            assert(name@ =~= line@.skip(14));
            let b = trim(name);
            if self.template.is_some() {
                let mut t = self.template.take().unwrap();
                if b.unicode_len() > 0 && !names_contain(&t.use_behaviors, b) {
                    let ghost before = views(t.use_behaviors@);
                    t.use_behaviors.push(owned(b));
                    assert(views(t.use_behaviors@) =~= before.push(b@));
                }
                self.template = Some(t);
            }
        }
    }

    fn read_spawner_line(&mut self, line: &str)
        ensures
            final(self)@ == spawner_line(old(self)@, line@),
    {
        proof {
            reveal_strlit("@spawner ");
            reveal_strlit("@entry ");
            reveal_strlit("@behavior ");
        }
        if let Some(name) = strip_prefix(line, "@spawner ") {
            self.close_template();
            self.close_spawner();
            self.spawner = Some(
                SpawnerDef {
                    base_name: owned(trim(name)),
                    location: String::new(),
                    target: String::new(),
                    trigger: SpawnerTrigger::OnEnter,
                    periodic_interval: 5,
                    chance: None,
                    max_active: 1,
                    entries: Vec::new(),
                },
            );
            proof {
                assert(entry_views(Seq::<SpawnerEntryDef>::empty()) =~= Seq::<SpawnerEntryView>::empty());
            }
            return;
        }
        if let Some(rest) = strip_prefix(line, "@entry ") {
            if self.spawner.is_some() {
                if let Some(e) = parse_entry_line(rest) {
                    let mut s = self.spawner.take().unwrap();
                    let ghost before = entry_views(s.entries@);
                    let ghost ev = e@;
                    s.entries.push(e);
                    assert(entry_views(s.entries@) =~= before.push(ev));
                    self.spawner = Some(s);
                }
            }
            return;
        }
        if let Some(rest) = strip_prefix(line, "@behavior ") {
            assert(rest@ =~= line@.skip(10));
            if self.template.is_some() {
                if let Some(b) = parse_scripted_behavior(rest) {
                    let mut t = self.template.take().unwrap();
                    let ghost before = behavior_views(t.behaviors@);
                    let ghost bv = b@;
                    t.behaviors.push(b);
                    assert(behavior_views(t.behaviors@) =~= before.push(bv));
                    self.template = Some(t);
                }
            }
            return;
        }
        if let Some((key, value)) = split_key_value(line) {
            self.apply_settings(key.as_str(), value);
        }
    }

    fn read_line(&mut self, raw: &str)
        ensures
            final(self)@ == spawn_step(old(self)@, raw@),
    {
        proof {
            reveal(spawn_step);
            reveal_strlit("@end");
            reveal_strlit("@spawn-template ");
            reveal_strlit("@trigger ");
            reveal_strlit("@use-behavior ");
        }
        let line = strip_comment(raw);
        if line.unicode_len() == 0 {
            return;
        }
        if str_eq(line, "@end") {
            self.close_template();
            self.close_spawner();
            return;
        }
        let tl = starts_with(line, "@spawn-template ") || starts_with(line, "@trigger ")
            || starts_with(line, "@use-behavior ");
        if tl {
            self.read_template_line(line);
        } else {
            self.read_spawner_line(line);
        }
    }
}

/// Parse `@spawn-template`, `@spawner`, and related blocks from MUDL source.
pub fn parse_spawner_file(content: &str) -> (r: (Vec<SpawnTemplateDef>, Vec<SpawnerDef>))
    ensures
        (spawn_template_views(r.0@), spawner_views(r.1@)) == spawner_file_of(content@),
{
    let ls = split_lines(content);
    let mut rd = SpawnReader { templates: Vec::new(), spawners: Vec::new(), template: None, spawner: None };
    assert(rd@.templates =~= Seq::<SpawnTemplateView>::empty());
    assert(rd@.spawners =~= Seq::<SpawnerView>::empty());
    let mut i: usize = 0;
    while i < ls.len()
        invariant
            0 <= i <= ls@.len(),
            views(ls@) == lines(content@),
            rd@ == spawn_fold(views(ls@).take(i as int)),
        decreases ls@.len() - i,
    {
        let ghost ws = views(ls@);
        assert(ws.take(i + 1).drop_last() =~= ws.take(i as int));
        assert(ws.take(i + 1).last() == ls@[i as int]@);
        rd.read_line(ls[i].as_str());
        i += 1;
    }
    assert(views(ls@).take(ls@.len() as int) =~= views(ls@));
    rd.close_template();
    rd.close_spawner();
    (rd.templates, rd.spawners)
}

/// Every spawner read so far, and the open one, attempts at least every tick.
pub open spec fn spawn_intervals_positive(st: SpawnRead) -> bool {
    &&& forall|i: int| 0 <= i < st.spawners.len() ==> (#[trigger] st.spawners[i]).periodic_interval >= 1
    &&& st.spawner matches Some(s) ==> s.periodic_interval >= 1
}

proof fn lemma_spawn_closes_positive(st: SpawnRead)
    requires
        spawn_intervals_positive(st),
    ensures
        spawn_intervals_positive(close_spawn_template(st)),
        spawn_intervals_positive(close_spawner(st)),
        spawn_intervals_positive(close_spawner(close_spawn_template(st))),
        spawn_intervals_positive(close_spawn_template(close_spawner(st))),
{
    assert forall|a: SpawnRead| spawn_intervals_positive(a) implies spawn_intervals_positive(#[trigger] close_spawner(a)) by {
        let b = close_spawner(a);
        assert forall|i: int| 0 <= i < b.spawners.len() implies (#[trigger] b.spawners[i]).periodic_interval >= 1 by {
            if i < a.spawners.len() {
                assert(b.spawners[i] == a.spawners[i]);
            }
        }
    }
}

proof fn lemma_spawn_step_positive(st: SpawnRead, raw: Seq<char>)
    requires
        spawn_intervals_positive(st),
    ensures
        spawn_intervals_positive(spawn_step(st, raw)),
{
    reveal(spawn_step);
    lemma_spawn_closes_positive(st);
    let line = comment_free(raw);
    if line.len() == 0 || line == "@end"@ || is_template_line(line) {
    } else if has_prefix(line, "@spawner "@) || has_prefix(line, "@entry "@) || has_prefix(line, "@behavior "@) {
    } else {
        match key_value(line) {
            Some((key, value)) => {
                let b = spawn_settings(st, key, value);
                assert(b.spawners == st.spawners);
            },
            None => {},
        }
    }
}

proof fn lemma_spawn_fold_positive(ls: Seq<Seq<char>>)
    ensures
        spawn_intervals_positive(spawn_fold(ls)),
    decreases ls.len(),
{
    if ls.len() > 0 {
        lemma_spawn_fold_positive(ls.drop_last());
        lemma_spawn_step_positive(spawn_fold(ls.drop_last()), ls.last());
    }
}

/// Every creature spawner of a MUDL source attempts at least every tick: a
/// smaller (or unreadable) interval is read as 1 or the default.
pub proof fn law_spawner_intervals_positive(content: Seq<char>)
    ensures
        forall|i: int|
            0 <= i < spawner_file_of(content).1.len() ==> (#[trigger] spawner_file_of(content).1[i]).periodic_interval >= 1,
{
    lemma_spawn_fold_positive(lines(content));
    lemma_spawn_closes_positive(spawn_fold(lines(content)));
}

} // verus!
