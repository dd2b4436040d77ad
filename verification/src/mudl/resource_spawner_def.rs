//! Resource spawner definitions — renewable harvest nodes for crafting materials.

use vstd::prelude::*;

use super::lines::{comment_free, key_value, split_key_value, strip_comment};
use super::loot_spawner_def::{at_least_one, read_u32_or, u32_or};
use super::spawner_def::{entry_line_of, parse_entry_line, SpawnerEntryDef, SpawnerEntryView};
use crate::spawning::entry_views;
use crate::text::{
    has_prefix, lines, lower_case_of, owned, split_lines, str_eq, str_to_lowercase, strip_prefix, trim,
    trim_seq, views,
};

verus! {

/// When a resource spawner attempts to create items.
#[derive(Debug, Clone, Copy, PartialEq, Eq, Structural)]
pub enum ResourceSpawnerTrigger {
    OnEnter,
    OnHarvest,
    Timer,
}

/// The resource trigger a lower-case word names; unknown words mean on enter.
pub open spec fn resource_trigger_of(t: Seq<char>) -> ResourceSpawnerTrigger {
    if t == "on_harvest"@ || t == "harvest"@ {
        ResourceSpawnerTrigger::OnHarvest
    } else if t == "timer"@ || t == "periodic"@ {
        ResourceSpawnerTrigger::Timer
    } else {
        ResourceSpawnerTrigger::OnEnter
    }
}

impl ResourceSpawnerTrigger {
    pub open spec fn name(self) -> Seq<char> {
        match self {
            ResourceSpawnerTrigger::OnEnter => "on_enter"@,
            ResourceSpawnerTrigger::OnHarvest => "on_harvest"@,
            ResourceSpawnerTrigger::Timer => "timer"@,
        }
    }

    pub fn parse(s: &str) -> (r: ResourceSpawnerTrigger)
        ensures
            r == resource_trigger_of(lower_case_of(s@)),
    {
        let lowered = str_to_lowercase(s);
        let t = lowered.as_str();
        if str_eq(t, "on_harvest") || str_eq(t, "harvest") {
            ResourceSpawnerTrigger::OnHarvest
        } else if str_eq(t, "timer") || str_eq(t, "periodic") {
            ResourceSpawnerTrigger::Timer
        } else {
            ResourceSpawnerTrigger::OnEnter
        }
    }

    pub fn as_str(self) -> (r: &'static str)
        ensures
            r@ == self.name(),
    {
        match self {
            ResourceSpawnerTrigger::OnEnter => "on_enter",
            ResourceSpawnerTrigger::OnHarvest => "on_harvest",
            ResourceSpawnerTrigger::Timer => "timer",
        }
    }
}

/// Reusable resource template (references an item prototype).
#[derive(Debug, Clone, PartialEq, Eq)]
pub struct ResourceTemplateDef {
    pub base_name: String,
    pub prototype: String,
    pub count: u32,
}

pub struct ResourceTemplateView {
    pub base_name: Seq<char>,
    pub prototype: Seq<char>,
    pub count: u32,
}

impl View for ResourceTemplateDef {
    type V = ResourceTemplateView;

    open spec fn view(&self) -> ResourceTemplateView {
        ResourceTemplateView { base_name: self.base_name@, prototype: self.prototype@, count: self.count }
    }
}

/// Resource spawner attached to a harvestable object or location.
#[derive(Debug, Clone, PartialEq)]
pub struct ResourceSpawnerDef {
    pub base_name: String,
    /// Location or item base name of the harvestable object.
    pub target: String,
    pub trigger: ResourceSpawnerTrigger,
    /// For `timer`: attempt every N qualifying ticks (default 5).
    pub periodic_interval: u32,
    /// The text of the last `chance=` setting, when there is one. It is read
    /// as a probability in [0, 1] (1 when absent or unreadable) where the
    /// definition becomes a spawner object.
    pub chance: Option<String>,
    /// Maximum concurrently active resources from this spawner at the target.
    pub max_active: u32,
    /// When true, the spawner fires at most once per game.
    pub once: bool,
    pub entries: Vec<SpawnerEntryDef>,
}

pub struct ResourceSpawnerView {
    pub base_name: Seq<char>,
    pub target: Seq<char>,
    pub trigger: ResourceSpawnerTrigger,
    pub periodic_interval: u32,
    pub chance: Option<Seq<char>>,
    pub max_active: u32,
    pub once: bool,
    pub entries: Seq<SpawnerEntryView>,
}

impl View for ResourceSpawnerDef {
    type V = ResourceSpawnerView;

    open spec fn view(&self) -> ResourceSpawnerView {
        ResourceSpawnerView {
            base_name: self.base_name@,
            target: self.target@,
            trigger: self.trigger,
            periodic_interval: self.periodic_interval,
            chance: match &self.chance {
                Some(c) => Some(c@),
                None => None,
            },
            max_active: self.max_active,
            once: self.once,
            entries: entry_views(self.entries@),
        }
    }
}

/// A `key=value` setting applied to the open resource template.
pub open spec fn resource_template_setting(t: ResourceTemplateView, key: Seq<char>, value: Seq<char>) -> ResourceTemplateView {
    if key == "prototype"@ {
        ResourceTemplateView { prototype: value, ..t }
    } else if key == "count"@ {
        ResourceTemplateView { count: at_least_one(u32_or(value, 1)), ..t }
    } else {
        t
    }
}

/// A `key=value` setting applied to the open resource spawner.
pub open spec fn resource_spawner_setting(s: ResourceSpawnerView, key: Seq<char>, value: Seq<char>) -> ResourceSpawnerView {
    if key == "target"@ || key == "location"@ || key == "attach"@ {
        ResourceSpawnerView { target: value, ..s }
    } else if key == "trigger"@ {
        ResourceSpawnerView { trigger: resource_trigger_of(lower_case_of(value)), ..s }
    } else if key == "periodic_interval"@ || key == "interval"@ {
        ResourceSpawnerView { periodic_interval: at_least_one(u32_or(value, 5)), ..s }
    } else if key == "chance"@ {
        ResourceSpawnerView { chance: Some(value), ..s }
    } else if key == "max_active"@ {
        ResourceSpawnerView { max_active: u32_or(value, 4), ..s }
    } else if key == "once"@ {
        ResourceSpawnerView { once: value == "true"@, ..s }
    } else {
        s
    }
}

/// A fresh resource template named `name`.
pub open spec fn new_resource_template(name: Seq<char>) -> ResourceTemplateView {
    ResourceTemplateView { base_name: trim_seq(name), prototype: Seq::empty(), count: 1 }
}

/// A fresh resource spawner named `name`, with the defaults.
pub open spec fn new_resource_spawner(name: Seq<char>) -> ResourceSpawnerView {
    ResourceSpawnerView {
        base_name: trim_seq(name),
        target: Seq::empty(),
        trigger: ResourceSpawnerTrigger::OnHarvest,
        periodic_interval: 5,
        chance: None,
        max_active: 4,
        once: false,
        entries: Seq::empty(),
    }
}

/// What has been read of a resource file: the finished templates and spawners and
/// the open ones.
pub struct ResourceRead {
    pub templates: Seq<ResourceTemplateView>,
    pub spawners: Seq<ResourceSpawnerView>,
    pub template: Option<ResourceTemplateView>,
    pub spawner: Option<ResourceSpawnerView>,
}

pub open spec fn close_resource_template(st: ResourceRead) -> ResourceRead {
    match st.template {
        Some(t) => ResourceRead { templates: st.templates.push(t), template: None, ..st },
        None => st,
    }
}

pub open spec fn close_resource_spawner(st: ResourceRead) -> ResourceRead {
    match st.spawner {
        Some(s) => ResourceRead { spawners: st.spawners.push(s), spawner: None, ..st },
        None => st,
    }
}

/// A `key=value` line applied to whichever blocks are open.
pub open spec fn resource_settings(st: ResourceRead, key: Seq<char>, value: Seq<char>) -> ResourceRead {
    ResourceRead {
        template: match st.template {
            Some(t) => Some(resource_template_setting(t, key, value)),
            None => None,
        },
        spawner: match st.spawner {
            Some(s) => Some(resource_spawner_setting(s, key, value)),
            None => None,
        },
        ..st
    }
}

/// One source line of a resource file.
pub open spec fn resource_step(st: ResourceRead, raw: Seq<char>) -> ResourceRead {
    let line = comment_free(raw);
    if line.len() == 0 {
        st
    } else if line == "@end"@ {
        close_resource_spawner(close_resource_template(st))
    } else if has_prefix(line, "@resource-template "@) {
        ResourceRead { template: Some(new_resource_template(line.skip(19))), ..close_resource_template(close_resource_spawner(st)) }
    } else if has_prefix(line, "@resource-spawner "@) {
        ResourceRead { spawner: Some(new_resource_spawner(line.skip(18))), ..close_resource_spawner(close_resource_template(st)) }
    } else if has_prefix(line, "@entry "@) {
        match (st.spawner, entry_line_of(line.skip(7))) {
            (Some(s), Some(e)) => ResourceRead { spawner: Some(ResourceSpawnerView { entries: s.entries.push(e), ..s }), ..st },
            _ => st,
        }
    } else {
        match key_value(line) {
            Some((key, value)) => resource_settings(st, key, value),
            None => st,
        }
    }
}

pub open spec fn resource_fold(ls: Seq<Seq<char>>) -> ResourceRead
    decreases ls.len(),
{
    if ls.len() == 0 {
        ResourceRead { templates: Seq::empty(), spawners: Seq::empty(), template: None, spawner: None }
    } else {
        resource_step(resource_fold(ls.drop_last()), ls.last())
    }
}

/// The resource templates and spawners of a MUDL source, in order.
pub open spec fn resource_file_of(content: Seq<char>) -> (Seq<ResourceTemplateView>, Seq<ResourceSpawnerView>) {
    let st = close_resource_spawner(close_resource_template(resource_fold(lines(content))));
    (st.templates, st.spawners)
}

pub open spec fn resource_template_views(v: Seq<ResourceTemplateDef>) -> Seq<ResourceTemplateView> {
    v.map_values(|t: ResourceTemplateDef| t@)
}

pub open spec fn resource_spawner_views(v: Seq<ResourceSpawnerDef>) -> Seq<ResourceSpawnerView> {
    v.map_values(|s: ResourceSpawnerDef| s@)
}

/// The reading state held by the parser.
pub struct ResourceReader {
    pub templates: Vec<ResourceTemplateDef>,
    pub spawners: Vec<ResourceSpawnerDef>,
    pub template: Option<ResourceTemplateDef>,
    pub spawner: Option<ResourceSpawnerDef>,
}

impl View for ResourceReader {
    type V = ResourceRead;

    open spec fn view(&self) -> ResourceRead {
        ResourceRead {
            templates: resource_template_views(self.templates@),
            spawners: resource_spawner_views(self.spawners@),
            template: match &self.template {
                Some(t) => Some(t@),
                None => None,
            },
            spawner: match &self.spawner {
                Some(s) => Some(s@),
                None => None,
            },
        }
    }
}

impl ResourceReader {
    fn close_template(&mut self)
        ensures
            final(self)@ == close_resource_template(old(self)@),
    {
        if let Some(t) = self.template.take() {
            let ghost before = resource_template_views(self.templates@);
            let ghost tv = t@;
            self.templates.push(t);
            assert(resource_template_views(self.templates@) =~= before.push(tv));
        }
    }

    fn close_spawner(&mut self)
        ensures
            final(self)@ == close_resource_spawner(old(self)@),
    {
        if let Some(s) = self.spawner.take() {
            let ghost before = resource_spawner_views(self.spawners@);
            let ghost sv = s@;
            self.spawners.push(s);
            assert(resource_spawner_views(self.spawners@) =~= before.push(sv));
        }
    }

    fn apply_settings(&mut self, key: &str, value: &str)
        ensures
            final(self)@ == resource_settings(old(self)@, key@, value@),
    {
        if let Some(t) = self.template.take() {
            let mut t = t;
            if str_eq(key, "prototype") {
                t.prototype = owned(value);
            } else if str_eq(key, "count") {
                let n = read_u32_or(value, 1);
                t.count = if n < 1 { 1 } else { n };
            }
            self.template = Some(t);
        }
        if let Some(s) = self.spawner.take() {
            let mut s = s;
            let ghost s0 = s@;
            if str_eq(key, "target") || str_eq(key, "location") || str_eq(key, "attach") {
                s.target = owned(value);
            } else if str_eq(key, "trigger") {
                s.trigger = ResourceSpawnerTrigger::parse(value);
            } else if str_eq(key, "periodic_interval") || str_eq(key, "interval") {
                let n = read_u32_or(value, 5);
                s.periodic_interval = if n < 1 { 1 } else { n };
            } else if str_eq(key, "chance") {
                s.chance = Some(owned(value));
            } else if str_eq(key, "max_active") {
                s.max_active = read_u32_or(value, 4);
            } else if str_eq(key, "once") {
                s.once = str_eq(value, "true");
            }
            assert(s@ == resource_spawner_setting(s0, key@, value@));
            self.spawner = Some(s);
        }
    }

    fn read_line(&mut self, raw: &str)
        ensures
            final(self)@ == resource_step(old(self)@, raw@),
    {
        proof {
            reveal_strlit("@end");
            reveal_strlit("@resource-template ");
            reveal_strlit("@resource-spawner ");
            reveal_strlit("@entry ");
        }
        let line = strip_comment(raw);
        if line.unicode_len() == 0 {
            return;
        }
        if str_eq(line, "@end") {
            self.close_template();
            self.close_spawner();
            return;
        }
        if let Some(name) = strip_prefix(line, "@resource-template ") {
            self.close_spawner();
            self.close_template();
            self.template = Some(ResourceTemplateDef { base_name: owned(trim(name)), prototype: String::new(), count: 1 });
            return;
        }
        if let Some(name) = strip_prefix(line, "@resource-spawner ") {
            self.close_template();
            self.close_spawner();
            self.spawner = Some(
                ResourceSpawnerDef {
                    base_name: owned(trim(name)),
                    target: String::new(),
                    trigger: ResourceSpawnerTrigger::OnHarvest,
                    periodic_interval: 5,
                    chance: None,
                    max_active: 4,
                    once: false,
                    entries: Vec::new(),
                },
            );
            proof {
                assert(entry_views(Seq::<SpawnerEntryDef>::empty()) =~= Seq::<SpawnerEntryView>::empty());
            }
            return;
        }
        if let Some(rest) = strip_prefix(line, "@entry ") {
            if self.spawner.is_some() {
                if let Some(e) = parse_entry_line(rest) {
                    let mut s = self.spawner.take().unwrap();
                    let ghost before = entry_views(s.entries@);
                    let ghost ev = e@;
                    s.entries.push(e);
                    assert(entry_views(s.entries@) =~= before.push(ev));
                    self.spawner = Some(s);
                }
            }
            return;
        }
        if let Some((key, value)) = split_key_value(line) {
            self.apply_settings(key.as_str(), value);
        }
    }
}

/// Parse `@resource-template` and `@resource-spawner` blocks from MUDL source.
pub fn parse_resource_spawner_file(content: &str) -> (r: (Vec<ResourceTemplateDef>, Vec<ResourceSpawnerDef>))
    ensures
        (resource_template_views(r.0@), resource_spawner_views(r.1@)) == resource_file_of(content@),
{
    let ls = split_lines(content);
    let mut rd = ResourceReader { templates: Vec::new(), spawners: Vec::new(), template: None, spawner: None };
    assert(rd@.templates =~= Seq::<ResourceTemplateView>::empty());
    assert(rd@.spawners =~= Seq::<ResourceSpawnerView>::empty());
    let mut i: usize = 0;
    while i < ls.len()
        invariant
            0 <= i <= ls@.len(),
            views(ls@) == lines(content@),
            rd@ == resource_fold(views(ls@).take(i as int)),
        decreases ls@.len() - i,
    {
        let ghost ws = views(ls@);
        assert(ws.take(i + 1).drop_last() =~= ws.take(i as int));
        assert(ws.take(i + 1).last() == ls@[i as int]@);
        rd.read_line(ls[i].as_str());
        i += 1;
    }
    assert(views(ls@).take(ls@.len() as int) =~= views(ls@));
    rd.close_template();
    rd.close_spawner();
    (rd.templates, rd.spawners)
}

/// Every template read so far makes at least one item, and every spawner
/// attempts at least every tick.
pub open spec fn resource_counts_positive(st: ResourceRead) -> bool {
    &&& forall|i: int| 0 <= i < st.templates.len() ==> (#[trigger] st.templates[i]).count >= 1
    &&& st.template matches Some(t) ==> t.count >= 1
    &&& forall|i: int| 0 <= i < st.spawners.len() ==> (#[trigger] st.spawners[i]).periodic_interval >= 1
    &&& st.spawner matches Some(s) ==> s.periodic_interval >= 1
}

proof fn lemma_resource_closes_positive(st: ResourceRead)
    requires
        resource_counts_positive(st),
    ensures
        resource_counts_positive(close_resource_template(st)),
        resource_counts_positive(close_resource_spawner(st)),
        resource_counts_positive(close_resource_spawner(close_resource_template(st))),
        resource_counts_positive(close_resource_template(close_resource_spawner(st))),
{
    assert forall|a: ResourceRead| resource_counts_positive(a) implies resource_counts_positive(#[trigger] close_resource_template(a)) by {
        let b = close_resource_template(a);
        assert forall|i: int| 0 <= i < b.templates.len() implies (#[trigger] b.templates[i]).count >= 1 by {
            if i < a.templates.len() {
                assert(b.templates[i] == a.templates[i]);
            }
        }
    }
    assert forall|a: ResourceRead| resource_counts_positive(a) implies resource_counts_positive(#[trigger] close_resource_spawner(a)) by {
        let b = close_resource_spawner(a);
        assert forall|i: int| 0 <= i < b.spawners.len() implies (#[trigger] b.spawners[i]).periodic_interval >= 1 by {
            if i < a.spawners.len() {
                assert(b.spawners[i] == a.spawners[i]);
            }
        }
    }
}

proof fn lemma_resource_step_positive(st: ResourceRead, raw: Seq<char>)
    requires
        resource_counts_positive(st),
    ensures
        resource_counts_positive(resource_step(st, raw)),
{
    lemma_resource_closes_positive(st);
    let line = comment_free(raw);
    if line.len() == 0 || line == "@end"@ || has_prefix(line, "@resource-template "@) || has_prefix(
        line,
        "@resource-spawner "@,
    ) {
    } else if has_prefix(line, "@entry "@) {
    } else {
        match key_value(line) {
            Some((key, value)) => {
                let b = resource_settings(st, key, value);
                assert(b.templates == st.templates && b.spawners == st.spawners);
            },
            None => {},
        }
    }
}

proof fn lemma_resource_fold_positive(ls: Seq<Seq<char>>)
    ensures
        resource_counts_positive(resource_fold(ls)),
    decreases ls.len(),
{
    if ls.len() > 0 {
        lemma_resource_fold_positive(ls.drop_last());
        lemma_resource_step_positive(resource_fold(ls.drop_last()), ls.last());
    }
}

/// Every resource template of a MUDL source makes at least one item and every
/// resource spawner attempts at least every tick: smaller (or unreadable) counts
/// and intervals are read as 1 or the default.
pub proof fn law_resource_counts_positive(content: Seq<char>)
    ensures
        forall|i: int| 0 <= i < resource_file_of(content).0.len() ==> (#[trigger] resource_file_of(content).0[i]).count >= 1,
        forall|i: int|
            0 <= i < resource_file_of(content).1.len() ==> (#[trigger] resource_file_of(content).1[i]).periodic_interval >= 1,
{
    lemma_resource_fold_positive(lines(content));
    lemma_resource_closes_positive(resource_fold(lines(content)));
}

} // verus!
