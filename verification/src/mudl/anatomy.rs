//! Creature anatomy: body slots and the player spawn template.

use vstd::prelude::*;

use super::lines::{comment_free, key_value, split_key_value, strip_comment};
use crate::assoc::{get_entry, insert_entry, table, unique_keys, Keyed};
use crate::text::{
    concat2, has_prefix, lines, lower_case_of, owned, parse_i64, parse_signed, parse_u32, parse_unsigned,
    replace_char, replaced, rstrip_in, split_char, split_lines, split_on, split_once,
    split_once_str, split_words, starts_with, str_eq, str_to_lowercase, strip_prefix, trim,
    trim_end_in, trim_seq, views, words,
};

verus! {

/// What a body slot is used for (the MUDL `type=` attribute).
#[derive(Debug, Clone, Copy, PartialEq, Eq, Structural)]
pub enum SlotType {
    Grasp,
    Wear,
    Limb,
    Pocket,
    Container,
}

/// The slot type a lower-case name spells, if any.
pub open spec fn slot_type_of(lowered: Seq<char>) -> Option<SlotType> {
    if lowered == "grasp"@ {
        Some(SlotType::Grasp)
    } else if lowered == "wear"@ {
        Some(SlotType::Wear)
    } else if lowered == "limb"@ {
        Some(SlotType::Limb)
    } else if lowered == "pocket"@ {
        Some(SlotType::Pocket)
    } else if lowered == "container"@ {
        Some(SlotType::Container)
    } else {
        None
    }
}

impl SlotType {
    /// Parses a slot type name, ignoring case.
    pub fn parse(s: &str) -> (r: Option<SlotType>)
        ensures
            r == slot_type_of(lower_case_of(s@)),
    {
        let lowered = str_to_lowercase(s);
        let t = lowered.as_str();
        if str_eq(t, "grasp") {
            Some(SlotType::Grasp)
        } else if str_eq(t, "wear") {
            Some(SlotType::Wear)
        } else if str_eq(t, "limb") {
            Some(SlotType::Limb)
        } else if str_eq(t, "pocket") {
            Some(SlotType::Pocket)
        } else if str_eq(t, "container") {
            Some(SlotType::Container)
        } else {
            None
        }
    }
}

/// A single anatomical slot of a creature.
#[derive(Debug, Clone)]
pub struct BodySlotDef {
    pub name: String,
    pub capacity: u32,
    pub slot_type: SlotType,
    pub hands: u32,
    /// Optional ambient effect tag for this slot (injuries, curses, etc.).
    pub effect: Option<String>,
}

/// Anatomy slots and baseline vitals for a creature (e.g. human, cat).
#[derive(Debug, Clone)]
pub struct CreatureDef {
    pub name: String,
    pub slots: Vec<BodySlotDef>,
    pub max_health: i64,
    pub base_max_weight: Option<i64>,
    /// Baseline stats by name.
    pub stats: Vec<(String, i64)>,
    /// Baseline skills by name.
    pub skills: Vec<(String, i64)>,
}

/// The slots of `slots` whose type is `t`, in order.
pub open spec fn slots_typed(slots: Seq<BodySlotDef>, t: SlotType) -> Seq<BodySlotDef>
    decreases slots.len(),
{
    if slots.len() == 0 {
        Seq::empty()
    } else {
        let prev = slots_typed(slots.drop_last(), t);
        if slots.last().slot_type == t {
            prev.push(slots.last())
        } else {
            prev
        }
    }
}

/// The slot values behind a sequence of references.
pub open spec fn derefs(v: Seq<&BodySlotDef>) -> Seq<BodySlotDef> {
    v.map_values(|s: &BodySlotDef| *s)
}

impl CreatureDef {
    /// The first slot named `name`.
    pub fn slot(&self, name: &str) -> (r: Option<&BodySlotDef>)
        ensures
            match r {
                Some(s) => exists|i: int|
                    0 <= i < self.slots@.len() && self.slots@[i] == *s && s.name@ == name@ && forall|
                        j: int,
                    | 0 <= j < i ==> #[trigger] self.slots@[j].name@ != name@,
                None => forall|i: int| 0 <= i < self.slots@.len() ==> #[trigger] self.slots@[i].name@ != name@,
            },
    {
        let mut i: usize = 0;
        while i < self.slots.len()
            invariant
                0 <= i <= self.slots@.len(),
                forall|j: int| 0 <= j < i ==> #[trigger] self.slots@[j].name@ != name@,
            decreases self.slots@.len() - i,
        {
            if str_eq(self.slots[i].name.as_str(), name) {
                return Some(&self.slots[i]);
            }
            i += 1;
        }
        None
    }

    /// The slots of type `slot_type`, in order.
    pub fn slots_of_type(&self, slot_type: SlotType) -> (r: Vec<&BodySlotDef>)
        ensures
            derefs(r@) == slots_typed(self.slots@, slot_type),
    {
        let mut out: Vec<&BodySlotDef> = Vec::new();
        let mut i: usize = 0;
        while i < self.slots.len()
            invariant
                0 <= i <= self.slots@.len(),
                derefs(out@) == slots_typed(self.slots@.take(i as int), slot_type),
            decreases self.slots@.len() - i,
        {
            assert(self.slots@.take(i + 1).drop_last() =~= self.slots@.take(i as int));
            if self.slots[i].slot_type == slot_type {
                out.push(&self.slots[i]);
                assert(derefs(out@) =~= derefs(out@.drop_last()).push(self.slots@[i as int]));
            }
            i += 1;
        }
        assert(self.slots@.take(self.slots@.len() as int) =~= self.slots@);
        out
    }

    /// The slots that can hold things in hand.
    pub fn grasp_slots(&self) -> (r: Vec<&BodySlotDef>)
        ensures
            derefs(r@) == slots_typed(self.slots@, SlotType::Grasp),
    {
        self.slots_of_type(SlotType::Grasp)
    }

    /// The slots that can be worn on.
    pub fn wear_slots(&self) -> (r: Vec<&BodySlotDef>)
        ensures
            derefs(r@) == slots_typed(self.slots@, SlotType::Wear),
    {
        self.slots_of_type(SlotType::Wear)
    }
}

/// Player spawn template referencing a creature definition.
#[derive(Debug, Clone)]
pub struct PlayerTemplate {
    pub name: String,
    pub creature: String,
    pub gender: String,
}

/// A slot name with underscores shown as spaces.
pub open spec fn display_of(slot: Seq<char>) -> Seq<char> {
    replaced(slot, '_', ' ')
}

/// Human-readable slot label (e.g. `left_hand` → "left hand").
pub fn slot_display_name(slot: &str) -> (r: String)
    ensures
        r@ == display_of(slot@),
{
    replace_char(slot, '_', ' ')
}

impl Keyed for CreatureDef {
    open spec fn key(&self) -> Seq<char> {
        self.name@
    }

    fn key_str(&self) -> (r: &str) {
        self.name.as_str()
    }
}

impl Keyed for PlayerTemplate {
    open spec fn key(&self) -> Seq<char> {
        self.name@
    }

    fn key_str(&self) -> (r: &str) {
        self.name.as_str()
    }
}

/// Temporary or persistent condition modifying creature capabilities.
#[derive(Debug, Clone)]
pub struct EffectDef {
    pub name: String,
    pub mod_max_health: i64,
    pub mod_max_weight: i64,
    /// The text of the last `mod_encumbrance=` setting, when there is one. It
    /// is read as a factor (1.0 when absent or unreadable) where the effect is
    /// applied to a creature.
    pub mod_encumbrance: Option<String>,
    /// Stat modifiers by stat name.
    pub stat_mods: Vec<(String, i64)>,
    /// Skill modifiers by skill name.
    pub skill_mods: Vec<(String, i64)>,
    /// Health restored when the creature enters a new room (equipment-granted effects).
    pub regen_on_enter: i64,
    /// Condition category for cures and `when condition` checks (e.g. poison, bleed).
    pub condition_type: Option<String>,
    /// Tags matched by `cure-tag` scripts (defaults to `condition_type` when set).
    pub cure_tags: Vec<String>,
    /// Damage dealt each tick while active (`tick_on` event).
    pub damage_on_tick: i64,
    /// Health restored each tick while active (`tick_on` event).
    pub heal_on_tick: i64,
    /// Event that advances ticks and applies DOT/HoT (default `on_enter`).
    pub tick_on: String,
    /// Ticks until the condition expires (0 = until cured).
    pub duration_ticks: i64,
}

impl Keyed for EffectDef {
    open spec fn key(&self) -> Seq<char> {
        self.name@
    }

    fn key_str(&self) -> (r: &str) {
        self.name.as_str()
    }
}

/// Integer entries by name.
pub open spec fn int_table(v: Seq<(String, i64)>) -> Map<Seq<char>, i64> {
    table(v).map_values(|e: (String, i64)| e.1)
}

pub open spec fn opt_view(o: Option<String>) -> Option<Seq<char>> {
    match o {
        Some(s) => Some(s@),
        None => None,
    }
}

pub struct BodySlotView {
    pub name: Seq<char>,
    pub capacity: u32,
    pub slot_type: SlotType,
    pub hands: u32,
    pub effect: Option<Seq<char>>,
}

impl View for BodySlotDef {
    type V = BodySlotView;

    open spec fn view(&self) -> BodySlotView {
        BodySlotView {
            name: self.name@,
            capacity: self.capacity,
            slot_type: self.slot_type,
            hands: self.hands,
            effect: opt_view(self.effect),
        }
    }
}

pub open spec fn slot_views(v: Seq<BodySlotDef>) -> Seq<BodySlotView> {
    v.map_values(|s: BodySlotDef| s@)
}

pub struct CreatureView {
    pub name: Seq<char>,
    pub slots: Seq<BodySlotView>,
    pub max_health: i64,
    pub base_max_weight: Option<i64>,
    pub stats: Map<Seq<char>, i64>,
    pub skills: Map<Seq<char>, i64>,
}

impl View for CreatureDef {
    type V = CreatureView;

    open spec fn view(&self) -> CreatureView {
        CreatureView {
            name: self.name@,
            slots: slot_views(self.slots@),
            max_health: self.max_health,
            base_max_weight: self.base_max_weight,
            stats: int_table(self.stats@),
            skills: int_table(self.skills@),
        }
    }
}

impl CreatureDef {
    /// Stats and skills are keyed by name.
    pub open spec fn wf(&self) -> bool {
        unique_keys(self.stats@) && unique_keys(self.skills@)
    }
}

pub struct TemplateView {
    pub name: Seq<char>,
    pub creature: Seq<char>,
    pub gender: Seq<char>,
}

impl View for PlayerTemplate {
    type V = TemplateView;

    open spec fn view(&self) -> TemplateView {
        TemplateView { name: self.name@, creature: self.creature@, gender: self.gender@ }
    }
}

pub struct EffectView {
    pub name: Seq<char>,
    pub mod_max_health: i64,
    pub mod_max_weight: i64,
    pub mod_encumbrance: Option<Seq<char>>,
    pub stat_mods: Map<Seq<char>, i64>,
    pub skill_mods: Map<Seq<char>, i64>,
    pub regen_on_enter: i64,
    pub condition_type: Option<Seq<char>>,
    pub cure_tags: Seq<Seq<char>>,
    pub damage_on_tick: i64,
    pub heal_on_tick: i64,
    pub tick_on: Seq<char>,
    pub duration_ticks: i64,
}

impl View for EffectDef {
    type V = EffectView;

    open spec fn view(&self) -> EffectView {
        EffectView {
            name: self.name@,
            mod_max_health: self.mod_max_health,
            mod_max_weight: self.mod_max_weight,
            mod_encumbrance: opt_view(self.mod_encumbrance),
            stat_mods: int_table(self.stat_mods@),
            skill_mods: int_table(self.skill_mods@),
            regen_on_enter: self.regen_on_enter,
            condition_type: opt_view(self.condition_type),
            cure_tags: views(self.cure_tags@),
            damage_on_tick: self.damage_on_tick,
            heal_on_tick: self.heal_on_tick,
            tick_on: self.tick_on@,
            duration_ticks: self.duration_ticks,
        }
    }
}

/// The cure tags of an effect: its own, then its condition type when that is not among them.
pub open spec fn cure_tags_of(tags: Seq<Seq<char>>, kind: Option<Seq<char>>) -> Seq<Seq<char>> {
    match kind {
        Some(k) => if tags.contains(k) {
            tags
        } else {
            tags.push(k)
        },
        None => tags,
    }
}

impl EffectDef {
    pub open spec fn wf(&self) -> bool {
        unique_keys(self.stat_mods@) && unique_keys(self.skill_mods@)
    }

    /// Whether this definition behaves as a timed/DOT condition (not just a passive buff).
    pub fn is_condition(&self) -> (r: bool)
        ensures
            r == (self.condition_type is Some || self.damage_on_tick > 0 || self.heal_on_tick > 0
                || self.duration_ticks > 0),
    {
        self.condition_type.is_some() || self.damage_on_tick > 0 || self.heal_on_tick > 0
            || self.duration_ticks > 0
    }

    /// Tags used by `cure-tag` — explicit `cure_tags` plus `condition_type` when present.
    pub fn all_cure_tags(&self) -> (r: Vec<String>)
        ensures
            views(r@) == cure_tags_of(views(self.cure_tags@), opt_view(self.condition_type)),
    {
        let mut tags: Vec<String> = Vec::new();
        let mut i: usize = 0;
        while i < self.cure_tags.len()
            invariant
                0 <= i <= self.cure_tags@.len(),
                views(tags@) == views(self.cure_tags@).take(i as int),
            decreases self.cure_tags@.len() - i,
        {
            let t = self.cure_tags[i].clone();
            assert(t@ == views(self.cure_tags@)[i as int]);
            let ghost before = views(tags@);
            tags.push(t);
            assert(views(tags@) =~= before.push(t@));
            assert(views(self.cure_tags@).take(i + 1) =~= views(self.cure_tags@).take(i as int).push(
                views(self.cure_tags@)[i as int],
            ));
            i += 1;
        }
        assert(views(self.cure_tags@).take(self.cure_tags@.len() as int) =~= views(self.cure_tags@));
        if let Some(kind) = &self.condition_type {
            if !super::npc_def::names_contain(&tags, kind.as_str()) {
                let ghost before = views(tags@);
                tags.push(kind.clone());
                assert(views(tags@) =~= before.push(kind@));
            }
        }
        tags
    }
}

/// Loaded creature, player template and effect definitions, each keyed by name.
#[derive(Debug, Clone)]
pub struct AnatomyRegistry {
    pub creatures: Vec<CreatureDef>,
    pub player_templates: Vec<PlayerTemplate>,
    pub effects: Vec<EffectDef>,
}

pub struct AnatomyView {
    pub creatures: Map<Seq<char>, CreatureView>,
    pub templates: Map<Seq<char>, TemplateView>,
    pub effects: Map<Seq<char>, EffectView>,
}

impl View for AnatomyRegistry {
    type V = AnatomyView;

    open spec fn view(&self) -> AnatomyView {
        AnatomyView {
            creatures: table(self.creatures@).map_values(|c: CreatureDef| c@),
            templates: table(self.player_templates@).map_values(|t: PlayerTemplate| t@),
            effects: table(self.effects@).map_values(|e: EffectDef| e@),
        }
    }
}

impl AnatomyRegistry {
    /// Names are unique in each table.
    pub open spec fn wf(&self) -> bool {
        &&& unique_keys(self.creatures@)
        &&& unique_keys(self.player_templates@)
        &&& unique_keys(self.effects@)
    }

    /// An empty registry.
    pub fn new() -> (r: Self)
        ensures
            r.wf(),
            r@.creatures == Map::<Seq<char>, CreatureView>::empty(),
            r@.templates == Map::<Seq<char>, TemplateView>::empty(),
            r@.effects == Map::<Seq<char>, EffectView>::empty(),
    {
        let r = AnatomyRegistry { creatures: Vec::new(), player_templates: Vec::new(), effects: Vec::new() };
        assert(r@.creatures =~= Map::<Seq<char>, CreatureView>::empty());
        assert(r@.templates =~= Map::<Seq<char>, TemplateView>::empty());
        assert(r@.effects =~= Map::<Seq<char>, EffectView>::empty());
        r
    }

    /// Whether names are unique in each table, as the library's operations keep them.
    pub fn is_well_formed(&self) -> (r: bool)
        ensures
            r == self.wf(),
    {
        crate::assoc::check_unique(&self.creatures) && crate::assoc::check_unique(&self.player_templates)
            && crate::assoc::check_unique(&self.effects)
    }

    pub fn creature(&self, name: &str) -> (r: Option<&CreatureDef>)
        requires
            self.wf(),
        ensures
            r is Some == table(self.creatures@).contains_key(name@),
            r matches Some(c) ==> *c == table(self.creatures@)[name@],
    {
        get_entry(&self.creatures, name)
    }

    /// Alias for [`creature`](Self::creature) — legacy name for anatomy lookups.
    pub fn body_plan(&self, name: &str) -> (r: Option<&CreatureDef>)
        requires
            self.wf(),
        ensures
            r is Some == table(self.creatures@).contains_key(name@),
            r matches Some(c) ==> *c == table(self.creatures@)[name@],
    {
        self.creature(name)
    }

    pub fn effect(&self, name: &str) -> (r: Option<&EffectDef>)
        requires
            self.wf(),
        ensures
            r is Some == table(self.effects@).contains_key(name@),
            r matches Some(e) ==> *e == table(self.effects@)[name@],
    {
        get_entry(&self.effects, name)
    }

    pub fn player_template(&self, name: &str) -> (r: Option<&PlayerTemplate>)
        requires
            self.wf(),
        ensures
            r is Some == table(self.player_templates@).contains_key(name@),
            r matches Some(t) ==> *t == table(self.player_templates@)[name@],
    {
        get_entry(&self.player_templates, name)
    }

    pub fn default_template(&self) -> (r: Option<&PlayerTemplate>)
        requires
            self.wf(),
        ensures
            r is Some == table(self.player_templates@).contains_key("default"@),
            r matches Some(t) ==> *t == table(self.player_templates@)["default"@],
    {
        self.player_template("default")
    }

    /// Adds every definition of `other`, replacing those of the same name.
    pub fn merge(&mut self, other: AnatomyRegistry)
        requires
            old(self).wf(),
            other.wf(),
        ensures
            final(self).wf(),
            final(self)@.creatures == old(self)@.creatures.union_prefer_right(other@.creatures),
            final(self)@.templates == old(self)@.templates.union_prefer_right(other@.templates),
            final(self)@.effects == old(self)@.effects.union_prefer_right(other@.effects),
    {
        let AnatomyRegistry { creatures, player_templates, effects } = other;
        let ghost oc = table(creatures@);
        let ghost ot = table(player_templates@);
        let ghost oe = table(effects@);
        merge_table(&mut self.creatures, creatures);
        merge_table(&mut self.player_templates, player_templates);
        merge_table(&mut self.effects, effects);
        proof {
            lemma_union_views(table(old(self).creatures@), oc, |c: CreatureDef| c@);
            lemma_union_views(table(old(self).player_templates@), ot, |t: PlayerTemplate| t@);
            lemma_union_views(table(old(self).effects@), oe, |e: EffectDef| e@);
        }
    }
}

proof fn lemma_union_views<T, V>(a: Map<Seq<char>, T>, b: Map<Seq<char>, T>, f: spec_fn(T) -> V)
    ensures
        a.union_prefer_right(b).map_values(f) == a.map_values(f).union_prefer_right(b.map_values(f)),
{
    assert(a.union_prefer_right(b).map_values(f) =~= a.map_values(f).union_prefer_right(b.map_values(f)));
}

/// Inserts every entry of `from` into `into`, in order.
fn merge_table<T: Keyed>(into: &mut Vec<T>, from: Vec<T>)
    requires
        unique_keys(old(into)@),
        unique_keys(from@),
    ensures
        unique_keys(final(into)@),
        table(final(into)@) == table(old(into)@).union_prefer_right(table(from@)),
{
    let ghost t0 = table(into@);
    let ghost f = from@;
    let mut rest = from;
    let mut k: usize = 0;
    assert(f.len() == rest.len());
    assert(f.take(0) =~= Seq::<T>::empty());
    assert(table(f.take(0)) =~= Map::<Seq<char>, T>::empty());
    assert(t0.union_prefer_right(table(f.take(0))) =~= t0);
    while rest.len() > 0
        invariant
            unique_keys(into@),
            unique_keys(f),
            k <= f.len(),
            f.len() <= usize::MAX,
            rest@ == f.skip(k as int),
            table(into@) == t0.union_prefer_right(table(f.take(k as int))),
        decreases rest@.len(),
    {
        let x = rest.remove(0);
        assert(x == f[k as int]);
        assert(rest@ =~= f.skip(k + 1));
        insert_entry(into, x);
        proof {
            lemma_table_take(f, k as int);
        }
        k = k + 1;
        assert(table(into@) =~= t0.union_prefer_right(table(f.take(k as int))));
    }
    assert(f.take(f.len() as int) =~= f);
}

/// Taking one more entry of a keyed sequence adds exactly that entry.
proof fn lemma_table_take<T: Keyed>(f: Seq<T>, i: int)
    requires
        unique_keys(f),
        0 <= i < f.len(),
    ensures
        table(f.take(i + 1)) == table(f.take(i)).insert(f[i].key(), f[i]),
{
    let a = f.take(i + 1);
    let b = f.take(i);
    assert forall|k: Seq<char>| #[trigger] crate::assoc::has_key(a, k) == (k == f[i].key() || crate::assoc::has_key(b, k)) by {
        if crate::assoc::has_key(a, k) {
            let j = choose|j: int| 0 <= j < a.len() && a[j].key() == k;
            if j < i {
                assert(b[j] == a[j]);
            }
        }
        if crate::assoc::has_key(b, k) {
            let j = choose|j: int| 0 <= j < b.len() && b[j].key() == k;
            assert(a[j] == b[j]);
        }
        if k == f[i].key() {
            assert(a[i] == f[i]);
        }
    }
    assert forall|k: Seq<char>| crate::assoc::has_key(a, k) implies #[trigger] table(a)[k] == table(b).insert(f[i].key(), f[i])[k] by {
        let ja = crate::assoc::key_index(a, k);
        if k == f[i].key() {
            assert(a[i].key() == k);
            assert(ja == i) by {
                if ja != i {
                    assert(a[ja] == f[ja]);
                }
            }
        } else {
            let jb = crate::assoc::key_index(b, k);
            assert(a[jb] == b[jb]);
            assert(ja == jb) by {
                if ja != jb {
                    assert(a[ja] == f[ja]);
                    assert(b[jb] == f[jb]);
                }
            }
        }
    }
    assert(table(a) =~= table(b).insert(f[i].key(), f[i]));
}

// ---------------------------------------------------------------------------
// Reading anatomy files

/// A block name: the text after the directive, trimmed, without a trailing `{`.
pub open spec fn block_name(rest: Seq<char>) -> Seq<char> {
    trim_seq(rstrip_in(trim_seq(rest), seq!['{']))
}

/// A number setting read as `i64`, `d` when unreadable.
pub open spec fn i64_or(value: Seq<char>, d: i64) -> i64 {
    match parse_signed(value) {
        Some(n) => n as i64,
        None => d,
    }
}

/// A number setting read as `i64`, if readable.
pub open spec fn i64_opt(value: Seq<char>) -> Option<i64> {
    match parse_signed(value) {
        Some(n) => Some(n as i64),
        None => None,
    }
}

/// Not below zero.
pub open spec fn non_negative(n: i64) -> i64 {
    if n < 0 {
        0
    } else {
        n
    }
}

/// `s` with every leading copy of `p` removed (`str::trim_start_matches`).
pub open spec fn strip_all(s: Seq<char>, p: Seq<char>) -> Seq<char>
    decreases s.len(),
{
    if p.len() > 0 && has_prefix(s, p) {
        strip_all(s.skip(p.len() as int), p)
    } else {
        s
    }
}

/// The trimmed, non-empty pieces of a comma-separated list, in order.
pub open spec fn tag_list(parts: Seq<Seq<char>>) -> Seq<Seq<char>>
    decreases parts.len(),
{
    if parts.len() == 0 {
        Seq::empty()
    } else {
        let prev = tag_list(parts.drop_last());
        let t = trim_seq(parts.last());
        if t.len() > 0 {
            prev.push(t)
        } else {
            prev
        }
    }
}

/// The value of the last `key=value` part whose key, in lower case, is `key`.
pub open spec fn attr_of(parts: Seq<Seq<char>>, key: Seq<char>) -> Option<Seq<char>>
    decreases parts.len(),
{
    if parts.len() == 0 {
        None
    } else {
        match split_once(parts.last(), "="@) {
            Some((k, v)) => if lower_case_of(k) == key {
                Some(v)
            } else {
                attr_of(parts.drop_last(), key)
            },
            None => attr_of(parts.drop_last(), key),
        }
    }
}

/// A `u32` attribute, 1 when absent or unreadable.
pub open spec fn attr_count(parts: Seq<Seq<char>>, key: Seq<char>) -> u32 {
    match attr_of(parts, key) {
        Some(v) => match parse_unsigned(v, u32::MAX as nat) {
            Some(n) => n as u32,
            None => 1,
        },
        None => 1,
    }
}

/// The slot an `@slot <name> [capacity=N] [type=T] [hands=N] [effect=E]` line
/// defines, if it names one.
pub open spec fn slot_of(rest: Seq<char>) -> Option<BodySlotView> {
    let ws = words(rest);
    if ws.len() == 0 {
        None
    } else {
        let attrs = ws.skip(1);
        Some(
            BodySlotView {
                name: ws[0],
                capacity: attr_count(attrs, "capacity"@),
                slot_type: match attr_of(attrs, "type"@) {
                    Some(t) => match slot_type_of(lower_case_of(t)) {
                        Some(x) => x,
                        None => SlotType::Grasp,
                    },
                    None => SlotType::Grasp,
                },
                hands: attr_count(attrs, "hands"@),
                effect: attr_of(attrs, "effect"@),
            },
        )
    }
}

/// A `@stat`/`@skill` line: `name=value` or `name value`.
pub open spec fn stat_line_of(rest: Seq<char>) -> Option<(Seq<char>, i64)> {
    let r = trim_seq(rest);
    match split_once(r, "="@) {
        Some((n, v)) => match i64_opt(trim_seq(v)) {
            Some(x) => Some((trim_seq(n), x)),
            None => None,
        },
        None => {
            let ws = words(r);
            if ws.len() < 2 {
                None
            } else {
                match i64_opt(ws[1]) {
                    Some(x) => Some((ws[0], x)),
                    None => None,
                }
            }
        },
    }
}

pub open spec fn new_creature(name: Seq<char>) -> CreatureView {
    CreatureView {
        name,
        slots: Seq::empty(),
        max_health: 100,
        base_max_weight: None,
        stats: Map::empty(),
        skills: Map::empty(),
    }
}

pub open spec fn new_effect(name: Seq<char>) -> EffectView {
    EffectView {
        name,
        mod_max_health: 0,
        mod_max_weight: 0,
        mod_encumbrance: None,
        stat_mods: Map::empty(),
        skill_mods: Map::empty(),
        regen_on_enter: 0,
        condition_type: None,
        cure_tags: Seq::empty(),
        damage_on_tick: 0,
        heal_on_tick: 0,
        tick_on: "on_enter"@,
        duration_ticks: 0,
    }
}

pub open spec fn new_template(name: Seq<char>) -> TemplateView {
    TemplateView { name, creature: "human"@, gender: "neutral"@ }
}

pub open spec fn creature_setting(c: CreatureView, key: Seq<char>, value: Seq<char>) -> CreatureView {
    if key == "max_health"@ {
        CreatureView { max_health: i64_or(value, 100), ..c }
    } else if key == "base_max_weight"@ {
        CreatureView { base_max_weight: i64_opt(value), ..c }
    } else {
        c
    }
}

pub open spec fn template_setting(t: TemplateView, key: Seq<char>, value: Seq<char>) -> TemplateView {
    if key == "creature"@ || key == "body_plan"@ {
        TemplateView { creature: value, ..t }
    } else if key == "gender"@ {
        TemplateView { gender: value, ..t }
    } else {
        t
    }
}

pub open spec fn effect_setting(e: EffectView, key: Seq<char>, value: Seq<char>) -> EffectView {
    if key == "mod_max_health"@ || key == "mod_health"@ {
        EffectView { mod_max_health: i64_or(value, 0), ..e }
    } else if key == "mod_max_weight"@ {
        EffectView { mod_max_weight: i64_or(value, 0), ..e }
    } else if key == "mod_encumbrance"@ {
        EffectView { mod_encumbrance: Some(value), ..e }
    } else if key == "regen_on_enter"@ || key == "regen"@ {
        EffectView { regen_on_enter: i64_or(value, 0), ..e }
    } else if has_prefix(key, "mod_stat_"@) {
        match i64_opt(value) {
            Some(v) => EffectView { stat_mods: e.stat_mods.insert(strip_all(key, "mod_stat_"@), v), ..e },
            None => e,
        }
    } else if has_prefix(key, "mod_skill_"@) {
        match i64_opt(value) {
            Some(v) => EffectView { skill_mods: e.skill_mods.insert(strip_all(key, "mod_skill_"@), v), ..e },
            None => e,
        }
    } else if key == "condition"@ || key == "condition_type"@ || key == "kind"@ {
        EffectView { condition_type: Some(value), ..e }
    } else if key == "cure_tag"@ || key == "cure_tags"@ || key == "cures"@ {
        EffectView { cure_tags: tag_list(split_char(value, ',')), ..e }
    } else if key == "damage_on_tick"@ || key == "dot"@ || key == "damage_per_tick"@ {
        EffectView { damage_on_tick: non_negative(i64_or(value, 0)), ..e }
    } else if key == "heal_on_tick"@ || key == "hot"@ || key == "heal_per_tick"@ || key == "regen_per_tick"@ {
        EffectView { heal_on_tick: non_negative(i64_or(value, 0)), ..e }
    } else if key == "tick_on"@ || key == "tick_event"@ {
        EffectView { tick_on: value, ..e }
    } else if key == "duration"@ || key == "duration_ticks"@ || key == "ticks"@ {
        EffectView { duration_ticks: non_negative(i64_or(value, 0)), ..e }
    } else {
        e
    }
}

/// What has been read of an anatomy file: the registry so far and the open blocks.
pub struct AnatRead {
    pub reg: AnatomyView,
    pub creature: Option<CreatureView>,
    pub template: Option<TemplateView>,
    pub effect: Option<EffectView>,
}

/// `}` or `@end`: the open blocks go into the registry under their names.
pub open spec fn close_blocks(st: AnatRead) -> AnatRead {
    AnatRead {
        reg: AnatomyView {
            creatures: match st.creature {
                Some(c) => st.reg.creatures.insert(c.name, c),
                None => st.reg.creatures,
            },
            templates: match st.template {
                Some(t) => st.reg.templates.insert(t.name, t),
                None => st.reg.templates,
            },
            effects: match st.effect {
                Some(e) => st.reg.effects.insert(e.name, e),
                None => st.reg.effects,
            },
        },
        creature: None,
        template: None,
        effect: None,
    }
}

/// A `key=value` line applied to whichever blocks are open.
pub open spec fn anat_settings(st: AnatRead, key: Seq<char>, value: Seq<char>) -> AnatRead {
    AnatRead {
        creature: match st.creature {
            Some(c) => Some(creature_setting(c, key, value)),
            None => None,
        },
        template: match st.template {
            Some(t) => Some(template_setting(t, key, value)),
            None => None,
        },
        effect: match st.effect {
            Some(e) => Some(effect_setting(e, key, value)),
            None => None,
        },
        ..st
    }
}

/// A block header: `@creature`, `@body-plan`, `@effect`, `@condition` or `@player-template`.
pub open spec fn is_header(line: Seq<char>) -> bool {
    has_prefix(line, "@creature "@) || has_prefix(line, "@body-plan "@) || has_prefix(line, "@effect "@)
        || has_prefix(line, "@condition "@) || has_prefix(line, "@player-template "@)
}

/// A block header applied to what has been read; a creature or effect
/// without a name is an error.
pub open spec fn header_line(st: AnatRead, line: Seq<char>) -> Result<AnatRead, Seq<char>> {
    if has_prefix(line, "@creature "@) || has_prefix(line, "@body-plan "@) {
        let name = block_name(if has_prefix(line, "@creature "@) { line.skip(10) } else { line.skip(11) });
        if name.len() == 0 {
            Err("@creature missing name: "@ + line)
        } else {
            Ok(AnatRead { creature: Some(new_creature(name)), template: None, effect: None, ..st })
        }
    } else if has_prefix(line, "@effect "@) || has_prefix(line, "@condition "@) {
        let name = block_name(if has_prefix(line, "@effect "@) { line.skip(8) } else { line.skip(11) });
        if name.len() == 0 {
            Err("@effect missing name: "@ + line)
        } else {
            Ok(AnatRead { effect: Some(new_effect(name)), creature: None, template: None, ..st })
        }
    } else {
        Ok(AnatRead { template: Some(new_template(block_name(line.skip(17)))), creature: None, effect: None, ..st })
    }
}

/// Any other line applied to what has been read; a slot without a name is an error.
pub open spec fn body_line(st: AnatRead, line: Seq<char>) -> Result<AnatRead, Seq<char>> {
    if has_prefix(line, "@slot "@) {
        match slot_of(line.skip(6)) {
            None => Err("@slot missing name: "@ + line),
            Some(sl) => Ok(
                match st.creature {
                    Some(c) => AnatRead { creature: Some(CreatureView { slots: c.slots.push(sl), ..c }), ..st },
                    None => st,
                },
            ),
        }
    } else if has_prefix(line, "@stat "@) {
        Ok(
            match (stat_line_of(line.skip(6)), st.creature) {
                (Some((n, v)), Some(c)) => AnatRead { creature: Some(CreatureView { stats: c.stats.insert(n, v), ..c }), ..st },
                _ => st,
            },
        )
    } else if has_prefix(line, "@skill "@) {
        Ok(
            match (stat_line_of(line.skip(7)), st.creature) {
                (Some((n, v)), Some(c)) => AnatRead { creature: Some(CreatureView { skills: c.skills.insert(n, v), ..c }), ..st },
                _ => st,
            },
        )
    } else {
        Ok(
            match key_value(line) {
                Some((key, value)) => anat_settings(st, key, value),
                None => st,
            },
        )
    }
}

/// One source line of an anatomy file.
#[verifier::opaque]
pub open spec fn anat_step(st: AnatRead, raw: Seq<char>) -> Result<AnatRead, Seq<char>> {
    let line = comment_free(raw);
    if line.len() == 0 {
        Ok(st)
    } else if line == "}"@ || line == "@end"@ {
        Ok(close_blocks(st))
    } else if is_header(line) {
        header_line(st, line)
    } else {
        body_line(st, line)
    }
}

pub open spec fn empty_anatomy() -> AnatomyView {
    AnatomyView { creatures: Map::empty(), templates: Map::empty(), effects: Map::empty() }
}

/// The state after reading `ls` in order; the first error stops the reading.
pub open spec fn anat_fold(ls: Seq<Seq<char>>) -> Result<AnatRead, Seq<char>>
    decreases ls.len(),
{
    if ls.len() == 0 {
        Ok(AnatRead { reg: empty_anatomy(), creature: None, template: None, effect: None })
    } else {
        match anat_fold(ls.drop_last()) {
            Ok(st) => anat_step(st, ls.last()),
            Err(e) => Err(e),
        }
    }
}

/// The definitions of an anatomy file (blocks still open at its end are
/// dropped), or the message of its first malformed line.
pub open spec fn anatomy_of(content: Seq<char>) -> Result<AnatomyView, Seq<char>> {
    match anat_fold(lines(content)) {
        Ok(st) => Ok(st.reg),
        Err(e) => Err(e),
    }
}

/// Once the reading has failed, reading more lines keeps the same error.
proof fn lemma_anat_error_stays(ls: Seq<Seq<char>>, i: int, e: Seq<char>)
    requires
        0 <= i <= ls.len(),
        anat_fold(ls.take(i)) == Err::<AnatRead, Seq<char>>(e),
    ensures
        anat_fold(ls) == Err::<AnatRead, Seq<char>>(e),
    decreases ls.len() - i,
{
    if i < ls.len() {
        assert(ls.take(i + 1).drop_last() =~= ls.take(i));
        lemma_anat_error_stays(ls, i + 1, e);
    } else {
        assert(ls.take(i) =~= ls);
    }
}

fn read_block_name(rest: &str) -> (r: String)
    ensures
        r@ == block_name(rest@),
{
    let brace = vec!['{'];
    assert(brace@ =~= seq!['{']);
    owned(trim(trim_end_in(trim(rest), &brace)))
}

pub(crate) fn strip_all_str<'a>(s: &'a str, p: &str) -> (r: &'a str)
    requires
        p@.len() > 0,
    ensures
        r@ == strip_all(s@, p@),
{
    let mut cur = s;
    loop
        invariant
            p@.len() > 0,
            strip_all(s@, p@) == strip_all(cur@, p@),
        decreases cur@.len(),
    {
        match strip_prefix(cur, p) {
            Some(rest) => {
                assert(rest@ =~= cur@.skip(p@.len() as int));
                cur = rest;
            },
            None => {
                return cur;
            },
        }
    }
}

fn read_tag_list(value: &str) -> (r: Vec<String>)
    ensures
        views(r@) == tag_list(split_char(value@, ',')),
{
    let parts = split_on(value, ',');
    let ghost ps = views(parts@);
    let mut out: Vec<String> = Vec::new();
    let mut i: usize = 0;
    while i < parts.len()
        invariant
            0 <= i <= parts@.len(),
            ps == views(parts@),
            views(out@) == tag_list(ps.take(i as int)),
        decreases parts@.len() - i,
    {
        assert(ps.take(i + 1).drop_last() =~= ps.take(i as int));
        assert(ps.take(i + 1).last() == parts@[i as int]@);
        let t = trim(parts[i].as_str());
        if t.unicode_len() > 0 {
            let ghost before = views(out@);
            out.push(owned(t));
            assert(views(out@) =~= before.push(t@));
        }
        i += 1;
    }
    assert(ps.take(parts@.len() as int) =~= ps);
    out
}

/// The value of attribute `key` among the words after the slot name.
fn find_attr(ws: &Vec<String>, key: &str) -> (r: Option<String>)
    requires
        ws@.len() >= 1,
    ensures
        opt_view(r) == attr_of(views(ws@).skip(1), key@),
{
    let ghost vs = views(ws@);
    let mut j: usize = ws.len();
    assert(vs.subrange(1, j as int) =~= vs.skip(1));
    while j > 1
        invariant
            1 <= j <= ws@.len(),
            vs == views(ws@),
            attr_of(vs.skip(1), key@) == attr_of(vs.subrange(1, j as int), key@),
        decreases j,
    {
        let ghost sub = vs.subrange(1, j as int);
        assert(sub.drop_last() =~= vs.subrange(1, j - 1));
        assert(sub.last() == ws@[j - 1]@);
        if let Some((k, v)) = split_once_str(ws[j - 1].as_str(), "=") {
            let lowered = str_to_lowercase(k);
            if str_eq(lowered.as_str(), key) {
                return Some(owned(v));
            }
        }
        j -= 1;
    }
    assert(vs.subrange(1, 1) =~= Seq::<Seq<char>>::empty());
    None
}

fn attr_count_of(ws: &Vec<String>, key: &str) -> (r: u32)
    requires
        ws@.len() >= 1,
    ensures
        r == attr_count(views(ws@).skip(1), key@),
{
    match find_attr(ws, key) {
        Some(v) => match parse_u32(v.as_str()) {
            Some(n) => n,
            None => 1,
        },
        None => 1,
    }
}

fn read_slot(rest: &str) -> (r: Option<BodySlotDef>)
    ensures
        match r {
            Some(sl) => slot_of(rest@) == Some(sl@),
            None => slot_of(rest@) is None,
        },
{
    let ws = split_words(rest);
    if ws.len() == 0 {
        return None;
    }
    let ghost attrs = views(ws@).skip(1);
    let capacity = attr_count_of(&ws, "capacity");
    let slot_type = match find_attr(&ws, "type") {
        Some(t) => match SlotType::parse(t.as_str()) {
            Some(x) => x,
            None => SlotType::Grasp,
        },
        None => SlotType::Grasp,
    };
    let hands = attr_count_of(&ws, "hands");
    let effect = find_attr(&ws, "effect");
    let name = ws[0].clone();
    assert(name@ == words(rest@)[0]);
    Some(BodySlotDef { name, capacity, slot_type, hands, effect })
}

/// A `@stat`/`@skill` line: `name=value` or `name value`.
pub fn parse_stat_line(rest: &str) -> (r: Option<(String, i64)>)
    ensures
        match r {
            Some((n, v)) => stat_line_of(rest@) == Some((n@, v)),
            None => stat_line_of(rest@) is None,
        },
{
    let r = trim(rest);
    match split_once_str(r, "=") {
        Some((n, v)) => match parse_i64(trim(v)) {
            Some(x) => Some((owned(trim(n)), x)),
            None => None,
        },
        None => {
            let ws = split_words(r);
            if ws.len() < 2 {
                return None;
            }
            match parse_i64(ws[1].as_str()) {
                Some(x) => {
                    let name = ws[0].clone();
                    assert(name@ == words(r@)[0]);
                    Some((name, x))
                },
                None => None,
            }
        },
    }
}

/// Inserts `(name, v)` into an integer table.
pub(crate) fn put_int(t: &mut Vec<(String, i64)>, name: String, v: i64)
    requires
        unique_keys(old(t)@),
    ensures
        unique_keys(final(t)@),
        int_table(final(t)@) == int_table(old(t)@).insert(name@, v),
{
    let ghost t0 = table(t@);
    let ghost k = name@;
    insert_entry(t, (name, v));
    assert(int_table(t@) =~= int_table(old(t)@).insert(k, v));
}

fn apply_effect_setting(e: &mut EffectDef, key: &str, value: &str)
    requires
        old(e).wf(),
    ensures
        final(e).wf(),
        final(e)@ == effect_setting(old(e)@, key@, value@),
{
    proof {
        reveal_strlit("mod_stat_");
        reveal_strlit("mod_skill_");
    }
    let or_zero = match parse_i64(value) {
        Some(n) => n,
        None => 0,
    };
    if str_eq(key, "mod_max_health") || str_eq(key, "mod_health") {
        e.mod_max_health = or_zero;
    } else if str_eq(key, "mod_max_weight") {
        e.mod_max_weight = or_zero;
    } else if str_eq(key, "mod_encumbrance") {
        e.mod_encumbrance = Some(owned(value));
    } else if str_eq(key, "regen_on_enter") || str_eq(key, "regen") {
        e.regen_on_enter = or_zero;
    } else if starts_with(key, "mod_stat_") {
        if let Some(v) = parse_i64(value) {
            let stat = strip_all_str(key, "mod_stat_");
            put_int(&mut e.stat_mods, owned(stat), v);
        }
    } else if starts_with(key, "mod_skill_") {
        if let Some(v) = parse_i64(value) {
            let skill = strip_all_str(key, "mod_skill_");
            put_int(&mut e.skill_mods, owned(skill), v);
        }
    } else if str_eq(key, "condition") || str_eq(key, "condition_type") || str_eq(key, "kind") {
        e.condition_type = Some(owned(value));
    } else if str_eq(key, "cure_tag") || str_eq(key, "cure_tags") || str_eq(key, "cures") {
        e.cure_tags = read_tag_list(value);
    } else if str_eq(key, "damage_on_tick") || str_eq(key, "dot") || str_eq(key, "damage_per_tick") {
        e.damage_on_tick = if or_zero < 0 { 0 } else { or_zero };
    } else if str_eq(key, "heal_on_tick") || str_eq(key, "hot") || str_eq(key, "heal_per_tick") || str_eq(
        key,
        "regen_per_tick",
    ) {
        e.heal_on_tick = if or_zero < 0 { 0 } else { or_zero };
    } else if str_eq(key, "tick_on") || str_eq(key, "tick_event") {
        e.tick_on = owned(value);
    } else if str_eq(key, "duration") || str_eq(key, "duration_ticks") || str_eq(key, "ticks") {
        e.duration_ticks = if or_zero < 0 { 0 } else { or_zero };
    }
}

/// The reading state held by the parser.
pub struct AnatReader {
    pub reg: AnatomyRegistry,
    pub creature: Option<CreatureDef>,
    pub template: Option<PlayerTemplate>,
    pub effect: Option<EffectDef>,
}

impl View for AnatReader {
    type V = AnatRead;

    open spec fn view(&self) -> AnatRead {
        AnatRead {
            reg: self.reg@,
            creature: match &self.creature {
                Some(c) => Some(c@),
                None => None,
            },
            template: match &self.template {
                Some(t) => Some(t@),
                None => None,
            },
            effect: match &self.effect {
                Some(e) => Some(e@),
                None => None,
            },
        }
    }
}

impl AnatReader {
    pub open spec fn wf(&self) -> bool {
        &&& self.reg.wf()
        &&& self.creature matches Some(c) ==> c.wf()
        &&& self.effect matches Some(e) ==> e.wf()
    }

    fn close_blocks(&mut self)
        requires
            old(self).wf(),
        ensures
            final(self).wf(),
            final(self)@ == close_blocks(old(self)@),
    {
        if let Some(c) = self.creature.take() {
            let ghost cv = c@;
            let ghost k = c.name@;
            insert_entry(&mut self.reg.creatures, c);
            assert(table(self.reg.creatures@).map_values(|c: CreatureDef| c@) =~= old(self)@.reg.creatures.insert(k, cv));
        }
        if let Some(t) = self.template.take() {
            let ghost tv = t@;
            let ghost k = t.name@;
            insert_entry(&mut self.reg.player_templates, t);
            assert(table(self.reg.player_templates@).map_values(|t: PlayerTemplate| t@) =~= old(self)@.reg.templates.insert(k, tv));
        }
        if let Some(e) = self.effect.take() {
            let ghost ev = e@;
            let ghost k = e.name@;
            insert_entry(&mut self.reg.effects, e);
            assert(table(self.reg.effects@).map_values(|e: EffectDef| e@) =~= old(self)@.reg.effects.insert(k, ev));
        }
    }

    fn apply_settings(&mut self, key: &str, value: &str)
        requires
            old(self).wf(),
        ensures
            final(self).wf(),
            final(self)@ == anat_settings(old(self)@, key@, value@),
    {
        if let Some(c) = self.creature.take() {
            let mut c = c;
            if str_eq(key, "max_health") {
                c.max_health = match parse_i64(value) {
                    Some(n) => n,
                    None => 100,
                };
            } else if str_eq(key, "base_max_weight") {
                c.base_max_weight = parse_i64(value);
            }
            self.creature = Some(c);
        }
        if let Some(t) = self.template.take() {
            let mut t = t;
            if str_eq(key, "creature") || str_eq(key, "body_plan") {
                t.creature = owned(value);
            } else if str_eq(key, "gender") {
                t.gender = owned(value);
            }
            self.template = Some(t);
        }
        if let Some(e) = self.effect.take() {
            let mut e = e;
            apply_effect_setting(&mut e, key, value);
            self.effect = Some(e);
        }
    }

    fn read_header(&mut self, line: &str) -> (r: Result<(), String>)
        requires
            old(self).wf(),
            is_header(line@),
        ensures
            final(self).wf(),
            match header_line(old(self)@, line@) {
                Ok(st) => r is Ok && final(self)@ == st,
                Err(e) => r matches Err(m) && m@ == e,
            },
    {
        proof {
            reveal_strlit("@creature ");
            reveal_strlit("@body-plan ");
            reveal_strlit("@effect ");
            reveal_strlit("@condition ");
            reveal_strlit("@player-template ");
        }
        let creature_rest = match strip_prefix(line, "@creature ") {
            Some(r) => Some(r),
            None => strip_prefix(line, "@body-plan "),
        };
        if let Some(rest) = creature_rest {
            assert(rest@ =~= (if has_prefix(line@, "@creature "@) { line@.skip(10) } else { line@.skip(11) }));
            let name = read_block_name(rest);
            if name.unicode_len() == 0 {
                return Err(concat2("@creature missing name: ", line));
            }
            let c = CreatureDef {
                name,
                slots: Vec::new(),
                max_health: 100,
                base_max_weight: None,
                stats: Vec::new(),
                skills: Vec::new(),
            };
            assert(c@.slots =~= Seq::<BodySlotView>::empty());
            assert(c@.stats =~= Map::<Seq<char>, i64>::empty());
            assert(c@.skills =~= Map::<Seq<char>, i64>::empty());
            self.creature = Some(c);
            self.template = None;
            self.effect = None;
            return Ok(());
        }
        let effect_rest = match strip_prefix(line, "@effect ") {
            Some(r) => Some(r),
            None => strip_prefix(line, "@condition "),
        };
        if let Some(rest) = effect_rest {
            assert(rest@ =~= (if has_prefix(line@, "@effect "@) { line@.skip(8) } else { line@.skip(11) }));
            let name = read_block_name(rest);
            if name.unicode_len() == 0 {
                return Err(concat2("@effect missing name: ", line));
            }
            let e = EffectDef {
                name,
                mod_max_health: 0,
                mod_max_weight: 0,
                mod_encumbrance: None,
                stat_mods: Vec::new(),
                skill_mods: Vec::new(),
                regen_on_enter: 0,
                condition_type: None,
                cure_tags: Vec::new(),
                damage_on_tick: 0,
                heal_on_tick: 0,
                tick_on: owned("on_enter"),
                duration_ticks: 0,
            };
            assert(e@.stat_mods =~= Map::<Seq<char>, i64>::empty());
            assert(e@.skill_mods =~= Map::<Seq<char>, i64>::empty());
            assert(e@.cure_tags =~= Seq::<Seq<char>>::empty());
            self.effect = Some(e);
            self.creature = None;
            self.template = None;
            return Ok(());
        }
        let rest = strip_prefix(line, "@player-template ").unwrap();
        assert(rest@ =~= line@.skip(17));
        let name = read_block_name(rest);
        self.template = Some(PlayerTemplate { name, creature: owned("human"), gender: owned("neutral") });
        self.creature = None;
        self.effect = None;
        Ok(())
    }

    fn read_body(&mut self, line: &str) -> (r: Result<(), String>)
        requires
            old(self).wf(),
        ensures
            final(self).wf(),
            match body_line(old(self)@, line@) {
                Ok(st) => r is Ok && final(self)@ == st,
                Err(e) => r matches Err(m) && m@ == e,
            },
    {
        proof {
            reveal_strlit("@slot ");
            reveal_strlit("@stat ");
            reveal_strlit("@skill ");
        }
        if let Some(rest) = strip_prefix(line, "@slot ") {
            assert(rest@ =~= line@.skip(6));
            match read_slot(rest) {
                None => {
                    return Err(concat2("@slot missing name: ", line));
                },
                Some(sl) => {
                    if let Some(c) = self.creature.take() {
                        let mut c = c;
                        let ghost before = slot_views(c.slots@);
                        let ghost sv = sl@;
                        c.slots.push(sl);
                        assert(slot_views(c.slots@) =~= before.push(sv));
                        self.creature = Some(c);
                    }
                    return Ok(());
                },
            }
        }
        if let Some(rest) = strip_prefix(line, "@stat ") {
            assert(rest@ =~= line@.skip(6));
            if let Some((n, v)) = parse_stat_line(rest) {
                if let Some(c) = self.creature.take() {
                    let mut c = c;
                    put_int(&mut c.stats, n, v);
                    self.creature = Some(c);
                }
            }
            return Ok(());
        }
        if let Some(rest) = strip_prefix(line, "@skill ") {
            assert(rest@ =~= line@.skip(7));
            if let Some((n, v)) = parse_stat_line(rest) {
                if let Some(c) = self.creature.take() {
                    let mut c = c;
                    put_int(&mut c.skills, n, v);
                    self.creature = Some(c);
                }
            }
            return Ok(());
        }
        if let Some((key, value)) = split_key_value(line) {
            self.apply_settings(key.as_str(), value);
        }
        Ok(())
    }

    fn read_line(&mut self, raw: &str) -> (r: Result<(), String>)
        requires
            old(self).wf(),
        ensures
            final(self).wf(),
            match anat_step(old(self)@, raw@) {
                Ok(st) => r is Ok && final(self)@ == st,
                Err(e) => r matches Err(m) && m@ == e,
            },
    {
        proof {
            reveal(anat_step);
            reveal_strlit("}");
            reveal_strlit("@end");
            reveal_strlit("@creature ");
            reveal_strlit("@body-plan ");
            reveal_strlit("@effect ");
            reveal_strlit("@condition ");
            reveal_strlit("@player-template ");
        }
        let line = strip_comment(raw);
        if line.unicode_len() == 0 {
            return Ok(());
        }
        if str_eq(line, "}") || str_eq(line, "@end") {
            self.close_blocks();
            return Ok(());
        }
        let header = starts_with(line, "@creature ") || starts_with(line, "@body-plan ") || starts_with(
            line,
            "@effect ",
        ) || starts_with(line, "@condition ") || starts_with(line, "@player-template ");
        if header {
            self.read_header(line)
        } else {
            self.read_body(line)
        }
    }
}

proof fn lemma_setting_line(t: Seq<char>)
    requires
        t.len() > 0,
        t[0] != '@',
    ensures
        !is_header(t),
        t != "@end"@,
        !has_prefix(t, "@slot "@),
        !has_prefix(t, "@stat "@),
        !has_prefix(t, "@skill "@),
{
    reveal_strlit("@creature ");
    reveal_strlit("@body-plan ");
    reveal_strlit("@effect ");
    reveal_strlit("@condition ");
    reveal_strlit("@player-template ");
    reveal_strlit("@slot ");
    reveal_strlit("@stat ");
    reveal_strlit("@skill ");
    reveal_strlit("@end");
    assert("@creature "@.len() > 0 && "@creature "@[0] == '@');
    assert("@body-plan "@.len() > 0 && "@body-plan "@[0] == '@');
    assert("@effect "@.len() > 0 && "@effect "@[0] == '@');
    assert("@condition "@.len() > 0 && "@condition "@[0] == '@');
    assert("@player-template "@.len() > 0 && "@player-template "@[0] == '@');
    assert("@slot "@.len() > 0 && "@slot "@[0] == '@');
    assert("@stat "@.len() > 0 && "@stat "@[0] == '@');
    assert("@skill "@.len() > 0 && "@skill "@[0] == '@');
    assert("@end"@.len() > 0 && "@end"@[0] == '@');
    assert forall|p: Seq<char>| p.len() > 0 && has_prefix(t, p) implies t[0] == p[0] by {
        assert(t.subrange(0, p.len() as int)[0] == t[0]);
    }
}

/// `}` or `@end` closes the open blocks: each open creature, template and
/// effect is filed in the registry under its own name (replacing an earlier
/// one of that name), the rest of the registry stays, and no block is open
/// afterwards.
#[verifier::spinoff_prover]
pub proof fn law_block_end_files_blocks(st: AnatRead, raw: Seq<char>)
    requires
        comment_free(raw) == "}"@ || comment_free(raw) == "@end"@,
    ensures
        anat_step(st, raw) matches Ok(next) && {
            &&& next.creature is None && next.template is None && next.effect is None
            &&& next.reg.creatures == match st.creature {
                Some(c) => st.reg.creatures.insert(c.name, c),
                None => st.reg.creatures,
            }
            &&& next.reg.templates == match st.template {
                Some(t) => st.reg.templates.insert(t.name, t),
                None => st.reg.templates,
            }
            &&& next.reg.effects == match st.effect {
                Some(e) => st.reg.effects.insert(e.name, e),
                None => st.reg.effects,
            }
        },
{
    let line = comment_free(raw);
    reveal_strlit("}");
    reveal_strlit("@end");
    assert(line.len() > 0);
    assert(anat_step(st, raw) == Ok::<AnatRead, Seq<char>>(close_blocks(st))) by {
        reveal(anat_step);
    }
}

/// `@creature <name>` (or `@body-plan <name>`) with a name opens a new
/// creature of that name, with no slots, stats or skills and 100 health,
/// closing nothing into the registry and dropping any open template or
/// effect; without a name it is an error.
#[verifier::spinoff_prover]
pub proof fn law_creature_header(st: AnatRead, raw: Seq<char>, rest: Seq<char>)
    requires
        comment_free(raw) == "@creature "@ + rest,
    ensures
        block_name(rest).len() == 0 ==> anat_step(st, raw) is Err,
        block_name(rest).len() > 0 ==> (anat_step(st, raw) matches Ok(next) && {
            &&& next.reg == st.reg
            &&& next.template is None && next.effect is None
            &&& next.creature matches Some(c) && c.name == block_name(rest) && c.slots.len() == 0
                && c.stats.dom().len() == 0 && c.skills.dom().len() == 0 && c.max_health == 100
        }),
{
    reveal(anat_step);
    let line = comment_free(raw);
    reveal_strlit("@creature ");
    reveal_strlit("}");
    reveal_strlit("@end");
    assert(line.len() >= 10 && line[1] == 'c');
    assert(line != "}"@ && line != "@end"@) by {
        assert("}"@.len() == 1 && "@end"@[1] == 'e');
    }
    assert(has_prefix(line, "@creature "@)) by {
        assert(line.subrange(0, 10) =~= "@creature "@);
    }
    assert(line.skip(10) =~= rest);
    assert(Map::<Seq<char>, i64>::empty().dom() =~= Set::<Seq<char>>::empty());
}

/// `@stat <name> <n>` (or `@skill`; also written `<name>=<n>`) in an open
/// creature files `n` under `<name>` among its stats (or skills), leaving
/// the other table, its slots and health as they were; without an open
/// creature nothing changes.
#[verifier::spinoff_prover]
pub proof fn law_creature_stat_line(st: AnatRead, raw: Seq<char>, skill: bool, rest: Seq<char>, name: Seq<char>, n: i64)
    requires
        comment_free(raw) == (if skill { "@skill "@ } else { "@stat "@ }) + rest,
        stat_line_of(rest) == Some((name, n)),
    ensures
        anat_step(st, raw) matches Ok(next) && {
            &&& next.reg == st.reg
            &&& next.effect == st.effect
            &&& next.template == st.template
            &&& match st.creature {
                Some(c) => next.creature matches Some(d) && {
                    &&& d.name == c.name
                    &&& d.slots == c.slots
                    &&& d.max_health == c.max_health
                    &&& d.stats == (if skill { c.stats } else { c.stats.insert(name, n) })
                    &&& d.skills == (if skill { c.skills.insert(name, n) } else { c.skills })
                },
                None => next.creature is None,
            }
        },
{
    let line = comment_free(raw);
    let p = if skill { "@skill "@ } else { "@stat "@ };
    reveal_strlit("@skill ");
    reveal_strlit("@stat ");
    reveal_strlit("@slot ");
    reveal_strlit("}");
    reveal_strlit("@end");
    reveal_strlit("@creature ");
    reveal_strlit("@body-plan ");
    reveal_strlit("@effect ");
    reveal_strlit("@condition ");
    reveal_strlit("@player-template ");
    assert(line.len() >= 6 && line[0] == '@' && line[1] == 's' && line[2] == (if skill { 'k' } else { 't' }));
    assert forall|q: Seq<char>| q.len() > 2 && has_prefix(line, q) implies line[1] == q[1] && line[2] == q[2] by {
        assert(line.subrange(0, q.len() as int)[1] == line[1]);
        assert(line.subrange(0, q.len() as int)[2] == line[2]);
    }
    assert("@creature "@[1] == 'c' && "@body-plan "@[1] == 'b' && "@effect "@[1] == 'e' && "@condition "@[1]
        == 'c' && "@player-template "@[1] == 'p' && "@slot "@[2] == 'l' && "@stat "@[2] == 't'
        && "@skill "@[2] == 'k' && "@end"@[1] == 'e' && "}"@.len() == 1);
    assert(!is_header(line));
    assert(line != "}"@ && line != "@end"@);
    assert(has_prefix(line, p)) by {
        assert(line.subrange(0, p.len() as int) =~= p);
    }
    assert(line.skip(p.len() as int) =~= rest);
    assert(anat_step(st, raw) == body_line(st, line)) by {
        reveal(anat_step);
    }
}

/// A `key=value` line (no `@` directive, no `}`) applies the setting to the open blocks.
proof fn lemma_setting_step(st: AnatRead, raw: Seq<char>, key: Seq<char>, value: Seq<char>)
    requires
        comment_free(raw).len() > 0,
        comment_free(raw)[0] != '@',
        comment_free(raw) != "}"@,
        key_value(comment_free(raw)) == Some((key, value)),
    ensures
        anat_step(st, raw) == Ok::<AnatRead, Seq<char>>(anat_settings(st, key, value)),
{
    let line = comment_free(raw);
    lemma_setting_line(line);
    assert(anat_step(st, raw) == body_line(st, line)) by {
        reveal(anat_step);
    }
}

/// A `key=value` line sets the open creature's and template's own fields:
/// `max_health` (a number that fits `i64`) on a creature, `gender` and
/// `creature` or `body_plan` on a template; a creature keeps its name, slots,
/// stats and skills, a template its name, and other keys leave a creature
/// unchanged. The finished registry is untouched.
pub proof fn law_creature_and_template_lines(
    st: AnatRead,
    raw: Seq<char>,
    key: Seq<char>,
    value: Seq<char>,
    n: i64,
)
    requires
        comment_free(raw).len() > 0,
        comment_free(raw)[0] != '@',
        comment_free(raw) != "}"@,
        key_value(comment_free(raw)) == Some((key, value)),
    ensures
        anat_step(st, raw) matches Ok(next) && {
            &&& next.reg == st.reg
            &&& st.creature matches Some(c) ==> next.creature matches Some(d) && {
                &&& d.name == c.name
                &&& d.slots == c.slots
                &&& d.stats == c.stats
                &&& d.skills == c.skills
                &&& (key == "max_health"@ && parse_signed(value) == Some(n as int) ==> d.max_health == n)
                &&& (key != "max_health"@ && key != "base_max_weight"@ ==> d == c)
            }
            &&& st.template matches Some(t) ==> next.template matches Some(u) && {
                &&& u.name == t.name
                &&& (key == "gender"@ ==> u.gender == value && u.creature == t.creature)
                &&& (key == "creature"@ || key == "body_plan"@ ==> u.creature == value && u.gender == t.gender)
            }
            &&& st.creature is None ==> next.creature is None
            &&& st.template is None ==> next.template is None
        },
{
    lemma_setting_step(st, raw, key, value);
    reveal_strlit("gender");
    reveal_strlit("creature");
    reveal_strlit("body_plan");
    assert("gender"@.len() == 6 && "creature"@.len() == 8 && "body_plan"@.len() == 9);
}

/// In an open effect block, `damage_on_tick`, `heal_on_tick` and `duration`
/// lines (key case ignored) with a number that fits `i64` set that value,
/// raised to zero when negative, and leave the effect's other tick values
/// and its modifiers as they were.
pub proof fn law_effect_tick_line(st: AnatRead, raw: Seq<char>, key: Seq<char>, value: Seq<char>, n: i64)
    requires
        st.effect is Some,
        comment_free(raw).len() > 0,
        comment_free(raw)[0] != '@',
        comment_free(raw) != "}"@,
        key_value(comment_free(raw)) == Some((key, value)),
        key == "damage_on_tick"@ || key == "heal_on_tick"@ || key == "duration"@,
        parse_signed(value) == Some(n as int),
    ensures
        anat_step(st, raw) matches Ok(next) && {
            let e = st.effect->0;
            let v = if n < 0 { 0 } else { n };
            &&& next.reg == st.reg
            &&& next.effect matches Some(f) && {
                &&& f.name == e.name
                &&& f.damage_on_tick == (if key == "damage_on_tick"@ { v } else { e.damage_on_tick })
                &&& f.heal_on_tick == (if key == "heal_on_tick"@ { v } else { e.heal_on_tick })
                &&& f.duration_ticks == (if key == "duration"@ { v } else { e.duration_ticks })
                &&& f.stat_mods == e.stat_mods
                &&& f.skill_mods == e.skill_mods
            }
        },
{
    lemma_setting_step(st, raw, key, value);
    lemma_tick_keys();
    assert(i64_or(value, 0) == n);
}

proof fn lemma_tick_keys()
    ensures
        "damage_on_tick"@ != "mod_max_health"@,
        "damage_on_tick"@ != "mod_health"@,
        "damage_on_tick"@ != "mod_max_weight"@,
        "damage_on_tick"@ != "mod_encumbrance"@,
        "damage_on_tick"@ != "regen_on_enter"@,
        "damage_on_tick"@ != "regen"@,
        "damage_on_tick"@ != "condition"@,
        "damage_on_tick"@ != "condition_type"@,
        "damage_on_tick"@ != "kind"@,
        "damage_on_tick"@ != "cure_tag"@,
        "damage_on_tick"@ != "cure_tags"@,
        "damage_on_tick"@ != "cures"@,
        "damage_on_tick"@ != "dot"@,
        "damage_on_tick"@ != "damage_per_tick"@,
        "damage_on_tick"@ != "hot"@,
        "damage_on_tick"@ != "heal_per_tick"@,
        "damage_on_tick"@ != "regen_per_tick"@,
        "damage_on_tick"@ != "tick_on"@,
        "damage_on_tick"@ != "tick_event"@,
        "heal_on_tick"@ != "mod_max_health"@,
        "heal_on_tick"@ != "mod_health"@,
        "heal_on_tick"@ != "mod_max_weight"@,
        "heal_on_tick"@ != "mod_encumbrance"@,
        "heal_on_tick"@ != "regen_on_enter"@,
        "heal_on_tick"@ != "regen"@,
        "heal_on_tick"@ != "condition"@,
        "heal_on_tick"@ != "condition_type"@,
        "heal_on_tick"@ != "kind"@,
        "heal_on_tick"@ != "cure_tag"@,
        "heal_on_tick"@ != "cure_tags"@,
        "heal_on_tick"@ != "cures"@,
        "heal_on_tick"@ != "dot"@,
        "heal_on_tick"@ != "damage_per_tick"@,
        "heal_on_tick"@ != "hot"@,
        "heal_on_tick"@ != "heal_per_tick"@,
        "heal_on_tick"@ != "regen_per_tick"@,
        "heal_on_tick"@ != "tick_on"@,
        "heal_on_tick"@ != "tick_event"@,
        "duration"@ != "mod_max_health"@,
        "duration"@ != "mod_health"@,
        "duration"@ != "mod_max_weight"@,
        "duration"@ != "mod_encumbrance"@,
        "duration"@ != "regen_on_enter"@,
        "duration"@ != "regen"@,
        "duration"@ != "condition"@,
        "duration"@ != "condition_type"@,
        "duration"@ != "kind"@,
        "duration"@ != "cure_tag"@,
        "duration"@ != "cure_tags"@,
        "duration"@ != "cures"@,
        "duration"@ != "dot"@,
        "duration"@ != "damage_per_tick"@,
        "duration"@ != "hot"@,
        "duration"@ != "heal_per_tick"@,
        "duration"@ != "regen_per_tick"@,
        "duration"@ != "tick_on"@,
        "duration"@ != "tick_event"@,
        "damage_on_tick"@ != "heal_on_tick"@,
        "damage_on_tick"@ != "duration"@,
        "heal_on_tick"@ != "duration"@,
        !has_prefix("damage_on_tick"@, "mod_stat_"@),
        !has_prefix("damage_on_tick"@, "mod_skill_"@),
        !has_prefix("heal_on_tick"@, "mod_stat_"@),
        !has_prefix("heal_on_tick"@, "mod_skill_"@),
        !has_prefix("duration"@, "mod_stat_"@),
        !has_prefix("duration"@, "mod_skill_"@),
{
    reveal_strlit("damage_on_tick");
    reveal_strlit("heal_on_tick");
    reveal_strlit("duration");
    reveal_strlit("mod_max_health");
    reveal_strlit("mod_health");
    reveal_strlit("mod_max_weight");
    reveal_strlit("mod_encumbrance");
    reveal_strlit("regen_on_enter");
    reveal_strlit("regen");
    reveal_strlit("condition");
    reveal_strlit("condition_type");
    reveal_strlit("kind");
    reveal_strlit("cure_tag");
    reveal_strlit("cure_tags");
    reveal_strlit("cures");
    reveal_strlit("dot");
    reveal_strlit("damage_per_tick");
    reveal_strlit("hot");
    reveal_strlit("heal_per_tick");
    reveal_strlit("regen_per_tick");
    reveal_strlit("tick_on");
    reveal_strlit("tick_event");
    reveal_strlit("mod_stat_");
    reveal_strlit("mod_skill_");
    assert("damage_on_tick"@.len() == 14 && "mod_max_health"@.len() == 14 && "damage_on_tick"@[0] != "mod_max_health"@[0]);
    assert("damage_on_tick"@.len() == 14 && "mod_health"@.len() == 10);
    assert("damage_on_tick"@.len() == 14 && "mod_max_weight"@.len() == 14 && "damage_on_tick"@[0] != "mod_max_weight"@[0]);
    assert("damage_on_tick"@.len() == 14 && "mod_encumbrance"@.len() == 15);
    assert("damage_on_tick"@.len() == 14 && "regen_on_enter"@.len() == 14 && "damage_on_tick"@[0] != "regen_on_enter"@[0]);
    assert("damage_on_tick"@.len() == 14 && "regen"@.len() == 5);
    assert("damage_on_tick"@.len() == 14 && "condition"@.len() == 9);
    assert("damage_on_tick"@.len() == 14 && "condition_type"@.len() == 14 && "damage_on_tick"@[0] != "condition_type"@[0]);
    assert("damage_on_tick"@.len() == 14 && "kind"@.len() == 4);
    assert("damage_on_tick"@.len() == 14 && "cure_tag"@.len() == 8);
    assert("damage_on_tick"@.len() == 14 && "cure_tags"@.len() == 9);
    assert("damage_on_tick"@.len() == 14 && "cures"@.len() == 5);
    assert("damage_on_tick"@.len() == 14 && "dot"@.len() == 3);
    assert("damage_on_tick"@.len() == 14 && "damage_per_tick"@.len() == 15);
    assert("damage_on_tick"@.len() == 14 && "hot"@.len() == 3);
    assert("damage_on_tick"@.len() == 14 && "heal_per_tick"@.len() == 13);
    assert("damage_on_tick"@.len() == 14 && "regen_per_tick"@.len() == 14 && "damage_on_tick"@[0] != "regen_per_tick"@[0]);
    assert("damage_on_tick"@.len() == 14 && "tick_on"@.len() == 7);
    assert("damage_on_tick"@.len() == 14 && "tick_event"@.len() == 10);
    assert("heal_on_tick"@.len() == 12 && "mod_max_health"@.len() == 14);
    assert("heal_on_tick"@.len() == 12 && "mod_health"@.len() == 10);
    assert("heal_on_tick"@.len() == 12 && "mod_max_weight"@.len() == 14);
    assert("heal_on_tick"@.len() == 12 && "mod_encumbrance"@.len() == 15);
    assert("heal_on_tick"@.len() == 12 && "regen_on_enter"@.len() == 14);
    assert("heal_on_tick"@.len() == 12 && "regen"@.len() == 5);
    assert("heal_on_tick"@.len() == 12 && "condition"@.len() == 9);
    assert("heal_on_tick"@.len() == 12 && "condition_type"@.len() == 14);
    assert("heal_on_tick"@.len() == 12 && "kind"@.len() == 4);
    assert("heal_on_tick"@.len() == 12 && "cure_tag"@.len() == 8);
    assert("heal_on_tick"@.len() == 12 && "cure_tags"@.len() == 9);
    assert("heal_on_tick"@.len() == 12 && "cures"@.len() == 5);
    assert("heal_on_tick"@.len() == 12 && "dot"@.len() == 3);
    assert("heal_on_tick"@.len() == 12 && "damage_per_tick"@.len() == 15);
    assert("heal_on_tick"@.len() == 12 && "hot"@.len() == 3);
    assert("heal_on_tick"@.len() == 12 && "heal_per_tick"@.len() == 13);
    assert("heal_on_tick"@.len() == 12 && "regen_per_tick"@.len() == 14);
    assert("heal_on_tick"@.len() == 12 && "tick_on"@.len() == 7);
    assert("heal_on_tick"@.len() == 12 && "tick_event"@.len() == 10);
    assert("duration"@.len() == 8 && "mod_max_health"@.len() == 14);
    assert("duration"@.len() == 8 && "mod_health"@.len() == 10);
    assert("duration"@.len() == 8 && "mod_max_weight"@.len() == 14);
    assert("duration"@.len() == 8 && "mod_encumbrance"@.len() == 15);
    assert("duration"@.len() == 8 && "regen_on_enter"@.len() == 14);
    assert("duration"@.len() == 8 && "regen"@.len() == 5);
    assert("duration"@.len() == 8 && "condition"@.len() == 9);
    assert("duration"@.len() == 8 && "condition_type"@.len() == 14);
    assert("duration"@.len() == 8 && "kind"@.len() == 4);
    assert("duration"@.len() == 8 && "cure_tag"@.len() == 8 && "duration"@[0] != "cure_tag"@[0]);
    assert("duration"@.len() == 8 && "cure_tags"@.len() == 9);
    assert("duration"@.len() == 8 && "cures"@.len() == 5);
    assert("duration"@.len() == 8 && "dot"@.len() == 3);
    assert("duration"@.len() == 8 && "damage_per_tick"@.len() == 15);
    assert("duration"@.len() == 8 && "hot"@.len() == 3);
    assert("duration"@.len() == 8 && "heal_per_tick"@.len() == 13);
    assert("duration"@.len() == 8 && "regen_per_tick"@.len() == 14);
    assert("duration"@.len() == 8 && "tick_on"@.len() == 7);
    assert("duration"@.len() == 8 && "tick_event"@.len() == 10);
    assert("damage_on_tick"@.len() == 14 && "heal_on_tick"@.len() == 12);
    assert("damage_on_tick"@.len() == 14 && "duration"@.len() == 8);
    assert("heal_on_tick"@.len() == 12 && "duration"@.len() == 8);
    assert("damage_on_tick"@.subrange(0, 4) != "mod_stat_"@.subrange(0, 4)) by { assert("damage_on_tick"@.subrange(0, 4)[0] != "mod_stat_"@.subrange(0, 4)[0]); }
    assert("damage_on_tick"@.subrange(0, 4) != "mod_skill_"@.subrange(0, 4)) by { assert("damage_on_tick"@.subrange(0, 4)[0] != "mod_skill_"@.subrange(0, 4)[0]); }
    assert("heal_on_tick"@.subrange(0, 4) != "mod_stat_"@.subrange(0, 4)) by { assert("heal_on_tick"@.subrange(0, 4)[0] != "mod_stat_"@.subrange(0, 4)[0]); }
    assert("heal_on_tick"@.subrange(0, 4) != "mod_skill_"@.subrange(0, 4)) by { assert("heal_on_tick"@.subrange(0, 4)[0] != "mod_skill_"@.subrange(0, 4)[0]); }
    assert("duration"@.subrange(0, 4) != "mod_stat_"@.subrange(0, 4)) by { assert("duration"@.subrange(0, 4)[0] != "mod_stat_"@.subrange(0, 4)[0]); }
    assert("duration"@.subrange(0, 4) != "mod_skill_"@.subrange(0, 4)) by { assert("duration"@.subrange(0, 4)[0] != "mod_skill_"@.subrange(0, 4)[0]); }
    assert forall|t: Seq<char>, p: Seq<char>| p.len() >= 4 && #[trigger] has_prefix(t, p) implies t.subrange(0, 4) == p.subrange(0, 4) by {
        assert(t.subrange(0, 4) =~= t.subrange(0, p.len() as int).subrange(0, 4));
    }
}

/// In an open effect block, a line `mod_skill_<name>=<n>` (or
/// `mod_stat_<name>=<n>`; key case ignored, `n` a number that fits `i64`)
/// files `n` under `<name>` among the effect's skill (or stat) modifiers,
/// replacing an earlier value for that name, and leaves the other table, the
/// effect's name and the finished registry as they were.
pub proof fn law_effect_modifier_line(
    st: AnatRead,
    raw: Seq<char>,
    skill: bool,
    name: Seq<char>,
    value: Seq<char>,
    n: i64,
)
    requires
        st.effect is Some,
        comment_free(raw).len() > 0,
        comment_free(raw)[0] != '@',
        comment_free(raw) != "}"@,
        key_value(comment_free(raw)) == Some(
            ((if skill { "mod_skill_"@ } else { "mod_stat_"@ }) + name, value),
        ),
        !has_prefix(name, if skill { "mod_skill_"@ } else { "mod_stat_"@ }),
        parse_signed(value) == Some(n as int),
    ensures
        anat_step(st, raw) matches Ok(next) && {
            let e = st.effect->0;
            &&& next.reg == st.reg
            &&& next.effect matches Some(f) && {
                &&& f.name == e.name
                &&& f.skill_mods == (if skill { e.skill_mods.insert(name, n) } else { e.skill_mods })
                &&& f.stat_mods == (if skill { e.stat_mods } else { e.stat_mods.insert(name, n) })
                &&& f.damage_on_tick == e.damage_on_tick
                &&& f.cure_tags == e.cure_tags
            }
        },
{
    let p = if skill { "mod_skill_"@ } else { "mod_stat_"@ };
    lemma_setting_step(st, raw, p + name, value);
    lemma_effect_modifier(st.effect->0, skill, name, value, n);
}

proof fn lemma_effect_modifier(e: EffectView, skill: bool, name: Seq<char>, value: Seq<char>, n: i64)
    requires
        !has_prefix(name, if skill { "mod_skill_"@ } else { "mod_stat_"@ }),
        parse_signed(value) == Some(n as int),
    ensures
        ({
            let f = effect_setting(e, (if skill { "mod_skill_"@ } else { "mod_stat_"@ }) + name, value);
            &&& f.name == e.name
            &&& f.skill_mods == (if skill { e.skill_mods.insert(name, n) } else { e.skill_mods })
            &&& f.stat_mods == (if skill { e.stat_mods } else { e.stat_mods.insert(name, n) })
            &&& f.damage_on_tick == e.damage_on_tick
            &&& f.cure_tags == e.cure_tags
        }),
{
    let p = if skill { "mod_skill_"@ } else { "mod_stat_"@ };
    let key = p + name;
    reveal_strlit("mod_skill_");
    reveal_strlit("mod_stat_");
    reveal_strlit("mod_max_health");
    reveal_strlit("mod_health");
    reveal_strlit("mod_max_weight");
    reveal_strlit("mod_encumbrance");
    reveal_strlit("regen_on_enter");
    reveal_strlit("regen");
    assert(key[0] == 'm' && key[4] == 's' && key[5] == (if skill { 'k' } else { 't' }));
    assert(key != "mod_max_health"@ && key != "mod_health"@ && key != "mod_max_weight"@ && key
        != "mod_encumbrance"@ && key != "regen_on_enter"@ && key != "regen"@) by {
        assert("mod_max_health"@[4] == 'm' && "mod_health"@[4] == 'h' && "mod_max_weight"@[4] == 'm'
            && "mod_encumbrance"@[4] == 'e' && "regen_on_enter"@[0] == 'r' && "regen"@[0] == 'r');
    }
    assert(has_prefix(key, p)) by {
        assert(key.subrange(0, p.len() as int) =~= p);
    }
    if skill {
        assert(!has_prefix(key, "mod_stat_"@)) by {
            if has_prefix(key, "mod_stat_"@) {
                assert(key.subrange(0, 9)[5] == key[5]);
            }
        }
    }
    assert(key.skip(p.len() as int) =~= name);
    assert(strip_all(key, p) == name) by {
        assert(strip_all(key, p) == strip_all(key.skip(p.len() as int), p));
    }
    assert(i64_opt(value) == Some(n));
}

/// Each definition is stored under its own name, and an effect's tick values
/// are never negative.
pub open spec fn anatomy_sound(reg: AnatomyView) -> bool {
    &&& forall|k: Seq<char>| #[trigger] reg.creatures.contains_key(k) ==> reg.creatures[k].name == k
    &&& forall|k: Seq<char>| #[trigger] reg.templates.contains_key(k) ==> reg.templates[k].name == k
    &&& forall|k: Seq<char>| #[trigger] reg.effects.contains_key(k) ==> reg.effects[k].name == k
        && ticks_non_negative(reg.effects[k])
}

/// The per-tick damage, healing and duration of an effect are at least zero.
pub open spec fn ticks_non_negative(e: EffectView) -> bool {
    e.damage_on_tick >= 0 && e.heal_on_tick >= 0 && e.duration_ticks >= 0
}

spec fn read_sound(st: AnatRead) -> bool {
    &&& anatomy_sound(st.reg)
    &&& st.effect matches Some(e) ==> ticks_non_negative(e)
}

#[verifier::spinoff_prover]
proof fn lemma_step_sound(st: AnatRead, raw: Seq<char>)
    requires
        read_sound(st),
    ensures
        anat_step(st, raw) matches Ok(next) ==> read_sound(next),
{
    reveal(anat_step);
    let line = comment_free(raw);
    if line.len() == 0 {
    } else if line == "}"@ || line == "@end"@ {
        let c = close_blocks(st);
        assert(anatomy_sound(c.reg));
    } else if is_header(line) {
    } else if has_prefix(line, "@slot "@) || has_prefix(line, "@stat "@) || has_prefix(line, "@skill "@) {
    } else {
        match key_value(line) {
            Some((key, value)) => {
                match st.effect {
                    Some(e) => {
                        assert(ticks_non_negative(effect_setting(e, key, value)));
                    },
                    None => {},
                }
            },
            None => {},
        }
    }
}

proof fn lemma_fold_sound(ls: Seq<Seq<char>>)
    ensures
        anat_fold(ls) matches Ok(st) ==> read_sound(st),
    decreases ls.len(),
{
    if ls.len() > 0 {
        lemma_fold_sound(ls.drop_last());
        match anat_fold(ls.drop_last()) {
            Ok(st) => lemma_step_sound(st, ls.last()),
            Err(_) => {},
        }
    }
}

/// Whatever an anatomy file holds, the registry read from it files each
/// creature, player template and effect under its own name, and no effect has
/// a negative per-tick damage, healing or duration.
pub proof fn law_anatomy_sound(content: Seq<char>)
    ensures
        anatomy_of(content) matches Ok(reg) ==> anatomy_sound(reg),
{
    lemma_fold_sound(lines(content));
}

/// Parse creature and player definitions from MUDL source text.
pub fn parse_anatomy_file(content: &str) -> (r: Result<AnatomyRegistry, String>)
    ensures
        match anatomy_of(content@) {
            Ok(reg) => r matches Ok(out) && out.wf() && out@ == reg,
            Err(e) => r matches Err(m) && m@ == e,
        },
{
    let ls = split_lines(content);
    let mut rd = AnatReader { reg: AnatomyRegistry::new(), creature: None, template: None, effect: None };
    assert(rd@.reg == empty_anatomy());
    let mut i: usize = 0;
    while i < ls.len()
        invariant
            0 <= i <= ls@.len(),
            views(ls@) == lines(content@),
            rd.wf(),
            anat_fold(views(ls@).take(i as int)) == Ok::<AnatRead, Seq<char>>(rd@),
        decreases ls@.len() - i,
    {
        let ghost ws = views(ls@);
        assert(ws.take(i + 1).drop_last() =~= ws.take(i as int));
        assert(ws.take(i + 1).last() == ls@[i as int]@);
        match rd.read_line(ls[i].as_str()) {
            Ok(()) => {},
            Err(m) => {
                proof {
                    lemma_anat_error_stays(ws, i + 1, m@);
                }
                return Err(m);
            },
        }
        i += 1;
    }
    assert(views(ls@).take(ls@.len() as int) =~= views(ls@));
    Ok(rd.reg)
}

} // verus!
