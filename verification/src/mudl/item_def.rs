//! Item prototypes and spawn instances from MUDL `items.mudl` / `objects.mudl`.

use vstd::prelude::*;

use super::anatomy::{int_table, opt_view, parse_stat_line, put_int, stat_line_of};
use super::lines::{comment_free, key_value, split_key_value, strip_comment};
use super::npc_def::names_contain;
use super::roles::{no_role_props, pair_views, role_props_of, MudlRoleProps, RolePropsView};
use super::trigger_def::{parse_trigger_line, trigger_of, TriggerDef, TriggerDefView};
use crate::assoc::{has_key, key_index, lemma_key_index, table, unique_keys, Keyed};
use crate::object::literal::{float_reading, reads_floats};
use crate::text::{has_prefix, lines, owned, split_lines, str_eq, strip_prefix, trim, trim_seq, views};

verus! {

/// `effects` with each of `extra` added in order, unless already there.
pub open spec fn add_missing(effects: Seq<Seq<char>>, extra: Seq<Seq<char>>) -> Seq<Seq<char>>
    decreases extra.len(),
{
    if extra.len() == 0 {
        effects
    } else {
        let before = add_missing(effects, extra.drop_last());
        if before.contains(extra.last()) {
            before
        } else {
            before.push(extra.last())
        }
    }
}

/// `target` with every setting of `extra` laid over it: a setting present in
/// `extra` replaces `target`'s, modifier tables are joined with `extra`'s
/// values winning, and granted effects are added once each.
pub open spec fn merged(target: RolePropsView, extra: RolePropsView) -> RolePropsView {
    RolePropsView {
        is_container: if extra.is_container is Some { extra.is_container } else { target.is_container },
        is_open: if extra.is_open is Some { extra.is_open } else { target.is_open },
        capacity: if extra.capacity is Some { extra.capacity } else { target.capacity },
        max_weight: if extra.max_weight is Some { extra.max_weight } else { target.max_weight },
        max_volume: if extra.max_volume is Some { extra.max_volume } else { target.max_volume },
        is_wearable: if extra.is_wearable is Some { extra.is_wearable } else { target.is_wearable },
        wear_slot: if extra.wear_slot is Some { extra.wear_slot } else { target.wear_slot },
        weight: if extra.weight is Some { extra.weight } else { target.weight },
        volume: if extra.volume is Some { extra.volume } else { target.volume },
        pocketable: if extra.pocketable is Some { extra.pocketable } else { target.pocketable },
        stackable: if extra.stackable is Some { extra.stackable } else { target.stackable },
        stack_count: if extra.stack_count is Some { extra.stack_count } else { target.stack_count },
        max_stack: if extra.max_stack is Some { extra.max_stack } else { target.max_stack },
        hand_slot: if extra.hand_slot is Some { extra.hand_slot } else { target.hand_slot },
        readable: if extra.readable is Some { extra.readable } else { target.readable },
        read_text: if extra.read_text is Some { extra.read_text } else { target.read_text },
        writable: if extra.writable is Some { extra.writable } else { target.writable },
        write_text: if extra.write_text is Some { extra.write_text } else { target.write_text },
        locked: if extra.locked is Some { extra.locked } else { target.locked },
        lock_id: if extra.lock_id is Some { extra.lock_id } else { target.lock_id },
        is_key: if extra.is_key is Some { extra.is_key } else { target.is_key },
        key_consumable: if extra.key_consumable is Some { extra.key_consumable } else { target.key_consumable },
        lock_consumable: if extra.lock_consumable is Some { extra.lock_consumable } else { target.lock_consumable },
        allowed_types: if extra.allowed_types is Some { extra.allowed_types } else { target.allowed_types },
        is_door: if extra.is_door is Some { extra.is_door } else { target.is_door },
        is_window: if extra.is_window is Some { extra.is_window } else { target.is_window },
        portal_kind: if extra.portal_kind is Some { extra.portal_kind } else { target.portal_kind },
        door_direction: if extra.door_direction is Some { extra.door_direction } else { target.door_direction },
        door_destination: if extra.door_destination is Some { extra.door_destination } else { target.door_destination },
        portal_passable: if extra.portal_passable is Some { extra.portal_passable } else { target.portal_passable },
        portal_transparent: if extra.portal_transparent is Some { extra.portal_transparent } else { target.portal_transparent },
        mod_max_weight: if extra.mod_max_weight is Some { extra.mod_max_weight } else { target.mod_max_weight },
        mod_encumbrance: if extra.mod_encumbrance is Some { extra.mod_encumbrance } else { target.mod_encumbrance },
        mod_max_health: if extra.mod_max_health is Some { extra.mod_max_health } else { target.mod_max_health },
        stat_mods: target.stat_mods.union_prefer_right(extra.stat_mods),
        skill_mods: target.skill_mods.union_prefer_right(extra.skill_mods),
        grant_effects: add_missing(target.grant_effects, extra.grant_effects),
        breakable: if extra.breakable is Some { extra.breakable } else { target.breakable },
        break_text: if extra.break_text is Some { extra.break_text } else { target.break_text },
    }
}

proof fn lemma_add_missing_contains(t: Seq<Seq<char>>, e: Seq<Seq<char>>)
    ensures
        forall|i: int| 0 <= i < e.len() ==> add_missing(t, e).contains(#[trigger] e[i]),
        forall|x: Seq<char>| t.contains(x) ==> #[trigger] add_missing(t, e).contains(x),
    decreases e.len(),
{
    if e.len() > 0 {
        let b = add_missing(t, e.drop_last());
        lemma_add_missing_contains(t, e.drop_last());
        assert forall|i: int| 0 <= i < e.len() implies add_missing(t, e).contains(#[trigger] e[i]) by {
            if i < e.len() - 1 {
                assert(e.drop_last()[i] == e[i]);
                assert(b.contains(e[i]));
                if !b.contains(e.last()) {
                    let j = choose|j: int| 0 <= j < b.len() && b[j] == e[i];
                    assert(b.push(e.last())[j] == e[i]);
                }
            } else {
                if !b.contains(e.last()) {
                    assert(b.push(e.last())[b.len() as int] == e.last());
                }
            }
        }
        assert forall|x: Seq<char>| t.contains(x) implies #[trigger] add_missing(t, e).contains(x) by {
            assert(b.contains(x));
            if !b.contains(e.last()) {
                let j = choose|j: int| 0 <= j < b.len() && b[j] == x;
                assert(b.push(e.last())[j] == x);
            }
        }
    }
}

proof fn lemma_add_missing_present(x: Seq<Seq<char>>, e: Seq<Seq<char>>)
    requires
        forall|i: int| 0 <= i < e.len() ==> x.contains(#[trigger] e[i]),
    ensures
        add_missing(x, e) == x,
    decreases e.len(),
{
    if e.len() > 0 {
        assert forall|i: int| 0 <= i < e.drop_last().len() implies x.contains(#[trigger] e.drop_last()[i]) by {
            assert(e.drop_last()[i] == e[i]);
        }
        lemma_add_missing_present(x, e.drop_last());
        assert(x.contains(e[e.len() - 1]));
    }
}

/// Laying settings over a role description that sets nothing leaves it as
/// it was, and laying the same settings over twice is the same as once.
pub proof fn law_merge_identity_and_idempotence(target: RolePropsView, extra: RolePropsView)
    ensures
        merged(target, no_role_props()) == target,
        merged(merged(target, extra), extra) == merged(target, extra),
{
    assert(target.stat_mods.union_prefer_right(Map::<Seq<char>, i64>::empty()) =~= target.stat_mods);
    assert(target.skill_mods.union_prefer_right(Map::<Seq<char>, i64>::empty()) =~= target.skill_mods);
    assert(add_missing(target.grant_effects, Seq::empty()) == target.grant_effects);
    let once = merged(target, extra);
    assert(once.stat_mods.union_prefer_right(extra.stat_mods) =~= once.stat_mods);
    assert(once.skill_mods.union_prefer_right(extra.skill_mods) =~= once.skill_mods);
    lemma_add_missing_contains(target.grant_effects, extra.grant_effects);
    lemma_add_missing_present(once.grant_effects, extra.grant_effects);
    assert(merged(target, no_role_props()) =~= target);
    assert(merged(once, extra) =~= once);
}

fn copy_text(o: &Option<String>) -> (r: Option<String>)
    ensures
        opt_view(r) == opt_view(*o),
{
    match o {
        Some(s) => Some(owned(s.as_str())),
        None => None,
    }
}

/// `extra`, where it is set, in place of `t`.
fn take<T: Copy>(t: &mut Option<T>, extra: Option<T>)
    ensures
        *final(t) == (if extra is Some {
            extra
        } else {
            *old(t)
        }),
{
    if extra.is_some() {
        *t = extra;
    }
}

/// A copy of `extra`, where it is set, in place of `t`.
fn take_text(t: &mut Option<String>, extra: &Option<String>)
    ensures
        opt_view(*final(t)) == (if extra is Some {
            opt_view(*extra)
        } else {
            opt_view(*old(t))
        }),
{
    if extra.is_some() {
        *t = copy_text(extra);
    }
}

proof fn lemma_int_table_prefix(es: Seq<(String, i64)>, i: int)
    requires
        unique_keys(es),
        0 <= i < es.len(),
    ensures
        int_table(es.take(i + 1)) == int_table(es.take(i)).insert(es[i].0@, es[i].1),
{
    let a = es.take(i);
    let b = es.take(i + 1);
    assert(unique_keys(b));
    assert(unique_keys(a));
    assert forall|k: Seq<char>| #[trigger] has_key(b, k) == (has_key(a, k) || k == es[i].0@) by {
        if has_key(a, k) {
            let j = choose|j: int| 0 <= j < a.len() && a[j].key() == k;
            assert(b[j] == a[j]);
        }
        if has_key(b, k) {
            let j = choose|j: int| 0 <= j < b.len() && b[j].key() == k;
            if j < i {
                assert(a[j] == b[j]);
            }
        }
        if k == es[i].0@ {
            assert(b[i] == es[i]);
        }
    }
    assert(!has_key(a, es[i].0@)) by {
        if has_key(a, es[i].0@) {
            let j = choose|j: int| 0 <= j < a.len() && a[j].key() == es[i].0@;
            assert(es[j].key() == es[i].key());
        }
    }
    assert forall|k: Seq<char>| has_key(b, k) implies #[trigger] int_table(b)[k] == int_table(a).insert(
        es[i].0@,
        es[i].1,
    )[k] by {
        let j = key_index(b, k);
        lemma_key_index(b, j);
        if k == es[i].0@ {
            lemma_key_index(b, i);
        } else {
            assert(j < i);
            assert(a[j] == b[j]);
            lemma_key_index(a, j);
        }
    }
    assert(int_table(b) =~= int_table(a).insert(es[i].0@, es[i].1));
}

/// Puts every entry of `from` into `into`.
fn put_all(into: &mut Vec<(String, i64)>, from: &Vec<(String, i64)>)
    requires
        unique_keys(old(into)@),
        unique_keys(from@),
    ensures
        unique_keys(final(into)@),
        int_table(final(into)@) == int_table(old(into)@).union_prefer_right(int_table(from@)),
{
    let ghost start = int_table(into@);
    let mut i: usize = 0;
    assert(int_table(from@.take(0)) =~= Map::<Seq<char>, i64>::empty());
    assert(start.union_prefer_right(Map::<Seq<char>, i64>::empty()) =~= start);
    while i < from.len()
        invariant
            0 <= i <= from@.len(),
            unique_keys(into@),
            unique_keys(from@),
            int_table(into@) == start.union_prefer_right(int_table(from@.take(i as int))),
        decreases from@.len() - i,
    {
        proof {
            lemma_int_table_prefix(from@, i as int);
        }
        let ghost before = int_table(into@);
        put_int(into, owned(from[i].0.as_str()), from[i].1);
        assert(start.union_prefer_right(int_table(from@.take(i + 1))) =~= before.insert(
            from@[i as int].0@,
            from@[i as int].1,
        ));
        i += 1;
    }
    assert(from@.take(from@.len() as int) =~= from@);
}

/// Adds each of `from` to `into` unless already there.
fn add_all_missing(into: &mut Vec<String>, from: &Vec<String>)
    ensures
        views(final(into)@) == add_missing(views(old(into)@), views(from@)),
{
    let ghost start = views(into@);
    let mut i: usize = 0;
    assert(views(from@).take(0) =~= Seq::<Seq<char>>::empty());
    while i < from.len()
        invariant
            0 <= i <= from@.len(),
            views(into@) == add_missing(start, views(from@).take(i as int)),
        decreases from@.len() - i,
    {
        assert(views(from@).take(i + 1).drop_last() =~= views(from@).take(i as int));
        assert(views(from@).take(i + 1).last() == from@[i as int]@);
        if !names_contain(into, from[i].as_str()) {
            let ghost before = views(into@);
            into.push(owned(from[i].as_str()));
            assert(views(into@) =~= before.push(from@[i as int]@));
        }
        i += 1;
    }
    assert(views(from@).take(from@.len() as int) =~= views(from@));
}

/// Overlay the settings of `extra` onto `target`.
fn merge_props(target: &mut MudlRoleProps, extra: &MudlRoleProps)
    requires
        old(target).wf(),
        extra.wf(),
    ensures
        final(target).wf(),
        final(target)@ == merged(old(target)@, extra@),
{
    take(&mut target.is_container, extra.is_container);
    take(&mut target.is_open, extra.is_open);
    take(&mut target.capacity, extra.capacity);
    take(&mut target.max_weight, extra.max_weight);
    take(&mut target.max_volume, extra.max_volume);
    take(&mut target.is_wearable, extra.is_wearable);
    take_text(&mut target.wear_slot, &extra.wear_slot);
    take(&mut target.weight, extra.weight);
    take(&mut target.volume, extra.volume);
    take(&mut target.pocketable, extra.pocketable);
    take(&mut target.stackable, extra.stackable);
    take(&mut target.stack_count, extra.stack_count);
    take(&mut target.max_stack, extra.max_stack);
    take_text(&mut target.hand_slot, &extra.hand_slot);
    take(&mut target.readable, extra.readable);
    take_text(&mut target.read_text, &extra.read_text);
    take(&mut target.writable, extra.writable);
    take_text(&mut target.write_text, &extra.write_text);
    take(&mut target.locked, extra.locked);
    take_text(&mut target.lock_id, &extra.lock_id);
    take(&mut target.is_key, extra.is_key);
    take(&mut target.key_consumable, extra.key_consumable);
    take(&mut target.lock_consumable, extra.lock_consumable);
    take_text(&mut target.allowed_types, &extra.allowed_types);
    take(&mut target.is_door, extra.is_door);
    take(&mut target.is_window, extra.is_window);
    take_text(&mut target.portal_kind, &extra.portal_kind);
    take_text(&mut target.door_direction, &extra.door_direction);
    take_text(&mut target.door_destination, &extra.door_destination);
    take(&mut target.portal_passable, extra.portal_passable);
    take(&mut target.portal_transparent, extra.portal_transparent);
    take(&mut target.mod_max_weight, extra.mod_max_weight);
    take(&mut target.mod_encumbrance, extra.mod_encumbrance);
    take(&mut target.mod_max_health, extra.mod_max_health);
    take(&mut target.breakable, extra.breakable);
    take_text(&mut target.break_text, &extra.break_text);
    put_all(&mut target.stat_mods, &extra.stat_mods);
    put_all(&mut target.skill_mods, &extra.skill_mods);
    add_all_missing(&mut target.grant_effects, &extra.grant_effects);
}

} // verus!

verus! {

/// Shared template for identical items (stored as a real object for inheritance).
#[derive(Debug, Clone)]
pub struct ItemPrototypeDef {
    pub base_name: String,
    pub name: Option<String>,
    pub description: Option<String>,
    pub aliases: Vec<String>,
    pub props: MudlRoleProps,
    pub triggers: Vec<TriggerDef>,
}

/// A concrete item placed in the world at bootstrap.
#[derive(Debug, Clone)]
pub struct ItemInstanceDef {
    pub base_name: String,
    pub prototype: Option<String>,
    pub name: Option<String>,
    pub description: Option<String>,
    pub aliases: Vec<String>,
    pub location: String,
    pub props: MudlRoleProps,
    pub triggers: Vec<TriggerDef>,
}

pub struct ItemPrototypeView {
    pub base_name: Seq<char>,
    pub name: Option<Seq<char>>,
    pub description: Option<Seq<char>>,
    pub aliases: Seq<Seq<char>>,
    pub props: RolePropsView,
    pub triggers: Seq<TriggerDefView>,
}

pub struct ItemInstanceView {
    pub base_name: Seq<char>,
    pub prototype: Option<Seq<char>>,
    pub name: Option<Seq<char>>,
    pub description: Option<Seq<char>>,
    pub aliases: Seq<Seq<char>>,
    pub location: Seq<char>,
    pub props: RolePropsView,
    pub triggers: Seq<TriggerDefView>,
}

pub open spec fn trigger_views(v: Seq<TriggerDef>) -> Seq<TriggerDefView> {
    v.map_values(|t: TriggerDef| t@)
}

impl View for ItemPrototypeDef {
    type V = ItemPrototypeView;

    open spec fn view(&self) -> ItemPrototypeView {
        ItemPrototypeView {
            base_name: self.base_name@,
            name: opt_view(self.name),
            description: opt_view(self.description),
            aliases: views(self.aliases@),
            props: self.props@,
            triggers: trigger_views(self.triggers@),
        }
    }
}

impl View for ItemInstanceDef {
    type V = ItemInstanceView;

    open spec fn view(&self) -> ItemInstanceView {
        ItemInstanceView {
            base_name: self.base_name@,
            prototype: opt_view(self.prototype),
            name: opt_view(self.name),
            description: opt_view(self.description),
            aliases: views(self.aliases@),
            location: self.location@,
            props: self.props@,
            triggers: trigger_views(self.triggers@),
        }
    }
}

pub open spec fn prototype_views(v: Seq<ItemPrototypeDef>) -> Seq<ItemPrototypeView> {
    v.map_values(|p: ItemPrototypeDef| p@)
}

pub open spec fn instance_views(v: Seq<ItemInstanceDef>) -> Seq<ItemInstanceView> {
    v.map_values(|i: ItemInstanceDef| i@)
}

pub open spec fn open_prototype(o: Option<ItemPrototypeDef>) -> Option<ItemPrototypeView> {
    match o {
        Some(p) => Some(p@),
        None => None,
    }
}

pub open spec fn open_instance(o: Option<ItemInstanceDef>) -> Option<ItemInstanceView> {
    match o {
        Some(i) => Some(i@),
        None => None,
    }
}

/// `s`, with `o` added at its end when there is one.
pub open spec fn push_opt<A>(s: Seq<A>, o: Option<A>) -> Seq<A> {
    match o {
        Some(x) => s.push(x),
        None => s,
    }
}

/// A new prototype named `name`, with nothing set yet.
pub open spec fn new_prototype(name: Seq<char>) -> ItemPrototypeView {
    ItemPrototypeView {
        base_name: name,
        name: None,
        description: None,
        aliases: Seq::empty(),
        props: no_role_props(),
        triggers: Seq::empty(),
    }
}

/// A new item named `name`, with nothing set yet and no location.
pub open spec fn new_instance(name: Seq<char>) -> ItemInstanceView {
    ItemInstanceView {
        base_name: name,
        prototype: None,
        name: None,
        description: None,
        aliases: Seq::empty(),
        location: Seq::empty(),
        props: no_role_props(),
        triggers: Seq::empty(),
    }
}

/// The role setting `key=value` laid over `props`.
pub open spec fn with_setting(
    props: RolePropsView,
    key: Seq<char>,
    value: Seq<char>,
    floats: spec_fn(Seq<char>) -> Option<u64>,
) -> RolePropsView {
    merged(props, role_props_of(seq![(key, value)], floats))
}

/// `key=value` in a prototype block: its name, description or an alias, or
/// else a role setting; `location` and `prototype` are not a prototype's.
pub open spec fn prototype_setting(
    p: ItemPrototypeView,
    key: Seq<char>,
    value: Seq<char>,
    floats: spec_fn(Seq<char>) -> Option<u64>,
) -> ItemPrototypeView {
    if key == "name"@ {
        ItemPrototypeView { name: Some(value), ..p }
    } else if key == "description"@ {
        ItemPrototypeView { description: Some(value), ..p }
    } else if key == "location"@ || key == "prototype"@ {
        p
    } else if key == "alias"@ {
        ItemPrototypeView { aliases: p.aliases.push(value), ..p }
    } else {
        ItemPrototypeView { props: with_setting(p.props, key, value, floats), ..p }
    }
}

/// `key=value` in an item block: its name, description, location,
/// prototype or an alias, or else a role setting.
pub open spec fn instance_setting(
    i: ItemInstanceView,
    key: Seq<char>,
    value: Seq<char>,
    floats: spec_fn(Seq<char>) -> Option<u64>,
) -> ItemInstanceView {
    if key == "name"@ {
        ItemInstanceView { name: Some(value), ..i }
    } else if key == "description"@ {
        ItemInstanceView { description: Some(value), ..i }
    } else if key == "location"@ {
        ItemInstanceView { location: value, ..i }
    } else if key == "prototype"@ {
        ItemInstanceView { prototype: Some(value), ..i }
    } else if key == "alias"@ {
        ItemInstanceView { aliases: i.aliases.push(value), ..i }
    } else {
        ItemInstanceView { props: with_setting(i.props, key, value, floats), ..i }
    }
}

/// `props` with one modifier set (`skill` picks the skill table).
pub open spec fn with_mod(props: RolePropsView, skill: bool, name: Seq<char>, v: i64) -> RolePropsView {
    if skill {
        RolePropsView { skill_mods: props.skill_mods.insert(name, v), ..props }
    } else {
        RolePropsView { stat_mods: props.stat_mods.insert(name, v), ..props }
    }
}

/// `props` granting `effect` too, unless it already does.
pub open spec fn with_effect(props: RolePropsView, effect: Seq<char>) -> RolePropsView {
    if props.grant_effects.contains(effect) {
        props
    } else {
        RolePropsView { grant_effects: props.grant_effects.push(effect), ..props }
    }
}

/// Finished prototypes and items, and the open prototype or item block.
pub type ItemState = (
    Seq<ItemPrototypeView>,
    Seq<ItemInstanceView>,
    Option<ItemPrototypeView>,
    Option<ItemInstanceView>,
);

/// A change to the open block: prototype first, else the item.
pub open spec fn on_open_block(
    st: ItemState,
    fp: spec_fn(ItemPrototypeView) -> ItemPrototypeView,
    fi: spec_fn(ItemInstanceView) -> ItemInstanceView,
) -> ItemState {
    let (protos, items, cp, ci) = st;
    match cp {
        Some(p) => (protos, items, Some(fp(p)), ci),
        None => match ci {
            Some(i) => (protos, items, cp, Some(fi(i))),
            None => st,
        },
    }
}

/// One source line read into the state. A new `@prototype` closes an open
/// prototype and drops an open item; a new `@item` the other way round.
pub open spec fn item_step(st: ItemState, raw: Seq<char>, floats: spec_fn(Seq<char>) -> Option<u64>) -> ItemState {
    let (protos, items, cp, ci) = st;
    let line = comment_free(raw);
    if line.len() == 0 {
        st
    } else if line == "@end"@ {
        (push_opt(protos, cp), push_opt(items, ci), None, None)
    } else if has_prefix(line, "@prototype "@) {
        (push_opt(protos, cp), items, Some(new_prototype(trim_seq(line.skip(11)))), None)
    } else if has_prefix(line, "@item "@) {
        (protos, push_opt(items, ci), None, Some(new_instance(trim_seq(line.skip(6)))))
    } else if has_prefix(line, "@trigger "@) {
        match trigger_of(line.skip(9)) {
            Some(t) => on_open_block(
                st,
                |p: ItemPrototypeView| ItemPrototypeView { triggers: p.triggers.push(t), ..p },
                |i: ItemInstanceView| ItemInstanceView { triggers: i.triggers.push(t), ..i },
            ),
            None => st,
        }
    } else if has_prefix(line, "@mod-stat "@) || has_prefix(line, "@mod-skill "@) {
        let skill = has_prefix(line, "@mod-skill "@) && !has_prefix(line, "@mod-stat "@);
        let rest = if skill { line.skip(11) } else { line.skip(10) };
        match stat_line_of(rest) {
            Some((n, v)) => on_open_block(
                st,
                |p: ItemPrototypeView| ItemPrototypeView { props: with_mod(p.props, skill, n, v), ..p },
                |i: ItemInstanceView| ItemInstanceView { props: with_mod(i.props, skill, n, v), ..i },
            ),
            None => st,
        }
    } else if has_prefix(line, "@grant-effect "@) {
        let e = trim_seq(line.skip(14));
        if e.len() > 0 {
            on_open_block(
                st,
                |p: ItemPrototypeView| ItemPrototypeView { props: with_effect(p.props, e), ..p },
                |i: ItemInstanceView| ItemInstanceView { props: with_effect(i.props, e), ..i },
            )
        } else {
            st
        }
    } else {
        match key_value(line) {
            Some((k, v)) => on_open_block(
                st,
                |p: ItemPrototypeView| prototype_setting(p, k, v, floats),
                |i: ItemInstanceView| instance_setting(i, k, v, floats),
            ),
            None => st,
        }
    }
}

pub open spec fn item_fold(ls: Seq<Seq<char>>, floats: spec_fn(Seq<char>) -> Option<u64>) -> ItemState
    decreases ls.len(),
{
    if ls.len() == 0 {
        (Seq::empty(), Seq::empty(), None, None)
    } else {
        item_step(item_fold(ls.drop_last(), floats), ls.last(), floats)
    }
}

/// The prototypes and items of a MUDL source, in order; a block still open
/// at the end counts too.
pub open spec fn items_of(content: Seq<char>, floats: spec_fn(Seq<char>) -> Option<u64>) -> (
    Seq<ItemPrototypeView>,
    Seq<ItemInstanceView>,
) {
    let (protos, items, cp, ci) = item_fold(lines(content), floats);
    (push_opt(protos, cp), push_opt(items, ci))
}

pub open spec fn all_wf_protos(v: Seq<ItemPrototypeDef>) -> bool {
    forall|i: int| 0 <= i < v.len() ==> (#[trigger] v[i]).props.wf()
}

pub open spec fn all_wf_items(v: Seq<ItemInstanceDef>) -> bool {
    forall|i: int| 0 <= i < v.len() ==> (#[trigger] v[i]).props.wf()
}

pub open spec fn state_wf(
    protos: Seq<ItemPrototypeDef>,
    items: Seq<ItemInstanceDef>,
    cp: Option<ItemPrototypeDef>,
    ci: Option<ItemInstanceDef>,
) -> bool {
    &&& all_wf_protos(protos)
    &&& all_wf_items(items)
    &&& (cp matches Some(p) ==> p.props.wf())
    &&& (ci matches Some(i) ==> i.props.wf())
}

/// The role setting `key=value` laid over `props`.
fn apply_setting<F: Fn(&str) -> Option<u64>>(props: &mut MudlRoleProps, key: &str, value: &str, finite_float_bits: &F)
    requires
        old(props).wf(),
        reads_floats(*finite_float_bits),
    ensures
        final(props).wf(),
        final(props)@ == with_setting(old(props)@, key@, value@, float_reading(*finite_float_bits)),
{
    let pairs: Vec<(&str, &str)> = vec![(key, value)];
    assert(pair_views(pairs@) =~= seq![(key@, value@)]);
    let extra = MudlRoleProps::from_pairs(pairs.as_slice(), finite_float_bits);
    merge_props(props, &extra);
}

fn prototype_kv<F: Fn(&str) -> Option<u64>>(p: &mut ItemPrototypeDef, key: &str, value: &str, finite_float_bits: &F)
    requires
        old(p).props.wf(),
        reads_floats(*finite_float_bits),
    ensures
        final(p).props.wf(),
        final(p)@ == prototype_setting(old(p)@, key@, value@, float_reading(*finite_float_bits)),
{
    if str_eq(key, "name") {
        p.name = Some(owned(value));
    } else if str_eq(key, "description") {
        p.description = Some(owned(value));
    } else if str_eq(key, "location") || str_eq(key, "prototype") {
    } else if str_eq(key, "alias") {
        let ghost before = views(p.aliases@);
        p.aliases.push(owned(value));
        assert(views(p.aliases@) =~= before.push(value@));
    } else {
        apply_setting(&mut p.props, key, value, finite_float_bits);
    }
}

fn instance_kv<F: Fn(&str) -> Option<u64>>(i: &mut ItemInstanceDef, key: &str, value: &str, finite_float_bits: &F)
    requires
        old(i).props.wf(),
        reads_floats(*finite_float_bits),
    ensures
        final(i).props.wf(),
        final(i)@ == instance_setting(old(i)@, key@, value@, float_reading(*finite_float_bits)),
{
    if str_eq(key, "name") {
        i.name = Some(owned(value));
    } else if str_eq(key, "description") {
        i.description = Some(owned(value));
    } else if str_eq(key, "location") {
        i.location = owned(value);
    } else if str_eq(key, "prototype") {
        i.prototype = Some(owned(value));
    } else if str_eq(key, "alias") {
        let ghost before = views(i.aliases@);
        i.aliases.push(owned(value));
        assert(views(i.aliases@) =~= before.push(value@));
    } else {
        apply_setting(&mut i.props, key, value, finite_float_bits);
    }
}

fn add_mod(props: &mut MudlRoleProps, skill: bool, name: String, v: i64)
    requires
        old(props).wf(),
    ensures
        final(props).wf(),
        final(props)@ == with_mod(old(props)@, skill, name@, v),
{
    if skill {
        put_int(&mut props.skill_mods, name, v);
    } else {
        put_int(&mut props.stat_mods, name, v);
    }
}

fn add_effect_to(props: &mut MudlRoleProps, effect: &str)
    requires
        old(props).wf(),
    ensures
        final(props).wf(),
        final(props)@ == with_effect(old(props)@, effect@),
{
    if !names_contain(&props.grant_effects, effect) {
        let ghost before = views(props.grant_effects@);
        props.grant_effects.push(owned(effect));
        assert(views(props.grant_effects@) =~= before.push(effect@));
    }
}

fn push_prototype(protos: &mut Vec<ItemPrototypeDef>, cp: Option<ItemPrototypeDef>)
    requires
        all_wf_protos(old(protos)@),
        cp matches Some(p) ==> p.props.wf(),
    ensures
        all_wf_protos(final(protos)@),
        prototype_views(final(protos)@) == push_opt(prototype_views(old(protos)@), open_prototype(cp)),
{
    if let Some(p) = cp {
        let ghost before = prototype_views(protos@);
        let ghost pv = p@;
        protos.push(p);
        assert(prototype_views(protos@) =~= before.push(pv));
    }
}

fn push_instance(items: &mut Vec<ItemInstanceDef>, ci: Option<ItemInstanceDef>)
    requires
        all_wf_items(old(items)@),
        ci matches Some(i) ==> i.props.wf(),
    ensures
        all_wf_items(final(items)@),
        instance_views(final(items)@) == push_opt(instance_views(old(items)@), open_instance(ci)),
{
    if let Some(i) = ci {
        let ghost before = instance_views(items@);
        let ghost iv = i@;
        items.push(i);
        assert(instance_views(items@) =~= before.push(iv));
    }
}

fn item_line<F: Fn(&str) -> Option<u64>>(
    protos: &mut Vec<ItemPrototypeDef>,
    items: &mut Vec<ItemInstanceDef>,
    cp: &mut Option<ItemPrototypeDef>,
    ci: &mut Option<ItemInstanceDef>,
    raw: &str,
    finite_float_bits: &F,
)
    requires
        state_wf(old(protos)@, old(items)@, *old(cp), *old(ci)),
        reads_floats(*finite_float_bits),
    ensures
        state_wf(final(protos)@, final(items)@, *final(cp), *final(ci)),
        (
            prototype_views(final(protos)@),
            instance_views(final(items)@),
            open_prototype(*final(cp)),
            open_instance(*final(ci)),
        ) == item_step(
            (
                prototype_views(old(protos)@),
                instance_views(old(items)@),
                open_prototype(*old(cp)),
                open_instance(*old(ci)),
            ),
            raw@,
            float_reading(*finite_float_bits),
        ),
{
    proof {
        reveal_strlit("@end");
        reveal_strlit("@prototype ");
        reveal_strlit("@item ");
        reveal_strlit("@trigger ");
        reveal_strlit("@mod-stat ");
        reveal_strlit("@mod-skill ");
        reveal_strlit("@grant-effect ");
    }
    let line = strip_comment(raw);
    if line.unicode_len() == 0 {
        return;
    }
    if str_eq(line, "@end") {
        push_prototype(protos, cp.take());
        push_instance(items, ci.take());
        return;
    }
    if let Some(name) = strip_prefix(line, "@prototype ") {
        assert(name@ =~= line@.skip(11));
        push_prototype(protos, cp.take());
        *ci = None;
        let p = ItemPrototypeDef {
            base_name: owned(trim(name)),
            name: None,
            description: None,
            aliases: Vec::new(),
            props: MudlRoleProps::default(),
            triggers: Vec::new(),
        };
        assert(p@ =~= new_prototype(trim_seq(line@.skip(11)))) by {
            assert(p@.aliases =~= Seq::<Seq<char>>::empty());
            assert(p@.triggers =~= Seq::<TriggerDefView>::empty());
        }
        *cp = Some(p);
        return;
    }
    if let Some(name) = strip_prefix(line, "@item ") {
        assert(name@ =~= line@.skip(6));
        push_instance(items, ci.take());
        *cp = None;
        let i = ItemInstanceDef {
            base_name: owned(trim(name)),
            prototype: None,
            name: None,
            description: None,
            aliases: Vec::new(),
            location: String::new(),
            props: MudlRoleProps::default(),
            triggers: Vec::new(),
        };
        assert(i@ =~= new_instance(trim_seq(line@.skip(6)))) by {
            assert(i@.aliases =~= Seq::<Seq<char>>::empty());
            assert(i@.triggers =~= Seq::<TriggerDefView>::empty());
            assert(i@.location =~= Seq::<char>::empty());
        }
        *ci = Some(i);
        return;
    }
    if let Some(rest) = strip_prefix(line, "@trigger ") {
        assert(rest@ =~= line@.skip(9));
        if let Some(t) = parse_trigger_line(rest) {
            let ghost tv = t@;
            if let Some(p) = cp {
                let ghost before = trigger_views(p.triggers@);
                p.triggers.push(t);
                assert(trigger_views(p.triggers@) =~= before.push(tv));
            } else if let Some(i) = ci {
                let ghost before = trigger_views(i.triggers@);
                i.triggers.push(t);
                assert(trigger_views(i.triggers@) =~= before.push(tv));
            }
        }
        return;
    }
    let stat = strip_prefix(line, "@mod-stat ");
    let skill = strip_prefix(line, "@mod-skill ");
    if stat.is_some() || skill.is_some() {
        let is_skill = stat.is_none();
        let rest = match stat {
            Some(r) => r,
            None => skill.unwrap(),
        };
        assert(rest@ =~= (if is_skill { line@.skip(11) } else { line@.skip(10) }));
        if let Some((n, v)) = parse_stat_line(rest) {
            if let Some(p) = cp {
                add_mod(&mut p.props, is_skill, n, v);
            } else if let Some(i) = ci {
                add_mod(&mut i.props, is_skill, n, v);
            }
        }
        return;
    }
    if let Some(rest) = strip_prefix(line, "@grant-effect ") {
        assert(rest@ =~= line@.skip(14));
        let effect = trim(rest);
        if effect.unicode_len() > 0 {
            if let Some(p) = cp {
                add_effect_to(&mut p.props, effect);
            } else if let Some(i) = ci {
                add_effect_to(&mut i.props, effect);
            }
        }
        return;
    }
    if let Some((key, value)) = split_key_value(line) {
        if let Some(p) = cp {
            prototype_kv(p, key.as_str(), value, finite_float_bits);
        } else if let Some(i) = ci {
            instance_kv(i, key.as_str(), value, finite_float_bits);
        }
    }
}

/// Parse `@prototype` and `@item` blocks from MUDL source; whether a role
/// value is a finite float, and its bits, is what `finite_float_bits` says.
pub fn parse_item_file<F: Fn(&str) -> Option<u64>>(content: &str, finite_float_bits: &F) -> (r: (
    Vec<ItemPrototypeDef>,
    Vec<ItemInstanceDef>,
))
    requires
        reads_floats(*finite_float_bits),
    ensures
        (prototype_views(r.0@), instance_views(r.1@)) == items_of(content@, float_reading(*finite_float_bits)),
        all_wf_protos(r.0@),
        all_wf_items(r.1@),
{
    let ghost fl = float_reading(*finite_float_bits);
    let ls = split_lines(content);
    let mut protos: Vec<ItemPrototypeDef> = Vec::new();
    let mut items: Vec<ItemInstanceDef> = Vec::new();
    let mut cp: Option<ItemPrototypeDef> = None;
    let mut ci: Option<ItemInstanceDef> = None;
    let mut i: usize = 0;
    assert(prototype_views(protos@) =~= Seq::<ItemPrototypeView>::empty());
    assert(instance_views(items@) =~= Seq::<ItemInstanceView>::empty());
    while i < ls.len()
        invariant
            0 <= i <= ls@.len(),
            reads_floats(*finite_float_bits),
            fl == float_reading(*finite_float_bits),
            views(ls@) == lines(content@),
            state_wf(protos@, items@, cp, ci),
            (prototype_views(protos@), instance_views(items@), open_prototype(cp), open_instance(ci))
                == item_fold(views(ls@).take(i as int), fl),
        decreases ls@.len() - i,
    {
        let ghost ws = views(ls@);
        assert(ws.take(i + 1).drop_last() =~= ws.take(i as int));
        assert(ws.take(i + 1).last() == ls@[i as int]@);
        item_line(&mut protos, &mut items, &mut cp, &mut ci, ls[i].as_str(), finite_float_bits);
        i += 1;
    }
    assert(views(ls@).take(ls@.len() as int) =~= views(ls@));
    push_prototype(&mut protos, cp);
    push_instance(&mut items, ci);
    (protos, items)
}

proof fn lemma_no_directive(t: Seq<char>)
    requires
        t.len() > 0,
        t[0] != '@',
    ensures
        t != "@end"@,
        !has_prefix(t, "@prototype "@),
        !has_prefix(t, "@item "@),
        !has_prefix(t, "@trigger "@),
        !has_prefix(t, "@mod-stat "@),
        !has_prefix(t, "@mod-skill "@),
        !has_prefix(t, "@grant-effect "@),
{
    reveal_strlit("@end");
    reveal_strlit("@prototype ");
    reveal_strlit("@item ");
    reveal_strlit("@trigger ");
    reveal_strlit("@mod-stat ");
    reveal_strlit("@mod-skill ");
    reveal_strlit("@grant-effect ");
    assert("@end"@.len() > 0 && "@end"@[0] == '@');
    assert("@prototype "@.len() > 0 && "@prototype "@[0] == '@');
    assert("@item "@.len() > 0 && "@item "@[0] == '@');
    assert("@trigger "@.len() > 0 && "@trigger "@[0] == '@');
    assert("@mod-stat "@.len() > 0 && "@mod-stat "@[0] == '@');
    assert("@mod-skill "@.len() > 0 && "@mod-skill "@[0] == '@');
    assert("@grant-effect "@.len() > 0 && "@grant-effect "@[0] == '@');
    assert forall|p: Seq<char>| p.len() > 0 && has_prefix(t, p) implies t[0] == p[0] by {
        assert(t.subrange(0, p.len() as int)[0] == t[0]);
    }
}

/// A `key = value` line (no `@` directive) is a setting of the open block.
proof fn lemma_setting_item_step(
    st: ItemState,
    raw: Seq<char>,
    k: Seq<char>,
    v: Seq<char>,
    floats: spec_fn(Seq<char>) -> Option<u64>,
)
    requires
        comment_free(raw).len() > 0,
        comment_free(raw)[0] != '@',
        key_value(comment_free(raw)) == Some((k, v)),
    ensures
        st.2 matches Some(p) ==> item_step(st, raw, floats) == (st.0, st.1, Some(prototype_setting(p, k, v, floats)), st.3),
        st.2 is None && st.3 is Some ==> item_step(st, raw, floats) == (
            st.0,
            st.1,
            st.2,
            Some(instance_setting(st.3->0, k, v, floats)),
        ),
{
    lemma_no_directive(comment_free(raw));
}

/// Within an open `@item` block, a `key = value` line whose key is one of the
/// item's own fields (`name`, `description`, `location`, `prototype`,
/// `alias`; case ignored) sets that field to the trimmed value (an alias is
/// added after the others) and leaves the item's other fields, and the
/// finished prototypes and items, as they were.
pub proof fn law_item_field_line(
    st: ItemState,
    raw: Seq<char>,
    k: Seq<char>,
    v: Seq<char>,
    floats: spec_fn(Seq<char>) -> Option<u64>,
)
    requires
        st.2 is None,
        st.3 is Some,
        comment_free(raw).len() > 0,
        comment_free(raw)[0] != '@',
        key_value(comment_free(raw)) == Some((k, v)),
        k == "name"@ || k == "description"@ || k == "location"@ || k == "prototype"@ || k == "alias"@,
    ensures
        ({
            let next = item_step(st, raw, floats);
            let i = st.3->0;
            &&& next.0 == st.0
            &&& next.1 == st.1
            &&& next.2 is None
            &&& next.3 matches Some(n) && {
                &&& n.base_name == i.base_name
                &&& n.name == (if k == "name"@ { Some(v) } else { i.name })
                &&& n.description == (if k == "description"@ { Some(v) } else { i.description })
                &&& n.location == (if k == "location"@ { v } else { i.location })
                &&& n.prototype == (if k == "prototype"@ { Some(v) } else { i.prototype })
                &&& n.aliases == (if k == "alias"@ { i.aliases.push(v) } else { i.aliases })
                &&& n.props == i.props
                &&& n.triggers == i.triggers
            }
        }),
{
    lemma_setting_item_step(st, raw, k, v, floats);
    lemma_item_keys_distinct();
}

/// Within an open `@prototype` block, a `key = value` line whose key is
/// `name`, `description` or `alias` (case ignored) sets that field to the
/// trimmed value (an alias is added after the others); `location` and
/// `prototype` lines change nothing.
pub proof fn law_prototype_field_line(
    st: ItemState,
    raw: Seq<char>,
    k: Seq<char>,
    v: Seq<char>,
    floats: spec_fn(Seq<char>) -> Option<u64>,
)
    requires
        st.2 is Some,
        comment_free(raw).len() > 0,
        comment_free(raw)[0] != '@',
        key_value(comment_free(raw)) == Some((k, v)),
        k == "name"@ || k == "description"@ || k == "location"@ || k == "prototype"@ || k == "alias"@,
    ensures
        ({
            let next = item_step(st, raw, floats);
            let p = st.2->0;
            &&& next.0 == st.0
            &&& next.1 == st.1
            &&& next.3 == st.3
            &&& next.2 matches Some(n) && {
                &&& n.base_name == p.base_name
                &&& n.name == (if k == "name"@ { Some(v) } else { p.name })
                &&& n.description == (if k == "description"@ { Some(v) } else { p.description })
                &&& n.aliases == (if k == "alias"@ { p.aliases.push(v) } else { p.aliases })
                &&& n.props == p.props
                &&& n.triggers == p.triggers
            }
        }),
{
    lemma_setting_item_step(st, raw, k, v, floats);
    lemma_item_keys_distinct();
}

proof fn lemma_item_keys_distinct()
    ensures
        "name"@ != "description"@,
        "name"@ != "location"@,
        "name"@ != "prototype"@,
        "name"@ != "alias"@,
        "description"@ != "location"@,
        "description"@ != "prototype"@,
        "description"@ != "alias"@,
        "location"@ != "prototype"@,
        "location"@ != "alias"@,
        "prototype"@ != "alias"@,
{
    reveal_strlit("name");
    reveal_strlit("description");
    reveal_strlit("location");
    reveal_strlit("prototype");
    reveal_strlit("alias");
    assert("name"@.len() == 4 && "description"@.len() == 11 && "location"@.len() == 8 && "prototype"@.len()
        == 9 && "alias"@.len() == 5);
}

/// `@mod-skill <name> <n>` (or `@mod-stat`; also written `<name>=<n>`) in an
/// open block files `n` under `<name>` among that block's skill (or stat)
/// modifiers, leaving the other table, the granted effects and the rest of
/// the block as they were; a prototype block is served first.
pub proof fn law_modifier_directive(
    st: ItemState,
    raw: Seq<char>,
    skill: bool,
    rest: Seq<char>,
    name: Seq<char>,
    n: i64,
    floats: spec_fn(Seq<char>) -> Option<u64>,
)
    requires
        comment_free(raw) == (if skill { "@mod-skill "@ } else { "@mod-stat "@ }) + rest,
        stat_line_of(rest) == Some((name, n)),
    ensures
        ({
            let next = item_step(st, raw, floats);
            &&& next.0 == st.0
            &&& next.1 == st.1
            &&& match st.2 {
                Some(p) => next.3 == st.3 && (next.2 matches Some(q) && {
                    &&& q.props.skill_mods == (if skill { p.props.skill_mods.insert(name, n) } else { p.props.skill_mods })
                    &&& q.props.stat_mods == (if skill { p.props.stat_mods } else { p.props.stat_mods.insert(name, n) })
                    &&& q.props.grant_effects == p.props.grant_effects
                    &&& q.name == p.name
                    &&& q.aliases == p.aliases
                }),
                None => next.2 is None && match st.3 {
                    Some(i) => (next.3 matches Some(j) && {
                        &&& j.props.skill_mods == (if skill { i.props.skill_mods.insert(name, n) } else { i.props.skill_mods })
                        &&& j.props.stat_mods == (if skill { i.props.stat_mods } else { i.props.stat_mods.insert(name, n) })
                        &&& j.props.grant_effects == i.props.grant_effects
                        &&& j.name == i.name
                        &&& j.location == i.location
                    }),
                    None => next.3 is None,
                },
            }
        }),
{
    let line = comment_free(raw);
    let p = if skill { "@mod-skill "@ } else { "@mod-stat "@ };
    reveal_strlit("@mod-skill ");
    reveal_strlit("@mod-stat ");
    reveal_strlit("@end");
    reveal_strlit("@prototype ");
    reveal_strlit("@item ");
    reveal_strlit("@trigger ");
    assert(line[1] == 'm' && line[5] == 's' && line[6] == (if skill { 'k' } else { 't' }));
    assert(line.len() >= 10);
    assert(has_prefix(line, p)) by {
        assert(line.subrange(0, p.len() as int) =~= p);
    }
    assert forall|q: Seq<char>| q.len() > 6 && has_prefix(line, q) implies line[1] == q[1] && line[6] == q[6] by {
        assert(line.subrange(0, q.len() as int)[1] == line[1]);
        assert(line.subrange(0, q.len() as int)[6] == line[6]);
    }
    assert("@prototype "@[1] == 'p' && "@item "@[1] == 'i' && "@trigger "@[1] == 't' && "@mod-stat "@[6] == 't'
        && "@mod-skill "@[6] == 'k' && "@end"@.len() == 4);
    assert(line != "@end"@);
    assert(line.skip(p.len() as int) =~= rest);
}

/// `@end` files the open prototype or item after the finished ones and
/// leaves no block open.
pub proof fn law_item_block_end(st: ItemState, raw: Seq<char>, floats: spec_fn(Seq<char>) -> Option<u64>)
    requires
        comment_free(raw) == "@end"@,
    ensures
        ({
            let next = item_step(st, raw, floats);
            &&& next.2 is None && next.3 is None
            &&& next.0 == (match st.2 {
                Some(p) => st.0.push(p),
                None => st.0,
            })
            &&& next.1 == (match st.3 {
                Some(i) => st.1.push(i),
                None => st.1,
            })
        }),
{
    reveal_strlit("@end");
    assert("@end"@.len() == 4);
}

/// `@item <name>` starts a new item block with that base name (trimmed), no
/// display name and nothing set, after filing an open item; an open
/// prototype is dropped.
pub proof fn law_item_header(st: ItemState, raw: Seq<char>, rest: Seq<char>, floats: spec_fn(Seq<char>) -> Option<u64>)
    requires
        comment_free(raw) == "@item "@ + rest,
    ensures
        ({
            let next = item_step(st, raw, floats);
            &&& next.0 == st.0
            &&& next.1 == (match st.3 {
                Some(i) => st.1.push(i),
                None => st.1,
            })
            &&& next.2 is None
            &&& next.3 matches Some(i) && i.base_name == trim_seq(rest) && i.name is None && i.prototype is None
                && i.aliases.len() == 0 && i.triggers.len() == 0
        }),
{
    let line = comment_free(raw);
    reveal_strlit("@item ");
    reveal_strlit("@end");
    reveal_strlit("@prototype ");
    assert(line.len() >= 6 && line[1] == 'i');
    assert(line != "@end"@) by {
        assert("@end"@[1] == 'e');
    }
    assert(!has_prefix(line, "@prototype "@)) by {
        if has_prefix(line, "@prototype "@) {
            assert(line.subrange(0, 11)[1] == line[1]);
        }
    }
    assert(has_prefix(line, "@item "@)) by {
        assert(line.subrange(0, 6) =~= "@item "@);
    }
    assert(line.skip(6) =~= rest);
}

} // verus!
