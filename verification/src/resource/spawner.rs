//! Location- and object-attached resource spawners with weighted item templates:
//! the spawner's stored settings, its entries and templates, and when it fires.

use vstd::prelude::*;

use crate::loot::spawner::{opt_id, stored_weight};
use crate::mudl::resource_spawner_def::{
    resource_trigger_of, ResourceSpawnerDef, ResourceSpawnerTrigger, ResourceTemplateDef, ResourceTemplateView,
};
use crate::mudl::spawner_def::{SpawnerEntryDef, SpawnerEntryView};
use crate::object::physical::{numeric_reading, stores_numbers};
use crate::object::world::{find_obj, find_object};
use crate::object::{changes_only, is_place_type, same_id, Object, ObjectId, PermissionFlags, Property, Value};
use crate::spawning::{entries_of, entry_of, entry_views, map_get, mapping_get, spawner_entries, stored_entries};
use crate::text::{before_char, lower_case_of, owned, push_str, replace_char, replaced, str_eq, str_to_lowercase};

verus! {

/// Result of a resource spawner tick — narrative feedback for the player.
#[derive(Debug, Clone, PartialEq, Eq)]
pub struct ResourceSpawnResult {
    pub item_id: ObjectId,
    pub message: Option<String>,
}

/// Whether `obj` is a resource spawner (hidden from room listings).
pub fn is_resource_spawner(obj: &Object) -> (r: bool)
    requires
        obj.wf(),
    ensures
        r == obj.flag("is_resource_spawner"@, false),
{
    match obj.get_bool_property("is_resource_spawner") {
        Some(b) => b,
        None => false,
    }
}

/// Whether `obj` should be hidden from player room listings.
pub fn is_resource_spawner_infrastructure(obj: &Object) -> (r: bool)
    requires
        obj.wf(),
    ensures
        r == obj.flag("is_resource_spawner"@, false),
{
    is_resource_spawner(obj)
}

/// The object a resource spawner fills.
pub fn resource_spawner_target_id(obj: &Object) -> (r: Option<ObjectId>)
    requires
        obj.wf(),
    ensures
        r == obj.ref_prop("resource_spawner_target"@),
{
    obj.get_object_ref_property("resource_spawner_target")
}

/// The stored trigger of a resource spawner; `OnEnter` when none is stored.
pub open spec fn stored_resource_trigger(obj: Object) -> ResourceSpawnerTrigger {
    match obj.string_prop("resource_spawner_trigger"@) {
        Some(s) => resource_trigger_of(lower_case_of(s@)),
        None => ResourceSpawnerTrigger::OnEnter,
    }
}

pub fn resource_spawner_trigger(obj: &Object) -> (r: ResourceSpawnerTrigger)
    requires
        obj.wf(),
    ensures
        r == stored_resource_trigger(*obj),
{
    match obj.get_string_property("resource_spawner_trigger") {
        Some(s) => ResourceSpawnerTrigger::parse(s.as_str()),
        None => ResourceSpawnerTrigger::OnEnter,
    }
}

/// A stored integer setting, `d` when missing, raised to at least `lo`.
pub open spec fn int_setting(obj: Object, name: Seq<char>, d: i64, lo: i64) -> i64 {
    let v = match obj.int_prop(name) {
        Some(n) => n,
        None => d,
    };
    if v < lo {
        lo
    } else {
        v
    }
}

fn read_int_setting(obj: &Object, name: &str, d: i64, lo: i64) -> (r: i64)
    requires
        obj.wf(),
    ensures
        r == int_setting(*obj, name@, d, lo),
{
    let v = match obj.get_int_property(name) {
        Some(n) => n,
        None => d,
    };
    if v < lo {
        lo
    } else {
        v
    }
}

/// Most resources alive at once (default 4).
pub fn resource_spawner_max_active(obj: &Object) -> (r: u32)
    requires
        obj.wf(),
    ensures
        r == int_setting(*obj, "resource_spawner_max_active"@, 4, 0) as u32,
{
    read_int_setting(obj, "resource_spawner_max_active", 4, 0) as u32
}

/// Timer period in trigger ticks (default 5, at least 1).
pub fn resource_spawner_periodic_interval(obj: &Object) -> (r: u32)
    requires
        obj.wf(),
    ensures
        r == int_setting(*obj, "resource_spawner_periodic_interval"@, 5, 1) as u32,
{
    read_int_setting(obj, "resource_spawner_periodic_interval", 5, 1) as u32
}

/// How many items the spawner has made.
pub fn resource_spawner_spawn_count(obj: &Object) -> (r: u32)
    requires
        obj.wf(),
    ensures
        r == int_setting(*obj, "resource_spawner_spawn_count"@, 0, 0) as u32,
{
    read_int_setting(obj, "resource_spawner_spawn_count", 0, 0) as u32
}

/// Whether the spawner fires only once.
pub fn resource_spawner_once(obj: &Object) -> (r: bool)
    requires
        obj.wf(),
    ensures
        r == obj.flag("resource_spawner_once"@, false),
{
    match obj.get_bool_property("resource_spawner_once") {
        Some(b) => b,
        None => false,
    }
}

/// Whether a once-only spawner has fired.
pub fn resource_spawner_fired(obj: &Object) -> (r: bool)
    requires
        obj.wf(),
    ensures
        r == obj.flag("resource_spawner_fired"@, false),
{
    match obj.get_bool_property("resource_spawner_fired") {
        Some(b) => b,
        None => false,
    }
}

pub fn set_resource_spawner_spawn_count(spawner: &mut Object, count: u32)
    requires
        old(spawner).wf(),
    ensures
        Object::property_set(*old(spawner), *final(spawner), "resource_spawner_spawn_count"@, Value::Int(count as i64)),
{
    spawner.set_property_int("resource_spawner_spawn_count", count as i64);
}

pub fn set_resource_spawner_fired(spawner: &mut Object, fired: bool)
    requires
        old(spawner).wf(),
    ensures
        Object::property_set(*old(spawner), *final(spawner), "resource_spawner_fired"@, Value::Bool(fired)),
{
    spawner.set_property_bool("resource_spawner_fired", fired);
}

/// Parse weighted entries stored on a resource spawner object.
pub fn resource_spawner_entries(obj: &Object) -> (r: Vec<SpawnerEntryDef>)
    requires
        obj.wf(),
    ensures
        entry_views(r@) == stored_entries(*obj, "resource_spawner_entries"@),
{
    spawner_entries(obj, "resource_spawner_entries")
}

/// The active resource spawners of `objs` that fill `target`, in order.
pub open spec fn spawners_for(objs: Seq<Object>, target: Seq<char>) -> Seq<Object>
    decreases objs.len(),
{
    if objs.len() == 0 {
        Seq::empty()
    } else {
        let prev = spawners_for(objs.drop_last(), target);
        let o = objs.last();
        if !o.is_deleted && o.flag("is_resource_spawner"@, false) && (o.ref_prop("resource_spawner_target"@) matches Some(t)
            && t@ == target) {
            prev.push(o)
        } else {
            prev
        }
    }
}

/// The objects behind a sequence of references.
pub open spec fn deref_all(v: Seq<&Object>) -> Seq<Object> {
    v.map_values(|o: &Object| *o)
}

/// Resource spawners whose `target` resolves to `target_id`.
pub fn resource_spawners_for_target<'a>(target_id: &ObjectId, objects: &'a Vec<Object>) -> (r: Vec<&'a Object>)
    requires
        forall|i: int| 0 <= i < objects@.len() ==> (#[trigger] objects@[i]).wf(),
    ensures
        deref_all(r@) == spawners_for(objects@, target_id@),
{
    let mut out: Vec<&'a Object> = Vec::new();
    let mut i: usize = 0;
    while i < objects.len()
        invariant
            0 <= i <= objects@.len(),
            forall|j: int| 0 <= j < objects@.len() ==> (#[trigger] objects@[j]).wf(),
            deref_all(out@) == spawners_for(objects@.take(i as int), target_id@),
        decreases objects@.len() - i,
    {
        assert(objects@.take(i + 1).drop_last() =~= objects@.take(i as int));
        let o = &objects[i];
        assert(o.wf());
        let hit = !o.is_deleted && is_resource_spawner(o) && match resource_spawner_target_id(o) {
            Some(t) => same_id(&t, target_id),
            None => false,
        };
        if hit {
            out.push(o);
            assert(deref_all(out@) =~= deref_all(out@.drop_last()).push(*o));
        }
        i += 1;
    }
    assert(objects@.take(objects@.len() as int) =~= objects@);
    out
}

/// Resource spawners attached to a room (target is the room itself).
pub fn resource_spawners_in_room<'a>(room_id: &ObjectId, objects: &'a Vec<Object>) -> (r: Vec<&'a Object>)
    requires
        forall|i: int| 0 <= i < objects@.len() ==> (#[trigger] objects@[i]).wf(),
    ensures
        deref_all(r@) == spawners_for(objects@, room_id@),
{
    resource_spawners_for_target(room_id, objects)
}

/// The stored form of a resource template: its base name, prototype and count (at least 1).
pub open spec fn template_value(t: ResourceTemplateDef, v: Value) -> bool {
    v matches Value::Mapping(es) && es@.len() == 3 && es@[0].0@ == "base_name"@ && es@[0].1
        == Value::String(t.base_name) && es@[1].0@ == "prototype"@ && es@[1].1 == Value::String(
        t.prototype,
    ) && es@[2].0@ == "count"@ && es@[2].1 == Value::Int(if t.count < 1 { 1 } else { t.count as i64 })
}

/// Serialize resource templates for lookup at runtime (stored on each resource spawner).
pub fn resource_templates_to_property(templates: &[ResourceTemplateDef]) -> (r: Property)
    ensures
        r.name@ == "resource_templates"@,
        r.permissions.bits == 8,
        r.behavior is None,
        r.value matches Value::List(items) && items@.len() == templates@.len() && forall|i: int|
            0 <= i < items@.len() ==> template_value(templates@[i], #[trigger] items@[i]),
{
    let mut items: Vec<Value> = Vec::new();
    let mut i: usize = 0;
    while i < templates.len()
        invariant
            0 <= i <= templates@.len(),
            items@.len() == i,
            forall|j: int| 0 <= j < i ==> template_value(templates@[j], #[trigger] items@[j]),
        decreases templates@.len() - i,
    {
        let t = &templates[i];
        let count: i64 = if t.count < 1 { 1 } else { t.count as i64 };
        let mut es: Vec<(String, Value)> = Vec::new();
        es.push((owned("base_name"), Value::String(t.base_name.clone())));
        es.push((owned("prototype"), Value::String(t.prototype.clone())));
        es.push((owned("count"), Value::Int(count)));
        items.push(Value::Mapping(es));
        i += 1;
    }
    Property {
        name: owned("resource_templates"),
        value: Value::List(items),
        permissions: PermissionFlags::everyone(),
        behavior: None,
    }
}

/// The template a stored mapping describes when its base name is `name`.
pub open spec fn template_entry(v: Value, name: Seq<char>) -> Option<ResourceTemplateView> {
    match v {
        Value::Mapping(es) => match (map_get(es@, "base_name"@), map_get(es@, "prototype"@)) {
            (Some(Value::String(b)), Some(Value::String(p))) => if b@ == name {
                let c = match map_get(es@, "count"@) {
                    Some(Value::Int(n)) => n as u32,
                    _ => 1,
                };
                Some(ResourceTemplateView { base_name: b@, prototype: p@, count: if c < 1 { 1 } else { c } })
            } else {
                None
            },
            _ => None,
        },
        _ => None,
    }
}

/// The first stored template named `name`.
pub open spec fn first_template(items: Seq<Value>, name: Seq<char>) -> Option<ResourceTemplateView>
    decreases items.len(),
{
    if items.len() == 0 {
        None
    } else {
        match template_entry(items[0], name) {
            Some(t) => Some(t),
            None => first_template(items.drop_first(), name),
        }
    }
}

/// The template named `name` stored on a resource spawner.
pub open spec fn stored_template(spawner: Object, name: Seq<char>) -> Option<ResourceTemplateView> {
    match spawner.value_of("resource_templates"@) {
        Some(Value::List(items)) => first_template(items@, name),
        _ => None,
    }
}

fn template_from(v: &Value, name: &str) -> (r: Option<ResourceTemplateDef>)
    ensures
        match r {
            Some(t) => template_entry(*v, name@) == Some(t@),
            None => template_entry(*v, name@) is None,
        },
{
    if let Value::Mapping(es) = v {
        if let (Some(Value::String(b)), Some(Value::String(p))) = (mapping_get(es, "base_name"), mapping_get(es, "prototype")) {
            if str_eq(b.as_str(), name) {
                let c = match mapping_get(es, "count") {
                    Some(Value::Int(n)) => *n as u32,
                    _ => 1,
                };
                return Some(ResourceTemplateDef { base_name: b.clone(), prototype: p.clone(), count: if c < 1 { 1 } else { c } });
            }
        }
    }
    None
}

/// Look up the resource template `template_name` stored on `spawner`.
pub fn resolve_resource_template(template_name: &str, spawner: &Object) -> (r: Option<ResourceTemplateDef>)
    requires
        spawner.wf(),
    ensures
        match r {
            Some(t) => stored_template(*spawner, template_name@) == Some(t@),
            None => stored_template(*spawner, template_name@) is None,
        },
{
    if let Some(p) = spawner.get_property("resource_templates") {
        if let Value::List(items) = &p.value {
            let mut i: usize = 0;
            assert(items@.skip(0) =~= items@);
            while i < items.len()
                invariant
                    0 <= i <= items@.len(),
                    stored_template(*spawner, template_name@) == first_template(items@, template_name@),
                    first_template(items@, template_name@) == first_template(items@.skip(i as int), template_name@),
                decreases items@.len() - i,
            {
                assert(items@.skip(i as int).drop_first() =~= items@.skip(i + 1));
                assert(items@.skip(i as int)[0] == items@[i as int]);
                if let Some(t) = template_from(&items[i], template_name) {
                    return Some(t);
                }
                i += 1;
            }
        }
    }
    None
}

/// A template's base name as a label: `-` read as a space, in lower case.
pub open spec fn resource_label(base: Seq<char>) -> Seq<char> {
    lower_case_of(replaced(base, '-', ' '))
}

/// What the player is told about a new resource.
pub fn spawn_message(template: &ResourceTemplateDef) -> (r: String)
    ensures
        r@ == "You notice "@ + resource_label(template.base_name@) + " here."@,
{
    let spaced = replace_char(template.base_name.as_str(), '-', ' ');
    let label = str_to_lowercase(spaced.as_str());
    let mut s = owned("You notice ");
    push_str(&mut s, label.as_str());
    push_str(&mut s, " here.");
    s
}

/// The tick a trigger runs at: the scheduler's for a timer (1 when none), else 1.
pub fn tick_for_trigger(trigger: ResourceSpawnerTrigger, scheduler_tick: Option<u64>) -> (r: u64)
    ensures
        r == if trigger == ResourceSpawnerTrigger::Timer {
            match scheduler_tick {
                Some(t) => t,
                None => 1,
            }
        } else {
            1
        },
{
    match trigger {
        ResourceSpawnerTrigger::Timer => match scheduler_tick {
            Some(t) => t,
            None => 1,
        },
        _ => 1,
    }
}

/// The room resources of a spawner with target `target_id` appear in: the
/// target itself when it is a place, else the target's location; none when
/// the target is not in the world.
pub open spec fn room_of_target(target_id: Seq<char>, objs: Seq<Object>) -> Option<Seq<char>> {
    match find_obj(objs, target_id) {
        None => None,
        Some(t) => if is_place_type(before_char(t.id@, ':')) {
            Some(target_id)
        } else {
            opt_id(t.location)
        },
    }
}

/// `o` is an active item that `spawner_id` spawned, lying in the room of `target_id`.
pub open spec fn active_resource_of(o: Object, spawner_id: Seq<char>, target_id: Seq<char>, objs: Seq<Object>) -> bool {
    &&& !o.is_deleted
    &&& before_char(o.id@, ':') == "item"@
    &&& opt_id(o.ref_prop("resource_spawned_by"@)) == Some(spawner_id)
    &&& room_of_target(target_id, objs) matches Some(room) && opt_id(o.location) == Some(room)
}

/// How many of `scan` are active resources of `spawner_id` at `target_id` in `objs`.
pub open spec fn resource_count(scan: Seq<Object>, spawner_id: Seq<char>, target_id: Seq<char>, objs: Seq<Object>) -> nat
    decreases scan.len(),
{
    if scan.len() == 0 {
        0
    } else {
        resource_count(scan.drop_last(), spawner_id, target_id, objs) + if active_resource_of(
            scan.last(),
            spawner_id,
            target_id,
            objs,
        ) {
            1nat
        } else {
            0nat
        }
    }
}

fn room_for_target(target_id: &ObjectId, objects: &Vec<Object>) -> (r: Option<ObjectId>)
    ensures
        opt_id(r) == room_of_target(target_id@, objects@),
{
    match find_object(objects, target_id) {
        None => None,
        Some(t) => if t.is_location() {
            Some(target_id.clone())
        } else {
            match &t.location {
                Some(l) => Some(l.clone()),
                None => None,
            }
        },
    }
}

/// Active resource items spawned by `spawner_id` in the room of `target_id`.
pub fn count_active_resources(spawner_id: &ObjectId, target_id: &ObjectId, objects: &Vec<Object>) -> (r: usize)
    requires
        forall|i: int| 0 <= i < objects@.len() ==> (#[trigger] objects@[i]).wf(),
    ensures
        r == resource_count(objects@, spawner_id@, target_id@, objects@),
{
    let room = room_for_target(target_id, objects);
    let mut n: usize = 0;
    let mut i: usize = 0;
    while i < objects.len()
        invariant
            0 <= i <= objects@.len(),
            n <= i,
            n == resource_count(objects@.take(i as int), spawner_id@, target_id@, objects@),
            forall|k: int| 0 <= k < objects@.len() ==> (#[trigger] objects@[k]).wf(),
            opt_id(room) == room_of_target(target_id@, objects@),
        decreases objects@.len() - i,
    {
        let o = &objects[i];
        let spawned = match o.get_object_ref_property("resource_spawned_by") {
            Some(s) => str_eq(s.as_str(), spawner_id.as_str()),
            None => false,
        };
        let in_room = match (&room, &o.location) {
            (Some(rm), Some(l)) => str_eq(l.as_str(), rm.as_str()),
            _ => false,
        };
        let hit = o.is_active() && str_eq(o.object_type(), "item") && spawned && in_room;
        assert(objects@.take(i + 1).drop_last() =~= objects@.take(i as int));
        assert(objects@.take(i + 1).last() == objects@[i as int]);
        if hit {
            n = n + 1;
        }
        i += 1;
    }
    assert(objects@.take(objects@.len() as int) =~= objects@);
    n
}

/// The settings a resource spawner definition writes onto its spawner object.
pub open spec fn resource_setting_names() -> Set<Seq<char>> {
    set![
        "is_resource_spawner"@,
        "resource_spawner_base"@,
        "resource_spawner_trigger"@,
        "resource_spawner_periodic_interval"@,
        "resource_spawner_chance"@,
        "resource_spawner_max_active"@,
        "resource_spawner_once"@,
        "resource_spawner_fired"@,
        "resource_spawner_spawn_count"@,
    ]
}

/// `after` holds the runtime settings of resource spawner `def`, with `chance`
/// stored for its chance: not yet fired, nothing triggered or spawned.
pub open spec fn resource_settings_written(after: Object, def: ResourceSpawnerDef, chance: Value) -> bool {
    &&& after.value_of("is_resource_spawner"@) == Some(Value::Bool(true))
    &&& after.string_prop("resource_spawner_base"@) matches Some(s) && s@ == def.base_name@
    &&& after.string_prop("resource_spawner_trigger"@) matches Some(s) && s@ == def.trigger.name()
    &&& after.value_of("resource_spawner_periodic_interval"@) == Some(Value::Int(def.periodic_interval as i64))
    &&& after.value_of("resource_spawner_chance"@) == Some(chance)
    &&& after.value_of("resource_spawner_max_active"@) == Some(Value::Int(def.max_active as i64))
    &&& after.value_of("resource_spawner_once"@) == Some(Value::Bool(def.once))
    &&& after.value_of("resource_spawner_fired"@) == Some(Value::Bool(false))
    &&& after.value_of("resource_spawner_spawn_count"@) == Some(Value::Int(0))
}

/// Some template of `templates` is named `name`.
pub open spec fn names_resource_template(templates: Seq<ResourceTemplateDef>, name: Seq<char>) -> bool {
    exists|i: int| 0 <= i < templates.len() && (#[trigger] templates[i]).base_name@ == name
}

/// The first entry template that no template of `templates` is named, if any.
pub open spec fn first_unknown_resource(entries: Seq<SpawnerEntryDef>, templates: Seq<ResourceTemplateDef>) -> Option<Seq<char>>
    decreases entries.len(),
{
    if entries.len() == 0 {
        None
    } else if !names_resource_template(templates, entries[0].template@) {
        Some(entries[0].template@)
    } else {
        first_unknown_resource(entries.drop_first(), templates)
    }
}

fn knows_resource_template(templates: &Vec<ResourceTemplateDef>, name: &str) -> (r: bool)
    ensures
        r == names_resource_template(templates@, name@),
{
    let mut i: usize = 0;
    while i < templates.len()
        invariant
            0 <= i <= templates@.len(),
            forall|j: int| 0 <= j < i ==> (#[trigger] templates@[j]).base_name@ != name@,
        decreases templates@.len() - i,
    {
        if str_eq(templates[i].base_name.as_str(), name) {
            return true;
        }
        i += 1;
    }
    false
}

fn write_resource_settings<N: Fn(u64) -> Value>(spawner: &mut Object, def: &ResourceSpawnerDef, chance_bits: u64, numeric: &N)
    requires
        old(spawner).wf(),
        stores_numbers(*numeric),
    ensures
        changes_only(*old(spawner), *final(spawner), resource_setting_names()),
        resource_settings_written(*final(spawner), *def, numeric_reading(*numeric)(chance_bits)),
{
    proof {
        reveal_strlit("is_resource_spawner");
        reveal_strlit("resource_spawner_base");
        reveal_strlit("resource_spawner_trigger");
        reveal_strlit("resource_spawner_periodic_interval");
        reveal_strlit("resource_spawner_chance");
        reveal_strlit("resource_spawner_max_active");
        reveal_strlit("resource_spawner_once");
        reveal_strlit("resource_spawner_fired");
        reveal_strlit("resource_spawner_spawn_count");
        assert("is_resource_spawner"@.len() == 19 && "resource_spawner_base"@.len() == 21
            && "resource_spawner_trigger"@.len() == 24 && "resource_spawner_periodic_interval"@.len() == 34
            && "resource_spawner_chance"@.len() == 23 && "resource_spawner_max_active"@.len() == 27
            && "resource_spawner_once"@.len() == 21 && "resource_spawner_fired"@.len() == 22
            && "resource_spawner_spawn_count"@.len() == 28);
        assert("resource_spawner_base"@[17] != "resource_spawner_once"@[17]);
    }
    let ghost s0 = *spawner;
    spawner.set_property_bool("is_resource_spawner", true);
    let ghost s1 = *spawner;
    spawner.set_property_string("resource_spawner_base", def.base_name.as_str());
    let ghost s2 = *spawner;
    spawner.set_property_string("resource_spawner_trigger", def.trigger.as_str());
    let ghost s3 = *spawner;
    spawner.set_property_int("resource_spawner_periodic_interval", def.periodic_interval as i64);
    let ghost s4 = *spawner;
    spawner.set_property_numeric_with("resource_spawner_chance", chance_bits, numeric);
    let ghost s5 = *spawner;
    spawner.set_property_int("resource_spawner_max_active", def.max_active as i64);
    let ghost s6 = *spawner;
    spawner.set_property_bool("resource_spawner_once", def.once);
    let ghost s7 = *spawner;
    spawner.set_property_bool("resource_spawner_fired", false);
    let ghost s8 = *spawner;
    spawner.set_property_int("resource_spawner_spawn_count", 0);
    assert(changes_only(s0, *spawner, resource_setting_names())) by {
        assert forall|k: Seq<char>| !resource_setting_names().contains(k) implies #[trigger] spawner.prop_opt(k)
            == s0.prop_opt(k) && spawner.value_of(k) == s0.value_of(k) by {
            assert(s1.prop_opt(k) == s0.prop_opt(k) && s1.value_of(k) == s0.value_of(k));
            assert(s2.prop_opt(k) == s1.prop_opt(k) && s2.value_of(k) == s1.value_of(k));
            assert(s3.prop_opt(k) == s2.prop_opt(k) && s3.value_of(k) == s2.value_of(k));
            assert(s4.prop_opt(k) == s3.prop_opt(k) && s4.value_of(k) == s3.value_of(k));
            assert(s5.prop_opt(k) == s4.prop_opt(k) && s5.value_of(k) == s4.value_of(k));
            assert(s6.prop_opt(k) == s5.prop_opt(k) && s6.value_of(k) == s5.value_of(k));
            assert(s7.prop_opt(k) == s6.prop_opt(k) && s7.value_of(k) == s6.value_of(k));
            assert(s8.prop_opt(k) == s7.prop_opt(k) && s8.value_of(k) == s7.value_of(k));
        }
    }
    let ghost f = *spawner;
    assert(f.value_of("is_resource_spawner"@) == s1.value_of("is_resource_spawner"@));
    assert(f.value_of("resource_spawner_base"@) == s2.value_of("resource_spawner_base"@));
    assert(f.value_of("resource_spawner_trigger"@) == s3.value_of("resource_spawner_trigger"@));
    assert(f.value_of("resource_spawner_periodic_interval"@) == s4.value_of("resource_spawner_periodic_interval"@));
    assert(f.value_of("resource_spawner_chance"@) == s5.value_of("resource_spawner_chance"@));
    assert(f.value_of("resource_spawner_max_active"@) == s6.value_of("resource_spawner_max_active"@));
    assert(f.value_of("resource_spawner_once"@) == s7.value_of("resource_spawner_once"@));
    assert(f.value_of("resource_spawner_fired"@) == s8.value_of("resource_spawner_fired"@));
}

/// Build resource spawner runtime properties from a MUDL definition. The
/// definition's chance is stored as `numeric` stores the number with bits
/// `chance_bits`. Every entry must name one of `templates`; the first that
/// does not is reported, after the settings were written and before the
/// entries are.
pub fn apply_resource_spawner_def<N: Fn(u64) -> Value>(
    spawner: &mut Object,
    def: &ResourceSpawnerDef,
    templates: &Vec<ResourceTemplateDef>,
    chance_bits: u64,
    numeric: &N,
) -> (r: Result<(), String>)
    requires
        old(spawner).wf(),
        stores_numbers(*numeric),
    ensures
        resource_settings_written(*final(spawner), *def, numeric_reading(*numeric)(chance_bits)),
        match first_unknown_resource(def.entries@, templates@) {
            Some(t) => {
                &&& r matches Err(m) && m@ == "Resource spawner '"@ + def.base_name@
                    + "' references unknown resource-template '"@ + t + "'"@
                &&& changes_only(*old(spawner), *final(spawner), resource_setting_names())
            },
            None => {
                &&& r is Ok
                &&& changes_only(
                    *old(spawner),
                    *final(spawner),
                    resource_setting_names().insert("resource_spawner_entries"@),
                )
                &&& stored_entries(*final(spawner), "resource_spawner_entries"@) == entry_views(def.entries@).map_values(
                    |e: SpawnerEntryView| stored_weight(e),
                )
                &&& final(spawner).props()["resource_spawner_entries"@].permissions.bits == 8
            },
        },
{
    write_resource_settings(spawner, def, chance_bits, numeric);
    let mut items: Vec<Value> = Vec::new();
    let mut i: usize = 0;
    assert(def.entries@.skip(0) =~= def.entries@);
    while i < def.entries.len()
        invariant
            0 <= i <= def.entries@.len(),
            spawner.wf(),
            changes_only(*old(spawner), *spawner, resource_setting_names()),
            resource_settings_written(*spawner, *def, numeric_reading(*numeric)(chance_bits)),
            first_unknown_resource(def.entries@, templates@) == first_unknown_resource(def.entries@.skip(i as int), templates@),
            items@.len() == i,
            entries_of(items@) == entry_views(def.entries@.take(i as int)).map_values(
                |e: SpawnerEntryView| stored_weight(e),
            ),
        decreases def.entries@.len() - i,
    {
        let e = &def.entries[i];
        assert(def.entries@.skip(i as int)[0] == def.entries@[i as int]);
        assert(def.entries@.skip(i as int).drop_first() =~= def.entries@.skip(i + 1));
        if !knows_resource_template(templates, e.template.as_str()) {
            let mut m = owned("Resource spawner '");
            push_str(&mut m, def.base_name.as_str());
            push_str(&mut m, "' references unknown resource-template '");
            push_str(&mut m, e.template.as_str());
            push_str(&mut m, "'");
            return Err(m);
        }
        let weight: i64 = if e.weight < 1 { 1 } else { e.weight as i64 };
        let mut es: Vec<(String, Value)> = Vec::new();
        es.push((owned("template"), Value::String(e.template.clone())));
        es.push((owned("weight"), Value::Int(weight)));
        let ghost before = items@;
        items.push(Value::Mapping(es));
        proof {
            reveal_strlit("template");
            reveal_strlit("weight");
            assert("template"@.len() == 8 && "weight"@.len() == 6);
            assert(es@[0].0@ == "template"@);
            assert(map_get(es@, "template"@) == Some(es@[0].1));
            assert(es@.drop_first()[0] == es@[1]);
            assert(es@[1].0@ == "weight"@);
            assert("template"@ != "weight"@);
            assert(map_get(es@.drop_first(), "weight"@) == Some(Value::Int(weight)));
            assert(map_get(es@, "weight"@) == Some(Value::Int(weight)));
            assert(weight as u32 == stored_weight(def.entries@[i as int]@).weight);
            assert(entry_of(Value::Mapping(es)) == Some(stored_weight(def.entries@[i as int]@)));
            assert(items@.drop_last() =~= before);
            assert(def.entries@.take(i + 1).drop_last() =~= def.entries@.take(i as int));
            assert(entry_views(def.entries@.take(i + 1)) =~= entry_views(def.entries@.take(i as int)).push(
                def.entries@[i as int]@,
            ));
        }
        i += 1;
    }
    assert(def.entries@.take(i as int) =~= def.entries@);
    assert(def.entries@.skip(i as int).len() == 0);
    assert(first_unknown_resource(def.entries@, templates@) is None);
    let ghost s = *spawner;
    proof {
        reveal_strlit("resource_spawner_entries");
        reveal_strlit("is_resource_spawner");
        reveal_strlit("resource_spawner_base");
        reveal_strlit("resource_spawner_trigger");
        reveal_strlit("resource_spawner_periodic_interval");
        reveal_strlit("resource_spawner_chance");
        reveal_strlit("resource_spawner_max_active");
        reveal_strlit("resource_spawner_once");
        reveal_strlit("resource_spawner_fired");
        reveal_strlit("resource_spawner_spawn_count");
        assert("is_resource_spawner"@.len() == 19 && "resource_spawner_base"@.len() == 21
            && "resource_spawner_trigger"@.len() == 24 && "resource_spawner_periodic_interval"@.len() == 34
            && "resource_spawner_chance"@.len() == 23 && "resource_spawner_max_active"@.len() == 27
            && "resource_spawner_once"@.len() == 21 && "resource_spawner_fired"@.len() == 22
            && "resource_spawner_spawn_count"@.len() == 28);
        assert("resource_spawner_base"@[17] != "resource_spawner_once"@[17]);
        assert("resource_spawner_entries"@.len() == 24);
        assert("resource_spawner_entries"@[17] != "resource_spawner_trigger"@[17]);
    }
    spawner.add_property(
        Property {
            name: owned("resource_spawner_entries"),
            value: Value::List(items),
            permissions: PermissionFlags::everyone(),
            behavior: None,
        },
    );
    assert forall|k: Seq<char>| !resource_setting_names().insert("resource_spawner_entries"@).contains(k) implies #[trigger] spawner.prop_opt(k)
        == old(spawner).prop_opt(k) by {
        assert(s.prop_opt(k) == old(spawner).prop_opt(k));
    }
    assert forall|k: Seq<char>| !resource_setting_names().insert("resource_spawner_entries"@).contains(k) implies #[trigger] spawner.value_of(k)
        == old(spawner).value_of(k) by {
        assert(s.value_of(k) == old(spawner).value_of(k));
    }
    Ok(())
}

} // verus!
