//! Attaching roles to objects: each role writes a fixed set of properties.

use vstd::prelude::*;

use super::roles::{BreakableSpec, ContainerSpec, DoorSpec, KeySpec, PortalKind, PortalSpec, ReadableSpec, StackableSpec};
use super::{changes_only, kept, Object, Value};
use super::weight::DEFAULT_PLAYER_MAX_WEIGHT;
use crate::mudl::anatomy::PlayerTemplate;
use crate::text::{join, join_all, views};

verus! {

/// Bit pattern of the `f64` value `0.1`, the default weight and volume of a key.
pub const TENTH_BITS: u64 = 0x3FB9_9999_9999_999A;

/// Boolean property `name` of `after` is `b`.
pub open spec fn has_bool(after: Object, name: Seq<char>, b: bool) -> bool {
    after.bool_prop(name) == Some(b)
}

/// String property `name` of `after` reads `text`.
pub open spec fn has_text(after: Object, name: Seq<char>, text: Seq<char>) -> bool {
    after.string_prop(name) matches Some(s) && s@ == text
}

/// What an optional lock does to the lock properties.
pub open spec fn lock_applied(
    before: Object,
    after: Object,
    lock_id: Option<String>,
    locked: bool,
    consumable: bool,
) -> bool {
    match lock_id {
        Some(l) => {
            &&& has_text(after, "lock_id"@, l@)
            &&& has_bool(after, "is_locked"@, locked)
            &&& if consumable {
                has_bool(after, "lock_consumable"@, true)
            } else {
                kept(before, after, "lock_consumable"@)
            }
        },
        None => {
            &&& kept(before, after, "lock_id"@)
            &&& kept(before, after, "is_locked"@)
            &&& kept(before, after, "lock_consumable"@)
        },
    }
}

/// Weight and volume an exit portal of `kind` gets when it has none.
pub open spec fn portal_phys(kind: PortalKind) -> (i64, i64) {
    match kind {
        PortalKind::Window => (2, 1),
        PortalKind::Door => (5, 4),
        PortalKind::Teleport => (1, 1),
    }
}

/// Property `name` of `after` is kept from `before` when it held a number there,
/// and is `fallback` otherwise.
pub open spec fn numeric_default(before: Object, after: Object, name: Seq<char>, fallback: Value) -> bool {
    if before.numeric_prop(name) {
        after.prop_opt(name) == before.prop_opt(name)
    } else {
        after.value_of(name) == Some(fallback)
    }
}

/// The property names that roles write, with enough of their spelling to tell
/// any two of them apart.
pub proof fn lemma_role_property_names()
    ensures
        "is_key"@.len() == 6 && "is_key"@[0] == 'i',
        "lock_id"@.len() == 7 && "lock_id"@[3] == 'k',
        "key_consumable"@.len() == 14 && "key_consumable"@[0] == 'k',
        "is_pocketable"@.len() == 13 && "is_pocketable"@[0] == 'i',
        "weight"@.len() == 6 && "weight"@[0] == 'w',
        "volume"@.len() == 6 && "volume"@[0] == 'v',
        "is_breakable"@.len() == 12 && "is_breakable"@[3] == 'b',
        "break_text"@.len() == 10 && "break_text"@[4] == 'k',
        "is_portal"@.len() == 9 && "is_portal"@[1] == 's' && "is_portal"@[3] == 'p',
        "portal_kind"@.len() == 11 && "portal_kind"@[6] == '_',
        "is_door"@.len() == 7 && "is_door"@[3] == 'd',
        "is_window"@.len() == 9 && "is_window"@[1] == 's' && "is_window"@[3] == 'w',
        "door_direction"@.len() == 14 && "door_direction"@[0] == 'd',
        "door_destination_base"@.len() == 21,
        "is_open"@.len() == 7 && "is_open"@[3] == 'o',
        "portal_passable"@.len() == 15 && "portal_passable"@[0] == 'p',
        "portal_transparent"@.len() == 18,
        "is_locked"@.len() == 9 && "is_locked"@[1] == 's' && "is_locked"@[3] == 'l',
        "lock_consumable"@.len() == 15 && "lock_consumable"@[0] == 'l',
        "is_container"@.len() == 12 && "is_container"@[3] == 'c',
        "capacity"@.len() == 8 && "capacity"@[1] == 'a',
        "contents"@.len() == 8 && "contents"@[1] == 'o',
        "max_weight"@.len() == 10 && "max_weight"@[4] == 'w',
        "max_volume"@.len() == 10 && "max_volume"@[4] == 'v',
        "is_wearable"@.len() == 11 && "is_wearable"@[6] == 'r',
        "wear_slot"@.len() == 9 && "wear_slot"@[1] == 'e' && "wear_slot"@[3] == 'r',
        "allowed_types"@.len() == 13 && "allowed_types"@[0] == 'a',
        "mod_max_health"@.len() == 14 && "mod_max_health"@[0] == 'm',
        "mod_stats"@.len() == 9 && "mod_stats"@[1] == 'o' && "mod_stats"@[3] == '_',
        "mod_skills"@.len() == 10 && "mod_skills"@[4] == 's',
        "grant_effects"@.len() == 13 && "grant_effects"@[0] == 'g',
        "stackable"@.len() == 9 && "stackable"@[1] == 't' && "stackable"@[3] == 'c',
        "stack_count"@.len() == 11 && "stack_count"@[6] == 'c',
        "max_stack"@.len() == 9 && "max_stack"@[1] == 'a' && "max_stack"@[3] == '_',
        "creature"@.len() == 8 && "creature"@[1] == 'r',
        "gender"@.len() == 6 && "gender"@[0] == 'g',
        "body_slots"@.len() == 10 && "body_slots"@[4] == '_',
        "is_readable"@.len() == 11 && "is_readable"@[6] == 'd',
        "read_text"@.len() == 9 && "read_text"@[1] == 'e' && "read_text"@[3] == 'd',
        "is_writable"@.len() == 11 && "is_writable"@[6] == 't',
        "write_text"@.len() == 10 && "write_text"@[4] == 'e',
{
    reveal_strlit("is_key");
    reveal_strlit("lock_id");
    reveal_strlit("key_consumable");
    reveal_strlit("is_pocketable");
    reveal_strlit("weight");
    reveal_strlit("volume");
    reveal_strlit("is_breakable");
    reveal_strlit("break_text");
    reveal_strlit("is_portal");
    reveal_strlit("portal_kind");
    reveal_strlit("is_door");
    reveal_strlit("is_window");
    reveal_strlit("door_direction");
    reveal_strlit("door_destination_base");
    reveal_strlit("is_open");
    reveal_strlit("portal_passable");
    reveal_strlit("portal_transparent");
    reveal_strlit("is_locked");
    reveal_strlit("lock_consumable");
    reveal_strlit("is_container");
    reveal_strlit("capacity");
    reveal_strlit("contents");
    reveal_strlit("max_weight");
    reveal_strlit("max_volume");
    reveal_strlit("is_wearable");
    reveal_strlit("wear_slot");
    reveal_strlit("allowed_types");
    reveal_strlit("mod_max_health");
    reveal_strlit("mod_stats");
    reveal_strlit("mod_skills");
    reveal_strlit("grant_effects");
    reveal_strlit("stackable");
    reveal_strlit("stack_count");
    reveal_strlit("max_stack");
    reveal_strlit("creature");
    reveal_strlit("gender");
    reveal_strlit("body_slots");
    reveal_strlit("is_readable");
    reveal_strlit("read_text");
    reveal_strlit("is_writable");
    reveal_strlit("write_text");
}

/// What making an object an exit portal writes.
pub open spec fn portal_applied(before: Object, after: Object, spec: PortalSpec) -> bool {
    let passable = match spec.passable {
        Some(b) => b,
        None => spec.kind.passable_by_default(),
    };
    let transparent = match spec.transparent {
        Some(b) => b,
        None => spec.kind == PortalKind::Window,
    };
    &&& has_bool(after, "is_portal"@, true)
    &&& has_text(after, "portal_kind"@, spec.kind.name())
    &&& spec.kind == PortalKind::Door ==> has_bool(after, "is_door"@, true)
    &&& spec.kind != PortalKind::Door ==> kept(before, after, "is_door"@)
    &&& spec.kind == PortalKind::Window ==> has_bool(after, "is_window"@, true)
    &&& spec.kind != PortalKind::Window ==> kept(before, after, "is_window"@)
    &&& has_text(after, "door_direction"@, spec.direction@)
    &&& has_text(after, "door_destination_base"@, spec.destination@)
    &&& has_bool(after, "is_open"@, spec.open)
    &&& has_bool(after, "portal_passable"@, passable)
    &&& has_bool(after, "portal_transparent"@, transparent)
    &&& has_bool(after, "is_pocketable"@, false)
    &&& lock_applied(before, after, spec.lock_id, spec.locked, spec.lock_consumable)
    &&& numeric_default(before, after, "weight"@, Value::Int(portal_phys(spec.kind).0))
    &&& numeric_default(before, after, "volume"@, Value::Int(portal_phys(spec.kind).1))
}

/// The portal a door stands for: never passable or transparent by override.
pub open spec fn door_portal(d: DoorSpec) -> PortalSpec {
    PortalSpec {
        kind: PortalKind::Door,
        direction: d.direction,
        destination: d.destination,
        open: d.open,
        lock_id: d.lock_id,
        locked: d.locked,
        lock_consumable: d.lock_consumable,
        passable: None,
        transparent: None,
    }
}

/// What making an object a container writes.
pub open spec fn container_applied(before: Object, after: Object, spec: ContainerSpec) -> bool {
    &&& has_bool(after, "is_container"@, true)
    &&& after.int_prop("capacity"@) == Some(spec.capacity as i64)
    &&& (after.value_of("contents"@) matches Some(Value::List(vs)) && vs@.len() == 0)
    &&& match spec.max_weight {
        Some(w) => after.int_prop("max_weight"@) == Some(w),
        None => kept(before, after, "max_weight"@),
    }
    &&& match spec.max_volume {
        Some(v) => after.int_prop("max_volume"@) == Some(v),
        None => kept(before, after, "max_volume"@),
    }
    &&& has_bool(after, "is_wearable"@, spec.wearable)
    &&& if spec.wearable {
        has_text(
            after,
            "wear_slot"@,
            match spec.wear_slot {
                Some(slot) => slot@,
                None => "torso"@,
            },
        )
    } else {
        kept(before, after, "wear_slot"@)
    }
    &&& has_bool(after, "is_pocketable"@, false)
    &&& has_bool(after, "is_open"@, spec.open)
    &&& lock_applied(before, after, spec.lock_id, spec.locked, spec.lock_consumable)
    &&& match spec.allowed_types {
        Some(ts) => if ts@.len() > 0 {
            has_text(after, "allowed_types"@, join(views(ts@), ","@))
        } else {
            kept(before, after, "allowed_types"@)
        },
        None => kept(before, after, "allowed_types"@),
    }
    &&& numeric_default(before, after, "weight"@, Value::Int(1))
    &&& numeric_default(before, after, "volume"@, Value::Int(1))
}

/// The properties a container role may write.
pub open spec fn container_names() -> Set<Seq<char>> {
    set![
        "is_container"@,
        "capacity"@,
        "contents"@,
        "max_weight"@,
        "max_volume"@,
        "is_wearable"@,
        "wear_slot"@,
        "is_pocketable"@,
        "is_open"@,
        "lock_id"@,
        "is_locked"@,
        "lock_consumable"@,
        "allowed_types"@,
        "weight"@,
        "volume"@,
    ]
}

/// A plain container of `capacity` slots, worn on the torso when `wearable`.
pub open spec fn default_container(capacity: u32, wearable: bool) -> ContainerSpec {
    ContainerSpec {
        capacity,
        max_weight: None,
        max_volume: None,
        wearable,
        wear_slot: None,
        open: true,
        lock_id: None,
        locked: false,
        lock_consumable: false,
        allowed_types: None,
    }
}

/// Generic item fields filled in only where nothing set them before.
pub open spec fn item_defaults_applied(before: Object, after: Object, pocketable: bool) -> bool {
    &&& numeric_default(before, after, "weight"@, Value::Int(1))
    &&& numeric_default(before, after, "volume"@, Value::Int(1))
    &&& if before.bool_prop("is_pocketable"@) is None {
        has_bool(after, "is_pocketable"@, pocketable)
    } else {
        kept(before, after, "is_pocketable"@)
    }
    &&& if before.props().contains_key("is_container"@) {
        kept(before, after, "is_container"@)
    } else {
        has_bool(after, "is_container"@, false)
    }
    &&& if before.props().contains_key("is_wearable"@) {
        kept(before, after, "is_wearable"@)
    } else {
        has_bool(after, "is_wearable"@, false)
    }
}

impl Object {
    /// Stores `value` under `name` unless the property already holds a number.
    fn default_numeric(&mut self, name: &str, value: Value)
        requires
            old(self).wf(),
        ensures
            changes_only(*old(self), *final(self), set![name@]),
            forall|k: Seq<char>| k != name@ ==> #[trigger] final(self).value_of(k) == old(self).value_of(k),
            numeric_default(*old(self), *final(self), name@, value),
    {
        if !self.has_numeric_property(name) {
            self.set_property_value(name, value);
        }
    }

    /// Makes this object a pocketable key for `spec.lock_id`.
    pub fn apply_key_role(&mut self, spec: &KeySpec)
        requires
            old(self).wf(),
        ensures
            changes_only(
                *old(self),
                *final(self),
                set!["is_key"@, "lock_id"@, "key_consumable"@, "is_pocketable"@, "weight"@, "volume"@],
            ),
            final(self).bool_prop("is_key"@) == Some(true),
            final(self).string_prop("lock_id"@) matches Some(s) && s@ == spec.lock_id@,
            spec.consumable ==> final(self).bool_prop("key_consumable"@) == Some(true),
            !spec.consumable ==> final(self).prop_opt("key_consumable"@) == old(self).prop_opt("key_consumable"@),
            final(self).bool_prop("is_pocketable"@) == Some(true),
            numeric_default(*old(self), *final(self), "weight"@, Value::Float(TENTH_BITS)),
            numeric_default(*old(self), *final(self), "volume"@, Value::Float(TENTH_BITS)),
    {
        proof {
            lemma_role_property_names();
        }
        self.set_property_bool("is_key", true);
        self.set_property_string("lock_id", spec.lock_id.as_str());
        if spec.consumable {
            self.set_property_bool("key_consumable", true);
        }
        self.set_property_bool("is_pocketable", true);
        self.default_numeric("weight", Value::Float(TENTH_BITS));
        self.default_numeric("volume", Value::Float(TENTH_BITS));
    }

    /// Attaches a lock: its id, whether it starts locked, and whether it is spent on use.
    fn apply_lock(&mut self, lock_id: &Option<String>, locked: bool, consumable: bool)
        requires
            old(self).wf(),
        ensures
            changes_only(*old(self), *final(self), set!["lock_id"@, "is_locked"@, "lock_consumable"@]),
            lock_applied(*old(self), *final(self), *lock_id, locked, consumable),
    {
        proof {
            lemma_role_property_names();
        }
        if let Some(l) = lock_id {
            self.set_container_lock_id(l.as_str());
            self.set_container_locked(locked);
            if consumable {
                self.set_property_bool("lock_consumable", true);
            }
        }
    }

    /// Marks this object breakable, with an optional narrative for breaking it.
    pub fn apply_breakable_role(&mut self, spec: &BreakableSpec)
        requires
            old(self).wf(),
        ensures
            changes_only(*old(self), *final(self), set!["is_breakable"@, "break_text"@]),
            has_bool(*final(self), "is_breakable"@, true),
            match spec.break_text {
                Some(t) => has_text(*final(self), "break_text"@, t@),
                None => kept(*old(self), *final(self), "break_text"@),
            },
    {
        proof {
            lemma_role_property_names();
        }
        self.set_property_bool("is_breakable", true);
        if let Some(text) = &spec.break_text {
            self.set_property_string("break_text", text.as_str());
        }
    }

    /// Makes this object an exit portal (door, window or teleport).
    pub fn apply_portal_role(&mut self, spec: &PortalSpec)
        requires
            old(self).wf(),
        ensures
            changes_only(
                *old(self),
                *final(self),
                set![
                    "is_portal"@,
                    "portal_kind"@,
                    "is_door"@,
                    "is_window"@,
                    "door_direction"@,
                    "door_destination_base"@,
                    "is_open"@,
                    "portal_passable"@,
                    "portal_transparent"@,
                    "is_pocketable"@,
                    "lock_id"@,
                    "is_locked"@,
                    "lock_consumable"@,
                    "weight"@,
                    "volume"@,
                ],
            ),
            portal_applied(*old(self), *final(self), *spec),
    {
        proof {
            lemma_role_property_names();
        }
        self.set_property_bool("is_portal", true);
        self.set_property_string("portal_kind", spec.kind.as_str());
        match spec.kind {
            PortalKind::Door => self.set_property_bool("is_door", true),
            PortalKind::Window => self.set_property_bool("is_window", true),
            PortalKind::Teleport => {},
        }
        self.set_property_string("door_direction", spec.direction.as_str());
        self.set_property_string("door_destination_base", spec.destination.as_str());
        self.set_property_bool("is_open", spec.open);
        let passable = match spec.passable {
            Some(b) => b,
            None => spec.kind.default_passable(),
        };
        self.set_property_bool("portal_passable", passable);
        let transparent = match spec.transparent {
            Some(b) => b,
            None => spec.kind.default_transparent(),
        };
        self.set_property_bool("portal_transparent", transparent);
        self.set_property_bool("is_pocketable", false);
        self.apply_lock(&spec.lock_id, spec.locked, spec.lock_consumable);
        let (weight, volume): (i64, i64) = match spec.kind {
            PortalKind::Window => (2, 1),
            PortalKind::Door => (5, 4),
            PortalKind::Teleport => (1, 1),
        };
        self.default_numeric("weight", Value::Int(weight));
        self.default_numeric("volume", Value::Int(volume));
    }

    /// Makes this object a door: a portal of kind `Door` with the kind's defaults.
    pub fn apply_door_role(&mut self, spec: &DoorSpec)
        requires
            old(self).wf(),
        ensures
            changes_only(
                *old(self),
                *final(self),
                set![
                    "is_portal"@,
                    "portal_kind"@,
                    "is_door"@,
                    "is_window"@,
                    "door_direction"@,
                    "door_destination_base"@,
                    "is_open"@,
                    "portal_passable"@,
                    "portal_transparent"@,
                    "is_pocketable"@,
                    "lock_id"@,
                    "is_locked"@,
                    "lock_consumable"@,
                    "weight"@,
                    "volume"@,
                ],
            ),
            portal_applied(*old(self), *final(self), door_portal(*spec)),
    {
        let lock_id = match &spec.lock_id {
            Some(l) => Some(l.clone()),
            None => None,
        };
        let portal = PortalSpec {
            kind: PortalKind::Door,
            direction: spec.direction.clone(),
            destination: spec.destination.clone(),
            open: spec.open,
            lock_id,
            locked: spec.locked,
            lock_consumable: spec.lock_consumable,
            passable: None,
            transparent: None,
        };
        assert(portal == door_portal(*spec));
        self.apply_portal_role(&portal);
    }

    /// The shape of a container: capacity, empty contents, limits, and how it is worn.
    fn write_container_shape(&mut self, spec: &ContainerSpec)
        requires
            old(self).wf(),
        ensures
            changes_only(
                *old(self),
                *final(self),
                set![
                    "is_container"@,
                    "capacity"@,
                    "contents"@,
                    "max_weight"@,
                    "max_volume"@,
                    "is_wearable"@,
                    "wear_slot"@,
                ],
            ),
            has_bool(*final(self), "is_container"@, true),
            final(self).int_prop("capacity"@) == Some(spec.capacity as i64),
            final(self).value_of("contents"@) matches Some(Value::List(vs)) && vs@.len() == 0,
            match spec.max_weight {
                Some(w) => final(self).int_prop("max_weight"@) == Some(w),
                None => kept(*old(self), *final(self), "max_weight"@),
            },
            match spec.max_volume {
                Some(v) => final(self).int_prop("max_volume"@) == Some(v),
                None => kept(*old(self), *final(self), "max_volume"@),
            },
            has_bool(*final(self), "is_wearable"@, spec.wearable),
            if spec.wearable {
                has_text(
                    *final(self),
                    "wear_slot"@,
                    match spec.wear_slot {
                        Some(slot) => slot@,
                        None => "torso"@,
                    },
                )
            } else {
                kept(*old(self), *final(self), "wear_slot"@)
            },
    {
        proof {
            lemma_role_property_names();
        }
        self.set_property_bool("is_container", true);
        self.set_property_int("capacity", spec.capacity as i64);
        self.set_property_list("contents", Vec::new());
        if let Some(w) = spec.max_weight {
            self.set_property_int("max_weight", w);
        }
        if let Some(v) = spec.max_volume {
            self.set_property_int("max_volume", v);
        }
        self.set_property_bool("is_wearable", spec.wearable);
        if spec.wearable {
            match &spec.wear_slot {
                Some(slot) => self.set_property_string("wear_slot", slot.as_str()),
                None => self.set_property_string("wear_slot", "torso"),
            }
        }
    }

    /// The access side of a container: closed or open, lock, accepted types, physical defaults.
    fn write_container_access(&mut self, spec: &ContainerSpec)
        requires
            old(self).wf(),
        ensures
            changes_only(
                *old(self),
                *final(self),
                set![
                    "is_pocketable"@,
                    "is_open"@,
                    "lock_id"@,
                    "is_locked"@,
                    "lock_consumable"@,
                    "allowed_types"@,
                    "weight"@,
                    "volume"@,
                ],
            ),
            has_bool(*final(self), "is_pocketable"@, false),
            has_bool(*final(self), "is_open"@, spec.open),
            lock_applied(*old(self), *final(self), spec.lock_id, spec.locked, spec.lock_consumable),
            match spec.allowed_types {
                Some(ts) => if ts@.len() > 0 {
                    has_text(*final(self), "allowed_types"@, join(views(ts@), ","@))
                } else {
                    kept(*old(self), *final(self), "allowed_types"@)
                },
                None => kept(*old(self), *final(self), "allowed_types"@),
            },
            numeric_default(*old(self), *final(self), "weight"@, Value::Int(1)),
            numeric_default(*old(self), *final(self), "volume"@, Value::Int(1)),
    {
        proof {
            lemma_role_property_names();
        }
        self.set_property_bool("is_pocketable", false);
        self.set_property_bool("is_open", spec.open);
        self.apply_lock(&spec.lock_id, spec.locked, spec.lock_consumable);
        if let Some(types) = &spec.allowed_types {
            if types.len() > 0 {
                let joined = join_all(types, ",");
                self.set_property_string("allowed_types", joined.as_str());
            }
        }
        self.default_numeric("weight", Value::Int(1));
        self.default_numeric("volume", Value::Int(1));
    }

    /// Makes this object a container.
    pub fn apply_container_role(&mut self, spec: &ContainerSpec)
        requires
            old(self).wf(),
        ensures
            changes_only(*old(self), *final(self), container_names()),
            container_applied(*old(self), *final(self), *spec),
    {
        proof {
            lemma_role_property_names();
        }
        self.write_container_shape(spec);
        self.write_container_access(spec);
    }

    /// Gear modifiers: a health bonus (when non-zero), stat and skill modifiers and
    /// granted effects (each when non-empty).
    pub fn apply_equipment_mods(
        &mut self,
        mod_max_health: Option<i64>,
        stat_mods: Vec<(String, i64)>,
        skill_mods: Vec<(String, i64)>,
        grant_effects: Vec<String>,
    )
        requires
            old(self).wf(),
        ensures
            changes_only(
                *old(self),
                *final(self),
                set!["mod_max_health"@, "mod_stats"@, "mod_skills"@, "grant_effects"@],
            ),
            match mod_max_health {
                Some(b) => if b != 0 {
                    final(self).int_prop("mod_max_health"@) == Some(b)
                } else {
                    kept(*old(self), *final(self), "mod_max_health"@)
                },
                None => kept(*old(self), *final(self), "mod_max_health"@),
            },
            stat_mods@.len() > 0 ==> final(self).int_map("mod_stats"@) == stat_mods@,
            stat_mods@.len() == 0 ==> kept(*old(self), *final(self), "mod_stats"@),
            skill_mods@.len() > 0 ==> final(self).int_map("mod_skills"@) == skill_mods@,
            skill_mods@.len() == 0 ==> kept(*old(self), *final(self), "mod_skills"@),
            grant_effects@.len() > 0 ==> final(self).string_list("grant_effects"@) == grant_effects@,
            grant_effects@.len() == 0 ==> kept(*old(self), *final(self), "grant_effects"@),
    {
        proof {
            lemma_role_property_names();
        }
        if let Some(bonus) = mod_max_health {
            if bonus != 0 {
                self.set_property_int("mod_max_health", bonus);
            }
        }
        if stat_mods.len() > 0 {
            self.set_int_map("mod_stats", stat_mods);
        }
        if skill_mods.len() > 0 {
            self.set_int_map("mod_skills", skill_mods);
        }
        if grant_effects.len() > 0 {
            self.set_string_list("grant_effects", grant_effects);
        }
    }

    /// Makes this object a stack of `spec.count` identical items, at most `spec.max_stack`.
    pub fn apply_stackable_role(&mut self, spec: &StackableSpec)
        requires
            old(self).wf(),
        ensures
            changes_only(*old(self), *final(self), set!["stackable"@, "stack_count"@, "max_stack"@]),
            has_bool(*final(self), "stackable"@, true),
            final(self).int_prop("stack_count"@) == Some(spec.count as i64),
            final(self).int_prop("max_stack"@) == Some(spec.max_stack as i64),
    {
        proof {
            lemma_role_property_names();
        }
        self.set_property_bool("stackable", true);
        self.set_property_int("stack_count", spec.count as i64);
        self.set_property_int("max_stack", spec.max_stack as i64);
    }

    /// Fills generic item fields only when not already set by a prototype or role.
    pub fn init_item_defaults_if_unset(&mut self, pocketable: bool)
        requires
            old(self).wf(),
        ensures
            changes_only(
                *old(self),
                *final(self),
                set!["weight"@, "volume"@, "is_pocketable"@, "is_container"@, "is_wearable"@],
            ),
            item_defaults_applied(*old(self), *final(self), pocketable),
    {
        proof {
            lemma_role_property_names();
        }
        self.default_numeric("weight", Value::Int(1));
        self.default_numeric("volume", Value::Int(1));
        if self.get_bool_property("is_pocketable").is_none() {
            self.set_property_bool("is_pocketable", pocketable);
        }
        if !self.has_container_role() && self.get_property("is_container").is_none() {
            self.set_property_bool("is_container", false);
        }
        if !self.has_wearable_role() && self.get_property("is_wearable").is_none() {
            self.set_property_bool("is_wearable", false);
        }
    }

    /// Default item properties; the same as [`Self::init_item_defaults_if_unset`].
    pub fn init_item_defaults(&mut self, pocketable: bool)
        requires
            old(self).wf(),
        ensures
            changes_only(
                *old(self),
                *final(self),
                set!["weight"@, "volume"@, "is_pocketable"@, "is_container"@, "is_wearable"@],
            ),
            item_defaults_applied(*old(self), *final(self), pocketable),
    {
        self.init_item_defaults_if_unset(pocketable);
    }

    /// Default container properties: an open, unlocked container of `capacity` slots.
    pub fn init_container_defaults(&mut self, capacity: u32, wearable: bool)
        requires
            old(self).wf(),
        ensures
            changes_only(*old(self), *final(self), container_names()),
            container_applied(*old(self), *final(self), default_container(capacity, wearable)),
    {
        let spec = ContainerSpec {
            capacity,
            max_weight: None,
            max_volume: None,
            wearable,
            wear_slot: None,
            open: true,
            lock_id: None,
            locked: false,
            lock_consumable: false,
            allowed_types: None,
        };
        self.apply_container_role(&spec);
    }

    /// Sets player-written text and marks the object writable.
    pub fn set_write_text(&mut self, text: &str)
        requires
            old(self).wf(),
        ensures
            changes_only(*old(self), *final(self), set!["write_text"@, "is_writable"@]),
            has_text(*final(self), "write_text"@, text@),
            has_bool(*final(self), "is_writable"@, true),
    {
        proof {
            lemma_role_property_names();
        }
        self.set_property_string("write_text", text);
        self.set_property_bool("is_writable", true);
    }

    /// Makes this object readable with `spec.text`, writable when `spec.writable`.
    pub fn apply_readable_role(&mut self, spec: &ReadableSpec)
        requires
            old(self).wf(),
        ensures
            changes_only(*old(self), *final(self), set!["is_readable"@, "read_text"@, "is_writable"@]),
            has_bool(*final(self), "is_readable"@, true),
            has_text(*final(self), "read_text"@, spec.text@),
            has_bool(*final(self), "is_writable"@, spec.writable),
    {
        proof {
            lemma_role_property_names();
        }
        self.set_property_bool("is_readable", true);
        self.set_property_string("read_text", spec.text.as_str());
        self.set_property_bool("is_writable", spec.writable);
    }

    /// Initialises a naked player from a template: creature, gender, empty body
    /// slots and the default carrying capacity.
    pub fn init_creature_role(&mut self, template: &PlayerTemplate)
        requires
            old(self).wf(),
        ensures
            changes_only(*old(self), *final(self), set!["creature"@, "gender"@, "body_slots"@, "max_weight"@]),
            has_text(*final(self), "creature"@, template.creature@),
            has_text(*final(self), "gender"@, template.gender@),
            final(self).value_of("body_slots"@) matches Some(Value::Mapping(es)) && es@.len() == 0,
            final(self).int_prop("max_weight"@) == Some(DEFAULT_PLAYER_MAX_WEIGHT),
    {
        proof {
            lemma_role_property_names();
        }
        self.set_property_string("creature", template.creature.as_str());
        self.set_property_string("gender", template.gender.as_str());
        self.set_property_map("body_slots", Vec::new());
        self.set_property_int("max_weight", DEFAULT_PLAYER_MAX_WEIGHT);
    }

    /// The same as [`Self::init_creature_role`].
    pub fn init_body(&mut self, template: &PlayerTemplate)
        requires
            old(self).wf(),
        ensures
            changes_only(*old(self), *final(self), set!["creature"@, "gender"@, "body_slots"@, "max_weight"@]),
            has_text(*final(self), "creature"@, template.creature@),
            has_text(*final(self), "gender"@, template.gender@),
            final(self).value_of("body_slots"@) matches Some(Value::Mapping(es)) && es@.len() == 0,
            final(self).int_prop("max_weight"@) == Some(DEFAULT_PLAYER_MAX_WEIGHT),
    {
        self.init_creature_role(template);
    }
}

} // verus!
