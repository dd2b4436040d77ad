//! Applying parsed role properties to objects.

use vstd::prelude::*;

use super::anatomy::opt_view;
use super::roles::MudlRoleProps;
use crate::object::physical::{
    carry_applied, equipment_applied, factor_reading, judges_factors, numeric_reading,
    phys_applied, stores_numbers, wearable_applied,
};
use crate::object::roles::{
    allowed_types_of, parse_allowed_types, BreakableSpec, ContainerSpec, KeySpec, PortalKind,
    PortalSpec, ReadableSpec, StackableSpec,
};
use crate::object::setup::{
    container_applied, container_names, has_bool, has_text, lemma_role_property_names, portal_applied,
};
use crate::object::{changes_only, kept, Object, Value};
use crate::text::{owned, views};

verus! {

/// `1.0` as `f64` bits: the weight and volume an item gets where none is given.
pub const ONE_BITS: u64 = 0x3FF0_0000_0000_0000;

pub open spec fn bits_or_one(b: Option<u64>) -> u64 {
    match b {
        Some(x) => x,
        None => ONE_BITS,
    }
}

pub open spec fn flag_or(b: Option<bool>, d: bool) -> bool {
    match b {
        Some(x) => x,
        None => d,
    }
}

/// The properties a portal role may write.
pub open spec fn portal_names() -> Set<Seq<char>> {
    set![
        "is_portal"@,
        "portal_kind"@,
        "is_door"@,
        "is_window"@,
        "door_direction"@,
        "door_destination_base"@,
        "is_open"@,
        "portal_passable"@,
        "portal_transparent"@,
        "is_pocketable"@,
        "lock_id"@,
        "is_locked"@,
        "lock_consumable"@,
        "weight"@,
        "volume"@,
    ]
}

impl MudlRoleProps {
    /// Any setting that makes the object an exit portal.
    pub open spec fn wants_portal(&self) -> bool {
        self.is_door == Some(true) || self.is_window == Some(true) || self.portal_kind is Some
            || self.door_direction is Some || self.door_destination is Some
    }

    /// Any gear modifier.
    pub open spec fn wants_equipment(&self) -> bool {
        self.mod_max_health is Some || self.stat_mods@.len() > 0 || self.skill_mods@.len() > 0
            || self.grant_effects@.len() > 0
    }

    /// The portal kind: the named kind when it reads as one, else window or
    /// door as flagged, else the object's own kind, else a door.
    pub open spec fn chosen_kind(&self, obj: Object) -> PortalKind {
        let named = match self.portal_kind {
            Some(t) => crate::object::roles::portal_kind_of(t@),
            None => None,
        };
        match named {
            Some(k) => k,
            None => if self.is_window == Some(true) {
                PortalKind::Window
            } else if self.is_door == Some(true) {
                PortalKind::Door
            } else {
                match obj.portal_kind_spec() {
                    Some(k) => k,
                    None => PortalKind::Door,
                }
            },
        }
    }

    /// The portal these settings give `obj`: each setting, else what the
    /// object already has, else the default.
    pub open spec fn portal_chosen(&self, obj: Object, spec: PortalSpec) -> bool {
        &&& spec.kind == self.chosen_kind(obj)
        &&& spec.direction@ == match self.door_direction {
            Some(d) => d@,
            None => match obj.string_prop("door_direction"@) {
                Some(d) => d@,
                None => "in"@,
            },
        }
        &&& spec.destination@ == match self.door_destination {
            Some(d) => d@,
            None => match obj.string_prop("door_destination_base"@) {
                Some(d) => d@,
                None => Seq::empty(),
            },
        }
        &&& spec.open == flag_or(self.is_open, flag_or(obj.bool_prop("is_open"@), false))
        &&& opt_view(spec.lock_id) == match self.lock_id {
            Some(l) => Some(l@),
            None => opt_view(obj.lock_id()),
        }
        &&& spec.locked == flag_or(self.locked, flag_or(obj.bool_prop("is_locked"@), false))
        &&& spec.lock_consumable == flag_or(
            self.lock_consumable,
            flag_or(obj.bool_prop("lock_consumable"@), false),
        )
        &&& spec.passable == self.portal_passable
        &&& spec.transparent == self.portal_transparent
    }

    /// The container these settings give: ten slots, open, unlocked, unless set.
    pub open spec fn container_chosen(&self, spec: ContainerSpec) -> bool {
        &&& spec.capacity == match self.capacity {
            Some(c) => c,
            None => 10u32,
        }
        &&& spec.max_weight == self.max_weight
        &&& spec.max_volume == self.max_volume
        &&& spec.wearable == flag_or(self.is_wearable, false)
        &&& opt_view(spec.wear_slot) == opt_view(self.wear_slot)
        &&& spec.open == flag_or(self.is_open, true)
        &&& opt_view(spec.lock_id) == opt_view(self.lock_id)
        &&& spec.locked == flag_or(self.locked, false)
        &&& spec.lock_consumable == flag_or(self.lock_consumable, false)
        &&& match self.allowed_types {
            Some(t) => if allowed_types_of(t@).len() > 0 {
                spec.allowed_types matches Some(ts) && views(ts@) == allowed_types_of(t@)
            } else {
                spec.allowed_types is None
            },
            None => spec.allowed_types is None,
        }
    }

    /// The first step: a portal (with any weight and volume given), else a
    /// container, else plain weight and volume (one where not given).
    pub open spec fn shape_applied(
        &self,
        before: Object,
        after: Object,
        num: spec_fn(u64) -> Value,
    ) -> bool {
        if self.wants_portal() {
            exists|spec: PortalSpec, mid: Object|
                {
                    &&& self.portal_chosen(before, spec)
                    &&& changes_only(before, mid, portal_names())
                    &&& #[trigger] portal_applied(before, mid, spec)
                    &&& changes_only(mid, after, set!["weight"@, "volume"@])
                    &&& match self.weight {
                        Some(w) => after.value_of("weight"@) == Some(num(w)),
                        None => kept(mid, after, "weight"@),
                    }
                    &&& match self.volume {
                        Some(v) => after.value_of("volume"@) == Some(num(v)),
                        None => kept(mid, after, "volume"@),
                    }
                }
        } else if self.is_container == Some(true) {
            exists|spec: ContainerSpec|
                {
                    &&& self.container_chosen(spec)
                    &&& changes_only(before, after, container_names())
                    &&& #[trigger] container_applied(before, after, spec)
                }
        } else if self.weight is Some || self.volume is Some {
            phys_applied(
                before,
                after,
                bits_or_one(self.weight),
                bits_or_one(self.volume),
                flag_or(self.pocketable, true),
                num,
            )
        } else {
            after == before
        }
    }

    /// The second step: wearing (unless a container), else carry modifiers
    /// and gear modifiers, else gear modifiers alone.
    pub open spec fn wear_applied(
        &self,
        before: Object,
        after: Object,
        num: spec_fn(u64) -> Value,
        load: spec_fn(u64) -> bool,
    ) -> bool {
        if self.is_wearable == Some(true) && self.is_container != Some(true) {
            wearable_applied(
                before,
                after,
                match self.wear_slot {
                    Some(s) => s@,
                    None => "torso"@,
                },
                bits_or_one(self.weight),
                bits_or_one(self.volume),
                self.mod_max_weight,
                self.mod_encumbrance,
                self.mod_max_health,
                self.stat_mods@,
                self.skill_mods@,
                self.grant_effects@,
                num,
                load,
            )
        } else if self.mod_max_weight is Some || self.mod_encumbrance is Some {
            exists|mid: Object|
                {
                    &&& #[trigger] carry_applied(
                        before,
                        mid,
                        self.mod_max_weight,
                        self.mod_encumbrance,
                        num,
                        load,
                    )
                    &&& if self.wants_equipment() {
                        self.equipment_step(mid, after)
                    } else {
                        after == mid
                    }
                }
        } else if self.wants_equipment() {
            self.equipment_step(before, after)
        } else {
            after == before
        }
    }

    pub open spec fn equipment_step(&self, before: Object, after: Object) -> bool {
        equipment_applied(
            before,
            after,
            self.mod_max_health,
            self.stat_mods@,
            self.skill_mods@,
            self.grant_effects@,
        )
    }

    /// A stack of one, at most ninety-nine, unless set.
    pub open spec fn stack_applied(&self, before: Object, after: Object) -> bool {
        if self.stackable == Some(true) {
            &&& changes_only(before, after, set!["stackable"@, "stack_count"@, "max_stack"@])
            &&& has_bool(after, "stackable"@, true)
            &&& after.int_prop("stack_count"@) == Some(
                (match self.stack_count {
                    Some(c) => c,
                    None => 1u32,
                }) as i64,
            )
            &&& after.int_prop("max_stack"@) == Some(
                (match self.max_stack {
                    Some(c) => c,
                    None => 99u32,
                }) as i64,
            )
        } else {
            after == before
        }
    }

    /// A string property written when the setting is given.
    pub open spec fn text_applied(before: Object, after: Object, name: Seq<char>, t: Option<String>) -> bool {
        match t {
            Some(s) => Object::property_stored(before, after, name) && has_text(after, name, s@),
            None => after == before,
        }
    }

    /// Readable (with its text, empty unless set) when flagged or given text.
    pub open spec fn read_applied(&self, before: Object, after: Object) -> bool {
        if self.readable == Some(true) || self.read_text is Some {
            &&& changes_only(before, after, set!["is_readable"@, "read_text"@, "is_writable"@])
            &&& has_bool(after, "is_readable"@, true)
            &&& has_text(
                after,
                "read_text"@,
                match self.read_text {
                    Some(t) => t@,
                    None => Seq::empty(),
                },
            )
            &&& has_bool(after, "is_writable"@, flag_or(self.writable, false))
        } else {
            after == before
        }
    }

    /// A key for its lock, when flagged and given a lock id.
    pub open spec fn key_applied(&self, before: Object, after: Object) -> bool {
        if self.is_key == Some(true) && self.lock_id is Some {
            &&& changes_only(
                before,
                after,
                set!["is_key"@, "lock_id"@, "key_consumable"@, "is_pocketable"@, "weight"@, "volume"@],
            )
            &&& after.bool_prop("is_key"@) == Some(true)
            &&& after.string_prop("lock_id"@) matches Some(s) && s@ == self.lock_id->0@
            &&& (self.key_consumable == Some(true) ==> after.bool_prop("key_consumable"@) == Some(true))
            &&& (self.key_consumable != Some(true) ==> kept(before, after, "key_consumable"@))
            &&& after.bool_prop("is_pocketable"@) == Some(true)
        } else {
            after == before
        }
    }

    /// Breakable, with its text when given.
    pub open spec fn break_applied(&self, before: Object, after: Object) -> bool {
        if self.breakable == Some(true) {
            &&& changes_only(before, after, set!["is_breakable"@, "break_text"@])
            &&& has_bool(after, "is_breakable"@, true)
            &&& match self.break_text {
                Some(t) => has_text(after, "break_text"@, t@),
                None => kept(before, after, "break_text"@),
            }
        } else {
            after == before
        }
    }

    /// The steps after the shape and wear: stack, hand slot, readable text,
    /// written text, key and breakable, in that order.
    pub open spec fn finish_applied(&self, before: Object, after: Object) -> bool {
        exists|o1: Object, o2: Object, o3: Object, o4: Object, o5: Object|
            {
                &&& #[trigger] self.stack_applied(before, o1)
                &&& #[trigger] MudlRoleProps::text_applied(o1, o2, "hand_slot"@, self.hand_slot)
                &&& #[trigger] self.read_applied(o2, o3)
                &&& #[trigger] MudlRoleProps::text_applied(o3, o4, "write_text"@, self.write_text)
                &&& #[trigger] self.key_applied(o4, o5)
                &&& #[trigger] self.break_applied(o5, after)
            }
    }

    /// All of applying these settings, step by step.
    pub open spec fn roles_applied(
        &self,
        before: Object,
        after: Object,
        num: spec_fn(u64) -> Value,
        load: spec_fn(u64) -> bool,
    ) -> bool {
        exists|o1: Object, o2: Object|
            {
                &&& #[trigger] self.shape_applied(before, o1, num)
                &&& #[trigger] self.wear_applied(o1, o2, num, load)
                &&& #[trigger] self.finish_applied(o2, after)
            }
    }
}

fn copy_text(o: &Option<String>) -> (r: Option<String>)
    ensures
        opt_view(r) == opt_view(*o),
{
    match o {
        Some(s) => Some(owned(s.as_str())),
        None => None,
    }
}

fn copy_ints(v: &Vec<(String, i64)>) -> (r: Vec<(String, i64)>)
    ensures
        r@ == v@,
{
    let mut out: Vec<(String, i64)> = Vec::new();
    let mut i: usize = 0;
    while i < v.len()
        invariant
            0 <= i <= v@.len(),
            out@ == v@.take(i as int),
        decreases v@.len() - i,
    {
        let k = v[i].0.clone();
        out.push((k, v[i].1));
        assert(out@ =~= v@.take(i + 1));
        i += 1;
    }
    assert(v@.take(v@.len() as int) =~= v@);
    out
}

fn copy_texts(v: &Vec<String>) -> (r: Vec<String>)
    ensures
        r@ == v@,
{
    let mut out: Vec<String> = Vec::new();
    let mut i: usize = 0;
    while i < v.len()
        invariant
            0 <= i <= v@.len(),
            out@ == v@.take(i as int),
        decreases v@.len() - i,
    {
        out.push(v[i].clone());
        assert(out@ =~= v@.take(i + 1));
        i += 1;
    }
    assert(v@.take(v@.len() as int) =~= v@);
    out
}

fn yes(o: Option<bool>) -> (r: bool)
    ensures
        r == (o == Some(true)),
{
    match o {
        Some(b) => b,
        None => false,
    }
}

fn or_flag(o: Option<bool>, d: bool) -> (r: bool)
    ensures
        r == flag_or(o, d),
{
    match o {
        Some(b) => b,
        None => d,
    }
}

fn or_one(o: Option<u64>) -> (r: u64)
    ensures
        r == bits_or_one(o),
{
    match o {
        Some(b) => b,
        None => ONE_BITS,
    }
}

impl MudlRoleProps {
    fn portal_for(&self, obj: &Object) -> (r: PortalSpec)
        requires
            obj.wf(),
        ensures
            self.portal_chosen(*obj, r),
    {
        let named = match &self.portal_kind {
            Some(t) => PortalKind::parse(t.as_str()),
            None => None,
        };
        let kind = match named {
            Some(k) => k,
            None => if yes(self.is_window) {
                PortalKind::Window
            } else if yes(self.is_door) {
                PortalKind::Door
            } else {
                match obj.portal_kind() {
                    Some(k) => k,
                    None => PortalKind::Door,
                }
            },
        };
        let direction = match &self.door_direction {
            Some(d) => owned(d.as_str()),
            None => match obj.portal_direction() {
                Some(d) => d,
                None => owned("in"),
            },
        };
        let destination = match &self.door_destination {
            Some(d) => owned(d.as_str()),
            None => match obj.portal_destination_base() {
                Some(d) => d,
                None => String::new(),
            },
        };
        let lock_id = match &self.lock_id {
            Some(l) => Some(owned(l.as_str())),
            None => obj.container_lock_id(),
        };
        PortalSpec {
            kind,
            direction,
            destination,
            open: or_flag(self.is_open, or_flag(obj.get_bool_property("is_open"), false)),
            lock_id,
            locked: or_flag(self.locked, or_flag(obj.get_bool_property("is_locked"), false)),
            lock_consumable: or_flag(
                self.lock_consumable,
                or_flag(obj.get_bool_property("lock_consumable"), false),
            ),
            passable: self.portal_passable,
            transparent: self.portal_transparent,
        }
    }

    fn container_for(&self) -> (r: ContainerSpec)
        ensures
            self.container_chosen(r),
    {
        let allowed = match &self.allowed_types {
            Some(t) => {
                let ts = parse_allowed_types(t.as_str());
                if ts.len() > 0 {
                    Some(ts)
                } else {
                    None
                }
            },
            None => None,
        };
        ContainerSpec {
            capacity: match self.capacity {
                Some(c) => c,
                None => 10,
            },
            max_weight: self.max_weight,
            max_volume: self.max_volume,
            wearable: or_flag(self.is_wearable, false),
            wear_slot: copy_text(&self.wear_slot),
            open: or_flag(self.is_open, true),
            lock_id: copy_text(&self.lock_id),
            locked: or_flag(self.locked, false),
            lock_consumable: or_flag(self.lock_consumable, false),
            allowed_types: allowed,
        }
    }

    fn apply_shape<N: Fn(u64) -> Value>(&self, obj: &mut Object, numeric: &N)
        requires
            old(obj).wf(),
            stores_numbers(*numeric),
        ensures
            final(obj).wf(),
            self.shape_applied(*old(obj), *final(obj), numeric_reading(*numeric)),
    {
        let ghost before = *obj;
        if yes(self.is_door) || yes(self.is_window) || self.portal_kind.is_some()
            || self.door_direction.is_some() || self.door_destination.is_some()
        {
            let spec = self.portal_for(obj);
            obj.apply_portal_role(&spec);
            let ghost mid = *obj;
            proof {
                lemma_role_property_names();
            }
            if let Some(w) = self.weight {
                obj.set_property_numeric_with("weight", w, numeric);
            }
            let ghost m2 = *obj;
            assert(changes_only(mid, m2, set!["weight"@, "volume"@]));
            if let Some(v) = self.volume {
                obj.set_property_numeric_with("volume", v, numeric);
                assert(obj.value_of("weight"@) == m2.value_of("weight"@));
            }
            assert(changes_only(mid, *obj, set!["weight"@, "volume"@]));
            assert(portal_applied(before, mid, spec));
            assert(self.shape_applied(before, *obj, numeric_reading(*numeric)));
        } else if yes(self.is_container) {
            let spec = self.container_for();
            obj.apply_container_role(&spec);
            assert(container_applied(before, *obj, spec));
        } else if self.weight.is_some() || self.volume.is_some() {
            obj.apply_item_phys_with(
                or_one(self.weight),
                or_one(self.volume),
                or_flag(self.pocketable, true),
                numeric,
            );
        }
    }

    fn apply_equipment(&self, obj: &mut Object)
        requires
            old(obj).wf(),
        ensures
            final(obj).wf(),
            self.equipment_step(*old(obj), *final(obj)),
    {
        obj.apply_equipment_mods(
            self.mod_max_health,
            copy_ints(&self.stat_mods),
            copy_ints(&self.skill_mods),
            copy_texts(&self.grant_effects),
        );
    }

    fn apply_wear<N: Fn(u64) -> Value, L: Fn(u64) -> bool>(&self, obj: &mut Object, numeric: &N, load: &L)
        requires
            old(obj).wf(),
            stores_numbers(*numeric),
            judges_factors(*load),
        ensures
            final(obj).wf(),
            self.wear_applied(*old(obj), *final(obj), numeric_reading(*numeric), factor_reading(*load)),
    {
        let ghost before = *obj;
        let wants_equipment = self.mod_max_health.is_some() || self.stat_mods.len() > 0
            || self.skill_mods.len() > 0 || self.grant_effects.len() > 0;
        if yes(self.is_wearable) && !yes(self.is_container) {
            let slot = match &self.wear_slot {
                Some(s) => owned(s.as_str()),
                None => owned("torso"),
            };
            obj.apply_wearable_with(
                slot.as_str(),
                or_one(self.weight),
                or_one(self.volume),
                self.mod_max_weight,
                self.mod_encumbrance,
                self.mod_max_health,
                copy_ints(&self.stat_mods),
                copy_ints(&self.skill_mods),
                copy_texts(&self.grant_effects),
                numeric,
                load,
            );
        } else if self.mod_max_weight.is_some() || self.mod_encumbrance.is_some() {
            obj.apply_carry_modifiers_with(self.mod_max_weight, self.mod_encumbrance, numeric, load);
            let ghost mid = *obj;
            assert(carry_applied(
                before,
                mid,
                self.mod_max_weight,
                self.mod_encumbrance,
                numeric_reading(*numeric),
                factor_reading(*load),
            ));
            if wants_equipment {
                self.apply_equipment(obj);
            }
        } else if wants_equipment {
            self.apply_equipment(obj);
        }
    }

    fn apply_finish(&self, obj: &mut Object)
        requires
            old(obj).wf(),
        ensures
            final(obj).wf(),
            self.finish_applied(*old(obj), *final(obj)),
    {
        let ghost o0 = *obj;
        if yes(self.stackable) {
            obj.apply_stackable_role(
                &StackableSpec {
                    count: match self.stack_count {
                        Some(c) => c,
                        None => 1,
                    },
                    max_stack: match self.max_stack {
                        Some(c) => c,
                        None => 99,
                    },
                },
            );
        }
        let ghost o1 = *obj;
        if let Some(slot) = &self.hand_slot {
            obj.set_property_string("hand_slot", slot.as_str());
        }
        let ghost o2 = *obj;
        if yes(self.readable) || self.read_text.is_some() {
            let text = match &self.read_text {
                Some(t) => owned(t.as_str()),
                None => String::new(),
            };
            obj.apply_readable_role(&ReadableSpec { text, writable: or_flag(self.writable, false) });
        }
        let ghost o3 = *obj;
        if let Some(text) = &self.write_text {
            obj.set_property_string("write_text", text.as_str());
        }
        let ghost o4 = *obj;
        if yes(self.is_key) {
            if let Some(lock_id) = &self.lock_id {
                let mut spec = KeySpec::new(lock_id.as_str());
                if yes(self.key_consumable) {
                    spec = spec.consumable();
                }
                obj.apply_key_role(&spec);
            }
        }
        let ghost o5 = *obj;
        if yes(self.breakable) {
            obj.apply_breakable_role(&BreakableSpec { break_text: copy_text(&self.break_text) });
        }
        assert(self.stack_applied(o0, o1));
        assert(MudlRoleProps::text_applied(o1, o2, "hand_slot"@, self.hand_slot));
        assert(self.read_applied(o2, o3));
        assert(MudlRoleProps::text_applied(o3, o4, "write_text"@, self.write_text));
        assert(self.key_applied(o4, o5));
        assert(self.break_applied(o5, *obj));
    }

    /// Apply parsed role properties onto an object (composable: several roles
    /// may apply). What storing a weight or volume puts in a property is what
    /// `numeric_value` says, and whether an encumbrance factor changes the load
    /// is what `changes_load` says.
    pub fn apply_to<N: Fn(u64) -> Value, L: Fn(u64) -> bool>(
        &self,
        obj: &mut Object,
        numeric_value: &N,
        changes_load: &L,
    )
        requires
            old(obj).wf(),
            stores_numbers(*numeric_value),
            judges_factors(*changes_load),
        ensures
            final(obj).wf(),
            self.roles_applied(
                *old(obj),
                *final(obj),
                numeric_reading(*numeric_value),
                factor_reading(*changes_load),
            ),
    {
        let ghost o0 = *obj;
        self.apply_shape(obj, numeric_value);
        let ghost o1 = *obj;
        self.apply_wear(obj, numeric_value, changes_load);
        let ghost o2 = *obj;
        self.apply_finish(obj);
        assert(self.shape_applied(o0, o1, numeric_reading(*numeric_value)));
        assert(self.wear_applied(o1, o2, numeric_reading(*numeric_value), factor_reading(*changes_load)));
        assert(self.finish_applied(o2, *obj));
    }
}

/// A number written under `name` when given.
pub open spec fn number_applied(
    before: Object,
    after: Object,
    name: Seq<char>,
    o: Option<u64>,
    num: spec_fn(u64) -> Value,
) -> bool {
    match o {
        Some(x) => changes_only(before, after, set![name]) && after.value_of(name) == Some(num(x)),
        None => after == before,
    }
}

/// A flag written under `name` when given.
pub open spec fn flag_applied(before: Object, after: Object, name: Seq<char>, o: Option<bool>) -> bool {
    match o {
        Some(x) => Object::property_set(before, after, name, Value::Bool(x)),
        None => after == before,
    }
}

impl MudlRoleProps {
    /// Carry modifiers when either is given, then gear modifiers when any is.
    pub open spec fn modifiers_applied(
        &self,
        before: Object,
        after: Object,
        num: spec_fn(u64) -> Value,
        load: spec_fn(u64) -> bool,
    ) -> bool {
        exists|mid: Object|
            {
                &&& #[trigger] self.carry_step(before, mid, num, load)
                &&& if self.wants_equipment() {
                    self.equipment_step(mid, after)
                } else {
                    after == mid
                }
            }
    }

    pub open spec fn carry_step(
        &self,
        before: Object,
        after: Object,
        num: spec_fn(u64) -> Value,
        load: spec_fn(u64) -> bool,
    ) -> bool {
        if self.mod_max_weight is Some || self.mod_encumbrance is Some {
            carry_applied(before, after, self.mod_max_weight, self.mod_encumbrance, num, load)
        } else {
            after == before
        }
    }

    /// Weight, volume, pocketability, hand slot and modifiers as given, in
    /// that order, without composing roles.
    pub open spec fn overrides_applied(
        &self,
        before: Object,
        after: Object,
        num: spec_fn(u64) -> Value,
        load: spec_fn(u64) -> bool,
    ) -> bool {
        exists|o1: Object, o2: Object, o3: Object, o4: Object|
            {
                &&& #[trigger] number_applied(before, o1, "weight"@, self.weight, num)
                &&& #[trigger] number_applied(o1, o2, "volume"@, self.volume, num)
                &&& #[trigger] flag_applied(o2, o3, "is_pocketable"@, self.pocketable)
                &&& #[trigger] MudlRoleProps::text_applied(o3, o4, "hand_slot"@, self.hand_slot)
                &&& #[trigger] self.modifiers_applied(o4, after, num, load)
            }
    }

    /// Apply scalar overrides without re-applying role composition; numbers
    /// and factors are judged as in [`MudlRoleProps::apply_to`].
    pub fn apply_scalar_overrides<N: Fn(u64) -> Value, L: Fn(u64) -> bool>(
        &self,
        obj: &mut Object,
        numeric_value: &N,
        changes_load: &L,
    )
        requires
            old(obj).wf(),
            stores_numbers(*numeric_value),
            judges_factors(*changes_load),
        ensures
            final(obj).wf(),
            self.overrides_applied(
                *old(obj),
                *final(obj),
                numeric_reading(*numeric_value),
                factor_reading(*changes_load),
            ),
    {
        let ghost num = numeric_reading(*numeric_value);
        let ghost load = factor_reading(*changes_load);
        let ghost o0 = *obj;
        if let Some(w) = self.weight {
            obj.set_property_numeric_with("weight", w, numeric_value);
        }
        let ghost o1 = *obj;
        if let Some(v) = self.volume {
            obj.set_property_numeric_with("volume", v, numeric_value);
        }
        let ghost o2 = *obj;
        if let Some(p) = self.pocketable {
            obj.set_property_bool("is_pocketable", p);
        }
        let ghost o3 = *obj;
        if let Some(slot) = &self.hand_slot {
            obj.set_property_string("hand_slot", slot.as_str());
        }
        let ghost o4 = *obj;
        if self.mod_max_weight.is_some() || self.mod_encumbrance.is_some() {
            obj.apply_carry_modifiers_with(self.mod_max_weight, self.mod_encumbrance, numeric_value, changes_load);
        }
        let ghost o5 = *obj;
        assert(self.carry_step(o4, o5, num, load));
        if self.mod_max_health.is_some() || self.stat_mods.len() > 0 || self.skill_mods.len() > 0
            || self.grant_effects.len() > 0
        {
            self.apply_equipment(obj);
        }
        assert(self.modifiers_applied(o4, *obj, num, load));
        assert(number_applied(o0, o1, "weight"@, self.weight, num));
        assert(number_applied(o1, o2, "volume"@, self.volume, num));
        assert(flag_applied(o2, o3, "is_pocketable"@, self.pocketable));
        assert(MudlRoleProps::text_applied(o3, o4, "hand_slot"@, self.hand_slot));
    }
}

} // verus!
