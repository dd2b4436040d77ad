//! Role properties read from MUDL item and object blocks.

use vstd::prelude::*;

use super::anatomy::{i64_opt, int_table, opt_view, put_int, strip_all, strip_all_str};
use crate::assoc::unique_keys;
use crate::object::literal::{float_reading, read_float, reads_floats};
use crate::text::{
    has_prefix, owned, parse_i64, parse_u32, parse_unsigned, str_eq,
    trim, trim_seq, views,
};
use super::npc_def::names_contain;

verus! {

/// Key-value role properties parsed from MUDL item/object blocks. Weights,
/// volumes and the encumbrance factor are kept as the bits of a finite `f64`.
#[derive(Debug, Clone)]
pub struct MudlRoleProps {
    pub is_container: Option<bool>,
    pub is_open: Option<bool>,
    pub capacity: Option<u32>,
    pub max_weight: Option<i64>,
    pub max_volume: Option<i64>,
    pub is_wearable: Option<bool>,
    pub wear_slot: Option<String>,
    /// Bits of a finite `f64`.
    pub weight: Option<u64>,
    /// Bits of a finite `f64`.
    pub volume: Option<u64>,
    pub pocketable: Option<bool>,
    pub stackable: Option<bool>,
    pub stack_count: Option<u32>,
    pub max_stack: Option<u32>,
    pub hand_slot: Option<String>,
    pub readable: Option<bool>,
    pub read_text: Option<String>,
    pub writable: Option<bool>,
    pub write_text: Option<String>,
    pub locked: Option<bool>,
    pub lock_id: Option<String>,
    pub is_key: Option<bool>,
    pub key_consumable: Option<bool>,
    pub lock_consumable: Option<bool>,
    pub allowed_types: Option<String>,
    pub is_door: Option<bool>,
    pub is_window: Option<bool>,
    pub portal_kind: Option<String>,
    pub door_direction: Option<String>,
    pub door_destination: Option<String>,
    pub portal_passable: Option<bool>,
    pub portal_transparent: Option<bool>,
    pub mod_max_weight: Option<i64>,
    /// Bits of a finite `f64`: the encumbrance multiplier while equipped.
    pub mod_encumbrance: Option<u64>,
    pub mod_max_health: Option<i64>,
    /// One entry per name.
    pub stat_mods: Vec<(String, i64)>,
    /// One entry per name.
    pub skill_mods: Vec<(String, i64)>,
    pub grant_effects: Vec<String>,
    pub breakable: Option<bool>,
    pub break_text: Option<String>,
}

/// The settings of a [`MudlRoleProps`], as plain values.
pub struct RolePropsView {
    pub is_container: Option<bool>,
    pub is_open: Option<bool>,
    pub capacity: Option<u32>,
    pub max_weight: Option<i64>,
    pub max_volume: Option<i64>,
    pub is_wearable: Option<bool>,
    pub wear_slot: Option<Seq<char>>,
    pub weight: Option<u64>,
    pub volume: Option<u64>,
    pub pocketable: Option<bool>,
    pub stackable: Option<bool>,
    pub stack_count: Option<u32>,
    pub max_stack: Option<u32>,
    pub hand_slot: Option<Seq<char>>,
    pub readable: Option<bool>,
    pub read_text: Option<Seq<char>>,
    pub writable: Option<bool>,
    pub write_text: Option<Seq<char>>,
    pub locked: Option<bool>,
    pub lock_id: Option<Seq<char>>,
    pub is_key: Option<bool>,
    pub key_consumable: Option<bool>,
    pub lock_consumable: Option<bool>,
    pub allowed_types: Option<Seq<char>>,
    pub is_door: Option<bool>,
    pub is_window: Option<bool>,
    pub portal_kind: Option<Seq<char>>,
    pub door_direction: Option<Seq<char>>,
    pub door_destination: Option<Seq<char>>,
    pub portal_passable: Option<bool>,
    pub portal_transparent: Option<bool>,
    pub mod_max_weight: Option<i64>,
    pub mod_encumbrance: Option<u64>,
    pub mod_max_health: Option<i64>,
    pub stat_mods: Map<Seq<char>, i64>,
    pub skill_mods: Map<Seq<char>, i64>,
    pub grant_effects: Seq<Seq<char>>,
    pub breakable: Option<bool>,
    pub break_text: Option<Seq<char>>,
}

impl View for MudlRoleProps {
    type V = RolePropsView;

    open spec fn view(&self) -> RolePropsView {
        RolePropsView {
            is_container: self.is_container,
            is_open: self.is_open,
            capacity: self.capacity,
            max_weight: self.max_weight,
            max_volume: self.max_volume,
            is_wearable: self.is_wearable,
            wear_slot: opt_view(self.wear_slot),
            weight: self.weight,
            volume: self.volume,
            pocketable: self.pocketable,
            stackable: self.stackable,
            stack_count: self.stack_count,
            max_stack: self.max_stack,
            hand_slot: opt_view(self.hand_slot),
            readable: self.readable,
            read_text: opt_view(self.read_text),
            writable: self.writable,
            write_text: opt_view(self.write_text),
            locked: self.locked,
            lock_id: opt_view(self.lock_id),
            is_key: self.is_key,
            key_consumable: self.key_consumable,
            lock_consumable: self.lock_consumable,
            allowed_types: opt_view(self.allowed_types),
            is_door: self.is_door,
            is_window: self.is_window,
            portal_kind: opt_view(self.portal_kind),
            door_direction: opt_view(self.door_direction),
            door_destination: opt_view(self.door_destination),
            portal_passable: self.portal_passable,
            portal_transparent: self.portal_transparent,
            mod_max_weight: self.mod_max_weight,
            mod_encumbrance: self.mod_encumbrance,
            mod_max_health: self.mod_max_health,
            stat_mods: int_table(self.stat_mods@),
            skill_mods: int_table(self.skill_mods@),
            grant_effects: views(self.grant_effects@),
            breakable: self.breakable,
            break_text: opt_view(self.break_text),
        }
    }
}

impl MudlRoleProps {
    /// The modifier tables hold one entry per name.
    pub open spec fn wf(&self) -> bool {
        unique_keys(self.stat_mods@) && unique_keys(self.skill_mods@)
    }
}

/// No settings at all.
pub open spec fn no_role_props() -> RolePropsView {
    RolePropsView {
        is_container: None,
        is_open: None,
        capacity: None,
        max_weight: None,
        max_volume: None,
        is_wearable: None,
        wear_slot: None,
        weight: None,
        volume: None,
        pocketable: None,
        stackable: None,
        stack_count: None,
        max_stack: None,
        hand_slot: None,
        readable: None,
        read_text: None,
        writable: None,
        write_text: None,
        locked: None,
        lock_id: None,
        is_key: None,
        key_consumable: None,
        lock_consumable: None,
        allowed_types: None,
        is_door: None,
        is_window: None,
        portal_kind: None,
        door_direction: None,
        door_destination: None,
        portal_passable: None,
        portal_transparent: None,
        mod_max_weight: None,
        mod_encumbrance: None,
        mod_max_health: None,
        stat_mods: Map::empty(),
        skill_mods: Map::empty(),
        grant_effects: Seq::empty(),
        breakable: None,
        break_text: None,
    }
}

impl Default for MudlRoleProps {
    fn default() -> (r: Self)
        ensures
            r.wf(),
            r@ == no_role_props(),
    {
        let r = MudlRoleProps {
            is_container: None,
            is_open: None,
            capacity: None,
            max_weight: None,
            max_volume: None,
            is_wearable: None,
            wear_slot: None,
            weight: None,
            volume: None,
            pocketable: None,
            stackable: None,
            stack_count: None,
            max_stack: None,
            hand_slot: None,
            readable: None,
            read_text: None,
            writable: None,
            write_text: None,
            locked: None,
            lock_id: None,
            is_key: None,
            key_consumable: None,
            lock_consumable: None,
            allowed_types: None,
            is_door: None,
            is_window: None,
            portal_kind: None,
            door_direction: None,
            door_destination: None,
            portal_passable: None,
            portal_transparent: None,
            mod_max_weight: None,
            mod_encumbrance: None,
            mod_max_health: None,
            stat_mods: Vec::new(),
            skill_mods: Vec::new(),
            grant_effects: Vec::new(),
            breakable: None,
            break_text: None,
        };
        assert(r@.stat_mods =~= Map::<Seq<char>, i64>::empty());
        assert(r@.skill_mods =~= Map::<Seq<char>, i64>::empty());
        assert(r@.grant_effects =~= Seq::<Seq<char>>::empty());
        r
    }
}

/// `"true"` reads as `true`, any other text as `false`.
pub open spec fn flag_text(value: Seq<char>) -> Option<bool> {
    Some(value == "true"@)
}

/// `str::parse::<u32>`.
pub open spec fn u32_text(value: Seq<char>) -> Option<u32> {
    match parse_unsigned(value, u32::MAX as nat) {
        Some(n) => Some(n as u32),
        None => None,
    }
}

/// Which setting a property key names.
#[derive(Debug, Clone, Copy, PartialEq, Eq)]
pub enum RoleField {
    IsContainer,
    IsOpen,
    Capacity,
    MaxWeight,
    MaxVolume,
    IsWearable,
    WearSlot,
    Weight,
    Volume,
    Pocketable,
    Stackable,
    StackCount,
    MaxStack,
    HandSlot,
    Readable,
    ReadText,
    Writable,
    WriteText,
    Locked,
    LockId,
    IsKey,
    KeyConsumable,
    LockConsumable,
    AllowedTypes,
    IsDoor,
    IsWindow,
    PortalKind,
    DoorDirection,
    DoorDestination,
    PortalPassable,
    PortalTransparent,
    ModMaxWeight,
    ModEncumbrance,
    ModMaxHealth,
    GrantEffect,
    StatMod,
    SkillMod,
    Breakable,
    BreakText,
    Ignored,
}

/// The setting `key` names; keys are matched exactly, in this order.
pub open spec fn role_field(key: Seq<char>) -> RoleField {
    if key == "is_container"@ {
        RoleField::IsContainer
    } else if key == "is_open"@ || key == "open"@ {
        RoleField::IsOpen
    } else if key == "capacity"@ {
        RoleField::Capacity
    } else if key == "max_weight"@ {
        RoleField::MaxWeight
    } else if key == "max_volume"@ {
        RoleField::MaxVolume
    } else if key == "is_wearable"@ {
        RoleField::IsWearable
    } else if key == "wear_slot"@ {
        RoleField::WearSlot
    } else if key == "weight"@ {
        RoleField::Weight
    } else if key == "volume"@ {
        RoleField::Volume
    } else if key == "pocketable"@ || key == "is_pocketable"@ {
        RoleField::Pocketable
    } else if key == "stackable"@ {
        RoleField::Stackable
    } else if key == "stack_count"@ {
        RoleField::StackCount
    } else if key == "max_stack"@ {
        RoleField::MaxStack
    } else if key == "hand_slot"@ {
        RoleField::HandSlot
    } else if key == "readable"@ || key == "is_readable"@ {
        RoleField::Readable
    } else if key == "read_text"@ || key == "text"@ {
        RoleField::ReadText
    } else if key == "writable"@ || key == "is_writable"@ {
        RoleField::Writable
    } else if key == "write_text"@ {
        RoleField::WriteText
    } else if key == "locked"@ || key == "is_locked"@ {
        RoleField::Locked
    } else if key == "lock_id"@ {
        RoleField::LockId
    } else if key == "is_key"@ || key == "key"@ {
        RoleField::IsKey
    } else if key == "key_consumable"@ || key == "consumable_key"@ {
        RoleField::KeyConsumable
    } else if key == "lock_consumable"@ || key == "consumable_lock"@ {
        RoleField::LockConsumable
    } else if key == "allowed_types"@ {
        RoleField::AllowedTypes
    } else if key == "is_door"@ || key == "door"@ {
        RoleField::IsDoor
    } else if key == "is_window"@ || key == "window"@ {
        RoleField::IsWindow
    } else if key == "portal_kind"@ || key == "portal"@ {
        RoleField::PortalKind
    } else if key == "door_direction"@ || key == "portal_direction"@ || key == "direction"@ {
        RoleField::DoorDirection
    } else if key == "door_destination"@ || key == "portal_destination"@ || key == "destination"@ {
        RoleField::DoorDestination
    } else if key == "portal_passable"@ || key == "passable"@ {
        RoleField::PortalPassable
    } else if key == "portal_transparent"@ || key == "transparent"@ {
        RoleField::PortalTransparent
    } else if key == "mod_max_weight"@ || key == "carry_bonus"@ || key == "max_weight_bonus"@ {
        RoleField::ModMaxWeight
    } else if key == "mod_encumbrance"@ || key == "encumbrance_factor"@ || key == "encumbrance_reduction"@ {
        RoleField::ModEncumbrance
    } else if key == "mod_max_health"@ || key == "mod_health"@ || key == "health_bonus"@ {
        RoleField::ModMaxHealth
    } else if key == "grant_effect"@ || key == "effect"@ {
        RoleField::GrantEffect
    } else if has_prefix(key, "mod_stat_"@) {
        RoleField::StatMod
    } else if has_prefix(key, "mod_skill_"@) {
        RoleField::SkillMod
    } else if key == "breakable"@ || key == "is_breakable"@ {
        RoleField::Breakable
    } else if key == "break_text"@ || key == "on_break"@ {
        RoleField::BreakText
    } else {
        RoleField::Ignored
    }
}

/// The setting a property key names.
pub fn classify_role_key(key: &str) -> (r: RoleField)
    ensures
        r == role_field(key@),
{
    if str_eq(key, "is_container") {
        return RoleField::IsContainer;
    }
    if str_eq(key, "is_open") || str_eq(key, "open") {
        return RoleField::IsOpen;
    }
    if str_eq(key, "capacity") {
        return RoleField::Capacity;
    }
    if str_eq(key, "max_weight") {
        return RoleField::MaxWeight;
    }
    if str_eq(key, "max_volume") {
        return RoleField::MaxVolume;
    }
    if str_eq(key, "is_wearable") {
        return RoleField::IsWearable;
    }
    if str_eq(key, "wear_slot") {
        return RoleField::WearSlot;
    }
    if str_eq(key, "weight") {
        return RoleField::Weight;
    }
    if str_eq(key, "volume") {
        return RoleField::Volume;
    }
    if str_eq(key, "pocketable") || str_eq(key, "is_pocketable") {
        return RoleField::Pocketable;
    }
    if str_eq(key, "stackable") {
        return RoleField::Stackable;
    }
    if str_eq(key, "stack_count") {
        return RoleField::StackCount;
    }
    if str_eq(key, "max_stack") {
        return RoleField::MaxStack;
    }
    if str_eq(key, "hand_slot") {
        return RoleField::HandSlot;
    }
    if str_eq(key, "readable") || str_eq(key, "is_readable") {
        return RoleField::Readable;
    }
    if str_eq(key, "read_text") || str_eq(key, "text") {
        return RoleField::ReadText;
    }
    if str_eq(key, "writable") || str_eq(key, "is_writable") {
        return RoleField::Writable;
    }
    if str_eq(key, "write_text") {
        return RoleField::WriteText;
    }
    if str_eq(key, "locked") || str_eq(key, "is_locked") {
        return RoleField::Locked;
    }
    if str_eq(key, "lock_id") {
        return RoleField::LockId;
    }
    if str_eq(key, "is_key") || str_eq(key, "key") {
        return RoleField::IsKey;
    }
    if str_eq(key, "key_consumable") || str_eq(key, "consumable_key") {
        return RoleField::KeyConsumable;
    }
    if str_eq(key, "lock_consumable") || str_eq(key, "consumable_lock") {
        return RoleField::LockConsumable;
    }
    if str_eq(key, "allowed_types") {
        return RoleField::AllowedTypes;
    }
    if str_eq(key, "is_door") || str_eq(key, "door") {
        return RoleField::IsDoor;
    }
    if str_eq(key, "is_window") || str_eq(key, "window") {
        return RoleField::IsWindow;
    }
    if str_eq(key, "portal_kind") || str_eq(key, "portal") {
        return RoleField::PortalKind;
    }
    if str_eq(key, "door_direction") || str_eq(key, "portal_direction") || str_eq(key, "direction") {
        return RoleField::DoorDirection;
    }
    if str_eq(key, "door_destination") || str_eq(key, "portal_destination") || str_eq(key, "destination") {
        return RoleField::DoorDestination;
    }
    if str_eq(key, "portal_passable") || str_eq(key, "passable") {
        return RoleField::PortalPassable;
    }
    if str_eq(key, "portal_transparent") || str_eq(key, "transparent") {
        return RoleField::PortalTransparent;
    }
    if str_eq(key, "mod_max_weight") || str_eq(key, "carry_bonus") || str_eq(key, "max_weight_bonus") {
        return RoleField::ModMaxWeight;
    }
    if str_eq(key, "mod_encumbrance") || str_eq(key, "encumbrance_factor") || str_eq(key, "encumbrance_reduction") {
        return RoleField::ModEncumbrance;
    }
    if str_eq(key, "mod_max_health") || str_eq(key, "mod_health") || str_eq(key, "health_bonus") {
        return RoleField::ModMaxHealth;
    }
    if str_eq(key, "grant_effect") || str_eq(key, "effect") {
        return RoleField::GrantEffect;
    }
    if crate::text::starts_with(key, "mod_stat_") {
        return RoleField::StatMod;
    }
    if crate::text::starts_with(key, "mod_skill_") {
        return RoleField::SkillMod;
    }
    if str_eq(key, "breakable") || str_eq(key, "is_breakable") {
        return RoleField::Breakable;
    }
    if str_eq(key, "break_text") || str_eq(key, "on_break") {
        return RoleField::BreakText;
    }
    RoleField::Ignored
}

/// One `key=value` setting applied to `p`; `floats` says which texts are
/// finite floats and their bits.
pub open spec fn role_step(
    p: RolePropsView,
    key: Seq<char>,
    value: Seq<char>,
    floats: spec_fn(Seq<char>) -> Option<u64>,
) -> RolePropsView {
    match role_field(key) {
        RoleField::IsContainer => RolePropsView { is_container: flag_text(value), ..p },
        RoleField::IsOpen => RolePropsView { is_open: flag_text(value), ..p },
        RoleField::Capacity => RolePropsView { capacity: u32_text(value), ..p },
        RoleField::MaxWeight => RolePropsView { max_weight: i64_opt(value), ..p },
        RoleField::MaxVolume => RolePropsView { max_volume: i64_opt(value), ..p },
        RoleField::IsWearable => RolePropsView { is_wearable: flag_text(value), ..p },
        RoleField::WearSlot => RolePropsView { wear_slot: Some(value), ..p },
        RoleField::Weight => RolePropsView { weight: floats(value), ..p },
        RoleField::Volume => RolePropsView { volume: floats(value), ..p },
        RoleField::Pocketable => RolePropsView { pocketable: flag_text(value), ..p },
        RoleField::Stackable => RolePropsView { stackable: flag_text(value), ..p },
        RoleField::StackCount => RolePropsView { stack_count: u32_text(value), ..p },
        RoleField::MaxStack => RolePropsView { max_stack: u32_text(value), ..p },
        RoleField::HandSlot => RolePropsView { hand_slot: Some(value), ..p },
        RoleField::Readable => RolePropsView { readable: flag_text(value), ..p },
        RoleField::ReadText => RolePropsView { read_text: Some(value), ..p },
        RoleField::Writable => RolePropsView { writable: flag_text(value), ..p },
        RoleField::WriteText => RolePropsView { write_text: Some(value), ..p },
        RoleField::Locked => RolePropsView { locked: flag_text(value), ..p },
        RoleField::LockId => RolePropsView { lock_id: Some(value), ..p },
        RoleField::IsKey => RolePropsView { is_key: flag_text(value), ..p },
        RoleField::KeyConsumable => RolePropsView { key_consumable: flag_text(value), ..p },
        RoleField::LockConsumable => RolePropsView { lock_consumable: flag_text(value), ..p },
        RoleField::AllowedTypes => RolePropsView { allowed_types: Some(value), ..p },
        RoleField::IsDoor => RolePropsView { is_door: flag_text(value), ..p },
        RoleField::IsWindow => RolePropsView { is_window: flag_text(value), ..p },
        RoleField::PortalKind => RolePropsView { portal_kind: Some(value), ..p },
        RoleField::DoorDirection => RolePropsView { door_direction: Some(value), ..p },
        RoleField::DoorDestination => RolePropsView { door_destination: Some(value), ..p },
        RoleField::PortalPassable => RolePropsView { portal_passable: flag_text(value), ..p },
        RoleField::PortalTransparent => RolePropsView { portal_transparent: flag_text(value), ..p },
        RoleField::ModMaxWeight => RolePropsView { mod_max_weight: i64_opt(value), ..p },
        RoleField::ModEncumbrance => RolePropsView { mod_encumbrance: floats(value), ..p },
        RoleField::ModMaxHealth => RolePropsView { mod_max_health: i64_opt(value), ..p },
        RoleField::Breakable => RolePropsView { breakable: flag_text(value), ..p },
        RoleField::BreakText => RolePropsView { break_text: Some(value), ..p },
        RoleField::GrantEffect => {
            let name = trim_seq(value);
            if name.len() > 0 && !p.grant_effects.contains(name) {
                RolePropsView { grant_effects: p.grant_effects.push(name), ..p }
            } else {
                p
            }
        },
        RoleField::StatMod => match i64_opt(value) {
            Some(v) => RolePropsView {
                stat_mods: p.stat_mods.insert(strip_all(key, "mod_stat_"@), v),
                ..p
            },
            None => p,
        },
        RoleField::SkillMod => match i64_opt(value) {
            Some(v) => RolePropsView {
                skill_mods: p.skill_mods.insert(strip_all(key, "mod_skill_"@), v),
                ..p
            },
            None => p,
        },
        RoleField::Ignored => p,
    }
}

/// The settings of `pairs`, applied in order to none.
pub open spec fn role_props_of(
    pairs: Seq<(Seq<char>, Seq<char>)>,
    floats: spec_fn(Seq<char>) -> Option<u64>,
) -> RolePropsView
    decreases pairs.len(),
{
    if pairs.len() == 0 {
        no_role_props()
    } else {
        let (k, v) = pairs.last();
        role_step(role_props_of(pairs.drop_last(), floats), k, v, floats)
    }
}

pub open spec fn pair_views(pairs: Seq<(&str, &str)>) -> Seq<(Seq<char>, Seq<char>)> {
    pairs.map_values(|kv: (&str, &str)| (kv.0@, kv.1@))
}

/// Adds `name` to `effects` unless it is already there.
fn add_effect(effects: &mut Vec<String>, name: &str)
    ensures
        views(final(effects)@) == (if views(old(effects)@).contains(name@) {
            views(old(effects)@)
        } else {
            views(old(effects)@).push(name@)
        }),
{
    if !names_contain(effects, name) {
        let ghost before = views(effects@);
        effects.push(owned(name));
        assert(views(effects@) =~= before.push(name@));
    }
}

impl MudlRoleProps {
    /// Apply one `key=value` setting.
    fn apply_pair<F: Fn(&str) -> Option<u64>>(&mut self, key: &str, value: &str, finite_float_bits: &F)
        requires
            old(self).wf(),
            reads_floats(*finite_float_bits),
        ensures
            final(self).wf(),
            final(self)@ == role_step(old(self)@, key@, value@, float_reading(*finite_float_bits)),
    {
        match classify_role_key(key) {
            RoleField::IsContainer => {
                self.is_container = Some(str_eq(value, "true"));
            },
            RoleField::IsOpen => {
                self.is_open = Some(str_eq(value, "true"));
            },
            RoleField::Capacity => {
                self.capacity = parse_u32(value);
            },
            RoleField::MaxWeight => {
                self.max_weight = parse_i64(value);
            },
            RoleField::MaxVolume => {
                self.max_volume = parse_i64(value);
            },
            RoleField::IsWearable => {
                self.is_wearable = Some(str_eq(value, "true"));
            },
            RoleField::WearSlot => {
                self.wear_slot = Some(owned(value));
            },
            RoleField::Weight => {
                self.weight = read_float(value, finite_float_bits);
            },
            RoleField::Volume => {
                self.volume = read_float(value, finite_float_bits);
            },
            RoleField::Pocketable => {
                self.pocketable = Some(str_eq(value, "true"));
            },
            RoleField::Stackable => {
                self.stackable = Some(str_eq(value, "true"));
            },
            RoleField::StackCount => {
                self.stack_count = parse_u32(value);
            },
            RoleField::MaxStack => {
                self.max_stack = parse_u32(value);
            },
            RoleField::HandSlot => {
                self.hand_slot = Some(owned(value));
            },
            RoleField::Readable => {
                self.readable = Some(str_eq(value, "true"));
            },
            RoleField::ReadText => {
                self.read_text = Some(owned(value));
            },
            RoleField::Writable => {
                self.writable = Some(str_eq(value, "true"));
            },
            RoleField::WriteText => {
                self.write_text = Some(owned(value));
            },
            RoleField::Locked => {
                self.locked = Some(str_eq(value, "true"));
            },
            RoleField::LockId => {
                self.lock_id = Some(owned(value));
            },
            RoleField::IsKey => {
                self.is_key = Some(str_eq(value, "true"));
            },
            RoleField::KeyConsumable => {
                self.key_consumable = Some(str_eq(value, "true"));
            },
            RoleField::LockConsumable => {
                self.lock_consumable = Some(str_eq(value, "true"));
            },
            RoleField::AllowedTypes => {
                self.allowed_types = Some(owned(value));
            },
            RoleField::IsDoor => {
                self.is_door = Some(str_eq(value, "true"));
            },
            RoleField::IsWindow => {
                self.is_window = Some(str_eq(value, "true"));
            },
            RoleField::PortalKind => {
                self.portal_kind = Some(owned(value));
            },
            RoleField::DoorDirection => {
                self.door_direction = Some(owned(value));
            },
            RoleField::DoorDestination => {
                self.door_destination = Some(owned(value));
            },
            RoleField::PortalPassable => {
                self.portal_passable = Some(str_eq(value, "true"));
            },
            RoleField::PortalTransparent => {
                self.portal_transparent = Some(str_eq(value, "true"));
            },
            RoleField::ModMaxWeight => {
                self.mod_max_weight = parse_i64(value);
            },
            RoleField::ModEncumbrance => {
                self.mod_encumbrance = read_float(value, finite_float_bits);
            },
            RoleField::ModMaxHealth => {
                self.mod_max_health = parse_i64(value);
            },
            RoleField::Breakable => {
                self.breakable = Some(str_eq(value, "true"));
            },
            RoleField::BreakText => {
                self.break_text = Some(owned(value));
            },
            RoleField::GrantEffect => {
                let name = trim(value);
                if name.unicode_len() > 0 {
                    add_effect(&mut self.grant_effects, name);
                }
            },
            RoleField::StatMod => {
                proof {
                    reveal_strlit("mod_stat_");
                }
                if let Some(v) = parse_i64(value) {
                    let stat = owned(strip_all_str(key, "mod_stat_"));
                    put_int(&mut self.stat_mods, stat, v);
                }
            },
            RoleField::SkillMod => {
                proof {
                    reveal_strlit("mod_skill_");
                }
                if let Some(v) = parse_i64(value) {
                    let skill = owned(strip_all_str(key, "mod_skill_"));
                    put_int(&mut self.skill_mods, skill, v);
                }
            },
            RoleField::Ignored => {},
        }
    }

    /// Parse simple `key=value` pairs from MUDL property lines; whether a
    /// value is a finite float, and its bits, is what `finite_float_bits` says.
    pub fn from_pairs<F: Fn(&str) -> Option<u64>>(pairs: &[(&str, &str)], finite_float_bits: &F) -> (r: Self)
        requires
            reads_floats(*finite_float_bits),
        ensures
            r.wf(),
            r@ == role_props_of(pair_views(pairs@), float_reading(*finite_float_bits)),
    {
        let mut props = MudlRoleProps::default();
        let mut i: usize = 0;
        while i < pairs.len()
            invariant
                0 <= i <= pairs@.len(),
                reads_floats(*finite_float_bits),
                props.wf(),
                props@ == role_props_of(pair_views(pairs@).take(i as int), float_reading(*finite_float_bits)),
            decreases pairs@.len() - i,
        {
            let (k, v) = pairs[i];
            assert(pair_views(pairs@).take(i + 1).drop_last() =~= pair_views(pairs@).take(i as int));
            assert(pair_views(pairs@).take(i + 1).last() == (k@, v@));
            props.apply_pair(k, v, finite_float_bits);
            i += 1;
        }
        assert(pair_views(pairs@).take(pairs@.len() as int) =~= pair_views(pairs@));
        props
    }

    /// Whether any scalar property overrides are present (weight, hand_slot, etc.).
    pub fn has_scalar_overrides(&self) -> (r: bool)
        ensures
            r == (self.weight is Some || self.volume is Some || self.pocketable is Some
                || self.hand_slot is Some || self.mod_max_weight is Some || self.mod_encumbrance is Some
                || self.mod_max_health is Some || self.stat_mods@.len() > 0 || self.skill_mods@.len() > 0
                || self.grant_effects@.len() > 0),
    {
        self.weight.is_some() || self.volume.is_some() || self.pocketable.is_some()
            || self.hand_slot.is_some() || self.mod_max_weight.is_some()
            || self.mod_encumbrance.is_some() || self.mod_max_health.is_some()
            || self.stat_mods.len() > 0 || self.skill_mods.len() > 0
            || self.grant_effects.len() > 0
    }
}

} // verus!
