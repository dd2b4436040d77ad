//! Weights, volumes and carry modifiers written onto objects. Their numbers
//! are `f64` values carried as bit patterns; what storing such a number puts
//! in a property, and whether an encumbrance factor changes anything, are
//! floating-point questions answered by functions the caller passes in.

use vstd::prelude::*;

use super::setup::{has_bool, has_text, lemma_role_property_names};
use super::{changes_only, kept, Object, Value};

verus! {

/// `n` gives, for the bits of an `f64`, the value that storing the number puts
/// in a property; it gives one value for each number.
pub open spec fn stores_numbers<N: Fn(u64) -> Value>(n: N) -> bool {
    &&& forall|b: u64| #[trigger] n.requires((b,))
    &&& forall|b: u64, v1: Value, v2: Value|
        #![trigger n.ensures((b,), v1), n.ensures((b,), v2)]
        n.ensures((b,), v1) && n.ensures((b,), v2) ==> v1 == v2
}

/// The numeric store `n` as a function of the number's bits.
pub open spec fn numeric_reading<N: Fn(u64) -> Value>(n: N) -> spec_fn(u64) -> Value {
    |b: u64| choose|v: Value| #[trigger] n.ensures((b,), v)
}

/// `l` says, for the bits of an `f64` encumbrance factor, whether it is a
/// finite factor that changes the load; it gives one answer for each number.
pub open spec fn judges_factors<L: Fn(u64) -> bool>(l: L) -> bool {
    &&& forall|b: u64| #[trigger] l.requires((b,))
    &&& forall|b: u64, x: bool, y: bool|
        #![trigger l.ensures((b,), x), l.ensures((b,), y)]
        l.ensures((b,), x) && l.ensures((b,), y) ==> x == y
}

/// The factor judgement `l` as a function of the factor's bits.
pub open spec fn factor_reading<L: Fn(u64) -> bool>(l: L) -> spec_fn(u64) -> bool {
    |b: u64| choose|x: bool| #[trigger] l.ensures((b,), x)
}

pub(crate) fn numeric_value<N: Fn(u64) -> Value>(bits: u64, numeric: &N) -> (r: Value)
    requires
        stores_numbers(*numeric),
    ensures
        r == numeric_reading(*numeric)(bits),
{
    let v = numeric(bits);
    assert(numeric.ensures((bits,), v));
    v
}

pub(crate) fn changes_load<L: Fn(u64) -> bool>(bits: u64, load: &L) -> (r: bool)
    requires
        judges_factors(*load),
    ensures
        r == factor_reading(*load)(bits),
{
    let x = load(bits);
    assert(load.ensures((bits,), x));
    x
}

/// What giving an item its weight `w`, volume `v` and pocketability writes:
/// the two numbers, and the container and wearable flags as `false` where
/// the object has no such role.
pub open spec fn phys_applied(
    before: Object,
    after: Object,
    w: u64,
    v: u64,
    pocketable: bool,
    num: spec_fn(u64) -> Value,
) -> bool {
    &&& changes_only(
        before,
        after,
        set!["weight"@, "volume"@, "is_pocketable"@, "is_container"@, "is_wearable"@],
    )
    &&& after.value_of("weight"@) == Some(num(w))
    &&& after.value_of("volume"@) == Some(num(v))
    &&& has_bool(after, "is_pocketable"@, pocketable)
    &&& if before.container_role() {
        kept(before, after, "is_container"@)
    } else {
        has_bool(after, "is_container"@, false)
    }
    &&& if before.wearable_role() {
        kept(before, after, "is_wearable"@)
    } else {
        has_bool(after, "is_wearable"@, false)
    }
}

/// What carry modifiers write, beside the other properties: a non-zero weight
/// bonus, and a factor that changes the load.
pub open spec fn carry_facts(
    before: Object,
    after: Object,
    bonus: Option<i64>,
    factor: Option<u64>,
    num: spec_fn(u64) -> Value,
    load: spec_fn(u64) -> bool,
) -> bool {
    &&& match bonus {
        Some(b) => if b != 0 {
            after.int_prop("mod_max_weight"@) == Some(b)
        } else {
            kept(before, after, "mod_max_weight"@)
        },
        None => kept(before, after, "mod_max_weight"@),
    }
    &&& match factor {
        Some(f) => if load(f) {
            after.value_of("mod_encumbrance"@) == Some(num(f))
        } else {
            kept(before, after, "mod_encumbrance"@)
        },
        None => kept(before, after, "mod_encumbrance"@),
    }
}

pub open spec fn carry_applied(
    before: Object,
    after: Object,
    bonus: Option<i64>,
    factor: Option<u64>,
    num: spec_fn(u64) -> Value,
    load: spec_fn(u64) -> bool,
) -> bool {
    &&& changes_only(before, after, set!["mod_max_weight"@, "mod_encumbrance"@])
    &&& carry_facts(before, after, bonus, factor, num, load)
}

/// What gear modifiers write, beside the other properties: a health bonus
/// (when non-zero), stat and skill modifiers and granted effects (each when
/// non-empty).
pub open spec fn equipment_facts(
    before: Object,
    after: Object,
    health: Option<i64>,
    stats: Seq<(String, i64)>,
    skills: Seq<(String, i64)>,
    effects: Seq<String>,
) -> bool {
    &&& match health {
        Some(b) => if b != 0 {
            after.int_prop("mod_max_health"@) == Some(b)
        } else {
            kept(before, after, "mod_max_health"@)
        },
        None => kept(before, after, "mod_max_health"@),
    }
    &&& (stats.len() > 0 ==> after.int_map("mod_stats"@) == stats)
    &&& (stats.len() == 0 ==> kept(before, after, "mod_stats"@))
    &&& (skills.len() > 0 ==> after.int_map("mod_skills"@) == skills)
    &&& (skills.len() == 0 ==> kept(before, after, "mod_skills"@))
    &&& (effects.len() > 0 ==> after.string_list("grant_effects"@) == effects)
    &&& (effects.len() == 0 ==> kept(before, after, "grant_effects"@))
}

pub open spec fn equipment_names() -> Set<Seq<char>> {
    set!["mod_max_health"@, "mod_stats"@, "mod_skills"@, "grant_effects"@]
}

pub open spec fn equipment_applied(
    before: Object,
    after: Object,
    health: Option<i64>,
    stats: Seq<(String, i64)>,
    skills: Seq<(String, i64)>,
    effects: Seq<String>,
) -> bool {
    &&& changes_only(before, after, equipment_names())
    &&& equipment_facts(before, after, health, stats, skills, effects)
}

/// The properties wearing writes.
pub open spec fn wearable_names() -> Set<Seq<char>> {
    set![
        "is_wearable"@,
        "wear_slot"@,
        "weight"@,
        "volume"@,
        "mod_max_weight"@,
        "mod_encumbrance"@,
        "mod_max_health"@,
        "mod_stats"@,
        "mod_skills"@,
        "grant_effects"@,
    ]
}

/// What making an item wearable on `slot` writes: the flag and slot, its
/// weight and volume, its carry modifiers and its gear modifiers.
pub open spec fn wearable_applied(
    before: Object,
    after: Object,
    slot: Seq<char>,
    w: u64,
    v: u64,
    bonus: Option<i64>,
    factor: Option<u64>,
    health: Option<i64>,
    stats: Seq<(String, i64)>,
    skills: Seq<(String, i64)>,
    effects: Seq<String>,
    num: spec_fn(u64) -> Value,
    load: spec_fn(u64) -> bool,
) -> bool {
    &&& changes_only(before, after, wearable_names())
    &&& has_bool(after, "is_wearable"@, true)
    &&& has_text(after, "wear_slot"@, slot)
    &&& after.value_of("weight"@) == Some(num(w))
    &&& after.value_of("volume"@) == Some(num(v))
    &&& carry_facts(before, after, bonus, factor, num, load)
    &&& equipment_facts(before, after, health, stats, skills, effects)
}

impl Object {
    /// Stores the number with bits `bits` under `name`, as `numeric` says.
    pub fn set_property_numeric_with<N: Fn(u64) -> Value>(&mut self, name: &str, bits: u64, numeric: &N)
        requires
            old(self).wf(),
            stores_numbers(*numeric),
        ensures
            changes_only(*old(self), *final(self), set![name@]),
            final(self).value_of(name@) == Some(numeric_reading(*numeric)(bits)),
    {
        let v = numeric_value(bits, numeric);
        self.set_property_value(name, v);
    }

    /// Gives an item its weight, volume and pocketability.
    pub fn apply_item_phys_with<N: Fn(u64) -> Value>(
        &mut self,
        weight: u64,
        volume: u64,
        pocketable: bool,
        numeric: &N,
    )
        requires
            old(self).wf(),
            stores_numbers(*numeric),
        ensures
            phys_applied(*old(self), *final(self), weight, volume, pocketable, numeric_reading(*numeric)),
    {
        proof {
            lemma_role_property_names();
        }
        self.set_property_numeric_with("weight", weight, numeric);
        self.set_property_numeric_with("volume", volume, numeric);
        self.set_property_bool("is_pocketable", pocketable);
        if !self.has_container_role() {
            self.set_property_bool("is_container", false);
        }
        if !self.has_wearable_role() {
            self.set_property_bool("is_wearable", false);
        }
    }

    /// Records carry modifiers that apply while the item is worn: a non-zero
    /// weight bonus, and an encumbrance factor that changes the load.
    pub fn apply_carry_modifiers_with<N: Fn(u64) -> Value, L: Fn(u64) -> bool>(
        &mut self,
        max_weight_bonus: Option<i64>,
        encumbrance_factor: Option<u64>,
        numeric: &N,
        load: &L,
    )
        requires
            old(self).wf(),
            stores_numbers(*numeric),
            judges_factors(*load),
        ensures
            carry_applied(
                *old(self),
                *final(self),
                max_weight_bonus,
                encumbrance_factor,
                numeric_reading(*numeric),
                factor_reading(*load),
            ),
    {
        proof {
            reveal_strlit("mod_max_weight");
            reveal_strlit("mod_encumbrance");
            assert("mod_max_weight"@.len() == 14 && "mod_encumbrance"@.len() == 15);
        }
        let ghost before = *self;
        if let Some(bonus) = max_weight_bonus {
            if bonus != 0 {
                self.set_property_int("mod_max_weight", bonus);
            }
        }
        if let Some(factor) = encumbrance_factor {
            if changes_load(factor, load) {
                let ghost mid = *self;
                self.set_property_numeric_with("mod_encumbrance", factor, numeric);
                assert(kept(mid, *self, "mod_max_weight"@));
            }
        }
        assert(changes_only(before, *self, set!["mod_max_weight"@, "mod_encumbrance"@]));
    }

    /// Makes the item wearable on `slot`, with its weight, volume, carry
    /// modifiers and gear modifiers.
    pub fn apply_wearable_with<N: Fn(u64) -> Value, L: Fn(u64) -> bool>(
        &mut self,
        slot: &str,
        weight: u64,
        volume: u64,
        mod_max_weight: Option<i64>,
        mod_encumbrance: Option<u64>,
        mod_max_health: Option<i64>,
        stat_mods: Vec<(String, i64)>,
        skill_mods: Vec<(String, i64)>,
        grant_effects: Vec<String>,
        numeric: &N,
        load: &L,
    )
        requires
            old(self).wf(),
            stores_numbers(*numeric),
            judges_factors(*load),
        ensures
            wearable_applied(
                *old(self),
                *final(self),
                slot@,
                weight,
                volume,
                mod_max_weight,
                mod_encumbrance,
                mod_max_health,
                stat_mods@,
                skill_mods@,
                grant_effects@,
                numeric_reading(*numeric),
                factor_reading(*load),
            ),
    {
        proof {
            lemma_role_property_names();
        }
        proof {
            reveal_strlit("mod_max_weight");
            reveal_strlit("mod_encumbrance");
            assert("mod_max_weight"@.len() == 14 && "mod_max_weight"@[8] == 'w');
            assert("mod_encumbrance"@.len() == 15);
            reveal_strlit("mod_max_health");
            assert("mod_max_health"@[8] == 'h');
            assert("mod_max_weight"@ != "mod_max_health"@);
        }
        let ghost o0 = *self;
        self.set_property_bool("is_wearable", true);
        self.set_property_string("wear_slot", slot);
        self.set_property_numeric_with("weight", weight, numeric);
        self.set_property_numeric_with("volume", volume, numeric);
        let ghost o4 = *self;
        assert(changes_only(o0, o4, set!["is_wearable"@, "wear_slot"@, "weight"@, "volume"@]));
        assert(kept(o0, o4, "mod_max_weight"@) && kept(o0, o4, "mod_encumbrance"@));
        assert(kept(o0, o4, "mod_max_health"@) && kept(o0, o4, "mod_stats"@));
        assert(kept(o0, o4, "mod_skills"@) && kept(o0, o4, "grant_effects"@));
        self.apply_carry_modifiers_with(mod_max_weight, mod_encumbrance, numeric, load);
        let ghost o5 = *self;
        assert(carry_facts(o0, o5, mod_max_weight, mod_encumbrance, numeric_reading(*numeric), factor_reading(*load)));
        assert(o5.value_of("weight"@) == o4.value_of("weight"@));
        assert(o5.value_of("volume"@) == o4.value_of("volume"@));
        assert(o5.value_of("is_wearable"@) == o4.value_of("is_wearable"@));
        assert(o5.value_of("wear_slot"@) == o4.value_of("wear_slot"@));
        assert(kept(o0, o5, "mod_max_health"@) && kept(o0, o5, "mod_stats"@));
        assert(kept(o0, o5, "mod_skills"@) && kept(o0, o5, "grant_effects"@));
        self.apply_equipment_mods(mod_max_health, stat_mods, skill_mods, grant_effects);
        assert(self.value_of("weight"@) == o4.value_of("weight"@));
        assert(self.value_of("volume"@) == o4.value_of("volume"@));
        assert(self.value_of("is_wearable"@) == o4.value_of("is_wearable"@));
        assert(self.value_of("wear_slot"@) == o4.value_of("wear_slot"@));
        assert(kept(o5, *self, "mod_max_weight"@) && kept(o5, *self, "mod_encumbrance"@));
    }
}

} // verus!
