//! Building objects from prototypes.

use vstd::prelude::*;

use super::{same_contents, same_frame, Behavior, Object, Property, Value};
use super::weight::world_wf;
use super::world::{find_obj, find_object, lemma_find_obj};
use crate::assoc::get_entry;

verus! {

/// The properties a new instance takes from its prototype.
pub open spec fn prototype_default_keys() -> Seq<Seq<char>> {
    seq![
        "weight"@,
        "volume"@,
        "is_container"@,
        "is_open"@,
        "is_wearable"@,
        "is_pocketable"@,
        "capacity"@,
        "max_weight"@,
        "max_volume"@,
        "wear_slot"@,
        "hand_slot"@,
        "stackable"@,
        "max_stack"@,
        "description"@,
        "is_readable"@,
        "read_text"@,
        "is_writable"@,
        "write_text"@,
        "lock_id"@,
        "is_locked"@,
        "lock_consumable"@,
        "is_key"@,
        "key_consumable"@,
        "is_portal"@,
        "is_door"@,
        "is_window"@,
        "portal_kind"@,
        "portal_passable"@,
        "portal_transparent"@,
        "mod_max_weight"@,
        "mod_encumbrance"@,
        "mod_max_health"@,
        "mod_stats"@,
        "mod_skills"@,
        "grant_effects"@,
        "door_direction"@,
        "door_destination_base"@,
        "allowed_types"@,
        "is_breakable"@,
        "break_text"@,
        "harvestable"@,
        "hidden_until_discovered"@,
        "discovery_stealth"@,
    ]
}

fn prototype_default_list() -> (r: Vec<&'static str>)
    ensures
        r@.map_values(|s: &str| s@) == prototype_default_keys(),
{
    let r = vec![
        "weight",
        "volume",
        "is_container",
        "is_open",
        "is_wearable",
        "is_pocketable",
        "capacity",
        "max_weight",
        "max_volume",
        "wear_slot",
        "hand_slot",
        "stackable",
        "max_stack",
        "description",
        "is_readable",
        "read_text",
        "is_writable",
        "write_text",
        "lock_id",
        "is_locked",
        "lock_consumable",
        "is_key",
        "key_consumable",
        "is_portal",
        "is_door",
        "is_window",
        "portal_kind",
        "portal_passable",
        "portal_transparent",
        "mod_max_weight",
        "mod_encumbrance",
        "mod_max_health",
        "mod_stats",
        "mod_skills",
        "grant_effects",
        "door_direction",
        "door_destination_base",
        "allowed_types",
        "is_breakable",
        "break_text",
        "harvestable",
        "hidden_until_discovered",
        "discovery_stealth",
    ];
    assert(r@.map_values(|s: &str| s@) =~= prototype_default_keys());
    r
}

/// `b` is a copy of `a`: the same name, permissions and behaviour, and a
/// value with the same contents.
pub open spec fn same_property(a: Property, b: Property) -> bool {
    &&& a.name == b.name
    &&& a.permissions == b.permissions
    &&& a.behavior == b.behavior
    &&& same_contents(a.value, b.value)
}

/// A copy of a property.
pub fn copy_property(p: &Property) -> (r: Property)
    ensures
        same_property(*p, r),
{
    Property {
        name: p.name.clone(),
        value: super::copy_value(&p.value),
        permissions: p.permissions,
        behavior: match &p.behavior {
            Some(b) => Some(Behavior { code: b.code.clone(), permissions: b.permissions }),
            None => None,
        },
    }
}

/// Creates objects; holds the store that new objects are written to.
pub struct ObjectFactory<P> {
    persistence: P,
}

impl<P> ObjectFactory<P> {
    pub fn new(persistence: P) -> (r: Self)
        ensures
            r.persistence_spec() == persistence,
    {
        ObjectFactory { persistence }
    }

    pub closed spec fn persistence_spec(&self) -> P {
        self.persistence
    }

    /// The store new objects are written to.
    pub fn persistence(&self) -> (r: &P)
        ensures
            *r == self.persistence_spec(),
    {
        &self.persistence
    }

    /// Points `target` at `prototype` and copies the prototype's role and
    /// physical properties (those of [`prototype_default_keys`]) onto it.
    pub fn apply_prototype_defaults(&self, target: &mut Object, prototype: &Object)
        requires
            old(target).wf(),
            prototype.wf(),
        ensures
            final(target).wf(),
            final(target).prototype == Some(prototype.id),
            final(target).id == old(target).id,
            final(target).name == old(target).name,
            final(target).aliases == old(target).aliases,
            final(target).location == old(target).location,
            final(target).owner == old(target).owner,
            final(target).permissions == old(target).permissions,
            final(target).is_deleted == old(target).is_deleted,
            final(target).deleted_at == old(target).deleted_at,
            final(target).revision == old(target).revision,
            final(target).updated_at == old(target).updated_at,
            final(target).verbs == old(target).verbs,
            final(target).event_handlers == old(target).event_handlers,
            forall|k: Seq<char>|
                prototype_default_keys().contains(k) && prototype.props().contains_key(k) ==> {
                    &&& #[trigger] final(target).props().contains_key(k)
                    &&& same_property(prototype.props()[k], final(target).props()[k])
                },
            forall|k: Seq<char>|
                !(prototype_default_keys().contains(k) && prototype.props().contains_key(k))
                    ==> #[trigger] final(target).prop_opt(k) == old(target).prop_opt(k),
    {
        target.prototype = Some(prototype.id.clone());
        let keys = prototype_default_list();
        let ghost ks = prototype_default_keys();
        let ghost t0 = *target;
        let mut i: usize = 0;
        while i < keys.len()
            invariant
                0 <= i <= keys@.len(),
                keys@.map_values(|s: &str| s@) == ks,
                ks == prototype_default_keys(),
                prototype.wf(),
                target.wf(),
                same_frame(t0, *target),
                target.verbs == t0.verbs,
                target.event_handlers == t0.event_handlers,
                forall|k: Seq<char>|
                    ks.take(i as int).contains(k) && prototype.props().contains_key(k) ==> {
                        &&& #[trigger] target.props().contains_key(k)
                        &&& same_property(prototype.props()[k], target.props()[k])
                    },
                forall|k: Seq<char>|
                    !(ks.take(i as int).contains(k) && prototype.props().contains_key(k))
                        ==> #[trigger] target.prop_opt(k) == t0.prop_opt(k),
            decreases keys@.len() - i,
        {
            let key = keys[i];
            assert(ks[i as int] == key@);
            assert(ks.take(i + 1) =~= ks.take(i as int).push(key@));
            if let Some(prop) = get_entry(&prototype.properties, key) {
                let copy = copy_property(prop);
                let ghost t1 = *target;
                target.add_property(copy);
                assert forall|k: Seq<char>|
                    ks.take(i + 1).contains(k) && prototype.props().contains_key(k) implies {
                    &&& #[trigger] target.props().contains_key(k)
                    &&& same_property(prototype.props()[k], target.props()[k])
                } by {
                    if k != key@ {
                        assert(ks.take(i as int).contains(k));
                        assert(t1.props().contains_key(k));
                        assert(t1.prop_opt(k) == target.prop_opt(k));
                    }
                }
                assert forall|k: Seq<char>|
                    !(ks.take(i + 1).contains(k) && prototype.props().contains_key(k)) implies #[trigger] target.prop_opt(k)
                    == t0.prop_opt(k) by {
                    if k != key@ {
                        assert(!(ks.take(i as int).contains(k) && prototype.props().contains_key(k)));
                        assert(t1.prop_opt(k) == target.prop_opt(k));
                    } else {
                        assert(ks.take(i + 1)[i as int] == key@);
                        assert(prototype.props().contains_key(key@));
                    }
                }
            } else {
                assert forall|k: Seq<char>|
                    ks.take(i + 1).contains(k) && prototype.props().contains_key(k) implies {
                    &&& #[trigger] target.props().contains_key(k)
                    &&& same_property(prototype.props()[k], target.props()[k])
                } by {
                    if k != key@ {
                        assert(ks.take(i as int).contains(k));
                    }
                }
                assert forall|k: Seq<char>|
                    !(ks.take(i + 1).contains(k) && prototype.props().contains_key(k)) implies #[trigger] target.prop_opt(k)
                    == t0.prop_opt(k) by {
                    if k != key@ {
                        assert(!(ks.take(i as int).contains(k) && prototype.props().contains_key(k)));
                    } else {
                        assert(!(ks.take(i as int).contains(k) && prototype.props().contains_key(k)));
                    }
                }
            }
            i += 1;
        }
        assert(ks.take(keys@.len() as int) =~= ks);
    }
}

/// Property `name` looked up on `o` and then along its prototype chain in
/// `objs`, following at most `n` prototypes: `Some(found)` once the lookup
/// ends (`found` is `None` when the chain ends without the property), `None`
/// when `n` prototypes were not enough.
pub open spec fn inherited(objs: Seq<Object>, o: Object, name: Seq<char>, n: nat) -> Option<Option<Property>>
    decreases n,
{
    if o.props().contains_key(name) {
        Some(Some(o.props()[name]))
    } else {
        match o.prototype {
            None => Some(None),
            Some(pid) => match find_obj(objs, pid@) {
                None => Some(None),
                Some(p) => if n == 0 {
                    None
                } else {
                    inherited(objs, p, name, (n - 1) as nat)
                },
            },
        }
    }
}

/// The prototype chain of `o` reaches an end (or the property) within some
/// number of steps; it is not a cycle without the property.
pub open spec fn lookup_ends(objs: Seq<Object>, o: Object, name: Seq<char>) -> bool {
    exists|n: nat| #[trigger] inherited(objs, o, name, n) is Some
}

/// Allowing the lookup more prototype steps than it needs does not change its
/// result, so the property found does not depend on the bound chosen.
pub proof fn law_inherited_stable(objs: Seq<Object>, o: Object, name: Seq<char>, n: nat, m: nat)
    requires
        inherited(objs, o, name, n) is Some,
        n <= m,
    ensures
        inherited(objs, o, name, m) == inherited(objs, o, name, n),
    decreases n,
{
    if !o.props().contains_key(name) {
        if let Some(pid) = o.prototype {
            if let Some(p) = find_obj(objs, pid@) {
                law_inherited_stable(objs, p, name, (n - 1) as nat, (m - 1) as nat);
            }
        }
    }
}

/// The property `name` that `o` has or inherits, when its lookup ends.
pub open spec fn inherited_property(objs: Seq<Object>, o: Object, name: Seq<char>) -> Option<Property> {
    match inherited(objs, o, name, choose|n: nat| #[trigger] inherited(objs, o, name, n) is Some) {
        Some(Some(p)) => Some(p),
        _ => None,
    }
}

impl Object {
    /// Property `name` of this object, or else inherited along its prototype
    /// chain through `objects` (the world the prototypes are found in).
    pub fn resolve_inherited_property(&self, name: &str, objects: &Vec<Object>) -> (r: Option<Property>)
        requires
            self.wf(),
            world_wf(objects@),
            lookup_ends(objects@, *self, name@),
        ensures
            match inherited_property(objects@, *self, name@) {
                Some(p) => r matches Some(q) && same_property(p, q),
                None => r is None,
            },
    {
        let ghost n0 = choose|n: nat| #[trigger] inherited(objects@, *self, name@, n) is Some;
        let ghost result = inherited(objects@, *self, name@, n0);
        assert(result is Some);
        assert(inherited_property(objects@, *self, name@) == match result {
            Some(Some(p)) => Some(p),
            _ => None::<Property>,
        });
        let ghost mut fuel: nat = n0;
        let mut cur: &Object = self;
        loop
            invariant
                world_wf(objects@),
                cur.wf(),
                inherited(objects@, *cur, name@, fuel) == result,
                result is Some,
                inherited_property(objects@, *self, name@) == match result {
                    Some(Some(p)) => Some(p),
                    _ => None::<Property>,
                },
            decreases fuel,
        {
            if let Some(p) = get_entry(&cur.properties, name) {
                return Some(copy_property(p));
            }
            match &cur.prototype {
                None => {
                    return None;
                },
                Some(pid) => match find_object(objects, pid) {
                    None => {
                        return None;
                    },
                    Some(p) => {
                        proof {
                            lemma_find_obj(objects@, pid@);
                            let j = choose|j: int| 0 <= j < objects@.len() && objects@[j] == *p;
                            assert(objects@[j].wf());
                            fuel = (fuel - 1) as nat;
                        }
                        cur = p;
                    },
                },
            }
        }
    }
}

} // verus!
