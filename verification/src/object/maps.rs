//! Map-valued properties (exits, body slots) and the descriptive string properties.

use vstd::prelude::*;

use super::roles::ref_entries;
use super::world::{contains_id, holds_id};
use super::{changes_only, same_id, Object, ObjectId, Property, Value};
use crate::assoc::{get_entry, has_key, insert_entry, lemma_key_index, remove_entry, table, unique_keys};
use crate::text::owned;

verus! {

/// `ref_entries` keeps at most the entries it was given.
pub proof fn lemma_ref_entries_len(es: Seq<(String, Value)>)
    ensures
        ref_entries(es).len() <= es.len(),
    decreases es.len(),
{
    if es.len() > 0 {
        lemma_ref_entries_len(es.drop_last());
    }
}

/// When `ref_entries` keeps every entry, each entry is an object reference with the same key.
pub proof fn lemma_ref_entries_full(es: Seq<(String, Value)>)
    requires
        ref_entries(es).len() == es.len(),
    ensures
        forall|i: int|
            0 <= i < es.len() ==> #[trigger] es[i].0 == ref_entries(es)[i].0 && es[i].1
                == Value::ObjectRef(ref_entries(es)[i].1),
    decreases es.len(),
{
    if es.len() > 0 {
        let d = es.drop_last();
        lemma_ref_entries_len(d);
        match es.last().1 {
            Value::ObjectRef(_) => {
                lemma_ref_entries_full(d);
                assert forall|i: int| 0 <= i < es.len() implies #[trigger] es[i].0 == ref_entries(es)[i].0
                    && es[i].1 == Value::ObjectRef(ref_entries(es)[i].1) by {
                    if i < d.len() {
                        assert(es[i] == d[i]);
                    }
                }
            },
            _ => {},
        }
    }
}

/// The keys `ref_entries` keeps are keys of the original entries; distinct keys stay distinct.
pub proof fn lemma_ref_entries_keys(es: Seq<(String, Value)>)
    ensures
        forall|k: Seq<char>| #[trigger] has_key(ref_entries(es), k) ==> has_key(es, k),
        unique_keys(es) ==> unique_keys(ref_entries(es)),
    decreases es.len(),
{
    if es.len() > 0 {
        let d = es.drop_last();
        lemma_ref_entries_keys(d);
        let r = ref_entries(es);
        let rd = ref_entries(d);
        assert forall|k: Seq<char>| #[trigger] has_key(r, k) implies has_key(es, k) by {
            let i = choose|i: int| 0 <= i < r.len() && r[i].0@ == k;
            if i < rd.len() {
                assert(r[i] == rd[i]);
                assert(has_key(rd, k));
                let j = choose|j: int| 0 <= j < d.len() && d[j].0@ == k;
                assert(es[j] == d[j]);
            } else {
                assert(es[es.len() - 1].0@ == k);
            }
        }
        if unique_keys(es) {
            assert(unique_keys(d)) by {
                assert forall|a: int, b: int|
                    0 <= a < d.len() && 0 <= b < d.len() && a != b implies d[a].0@ != d[b].0@ by {
                    assert(d[a] == es[a] && d[b] == es[b]);
                }
            }
            match es.last().1 {
                Value::ObjectRef(_) => {
                    assert forall|a: int, b: int|
                        0 <= a < r.len() && 0 <= b < r.len() && a != b implies r[a].0@ != r[b].0@ by {
                        if a < rd.len() && b < rd.len() {
                            assert(r[a] == rd[a] && r[b] == rd[b]);
                        } else {
                            let x = if a < rd.len() { a } else { b };
                            assert(r[x] == rd[x]);
                            assert(has_key(rd, rd[x].0@));
                            assert(has_key(d, rd[x].0@));
                            let j = choose|j: int| 0 <= j < d.len() && d[j].0@ == rd[x].0@;
                            assert(es[j] == d[j]);
                        }
                    }
                },
                _ => {},
            }
        }
    }
}

/// `t` without the entries that refer to `id`.
pub open spec fn without_ref(t: Map<Seq<char>, ObjectId>, id: ObjectId) -> Map<Seq<char>, ObjectId> {
    Map::new(|k: Seq<char>| t.contains_key(k) && t[k]@ != id@, |k: Seq<char>| t[k])
}

/// Some entry of `es` refers to an object with the view `x`.
pub open spec fn refers_to(es: Seq<(String, ObjectId)>, x: Seq<char>) -> bool {
    exists|j: int| 0 <= j < es.len() && #[trigger] es[j].1@ == x
}

/// The active objects of `objs` located in `id`, in order.
pub open spec fn located_in(objs: Seq<Object>, id: Seq<char>) -> Seq<Object>
    decreases objs.len(),
{
    if objs.len() == 0 {
        Seq::empty()
    } else {
        let prev = located_in(objs.drop_last(), id);
        let o = objs.last();
        if !o.is_deleted && (o.location matches Some(l) && l@ == id) {
            prev.push(o)
        } else {
            prev
        }
    }
}

/// The objects behind a sequence of references.
pub open spec fn deref_objects(v: Seq<&Object>) -> Seq<Object> {
    v.map_values(|o: &Object| *o)
}

impl Object {
    /// Mapping property `name`, when present, has one entry per key.
    pub open spec fn keyed_map(&self, name: Seq<char>) -> bool {
        match self.value_of(name) {
            Some(Value::Mapping(es)) => unique_keys(es@),
            _ => true,
        }
    }

    /// Mapping property `name` read as a map from keys to values (empty when absent).
    pub open spec fn entry_table(&self, name: Seq<char>) -> Map<Seq<char>, Value> {
        match self.value_of(name) {
            Some(Value::Mapping(es)) => table(es@).map_values(|e: (String, Value)| e.1),
            _ => Map::empty(),
        }
    }

    /// The object references of mapping property `name`, by key.
    pub open spec fn ref_table(&self, name: Seq<char>) -> Map<Seq<char>, ObjectId> {
        table(self.ref_map(name)).map_values(|e: (String, ObjectId)| e.1)
    }

    /// Mapping property `name` holds only object references, one per key.
    pub open spec fn ref_only_map(&self, name: Seq<char>) -> bool {
        match self.value_of(name) {
            Some(Value::Mapping(es)) => {
                &&& unique_keys(es@)
                &&& forall|i: int| 0 <= i < es@.len() ==> (#[trigger] es@[i]).1 is ObjectRef
            },
            _ => false,
        }
    }

    /// The creature (or legacy body plan) this object is made of.
    pub open spec fn creature_spec(&self) -> Option<String> {
        if self.props().contains_key("creature"@) {
            self.string_prop("creature"@)
        } else {
            self.string_prop("body_plan"@)
        }
    }

    /// The `description` text, when it is a string.
    pub fn get_description(&self) -> (r: Option<String>)
        requires
            self.wf(),
        ensures
            r == self.string_prop("description"@),
    {
        self.get_string_property("description")
    }

    /// Named exits: direction and target, for each exit that refers to an object.
    pub fn get_exits(&self) -> (r: Vec<(String, ObjectId)>)
        requires
            self.wf(),
        ensures
            r@ == self.ref_map("exits"@),
    {
        self.get_object_map_property("exits")
    }

    /// The creature this object is made of: `creature`, or else the legacy `body_plan`.
    pub fn creature_name(&self) -> (r: Option<String>)
        requires
            self.wf(),
        ensures
            r == self.creature_spec(),
    {
        match self.get_property("creature") {
            Some(_) => self.get_string_property("creature"),
            None => self.get_string_property("body_plan"),
        }
    }

    /// The same as [`Self::creature_name`].
    pub fn body_plan_name(&self) -> (r: Option<String>)
        requires
            self.wf(),
        ensures
            r == self.creature_spec(),
    {
        self.creature_name()
    }

    pub fn gender(&self) -> (r: Option<String>)
        requires
            self.wf(),
        ensures
            r == self.string_prop("gender"@),
    {
        self.get_string_property("gender")
    }

    /// What occupies each body slot.
    pub fn body_slots(&self) -> (r: Vec<(String, ObjectId)>)
        requires
            self.wf(),
        ensures
            r@ == self.ref_map("body_slots"@),
    {
        self.get_object_map_property("body_slots")
    }

    /// The item in body slot `slot`, if any.
    pub fn body_slot_item(&self, slot: &str) -> (r: Option<ObjectId>)
        requires
            self.wf(),
            self.keyed_map("body_slots"@),
        ensures
            r == self.ref_table("body_slots"@).get(slot@),
    {
        let slots = self.body_slots();
        proof {
            if let Some(Value::Mapping(es)) = self.value_of("body_slots"@) {
                lemma_ref_entries_keys(es@);
            }
        }
        match get_entry(&slots, slot) {
            Some(e) => Some(e.1.clone()),
            None => None,
        }
    }

    /// Adds (or retargets) the exit `direction`.
    pub fn add_exit(&mut self, direction: &str, target: ObjectId)
        requires
            old(self).wf(),
            old(self).keyed_map("exits"@),
        ensures
            changes_only(*old(self), *final(self), set!["exits"@]),
            final(self).keyed_map("exits"@),
            final(self).value_of("exits"@) matches Some(Value::Mapping(_)),
            final(self).entry_table("exits"@) == old(self).entry_table("exits"@).insert(
                direction@,
                Value::ObjectRef(target),
            ),
            old(self).value_of("exits"@) matches Some(Value::Mapping(_)) ==> {
                &&& final(self).props()["exits"@].permissions == old(self).props()["exits"@].permissions
                &&& final(self).props()["exits"@].behavior == old(self).props()["exits"@].behavior
            },
            !(old(self).value_of("exits"@) matches Some(Value::Mapping(_))) ==> {
                &&& final(self).props()["exits"@].permissions.bits == 1
                &&& final(self).props()["exits"@].behavior is None
            },
    {
        let ghost s0 = *self;
        match self.remove_property("exits") {
            Some(p) => {
                let Property { name, value, permissions, behavior } = p;
                match value {
                    Value::Mapping(es) => {
                        let mut es = es;
                        let ghost e0 = es@;
                        let entry = (owned(direction), Value::ObjectRef(target));
                        insert_entry(&mut es, entry);
                        assert(table(es@).map_values(|e: (String, Value)| e.1) =~= table(e0).map_values(
                            |e: (String, Value)| e.1,
                        ).insert(direction@, Value::ObjectRef(target)));
                        self.add_property(Property { name, value: Value::Mapping(es), permissions, behavior });
                    },
                    _ => self.add_fresh_exits(direction, target),
                }
            },
            None => self.add_fresh_exits(direction, target),
        }
    }

    /// Replaces `exits` with a mapping of the single exit `direction`.
    fn add_fresh_exits(&mut self, direction: &str, target: ObjectId)
        requires
            old(self).wf(),
        ensures
            Object::property_set(
                *old(self),
                *final(self),
                "exits"@,
                final(self).props()["exits"@].value,
            ),
            final(self).keyed_map("exits"@),
            final(self).value_of("exits"@) matches Some(Value::Mapping(_)),
            final(self).entry_table("exits"@) == Map::<Seq<char>, Value>::empty().insert(
                direction@,
                Value::ObjectRef(target),
            ),
    {
        let mut es: Vec<(String, Value)> = Vec::new();
        let entry = (owned(direction), Value::ObjectRef(target));
        insert_entry(&mut es, entry);
        assert(table(es@).map_values(|e: (String, Value)| e.1) =~= Map::<Seq<char>, Value>::empty().insert(
            direction@,
            Value::ObjectRef(target),
        ));
        self.set_property_value("exits", Value::Mapping(es));
    }

    /// After `set_property_map` stored `map` (with distinct keys) under `name`, the
    /// mapping holds exactly those references.
    proof fn lemma_stored_ref_map(&self, name: Seq<char>, map: Seq<(String, ObjectId)>)
        requires
            unique_keys(map),
            self.value_of(name) matches Some(Value::Mapping(es)) && ref_entries(es@) == map
                && es@.len() == map.len(),
        ensures
            self.ref_only_map(name),
            self.ref_map(name) == map,
    {
        if let Some(Value::Mapping(es)) = self.value_of(name) {
            lemma_ref_entries_full(es@);
            assert forall|a: int, b: int|
                0 <= a < es@.len() && 0 <= b < es@.len() && a != b implies es@[a].0@ != es@[b].0@ by {
                assert(es@[a].0 == map[a].0 && es@[b].0 == map[b].0);
            }
            assert forall|i: int| 0 <= i < es@.len() implies (#[trigger] es@[i]).1 is ObjectRef by {
                assert(es@[i].0 == ref_entries(es@)[i].0);
            }
        }
    }

    /// Puts `item` in body slot `slot`, or empties the slot when `item` is `None`.
    pub fn set_body_slot(&mut self, slot: &str, item: Option<ObjectId>)
        requires
            old(self).wf(),
            old(self).keyed_map("body_slots"@),
        ensures
            Object::property_stored(*old(self), *final(self), "body_slots"@),
            final(self).ref_only_map("body_slots"@),
            final(self).ref_table("body_slots"@) == match item {
                Some(id) => old(self).ref_table("body_slots"@).insert(slot@, id),
                None => old(self).ref_table("body_slots"@).remove(slot@),
            },
    {
        let mut slots = self.body_slots();
        let ghost t0 = table(slots@);
        let ghost wanted = item;
        proof {
            if let Some(Value::Mapping(es)) = self.value_of("body_slots"@) {
                lemma_ref_entries_keys(es@);
            }
        }
        match item {
            Some(id) => {
                let entry = (owned(slot), id);
                insert_entry(&mut slots, entry);
            },
            None => {
                remove_entry(&mut slots, slot);
            },
        }
        let ghost m = slots@;
        self.set_property_map("body_slots", slots);
        proof {
            self.lemma_stored_ref_map("body_slots"@, m);
            match wanted {
                Some(id) => {
                    assert(table(m).map_values(|e: (String, ObjectId)| e.1) =~= t0.map_values(
                        |e: (String, ObjectId)| e.1,
                    ).insert(slot@, id));
                },
                None => {
                    assert(table(m).map_values(|e: (String, ObjectId)| e.1) =~= t0.map_values(
                        |e: (String, ObjectId)| e.1,
                    ).remove(slot@));
                },
            }
        }
    }

    /// Empties every body slot that holds `item_id`.
    pub fn clear_item_from_body_slots(&mut self, item_id: &ObjectId)
        requires
            old(self).wf(),
            old(self).keyed_map("body_slots"@),
        ensures
            Object::property_stored(*old(self), *final(self), "body_slots"@),
            final(self).ref_only_map("body_slots"@),
            final(self).ref_table("body_slots"@) == without_ref(old(self).ref_table("body_slots"@), *item_id),
    {
        let slots = self.body_slots();
        proof {
            if let Some(Value::Mapping(es)) = self.value_of("body_slots"@) {
                lemma_ref_entries_keys(es@);
            }
        }
        let mut out: Vec<(String, ObjectId)> = Vec::new();
        let mut i: usize = 0;
        while i < slots.len()
            invariant
                0 <= i <= slots@.len(),
                unique_keys(slots@),
                unique_keys(out@),
                forall|k: Seq<char>|
                    #[trigger] has_key(out@, k) ==> has_key(slots@, k) && table(out@)[k] == table(
                        slots@,
                    )[k] && table(slots@)[k].1@ != item_id@,
                forall|j: int|
                    0 <= j < i && (#[trigger] slots@[j]).1@ != item_id@ ==> has_key(out@, slots@[j].0@),
            decreases slots@.len() - i,
        {
            if !same_id(&slots[i].1, item_id) {
                let entry = (slots[i].0.clone(), slots[i].1.clone());
                assert(entry == slots@[i as int]);
                proof {
                    lemma_key_index(slots@, i as int);
                }
                let ghost o0 = out@;
                insert_entry(&mut out, entry);
                assert forall|k: Seq<char>| #[trigger] has_key(out@, k) implies has_key(slots@, k)
                    && table(out@)[k] == table(slots@)[k] && table(slots@)[k].1@ != item_id@ by {
                    assert(table(out@).contains_key(k));
                    if k != entry.0@ {
                        assert(table(o0).contains_key(k));
                    }
                }
                assert forall|j: int|
                    0 <= j < i + 1 && (#[trigger] slots@[j]).1@ != item_id@ implies has_key(
                    out@,
                    slots@[j].0@,
                ) by {
                    if j < i {
                        assert(table(o0).contains_key(slots@[j].0@));
                    }
                    assert(table(out@).contains_key(slots@[j].0@));
                }
            }
            i += 1;
        }
        let ghost m = out@;
        let ghost t0 = table(slots@).map_values(|e: (String, ObjectId)| e.1);
        self.set_property_map("body_slots", out);
        proof {
            self.lemma_stored_ref_map("body_slots"@, m);
            let t1 = table(m).map_values(|e: (String, ObjectId)| e.1);
            assert forall|k: Seq<char>| #[trigger] t1.contains_key(k) == without_ref(t0, *item_id).contains_key(k) by {
                if t0.contains_key(k) && t0[k]@ != item_id@ {
                    let j = choose|j: int| 0 <= j < slots@.len() && slots@[j].0@ == k;
                    lemma_key_index(slots@, j);
                    assert(slots@[j].1@ != item_id@);
                }
            }
            assert(t1 =~= without_ref(t0, *item_id));
        }
    }

    /// The distinct items held in body slots, each once.
    pub fn carried_body_items(&self) -> (r: Vec<ObjectId>)
        requires
            self.wf(),
        ensures
            forall|a: int, b: int| 0 <= a < r@.len() && 0 <= b < r@.len() && a != b ==> r@[a]@ != r@[b]@,
            forall|x: Seq<char>| #[trigger] holds_id(r@, x) <==> refers_to(self.ref_map("body_slots"@), x),
    {
        let slots = self.body_slots();
        let mut seen: Vec<ObjectId> = Vec::new();
        let mut i: usize = 0;
        while i < slots.len()
            invariant
                0 <= i <= slots@.len(),
                forall|a: int, b: int|
                    0 <= a < seen@.len() && 0 <= b < seen@.len() && a != b ==> seen@[a]@ != seen@[b]@,
                forall|x: Seq<char>| #[trigger] holds_id(seen@, x) <==> refers_to(slots@.take(i as int), x),
            decreases slots@.len() - i,
        {
            let ghost pre = slots@.take(i as int);
            let ghost post = slots@.take(i + 1);
            assert(post =~= pre.push(slots@[i as int]));
            if !contains_id(&seen, &slots[i].1) {
                let ghost s0 = seen@;
                seen.push(slots[i].1.clone());
                assert forall|x: Seq<char>| #[trigger] holds_id(seen@, x) <==> refers_to(post, x) by {
                    if holds_id(seen@, x) {
                        let a = choose|a: int| 0 <= a < seen@.len() && seen@[a]@ == x;
                        if a < s0.len() {
                            assert(holds_id(s0, x));
                            let j = choose|j: int| 0 <= j < pre.len() && pre[j].1@ == x;
                            assert(post[j] == pre[j]);
                        } else {
                            assert(post[i as int].1@ == x);
                        }
                    }
                    if refers_to(post, x) {
                        let j = choose|j: int| 0 <= j < post.len() && post[j].1@ == x;
                        if j < pre.len() {
                            assert(pre[j] == post[j]);
                            assert(refers_to(pre, x));
                            assert(holds_id(s0, x));
                            let a = choose|a: int| 0 <= a < s0.len() && s0[a]@ == x;
                            assert(seen@[a] == s0[a]);
                        } else {
                            assert(seen@[s0.len() as int]@ == x);
                        }
                    }
                }
            } else {
                assert forall|x: Seq<char>| #[trigger] holds_id(seen@, x) <==> refers_to(post, x) by {
                    if holds_id(seen@, x) {
                        let j = choose|j: int| 0 <= j < pre.len() && pre[j].1@ == x;
                        assert(post[j] == pre[j]);
                    }
                    if refers_to(post, x) {
                        let j = choose|j: int| 0 <= j < post.len() && post[j].1@ == x;
                        if j < pre.len() {
                            assert(pre[j] == post[j]);
                            assert(refers_to(pre, x));
                        }
                    }
                }
            }
            i += 1;
        }
        assert(slots@.take(slots@.len() as int) =~= slots@);
        seen
    }

    /// The active objects of `objects` located in this object, in order.
    pub fn contents<'a>(&self, objects: &'a Vec<Object>) -> (r: Vec<&'a Object>)
        ensures
            deref_objects(r@) == located_in(objects@, self.id@),
    {
        let mut out: Vec<&'a Object> = Vec::new();
        let mut i: usize = 0;
        while i < objects.len()
            invariant
                0 <= i <= objects@.len(),
                deref_objects(out@) == located_in(objects@.take(i as int), self.id@),
            decreases objects@.len() - i,
        {
            assert(objects@.take(i + 1).drop_last() =~= objects@.take(i as int));
            let o = &objects[i];
            let here = match &o.location {
                Some(l) => same_id(l, &self.id),
                None => false,
            };
            if !o.is_deleted && here {
                out.push(o);
                assert(deref_objects(out@) =~= deref_objects(out@.drop_last()).push(*o));
            }
            i += 1;
        }
        assert(objects@.take(objects@.len() as int) =~= objects@);
        out
    }

    /// Adds `id` to the object-list property `prop` unless an equal id is listed.
    pub fn add_to_list_property(&mut self, prop: &str, id: ObjectId)
        requires
            old(self).wf(),
        ensures
            holds_id(old(self).ref_list(prop@), id@) ==> *final(self) == *old(self),
            !holds_id(old(self).ref_list(prop@), id@) ==> {
                &&& Object::property_stored(*old(self), *final(self), prop@)
                &&& final(self).ref_list(prop@) == old(self).ref_list(prop@).push(id)
            },
    {
        let mut list = self.get_object_list_property(prop);
        if !contains_id(&list, &id) {
            list.push(id);
            self.set_property_list(prop, list);
        }
    }

    /// Drops every id equal to `id` from the object-list property `prop`.
    pub fn remove_from_list_property(&mut self, prop: &str, id: &ObjectId)
        requires
            old(self).wf(),
        ensures
            Object::property_stored(*old(self), *final(self), prop@),
            final(self).ref_list(prop@) == old(self).ref_list(prop@).filter(|x: ObjectId| x@ != id@),
    {
        let list = self.get_object_list_property(prop);
        let ghost pred = |x: ObjectId| x@ != id@;
        let mut kept: Vec<ObjectId> = Vec::new();
        let mut i: usize = 0;
        while i < list.len()
            invariant
                0 <= i <= list@.len(),
                pred == (|x: ObjectId| x@ != id@),
                kept@ == list@.take(i as int).filter(pred),
            decreases list@.len() - i,
        {
            assert(list@.take(i + 1) =~= list@.take(i as int).push(list@[i as int]));
            proof {
                list@.take(i as int).lemma_filter_push(list@[i as int], pred);
            }
            if !same_id(&list[i], id) {
                kept.push(list[i].clone());
            }
            i += 1;
        }
        assert(list@.take(list@.len() as int) =~= list@);
        self.set_property_list(prop, kept);
    }
}

} // verus!
