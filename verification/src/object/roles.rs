//! Composable object roles stored as properties (composition over inheritance).

use vstd::prelude::*;

use super::{same_frame, same_id, Object, ObjectId, PermissionFlags, Property, Value};
use crate::assoc::{find_key, table};
use crate::text::{
    concat2, eq_ignore_case, join, join_all, lower_seq, owned, push_str, split_char, split_on,
    str_eq, to_lower, trim, trim_seq, views,
};

verus! {

// ---------------------------------------------------------------------------
// Reading property values

/// `ObjectRef` items of a list, in order.
pub open spec fn refs_of(items: Seq<Value>) -> Seq<ObjectId>
    decreases items.len(),
{
    if items.len() == 0 {
        Seq::empty()
    } else {
        let prev = refs_of(items.drop_last());
        match items.last() {
            Value::ObjectRef(id) => prev.push(id),
            _ => prev,
        }
    }
}

/// `String` items of a list, in order.
pub open spec fn strings_of(items: Seq<Value>) -> Seq<String>
    decreases items.len(),
{
    if items.len() == 0 {
        Seq::empty()
    } else {
        let prev = strings_of(items.drop_last());
        match items.last() {
            Value::String(s) => prev.push(s),
            _ => prev,
        }
    }
}

/// Entries of a mapping whose values are object references.
pub open spec fn ref_entries(es: Seq<(String, Value)>) -> Seq<(String, ObjectId)>
    decreases es.len(),
{
    if es.len() == 0 {
        Seq::empty()
    } else {
        let prev = ref_entries(es.drop_last());
        match es.last().1 {
            Value::ObjectRef(id) => prev.push((es.last().0, id)),
            _ => prev,
        }
    }
}

/// Entries of a mapping whose values are integers.
pub open spec fn int_entries(es: Seq<(String, Value)>) -> Seq<(String, i64)>
    decreases es.len(),
{
    if es.len() == 0 {
        Seq::empty()
    } else {
        let prev = int_entries(es.drop_last());
        match es.last().1 {
            Value::Int(n) => prev.push((es.last().0, n)),
            _ => prev,
        }
    }
}

pub open spec fn or_default(o: Option<bool>, d: bool) -> bool {
    match o {
        Some(b) => b,
        None => d,
    }
}

impl Object {
    pub open spec fn bool_prop(&self, name: Seq<char>) -> Option<bool> {
        match self.value_of(name) {
            Some(Value::Bool(b)) => Some(b),
            _ => None,
        }
    }

    pub open spec fn int_prop(&self, name: Seq<char>) -> Option<i64> {
        match self.value_of(name) {
            Some(Value::Int(n)) => Some(n),
            _ => None,
        }
    }

    pub open spec fn string_prop(&self, name: Seq<char>) -> Option<String> {
        match self.value_of(name) {
            Some(Value::String(s)) => Some(s),
            _ => None,
        }
    }

    pub open spec fn ref_prop(&self, name: Seq<char>) -> Option<ObjectId> {
        match self.value_of(name) {
            Some(Value::ObjectRef(id)) => Some(id),
            _ => None,
        }
    }

    /// Whether property `name` holds a number (integer or float).
    pub open spec fn numeric_prop(&self, name: Seq<char>) -> bool {
        match self.value_of(name) {
            Some(Value::Int(_)) => true,
            Some(Value::Float(_)) => true,
            _ => false,
        }
    }

    /// Boolean property `name`, `d` when missing or not a boolean.
    pub open spec fn flag(&self, name: Seq<char>, d: bool) -> bool {
        or_default(self.bool_prop(name), d)
    }

    /// Object references listed in property `name`.
    pub open spec fn ref_list(&self, name: Seq<char>) -> Seq<ObjectId> {
        match self.value_of(name) {
            Some(Value::List(items)) => refs_of(items@),
            _ => Seq::empty(),
        }
    }

    /// Strings listed in property `name`.
    pub open spec fn string_list(&self, name: Seq<char>) -> Seq<String> {
        match self.value_of(name) {
            Some(Value::List(items)) => strings_of(items@),
            _ => Seq::empty(),
        }
    }

    /// Entries of mapping property `name` that refer to objects.
    pub open spec fn ref_map(&self, name: Seq<char>) -> Seq<(String, ObjectId)> {
        match self.value_of(name) {
            Some(Value::Mapping(es)) => ref_entries(es@),
            _ => Seq::empty(),
        }
    }

    /// Entries of mapping property `name` that hold integers.
    pub open spec fn int_map(&self, name: Seq<char>) -> Seq<(String, i64)> {
        match self.value_of(name) {
            Some(Value::Mapping(es)) => int_entries(es@),
            _ => Seq::empty(),
        }
    }

    pub fn get_bool_property(&self, name: &str) -> (r: Option<bool>)
        requires
            self.wf(),
        ensures
            r == self.bool_prop(name@),
    {
        match self.get_property(name) {
            Some(p) => match &p.value {
                Value::Bool(b) => Some(*b),
                _ => None,
            },
            None => None,
        }
    }

    pub fn get_int_property(&self, name: &str) -> (r: Option<i64>)
        requires
            self.wf(),
        ensures
            r == self.int_prop(name@),
    {
        match self.get_property(name) {
            Some(p) => match &p.value {
                Value::Int(n) => Some(*n),
                _ => None,
            },
            None => None,
        }
    }

    pub fn get_string_property(&self, name: &str) -> (r: Option<String>)
        requires
            self.wf(),
        ensures
            r == self.string_prop(name@),
    {
        match self.get_property(name) {
            Some(p) => match &p.value {
                Value::String(s) => Some(s.clone()),
                _ => None,
            },
            None => None,
        }
    }

    pub fn get_object_ref_property(&self, name: &str) -> (r: Option<ObjectId>)
        requires
            self.wf(),
        ensures
            r == self.ref_prop(name@),
    {
        match self.get_property(name) {
            Some(p) => match &p.value {
                Value::ObjectRef(id) => Some(id.clone()),
                _ => None,
            },
            None => None,
        }
    }

    /// Whether property `name` holds a number.
    pub fn has_numeric_property(&self, name: &str) -> (r: bool)
        requires
            self.wf(),
        ensures
            r == self.numeric_prop(name@),
    {
        match self.get_property(name) {
            Some(p) => match &p.value {
                Value::Int(_) => true,
                Value::Float(_) => true,
                _ => false,
            },
            None => false,
        }
    }

    pub fn get_object_list_property(&self, name: &str) -> (r: Vec<ObjectId>)
        requires
            self.wf(),
        ensures
            r@ == self.ref_list(name@),
    {
        let mut out: Vec<ObjectId> = Vec::new();
        if let Some(p) = self.get_property(name) {
            if let Value::List(items) = &p.value {
                let mut i: usize = 0;
                while i < items.len()
                    invariant
                        0 <= i <= items@.len(),
                        out@ == refs_of(items@.take(i as int)),
                    decreases items@.len() - i,
                {
                    assert(items@.take(i + 1).drop_last() =~= items@.take(i as int));
                    if let Value::ObjectRef(id) = &items[i] {
                        out.push(id.clone());
                    }
                    i += 1;
                }
                assert(items@.take(items@.len() as int) =~= items@);
            }
        }
        out
    }

    pub fn get_string_list(&self, name: &str) -> (r: Vec<String>)
        requires
            self.wf(),
        ensures
            r@ == self.string_list(name@),
    {
        let mut out: Vec<String> = Vec::new();
        if let Some(p) = self.get_property(name) {
            if let Value::List(items) = &p.value {
                let mut i: usize = 0;
                while i < items.len()
                    invariant
                        0 <= i <= items@.len(),
                        out@ == strings_of(items@.take(i as int)),
                    decreases items@.len() - i,
                {
                    assert(items@.take(i + 1).drop_last() =~= items@.take(i as int));
                    if let Value::String(s) = &items[i] {
                        out.push(s.clone());
                    }
                    i += 1;
                }
                assert(items@.take(items@.len() as int) =~= items@);
            }
        }
        out
    }

    pub fn get_object_map_property(&self, name: &str) -> (r: Vec<(String, ObjectId)>)
        requires
            self.wf(),
        ensures
            r@ == self.ref_map(name@),
    {
        let mut out: Vec<(String, ObjectId)> = Vec::new();
        if let Some(p) = self.get_property(name) {
            if let Value::Mapping(es) = &p.value {
                let mut i: usize = 0;
                while i < es.len()
                    invariant
                        0 <= i <= es@.len(),
                        out@ == ref_entries(es@.take(i as int)),
                    decreases es@.len() - i,
                {
                    assert(es@.take(i + 1).drop_last() =~= es@.take(i as int));
                    if let Value::ObjectRef(id) = &es[i].1 {
                        out.push((es[i].0.clone(), id.clone()));
                    }
                    i += 1;
                }
                assert(es@.take(es@.len() as int) =~= es@);
            }
        }
        out
    }

    pub fn get_int_map(&self, name: &str) -> (r: Vec<(String, i64)>)
        requires
            self.wf(),
        ensures
            r@ == self.int_map(name@),
    {
        let mut out: Vec<(String, i64)> = Vec::new();
        if let Some(p) = self.get_property(name) {
            if let Value::Mapping(es) = &p.value {
                let mut i: usize = 0;
                while i < es.len()
                    invariant
                        0 <= i <= es@.len(),
                        out@ == int_entries(es@.take(i as int)),
                    decreases es@.len() - i,
                {
                    assert(es@.take(i + 1).drop_last() =~= es@.take(i as int));
                    if let Value::Int(n) = &es[i].1 {
                        out.push((es[i].0.clone(), *n));
                    }
                    i += 1;
                }
                assert(es@.take(es@.len() as int) =~= es@);
            }
        }
        out
    }

    // -----------------------------------------------------------------------
    // Writing property values

    pub fn set_property_bool(&mut self, name: &str, value: bool)
        requires
            old(self).wf(),
        ensures
            Object::property_set(*old(self), *final(self), name@, Value::Bool(value)),
    {
        self.set_property_value(name, Value::Bool(value));
    }

    pub fn set_property_int(&mut self, name: &str, value: i64)
        requires
            old(self).wf(),
        ensures
            Object::property_set(*old(self), *final(self), name@, Value::Int(value)),
    {
        self.set_property_value(name, Value::Int(value));
    }

    pub fn set_property_string(&mut self, name: &str, value: &str)
        requires
            old(self).wf(),
        ensures
            Object::property_stored(*old(self), *final(self), name@),
            final(self).string_prop(name@) matches Some(s) && s@ == value@,
    {
        self.set_property_value(name, Value::String(owned(value)));
    }

    pub fn set_property_object_ref(&mut self, name: &str, id: ObjectId)
        requires
            old(self).wf(),
        ensures
            Object::property_set(*old(self), *final(self), name@, Value::ObjectRef(id)),
    {
        self.set_property_value(name, Value::ObjectRef(id));
    }

    /// Stores a list of object references.
    pub fn set_property_list(&mut self, name: &str, items: Vec<ObjectId>)
        requires
            old(self).wf(),
        ensures
            Object::property_stored(*old(self), *final(self), name@),
            final(self).value_of(name@) matches Some(Value::List(vs)) && refs_of(vs@) == items@
                && vs@.len() == items@.len(),
    {
        let ghost ids = items@;
        let mut vs: Vec<Value> = Vec::new();
        let mut items = items;
        let mut rest: Vec<ObjectId> = Vec::new();
        // Reverse once so that popping yields the items in order.
        while items.len() > 0
            invariant
                rest@ =~= ids.skip(items@.len() as int).reverse(),
                items@ =~= ids.take(items@.len() as int),
                items@.len() <= ids.len(),
            decreases items@.len(),
        {
            let x = items.pop().unwrap();
            rest.push(x);
        }
        assert(rest@ =~= ids.reverse());
        let total = rest.len();
        assert(total == rest@.len());
        let mut k: usize = 0;
        while rest.len() > 0
            invariant
                ids.len() <= usize::MAX,
                k + rest@.len() == ids.len(),
                rest@ =~= ids.skip(k as int).reverse(),
                vs@.len() == k,
                refs_of(vs@) =~= ids.take(k as int),
            decreases rest@.len(),
        {
            let x = rest.pop().unwrap();
            assert(x == ids[k as int]);
            let ghost before = vs@;
            vs.push(Value::ObjectRef(x));
            assert(vs@.drop_last() =~= before);
            assert(ids.take(k + 1) =~= ids.take(k as int).push(x));
            k += 1;
        }
        assert(ids.take(ids.len() as int) =~= ids);
        self.set_property_value(name, Value::List(vs));
    }

    /// Stores a list of strings.
    pub fn set_string_list(&mut self, name: &str, items: Vec<String>)
        requires
            old(self).wf(),
        ensures
            Object::property_stored(*old(self), *final(self), name@),
            final(self).value_of(name@) matches Some(Value::List(vs)) && strings_of(vs@)
                == items@ && vs@.len() == items@.len(),
    {
        let ghost ss = items@;
        let mut vs: Vec<Value> = Vec::new();
        let mut items = items;
        let mut rest: Vec<String> = Vec::new();
        while items.len() > 0
            invariant
                rest@ =~= ss.skip(items@.len() as int).reverse(),
                items@ =~= ss.take(items@.len() as int),
                items@.len() <= ss.len(),
            decreases items@.len(),
        {
            let x = items.pop().unwrap();
            rest.push(x);
        }
        assert(rest@ =~= ss.reverse());
        let total = rest.len();
        assert(total == rest@.len());
        let mut k: usize = 0;
        while rest.len() > 0
            invariant
                ss.len() <= usize::MAX,
                k + rest@.len() == ss.len(),
                rest@ =~= ss.skip(k as int).reverse(),
                vs@.len() == k,
                strings_of(vs@) =~= ss.take(k as int),
            decreases rest@.len(),
        {
            let x = rest.pop().unwrap();
            assert(x == ss[k as int]);
            let ghost before = vs@;
            vs.push(Value::String(x));
            assert(vs@.drop_last() =~= before);
            assert(ss.take(k + 1) =~= ss.take(k as int).push(x));
            k += 1;
        }
        assert(ss.take(ss.len() as int) =~= ss);
        self.set_property_value(name, Value::List(vs));
    }

    /// Stores a mapping from names to object references.
    pub fn set_property_map(&mut self, name: &str, map: Vec<(String, ObjectId)>)
        requires
            old(self).wf(),
        ensures
            Object::property_stored(*old(self), *final(self), name@),
            final(self).value_of(name@) matches Some(Value::Mapping(es)) && ref_entries(es@)
                == map@ && es@.len() == map@.len(),
    {
        let ghost ms = map@;
        let mut es: Vec<(String, Value)> = Vec::new();
        let mut items = map;
        let mut rest: Vec<(String, ObjectId)> = Vec::new();
        while items.len() > 0
            invariant
                rest@ =~= ms.skip(items@.len() as int).reverse(),
                items@ =~= ms.take(items@.len() as int),
                items@.len() <= ms.len(),
            decreases items@.len(),
        {
            let x = items.pop().unwrap();
            rest.push(x);
        }
        assert(rest@ =~= ms.reverse());
        let total = rest.len();
        assert(total == rest@.len());
        let mut k: usize = 0;
        while rest.len() > 0
            invariant
                ms.len() <= usize::MAX,
                k + rest@.len() == ms.len(),
                rest@ =~= ms.skip(k as int).reverse(),
                es@.len() == k,
                ref_entries(es@) =~= ms.take(k as int),
            decreases rest@.len(),
        {
            let (key, id) = rest.pop().unwrap();
            assert((key, id) == ms[k as int]);
            let ghost before = es@;
            es.push((key, Value::ObjectRef(id)));
            assert(es@.drop_last() =~= before);
            assert(ms.take(k + 1) =~= ms.take(k as int).push((key, id)));
            k += 1;
        }
        assert(ms.take(ms.len() as int) =~= ms);
        self.set_property_value(name, Value::Mapping(es));
    }

    /// Stores a mapping from names to integers.
    pub fn set_int_map(&mut self, name: &str, map: Vec<(String, i64)>)
        requires
            old(self).wf(),
        ensures
            Object::property_stored(*old(self), *final(self), name@),
            final(self).value_of(name@) matches Some(Value::Mapping(es)) && int_entries(es@)
                == map@ && es@.len() == map@.len(),
    {
        let ghost ms = map@;
        let mut es: Vec<(String, Value)> = Vec::new();
        let mut items = map;
        let mut rest: Vec<(String, i64)> = Vec::new();
        while items.len() > 0
            invariant
                rest@ =~= ms.skip(items@.len() as int).reverse(),
                items@ =~= ms.take(items@.len() as int),
                items@.len() <= ms.len(),
            decreases items@.len(),
        {
            let x = items.pop().unwrap();
            rest.push(x);
        }
        assert(rest@ =~= ms.reverse());
        let total = rest.len();
        assert(total == rest@.len());
        let mut k: usize = 0;
        while rest.len() > 0
            invariant
                ms.len() <= usize::MAX,
                k + rest@.len() == ms.len(),
                rest@ =~= ms.skip(k as int).reverse(),
                es@.len() == k,
                int_entries(es@) =~= ms.take(k as int),
            decreases rest@.len(),
        {
            let (key, n) = rest.pop().unwrap();
            assert((key, n) == ms[k as int]);
            let ghost before = es@;
            es.push((key, Value::Int(n)));
            assert(es@.drop_last() =~= before);
            assert(ms.take(k + 1) =~= ms.take(k as int).push((key, n)));
            k += 1;
        }
        assert(ms.take(ms.len() as int) =~= ms);
        self.set_property_value(name, Value::Mapping(es));
    }
}

// ---------------------------------------------------------------------------
// Role specifications

/// Role kinds attachable to any object via properties.
#[derive(Debug, Clone, Copy, PartialEq, Eq, Hash)]
pub enum RoleKind {
    Location,
    Container,
    Wearable,
    Creature,
    Stackable,
}

/// Summary of which roles an object currently has.
#[derive(Debug, Clone, Default, PartialEq, Eq)]
pub struct ObjectRoles {
    pub location: bool,
    pub container: bool,
    pub wearable: bool,
    pub creature: bool,
    pub stackable: bool,
}

/// Configuration for a container role.
#[derive(Debug, Clone)]
pub struct ContainerSpec {
    pub capacity: u32,
    pub max_weight: Option<i64>,
    pub max_volume: Option<i64>,
    pub wearable: bool,
    pub wear_slot: Option<String>,
    /// When false, contents are hidden and inaccessible until opened.
    pub open: bool,
    /// Optional lock identifier — keys with a matching `lock_id` can unlock this container.
    pub lock_id: Option<String>,
    /// Whether the container starts locked (requires `lock_id`).
    pub locked: bool,
    /// When true, the lock mechanism is spent after a successful unlock and cannot be used again.
    pub lock_consumable: bool,
    /// When set, only items matching at least one type tag may be placed inside (e.g. `key`).
    pub allowed_types: Option<Vec<String>>,
}

impl Default for ContainerSpec {
    fn default() -> (r: Self)
        ensures
            r.capacity == 10,
            r.max_weight is None,
            r.max_volume is None,
            !r.wearable,
            r.wear_slot is None,
            r.open,
            r.lock_id is None,
            !r.locked,
            !r.lock_consumable,
            r.allowed_types is None,
    {
        ContainerSpec {
            capacity: 10,
            max_weight: None,
            max_volume: None,
            wearable: false,
            wear_slot: None,
            open: true,
            lock_id: None,
            locked: false,
            lock_consumable: false,
            allowed_types: None,
        }
    }
}

/// Player-facing label for a type tag.
pub open spec fn type_label(tag: Seq<char>) -> Seq<char> {
    let t = lower_seq(trim_seq(tag));
    if t == "key"@ {
        "keys"@
    } else if t == "readable"@ {
        "readable items"@
    } else if t == "stackable"@ {
        "stackable items"@
    } else if t == "wearable"@ {
        "wearable items"@
    } else if t == "container"@ {
        "containers"@
    } else {
        t
    }
}

/// Player-facing label for a type tag in restriction messages.
pub fn allowed_type_label(type_tag: &str) -> (r: String)
    ensures
        r@ == type_label(type_tag@),
{
    let t = to_lower(trim(type_tag));
    let ts = t.as_str();
    if str_eq(ts, "key") {
        owned("keys")
    } else if str_eq(ts, "readable") {
        owned("readable items")
    } else if str_eq(ts, "stackable") {
        owned("stackable items")
    } else if str_eq(ts, "wearable") {
        owned("wearable items")
    } else if str_eq(ts, "container") {
        owned("containers")
    } else {
        t
    }
}

/// Labels joined for a message: `a`, `a and b`, `a, b, and c`.
pub open spec fn label_list(labels: Seq<Seq<char>>) -> Seq<char> {
    if labels.len() == 0 {
        Seq::empty()
    } else if labels.len() == 1 {
        labels[0]
    } else if labels.len() == 2 {
        labels[0] + " and "@ + labels[1]
    } else {
        join(labels.drop_last(), ", "@) + ", and "@ + labels.last()
    }
}

/// Join allowed-type labels for messages (`keys`, `keys and tokens`).
pub fn format_allowed_type_labels(types: &[String]) -> (r: String)
    ensures
        r@ == label_list(types@.map_values(|t: String| type_label(t@))),
{
    let ghost want = types@.map_values(|t: String| type_label(t@));
    let mut labels: Vec<String> = Vec::new();
    let mut i: usize = 0;
    while i < types.len()
        invariant
            0 <= i <= types@.len(),
            want == types@.map_values(|t: String| type_label(t@)),
            views(labels@) =~= want.take(i as int),
        decreases types@.len() - i,
    {
        let ghost before = views(labels@);
        labels.push(allowed_type_label(types[i].as_str()));
        assert(views(labels@) =~= before.push(want[i as int]));
        i += 1;
    }
    assert(want.take(types@.len() as int) =~= want);
    let n = labels.len();
    if n == 0 {
        String::new()
    } else if n == 1 {
        labels[0].clone()
    } else if n == 2 {
        let mut r = labels[0].clone();
        push_str(&mut r, " and ");
        push_str(&mut r, labels[1].as_str());
        r
    } else {
        let last = labels.pop().unwrap();
        assert(views(labels@) =~= want.drop_last());
        let mut r = join_all(&labels, ", ");
        push_str(&mut r, ", and ");
        push_str(&mut r, last.as_str());
        r
    }
}

/// Comma-separated type tags, trimmed and lowercased, without empty ones.
pub open spec fn allowed_types_of(value: Seq<char>) -> Seq<Seq<char>> {
    split_char(value, ',').map_values(|t: Seq<char>| lower_seq(trim_seq(t))).filter(
        |t: Seq<char>| t.len() > 0,
    )
}

/// Parse a comma-separated allowed-types field (`key`, `key,token`).
pub fn parse_allowed_types(value: &str) -> (r: Vec<String>)
    ensures
        views(r@) == allowed_types_of(value@),
{
    let parts = split_on(value, ',');
    let ghost mapped = split_char(value@, ',').map_values(|t: Seq<char>| lower_seq(trim_seq(t)));
    let ghost pred = |t: Seq<char>| t.len() > 0;
    let mut out: Vec<String> = Vec::new();
    let mut i: usize = 0;
    while i < parts.len()
        invariant
            0 <= i <= parts@.len(),
            views(parts@) == split_char(value@, ','),
            mapped == split_char(value@, ',').map_values(|t: Seq<char>| lower_seq(trim_seq(t))),
            pred == (|t: Seq<char>| t.len() > 0),
            views(out@) == mapped.take(i as int).filter(pred),
        decreases parts@.len() - i,
    {
        let t = to_lower(trim(parts[i].as_str()));
        assert(t@ == mapped[i as int]);
        assert(mapped.take(i + 1) =~= mapped.take(i as int).push(t@));
        proof {
            mapped.take(i as int).lemma_filter_push(t@, pred);
        }
        if t.unicode_len() > 0 {
            let ghost before = views(out@);
            out.push(t);
            assert(views(out@) =~= before.push(t@));
        }
        i += 1;
    }
    assert(mapped.take(parts@.len() as int) =~= mapped);
    out
}

/// Configuration for a key that opens one or more locks sharing the same `lock_id`.
#[derive(Debug, Clone)]
pub struct KeySpec {
    pub lock_id: String,
    /// When true, the key is destroyed after a successful unlock.
    pub consumable: bool,
}

impl KeySpec {
    pub fn new(lock_id: &str) -> (r: Self)
        ensures
            r.lock_id@ == lock_id@,
            !r.consumable,
    {
        KeySpec { lock_id: owned(lock_id), consumable: false }
    }

    pub fn consumable(self) -> (r: Self)
        ensures
            r.lock_id == self.lock_id,
            r.consumable,
    {
        KeySpec { lock_id: self.lock_id, consumable: true }
    }
}

/// Configuration for a breakable prop — smashing it can disable spawners and drop loot.
#[derive(Debug, Clone, Default)]
pub struct BreakableSpec {
    /// Optional custom narrative when the object is broken.
    pub break_text: Option<String>,
}

/// Kind of exit portal — doors, windows, and future teleporters share one model.
#[derive(Debug, Clone, Copy, PartialEq, Eq, Hash)]
pub enum PortalKind {
    Door,
    Window,
    Teleport,
}

pub open spec fn portal_kind_of(value: Seq<char>) -> Option<PortalKind> {
    let t = lower_seq(trim_seq(value));
    if t == "door"@ {
        Some(PortalKind::Door)
    } else if t == "window"@ {
        Some(PortalKind::Window)
    } else if t == "teleport"@ || t == "portal"@ {
        Some(PortalKind::Teleport)
    } else {
        None
    }
}

/// Each portal kind reads back as itself from the word it is written as.
pub proof fn law_portal_kind_round_trip(k: PortalKind)
    ensures
        portal_kind_of(k.name()) == Some(k),
{
    reveal_strlit("door");
    reveal_strlit("window");
    reveal_strlit("teleport");
    let n = k.name();
    assert(crate::text::lstrip_ws(n) == n);
    assert(crate::text::rstrip_ws(n) == n);
    assert(lower_seq(n) =~= n);
    assert(n[0] != "door"@[0] ==> n != "door"@);
    assert(n[0] != "window"@[0] ==> n != "window"@);
}

impl PortalKind {
    pub fn parse(value: &str) -> (r: Option<Self>)
        ensures
            r == portal_kind_of(value@),
    {
        let t = to_lower(trim(value));
        let ts = t.as_str();
        if str_eq(ts, "door") {
            Some(PortalKind::Door)
        } else if str_eq(ts, "window") {
            Some(PortalKind::Window)
        } else if str_eq(ts, "teleport") || str_eq(ts, "portal") {
            Some(PortalKind::Teleport)
        } else {
            None
        }
    }

    pub open spec fn name(self) -> Seq<char> {
        match self {
            PortalKind::Door => "door"@,
            PortalKind::Window => "window"@,
            PortalKind::Teleport => "teleport"@,
        }
    }

    pub fn as_str(self) -> (r: &'static str)
        ensures
            r@ == self.name(),
    {
        match self {
            PortalKind::Door => "door",
            PortalKind::Window => "window",
            PortalKind::Teleport => "teleport",
        }
    }

    pub open spec fn passable_by_default(self) -> bool {
        self == PortalKind::Door || self == PortalKind::Teleport
    }

    pub fn default_passable(self) -> (r: bool)
        ensures
            r == self.passable_by_default(),
    {
        match self {
            PortalKind::Door => true,
            PortalKind::Teleport => true,
            PortalKind::Window => false,
        }
    }

    pub fn default_transparent(self) -> (r: bool)
        ensures
            r == (self == PortalKind::Window),
    {
        match self {
            PortalKind::Window => true,
            _ => false,
        }
    }

    /// Player-facing noun for messages (`door`, `window`, `portal`).
    pub fn label(self) -> (r: &'static str)
        ensures
            r@ == match self {
                PortalKind::Door => "door"@,
                PortalKind::Window => "window"@,
                PortalKind::Teleport => "portal"@,
            },
    {
        match self {
            PortalKind::Door => "door",
            PortalKind::Window => "window",
            PortalKind::Teleport => "portal",
        }
    }
}

/// Configuration for an exit portal (door, window, or teleport).
#[derive(Debug, Clone)]
pub struct PortalSpec {
    pub kind: PortalKind,
    /// Exit or view direction (`in`, `out`, `north`, …).
    pub direction: String,
    /// Destination area base name (resolved to an object id at bootstrap).
    pub destination: String,
    /// Whether the portal starts open. Doors and windows default to closed.
    pub open: bool,
    pub lock_id: Option<String>,
    pub locked: bool,
    /// When true, the lock mechanism is spent after a successful unlock.
    pub lock_consumable: bool,
    /// When set, overrides the kind default (windows are not passable by default).
    pub passable: Option<bool>,
    /// When set, overrides the kind default (windows are transparent by default).
    pub transparent: Option<bool>,
}

impl PortalSpec {
    pub fn new(kind: PortalKind, direction: &str, destination: &str) -> (r: Self)
        ensures
            r.kind == kind,
            r.direction@ == direction@,
            r.destination@ == destination@,
            !r.open,
            r.lock_id is None,
            !r.locked,
            !r.lock_consumable,
            r.passable is None,
            r.transparent is None,
    {
        PortalSpec {
            kind,
            direction: owned(direction),
            destination: owned(destination),
            open: false,
            lock_id: None,
            locked: false,
            lock_consumable: false,
            passable: None,
            transparent: None,
        }
    }
}

/// Configuration for a door — convenience wrapper around [`PortalSpec`].
#[derive(Debug, Clone)]
pub struct DoorSpec {
    /// Exit direction this door guards (`in`, `out`, `north`, …).
    pub direction: String,
    /// Destination area base name (resolved to an object id at bootstrap).
    pub destination: String,
    /// Whether the door starts open. Doors default to closed.
    pub open: bool,
    pub lock_id: Option<String>,
    pub locked: bool,
    /// When true, the lock mechanism is spent after a successful unlock.
    pub lock_consumable: bool,
}

impl DoorSpec {
    pub fn new(direction: &str, destination: &str) -> (r: Self)
        ensures
            r.direction@ == direction@,
            r.destination@ == destination@,
            !r.open,
            r.lock_id is None,
            !r.locked,
            !r.lock_consumable,
    {
        DoorSpec {
            direction: owned(direction),
            destination: owned(destination),
            open: false,
            lock_id: None,
            locked: false,
            lock_consumable: false,
        }
    }
}

/// Configuration for stackable identical items.
#[derive(Debug, Clone)]
pub struct StackableSpec {
    pub count: u32,
    pub max_stack: u32,
}

impl Default for StackableSpec {
    fn default() -> (r: Self)
        ensures
            r.count == 1,
            r.max_stack == 99,
    {
        StackableSpec { count: 1, max_stack: 99 }
    }
}

/// Configuration for objects with readable (and optionally writable) text.
#[derive(Debug, Clone)]
pub struct ReadableSpec {
    pub text: String,
    pub writable: bool,
}

// ---------------------------------------------------------------------------
// Role queries

/// Whether an object type is a player.
/// `key` is a key whose lock id is that of `gate`'s lock.
pub open spec fn key_opens(key: Object, gate: Object) -> bool {
    &&& key.key()
    &&& gate.lock_id() is Some
    &&& key.lock_id() is Some
    &&& key.lock_id().unwrap()@ == gate.lock_id().unwrap()@
}

pub open spec fn is_player_type(id: Seq<char>) -> bool {
    crate::text::before_char(id, ':') == "player"@
}

impl Object {
    pub open spec fn container_role(&self) -> bool {
        self.flag("is_container"@, false)
    }

    pub open spec fn wearable_role(&self) -> bool {
        self.flag("is_wearable"@, false)
    }

    pub open spec fn creature_role(&self) -> bool {
        is_player_type(self.id@) || self.props().contains_key("creature"@)
    }

    pub open spec fn stackable(&self) -> bool {
        self.flag("stackable"@, false)
    }

    pub open spec fn key(&self) -> bool {
        self.flag("is_key"@, false)
    }

    /// A non-blank string property.
    pub open spec fn text_prop(&self, name: Seq<char>) -> Option<String> {
        match self.string_prop(name) {
            Some(s) => if trim_seq(s@).len() > 0 {
                Some(s)
            } else {
                None
            },
            None => None,
        }
    }

    pub open spec fn lock_id(&self) -> Option<String> {
        self.text_prop("lock_id"@)
    }

    pub open spec fn readable(&self) -> bool {
        self.flag("is_readable"@, false) || match self.string_prop("read_text"@) {
            Some(t) => trim_seq(t@).len() > 0,
            None => false,
        }
    }

    pub open spec fn allowed_types(&self) -> Option<Seq<Seq<char>>> {
        match self.string_prop("allowed_types"@) {
            Some(s) => if allowed_types_of(s@).len() > 0 {
                Some(allowed_types_of(s@))
            } else {
                None
            },
            None => None,
        }
    }

    /// Whether this object satisfies a type tag.
    pub open spec fn has_type(&self, tag: Seq<char>) -> bool {
        let t = lower_seq(trim_seq(tag));
        if t == "key"@ {
            self.key()
        } else if t == "stackable"@ {
            self.stackable()
        } else if t == "readable"@ {
            self.readable()
        } else if t == "wearable"@ {
            self.wearable_role()
        } else if t == "container"@ {
            self.container_role()
        } else {
            lower_seq(crate::text::before_char(self.id@, ':')) == lower_seq(t)
        }
    }

    pub open spec fn portal_kind_spec(&self) -> Option<PortalKind> {
        let parsed = match self.string_prop("portal_kind"@) {
            Some(s) => portal_kind_of(s@),
            None => None,
        };
        if parsed is Some {
            parsed
        } else if self.flag("is_window"@, false) {
            Some(PortalKind::Window)
        } else if self.flag("is_door"@, false) {
            Some(PortalKind::Door)
        } else {
            None
        }
    }

    pub open spec fn gate_open(&self) -> bool {
        if self.portal_kind_spec() is Some {
            self.flag("is_open"@, false)
        } else if self.container_role() {
            self.flag("is_open"@, true)
        } else {
            true
        }
    }

    pub open spec fn gate_locked(&self) -> bool {
        self.lock_id() is Some && self.flag("is_locked"@, false)
    }

    pub open spec fn transparent(&self) -> bool {
        match self.bool_prop("portal_transparent"@) {
            Some(b) => b,
            None => self.portal_kind_spec() == Some(PortalKind::Window),
        }
    }

    /// Inspect which composable roles are active on this object.
    pub fn roles(&self) -> (r: ObjectRoles)
        requires
            self.wf(),
        ensures
            r.location == super::is_place_type(crate::text::before_char(self.id@, ':')),
            r.container == self.container_role(),
            r.wearable == self.wearable_role(),
            r.creature == self.creature_role(),
            r.stackable == self.stackable(),
    {
        ObjectRoles {
            location: self.is_location(),
            container: self.has_container_role(),
            wearable: self.has_wearable_role(),
            creature: self.has_creature_role(),
            stackable: self.is_stackable(),
        }
    }

    pub fn has_container_role(&self) -> (r: bool)
        requires
            self.wf(),
        ensures
            r == self.container_role(),
    {
        match self.get_bool_property("is_container") {
            Some(b) => b,
            None => false,
        }
    }

    pub fn has_wearable_role(&self) -> (r: bool)
        requires
            self.wf(),
        ensures
            r == self.wearable_role(),
    {
        match self.get_bool_property("is_wearable") {
            Some(b) => b,
            None => false,
        }
    }

    pub fn has_creature_role(&self) -> (r: bool)
        requires
            self.wf(),
        ensures
            r == self.creature_role(),
    {
        str_eq(self.object_type(), "player") || self.get_property("creature").is_some()
    }

    pub fn is_stackable(&self) -> (r: bool)
        requires
            self.wf(),
        ensures
            r == self.stackable(),
    {
        match self.get_bool_property("stackable") {
            Some(b) => b,
            None => false,
        }
    }

    pub fn stack_count(&self) -> (r: u32)
        requires
            self.wf(),
        ensures
            r == match self.int_prop("stack_count"@) {
                Some(n) => n as u32,
                None => 1u32,
            },
    {
        match self.get_int_property("stack_count") {
            Some(n) => n as u32,
            None => 1,
        }
    }

    pub fn max_stack(&self) -> (r: u32)
        requires
            self.wf(),
        ensures
            r == match self.int_prop("max_stack"@) {
                Some(n) => n as u32,
                None => 99u32,
            },
    {
        match self.get_int_property("max_stack") {
            Some(n) => n as u32,
            None => 99,
        }
    }

    pub fn set_stack_count(&mut self, count: u32)
        requires
            old(self).wf(),
        ensures
            Object::property_set(*old(self), *final(self), "stack_count"@, Value::Int(count as i64)),
    {
        self.set_property_int("stack_count", count as i64);
    }

    pub fn container_capacity(&self) -> (r: u32)
        requires
            self.wf(),
        ensures
            r == match self.int_prop("capacity"@) {
                Some(n) => n as u32,
                None => 10u32,
            },
    {
        match self.get_int_property("capacity") {
            Some(n) => n as u32,
            None => 10,
        }
    }

    pub fn container_max_weight(&self) -> (r: Option<i64>)
        requires
            self.wf(),
        ensures
            r == self.int_prop("max_weight"@),
    {
        self.get_int_property("max_weight")
    }

    pub fn container_max_volume(&self) -> (r: Option<i64>)
        requires
            self.wf(),
        ensures
            r == self.int_prop("max_volume"@),
    {
        self.get_int_property("max_volume")
    }

    pub fn container_contents(&self) -> (r: Vec<ObjectId>)
        requires
            self.wf(),
        ensures
            r@ == self.ref_list("contents"@),
    {
        self.get_object_list_property("contents")
    }

    /// Type tags this container accepts. `None` means no restriction.
    pub fn container_allowed_types(&self) -> (r: Option<Vec<String>>)
        requires
            self.wf(),
        ensures
            match r {
                Some(v) => self.allowed_types() == Some(views(v@)),
                None => self.allowed_types() is None,
            },
    {
        match self.get_string_property("allowed_types") {
            Some(s) => {
                let types = parse_allowed_types(s.as_str());
                if types.len() > 0 {
                    Some(types)
                } else {
                    None
                }
            },
            None => None,
        }
    }

    /// Whether `item` satisfies a composable type tag (`key`, `stackable`, `readable`, …).
    pub fn item_has_type(&self, type_tag: &str) -> (r: bool)
        requires
            self.wf(),
        ensures
            r == self.has_type(type_tag@),
    {
        let t = to_lower(trim(type_tag));
        let ts = t.as_str();
        if str_eq(ts, "key") {
            self.is_key()
        } else if str_eq(ts, "stackable") {
            self.is_stackable()
        } else if str_eq(ts, "readable") {
            self.is_readable()
        } else if str_eq(ts, "wearable") {
            self.is_wearable()
        } else if str_eq(ts, "container") {
            self.is_container()
        } else {
            eq_ignore_case(self.object_type(), ts)
        }
    }

    /// Whether `item` may be placed in this container (allowed-types filter).
    pub fn container_accepts_item(&self, item: &Object) -> (r: bool)
        requires
            self.wf(),
            item.wf(),
        ensures
            r == match self.allowed_types() {
                None => true,
                Some(tags) => exists|i: int| 0 <= i < tags.len() && item.has_type(#[trigger] tags[i]),
            },
    {
        match self.container_allowed_types() {
            None => true,
            Some(allowed) => {
                let ghost tags = views(allowed@);
                let mut i: usize = 0;
                let mut found = false;
                while i < allowed.len() && !found
                    invariant
                        0 <= i <= allowed@.len(),
                        item.wf(),
                        tags == views(allowed@),
                        tags.len() == allowed@.len(),
                        self.allowed_types() == Some(tags),
                        found ==> exists|k: int| 0 <= k < tags.len() && item.has_type(#[trigger] tags[k]),
                        !found ==> forall|j: int| 0 <= j < i ==> !item.has_type(#[trigger] tags[j]),
                    decreases allowed@.len() - i + (if found { 0int } else { 1int }),
                {
                    if item.item_has_type(allowed[i].as_str()) {
                        assert(item.has_type(tags[i as int]));
                        found = true;
                    } else {
                        i += 1;
                    }
                }
                proof {
                    if !found {
                        assert(i == tags.len());
                        assert(!exists|k: int| 0 <= k < tags.len() && item.has_type(#[trigger] tags[k]));
                    } else {
                        assert(exists|k: int| 0 <= k < tags.len() && item.has_type(#[trigger] tags[k]));
                    }
                    assert(self.allowed_types() == Some(tags));
                }
                found
            },
        }
    }

    /// Whether a container's lid is open. Missing property defaults to open (legacy objects).
    pub fn container_is_open(&self) -> (r: bool)
        requires
            self.wf(),
        ensures
            r == (!self.container_role() || self.flag("is_open"@, true)),
    {
        if !self.has_container_role() {
            return true;
        }
        match self.get_bool_property("is_open") {
            Some(b) => b,
            None => true,
        }
    }

    pub fn set_container_open(&mut self, open: bool)
        requires
            old(self).wf(),
        ensures
            Object::property_set(*old(self), *final(self), "is_open"@, Value::Bool(open)),
    {
        self.set_property_bool("is_open", open);
    }

    /// Whether this container has a lock mechanism (`lock_id` set).
    pub fn container_has_lock(&self) -> (r: bool)
        requires
            self.wf(),
        ensures
            r == self.lock_id() is Some,
    {
        self.container_lock_id().is_some()
    }

    pub fn container_lock_id(&self) -> (r: Option<String>)
        requires
            self.wf(),
        ensures
            r == self.lock_id(),
    {
        self.text_property("lock_id")
    }

    /// A string property that is not blank.
    fn text_property(&self, name: &str) -> (r: Option<String>)
        requires
            self.wf(),
        ensures
            r == self.text_prop(name@),
    {
        match self.get_string_property(name) {
            Some(s) => if trim(s.as_str()).unicode_len() > 0 {
                Some(s)
            } else {
                None
            },
            None => None,
        }
    }

    pub fn set_container_lock_id(&mut self, lock_id: &str)
        requires
            old(self).wf(),
        ensures
            Object::property_stored(*old(self), *final(self), "lock_id"@),
            final(self).string_prop("lock_id"@) matches Some(s) && s@ == lock_id@,
    {
        self.set_property_string("lock_id", lock_id);
    }

    /// Whether the container is currently locked. Ignored when no `lock_id` is set.
    pub fn container_is_locked(&self) -> (r: bool)
        requires
            self.wf(),
        ensures
            r == self.gate_locked(),
    {
        self.container_has_lock() && match self.get_bool_property("is_locked") {
            Some(b) => b,
            None => false,
        }
    }

    pub fn set_container_locked(&mut self, locked: bool)
        requires
            old(self).wf(),
        ensures
            Object::property_set(*old(self), *final(self), "is_locked"@, Value::Bool(locked)),
    {
        self.set_property_bool("is_locked", locked);
    }

    /// Ensure a container has a lock id, generating one from its object id if needed.
    pub fn ensure_container_lock_id(&mut self) -> (r: String)
        requires
            old(self).wf(),
        ensures
            final(self).wf(),
            old(self).lock_id() matches Some(l) ==> r == l && *final(self) == *old(self),
            old(self).lock_id() is None ==> {
                &&& r@ == "lock:"@ + old(self).id@
                &&& Object::property_stored(*old(self), *final(self), "lock_id"@)
                &&& (final(self).string_prop("lock_id"@) matches Some(s) && s@ == r@)
            },
    {
        if let Some(id) = self.container_lock_id() {
            return id;
        }
        let lock_id = concat2("lock:", self.id.as_str());
        self.set_container_lock_id(lock_id.as_str());
        lock_id
    }

    pub fn is_key(&self) -> (r: bool)
        requires
            self.wf(),
        ensures
            r == self.key(),
    {
        match self.get_bool_property("is_key") {
            Some(b) => b,
            None => false,
        }
    }

    pub fn key_lock_id(&self) -> (r: Option<String>)
        requires
            self.wf(),
        ensures
            r == self.lock_id(),
    {
        self.text_property("lock_id")
    }

    pub fn key_consumable(&self) -> (r: bool)
        requires
            self.wf(),
        ensures
            r == self.flag("key_consumable"@, false),
    {
        match self.get_bool_property("key_consumable") {
            Some(b) => b,
            None => false,
        }
    }

    pub fn lock_consumable(&self) -> (r: bool)
        requires
            self.wf(),
        ensures
            r == self.flag("lock_consumable"@, false),
    {
        match self.get_bool_property("lock_consumable") {
            Some(b) => b,
            None => false,
        }
    }

    pub fn is_breakable(&self) -> (r: bool)
        requires
            self.wf(),
        ensures
            r == self.flag("is_breakable"@, false),
    {
        match self.get_bool_property("is_breakable") {
            Some(b) => b,
            None => false,
        }
    }

    pub fn break_text(&self) -> (r: Option<String>)
        requires
            self.wf(),
        ensures
            r == self.text_prop("break_text"@),
    {
        self.text_property("break_text")
    }

    pub fn portal_kind(&self) -> (r: Option<PortalKind>)
        requires
            self.wf(),
        ensures
            r == self.portal_kind_spec(),
    {
        let parsed = match self.get_string_property("portal_kind") {
            Some(s) => PortalKind::parse(s.as_str()),
            None => None,
        };
        if parsed.is_some() {
            return parsed;
        }
        if match self.get_bool_property("is_window") {
            Some(b) => b,
            None => false,
        } {
            Some(PortalKind::Window)
        } else if match self.get_bool_property("is_door") {
            Some(b) => b,
            None => false,
        } {
            Some(PortalKind::Door)
        } else {
            None
        }
    }

    pub fn is_portal(&self) -> (r: bool)
        requires
            self.wf(),
        ensures
            r == self.portal_kind_spec() is Some,
    {
        self.portal_kind().is_some()
    }

    pub fn is_door(&self) -> (r: bool)
        requires
            self.wf(),
        ensures
            r == (self.portal_kind_spec() == Some(PortalKind::Door)),
    {
        match self.portal_kind() {
            Some(PortalKind::Door) => true,
            _ => false,
        }
    }

    pub fn is_window(&self) -> (r: bool)
        requires
            self.wf(),
        ensures
            r == (self.portal_kind_spec() == Some(PortalKind::Window)),
    {
        match self.portal_kind() {
            Some(PortalKind::Window) => true,
            _ => false,
        }
    }

    pub fn portal_direction(&self) -> (r: Option<String>)
        requires
            self.wf(),
        ensures
            r == self.string_prop("door_direction"@),
    {
        self.get_string_property("door_direction")
    }

    pub fn door_direction(&self) -> (r: Option<String>)
        requires
            self.wf(),
        ensures
            r == self.string_prop("door_direction"@),
    {
        self.portal_direction()
    }

    /// Resolved destination room id (set at bootstrap).
    pub fn portal_destination(&self) -> (r: Option<ObjectId>)
        requires
            self.wf(),
        ensures
            r == self.ref_prop("door_destination"@),
    {
        self.get_object_ref_property("door_destination")
    }

    pub fn door_destination(&self) -> (r: Option<ObjectId>)
        requires
            self.wf(),
        ensures
            r == self.ref_prop("door_destination"@),
    {
        self.portal_destination()
    }

    /// Destination area base name from MUDL (before bootstrap resolution).
    pub fn portal_destination_base(&self) -> (r: Option<String>)
        requires
            self.wf(),
        ensures
            r == self.string_prop("door_destination_base"@),
    {
        self.get_string_property("door_destination_base")
    }

    pub fn door_destination_base(&self) -> (r: Option<String>)
        requires
            self.wf(),
        ensures
            r == self.string_prop("door_destination_base"@),
    {
        self.portal_destination_base()
    }

    pub fn set_portal_destination(&mut self, destination: ObjectId)
        requires
            old(self).wf(),
        ensures
            Object::property_set(
                *old(self),
                *final(self),
                "door_destination"@,
                Value::ObjectRef(destination),
            ),
    {
        self.set_property_object_ref("door_destination", destination);
    }

    pub fn set_door_destination(&mut self, destination: ObjectId)
        requires
            old(self).wf(),
        ensures
            Object::property_set(
                *old(self),
                *final(self),
                "door_destination"@,
                Value::ObjectRef(destination),
            ),
    {
        self.set_portal_destination(destination);
    }

    pub fn portal_passable(&self) -> (r: bool)
        requires
            self.wf(),
        ensures
            r == match self.bool_prop("portal_passable"@) {
                Some(b) => b,
                None => match self.portal_kind_spec() {
                    Some(k) => k.passable_by_default(),
                    None => false,
                },
            },
    {
        match self.get_bool_property("portal_passable") {
            Some(b) => b,
            None => match self.portal_kind() {
                Some(k) => k.default_passable(),
                None => false,
            },
        }
    }

    pub fn portal_transparent(&self) -> (r: bool)
        requires
            self.wf(),
        ensures
            r == self.transparent(),
    {
        match self.get_bool_property("portal_transparent") {
            Some(b) => b,
            None => match self.portal_kind() {
                Some(k) => k.default_transparent(),
                None => false,
            },
        }
    }

    /// Whether the player can see through this portal into its destination.
    pub fn portal_allows_view(&self) -> (r: bool)
        requires
            self.wf(),
        ensures
            r == (self.portal_kind_spec() is Some && !self.gate_locked() && (self.transparent()
                || self.gate_open())),
    {
        if !self.is_portal() {
            return false;
        }
        if self.gate_is_locked() {
            return false;
        }
        self.portal_transparent() || self.gate_is_open()
    }

    /// Whether this object has a lock (`lock_id` set) — containers and portals.
    pub fn gate_has_lock(&self) -> (r: bool)
        requires
            self.wf(),
        ensures
            r == self.lock_id() is Some,
    {
        self.container_lock_id().is_some()
    }

    /// Open state for a portal or container.
    pub fn gate_is_open(&self) -> (r: bool)
        requires
            self.wf(),
        ensures
            r == self.gate_open(),
    {
        if self.is_portal() {
            return match self.get_bool_property("is_open") {
                Some(b) => b,
                None => false,
            };
        }
        if self.is_container() {
            return self.container_is_open();
        }
        true
    }

    pub fn set_gate_open(&mut self, open: bool)
        requires
            old(self).wf(),
        ensures
            Object::property_set(*old(self), *final(self), "is_open"@, Value::Bool(open)),
    {
        self.set_property_bool("is_open", open);
    }

    pub fn gate_is_locked(&self) -> (r: bool)
        requires
            self.wf(),
        ensures
            r == self.gate_locked(),
    {
        self.gate_has_lock() && match self.get_bool_property("is_locked") {
            Some(b) => b,
            None => false,
        }
    }

    pub fn set_gate_locked(&mut self, locked: bool)
        requires
            old(self).wf(),
        ensures
            Object::property_set(*old(self), *final(self), "is_locked"@, Value::Bool(locked)),
    {
        self.set_property_bool("is_locked", locked);
    }

    /// Whether `key` opens a lockable gate (container or portal).
    pub fn key_unlocks_gate(key: &Object, gate: &Object) -> (r: bool)
        requires
            key.wf(),
            gate.wf(),
        ensures
            r == key_opens(*key, *gate),
    {
        if !key.is_key() || !gate.gate_has_lock() {
            return false;
        }
        match (key.key_lock_id(), gate.container_lock_id()) {
            (Some(k), Some(c)) => str_eq(k.as_str(), c.as_str()),
            _ => false,
        }
    }

    /// Whether `key` opens `container` (supports one-to-one and shared lock ids).
    pub fn key_unlocks_container(key: &Object, container: &Object) -> (r: bool)
        requires
            key.wf(),
            container.wf(),
        ensures
            r == key_opens(*key, *container),
    {
        Object::key_unlocks_gate(key, container)
    }

    pub fn is_container(&self) -> (r: bool)
        requires
            self.wf(),
        ensures
            r == self.container_role(),
    {
        self.has_container_role()
    }

    pub fn is_wearable(&self) -> (r: bool)
        requires
            self.wf(),
        ensures
            r == self.wearable_role(),
    {
        self.has_wearable_role()
    }

    /// Whether this object has text the player can read.
    pub fn is_readable(&self) -> (r: bool)
        requires
            self.wf(),
        ensures
            r == self.readable(),
    {
        (match self.get_bool_property("is_readable") {
            Some(b) => b,
            None => false,
        }) || match self.read_text() {
            Some(text) => trim(text.as_str()).unicode_len() > 0,
            None => false,
        }
    }

    /// Text shown by the `read` command.
    pub fn read_text(&self) -> (r: Option<String>)
        requires
            self.wf(),
        ensures
            r == self.string_prop("read_text"@),
    {
        self.get_string_property("read_text")
    }

    /// Whether the player may write on this object.
    pub fn is_writable(&self) -> (r: bool)
        requires
            self.wf(),
        ensures
            r == self.flag("is_writable"@, false),
    {
        match self.get_bool_property("is_writable") {
            Some(b) => b,
            None => false,
        }
    }

    /// Player-written content.
    pub fn write_text(&self) -> (r: Option<String>)
        requires
            self.wf(),
        ensures
            r == self.string_prop("write_text"@),
    {
        self.get_string_property("write_text")
    }

    pub fn hand_slot(&self) -> (r: Option<String>)
        requires
            self.wf(),
        ensures
            r == self.string_prop("hand_slot"@),
    {
        self.get_string_property("hand_slot")
    }

    pub fn wear_slot(&self) -> (r: Option<String>)
        requires
            self.wf(),
        ensures
            r == self.string_prop("wear_slot"@),
    {
        self.get_string_property("wear_slot")
    }

    pub fn carried_slot(&self) -> (r: Option<String>)
        requires
            self.wf(),
        ensures
            r == self.string_prop("carried_slot"@),
    {
        self.get_string_property("carried_slot")
    }

    pub fn set_carried_slot(&mut self, slot: Option<&str>)
        requires
            old(self).wf(),
        ensures
            final(self).wf(),
            match slot {
                Some(s) => Object::property_stored(*old(self), *final(self), "carried_slot"@) && (
                final(self).string_prop("carried_slot"@) matches Some(v) && v@ == s@),
                None => same_frame(*old(self), *final(self)) && final(self).props() == old(
                    self,
                ).props().remove("carried_slot"@),
            },
    {
        match slot {
            Some(s) => self.set_property_string("carried_slot", s),
            None => {
                self.remove_property("carried_slot");
            },
        }
    }

    pub fn equipment_max_health_bonus(&self) -> (r: i64)
        requires
            self.wf(),
        ensures
            r == match self.int_prop("mod_max_health"@) {
                Some(n) => n,
                None => 0,
            },
    {
        match self.get_int_property("mod_max_health") {
            Some(n) => n,
            None => 0,
        }
    }

    pub fn equipment_stat_mods(&self) -> (r: Vec<(String, i64)>)
        requires
            self.wf(),
        ensures
            r@ == self.int_map("mod_stats"@),
    {
        self.get_int_map("mod_stats")
    }

    pub fn equipment_skill_mods(&self) -> (r: Vec<(String, i64)>)
        requires
            self.wf(),
        ensures
            r@ == self.int_map("mod_skills"@),
    {
        self.get_int_map("mod_skills")
    }

    pub fn equipment_grant_effects(&self) -> (r: Vec<String>)
        requires
            self.wf(),
        ensures
            r@ == self.string_list("grant_effects"@),
    {
        self.get_string_list("grant_effects")
    }

    /// Bonus added to the wearer's `max_weight` while this item is worn.
    pub fn carry_max_weight_bonus(&self) -> (r: i64)
        requires
            self.wf(),
        ensures
            r == match self.int_prop("mod_max_weight"@) {
                Some(n) => n,
                None => 0,
            },
    {
        match self.get_int_property("mod_max_weight") {
            Some(n) => n,
            None => 0,
        }
    }

    /// Items worn on body slots (subset of `body_slots` for wear-type slots).
    pub fn worn_items(&self) -> (r: Vec<(String, ObjectId)>)
        requires
            self.wf(),
        ensures
            r@ == self.ref_map("body_slots"@),
    {
        self.get_object_map_property("body_slots")
    }
}

} // verus!
