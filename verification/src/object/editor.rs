//! Builder mutations: `@set` and `@unset`.

use vstd::prelude::*;

use super::fields::{classify_key, is_one_of, kind_of, normal_key, FieldKind, FieldKindView};
use super::literal::{float_reading, literal_fault, literal_holds, reads_floats, LiteralFault};
use super::{same_frame, Object, ObjectId, PermissionFlags, Property, Value, Verb};
use crate::assoc::{find_key, table};
use crate::text::{
    concat2, contains, contains_seq, lower_seq, occurs_at, owned, split_once, split_once_str, str_eq, to_lower, trim,
    trim_seq, views,
};

pub use super::literal::parse_value_literal;

verus! {

/// Errors from builder set/unset operations.
#[derive(Debug, Clone, PartialEq, Eq)]
pub enum EditError {
    ReadOnly(String),
    InvalidValue(String),
    NotFound(String),
    Validation(String),
}

impl EditError {
    /// The message the error carries.
    pub open spec fn text(&self) -> Seq<char> {
        match self {
            EditError::ReadOnly(m) => m@,
            EditError::InvalidValue(m) => m@,
            EditError::NotFound(m) => m@,
            EditError::Validation(m) => m@,
        }
    }

    /// The message shown to the builder.
    pub fn message(&self) -> (r: &str)
        ensures
            r@ == self.text(),
    {
        match self {
            EditError::ReadOnly(m) => m.as_str(),
            EditError::InvalidValue(m) => m.as_str(),
            EditError::NotFound(m) => m.as_str(),
            EditError::Validation(m) => m.as_str(),
        }
    }
}

/// `after` is `before` with only its verbs changed.
pub open spec fn verbs_changed(before: Object, after: Object) -> bool {
    &&& after.wf()
    &&& same_frame(before, after)
    &&& after.properties == before.properties
    &&& after.event_handlers == before.event_handlers
}

/// `after` is `before` with only its properties changed.
pub open spec fn properties_changed(before: Object, after: Object) -> bool {
    &&& after.wf()
    &&& same_frame(before, after)
    &&& after.verbs == before.verbs
    &&& after.event_handlers == before.event_handlers
}

/// What `@unset` does to the object field `field` (`name`, `owner`,
/// `location`, `prototype` or `alias`): `Ok` with the new object, or the
/// refusal's message.
pub open spec fn unset_object_field(before: Object, after: Object, field: Seq<char>) -> Result<(), Seq<char>> {
    if field == "name"@ {
        Err("name cannot be unset"@)
    } else if field == "owner"@ {
        Err("owner cannot be unset"@)
    } else if field == "location"@ || field == "prototype"@ || field == "alias"@ {
        Ok(())
    } else {
        Err(field + " cannot be unset; use @set to change it"@)
    }
}

/// Apply `@unset <key>` to an object.
pub fn unset_field(obj: &mut Object, key: &str) -> (r: Result<(), EditError>)
    requires
        old(obj).wf(),
    ensures
        r is Err ==> *final(obj) == *old(obj),
        match kind_of(normal_key(key@)) {
            FieldKindView::Immutable(f) => r matches Err(EditError::ReadOnly(m)) && m@ == f
                + " cannot be unset"@,
            FieldKindView::Status => r matches Err(EditError::ReadOnly(m)) && m@
                == "status fields are calculated and cannot be unset"@,
            FieldKindView::Verb(n) => if table(old(obj).verbs@).contains_key(n) {
                &&& r is Ok
                &&& verbs_changed(*old(obj), *final(obj))
                &&& table(final(obj).verbs@) == table(old(obj).verbs@).remove(n)
            } else {
                r matches Err(EditError::NotFound(m)) && m@ == "verb."@ + n
            },
            FieldKindView::ObjectField(f) => match unset_object_field(*old(obj), *final(obj), f) {
                Ok(_) => {
                    &&& r is Ok
                    &&& final(obj).id == old(obj).id
                    &&& final(obj).name == old(obj).name
                    &&& final(obj).owner == old(obj).owner
                    &&& final(obj).permissions == old(obj).permissions
                    &&& final(obj).properties == old(obj).properties
                    &&& final(obj).verbs == old(obj).verbs
                    &&& final(obj).event_handlers == old(obj).event_handlers
                    &&& final(obj).is_deleted == old(obj).is_deleted
                    &&& final(obj).deleted_at == old(obj).deleted_at
                    &&& final(obj).revision == old(obj).revision
                    &&& final(obj).updated_at == old(obj).updated_at
                    &&& final(obj).location == (if f == "location"@ {
                        None
                    } else {
                        old(obj).location
                    })
                    &&& final(obj).prototype == (if f == "prototype"@ {
                        None
                    } else {
                        old(obj).prototype
                    })
                    &&& (if f == "alias"@ {
                        final(obj).aliases@.len() == 0
                    } else {
                        final(obj).aliases == old(obj).aliases
                    })
                },
                Err(m) => r matches Err(EditError::ReadOnly(e)) && e@ == m,
            },
            FieldKindView::StateProperty(k) => if old(obj).props().contains_key(k) {
                &&& r is Ok
                &&& properties_changed(*old(obj), *final(obj))
                &&& final(obj).props() == old(obj).props().remove(k)
            } else {
                r matches Err(EditError::NotFound(m)) && m@ == k
            },
            FieldKindView::ConfigProperty(k) => if old(obj).props().contains_key(k) {
                &&& r is Ok
                &&& properties_changed(*old(obj), *final(obj))
                &&& final(obj).props() == old(obj).props().remove(k)
            } else {
                r matches Err(EditError::NotFound(m)) && m@ == k
            },
        },
{
    proof {
        reveal_strlit("name");
        reveal_strlit("owner");
        reveal_strlit("location");
        reveal_strlit("prototype");
        reveal_strlit("alias");
    }
    match classify_key(key) {
        FieldKind::Immutable(field) => Err(EditError::ReadOnly(concat2(field, " cannot be unset"))),
        FieldKind::Status => Err(EditError::ReadOnly(owned("status fields are calculated and cannot be unset"))),
        FieldKind::Verb(name) => {
            if find_key(&obj.verbs, name.as_str()).is_none() {
                return Err(EditError::NotFound(concat2("verb.", name.as_str())));
            }
            obj.remove_verb(name.as_str());
            Ok(())
        },
        FieldKind::ObjectField(field) => {
            if str_eq(field, "name") {
                Err(EditError::ReadOnly(owned("name cannot be unset")))
            } else if str_eq(field, "owner") {
                Err(EditError::ReadOnly(owned("owner cannot be unset")))
            } else if str_eq(field, "location") {
                obj.location = None;
                Ok(())
            } else if str_eq(field, "prototype") {
                obj.prototype = None;
                Ok(())
            } else if str_eq(field, "alias") {
                obj.aliases.clear();
                Ok(())
            } else {
                Err(EditError::ReadOnly(concat2(field, " cannot be unset; use @set to change it")))
            }
        },
        FieldKind::StateProperty(k) => unset_property(obj, k.as_str()),
        FieldKind::ConfigProperty(k) => unset_property(obj, k.as_str()),
    }
}

/// Removes property `k`, or reports that there is none.
fn unset_property(obj: &mut Object, k: &str) -> (r: Result<(), EditError>)
    requires
        old(obj).wf(),
    ensures
        r is Err ==> *final(obj) == *old(obj),
        if old(obj).props().contains_key(k@) {
            &&& r is Ok
            &&& properties_changed(*old(obj), *final(obj))
            &&& final(obj).props() == old(obj).props().remove(k@)
        } else {
            r matches Err(EditError::NotFound(m)) && m@ == k@
        },
{
    if find_key(&obj.properties, k).is_none() {
        return Err(EditError::NotFound(owned(k)));
    }
    obj.remove_property(k);
    Ok(())
}

// ---------------------------------------------------------------------------
// Object references

/// An object's short id: its id without the `type:` prefix.
pub open spec fn short_id_of(id: Seq<char>) -> Seq<char> {
    match split_once(id, ":"@) {
        Some((_, rest)) => rest,
        None => id,
    }
}

/// `o` is an active object that `needle` (lower case) names by short id or
/// by display name, ASCII case ignored.
pub open spec fn names_object(needle: Seq<char>, o: Object) -> bool {
    !o.is_deleted && (short_id_of(o.id@) == needle || lower_seq(o.name@) == needle)
}

/// The ids of the objects of `objs` that `needle` names, in list order.
pub open spec fn named_ids(objs: Seq<Object>, needle: Seq<char>) -> Seq<Seq<char>>
    decreases objs.len(),
{
    if objs.len() == 0 {
        Seq::empty()
    } else {
        let rest = named_ids(objs.drop_last(), needle);
        if names_object(needle, objs.last()) {
            rest.push(objs.last().id@)
        } else {
            rest
        }
    }
}

/// Some object of `objs` has the id `id`.
pub open spec fn has_id(objs: Seq<Object>, id: Seq<char>) -> bool {
    exists|i: int| 0 <= i < objs.len() && (#[trigger] objs[i]).id@ == id
}

/// What a reference token resolves to, seen by `observer` among `objs`:
/// `Ok` with the id, or `Err` with the error's kind (as [`EditError`] names
/// it) and message.
pub open spec fn object_ref(token: Seq<char>, observer: Seq<char>, objs: Seq<Object>) -> Result<
    Seq<char>,
    (RefFault, Seq<char>),
> {
    let t = trim_seq(token);
    let needle = lower_seq(t);
    if t.len() == 0 || needle == "none"@ {
        Err((RefFault::Missing, "none"@))
    } else if needle == "you"@ || needle == "me"@ {
        Ok(observer)
    } else if contains_seq(t, ":"@) {
        if has_id(objs, t) {
            Ok(t)
        } else {
            Err((RefFault::Missing, t))
        }
    } else {
        let ids = named_ids(objs, needle);
        if ids.len() == 0 {
            Err((RefFault::Missing, t))
        } else if ids.len() == 1 {
            Ok(ids[0])
        } else {
            Err((RefFault::Ambiguous, "ambiguous object reference: "@ + t))
        }
    }
}

/// Why a reference did not resolve.
pub enum RefFault {
    /// Nothing matches ([`EditError::NotFound`]).
    Missing,
    /// More than one object matches ([`EditError::Validation`]).
    Ambiguous,
}

/// `r` is the outcome `o` describes.
pub open spec fn ref_outcome(r: Result<ObjectId, EditError>, o: Result<Seq<char>, (RefFault, Seq<char>)>) -> bool {
    match o {
        Ok(id) => r matches Ok(x) && x@ == id,
        Err((RefFault::Missing, m)) => r matches Err(EditError::NotFound(x)) && x@ == m,
        Err((RefFault::Ambiguous, m)) => r matches Err(EditError::Validation(x)) && x@ == m,
    }
}

fn short_id(id: &ObjectId) -> (r: &str)
    ensures
        r@ == short_id_of(id@),
{
    match split_once_str(id.as_str(), ":") {
        Some((_, rest)) => rest,
        None => id.as_str(),
    }
}

/// Resolve a token to an object ID (full id, short id, `you`/`me`, or
/// display name) among `objects`, as `observer` refers to them.
pub fn resolve_object_ref(token: &str, observer: &ObjectId, objects: &Vec<Object>) -> (r: Result<
    ObjectId,
    EditError,
>)
    ensures
        ref_outcome(r, object_ref(token@, observer@, objects@)),
{
    let t = trim(token);
    let needle = to_lower(t);
    if t.unicode_len() == 0 || str_eq(needle.as_str(), "none") {
        return Err(EditError::NotFound(owned("none")));
    }
    if str_eq(needle.as_str(), "you") || str_eq(needle.as_str(), "me") {
        return Ok(observer.clone());
    }
    if contains(t, ":") {
        let mut i: usize = 0;
        while i < objects.len()
            invariant
                0 <= i <= objects@.len(),
                forall|j: int| 0 <= j < i ==> (#[trigger] objects@[j]).id@ != t@,
                object_ref(token@, observer@, objects@) == (if has_id(objects@, t@) {
                    Ok::<Seq<char>, (RefFault, Seq<char>)>(t@)
                } else {
                    Err((RefFault::Missing, t@))
                }),
            decreases objects@.len() - i,
        {
            if str_eq(objects[i].id.as_str(), t) {
                assert(objects@[i as int].id@ == t@);
                assert(has_id(objects@, t@));
                return Ok(ObjectId::new(t));
            }
            i += 1;
        }
        return Err(EditError::NotFound(owned(t)));
    }
    let mut count: usize = 0;
    let mut first: Option<usize> = None;
    let mut i: usize = 0;
    while i < objects.len()
        invariant
            0 <= i <= objects@.len(),
            needle@ == lower_seq(t@),
            count == named_ids(objects@.take(i as int), needle@).len(),
            count <= i,
            count == 0 <==> first is None,
            first matches Some(f) ==> f < i && named_ids(objects@.take(i as int), needle@)[0]
                == objects@[f as int].id@,
        decreases objects@.len() - i,
    {
        let o = &objects[i];
        let hit = o.is_active() && (str_eq(short_id(&o.id), needle.as_str()) || eq_lower(
            o.name.as_str(),
            needle.as_str(),
        ));
        let ghost before = named_ids(objects@.take(i as int), needle@);
        assert(objects@.take(i + 1).drop_last() =~= objects@.take(i as int));
        assert(objects@.take(i + 1).last() == objects@[i as int]);
        if hit {
            if first.is_none() {
                first = Some(i);
            }
            count = count + 1;
            assert(named_ids(objects@.take(i + 1), needle@) == before.push(objects@[i as int].id@));
        }
        i += 1;
    }
    assert(objects@.take(objects@.len() as int) =~= objects@);
    if count == 0 {
        Err(EditError::NotFound(owned(t)))
    } else if count == 1 {
        match first {
            Some(f) => Ok(objects[f].id.clone()),
            None => Err(EditError::NotFound(owned(t))),
        }
    } else {
        Err(EditError::Validation(concat2("ambiguous object reference: ", t)))
    }
}

/// `s` in ASCII lower case is `lowered`.
fn eq_lower(s: &str, lowered: &str) -> (r: bool)
    ensures
        r == (lower_seq(s@) == lowered@),
{
    let l = to_lower(s);
    str_eq(l.as_str(), lowered)
}

// ---------------------------------------------------------------------------
// `@set`

/// `r` can give `o` for some token whose characters are `t`.
pub open spec fn resolves<R: Fn(&str) -> Result<ObjectId, EditError>>(
    r: R,
    t: Seq<char>,
    o: Result<ObjectId, EditError>,
) -> bool {
    exists|x: &str| #![trigger r.ensures((x,), o)] x@ == t && r.ensures((x,), o)
}

/// The object-reference resolver `r` as a function of the token it reads.
pub open spec fn resolution<R: Fn(&str) -> Result<ObjectId, EditError>>(r: R) -> spec_fn(
    Seq<char>,
) -> Result<ObjectId, EditError> {
    |t: Seq<char>| choose|o: Result<ObjectId, EditError>| #[trigger] resolves(r, t, o)
}

/// `r` resolves any token, and tokens with the same characters resolve alike.
pub open spec fn resolves_refs<R: Fn(&str) -> Result<ObjectId, EditError>>(r: R) -> bool {
    &&& forall|x: &str| #[trigger] r.requires((x,))
    &&& forall|x: &str, y: &str, o1: Result<ObjectId, EditError>, o2: Result<ObjectId, EditError>|
        #![trigger r.ensures((x,), o1), r.ensures((y,), o2)]
        x@ == y@ && r.ensures((x,), o1) && r.ensures((y,), o2) ==> o1 == o2
}

fn resolve_ref<R: Fn(&str) -> Result<ObjectId, EditError>>(token: &str, resolve: &R) -> (r: Result<
    ObjectId,
    EditError,
>)
    requires
        resolves_refs(*resolve),
    ensures
        r == resolution(*resolve)(token@),
{
    let o = resolve(token);
    assert(resolves(*resolve, token@, o));
    o
}

/// `w` is `v` with every string that resolves to an object replaced by a
/// reference to it, in lists and mapping values too.
pub open spec fn refs_resolved(
    v: Value,
    w: Value,
    res: spec_fn(Seq<char>) -> Result<ObjectId, EditError>,
) -> bool
    decreases v,
    via refs_resolved_decreases
{
    match v {
        Value::String(s) => match res(s@) {
            Ok(id) => w == Value::ObjectRef(id),
            Err(_) => w matches Value::String(t) && t@ == s@,
        },
        Value::List(xs) => w matches Value::List(ys) && ys@.len() == xs@.len() && forall|i: int|
            0 <= i < xs@.len() ==> refs_resolved(#[trigger] xs@[i], ys@[i], res),
        Value::Mapping(es) => w matches Value::Mapping(fs) && fs@.len() == es@.len() && forall|i: int|
            0 <= i < es@.len() ==> #[trigger] fs@[i].0@ == es@[i].0@ && refs_resolved(
                es@[i].1,
                fs@[i].1,
                res,
            ),
        Value::ObjectRef(id) => w matches Value::ObjectRef(j) && j@ == id@,
        _ => w == v,
    }
}

#[via_fn]
proof fn refs_resolved_decreases(
    v: Value,
    w: Value,
    res: spec_fn(Seq<char>) -> Result<ObjectId, EditError>,
) {
    match v {
        Value::List(x) => {
            assert forall|i: int| 0 <= i < x@.len() implies decreases_to!(v => x@[i]) by {
                vstd::std_specs::vec::axiom_vec_index_decreases(x, i);
                assert(decreases_to!(v => x));
            }
        },
        Value::Mapping(x) => {
            assert forall|i: int| 0 <= i < x@.len() implies decreases_to!(v => x@[i].1) by {
                vstd::std_specs::vec::axiom_vec_index_decreases(x, i);
                assert(decreases_to!(v => x));
                assert(decreases_to!(x@[i] => x@[i].1));
            }
        },
        _ => {},
    }
}

/// Replace strings that name objects by references to them.
fn resolve_value_refs<R: Fn(&str) -> Result<ObjectId, EditError>>(value: &Value, resolve: &R) -> (r:
    Value)
    requires
        resolves_refs(*resolve),
    ensures
        refs_resolved(*value, r, resolution(*resolve)),
    decreases value,
{
    match value {
        Value::String(s) => match resolve_ref(s.as_str(), resolve) {
            Ok(id) => Value::ObjectRef(id),
            Err(_) => Value::String(owned(s.as_str())),
        },
        Value::List(items) => {
            let mut out: Vec<Value> = Vec::new();
            let mut i: usize = 0;
            while i < items.len()
                invariant
                    resolves_refs(*resolve),
                    0 <= i <= items@.len(),
                    out@.len() == i,
                    *value == Value::List(*items),
                    forall|j: int|
                        0 <= j < i ==> refs_resolved(
                            #[trigger] items@[j],
                            out@[j],
                            resolution(*resolve),
                        ),
                decreases items@.len() - i,
            {
                proof {
                    vstd::std_specs::vec::axiom_vec_index_decreases(*items, i as int);
                    assert(decreases_to!(*value => (*value)->List_0));
                    assert(decreases_to!(*value => items[i as int]));
                }
                out.push(resolve_value_refs(&items[i], resolve));
                i += 1;
            }
            Value::List(out)
        },
        Value::Mapping(entries) => {
            let mut out: Vec<(String, Value)> = Vec::new();
            let mut i: usize = 0;
            while i < entries.len()
                invariant
                    resolves_refs(*resolve),
                    0 <= i <= entries@.len(),
                    out@.len() == i,
                    *value == Value::Mapping(*entries),
                    forall|j: int|
                        0 <= j < i ==> #[trigger] out@[j].0@ == entries@[j].0@ && refs_resolved(
                            entries@[j].1,
                            out@[j].1,
                            resolution(*resolve),
                        ),
                decreases entries@.len() - i,
            {
                proof {
                    vstd::std_specs::vec::axiom_vec_index_decreases(*entries, i as int);
                    assert(decreases_to!(*value => (*value)->Mapping_0));
                    assert(decreases_to!(*value => entries[i as int]));
                    assert(decreases_to!(*value => entries[i as int].1));
                }
                let k = owned(entries[i].0.as_str());
                let x = resolve_value_refs(&entries[i].1, resolve);
                out.push((k, x));
                i += 1;
            }
            Value::Mapping(out)
        },
        Value::ObjectRef(id) => Value::ObjectRef(id.clone()),
        Value::Int(n) => Value::Int(*n),
        Value::Bool(b) => Value::Bool(*b),
        Value::Float(f) => Value::Float(*f),
    }
}

pub open spec fn config_number_keys() -> Seq<Seq<char>> {
    seq!["weight"@, "volume"@]
}

pub open spec fn config_integer_keys() -> Seq<Seq<char>> {
    seq!["capacity"@, "max_weight"@, "max_volume"@, "stack_count"@, "max_stack"@]
}

pub open spec fn config_flag_keys() -> Seq<Seq<char>> {
    seq!["is_container"@, "is_wearable"@, "is_pocketable"@, "stackable"@]
}

/// Why `v` does not suit the config property `key`, if it does not: weight
/// and volume take numbers, capacities and stack sizes integers, and the
/// role flags booleans.
pub open spec fn config_complaint(key: Seq<char>, v: Value) -> Option<Seq<char>> {
    if config_number_keys().contains(key) {
        if v is Int || v is Float {
            None
        } else {
            Some(key + " requires a number"@)
        }
    } else if config_integer_keys().contains(key) {
        if v is Int {
            None
        } else {
            Some(key + " requires an integer"@)
        }
    } else if config_flag_keys().contains(key) && !(v is Bool) {
        Some(key + " requires true or false"@)
    } else {
        None
    }
}

/// Check a config property's value before it is stored.
fn validate_config_value(key: &str, value: &Value) -> (r: Result<(), EditError>)
    ensures
        match config_complaint(key@, *value) {
            None => r is Ok,
            Some(m) => r matches Err(EditError::InvalidValue(e)) && e@ == m,
        },
{
    let numbers: Vec<&str> = vec!["weight", "volume"];
    let integers: Vec<&str> = vec!["capacity", "max_weight", "max_volume", "stack_count", "max_stack"];
    let flags: Vec<&str> = vec!["is_container", "is_wearable", "is_pocketable", "stackable"];
    proof {
        reveal_strlit("weight");
        reveal_strlit("volume");
        reveal_strlit("capacity");
        reveal_strlit("max_weight");
        reveal_strlit("max_volume");
        reveal_strlit("stack_count");
        reveal_strlit("max_stack");
        reveal_strlit("is_container");
        reveal_strlit("is_wearable");
        reveal_strlit("is_pocketable");
        reveal_strlit("stackable");
        assert(numbers@.map_values(|k: &str| k@) =~= config_number_keys());
        assert(integers@.map_values(|k: &str| k@) =~= config_integer_keys());
        assert(flags@.map_values(|k: &str| k@) =~= config_flag_keys());
    }
    if is_one_of(key, &numbers) {
        match value {
            Value::Int(_) | Value::Float(_) => {},
            _ => {
                return Err(EditError::InvalidValue(concat2(key, " requires a number")));
            },
        }
    } else if is_one_of(key, &integers) {
        match value {
            Value::Int(_) => {},
            _ => {
                return Err(EditError::InvalidValue(concat2(key, " requires an integer")));
            },
        }
    } else if is_one_of(key, &flags) {
        match value {
            Value::Bool(_) => {},
            _ => {
                return Err(EditError::InvalidValue(concat2(key, " requires true or false")));
            },
        }
    }
    Ok(())
}

/// `after` is `before` with at most the object field `field` changed.
pub open spec fn only_field_changed(before: Object, after: Object, field: Seq<char>) -> bool {
    &&& after.id == before.id
    &&& (field != "name"@ ==> after.name == before.name)
    &&& (field != "alias"@ ==> after.aliases == before.aliases)
    &&& (field != "location"@ ==> after.location == before.location)
    &&& (field != "prototype"@ ==> after.prototype == before.prototype)
    &&& (field != "owner"@ ==> after.owner == before.owner)
    &&& after.permissions == before.permissions
    &&& after.properties == before.properties
    &&& after.verbs == before.verbs
    &&& after.event_handlers == before.event_handlers
    &&& after.is_deleted == before.is_deleted
    &&& after.deleted_at == before.deleted_at
    &&& after.revision == before.revision
    &&& after.updated_at == before.updated_at
}

/// What `@set` does to the object field `field` with the text `raw`:
/// `name` and `alias` take the trimmed text, which must not be blank (an
/// alias already present is not added twice); `owner`, `location` and
/// `prototype` take the object `raw` resolves to, or fail as it does.
pub open spec fn field_set(
    before: Object,
    after: Object,
    field: Seq<char>,
    raw: Seq<char>,
    res: spec_fn(Seq<char>) -> Result<ObjectId, EditError>,
    r: Result<(), EditError>,
) -> bool {
    let t = trim_seq(raw);
    if field == "name"@ {
        if t.len() == 0 {
            r matches Err(EditError::InvalidValue(m)) && m@ == "name cannot be empty"@
        } else {
            r is Ok && only_field_changed(before, after, field) && after.name@ == t
        }
    } else if field == "owner"@ || field == "location"@ || field == "prototype"@ {
        match res(raw) {
            Ok(id) => {
                &&& r is Ok
                &&& only_field_changed(before, after, field)
                &&& (field == "owner"@ ==> after.owner == id)
                &&& (field == "location"@ ==> after.location == Some(id))
                &&& (field == "prototype"@ ==> after.prototype == Some(id))
            },
            Err(e) => r == Err::<(), EditError>(e),
        }
    } else if field == "alias"@ {
        if t.len() == 0 {
            r matches Err(EditError::InvalidValue(m)) && m@ == "alias cannot be empty"@
        } else {
            &&& r is Ok
            &&& only_field_changed(before, after, field)
            &&& views(after.aliases@) == (if views(before.aliases@).contains(t) {
                views(before.aliases@)
            } else {
                views(before.aliases@).push(t)
            })
        }
    } else {
        r matches Err(EditError::Validation(m)) && m@ == "unknown object field: "@ + field
    }
}

/// What `@set` does to the property `k` with the text `raw`: the text is read
/// as a literal, strings in it that name objects become references, a config
/// property (`config`) must suit its key, and the value is stored, owned.
pub open spec fn property_assigned(
    before: Object,
    after: Object,
    k: Seq<char>,
    raw: Seq<char>,
    floats: spec_fn(Seq<char>) -> Option<u64>,
    res: spec_fn(Seq<char>) -> Result<ObjectId, EditError>,
    config: bool,
    r: Result<(), EditError>,
) -> bool {
    match literal_fault(raw, floats) {
        LiteralFault::Invalid(m) => r matches Err(EditError::InvalidValue(e)) && e@ == m,
        _ => exists|v: Value, w: Value|
            #![trigger literal_holds(raw, v, floats), refs_resolved(v, w, res)]
            {
                &&& literal_holds(raw, v, floats)
                &&& refs_resolved(v, w, res)
                &&& if config && config_complaint(k, w) is Some {
                    r matches Err(EditError::InvalidValue(e)) && e@ == config_complaint(k, w)->0
                } else {
                    r is Ok && Object::property_set(before, after, k, w)
                }
            },
    }
}

/// Whether one of `aliases` reads `a`.
fn has_alias(aliases: &Vec<String>, a: &str) -> (r: bool)
    ensures
        r == views(aliases@).contains(a@),
{
    let ghost vs = views(aliases@);
    let mut i: usize = 0;
    while i < aliases.len()
        invariant
            0 <= i <= aliases@.len(),
            vs == views(aliases@),
            forall|j: int| 0 <= j < i ==> vs[j] != a@,
        decreases aliases@.len() - i,
    {
        if str_eq(aliases[i].as_str(), a) {
            assert(vs[i as int] == a@);
            return true;
        }
        i += 1;
    }
    false
}

fn set_object_field<R: Fn(&str) -> Result<ObjectId, EditError>>(
    obj: &mut Object,
    field: &str,
    raw_value: &str,
    resolve: &R,
) -> (r: Result<(), EditError>)
    requires
        resolves_refs(*resolve),
    ensures
        r is Err ==> *final(obj) == *old(obj),
        field_set(*old(obj), *final(obj), field@, raw_value@, resolution(*resolve), r),
{
    proof {
        reveal_strlit("name");
        reveal_strlit("owner");
        reveal_strlit("location");
        reveal_strlit("prototype");
        reveal_strlit("alias");
        assert("owner"@.len() == 5 && "location"@.len() == 8 && "prototype"@.len() == 9);
        assert("owner"@ != "location"@ && "owner"@ != "prototype"@ && "location"@ != "prototype"@);
    }
    if str_eq(field, "name") {
        let name = trim(raw_value);
        if name.unicode_len() == 0 {
            return Err(EditError::InvalidValue(owned("name cannot be empty")));
        }
        obj.name = owned(name);
        Ok(())
    } else if str_eq(field, "owner") {
        match resolve_ref(raw_value, resolve) {
            Ok(id) => {
                obj.owner = id;
                Ok(())
            },
            Err(e) => Err(e),
        }
    } else if str_eq(field, "location") {
        match resolve_ref(raw_value, resolve) {
            Ok(id) => {
                obj.location = Some(id);
                Ok(())
            },
            Err(e) => Err(e),
        }
    } else if str_eq(field, "prototype") {
        match resolve_ref(raw_value, resolve) {
            Ok(id) => {
                obj.prototype = Some(id);
                Ok(())
            },
            Err(e) => Err(e),
        }
    } else if str_eq(field, "alias") {
        let alias = trim(raw_value);
        if alias.unicode_len() == 0 {
            return Err(EditError::InvalidValue(owned("alias cannot be empty")));
        }
        let present = has_alias(&obj.aliases, alias);
        if !present {
            let ghost before = obj.aliases@;
            obj.aliases.push(owned(alias));
            assert(views(obj.aliases@) =~= views(before).push(alias@));
        }
        Ok(())
    } else {
        Err(EditError::Validation(concat2("unknown object field: ", field)))
    }
}

fn set_property<R: Fn(&str) -> Result<ObjectId, EditError>, F: Fn(&str) -> Option<u64>>(
    obj: &mut Object,
    k: String,
    raw_value: &str,
    resolve: &R,
    finite_float_bits: &F,
    config: bool,
) -> (r: Result<(), EditError>)
    requires
        old(obj).wf(),
        resolves_refs(*resolve),
        reads_floats(*finite_float_bits),
        literal_fault(raw_value@, float_reading(*finite_float_bits)) != LiteralFault::LoneQuote,
    ensures
        r is Err ==> *final(obj) == *old(obj),
        property_assigned(
            *old(obj),
            *final(obj),
            k@,
            raw_value@,
            float_reading(*finite_float_bits),
            resolution(*resolve),
            config,
            r,
        ),
{
    let value = match parse_value_literal(raw_value, finite_float_bits) {
        Ok(v) => v,
        Err(e) => {
            return Err(e);
        },
    };
    let value = resolve_value_refs(&value, resolve);
    if config {
        match validate_config_value(k.as_str(), &value) {
            Ok(()) => {},
            Err(e) => {
                return Err(e);
            },
        }
    }
    let ghost kv = k@;
    let ghost stored = value;
    obj.add_property(
        Property { name: k, value, permissions: PermissionFlags::owner(), behavior: None },
    );
    assert(obj.props()[kv].value == stored);
    Ok(())
}

/// Apply `@set <key> <value>` to an object. Object references in the value
/// are resolved by `resolve` (by id, `you`/`me`, or name, as the session
/// sees the world); whether text is a finite float, and its bits, is what
/// `finite_float_bits` says.
pub fn set_field<R: Fn(&str) -> Result<ObjectId, EditError>, F: Fn(&str) -> Option<u64>>(
    obj: &mut Object,
    key: &str,
    raw_value: &str,
    resolve: &R,
    finite_float_bits: &F,
) -> (r: Result<(), EditError>)
    requires
        old(obj).wf(),
        resolves_refs(*resolve),
        reads_floats(*finite_float_bits),
        (kind_of(normal_key(key@)) is StateProperty || kind_of(normal_key(key@)) is ConfigProperty)
            ==> literal_fault(raw_value@, float_reading(*finite_float_bits))
            != LiteralFault::LoneQuote,
    ensures
        r is Err ==> *final(obj) == *old(obj),
        match kind_of(normal_key(key@)) {
            FieldKindView::Immutable(f) => r matches Err(EditError::ReadOnly(m)) && m@ == f
                + " cannot be changed"@,
            FieldKindView::Status => r matches Err(EditError::ReadOnly(m)) && m@
                == "status fields are calculated; use @examine to view"@,
            FieldKindView::Verb(n) => if trim_seq(raw_value@).len() == 0 {
                r matches Err(EditError::InvalidValue(m)) && m@ == "verb code cannot be empty"@
            } else {
                &&& r is Ok
                &&& verbs_changed(*old(obj), *final(obj))
                &&& table(final(obj).verbs@) == table(old(obj).verbs@).insert(
                    n,
                    table(final(obj).verbs@)[n],
                )
                &&& table(final(obj).verbs@)[n].name@ == n
                &&& table(final(obj).verbs@)[n].code@ == trim_seq(raw_value@)
                &&& table(final(obj).verbs@)[n].permissions.bits == 1
            },
            FieldKindView::ObjectField(f) => field_set(
                *old(obj),
                *final(obj),
                f,
                raw_value@,
                resolution(*resolve),
                r,
            ),
            FieldKindView::StateProperty(k) => property_assigned(
                *old(obj),
                *final(obj),
                k,
                raw_value@,
                float_reading(*finite_float_bits),
                resolution(*resolve),
                false,
                r,
            ),
            FieldKindView::ConfigProperty(k) => property_assigned(
                *old(obj),
                *final(obj),
                k,
                raw_value@,
                float_reading(*finite_float_bits),
                resolution(*resolve),
                true,
                r,
            ),
        },
{
    match classify_key(key) {
        FieldKind::Immutable(field) => Err(EditError::ReadOnly(concat2(field, " cannot be changed"))),
        FieldKind::Status => Err(
            EditError::ReadOnly(owned("status fields are calculated; use @examine to view")),
        ),
        FieldKind::Verb(name) => {
            let code = trim(raw_value);
            if code.unicode_len() == 0 {
                return Err(EditError::InvalidValue(owned("verb code cannot be empty")));
            }
            let ghost n = name@;
            obj.add_verb(Verb { name, code: owned(code), permissions: PermissionFlags::owner() });
            assert(table(obj.verbs@).contains_key(n));
            Ok(())
        },
        FieldKind::ObjectField(field) => set_object_field(obj, field, raw_value, resolve),
        FieldKind::StateProperty(k) => set_property(obj, k, raw_value, resolve, finite_float_bits, false),
        FieldKind::ConfigProperty(k) => set_property(obj, k, raw_value, resolve, finite_float_bits, true),
    }
}

/// `@set owner|location|prototype <ref>` succeeds exactly when `<ref>`
/// resolves; then the field holds the object it resolves to (the owner
/// itself, the location and the prototype as `Some` of it) and the object's
/// other fields, properties and verbs are as before; otherwise the error is
/// the resolver's.
pub proof fn law_reference_field_takes_resolved_id(
    before: Object,
    after: Object,
    field: Seq<char>,
    raw: Seq<char>,
    res: spec_fn(Seq<char>) -> Result<ObjectId, EditError>,
    r: Result<(), EditError>,
)
    requires
        field == "owner"@ || field == "location"@ || field == "prototype"@,
        field_set(before, after, field, raw, res, r),
    ensures
        r is Ok <==> res(raw) is Ok,
        res(raw) matches Err(e) ==> r == Err::<(), EditError>(e),
        res(raw) matches Ok(id) ==> {
            &&& (field == "owner"@ ==> after.owner == id && after.location == before.location
                && after.prototype == before.prototype)
            &&& (field == "location"@ ==> after.location == Some(id) && after.owner == before.owner
                && after.prototype == before.prototype)
            &&& (field == "prototype"@ ==> after.prototype == Some(id) && after.owner == before.owner
                && after.location == before.location)
            &&& after.id == before.id
            &&& after.name == before.name
            &&& after.aliases == before.aliases
            &&& after.properties == before.properties
            &&& after.verbs == before.verbs
        },
{
    reveal_strlit("name");
    reveal_strlit("owner");
    reveal_strlit("location");
    reveal_strlit("prototype");
    reveal_strlit("alias");
    assert("name"@.len() == 4 && "owner"@.len() == 5 && "location"@.len() == 8 && "prototype"@.len() == 9
        && "alias"@.len() == 5);
    assert("owner"@[0] != "alias"@[0]);
}

/// `@set name <text>` and `@set alias <text>` take the trimmed text: a blank
/// one is refused and nothing else happens; otherwise the name becomes the
/// text, or the text joins the aliases unless it is one already, and the
/// object's other fields, properties and verbs stay as they were.
pub proof fn law_name_and_alias_fields(
    before: Object,
    after: Object,
    field: Seq<char>,
    raw: Seq<char>,
    res: spec_fn(Seq<char>) -> Result<ObjectId, EditError>,
    r: Result<(), EditError>,
)
    requires
        field == "name"@ || field == "alias"@,
        field_set(before, after, field, raw, res, r),
    ensures
        trim_seq(raw).len() == 0 ==> r is Err,
        trim_seq(raw).len() > 0 ==> {
            &&& r is Ok
            &&& after.id == before.id
            &&& after.owner == before.owner
            &&& after.location == before.location
            &&& after.prototype == before.prototype
            &&& after.properties == before.properties
            &&& after.verbs == before.verbs
            &&& (field == "name"@ ==> after.name@ == trim_seq(raw) && after.aliases == before.aliases)
            &&& (field == "alias"@ ==> after.name == before.name && views(after.aliases@).contains(trim_seq(raw))
                && (views(before.aliases@).contains(trim_seq(raw)) ==> views(after.aliases@) == views(
                before.aliases@)) && (!views(before.aliases@).contains(trim_seq(raw)) ==> views(after.aliases@)
                == views(before.aliases@).push(trim_seq(raw))))
        },
{
    reveal_strlit("name");
    reveal_strlit("owner");
    reveal_strlit("location");
    reveal_strlit("prototype");
    reveal_strlit("alias");
    assert("name"@.len() == 4 && "owner"@.len() == 5 && "location"@.len() == 8 && "prototype"@.len() == 9
        && "alias"@.len() == 5);
    assert("owner"@[0] != "alias"@[0]);
    if field == "alias"@ && trim_seq(raw).len() > 0 {
        let vs = views(before.aliases@);
        if !vs.contains(trim_seq(raw)) {
            assert(vs.push(trim_seq(raw))[vs.len() as int] == trim_seq(raw));
        }
    }
}

/// `you` and `me` (any case, surrounding blanks ignored) always stand for
/// the observer, whatever objects there are.
pub proof fn law_pronoun_is_observer(token: Seq<char>, observer: Seq<char>, objs: Seq<Object>)
    requires
        lower_seq(trim_seq(token)) == "you"@ || lower_seq(trim_seq(token)) == "me"@,
    ensures
        object_ref(token, observer, objs) == Ok::<Seq<char>, (RefFault, Seq<char>)>(observer),
{
    reveal_strlit("you");
    reveal_strlit("me");
    reveal_strlit("none");
    assert("you"@.len() == 3 && "me"@.len() == 2 && "none"@.len() == 4);
    assert(lower_seq(trim_seq(token)).len() == trim_seq(token).len());
}

/// A token with `:` is a full id: it resolves to itself when an object has
/// that id and is missing otherwise; names are not consulted.
pub proof fn law_full_id_reference(token: Seq<char>, observer: Seq<char>, objs: Seq<Object>)
    requires
        contains_seq(trim_seq(token), ":"@),
    ensures
        ({
            let t = trim_seq(token);
            if exists|i: int| 0 <= i < objs.len() && (#[trigger] objs[i]).id@ == t {
                object_ref(token, observer, objs) == Ok::<Seq<char>, (RefFault, Seq<char>)>(t)
            } else {
                object_ref(token, observer, objs) == Err::<Seq<char>, (RefFault, Seq<char>)>((RefFault::Missing, t))
            }
        }),
{
    let t = trim_seq(token);
    let needle = lower_seq(t);
    reveal_strlit(":");
    reveal_strlit("you");
    reveal_strlit("me");
    reveal_strlit("none");
    let k = choose|k: int| occurs_at(t, ":"@, k);
    assert(t.subrange(k, k + 1)[0] == t[k]);
    assert(t[k] == ':');
    assert(needle[k] == ':');
    assert(needle != "none"@ && needle != "you"@ && needle != "me"@) by {
        assert("none"@ =~= seq!['n', 'o', 'n', 'e']);
        assert("you"@ =~= seq!['y', 'o', 'u']);
        assert("me"@ =~= seq!['m', 'e']);
    }
    assert(t.len() > 0);
}

proof fn lemma_none_named(objs: Seq<Object>, needle: Seq<char>)
    requires
        forall|j: int| 0 <= j < objs.len() ==> !names_object(needle, #[trigger] objs[j]),
    ensures
        named_ids(objs, needle).len() == 0,
    decreases objs.len(),
{
    if objs.len() > 0 {
        lemma_none_named(objs.drop_last(), needle);
    }
}

proof fn lemma_one_named(objs: Seq<Object>, needle: Seq<char>, i: int)
    requires
        0 <= i < objs.len(),
        names_object(needle, objs[i]),
        forall|j: int| 0 <= j < objs.len() && j != i ==> !names_object(needle, #[trigger] objs[j]),
    ensures
        named_ids(objs, needle) == seq![objs[i].id@],
    decreases objs.len(),
{
    let init = objs.drop_last();
    if i == objs.len() - 1 {
        lemma_none_named(init, needle);
        assert(named_ids(init, needle) =~= Seq::<Seq<char>>::empty());
    } else {
        lemma_one_named(init, needle, i);
    }
}

/// A name or short id (no `:`, not a pronoun or `none`) that exactly one
/// active object answers to resolves to that object's id; deleted objects
/// never count.
pub proof fn law_unique_name_reference(token: Seq<char>, observer: Seq<char>, objs: Seq<Object>, i: int)
    requires
        trim_seq(token).len() > 0,
        !contains_seq(trim_seq(token), ":"@),
        ({
            let needle = lower_seq(trim_seq(token));
            needle != "none"@ && needle != "you"@ && needle != "me"@
        }),
        0 <= i < objs.len(),
        !objs[i].is_deleted,
        ({
            let needle = lower_seq(trim_seq(token));
            lower_seq(objs[i].name@) == needle || short_id_of(objs[i].id@) == needle
        }),
        forall|j: int|
            0 <= j < objs.len() && j != i ==> (#[trigger] objs[j]).is_deleted || (lower_seq(objs[j].name@)
                != lower_seq(trim_seq(token)) && short_id_of(objs[j].id@) != lower_seq(trim_seq(token))),
    ensures
        object_ref(token, observer, objs) == Ok::<Seq<char>, (RefFault, Seq<char>)>(objs[i].id@),
{
    lemma_one_named(objs, lower_seq(trim_seq(token)), i);
}

proof fn lemma_named_ids_sound(objs: Seq<Object>, needle: Seq<char>)
    ensures
        forall|k: int|
            0 <= k < named_ids(objs, needle).len() ==> exists|i: int|
                0 <= i < objs.len() && names_object(needle, #[trigger] objs[i]) && objs[i].id@
                    == #[trigger] named_ids(objs, needle)[k],
    decreases objs.len(),
{
    if objs.len() > 0 {
        let init = objs.drop_last();
        lemma_named_ids_sound(init, needle);
        assert forall|k: int| 0 <= k < named_ids(objs, needle).len() implies exists|i: int|
            0 <= i < objs.len() && names_object(needle, #[trigger] objs[i]) && objs[i].id@ == #[trigger] named_ids(
                objs,
                needle,
            )[k] by {
            if k < named_ids(init, needle).len() {
                let i = choose|i: int|
                    0 <= i < init.len() && names_object(needle, #[trigger] init[i]) && init[i].id@ == named_ids(
                        init,
                        needle,
                    )[k];
                assert(objs[i] == init[i]);
            } else {
                assert(objs[objs.len() - 1] == objs.last());
            }
        }
    }
}

/// A name or short id (no `:`) resolves only to an active object that
/// answers to it: by display name (case ignored) or by short id.
pub proof fn law_name_reference_sound(token: Seq<char>, observer: Seq<char>, objs: Seq<Object>)
    requires
        !contains_seq(trim_seq(token), ":"@),
        ({
            let needle = lower_seq(trim_seq(token));
            needle != "you"@ && needle != "me"@
        }),
    ensures
        object_ref(token, observer, objs) matches Ok(id) ==> exists|i: int|
            0 <= i < objs.len() && !(#[trigger] objs[i]).is_deleted && objs[i].id@ == id && (lower_seq(
                objs[i].name@,
            ) == lower_seq(trim_seq(token)) || short_id_of(objs[i].id@) == lower_seq(trim_seq(token))),
{
    lemma_named_ids_sound(objs, lower_seq(trim_seq(token)));
}

} // verus!
