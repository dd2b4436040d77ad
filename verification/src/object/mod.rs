//! The object model: every room, item, player and NPC is an [`Object`] whose
//! state lives in named properties.






pub mod roles;
pub mod setup;
pub mod weight;
pub mod maps;
pub mod fields;
pub mod location;
pub mod world;
pub mod player_identity;
pub mod laws;
pub mod editor;
pub mod literal;
pub mod physical;
pub mod factory;

use vstd::prelude::*;

use crate::assoc::{
    find_key, get_entry, insert_entry, lemma_key_index, lookup, remove_entry, table, unique_keys,
    Keyed,
};
use crate::text::{
    before_char, char_is_alnum, char_lower, decimal, decimal_string, first_piece, is_alnum,
    lower, lower_seq, owned, push_char, push_str, rstrip_in, lstrip_in, str_eq, to_lower,
    trim_end_in, trim_start_in,
};

verus! {

/// Stable object identifier (`type:base-name-###`).
#[derive(Debug, Hash)]
pub struct ObjectId(String);

impl View for ObjectId {
    type V = Seq<char>;

    closed spec fn view(&self) -> Seq<char> {
        self.0@
    }
}

impl ObjectId {
    pub fn new(id: &str) -> (r: ObjectId)
        ensures
            r@ == id@,
    {
        ObjectId(owned(id))
    }

    /// An identifier that takes ownership of `id`.
    pub fn from_string(id: String) -> (r: ObjectId)
        ensures
            r@ == id@,
    {
        ObjectId(id)
    }

    pub fn as_str(&self) -> (r: &str)
        ensures
            r@ == self@,
    {
        self.0.as_str()
    }
}

impl Clone for ObjectId {
    fn clone(&self) -> (r: Self)
        ensures
            r == *self,
    {
        ObjectId(self.0.clone())
    }
}

impl PartialEq for ObjectId {
    fn eq(&self, other: &Self) -> (r: bool) {
        str_eq(self.0.as_str(), other.0.as_str())
    }
}

impl Eq for ObjectId {
}

impl vstd::std_specs::cmp::PartialEqSpecImpl for ObjectId {
    open spec fn obeys_eq_spec() -> bool {
        true
    }

    open spec fn eq_spec(&self, other: &ObjectId) -> bool {
        self@ == other@
    }
}

/// Whether two identifiers name the same object.
pub fn same_id(a: &ObjectId, b: &ObjectId) -> (r: bool)
    ensures
        r == (a@ == b@),
{
    str_eq(a.as_str(), b.as_str())
}

/// Access flags (owner, builder, wizard, everyone) as a bit set.
#[derive(Debug, Clone, Copy, PartialEq, Eq, Hash)]
pub struct PermissionFlags {
    pub bits: u8,
}

impl PermissionFlags {
    pub fn owner() -> (r: Self)
        ensures
            r.bits == 1,
    {
        PermissionFlags { bits: 1 }
    }

    pub fn builder() -> (r: Self)
        ensures
            r.bits == 2,
    {
        PermissionFlags { bits: 2 }
    }

    pub fn wizard() -> (r: Self)
        ensures
            r.bits == 4,
    {
        PermissionFlags { bits: 4 }
    }

    pub fn everyone() -> (r: Self)
        ensures
            r.bits == 8,
    {
        PermissionFlags { bits: 8 }
    }

    /// Whether every flag of `other` is set here.
    pub fn contains(&self, other: PermissionFlags) -> (r: bool)
        ensures
            r == (self.bits & other.bits == other.bits),
    {
        self.bits & other.bits == other.bits
    }
}

/// A script attached to a property or event.
#[derive(Debug, Clone)]
pub struct Behavior {
    pub code: String,
    pub permissions: PermissionFlags,
}

/// A named value on an object.
#[derive(Debug, Clone)]
pub struct Property {
    pub name: String,
    pub value: Value,
    pub permissions: PermissionFlags,
    pub behavior: Option<Behavior>,
}

/// A named command script on an object.
#[derive(Debug, Clone)]
pub struct Verb {
    pub name: String,
    pub code: String,
    pub permissions: PermissionFlags,
}

/// A property value. `Float` carries the bit pattern of an `f64`; the library
/// stores and compares it but does no arithmetic on it.
#[derive(Debug)]
pub enum Value {
    String(String),
    Int(i64),
    Bool(bool),
    List(Vec<Value>),
    ObjectRef(ObjectId),
    Mapping(Vec<(String, Value)>),
    Float(u64),
}

/// `b` holds what `a` holds: the same variant, equal scalars, strings and
/// ids, and, for lists and mappings, the same keys in the same order with
/// values that hold the same in turn.
pub open spec fn same_contents(a: Value, b: Value) -> bool
    decreases a,
    via same_contents_decreases
{
    match (a, b) {
        (Value::Int(x), Value::Int(y)) => x == y,
        (Value::Bool(x), Value::Bool(y)) => x == y,
        (Value::Float(x), Value::Float(y)) => x == y,
        (Value::String(x), Value::String(y)) => x@ == y@,
        (Value::ObjectRef(x), Value::ObjectRef(y)) => x@ == y@,
        (Value::List(x), Value::List(y)) => x@.len() == y@.len() && forall|i: int|
            0 <= i < x@.len() ==> same_contents(#[trigger] x@[i], y@[i]),
        (Value::Mapping(x), Value::Mapping(y)) => x@.len() == y@.len() && forall|i: int|
            0 <= i < x@.len() ==> #[trigger] x@[i].0@ == y@[i].0@ && same_contents(x@[i].1, y@[i].1),
        _ => false,
    }
}

#[via_fn]
proof fn same_contents_decreases(a: Value, b: Value) {
    match a {
        Value::List(x) => {
            assert forall|i: int| 0 <= i < x@.len() implies decreases_to!(a => x@[i]) by {
                vstd::std_specs::vec::axiom_vec_index_decreases(x, i);
                assert(decreases_to!(a => x));
            }
        },
        Value::Mapping(x) => {
            assert forall|i: int| 0 <= i < x@.len() implies decreases_to!(a => x@[i].1) by {
                vstd::std_specs::vec::axiom_vec_index_decreases(x, i);
                assert(decreases_to!(a => x));
                assert(decreases_to!(x@[i] => x@[i].1));
            }
        },
        _ => {},
    }
}

/// A copy of `v`: the same contents, with strings and ids cloned and nested
/// values copied in turn.
pub fn copy_value(v: &Value) -> (r: Value)
    ensures
        same_contents(*v, r),
    decreases v,
{
    match v {
        Value::String(s) => Value::String(s.clone()),
        Value::Int(n) => Value::Int(*n),
        Value::Bool(b) => Value::Bool(*b),
        Value::Float(f) => Value::Float(*f),
        Value::ObjectRef(id) => Value::ObjectRef(id.clone()),
        Value::List(items) => {
            let mut out: Vec<Value> = Vec::new();
            let mut i: usize = 0;
            while i < items.len()
                invariant
                    0 <= i <= items@.len(),
                    out@.len() == i,
                    *v == Value::List(*items),
                    forall|j: int| 0 <= j < i ==> same_contents(#[trigger] items@[j], out@[j]),
                decreases items@.len() - i,
            {
                proof {
                    vstd::std_specs::vec::axiom_vec_index_decreases(*items, i as int);
                    assert(decreases_to!(*v => (*v)->List_0));
                    assert(decreases_to!(*v => items[i as int]));
                }
                out.push(copy_value(&items[i]));
                i += 1;
            }
            Value::List(out)
        },
        Value::Mapping(entries) => {
            let mut out: Vec<(String, Value)> = Vec::new();
            let mut i: usize = 0;
            while i < entries.len()
                invariant
                    0 <= i <= entries@.len(),
                    out@.len() == i,
                    forall|j: int|
                        0 <= j < i ==> #[trigger] entries@[j].0@ == out@[j].0@ && same_contents(
                            entries@[j].1,
                            out@[j].1,
                        ),
                    *v == Value::Mapping(*entries),
                decreases entries@.len() - i,
            {
                proof {
                    vstd::std_specs::vec::axiom_vec_index_decreases(*entries, i as int);
                    assert(decreases_to!(*v => (*v)->Mapping_0));
                    assert(decreases_to!(*v => entries[i as int]));
                    assert(decreases_to!(*v => entries[i as int].1));
                }
                let k = entries[i].0.clone();
                let x = copy_value(&entries[i].1);
                out.push((k, x));
                i += 1;
            }
            Value::Mapping(out)
        },
    }
}

impl Clone for Value {
    fn clone(&self) -> Self {
        copy_value(self)
    }
}

/// Handlers registered for one event name.
#[derive(Debug, Clone)]
pub struct EventHandlers {
    pub event: String,
    pub behaviors: Vec<Behavior>,
}

impl Keyed for Property {
    open spec fn key(&self) -> Seq<char> {
        self.name@
    }

    fn key_str(&self) -> (r: &str) {
        self.name.as_str()
    }
}

impl Keyed for Verb {
    open spec fn key(&self) -> Seq<char> {
        self.name@
    }

    fn key_str(&self) -> (r: &str) {
        self.name.as_str()
    }
}

impl Keyed for EventHandlers {
    open spec fn key(&self) -> Seq<char> {
        self.event@
    }

    fn key_str(&self) -> (r: &str) {
        self.event.as_str()
    }
}

impl Keyed for (String, Value) {
    open spec fn key(&self) -> Seq<char> {
        self.0@
    }

    fn key_str(&self) -> (r: &str) {
        self.0.as_str()
    }
}

impl Keyed for (String, ObjectId) {
    open spec fn key(&self) -> Seq<char> {
        self.0@
    }

    fn key_str(&self) -> (r: &str) {
        self.0.as_str()
    }
}

/// A game object: room, item, player, NPC, …
#[derive(Debug, Clone)]
pub struct Object {
    pub id: ObjectId,
    pub name: String,
    pub aliases: Vec<String>,
    pub location: Option<ObjectId>,
    pub prototype: Option<ObjectId>,
    pub owner: ObjectId,
    pub permissions: PermissionFlags,
    /// Properties, at most one per name.
    pub properties: Vec<Property>,
    /// Verbs, at most one per name.
    pub verbs: Vec<Verb>,
    /// Event handlers, one entry per event name.
    pub event_handlers: Vec<EventHandlers>,
    /// Soft-delete flag — object remains in the database but is hidden from normal play.
    pub is_deleted: bool,
    /// UTC epoch seconds when the object was soft-deleted, if applicable.
    pub deleted_at: Option<String>,
    /// Database revision this copy was read at (optimistic locking).
    pub revision: u64,
    /// When the database row was last written, if known.
    pub updated_at: Option<String>,
}

/// The fields of an object other than its properties, verbs and handlers.
pub open spec fn same_frame(a: Object, b: Object) -> bool {
    &&& a.id == b.id
    &&& a.name == b.name
    &&& a.aliases == b.aliases
    &&& a.location == b.location
    &&& a.prototype == b.prototype
    &&& a.owner == b.owner
    &&& a.permissions == b.permissions
    &&& a.is_deleted == b.is_deleted
    &&& a.deleted_at == b.deleted_at
    &&& a.revision == b.revision
    &&& a.updated_at == b.updated_at
}

/// Everything but the deletion mark is the same.
pub open spec fn same_but_deletion(a: Object, b: Object) -> bool {
    &&& a.id == b.id
    &&& a.name == b.name
    &&& a.aliases == b.aliases
    &&& a.location == b.location
    &&& a.prototype == b.prototype
    &&& a.owner == b.owner
    &&& a.permissions == b.permissions
    &&& a.properties == b.properties
    &&& a.verbs == b.verbs
    &&& a.event_handlers == b.event_handlers
    &&& a.revision == b.revision
    &&& a.updated_at == b.updated_at
}

/// `after` is `before` with at most the properties named in `names` changed.
pub open spec fn changes_only(before: Object, after: Object, names: Set<Seq<char>>) -> bool {
    &&& after.wf()
    &&& same_frame(before, after)
    &&& after.verbs == before.verbs
    &&& after.event_handlers == before.event_handlers
    &&& forall|k: Seq<char>| !names.contains(k) ==> #[trigger] after.prop_opt(k) == before.prop_opt(k)
    &&& forall|k: Seq<char>| !names.contains(k) ==> #[trigger] after.value_of(k) == before.value_of(k)
}

/// Property `name` is the same in `before` and `after`.
pub open spec fn kept(before: Object, after: Object, name: Seq<char>) -> bool {
    after.prop_opt(name) == before.prop_opt(name)
}

impl Object {
    /// Names are unique among properties, verbs and event handlers.
    pub open spec fn wf(&self) -> bool {
        &&& unique_keys(self.properties@)
        &&& unique_keys(self.verbs@)
        &&& unique_keys(self.event_handlers@)
    }

    /// Properties by name.
    pub open spec fn props(&self) -> Map<Seq<char>, Property> {
        table(self.properties@)
    }

    /// The value of the property `name`, if present.
    pub open spec fn value_of(&self, name: Seq<char>) -> Option<Value> {
        if self.props().contains_key(name) {
            Some(self.props()[name].value)
        } else {
            None
        }
    }

    /// The property `name`, if present.
    pub open spec fn prop_opt(&self, name: Seq<char>) -> Option<Property> {
        if self.props().contains_key(name) {
            Some(self.props()[name])
        } else {
            None
        }
    }

    /// Property `name` stored by the owner, without a behaviour, and nothing
    /// else changed.
    pub open spec fn property_stored(before: Object, after: Object, name: Seq<char>) -> bool {
        &&& after.wf()
        &&& same_frame(before, after)
        &&& after.verbs == before.verbs
        &&& after.event_handlers == before.event_handlers
        &&& forall|k: Seq<char>| k != name ==> #[trigger] after.prop_opt(k) == before.prop_opt(k)
        &&& forall|k: Seq<char>| k != name ==> #[trigger] after.value_of(k) == before.value_of(k)
        &&& after.props().contains_key(name)
        &&& after.props()[name].permissions.bits == 1
        &&& after.props()[name].behavior is None
    }

    /// After differs from before only in property `name`, now `value`,
    /// owned and without a behaviour.
    pub open spec fn property_set(before: Object, after: Object, name: Seq<char>, value: Value) -> bool {
        &&& Object::property_stored(before, after, name)
        &&& after.props()[name].value == value
    }

    /// An object with the given identity and nothing else.
    pub fn new(id: ObjectId, name: String, owner: ObjectId) -> (r: Object)
        ensures
            r.wf(),
            r.id == id,
            r.name == name,
            r.owner == owner,
            r.aliases@.len() == 0,
            r.location is None,
            r.prototype is None,
            r.permissions.bits == 1,
            r.properties@.len() == 0,
            r.verbs@.len() == 0,
            r.event_handlers@.len() == 0,
            !r.is_deleted,
            r.deleted_at is None,
            r.revision == 0,
            r.updated_at is None,
    {
        Object {
            id,
            name,
            aliases: Vec::new(),
            location: None,
            prototype: None,
            owner,
            permissions: PermissionFlags::owner(),
            properties: Vec::new(),
            verbs: Vec::new(),
            event_handlers: Vec::new(),
            is_deleted: false,
            deleted_at: None,
            revision: 0,
            updated_at: None,
        }
    }

    /// Whether names are unique among properties, verbs and event handlers,
    /// as the library's operations keep them.
    pub fn is_well_formed(&self) -> (r: bool)
        ensures
            r == self.wf(),
    {
        crate::assoc::check_unique(&self.properties) && crate::assoc::check_unique(&self.verbs)
            && crate::assoc::check_unique(&self.event_handlers)
    }

    /// Returns a direct property if present.
    pub fn get_property(&self, name: &str) -> (r: Option<&Property>)
        requires
            self.wf(),
        ensures
            r is Some == self.props().contains_key(name@),
            r matches Some(p) ==> *p == self.props()[name@],
    {
        get_entry(&self.properties, name)
    }

    /// Adds or replaces the property with `property`'s name.
    pub fn add_property(&mut self, property: Property)
        requires
            old(self).wf(),
        ensures
            final(self).wf(),
            same_frame(*old(self), *final(self)),
            final(self).verbs == old(self).verbs,
            final(self).event_handlers == old(self).event_handlers,
            final(self).props() == old(self).props().insert(property.name@, property),
    {
        insert_entry(&mut self.properties, property);
    }

    /// Removes the property `name`, returning it.
    pub fn remove_property(&mut self, name: &str) -> (r: Option<Property>)
        requires
            old(self).wf(),
        ensures
            final(self).wf(),
            same_frame(*old(self), *final(self)),
            final(self).verbs == old(self).verbs,
            final(self).event_handlers == old(self).event_handlers,
            final(self).props() == old(self).props().remove(name@),
            r == lookup(old(self).properties@, name@),
    {
        remove_entry(&mut self.properties, name)
    }

    /// Stores `value` under `name`, owned and without a behaviour.
    pub fn set_property_value(&mut self, name: &str, value: Value)
        requires
            old(self).wf(),
        ensures
            Object::property_set(*old(self), *final(self), name@, value),
    {
        let p = Property {
            name: owned(name),
            value,
            permissions: PermissionFlags::owner(),
            behavior: None,
        };
        self.add_property(p);
    }

    pub fn add_verb(&mut self, verb: Verb)
        requires
            old(self).wf(),
        ensures
            final(self).wf(),
            same_frame(*old(self), *final(self)),
            final(self).properties == old(self).properties,
            final(self).event_handlers == old(self).event_handlers,
            table(final(self).verbs@) == table(old(self).verbs@).insert(verb.name@, verb),
    {
        insert_entry(&mut self.verbs, verb);
    }

    /// Removes the verb `name`, returning it.
    pub fn remove_verb(&mut self, name: &str) -> (r: Option<Verb>)
        requires
            old(self).wf(),
        ensures
            final(self).wf(),
            same_frame(*old(self), *final(self)),
            final(self).properties == old(self).properties,
            final(self).event_handlers == old(self).event_handlers,
            table(final(self).verbs@) == table(old(self).verbs@).remove(name@),
            r == lookup(old(self).verbs@, name@),
    {
        remove_entry(&mut self.verbs, name)
    }

    /// Appends `behavior` to the handlers of `event_name`.
    pub fn add_event_handler(&mut self, event_name: String, behavior: Behavior)
        requires
            old(self).wf(),
        ensures
            final(self).wf(),
            same_frame(*old(self), *final(self)),
            final(self).properties == old(self).properties,
            final(self).verbs == old(self).verbs,
            table(final(self).event_handlers@).remove(event_name@) == table(
                old(self).event_handlers@,
            ).remove(event_name@),
            table(final(self).event_handlers@).contains_key(event_name@),
            table(final(self).event_handlers@)[event_name@].behaviors@ == (if table(
                old(self).event_handlers@,
            ).contains_key(event_name@) {
                table(old(self).event_handlers@)[event_name@].behaviors@
            } else {
                Seq::empty()
            }).push(behavior),
    {
        let ghost old_table = table(self.event_handlers@);
        let ghost key = event_name@;
        let mut entry = match remove_entry(&mut self.event_handlers, event_name.as_str()) {
            Some(e) => e,
            None => EventHandlers { event: event_name, behaviors: Vec::new() },
        };
        entry.behaviors.push(behavior);
        assert(entry.event@ == key);
        insert_entry(&mut self.event_handlers, entry);
        assert(table(self.event_handlers@).remove(key) =~= old_table.remove(key));
    }

    /// Object category derived from the ID prefix (e.g. `room`, `player`, `item`).
    pub fn object_type(&self) -> (r: &str)
        ensures
            r@ == before_char(self.id@, ':'),
    {
        first_piece(self.id.as_str(), ':')
    }

    /// Whether this object is a navigable place (room, area, location, etc.).
    pub fn is_location(&self) -> (r: bool)
        ensures
            r == is_place_type(before_char(self.id@, ':')),
    {
        let t = self.object_type();
        str_eq(t, "room") || str_eq(t, "area") || str_eq(t, "location") || str_eq(t, "region")
            || str_eq(t, "zone")
    }

    /// Whether this object is visible in normal play (not soft-deleted).
    pub fn is_active(&self) -> (r: bool)
        ensures
            r == !self.is_deleted,
    {
        !self.is_deleted
    }

    /// Mark this object as soft-deleted at `epoch_secs` (retained in persistence).
    pub fn soft_delete_at(&mut self, epoch_secs: Option<u64>)
        ensures
            final(self).is_deleted,
            final(self).deleted_at matches Some(t) && t@ == match epoch_secs {
                Some(s) => decimal(s as nat),
                None => "0"@,
            },
            same_but_deletion(*old(self), *final(self)),
    {
        self.is_deleted = true;
        self.deleted_at = Some(
            match epoch_secs {
                Some(s) => decimal_string(s),
                None => owned("0"),
            },
        );
    }

    /// Mark this object as soft-deleted now (retained in persistence).
    pub fn soft_delete(&mut self)
        ensures
            final(self).is_deleted,
            final(self).deleted_at matches Some(t) && (t@ == "0"@ || exists|s: nat| t@ == #[trigger] decimal(s)),
            same_but_deletion(*old(self), *final(self)),
    {
        let now = epoch_secs_now();
        self.soft_delete_at(now);
        proof {
            if let Some(s) = now {
                assert(self.deleted_at->0@ == decimal(s as nat));
            }
        }
    }

    /// Restore a soft-deleted object.
    pub fn undelete(&mut self)
        ensures
            !final(self).is_deleted,
            final(self).deleted_at is None,
            same_but_deletion(*old(self), *final(self)),
    {
        self.is_deleted = false;
        self.deleted_at = None;
    }
}

/// Object types that denote navigable places.
pub open spec fn is_place_type(t: Seq<char>) -> bool {
    t == "room"@ || t == "area"@ || t == "location"@ || t == "region"@ || t == "zone"@
}

/// Seconds since the Unix epoch now, `None` when the clock is before it.
#[verifier::external_body]
fn epoch_secs_now() -> Option<u64> {
    std::time::SystemTime::now().duration_since(std::time::UNIX_EPOCH).ok().map(|d| d.as_secs())
}

// ---------------------------------------------------------------------------
// Object ids

/// Maximum length of the name segment in generated object IDs.
pub const ID_BASE_MAX_LEN: usize = 16;

/// Lowercase hyphenated slug of a display name: runs of non-alphanumeric
/// ASCII characters become one `-`, with none leading or trailing.
pub open spec fn slug_chars(name: Seq<char>) -> Seq<char>
    decreases name.len(),
{
    if name.len() == 0 {
        Seq::empty()
    } else {
        let prev = slug_chars(name.drop_last());
        let c = name.last();
        if is_alnum(c) {
            prev.push(lower(c))
        } else if prev.len() > 0 && prev.last() != '-' {
            prev.push('-')
        } else {
            prev
        }
    }
}

/// The slug of a display name, `object` when nothing is left.
pub open spec fn slug_of(name: Seq<char>) -> Seq<char> {
    let s = rstrip_in(slug_chars(name), seq!['-']);
    if s.len() == 0 {
        "object"@
    } else {
        s
    }
}

proof fn lemma_slug_chars_shape(name: Seq<char>)
    ensures
        slug_chars(name).len() > 0 ==> slug_chars(name)[0] != '-',
        forall|i: int| 0 <= i < slug_chars(name).len() ==> (#[trigger] slug_chars(name)[i] == '-'
            || is_alnum(slug_chars(name)[i])),
    decreases name.len(),
{
    if name.len() > 0 {
        lemma_slug_chars_shape(name.drop_last());
    }
}

/// Convert a display name into a lowercase hyphenated slug for object IDs.
pub fn slugify_display_name(name: &str) -> (r: String)
    ensures
        r@ == slug_of(name@),
{
    let n = name.unicode_len();
    let mut slug = String::new();
    let mut last_was_sep = true;
    let mut i: usize = 0;
    while i < n
        invariant
            n == name@.len(),
            0 <= i <= n,
            slug@ == slug_chars(name@.take(i as int)),
            last_was_sep == (slug@.len() == 0 || slug@.last() == '-'),
        decreases n - i,
    {
        let c = name.get_char(i);
        assert(name@.take(i + 1).drop_last() =~= name@.take(i as int));
        assert(name@.take(i + 1).last() == c);
        proof {
            lemma_slug_chars_shape(name@.take(i as int));
        }
        if char_is_alnum(c) {
            push_char(&mut slug, char_lower(c));
            last_was_sep = false;
            assert(lower(c) != '-');
        } else if !last_was_sep {
            push_char(&mut slug, '-');
            last_was_sep = true;
        }
        i += 1;
    }
    assert(name@.take(n as int) =~= name@);
    let dash = vec!['-'];
    assert(dash@ =~= seq!['-']);
    let trimmed = trim_end_in(slug.as_str(), &dash);
    if trimmed.unicode_len() == 0 {
        owned("object")
    } else {
        owned(trimmed)
    }
}

/// How many bytes `c` takes in UTF-8.
pub open spec fn utf8_width(c: char) -> int {
    if (c as u32) < 0x80 {
        1
    } else if (c as u32) < 0x800 {
        2
    } else if (c as u32) < 0x10000 {
        3
    } else {
        4
    }
}

/// How many leading characters of `s` fit, encoded in UTF-8, in `budget` bytes.
pub open spec fn fit_len(s: Seq<char>, budget: int) -> nat
    decreases s.len(),
{
    if s.len() == 0 || utf8_width(s[0]) > budget {
        0
    } else {
        1 + fit_len(s.drop_first(), budget - utf8_width(s[0]))
    }
}

pub proof fn lemma_fit_len_bounds(s: Seq<char>, budget: int)
    ensures
        fit_len(s, budget) <= s.len(),
        budget >= 0 ==> fit_len(s, budget) <= budget,
    decreases s.len(),
{
    if s.len() > 0 && utf8_width(s[0]) <= budget {
        lemma_fit_len_bounds(s.drop_first(), budget - utf8_width(s[0]));
    }
}

/// An id base: the slug without surrounding `-`, cut to the characters that
/// fit in [`ID_BASE_MAX_LEN`] bytes (and without its trailing `-`), `object`
/// when nothing is left.
pub open spec fn id_base_of(slug: Seq<char>) -> Seq<char> {
    let s = rstrip_in(lstrip_in(slug, seq!['-']), seq!['-']);
    let k = fit_len(s, ID_BASE_MAX_LEN as int);
    if s.len() == 0 {
        "object"@
    } else if k == s.len() {
        s
    } else {
        let t = rstrip_in(s.take(k as int), seq!['-']);
        if t.len() == 0 {
            "object"@
        } else {
            t
        }
    }
}

fn utf8_width_of(c: char) -> (r: usize)
    ensures
        r == utf8_width(c),
        1 <= r <= 4,
{
    let v = c as u32;
    if v < 0x80 {
        1
    } else if v < 0x800 {
        2
    } else if v < 0x10000 {
        3
    } else {
        4
    }
}

/// How many leading characters of `s` fit in [`ID_BASE_MAX_LEN`] bytes.
fn fitting_chars(s: &str) -> (k: usize)
    ensures
        k == fit_len(s@, ID_BASE_MAX_LEN as int),
        k <= s@.len(),
{
    let n = s.unicode_len();
    let mut i: usize = 0;
    let mut used: usize = 0;
    assert(s@.skip(0) =~= s@);
    proof {
        lemma_fit_len_bounds(s@, ID_BASE_MAX_LEN as int);
    }
    while i < n
        invariant
            n == s@.len(),
            0 <= i <= n,
            used <= ID_BASE_MAX_LEN,
            fit_len(s@, ID_BASE_MAX_LEN as int) == i + fit_len(s@.skip(i as int), ID_BASE_MAX_LEN - used),
        decreases n - i,
    {
        let c = s.get_char(i);
        let w = utf8_width_of(c);
        assert(s@.skip(i as int)[0] == c);
        if w > ID_BASE_MAX_LEN - used {
            return i;
        }
        assert(s@.skip(i as int).drop_first() =~= s@.skip(i + 1));
        used = used + w;
        i += 1;
    }
    assert(s@.skip(n as int).len() == 0);
    i
}

/// Truncate a slug to what fits in [`ID_BASE_MAX_LEN`] bytes, cutting on a
/// character boundary.
pub fn constrain_id_base(slug: &str) -> (r: String)
    ensures
        r@ == id_base_of(slug@),
{
    let dash = vec!['-'];
    assert(dash@ =~= seq!['-']);
    let s = trim_end_in(trim_start_in(slug, &dash), &dash);
    let n = s.unicode_len();
    if n == 0 {
        return owned("object");
    }
    let k = fitting_chars(s);
    if k == n {
        return owned(s);
    }
    let head = s.substring_char(0, k);
    assert(head@ =~= s@.take(k as int));
    let t = trim_end_in(head, &dash);
    if t.unicode_len() == 0 {
        owned("object")
    } else {
        owned(t)
    }
}

/// Slugify a display name and constrain it for use in object IDs.
pub fn id_base_from_display_name(name: &str) -> (r: String)
    ensures
        r@ == id_base_of(slug_of(name@)),
{
    let slug = slugify_display_name(name);
    constrain_id_base(slug.as_str())
}

/// Three-or-more lowercase hex digits of `n` (`{:03x}`).
pub open spec fn hex3(n: nat) -> Seq<char> {
    let h = hex(n);
    if h.len() >= 3 {
        h
    } else {
        Seq::new((3 - h.len()) as nat, |i: int| '0') + h
    }
}

pub open spec fn hex_digit(d: nat) -> char {
    if d < 10 {
        (('0' as nat) + d) as char
    } else {
        (('a' as nat) + d - 10) as char
    }
}

/// Lowercase hexadecimal digits of `n` without leading zeros.
pub open spec fn hex(n: nat) -> Seq<char>
    decreases n,
{
    if n < 16 {
        seq![hex_digit(n)]
    } else {
        hex(n / 16).push(hex_digit(n % 16))
    }
}

fn hex_string(n: u32) -> (r: String)
    ensures
        r@ == hex(n as nat),
    decreases n,
{
    let d = n % 16;
    let c = if d < 10 {
        (('0' as u8) + (d as u8)) as char
    } else {
        (('a' as u8) + (d as u8) - 10) as char
    };
    if n < 16 {
        let mut r = String::new();
        push_char(&mut r, c);
        assert(r@ =~= seq![hex_digit(n as nat)]);
        r
    } else {
        let mut r = hex_string(n / 16);
        push_char(&mut r, c);
        r
    }
}

/// `type:base-###` with the counter in hexadecimal.
pub open spec fn object_id_of(obj_type: Seq<char>, base_name: Seq<char>, counter: u32) -> Seq<char> {
    lower_seq(obj_type) + ":"@ + id_base_of(lower_seq(base_name)) + "-"@ + hex3(counter as nat)
}

pub fn generate_object_id(obj_type: &str, base_name: &str, counter: u32) -> (r: ObjectId)
    ensures
        r@ == object_id_of(obj_type@, base_name@, counter),
{
    let ty = to_lower(obj_type);
    let lowered = to_lower(base_name);
    let base = constrain_id_base(lowered.as_str());
    let digits = hex_string(counter);
    let mut padded = String::new();
    let mut k = digits.unicode_len();
    while k < 3
        invariant
            digits@ == hex(counter as nat),
            digits@.len() <= k,
            k <= 3 || k == digits@.len(),
            padded@ =~= Seq::new((k - digits@.len()) as nat, |i: int| '0'),
        decreases 3 - k,
    {
        push_char(&mut padded, '0');
        k += 1;
    }
    push_str(&mut padded, digits.as_str());
    assert(padded@ =~= hex3(counter as nat));
    let mut id = ty;
    push_str(&mut id, ":");
    push_str(&mut id, base.as_str());
    push_str(&mut id, "-");
    push_str(&mut id, padded.as_str());
    ObjectId(id)
}

} // verus!
