//! Field classification for builder tools and `@examine`.

use vstd::prelude::*;

use crate::text::{has_prefix, lower_seq, owned, str_eq, strip_prefix, to_lower, trim, trim_seq};

verus! {

/// Runtime properties stored on the object but shown under `state:`.
pub open spec fn state_property_keys() -> Seq<Seq<char>> {
    seq![
        "contents"@,
        "body_slots"@,
        "stack_count"@,
        "carried_slot"@,
        "health"@,
        "active_effects"@,
        "condition_ticks"@,
        "stat_mods"@,
    ]
}

/// Computed examine lines; never writable via `@set`.
pub open spec fn status_keys() -> Seq<Seq<char>> {
    seq!["contents_weight"@, "carried_weight"@, "total_weight"@]
}

/// Top-level object fields a builder may set by name.
pub open spec fn object_field_keys() -> Seq<Seq<char>> {
    seq!["name"@, "owner"@, "location"@, "prototype"@, "alias"@]
}

/// How a builder key maps to storage and `@examine` sections.
#[derive(Debug, Clone, PartialEq, Eq)]
pub enum FieldKind {
    ObjectField(&'static str),
    StateProperty(String),
    ConfigProperty(String),
    Verb(String),
    Status,
    Immutable(&'static str),
}

pub enum FieldKindView {
    ObjectField(Seq<char>),
    StateProperty(Seq<char>),
    ConfigProperty(Seq<char>),
    Verb(Seq<char>),
    Status,
    Immutable(Seq<char>),
}

impl View for FieldKind {
    type V = FieldKindView;

    open spec fn view(&self) -> FieldKindView {
        match self {
            FieldKind::ObjectField(s) => FieldKindView::ObjectField(s@),
            FieldKind::StateProperty(s) => FieldKindView::StateProperty(s@),
            FieldKind::ConfigProperty(s) => FieldKindView::ConfigProperty(s@),
            FieldKind::Verb(s) => FieldKindView::Verb(s@),
            FieldKind::Status => FieldKindView::Status,
            FieldKind::Immutable(s) => FieldKindView::Immutable(s@),
        }
    }
}

/// A builder key: trimmed and in ASCII lower case.
pub open spec fn normal_key(key: Seq<char>) -> Seq<char> {
    lower_seq(trim_seq(key))
}

/// The verb a key names with the prefix `prefix` (`verb.` or `verb:`), if any.
pub open spec fn verb_after(key: Seq<char>, prefix: Seq<char>) -> Option<Seq<char>> {
    if has_prefix(key, prefix) && key.len() > prefix.len() {
        Some(key.subrange(prefix.len() as int, key.len() as int))
    } else {
        None
    }
}

/// The kind of a normalised key.
pub open spec fn kind_of(k: Seq<char>) -> FieldKindView {
    if k == "id"@ || k == "type"@ {
        FieldKindView::Immutable(k)
    } else if status_keys().contains(k) || has_prefix(k, "status."@) {
        FieldKindView::Status
    } else if verb_after(k, "verb."@) is Some {
        FieldKindView::Verb(verb_after(k, "verb."@)->0)
    } else if verb_after(k, "verb:"@) is Some {
        FieldKindView::Verb(verb_after(k, "verb:"@)->0)
    } else if object_field_keys().contains(k) {
        FieldKindView::ObjectField(k)
    } else if state_property_keys().contains(k) {
        FieldKindView::StateProperty(k)
    } else {
        FieldKindView::ConfigProperty(k)
    }
}

/// Normalize a builder key to lowercase ASCII.
pub fn normalize_key(key: &str) -> (r: String)
    ensures
        r@ == normal_key(key@),
{
    to_lower(trim(key))
}

/// Whether `k` is one of `keys`.
pub(crate) fn is_one_of(k: &str, keys: &Vec<&str>) -> (r: bool)
    ensures
        r == keys@.map_values(|s: &str| s@).contains(k@),
{
    let ghost vs = keys@.map_values(|s: &str| s@);
    let mut i: usize = 0;
    while i < keys.len()
        invariant
            0 <= i <= keys@.len(),
            vs == keys@.map_values(|s: &str| s@),
            forall|j: int| 0 <= j < i ==> vs[j] != k@,
        decreases keys@.len() - i,
    {
        if str_eq(keys[i], k) {
            assert(vs[i as int] == k@);
            return true;
        }
        i += 1;
    }
    false
}

/// The keys of `state_property_keys`, as string slices.
fn state_property_list() -> (r: Vec<&'static str>)
    ensures
        r@.map_values(|s: &str| s@) == state_property_keys(),
{
    let r = vec![
        "contents",
        "body_slots",
        "stack_count",
        "carried_slot",
        "health",
        "active_effects",
        "condition_ticks",
        "stat_mods",
    ];
    assert(r@.map_values(|s: &str| s@) =~= state_property_keys());
    r
}

/// Whether a property is runtime state rather than configuration.
pub fn is_state_property(name: &str) -> (r: bool)
    ensures
        r == state_property_keys().contains(name@),
{
    is_one_of(name, &state_property_list())
}

/// Classify a key for set/unset/examine routing.
pub fn classify_key(key: &str) -> (r: FieldKind)
    ensures
        r@ == kind_of(normal_key(key@)),
{
    let normalized = normalize_key(key);
    let k = normalized.as_str();
    if str_eq(k, "id") {
        return FieldKind::Immutable("id");
    }
    if str_eq(k, "type") {
        return FieldKind::Immutable("type");
    }
    let status = vec!["contents_weight", "carried_weight", "total_weight"];
    assert(status@.map_values(|s: &str| s@) =~= status_keys());
    if is_one_of(k, &status) || crate::text::starts_with(k, "status.") {
        return FieldKind::Status;
    }
    if let Some(rest) = strip_prefix(k, "verb.") {
        if rest.unicode_len() > 0 {
            return FieldKind::Verb(owned(rest));
        }
    }
    if let Some(rest) = strip_prefix(k, "verb:") {
        if rest.unicode_len() > 0 {
            return FieldKind::Verb(owned(rest));
        }
    }
    if str_eq(k, "name") {
        return FieldKind::ObjectField("name");
    }
    if str_eq(k, "owner") {
        return FieldKind::ObjectField("owner");
    }
    if str_eq(k, "location") {
        return FieldKind::ObjectField("location");
    }
    if str_eq(k, "prototype") {
        return FieldKind::ObjectField("prototype");
    }
    if str_eq(k, "alias") {
        return FieldKind::ObjectField("alias");
    }
    assert(!object_field_keys().contains(k@)) by {
        if object_field_keys().contains(k@) {
            let j = choose|j: int| 0 <= j < 5 && object_field_keys()[j] == k@;
            assert(j == 0 || j == 1 || j == 2 || j == 3 || j == 4);
        }
    }
    if is_state_property(k) {
        FieldKind::StateProperty(owned(k))
    } else {
        FieldKind::ConfigProperty(owned(k))
    }
}

} // verus!
