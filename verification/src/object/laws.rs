//! What holds of an object across calls: a property reads back what was
//! written, removals undo additions, body slots and lists behave as stores.

use vstd::prelude::*;

use super::maps::without_ref;
use super::roles::{key_opens, KeySpec};
use super::world::holds_id;
use super::{
    fit_len, id_base_of, lemma_fit_len_bounds, same_but_deletion, slug_chars, slug_of, Object, ObjectId, Property, Value,
    ID_BASE_MAX_LEN,
};
use crate::text::{is_alnum, is_digit, lower, lstrip_in, rstrip_in, trim_seq};

verus! {

/// A property that was just set reads back the value written, and every other
/// property reads as before.
pub proof fn law_property_reads_back(before: Object, after: Object, name: Seq<char>, value: Value)
    requires
        Object::property_set(before, after, name, value),
    ensures
        after.value_of(name) == Some(value),
        forall|k: Seq<char>| k != name ==> #[trigger] after.value_of(k) == before.value_of(k),
{
}

/// Of two writes to one property, the second wins; the object is otherwise as
/// it was before both.
pub proof fn law_last_write_wins(
    a: Object,
    b: Object,
    c: Object,
    name: Seq<char>,
    first: Value,
    second: Value,
)
    requires
        Object::property_set(a, b, name, first),
        Object::property_set(b, c, name, second),
    ensures
        c.value_of(name) == Some(second),
        forall|k: Seq<char>| k != name ==> #[trigger] c.value_of(k) == a.value_of(k),
        c.verbs == a.verbs,
        c.event_handlers == a.event_handlers,
        c.id == a.id && c.name == a.name && c.location == a.location,
{
    assert forall|k: Seq<char>| k != name implies #[trigger] c.value_of(k) == a.value_of(k) by {
        assert(c.value_of(k) == b.value_of(k));
        assert(b.value_of(k) == a.value_of(k));
    }
}

/// Removing a property that was just added leaves the properties as they were,
/// less any earlier property of that name.
pub proof fn law_remove_undoes_add(a: Object, b: Object, c: Object, p: Property)
    requires
        b.props() == a.props().insert(p.name@, p),
        c.props() == b.props().remove(p.name@),
    ensures
        c.props() == a.props().remove(p.name@),
        !a.props().contains_key(p.name@) ==> c.props() == a.props(),
{
    assert(c.props() =~= a.props().remove(p.name@));
    if !a.props().contains_key(p.name@) {
        assert(a.props().remove(p.name@) =~= a.props());
    }
}

/// Restoring a soft-deleted object gives back the object as it was before it
/// was deleted, when it had not been deleted.
pub proof fn law_undelete_restores(a: Object, b: Object, c: Object)
    requires
        !a.is_deleted,
        a.deleted_at is None,
        same_but_deletion(a, b),
        b.is_deleted,
        same_but_deletion(b, c),
        !c.is_deleted,
        c.deleted_at is None,
    ensures
        c == a,
{
}

/// A body slot that was filled holds the item put there; other slots are
/// unchanged.
pub proof fn law_body_slot_reads_back(
    before: Object,
    after: Object,
    slot: Seq<char>,
    item: ObjectId,
)
    requires
        after.ref_table("body_slots"@) == before.ref_table("body_slots"@).insert(slot, item),
    ensures
        after.ref_table("body_slots"@).contains_key(slot),
        after.ref_table("body_slots"@)[slot] == item,
        forall|k: Seq<char>|
            k != slot ==> (#[trigger] after.ref_table("body_slots"@).contains_key(k)
                == before.ref_table("body_slots"@).contains_key(k)),
{
}

/// After an item is cleared from the body slots no slot refers to it, and every
/// slot that held something else still holds it.
pub proof fn law_cleared_item_leaves_no_slot(before: Object, after: Object, item: ObjectId)
    requires
        after.ref_table("body_slots"@) == without_ref(before.ref_table("body_slots"@), item),
    ensures
        forall|k: Seq<char>|
            #[trigger] after.ref_table("body_slots"@).contains_key(k) ==> after.ref_table(
                "body_slots"@,
            )[k]@ != item@,
        forall|k: Seq<char>|
            #[trigger] before.ref_table("body_slots"@).contains_key(k) && before.ref_table(
                "body_slots"@,
            )[k]@ != item@ ==> after.ref_table("body_slots"@).contains_key(k) && after.ref_table(
                "body_slots"@,
            )[k] == before.ref_table("body_slots"@)[k],
{
}

/// After an id is added to an object list it is listed, whether or not it was
/// listed before; adding it again changes nothing.
pub proof fn law_list_add_lists(before: Object, after: Object, prop: Seq<char>, id: ObjectId)
    requires
        holds_id(before.ref_list(prop), id@) ==> after == before,
        !holds_id(before.ref_list(prop), id@) ==> after.ref_list(prop) == before.ref_list(prop).push(
            id,
        ),
    ensures
        holds_id(after.ref_list(prop), id@),
{
    if !holds_id(before.ref_list(prop), id@) {
        let l = after.ref_list(prop);
        assert(l[l.len() - 1]@ == id@);
    }
}

/// After an id is removed from an object list no entry with that id remains,
/// and the other entries keep their order.
pub proof fn law_list_remove_removes(before: Object, after: Object, prop: Seq<char>, id: ObjectId)
    requires
        after.ref_list(prop) == before.ref_list(prop).filter(|x: ObjectId| x@ != id@),
    ensures
        !holds_id(after.ref_list(prop), id@),
{
    let f = |x: ObjectId| x@ != id@;
    let l = before.ref_list(prop).filter(f);
    if holds_id(after.ref_list(prop), id@) {
        let a = choose|a: int| 0 <= a < l.len() && #[trigger] l[a]@ == id@;
        before.ref_list(prop).filter_lemma(f);
        assert(f(l[a]));
    }
}

/// A key made for a lock id opens exactly the gates locked with that id.
pub proof fn law_key_opens_its_lock(key: Object, gate: Object, spec: KeySpec)
    requires
        key.bool_prop("is_key"@) == Some(true),
        key.string_prop("lock_id"@) matches Some(s) && s@ == spec.lock_id@,
        trim_seq(spec.lock_id@).len() > 0,
    ensures
        key_opens(key, gate) <==> (gate.lock_id() matches Some(l) && l@ == spec.lock_id@),
{
}

/// A character that may stand in a slug: a lowercase ASCII letter, a digit or `-`.
pub open spec fn is_slug_char(c: char) -> bool {
    c == '-' || is_digit(c) || ('a' <= c && c <= 'z')
}

proof fn lemma_rstrip_in_prefix(s: Seq<char>, set: Seq<char>)
    ensures
        rstrip_in(s, set).len() <= s.len(),
        forall|i: int| 0 <= i < rstrip_in(s, set).len() ==> #[trigger] rstrip_in(s, set)[i] == s[i],
        rstrip_in(s, set).len() > 0 ==> !set.contains(rstrip_in(s, set).last()),
    decreases s.len(),
{
    if s.len() > 0 && set.contains(s.last()) {
        lemma_rstrip_in_prefix(s.drop_last(), set);
    }
}

proof fn lemma_lstrip_in_suffix(s: Seq<char>, set: Seq<char>)
    ensures
        lstrip_in(s, set).len() <= s.len(),
        forall|i: int|
            0 <= i < lstrip_in(s, set).len() ==> #[trigger] lstrip_in(s, set)[i] == s[i + s.len()
                - lstrip_in(s, set).len()],
        lstrip_in(s, set).len() > 0 ==> !set.contains(lstrip_in(s, set)[0]),
    decreases s.len(),
{
    if s.len() > 0 && set.contains(s[0]) {
        lemma_lstrip_in_suffix(s.drop_first(), set);
    }
}

proof fn lemma_slug_chars_lower(name: Seq<char>)
    ensures
        slug_chars(name).len() > 0 ==> slug_chars(name)[0] != '-',
        forall|i: int| 0 <= i < slug_chars(name).len() ==> is_slug_char(#[trigger] slug_chars(name)[i]),
    decreases name.len(),
{
    if name.len() > 0 {
        lemma_slug_chars_lower(name.drop_last());
        let c = name.last();
        if is_alnum(c) {
            assert(is_slug_char(lower(c)));
        }
    }
}

proof fn lemma_object_word()
    ensures
        "object"@.len() == 6,
        "object"@[0] != '-',
        "object"@[5] != '-',
        "object"@.last() != '-',
        forall|i: int| 0 <= i < 6 ==> is_slug_char(#[trigger] "object"@[i]),
{
    reveal_strlit("object");
}

/// The slug of a display name is never empty, is made of lowercase letters,
/// digits and `-`, and neither starts nor ends with `-`.
pub proof fn law_slug_shape(name: Seq<char>)
    ensures
        slug_of(name).len() > 0,
        slug_of(name)[0] != '-',
        slug_of(name).last() != '-',
        forall|i: int| 0 <= i < slug_of(name).len() ==> is_slug_char(#[trigger] slug_of(name)[i]),
{
    lemma_object_word();
    lemma_slug_chars_lower(name);
    lemma_rstrip_in_prefix(slug_chars(name), seq!['-']);
    let s = rstrip_in(slug_chars(name), seq!['-']);
    if s.len() > 0 {
        assert(s[0] == slug_chars(name)[0]);
        assert(seq!['-'][0] == '-');
        assert(!seq!['-'].contains(s.last()));
        assert forall|i: int| 0 <= i < s.len() implies is_slug_char(#[trigger] s[i]) by {
            assert(s[i] == slug_chars(name)[i]);
        }
    }
}

/// An id base is never empty, never longer than the limit, and neither starts
/// nor ends with `-`; built from slug characters, it holds only slug characters.
pub proof fn law_id_base_shape(slug: Seq<char>)
    ensures
        0 < id_base_of(slug).len() <= ID_BASE_MAX_LEN,
        id_base_of(slug)[0] != '-',
        id_base_of(slug).last() != '-',
        (forall|i: int| 0 <= i < slug.len() ==> is_slug_char(#[trigger] slug[i])) ==> (forall|i: int|
            0 <= i < id_base_of(slug).len() ==> is_slug_char(#[trigger] id_base_of(slug)[i])),
{
    lemma_object_word();
    let dash = seq!['-'];
    let l = lstrip_in(slug, dash);
    let s = rstrip_in(l, dash);
    lemma_lstrip_in_suffix(slug, dash);
    lemma_rstrip_in_prefix(l, dash);
    let k = fit_len(s, ID_BASE_MAX_LEN as int);
    lemma_fit_len_bounds(s, ID_BASE_MAX_LEN as int);
    let t = rstrip_in(s.take(k as int), dash);
    lemma_rstrip_in_prefix(s.take(k as int), dash);
    assert(dash[0] == '-');
    if s.len() > 0 {
        assert(s[0] == l[0]);
        assert(!dash.contains(s[0]));
        assert(!dash.contains(s.last()));
    }
    if k < s.len() && t.len() > 0 {
        assert(t[0] == s.take(k as int)[0]);
        assert(t[0] == s[0]);
        assert(!dash.contains(t.last()));
    }
    if forall|i: int| 0 <= i < slug.len() ==> is_slug_char(#[trigger] slug[i]) {
        assert forall|i: int| 0 <= i < s.len() implies is_slug_char(#[trigger] s[i]) by {
            assert(s[i] == l[i]);
            assert(l[i] == slug[i + slug.len() - l.len()]);
        }
        if k < s.len() {
            assert forall|i: int| 0 <= i < t.len() implies is_slug_char(#[trigger] t[i]) by {
                assert(t[i] == s.take(k as int)[i]);
                assert(s.take(k as int)[i] == s[i]);
            }
        }
    }
}

} // verus!
