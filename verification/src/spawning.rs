//! Pieces shared by the loot and resource spawners: reading stored mappings,
//! weighted entries, and the deterministic seed of a spawn roll.

use vstd::prelude::*;

use crate::mudl::spawner_def::{SpawnerEntryDef, SpawnerEntryView};
use crate::object::{Object, Value};
use crate::text::str_eq;
use vstd::string::StringSliceAdditionalSpecFns;

verus! {

/// The value of the first entry of a mapping with key `k`.
pub open spec fn map_get(es: Seq<(String, Value)>, k: Seq<char>) -> Option<Value>
    decreases es.len(),
{
    if es.len() == 0 {
        None
    } else if es[0].0@ == k {
        Some(es[0].1)
    } else {
        map_get(es.drop_first(), k)
    }
}

/// The value stored under `k` in a mapping.
pub fn mapping_get<'a>(es: &'a Vec<(String, Value)>, k: &str) -> (r: Option<&'a Value>)
    ensures
        match r {
            Some(v) => map_get(es@, k@) == Some(*v),
            None => map_get(es@, k@) is None,
        },
{
    let mut i: usize = 0;
    assert(es@.skip(0) =~= es@);
    while i < es.len()
        invariant
            0 <= i <= es@.len(),
            map_get(es@, k@) == map_get(es@.skip(i as int), k@),
        decreases es@.len() - i,
    {
        assert(es@.skip(i as int).drop_first() =~= es@.skip(i + 1));
        assert(es@.skip(i as int)[0] == es@[i as int]);
        if str_eq(es[i].0.as_str(), k) {
            return Some(&es[i].1);
        }
        i += 1;
    }
    None
}

/// A stored weighted entry: a mapping with a `template` string and an optional
/// integer `weight` (1 when missing; cast to `u32` as stored).
pub open spec fn entry_of(v: Value) -> Option<SpawnerEntryView> {
    match v {
        Value::Mapping(es) => match map_get(es@, "template"@) {
            Some(Value::String(t)) => Some(
                SpawnerEntryView {
                    template: t@,
                    weight: match map_get(es@, "weight"@) {
                        Some(Value::Int(n)) => n as u32,
                        _ => 1,
                    },
                },
            ),
            _ => None,
        },
        _ => None,
    }
}

/// The weighted entries among stored values, in order; other values are skipped.
pub open spec fn entries_of(items: Seq<Value>) -> Seq<SpawnerEntryView>
    decreases items.len(),
{
    if items.len() == 0 {
        Seq::empty()
    } else {
        let prev = entries_of(items.drop_last());
        match entry_of(items.last()) {
            Some(e) => prev.push(e),
            None => prev,
        }
    }
}

/// The weighted entries stored in the list property `name` (none when it is no list).
pub open spec fn stored_entries(obj: Object, name: Seq<char>) -> Seq<SpawnerEntryView> {
    match obj.value_of(name) {
        Some(Value::List(items)) => entries_of(items@),
        _ => Seq::empty(),
    }
}

pub open spec fn entry_views(v: Seq<SpawnerEntryDef>) -> Seq<SpawnerEntryView> {
    v.map_values(|e: SpawnerEntryDef| e@)
}

fn entry_from(v: &Value) -> (r: Option<SpawnerEntryDef>)
    ensures
        match r {
            Some(e) => entry_of(*v) == Some(e@),
            None => entry_of(*v) is None,
        },
{
    if let Value::Mapping(es) = v {
        if let Some(Value::String(t)) = mapping_get(es, "template") {
            let weight = match mapping_get(es, "weight") {
                Some(Value::Int(n)) => *n as u32,
                _ => 1,
            };
            return Some(SpawnerEntryDef { template: t.clone(), weight });
        }
    }
    None
}

/// Parse weighted entries stored in the list property `name`.
pub fn spawner_entries(obj: &Object, name: &str) -> (r: Vec<SpawnerEntryDef>)
    requires
        obj.wf(),
    ensures
        entry_views(r@) == stored_entries(*obj, name@),
{
    let mut out: Vec<SpawnerEntryDef> = Vec::new();
    if let Some(p) = obj.get_property(name) {
        if let Value::List(items) = &p.value {
            let mut i: usize = 0;
            while i < items.len()
                invariant
                    0 <= i <= items@.len(),
                    entry_views(out@) == entries_of(items@.take(i as int)),
                decreases items@.len() - i,
            {
                assert(items@.take(i + 1).drop_last() =~= items@.take(i as int));
                if let Some(e) = entry_from(&items[i]) {
                    let ghost before = entry_views(out@);
                    let ghost ev = e@;
                    out.push(e);
                    assert(entry_views(out@) =~= before.push(ev));
                }
                i += 1;
            }
            assert(items@.take(items@.len() as int) =~= items@);
        }
    }
    out
}

/// One step of the seed hash: multiply by 31 and add, both wrapping.
pub open spec fn hash_step(h: u64, x: u64) -> u64 {
    vstd::wrapping::u64_specs::wrapping_add(vstd::wrapping::u64_specs::wrapping_mul(h, 31), x)
}

/// The hash of `h` followed by the bytes `bs`.
pub open spec fn hash_bytes(h: u64, bs: Seq<u8>) -> u64
    decreases bs.len(),
{
    if bs.len() == 0 {
        h
    } else {
        hash_step(hash_bytes(h, bs.drop_last()), bs.last() as u64)
    }
}

/// The seed of a list of strings: each string's UTF-8 bytes, then 255.
pub open spec fn seed_of(parts: Seq<Seq<u8>>) -> u64
    decreases parts.len(),
{
    if parts.len() == 0 {
        0
    } else {
        hash_step(hash_bytes(seed_of(parts.drop_last()), parts.last()), 255)
    }
}

/// The UTF-8 bytes of each string.
pub open spec fn byte_views(parts: Seq<&str>) -> Seq<Seq<u8>> {
    parts.map_values(|p: &str| p.spec_bytes())
}

/// Deterministic seed mixed from `parts` (a wrapping multiply-by-31 hash).
pub fn mix_seed(parts: &[&str]) -> (r: u64)
    ensures
        r == seed_of(byte_views(parts@)),
{
    let ghost all = byte_views(parts@);
    let mut hash: u64 = 0;
    let mut i: usize = 0;
    while i < parts.len()
        invariant
            0 <= i <= parts@.len(),
            all == byte_views(parts@),
            hash == seed_of(all.take(i as int)),
        decreases parts@.len() - i,
    {
        let bytes = parts[i].as_bytes();
        let ghost h0 = hash;
        let mut j: usize = 0;
        while j < bytes.len()
            invariant
                0 <= j <= bytes@.len(),
                hash == hash_bytes(h0, bytes@.take(j as int)),
            decreases bytes@.len() - j,
        {
            assert(bytes@.take(j + 1).drop_last() =~= bytes@.take(j as int));
            hash = hash.wrapping_mul(31).wrapping_add(bytes[j] as u64);
            j += 1;
        }
        assert(bytes@.take(bytes@.len() as int) =~= bytes@);
        assert(all.take(i + 1).drop_last() =~= all.take(i as int));
        assert(all[i as int] == bytes@);
        hash = hash.wrapping_mul(31).wrapping_add(255);
        i += 1;
    }
    assert(all.take(parts@.len() as int) =~= all);
    hash
}

} // verus!
