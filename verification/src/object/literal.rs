//! Value literals for `@set`: `true`, integers, floats, quoted strings,
//! `[a, b]` lists and `{k: v}` mappings, nested to any depth.

use vstd::prelude::*;

use super::editor::EditError;
use super::fields::{normal_key, normalize_key};
use super::Value;
use crate::assoc::{has_key, insert_entry, table, unique_keys};
use crate::text::{
    concat2, eq_ignore_case, lemma_split_once_len, lemma_trim_len, lower_seq, owned, parse_i64,
    parse_signed, push_char, split_once, split_once_str, trim, trim_seq, views,
};

verus! {

/// Scanner state of the top-level splitter after a prefix of its input:
/// the finished parts, the open segment, the bracket depth and the open quote.
pub type SplitState = (Seq<Seq<char>>, Seq<char>, int, Option<char>);

pub open spec fn is_quote(c: char) -> bool {
    c == '"' || c == '\''
}

/// One character of the splitter: quotes open and close, brackets and braces
/// nest, and `sep` outside any nesting or quote ends a part.
pub open spec fn split_step(st: SplitState, c: char, sep: char) -> SplitState {
    let (parts, cur, depth, quote) = st;
    if is_quote(c) && quote == Some(c) {
        (parts, cur.push(c), depth, None)
    } else if is_quote(c) && quote is None {
        (parts, cur.push(c), depth, Some(c))
    } else if (c == '[' || c == '{') && quote is None {
        (parts, cur.push(c), depth + 1, quote)
    } else if (c == ']' || c == '}') && quote is None {
        (parts, cur.push(c), depth - 1, quote)
    } else if c == sep && depth == 0 && quote is None {
        (parts.push(trim_seq(cur)), Seq::empty(), depth, quote)
    } else {
        (parts, cur.push(c), depth, quote)
    }
}

pub open spec fn split_scan(s: Seq<char>, sep: char) -> SplitState
    decreases s.len(),
{
    if s.len() == 0 {
        (Seq::empty(), Seq::empty(), 0, None)
    } else {
        split_step(split_scan(s.drop_last(), sep), s.last(), sep)
    }
}

/// The trimmed pieces of `s` between separators that stand outside quotes
/// and brackets; a blank last piece is dropped.
pub open spec fn top_level_parts(s: Seq<char>, sep: char) -> Seq<Seq<char>> {
    let (parts, cur, _, _) = split_scan(s, sep);
    if trim_seq(cur).len() > 0 {
        parts.push(trim_seq(cur))
    } else {
        parts
    }
}

proof fn lemma_scan_lengths(s: Seq<char>, sep: char)
    ensures
        split_scan(s, sep).1.len() <= s.len(),
        forall|i: int|
            0 <= i < split_scan(s, sep).0.len() ==> #[trigger] split_scan(s, sep).0[i].len()
                <= s.len(),
    decreases s.len(),
{
    if s.len() > 0 {
        lemma_scan_lengths(s.drop_last(), sep);
        lemma_trim_len(split_scan(s.drop_last(), sep).1);
    }
}

/// No part is longer than the input.
pub proof fn lemma_parts_len(s: Seq<char>, sep: char)
    ensures
        forall|i: int|
            0 <= i < top_level_parts(s, sep).len() ==> #[trigger] top_level_parts(s, sep)[i].len()
                <= s.len(),
{
    lemma_scan_lengths(s, sep);
    lemma_trim_len(split_scan(s, sep).1);
}

/// Split `input` at each `sep` that stands outside quotes and brackets.
fn split_top_level(input: &str, sep: char) -> (r: Vec<String>)
    ensures
        views(r@) == top_level_parts(input@, sep),
{
    let n = input.unicode_len();
    let mut parts: Vec<String> = Vec::new();
    let mut current = String::new();
    let mut opens: usize = 0;
    let mut closes: usize = 0;
    let mut in_quote: Option<char> = None;
    let mut i: usize = 0;
    assert(input@.take(0) =~= Seq::<char>::empty());
    assert(views(parts@) =~= Seq::<Seq<char>>::empty());
    assert(current@ =~= Seq::<char>::empty());
    while i < n
        invariant
            n == input@.len(),
            0 <= i <= n,
            opens <= i,
            closes <= i,
            split_scan(input@.take(i as int), sep) == (
                views(parts@),
                current@,
                opens - closes,
                in_quote,
            ),
        decreases n - i,
    {
        let ch = input.get_char(i);
        assert(input@.take(i + 1).drop_last() =~= input@.take(i as int));
        assert(input@.take(i + 1).last() == ch);
        let quote_char = ch == '"' || ch == '\'';
        if quote_char && in_quote == Some(ch) {
            in_quote = None;
            push_char(&mut current, ch);
        } else if quote_char && in_quote.is_none() {
            in_quote = Some(ch);
            push_char(&mut current, ch);
        } else if (ch == '[' || ch == '{') && in_quote.is_none() {
            opens += 1;
            push_char(&mut current, ch);
        } else if (ch == ']' || ch == '}') && in_quote.is_none() {
            closes += 1;
            push_char(&mut current, ch);
        } else if ch == sep && opens == closes && in_quote.is_none() {
            let piece = owned(trim(current.as_str()));
            parts.push(piece);
            current = String::new();
            assert(views(parts@) =~= split_scan(input@.take(i + 1), sep).0);
            assert(current@ =~= Seq::<char>::empty());
        } else {
            push_char(&mut current, ch);
        }
        proof {
            assert(views(parts@) =~= split_scan(input@.take(i + 1), sep).0);
        }
        i += 1;
    }
    assert(input@.take(n as int) =~= input@);
    let last = trim(current.as_str());
    if last.unicode_len() > 0 {
        parts.push(owned(last));
    }
    assert(views(parts@) =~= top_level_parts(input@, sep));
    parts
}


// ---------------------------------------------------------------------------
// Reading floats

/// `f` can give `o` for some text whose characters are `t`.
pub open spec fn gives<F: Fn(&str) -> Option<u64>>(f: F, t: Seq<char>, o: Option<u64>) -> bool {
    exists|x: &str| #![trigger f.ensures((x,), o)] x@ == t && f.ensures((x,), o)
}

/// The float reader `f` as a function of the text it reads: the bits it can
/// give for `t`, or `None` where it can give none.
pub open spec fn float_reading<F: Fn(&str) -> Option<u64>>(f: F) -> spec_fn(Seq<char>) -> Option<u64> {
    |t: Seq<char>|
        if exists|b: u64| #[trigger] gives(f, t, Some(b)) {
            Some(choose|b: u64| #[trigger] gives(f, t, Some(b)))
        } else {
            None
        }
}

/// `f` reads any text, and texts with the same characters read the same.
pub open spec fn reads_floats<F: Fn(&str) -> Option<u64>>(f: F) -> bool {
    &&& forall|x: &str| #[trigger] f.requires((x,))
    &&& forall|x: &str, y: &str, o1: Option<u64>, o2: Option<u64>|
        #![trigger f.ensures((x,), o1), f.ensures((y,), o2)]
        x@ == y@ && f.ensures((x,), o1) && f.ensures((y,), o2) ==> o1 == o2
}

pub(crate) fn read_float<F: Fn(&str) -> Option<u64>>(t: &str, f: &F) -> (r: Option<u64>)
    requires
        reads_floats(*f),
    ensures
        r == float_reading(*f)(t@),
{
    let o = f(t);
    assert(gives(*f, t@, o));
    match o {
        Some(b) => {
            assert(gives(*f, t@, Some(b)));
        },
        None => {
            assert forall|b: u64| !gives(*f, t@, Some(b)) by {
                if gives(*f, t@, Some(b)) {
                    let x = choose|x: &str| x@ == t@ && f.ensures((x,), Some(b));
                    assert(f.ensures((t,), None::<u64>));
                }
            }
        },
    }
    o
}

// ---------------------------------------------------------------------------
// The literal grammar

/// `t` starts with `open` and ends with `close` (one character may be both).
pub open spec fn wrapped(t: Seq<char>, open: char, close: char) -> bool {
    t.len() > 0 && t[0] == open && t.last() == close
}

pub open spec fn quoted(t: Seq<char>) -> bool {
    wrapped(t, '"', '"') || wrapped(t, '\'', '\'')
}

/// `t` without its first and last characters.
pub open spec fn inside(t: Seq<char>) -> Seq<char> {
    t.subrange(1, t.len() - 1)
}

/// `t` equals `w` up to ASCII case.
pub open spec fn same_ascii(t: Seq<char>, w: Seq<char>) -> bool {
    lower_seq(t) == lower_seq(w)
}

/// `t` is read as a scalar: a boolean, an integer or a finite float.
pub open spec fn scalar_text(t: Seq<char>, floats: spec_fn(Seq<char>) -> Option<u64>) -> bool {
    same_ascii(t, "true"@) || same_ascii(t, "false"@) || parse_signed(t) is Some || floats(t) is Some
}

/// How reading a literal goes wrong, if it does.
pub enum LiteralFault {
    Clean,
    /// Refused, with this message.
    Invalid(Seq<char>),
    /// A lone `"` or `'` stands where a value is read.
    LoneQuote,
}

/// The fault met first while reading `s` as a literal.
pub open spec fn literal_fault(s: Seq<char>, floats: spec_fn(Seq<char>) -> Option<u64>) -> LiteralFault
    decreases s.len(), 0int,
{
    let t = trim_seq(s);
    if scalar_text(t, floats) {
        LiteralFault::Clean
    } else if quoted(t) {
        if t.len() < 2 {
            LiteralFault::LoneQuote
        } else {
            LiteralFault::Clean
        }
    } else if wrapped(t, '[', ']') || wrapped(t, '{', '}') {
        proof {
            lemma_trim_len(s);
        }
        container_fault(inside(t), floats, wrapped(t, '{', '}'))
    } else {
        LiteralFault::Clean
    }
}

/// The fault met first while reading the items (or, with `map`, the
/// entries) between a pair of brackets.
pub open spec fn container_fault(
    inner: Seq<char>,
    floats: spec_fn(Seq<char>) -> Option<u64>,
    map: bool,
) -> LiteralFault
    decreases inner.len(), top_level_parts(inner, ',').len() + 2,
{
    if trim_seq(inner).len() == 0 {
        LiteralFault::Clean
    } else {
        items_fault(inner, 0, floats, map)
    }
}

/// The fault met first from item `i` on.
pub open spec fn items_fault(
    inner: Seq<char>,
    i: nat,
    floats: spec_fn(Seq<char>) -> Option<u64>,
    map: bool,
) -> LiteralFault
    decreases inner.len(), top_level_parts(inner, ',').len() - i + 1,
{
    let parts = top_level_parts(inner, ',');
    if i >= parts.len() {
        LiteralFault::Clean
    } else {
        proof {
            lemma_parts_len(inner, ',');
        }
        let p = parts[i as int];
        let here = if map {
            match split_once(p, ":"@) {
                Some((_, v)) => {
                    proof {
                        reveal_strlit(":");
                        lemma_split_once_len(p, ":"@);
                        lemma_trim_len(v);
                    }
                    literal_fault(trim_seq(v), floats)
                },
                None => LiteralFault::Invalid("invalid map entry: "@ + p),
            }
        } else {
            literal_fault(p, floats)
        };
        if here is Clean {
            items_fault(inner, i + 1, floats, map)
        } else {
            here
        }
    }
}

/// The text of each entry's value in a mapping literal, by normalised key;
/// a later entry replaces an earlier one with the same key.
pub open spec fn entry_texts(parts: Seq<Seq<char>>) -> Map<Seq<char>, Seq<char>>
    decreases parts.len(),
{
    if parts.len() == 0 {
        Map::empty()
    } else {
        let rest = entry_texts(parts.drop_last());
        match split_once(parts.last(), ":"@) {
            Some((k, v)) => rest.insert(normal_key(k), trim_seq(v)),
            None => rest,
        }
    }
}

pub proof fn lemma_entry_texts_len(parts: Seq<Seq<char>>, bound: int)
    requires
        forall|i: int| 0 <= i < parts.len() ==> #[trigger] parts[i].len() <= bound,
    ensures
        forall|k: Seq<char>| #[trigger]
            entry_texts(parts).contains_key(k) ==> entry_texts(parts)[k].len() < bound,
    decreases parts.len(),
{
    if parts.len() > 0 {
        let rest = parts.drop_last();
        assert forall|i: int| 0 <= i < rest.len() implies #[trigger] rest[i].len() <= bound by {
            assert(rest[i] == parts[i]);
        }
        lemma_entry_texts_len(rest, bound);
        assert(parts[parts.len() - 1].len() <= bound);
        reveal_strlit(":");
        lemma_split_once_len(parts.last(), ":"@);
        match split_once(parts.last(), ":"@) {
            Some((k, v)) => {
                lemma_trim_len(v);
                assert(v.len() + 1 <= parts.last().len());
                assert forall|key: Seq<char>| #[trigger]
                    entry_texts(parts).contains_key(key) implies entry_texts(parts)[key].len() < bound by {
                    if key != normal_key(k) {
                        assert(entry_texts(rest).contains_key(key));
                    }
                }
            },
            None => {
                assert(entry_texts(parts) == entry_texts(rest));
            },
        }
    }
}

/// `v` is what reading `s` as a literal gives.
pub open spec fn literal_holds(s: Seq<char>, v: Value, floats: spec_fn(Seq<char>) -> Option<u64>) -> bool
    decreases s.len(), 0int,
{
    let t = trim_seq(s);
    if same_ascii(t, "true"@) {
        v == Value::Bool(true)
    } else if same_ascii(t, "false"@) {
        v == Value::Bool(false)
    } else if parse_signed(t) is Some {
        v == Value::Int(parse_signed(t)->0 as i64)
    } else if floats(t) is Some {
        v == Value::Float(floats(t)->0)
    } else if quoted(t) {
        v matches Value::String(x) && x@ == inside(t)
    } else if wrapped(t, '[', ']') {
        proof {
            lemma_trim_len(s);
        }
        v matches Value::List(items) && list_holds(inside(t), items@, floats)
    } else if wrapped(t, '{', '}') {
        proof {
            lemma_trim_len(s);
        }
        v matches Value::Mapping(es) && map_holds(inside(t), es@, floats)
    } else {
        v matches Value::String(x) && x@ == t
    }
}

/// `items` are what reading the list items between `[` and `]` gives.
pub open spec fn list_holds(inner: Seq<char>, items: Seq<Value>, floats: spec_fn(Seq<char>) -> Option<u64>) -> bool
    decreases inner.len(), 1int,
{
    if trim_seq(inner).len() == 0 {
        items.len() == 0
    } else {
        let parts = top_level_parts(inner, ',');
        proof {
            lemma_parts_len(inner, ',');
        }
        &&& items.len() == parts.len()
        &&& forall|i: int| 0 <= i < parts.len() ==> literal_holds(#[trigger] parts[i], items[i], floats)
    }
}

/// `es` holds one entry per key written between `{` and `}`, each with
/// what reading that key's last value gives.
pub open spec fn map_holds(
    inner: Seq<char>,
    es: Seq<(String, Value)>,
    floats: spec_fn(Seq<char>) -> Option<u64>,
) -> bool
    decreases inner.len(), 1int,
{
    if trim_seq(inner).len() == 0 {
        es.len() == 0
    } else {
        let m = entry_texts(top_level_parts(inner, ','));
        proof {
            lemma_parts_len(inner, ',');
            lemma_entry_texts_len(top_level_parts(inner, ','), inner.len() as int);
        }
        &&& unique_keys(es)
        &&& forall|k: Seq<char>| #[trigger] has_key(es, k) <==> m.contains_key(k)
        &&& forall|k: Seq<char>|
            #[trigger] m.contains_key(k) ==> literal_holds(m[k], table(es)[k].1, floats)
    }
}


// ---------------------------------------------------------------------------
// Reading literals

/// Parse a literal value for `@set`: `true`/`false` in any ASCII case, an
/// `i64`, a finite float, a string in `"` or `'`, a `[..]` list or a `{k: v}`
/// mapping of such values, and otherwise the trimmed text as a string.
/// Whether text is a finite float, and its bits, is what `finite_float_bits`
/// says; keys of a mapping are normalised and a later entry replaces an
/// earlier one.
pub fn parse_value_literal<F: Fn(&str) -> Option<u64>>(input: &str, finite_float_bits: &F) -> (r:
    Result<Value, EditError>)
    requires
        reads_floats(*finite_float_bits),
        literal_fault(input@, float_reading(*finite_float_bits)) != LiteralFault::LoneQuote,
    ensures
        match r {
            Ok(v) => {
                &&& literal_fault(input@, float_reading(*finite_float_bits)) == LiteralFault::Clean
                &&& literal_holds(input@, v, float_reading(*finite_float_bits))
            },
            Err(e) => e matches EditError::InvalidValue(m) && literal_fault(
                input@,
                float_reading(*finite_float_bits),
            ) == LiteralFault::Invalid(m@),
        },
    decreases input@.len(), 1int,
{
    let ghost fl = float_reading(*finite_float_bits);
    let trimmed = trim(input);
    proof {
        lemma_trim_len(input@);
    }
    if eq_ignore_case(trimmed, "true") {
        return Ok(Value::Bool(true));
    }
    if eq_ignore_case(trimmed, "false") {
        return Ok(Value::Bool(false));
    }
    if let Some(n) = parse_i64(trimmed) {
        return Ok(Value::Int(n));
    }
    if let Some(f) = read_float(trimmed, finite_float_bits) {
        return Ok(Value::Float(f));
    }
    let n = trimmed.unicode_len();
    let first = if n > 0 {
        trimmed.get_char(0)
    } else {
        ' '
    };
    let last = if n > 0 {
        trimmed.get_char(n - 1)
    } else {
        ' '
    };
    if n > 0 && ((first == '"' && last == '"') || (first == '\'' && last == '\'')) {
        return Ok(Value::String(owned(trimmed.substring_char(1, n - 1))));
    }
    if n > 0 && first == '[' && last == ']' {
        return parse_list_literal(trimmed.substring_char(1, n - 1), finite_float_bits);
    }
    if n > 0 && first == '{' && last == '}' {
        return parse_map_literal(trimmed.substring_char(1, n - 1), finite_float_bits);
    }
    Ok(Value::String(owned(trimmed)))
}

/// The items between `[` and `]`.
fn parse_list_literal<F: Fn(&str) -> Option<u64>>(inner: &str, finite_float_bits: &F) -> (r: Result<
    Value,
    EditError,
>)
    requires
        reads_floats(*finite_float_bits),
        container_fault(inner@, float_reading(*finite_float_bits), false) != LiteralFault::LoneQuote,
    ensures
        match r {
            Ok(v) => {
                &&& container_fault(inner@, float_reading(*finite_float_bits), false)
                    == LiteralFault::Clean
                &&& v matches Value::List(items) && list_holds(
                    inner@,
                    items@,
                    float_reading(*finite_float_bits),
                )
            },
            Err(e) => e matches EditError::InvalidValue(m) && container_fault(
                inner@,
                float_reading(*finite_float_bits),
                false,
            ) == LiteralFault::Invalid(m@),
        },
    decreases inner@.len(), 2int,
{
    let ghost fl = float_reading(*finite_float_bits);
    if trim(inner).unicode_len() == 0 {
        return Ok(Value::List(Vec::new()));
    }
    let parts = split_top_level(inner, ',');
    proof {
        lemma_parts_len(inner@, ',');
    }
    assert forall|j: int| 0 <= j < parts@.len() implies #[trigger] parts@[j]@.len() <= inner@.len() by {
        assert(views(parts@)[j] == parts@[j]@);
    }
    let mut items: Vec<Value> = Vec::new();
    let mut i: usize = 0;
    while i < parts.len()
        invariant
            reads_floats(*finite_float_bits),
            fl == float_reading(*finite_float_bits),
            views(parts@) == top_level_parts(inner@, ','),
            forall|j: int| 0 <= j < parts@.len() ==> #[trigger] parts@[j]@.len() <= inner@.len(),
            trim_seq(inner@).len() != 0,
            0 <= i <= parts@.len(),
            items@.len() == i,
            items_fault(inner@, 0, fl, false) == items_fault(inner@, i as nat, fl, false),
            items_fault(inner@, 0, fl, false) != LiteralFault::LoneQuote,
            forall|j: int| 0 <= j < i ==> literal_holds(parts@[j]@, #[trigger] items@[j], fl),
        decreases parts@.len() - i,
    {
        assert(views(parts@)[i as int] == parts@[i as int]@);
        assert(parts@[i as int]@.len() <= inner@.len());
        match parse_value_literal(parts[i].as_str(), finite_float_bits) {
            Ok(v) => {
                items.push(v);
            },
            Err(e) => {
                return Err(e);
            },
        }
        i += 1;
    }
    proof {
        assert forall|j: int| 0 <= j < top_level_parts(inner@, ',').len() implies literal_holds(
            #[trigger] top_level_parts(inner@, ',')[j],
            items@[j],
            fl,
        ) by {
            assert(views(parts@)[j] == parts@[j]@);
        }
    }
    Ok(Value::List(items))
}

proof fn lemma_map_step(
    before: Seq<(String, Value)>,
    after: Seq<(String, Value)>,
    done: Seq<Seq<char>>,
    part: Seq<char>,
    key: Seq<char>,
    v: Value,
    fl: spec_fn(Seq<char>) -> Option<u64>,
)
    requires
        forall|k: Seq<char>| #[trigger] has_key(before, k) <==> entry_texts(done).contains_key(k),
        forall|k: Seq<char>| #[trigger]
            entry_texts(done).contains_key(k) ==> literal_holds(entry_texts(done)[k], table(before)[k].1, fl),
        split_once(part, ":"@) matches Some((k, t)) && key == normal_key(k) && literal_holds(
            trim_seq(t),
            v,
            fl,
        ),
        table(after) == table(before).insert(key, (table(after)[key].0, v)),
    ensures
        forall|k: Seq<char>| #[trigger] has_key(after, k) <==> entry_texts(done.push(part)).contains_key(k),
        forall|k: Seq<char>| #[trigger]
            entry_texts(done.push(part)).contains_key(k) ==> literal_holds(
                entry_texts(done.push(part))[k],
                table(after)[k].1,
                fl,
            ),
{
    let all = done.push(part);
    assert(all.drop_last() =~= done);
    assert forall|k: Seq<char>| #[trigger] has_key(after, k) <==> entry_texts(all).contains_key(k) by {
        assert(table(after).contains_key(k) == has_key(after, k));
        assert(table(before).contains_key(k) == has_key(before, k));
    }
    assert forall|k: Seq<char>| #[trigger] entry_texts(all).contains_key(k) implies literal_holds(
        entry_texts(all)[k],
        table(after)[k].1,
        fl,
    ) by {
        if k != key {
            assert(entry_texts(done).contains_key(k));
            assert(table(before).contains_key(k) == has_key(before, k));
        }
    }
}

/// The entries between `{` and `}`.
#[verifier::rlimit(30)]
#[verifier::spinoff_prover]
fn parse_map_literal<F: Fn(&str) -> Option<u64>>(inner: &str, finite_float_bits: &F) -> (r: Result<
    Value,
    EditError,
>)
    requires
        reads_floats(*finite_float_bits),
        container_fault(inner@, float_reading(*finite_float_bits), true) != LiteralFault::LoneQuote,
    ensures
        match r {
            Ok(v) => {
                &&& container_fault(inner@, float_reading(*finite_float_bits), true)
                    == LiteralFault::Clean
                &&& v matches Value::Mapping(es) && map_holds(
                    inner@,
                    es@,
                    float_reading(*finite_float_bits),
                )
            },
            Err(e) => e matches EditError::InvalidValue(m) && container_fault(
                inner@,
                float_reading(*finite_float_bits),
                true,
            ) == LiteralFault::Invalid(m@),
        },
    decreases inner@.len(), 2int,
{
    let ghost fl = float_reading(*finite_float_bits);
    if trim(inner).unicode_len() == 0 {
        return Ok(Value::Mapping(Vec::new()));
    }
    let parts = split_top_level(inner, ',');
    proof {
        lemma_parts_len(inner@, ',');
        reveal_strlit(":");
    }
    let ghost pv = views(parts@);
    assert forall|j: int| 0 <= j < parts@.len() implies #[trigger] parts@[j]@.len() <= inner@.len() by {
        assert(pv[j] == parts@[j]@);
    }
    let mut map: Vec<(String, Value)> = Vec::new();
    let mut i: usize = 0;
    assert(pv.take(0) =~= Seq::<Seq<char>>::empty());
    while i < parts.len()
        invariant
            reads_floats(*finite_float_bits),
            fl == float_reading(*finite_float_bits),
            pv == views(parts@),
            pv == top_level_parts(inner@, ','),
            forall|j: int| 0 <= j < parts@.len() ==> #[trigger] parts@[j]@.len() <= inner@.len(),
            trim_seq(inner@).len() != 0,
            ":"@.len() == 1,
            0 <= i <= parts@.len(),
            items_fault(inner@, 0, fl, true) == items_fault(inner@, i as nat, fl, true),
            items_fault(inner@, 0, fl, true) != LiteralFault::LoneQuote,
            unique_keys(map@),
            forall|k: Seq<char>| #[trigger] has_key(map@, k) <==> entry_texts(pv.take(i as int)).contains_key(k),
            forall|k: Seq<char>| #[trigger]
                entry_texts(pv.take(i as int)).contains_key(k) ==> literal_holds(
                    entry_texts(pv.take(i as int))[k],
                    table(map@)[k].1,
                    fl,
                ),
        decreases parts@.len() - i,
    {
        let part = parts[i].as_str();
        assert(pv[i as int] == part@);
        assert(pv.take(i + 1).drop_last() =~= pv.take(i as int));
        assert(pv.take(i + 1).last() == part@);
        match split_once_str(part, ":") {
            None => {
                return Err(EditError::InvalidValue(concat2("invalid map entry: ", part)));
            },
            Some((key, value)) => {
                proof {
                    lemma_split_once_len(part@, ":"@);
                    lemma_trim_len(value@);
                }
                let key = normalize_key(key);
                match parse_value_literal(trim(value), finite_float_bits) {
                    Ok(v) => {
                        let ghost before = map@;
                        let ghost kv = key@;
                        let ghost gv = v;
                        insert_entry(&mut map, (key, v));
                        proof {
                            assert(pv.take(i + 1) =~= pv.take(i as int).push(part@));
                            lemma_map_step(before, map@, pv.take(i as int), part@, kv, gv, fl);
                        }
                    },
                    Err(e) => {
                        return Err(e);
                    },
                }
            },
        }
        i += 1;
    }
    assert(pv.take(parts@.len() as int) =~= pv);
    Ok(Value::Mapping(map))
}

} // verus!
