//! MUDL sources, base URLs and relative imports, and the `@universe` / `@world` headers.

use vstd::prelude::*;

use super::lines::comment_free;
use crate::assoc::{insert_entry, table, unique_keys};
use crate::text::{
    concat2, ends_with, find, first_occurrence, first_piece, has_prefix, has_suffix, join,
    join_all, lines, owned, push_str, rstrip_in, split_char, split_lines, split_on, split_once,
    split_once_str, starts_with, str_eq, strip_prefix, trim, trim_end_in, trim_seq, views,
};

verus! {

/// A loaded MUDL source — a local file (by path) or a remote URL fetched at load time.
#[derive(Debug, Clone)]
pub enum MudlSource {
    File(String),
    Remote { url: String, content: String },
}

impl MudlSource {
    /// Where the source came from: its path or its URL.
    pub fn label(&self) -> (r: String)
        ensures
            r@ == match self {
                MudlSource::File(path) => path@,
                MudlSource::Remote { url, .. } => url@,
            },
    {
        match self {
            MudlSource::File(path) => path.clone(),
            MudlSource::Remote { url, .. } => url.clone(),
        }
    }
}

/// Whether an import names a URL rather than a file.
pub open spec fn url_spec(s: Seq<char>) -> bool {
    has_prefix(s, "http://"@) || has_prefix(s, "https://"@)
}

pub fn is_url(spec: &str) -> (r: bool)
    ensures
        r == url_spec(spec@),
{
    starts_with(spec, "http://") || starts_with(spec, "https://")
}

/// The scheme, host and path of a base URL.
#[derive(Debug)]
pub struct ParsedBaseUrl {
    pub scheme: String,
    pub host: String,
    pub path: String,
}

pub struct BaseUrlView {
    pub scheme: Seq<char>,
    pub host: Seq<char>,
    pub path: Seq<char>,
}

impl View for ParsedBaseUrl {
    type V = BaseUrlView;

    open spec fn view(&self) -> BaseUrlView {
        BaseUrlView { scheme: self.scheme@, host: self.host@, path: self.path@ }
    }
}

/// `<scheme>://<host><path>`: the path starts at the first `/` after the scheme
/// (`/` when there is none); the host must not be empty.
pub open spec fn base_of(url: Seq<char>) -> Option<BaseUrlView> {
    match split_once(url, "://"@) {
        None => None,
        Some((scheme, rest)) => if host_part(rest).len() == 0 {
            None
        } else {
            Some(BaseUrlView { scheme, host: host_part(rest), path: path_part(rest) })
        },
    }
}

/// The host part of what follows `://`: up to the first `/`.
pub open spec fn host_part(rest: Seq<char>) -> Seq<char> {
    match first_occurrence(rest, "/"@) {
        Some(i) => rest.take(i),
        None => rest,
    }
}

/// The path part of what follows `://`: from the first `/`, else `/`.
pub open spec fn path_part(rest: Seq<char>) -> Seq<char> {
    match first_occurrence(rest, "/"@) {
        Some(i) => rest.skip(i),
        None => "/"@,
    }
}

fn split_host_path(rest: &str) -> (r: (&str, &str))
    ensures
        r.0@ == host_part(rest@),
        r.1@ == path_part(rest@),
{
    let n = rest.unicode_len();
    match find(rest, "/") {
        Some(i) => {
            let host = rest.substring_char(0, i);
            let path = rest.substring_char(i, n);
            assert(host@ =~= rest@.take(i as int));
            assert(path@ =~= rest@.skip(i as int));
            (host, path)
        },
        None => (rest, "/"),
    }
}

/// Split a base URL into scheme, host and path.
pub fn parse_base(url: &str) -> (r: Option<ParsedBaseUrl>)
    ensures
        match r {
            Some(b) => base_of(url@) == Some(b@),
            None => base_of(url@) is None,
        },
{
    match split_once_str(url, "://") {
        Some((scheme, rest)) => {
            let (host, path) = split_host_path(rest);
            if host.unicode_len() == 0 {
                None
            } else {
                Some(ParsedBaseUrl { scheme: owned(scheme), host: owned(host), path: owned(path) })
            }
        },
        None => None,
    }
}

/// Path segments after walking the parts of a relative path: empty parts and `.`
/// are skipped, `..` drops the last segment, anything else is appended.
pub open spec fn walk_parts(segs: Seq<Seq<char>>, parts: Seq<Seq<char>>) -> Seq<Seq<char>>
    decreases parts.len(),
{
    if parts.len() == 0 {
        segs
    } else {
        let prev = walk_parts(segs, parts.drop_last());
        let p = parts.last();
        if p.len() == 0 || p == "."@ {
            prev
        } else if p == ".."@ {
            if prev.len() > 0 {
                prev.drop_last()
            } else {
                prev
            }
        } else {
            prev.push(p)
        }
    }
}

/// The directory segments of a base URL path: the last segment is dropped unless
/// the path ends with `/`.
pub open spec fn base_dir(path: Seq<char>) -> Seq<Seq<char>> {
    let segs = split_char(rstrip_in(path, seq!['/']), '/').filter(|s: Seq<char>| s.len() > 0);
    if !has_suffix(path, "/"@) && segs.len() > 0 {
        segs.drop_last()
    } else {
        segs
    }
}

/// A path from its segments: `/` alone, or each segment after a `/`.
pub open spec fn rooted(segs: Seq<Seq<char>>) -> Seq<char> {
    if segs.len() == 0 {
        "/"@
    } else {
        "/"@ + join(segs, "/"@)
    }
}

/// `relative` resolved against `base_url`: a URL stands as it is; an absolute
/// path, or a base that is no URL, gives nothing.
pub open spec fn resolved_url(base_url: Seq<char>, relative: Seq<char>) -> Option<Seq<char>> {
    if url_spec(relative) {
        Some(relative)
    } else {
        match base_of(base_url) {
            None => None,
            Some(b) => if has_prefix(relative, "/"@) {
                None
            } else {
                let segs = walk_parts(base_dir(b.path), split_char(relative, '/'));
                Some(b.scheme + "://"@ + b.host + rooted(segs))
            },
        }
    }
}

/// The non-empty pieces of `s` split on `/`.
fn nonempty_segments(s: &str) -> (r: Vec<String>)
    ensures
        views(r@) == split_char(s@, '/').filter(|p: Seq<char>| p.len() > 0),
{
    let parts = split_on(s, '/');
    let ghost all = split_char(s@, '/');
    let ghost pred = |p: Seq<char>| p.len() > 0;
    let mut out: Vec<String> = Vec::new();
    let mut i: usize = 0;
    while i < parts.len()
        invariant
            0 <= i <= parts@.len(),
            views(parts@) == all,
            all == split_char(s@, '/'),
            pred == (|p: Seq<char>| p.len() > 0),
            views(out@) == all.take(i as int).filter(pred),
        decreases parts@.len() - i,
    {
        let p = parts[i].as_str();
        assert(p@ == all[i as int]);
        assert(all.take(i + 1) =~= all.take(i as int).push(p@));
        proof {
            all.take(i as int).lemma_filter_push(p@, pred);
        }
        if p.unicode_len() > 0 {
            let ghost before = views(out@);
            out.push(owned(p));
            assert(views(out@) =~= before.push(p@));
        }
        i += 1;
    }
    assert(all.take(parts@.len() as int) =~= all);
    out
}

/// The directory segments of a base URL path (see [`base_dir`]).
fn base_segments(path: &str) -> (r: Vec<String>)
    ensures
        views(r@) == base_dir(path@),
{
    let slash = vec!['/'];
    assert(slash@ =~= seq!['/']);
    let mut segs = nonempty_segments(trim_end_in(path, &slash));
    if !ends_with(path, "/") && segs.len() > 0 {
        let ghost before = views(segs@);
        segs.pop();
        assert(views(segs@) =~= before.drop_last());
    }
    segs
}

/// Walks the parts of `relative` from `segs` (see [`walk_parts`]).
fn walk_relative(segs: Vec<String>, relative: &str) -> (r: Vec<String>)
    ensures
        views(r@) == walk_parts(views(segs@), split_char(relative@, '/')),
{
    let ghost start = views(segs@);
    let mut segs = segs;
    let parts = split_on(relative, '/');
    let ghost ps = split_char(relative@, '/');
    let mut i: usize = 0;
    while i < parts.len()
        invariant
            0 <= i <= parts@.len(),
            views(parts@) == ps,
            views(segs@) == walk_parts(start, ps.take(i as int)),
        decreases parts@.len() - i,
    {
        let p = parts[i].as_str();
        assert(p@ == ps[i as int]);
        assert(ps.take(i + 1).drop_last() =~= ps.take(i as int));
        if p.unicode_len() == 0 || str_eq(p, ".") {
        } else if str_eq(p, "..") {
            if segs.len() > 0 {
                let ghost before = views(segs@);
                segs.pop();
                assert(views(segs@) =~= before.drop_last());
            }
        } else {
            let ghost before = views(segs@);
            segs.push(owned(p));
            assert(views(segs@) =~= before.push(p@));
        }
        i += 1;
    }
    assert(ps.take(parts@.len() as int) =~= ps);
    segs
}

/// Resolve `relative` against the URL `base_url`.
pub fn resolve_url_relative(base_url: &str, relative: &str) -> (r: Option<String>)
    ensures
        match r {
            Some(u) => resolved_url(base_url@, relative@) == Some(u@),
            None => resolved_url(base_url@, relative@) is None,
        },
{
    if is_url(relative) {
        return Some(owned(relative));
    }
    let base = match parse_base(base_url) {
        Some(b) => b,
        None => {
            return None;
        },
    };
    if starts_with(relative, "/") {
        return None;
    }
    let segs = walk_relative(base_segments(base.path.as_str()), relative);
    let path = if segs.len() == 0 {
        owned("/")
    } else {
        concat2("/", join_all(&segs, "/").as_str())
    };
    let mut url = base.scheme;
    push_str(&mut url, "://");
    push_str(&mut url, base.host.as_str());
    push_str(&mut url, path.as_str());
    Some(url)
}

/// What reading a header block has found so far.
pub struct MetaRead {
    pub name: Option<Seq<char>>,
    pub fields: Map<Seq<char>, Seq<char>>,
    pub in_block: bool,
    pub done: bool,
}

/// One line of a source read for the header block `tag`: the block starts at a
/// line beginning with `tag` (its rest, trimmed, names it when non-empty) and
/// ends at the first `@end` inside it; `key=value` lines inside it keep the keys
/// in `keys` and `default_world`.
pub open spec fn meta_step(st: MetaRead, raw: Seq<char>, tag: Seq<char>, keys: Seq<Seq<char>>) -> MetaRead {
    let t = comment_free(raw);
    if st.done || t.len() == 0 || has_prefix(t, "#"@) {
        st
    } else if t == "@end"@ {
        if st.in_block {
            MetaRead { done: true, ..st }
        } else {
            st
        }
    } else if has_prefix(t, tag) {
        let n = trim_seq(t.skip(tag.len() as int));
        MetaRead { in_block: true, name: if n.len() > 0 { Some(n) } else { st.name }, ..st }
    } else if st.in_block {
        match split_once(t, "="@) {
            Some((k, v)) => if keys.contains(trim_seq(k)) || trim_seq(k) == "default_world"@ {
                MetaRead { fields: st.fields.insert(trim_seq(k), trim_seq(v)), ..st }
            } else {
                st
            },
            None => st,
        }
    } else {
        st
    }
}

pub open spec fn meta_fold(ls: Seq<Seq<char>>, tag: Seq<char>, keys: Seq<Seq<char>>) -> MetaRead
    decreases ls.len(),
{
    if ls.len() == 0 {
        MetaRead { name: None, fields: Map::empty(), in_block: false, done: false }
    } else {
        meta_step(meta_fold(ls.drop_last(), tag, keys), ls.last(), tag, keys)
    }
}

/// The name and fields of the first `tag` block of a source.
pub open spec fn block_meta(content: Seq<char>, tag: Seq<char>, keys: Seq<Seq<char>>) -> (
    Option<Seq<char>>,
    Map<Seq<char>, Seq<char>>,
) {
    let st = meta_fold(lines(content), tag, keys);
    (st.name, st.fields)
}

/// The characters of an optional string.
pub open spec fn opt_chars(o: Option<String>) -> Option<Seq<char>> {
    match o {
        Some(s) => Some(s@),
        None => None,
    }
}

/// A keyed list of string pairs read as a map.
pub open spec fn pairs_map(v: Seq<(String, String)>) -> Map<Seq<char>, Seq<char>> {
    table(v).map_values(|e: (String, String)| e.1@)
}

/// The string views of a list of string slices.
pub open spec fn str_views(v: Seq<&str>) -> Seq<Seq<char>> {
    v.map_values(|s: &str| s@)
}

fn is_listed(keys: &[&str], k: &str) -> (r: bool)
    ensures
        r == str_views(keys@).contains(k@),
{
    let mut i: usize = 0;
    while i < keys.len()
        invariant
            0 <= i <= keys@.len(),
            forall|j: int| 0 <= j < i ==> str_views(keys@)[j] != k@,
        decreases keys@.len() - i,
    {
        if str_eq(keys[i], k) {
            assert(str_views(keys@)[i as int] == k@);
            return true;
        }
        i += 1;
    }
    false
}

/// Reads one line of a source for the header block `block_tag` (see [`meta_step`]).
fn meta_line(
    name: &mut Option<String>,
    fields: &mut Vec<(String, String)>,
    in_block: &mut bool,
    raw: &str,
    block_tag: &str,
    field_keys: &[&str],
) -> (ended: bool)
    requires
        unique_keys(old(fields)@),
    ensures
        unique_keys(final(fields)@),
        ({
            let st = meta_step(
                MetaRead { name: opt_chars(*old(name)), fields: pairs_map(old(fields)@), in_block: *old(in_block), done: false },
                raw@,
                block_tag@,
                str_views(field_keys@),
            );
            &&& opt_chars(*final(name)) == st.name
            &&& pairs_map(final(fields)@) == st.fields
            &&& *final(in_block) == st.in_block
            &&& ended == st.done
        }),
{
    proof {
        reveal_strlit("#");
        reveal_strlit("@end");
        reveal_strlit("default_world");
    }
    let t = trim(first_piece(raw, ';'));
    if t.unicode_len() == 0 || starts_with(t, "#") {
        return false;
    }
    if str_eq(t, "@end") {
        return *in_block;
    }
    if let Some(rest) = strip_prefix(t, block_tag) {
        let n = trim(rest);
        *in_block = true;
        if n.unicode_len() > 0 {
            *name = Some(owned(n));
        }
        return false;
    }
    if *in_block {
        if let Some((k, v)) = split_once_str(t, "=") {
            let key = trim(k);
            if is_listed(field_keys, key) || str_eq(key, "default_world") {
                let ghost before = pairs_map(fields@);
                insert_entry(fields, (owned(key), owned(trim(v))));
                assert(pairs_map(fields@) =~= before.insert(key@, trim_seq(v@)));
            }
        }
    }
    false
}

/// The name and fields of the first `block_tag` block (`@universe`, `@world`).
pub fn parse_block_meta_fields(content: &str, block_tag: &str, field_keys: &[&str]) -> (r: (
    Option<String>,
    Vec<(String, String)>,
))
    ensures
        unique_keys(r.1@),
        (opt_chars(r.0), pairs_map(r.1@)) == block_meta(content@, block_tag@, str_views(field_keys@)),
{
    let ls = split_lines(content);
    let ghost keys = str_views(field_keys@);
    let ghost ws = views(ls@);
    let mut name: Option<String> = None;
    let mut fields: Vec<(String, String)> = Vec::new();
    let mut in_block = false;
    let mut i: usize = 0;
    assert(pairs_map(fields@) =~= Map::<Seq<char>, Seq<char>>::empty());
    assert(ws.take(ws.len() as int) =~= ws);
    while i < ls.len()
        invariant
            0 <= i <= ls@.len(),
            ws == views(ls@),
            ws == lines(content@),
            ws.take(ws.len() as int) == ws,
            keys == str_views(field_keys@),
            unique_keys(fields@),
            ({
                let st = meta_fold(ws.take(i as int), block_tag@, keys);
                &&& opt_chars(name) == st.name
                &&& pairs_map(fields@) == st.fields
                &&& in_block == st.in_block
                &&& !st.done
            }),
        ensures
            unique_keys(fields@),
            ({
                let st = meta_fold(ws, block_tag@, keys);
                &&& opt_chars(name) == st.name
                &&& pairs_map(fields@) == st.fields
            }),
        decreases ls@.len() - i,
    {
        assert(ws.take(i + 1).drop_last() =~= ws.take(i as int));
        assert(ws.take(i + 1).last() == ls@[i as int]@);
        let ended = meta_line(&mut name, &mut fields, &mut in_block, ls[i].as_str(), block_tag, field_keys);
        if ended {
            proof {
                lemma_meta_done_stays(ws, i as int + 1, block_tag@, keys);
            }
            break;
        }
        i += 1;
    }
    (name, fields)
}

/// The value of `key` among the fields.
fn field_value(fields: &Vec<(String, String)>, key: &str) -> (r: Option<String>)
    requires
        unique_keys(fields@),
    ensures
        opt_chars(r) == pairs_map(fields@).get(key@),
{
    match crate::assoc::get_entry(fields, key) {
        Some(e) => Some(e.1.clone()),
        None => None,
    }
}

/// The name of the first `block_tag` block and the value of its first listed field.
pub fn parse_block_meta(content: &str, block_tag: &str, field_keys: &[&str]) -> (r: (Option<String>, Option<String>))
    ensures
        opt_chars(r.0) == block_meta(content@, block_tag@, str_views(field_keys@)).0,
        field_keys@.len() == 0 ==> r.1 is None,
        field_keys@.len() > 0 ==> opt_chars(r.1) == block_meta(content@, block_tag@, str_views(field_keys@)).1.get(
            field_keys@[0]@,
        ),
{
    let (name, fields) = parse_block_meta_fields(content, block_tag, field_keys);
    if field_keys.len() == 0 {
        return (name, None);
    }
    let v = field_value(&fields, field_keys[0]);
    (name, v)
}

/// The name and `default_world` of a universe's `@universe` block.
pub fn parse_universe_meta(content: &str) -> (r: (Option<String>, Option<String>))
    ensures
        opt_chars(r.0) == block_meta(content@, "@universe"@, seq!["default_world"@]).0,
        opt_chars(r.1) == block_meta(content@, "@universe"@, seq!["default_world"@]).1.get("default_world"@),
{
    let keys = ["default_world"];
    assert(str_views(keys@) =~= seq!["default_world"@]);
    parse_block_meta(content, "@universe", &keys)
}

/// The name and `starting_location` of a world's `@world` block.
pub fn parse_world_meta(content: &str) -> (r: (Option<String>, Option<String>))
    ensures
        opt_chars(r.0) == block_meta(content@, "@world"@, seq!["starting_location"@]).0,
        opt_chars(r.1) == block_meta(content@, "@world"@, seq!["starting_location"@]).1.get(
            "starting_location"@,
        ),
{
    let keys = ["starting_location"];
    assert(str_views(keys@) =~= seq!["starting_location"@]);
    let (name, fields) = parse_block_meta_fields(content, "@world", &keys);
    let v = field_value(&fields, "starting_location");
    (name, v)
}

/// Once the block has ended, later lines change nothing.
proof fn lemma_meta_done_stays(ws: Seq<Seq<char>>, i: int, tag: Seq<char>, keys: Seq<Seq<char>>)
    requires
        0 <= i <= ws.len(),
        meta_fold(ws.take(i), tag, keys).done,
    ensures
        meta_fold(ws, tag, keys) == meta_fold(ws.take(i), tag, keys),
    decreases ws.len() - i,
{
    if i < ws.len() {
        assert(ws.take(i + 1).drop_last() =~= ws.take(i));
        lemma_meta_done_stays(ws, i + 1, tag, keys);
    } else {
        assert(ws.take(i) =~= ws);
    }
}

// ---------------------------------------------------------------------------
// Includes and imports

/// A source directive of a world file: `@include <path>` (relative to the
/// world root) or `@import <spec>`.
#[derive(Debug, Clone, PartialEq, Eq)]
pub enum SourceDirective {
    Include(String),
    Import(String),
}

pub enum DirectiveView {
    Include(Seq<char>),
    Import(Seq<char>),
}

impl View for SourceDirective {
    type V = DirectiveView;

    open spec fn view(&self) -> DirectiveView {
        match self {
            SourceDirective::Include(p) => DirectiveView::Include(p@),
            SourceDirective::Import(s) => DirectiveView::Import(s@),
        }
    }
}

/// The directive a source line holds, if any; an `@import` without a spec is none.
pub open spec fn directive_of(raw: Seq<char>) -> Option<DirectiveView> {
    let t = comment_free(raw);
    if has_prefix(t, "@include "@) {
        Some(DirectiveView::Include(trim_seq(t.skip(9))))
    } else if has_prefix(t, "@import "@) && trim_seq(t.skip(8)).len() > 0 {
        Some(DirectiveView::Import(trim_seq(t.skip(8))))
    } else {
        None
    }
}

/// The directives of `ls`, in order.
pub open spec fn directives_in(ls: Seq<Seq<char>>) -> Seq<DirectiveView>
    decreases ls.len(),
{
    if ls.len() == 0 {
        Seq::empty()
    } else {
        let prev = directives_in(ls.drop_last());
        match directive_of(ls.last()) {
            Some(d) => prev.push(d),
            None => prev,
        }
    }
}

fn read_directive(raw: &str) -> (r: Option<SourceDirective>)
    ensures
        match r {
            Some(d) => directive_of(raw@) == Some(d@),
            None => directive_of(raw@) is None,
        },
{
    proof {
        reveal_strlit("@include ");
        reveal_strlit("@import ");
    }
    let t = super::lines::strip_comment(raw);
    if let Some(rest) = strip_prefix(t, "@include ") {
        assert(rest@ =~= t@.skip(9));
        return Some(SourceDirective::Include(owned(trim(rest))));
    }
    if let Some(rest) = strip_prefix(t, "@import ") {
        assert(rest@ =~= t@.skip(8));
        let spec = trim(rest);
        if spec.unicode_len() > 0 {
            return Some(SourceDirective::Import(owned(spec)));
        }
    }
    None
}

pub open spec fn directive_views(v: Seq<SourceDirective>) -> Seq<DirectiveView> {
    v.map_values(|d: SourceDirective| d@)
}

/// The `@include` and `@import` directives of a source, in order.
pub fn source_directives(content: &str) -> (r: Vec<SourceDirective>)
    ensures
        directive_views(r@) == directives_in(lines(content@)),
{
    let ls = split_lines(content);
    let ghost ws = views(ls@);
    let mut out: Vec<SourceDirective> = Vec::new();
    let mut i: usize = 0;
    while i < ls.len()
        invariant
            0 <= i <= ls@.len(),
            ws == views(ls@),
            ws == lines(content@),
            directive_views(out@) == directives_in(ws.take(i as int)),
        decreases ls@.len() - i,
    {
        assert(ws.take(i + 1).drop_last() =~= ws.take(i as int));
        assert(ws.take(i + 1).last() == ls@[i as int]@);
        if let Some(d) = read_directive(ls[i].as_str()) {
            let ghost before = directive_views(out@);
            let ghost dv = d@;
            out.push(d);
            assert(directive_views(out@) =~= before.push(dv));
        }
        i += 1;
    }
    assert(ws.take(ls@.len() as int) =~= ws);
    out
}

/// The world names of the `@include-world` lines of `ls`, in order.
pub open spec fn worlds_in(ls: Seq<Seq<char>>) -> Seq<Seq<char>>
    decreases ls.len(),
{
    if ls.len() == 0 {
        Seq::empty()
    } else {
        let prev = worlds_in(ls.drop_last());
        let t = comment_free(ls.last());
        if has_prefix(t, "@include-world "@) && trim_seq(t.skip(15)).len() > 0 {
            prev.push(trim_seq(t.skip(15)))
        } else {
            prev
        }
    }
}

/// The worlds a universe file includes with `@include-world`, in order.
pub fn included_worlds(content: &str) -> (r: Vec<String>)
    ensures
        views(r@) == worlds_in(lines(content@)),
{
    proof {
        reveal_strlit("@include-world ");
    }
    let ls = split_lines(content);
    let ghost ws = views(ls@);
    let mut out: Vec<String> = Vec::new();
    let mut i: usize = 0;
    while i < ls.len()
        invariant
            0 <= i <= ls@.len(),
            ws == views(ls@),
            ws == lines(content@),
            views(out@) == worlds_in(ws.take(i as int)),
        decreases ls@.len() - i,
    {
        assert(ws.take(i + 1).drop_last() =~= ws.take(i as int));
        assert(ws.take(i + 1).last() == ls@[i as int]@);
        let t = super::lines::strip_comment(ls[i].as_str());
        proof {
            reveal_strlit("@include-world ");
        }
        if let Some(rest) = strip_prefix(t, "@include-world ") {
            assert(rest@ =~= t@.skip(15));
            let name = trim(rest);
            if name.unicode_len() > 0 {
                let ghost before = views(out@);
                out.push(owned(name));
                assert(views(out@) =~= before.push(name@));
            }
        }
        i += 1;
    }
    assert(ws.take(ls@.len() as int) =~= ws);
    out
}

/// Where relative imports of a source are looked up from.
#[derive(Debug, Clone, PartialEq, Eq)]
pub enum ImportBase {
    /// The directory of a local source file.
    FileDir(String),
    /// The URL of a remote source.
    Url(String),
}

/// Where an `@import` leads.
#[derive(Debug, Clone, PartialEq, Eq)]
pub enum ImportTarget {
    /// A remote source.
    Url(String),
    /// A local file named outright; it must exist.
    File(String),
    /// Local files to try in order; the first that exists is the source.
    Candidates(Vec<String>),
}

pub enum ImportTargetView {
    Url(Seq<char>),
    File(Seq<char>),
    Candidates(Seq<Seq<char>>),
}

impl View for ImportTarget {
    type V = ImportTargetView;

    open spec fn view(&self) -> ImportTargetView {
        match self {
            ImportTarget::Url(u) => ImportTargetView::Url(u@),
            ImportTarget::File(f) => ImportTargetView::File(f@),
            ImportTarget::Candidates(c) => ImportTargetView::Candidates(views(c@)),
        }
    }
}

/// `rel` under the directory `dir` (`dir` and `rel` joined by one `/`).
pub open spec fn joined(dir: Seq<char>, rel: Seq<char>) -> Seq<char> {
    if dir.len() == 0 {
        rel
    } else if has_suffix(dir, "/"@) {
        dir + rel
    } else {
        dir + "/"@ + rel
    }
}

fn join_path(dir: &str, rel: &str) -> (r: String)
    ensures
        r@ == joined(dir@, rel@),
{
    if dir.unicode_len() == 0 {
        owned(rel)
    } else if ends_with(dir, "/") {
        concat2(dir, rel)
    } else {
        let mut s = concat2(dir, "/");
        push_str(&mut s, rel);
        s
    }
}

/// Where the import `spec` leads from `base`: a URL as it is; a `file://`
/// path or an absolute path outright; a path relative to a remote base as a
/// URL when it resolves; otherwise the import base's directory (for a local
/// base), the world root and the universe root, in that order.
pub open spec fn import_target_of(
    spec: Seq<char>,
    base_is_url: bool,
    base: Seq<char>,
    world_root: Seq<char>,
    universe_root: Seq<char>,
) -> ImportTargetView {
    if url_spec(spec) {
        ImportTargetView::Url(spec)
    } else if has_prefix(spec, "file://"@) {
        ImportTargetView::File(spec.skip(7))
    } else if has_prefix(spec, "/"@) {
        ImportTargetView::File(spec)
    } else if base_is_url && resolved_url(base, spec) is Some {
        ImportTargetView::Url(resolved_url(base, spec)->0)
    } else if base_is_url {
        ImportTargetView::Candidates(seq![joined(world_root, spec), joined(universe_root, spec)])
    } else {
        ImportTargetView::Candidates(
            seq![joined(base, spec), joined(world_root, spec), joined(universe_root, spec)],
        )
    }
}

/// Resolve an `@import` spec against the importing source and the roots.
pub fn resolve_import(spec: &str, base: &ImportBase, world_root: &str, universe_root: &str) -> (r: ImportTarget)
    ensures
        r@ == match base {
            ImportBase::FileDir(d) => import_target_of(spec@, false, d@, world_root@, universe_root@),
            ImportBase::Url(u) => import_target_of(spec@, true, u@, world_root@, universe_root@),
        },
{
    if is_url(spec) {
        return ImportTarget::Url(owned(spec));
    }
    if let Some(path) = strip_prefix(spec, "file://") {
        proof {
            reveal_strlit("file://");
        }
        assert(path@ =~= spec@.skip(7));
        return ImportTarget::File(owned(path));
    }
    if starts_with(spec, "/") {
        return ImportTarget::File(owned(spec));
    }
    match base {
        ImportBase::Url(url) => {
            if let Some(resolved) = resolve_url_relative(url.as_str(), spec) {
                return ImportTarget::Url(resolved);
            }
            let v = vec![join_path(world_root, spec), join_path(universe_root, spec)];
            let ghost a = joined(world_root@, spec@);
            let ghost b = joined(universe_root@, spec@);
            assert(views(v@) =~= seq![a, b]);
            ImportTarget::Candidates(v)
        },
        ImportBase::FileDir(dir) => {
            let v = vec![join_path(dir.as_str(), spec), join_path(world_root, spec), join_path(universe_root, spec)];
            let ghost a = joined(dir@, spec@);
            let ghost b = joined(world_root@, spec@);
            let ghost c = joined(universe_root@, spec@);
            assert(views(v@) =~= seq![a, b, c]);
            ImportTarget::Candidates(v)
        },
    }
}

} // verus!
