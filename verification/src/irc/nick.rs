//! IRC nick validation and display-safe formatting.

use vstd::prelude::*;

use crate::text::{
    char_is_alnum, char_is_control, char_lower, is_alnum, is_alpha, is_control, join, join_all,
    lower_seq, owned, push_char, split_words, to_lower, trim, trim_seq, views, words, is_ws,
    lstrip_ws, rstrip_ws,
};

verus! {

/// Maximum IRC nick length accepted from the wire (common network limit).
pub const MAX_IRC_NICK_LEN: usize = 30;

/// Maximum OOC message body length relayed to players.
pub const MAX_OOC_TEXT_LEN: usize = 400;

/// Characters that may open a nick.
pub open spec fn nick_start_char(c: char) -> bool {
    is_alpha(c) || c == '[' || c == ']' || c == '\\' || c == '`' || c == '^' || c == '{' || c
        == '|' || c == '}'
}

/// Characters that may follow the first character of a nick.
pub open spec fn nick_char(c: char) -> bool {
    is_alnum(c) || c == '-' || c == '[' || c == ']' || c == '\\' || c == '`' || c == '^' || c
        == '{' || c == '|' || c == '}'
}

fn is_nick_start_char(c: char) -> (r: bool)
    ensures
        r == nick_start_char(c),
{
    ('a' <= c && c <= 'z') || ('A' <= c && c <= 'Z') || c == '[' || c == ']' || c == '\\' || c
        == '`' || c == '^' || c == '{' || c == '|' || c == '}'
}

fn is_nick_char(c: char) -> (r: bool)
    ensures
        r == nick_char(c),
{
    char_is_alnum(c) || c == '-' || c == '[' || c == ']' || c == '\\' || c == '`' || c == '^'
        || c == '{' || c == '|' || c == '}'
}

/// A trimmed wire nick that follows the IRC nick rules.
pub open spec fn valid_nick(t: Seq<char>) -> bool {
    &&& 0 < t.len() <= MAX_IRC_NICK_LEN
    &&& nick_start_char(t[0])
    &&& forall|i: int| 1 <= i < t.len() ==> nick_char(#[trigger] t[i])
}

/// Sanitize an IRC nick from a message prefix for session identity.
///
/// Returns a lowercase canonical nick when the wire value matches IRC nick rules;
/// rejects empty, overlong, or control-character nicks.
pub fn sanitize_irc_nick(raw: &str) -> (r: Option<String>)
    ensures
        r is Some <==> valid_nick(trim_seq(raw@)),
        r matches Some(n) ==> n@ == lower_seq(trim_seq(raw@)),
{
    let trimmed = trim(raw);
    let n = trimmed.unicode_len();
    if n == 0 || n > MAX_IRC_NICK_LEN {
        return None;
    }
    if !is_nick_start_char(trimmed.get_char(0)) {
        return None;
    }
    let mut i: usize = 1;
    while i < n
        invariant
            n == trimmed@.len(),
            trimmed@ == trim_seq(raw@),
            1 <= i <= n,
            forall|k: int| 1 <= k < i ==> nick_char(#[trigger] trimmed@[k]),
        decreases n - i,
    {
        if !is_nick_char(trimmed.get_char(i)) {
            assert(!nick_char(trimmed@[i as int]));
            return None;
        }
        i += 1;
    }
    Some(to_lower(trimmed))
}

/// Characters of a nick that are safe to display.
pub open spec fn displayable(s: Seq<char>) -> Seq<char> {
    s.filter(shown_char())
}

/// Characters kept in displayed nicks.
pub open spec fn shown_char() -> spec_fn(char) -> bool {
    |c: char| !is_control(c)
}

/// Control characters become spaces in OOC text.
pub open spec fn ooc_char() -> spec_fn(char) -> char {
    |c: char| if is_control(c) { ' ' } else { c }
}

/// The display form of a nick: its first displayable characters, or `???`.
pub open spec fn nick_display(raw: Seq<char>) -> Seq<char> {
    let safe = displayable(trim_seq(raw));
    let shown = if safe.len() > MAX_IRC_NICK_LEN {
        safe.take(MAX_IRC_NICK_LEN as int)
    } else {
        safe
    };
    if shown.len() == 0 {
        "???"@
    } else {
        shown
    }
}

/// Display-safe nick for OOC and notices — strips control characters.
pub fn sanitize_nick_display(raw: &str) -> (r: String)
    ensures
        r@ == nick_display(raw@),
{
    let trimmed = trim(raw);
    let n = trimmed.unicode_len();
    let ghost pred = shown_char();
    let mut safe = String::new();
    let mut i: usize = 0;
    while i < n && safe.unicode_len() < MAX_IRC_NICK_LEN
        invariant
            n == trimmed@.len(),
            0 <= i <= n,
            pred == shown_char(),
            safe@ == trimmed@.take(i as int).filter(pred),
            safe@.len() <= MAX_IRC_NICK_LEN,
        decreases n - i,
    {
        let c = trimmed.get_char(i);
        assert(trimmed@.take(i + 1) =~= trimmed@.take(i as int).push(c));
        proof { trimmed@.take(i as int).lemma_filter_push(c, pred); }
        if !char_is_control(c) {
            push_char(&mut safe, c);
        }
        i += 1;
    }
    proof {
        let full = trimmed@.filter(pred);
        if i < n {
            // The cap was reached: the shown part is the first characters kept.
            assert(trimmed@ =~= trimmed@.take(i as int) + trimmed@.skip(i as int));
            Seq::filter_distributes_over_add(trimmed@.take(i as int), trimmed@.skip(i as int), pred);
            assert(full.take(MAX_IRC_NICK_LEN as int) =~= safe@);
        } else {
            assert(trimmed@.take(n as int) =~= trimmed@);
        }
    }
    if safe.unicode_len() == 0 {
        owned("???")
    } else {
        safe
    }
}

/// OOC body text: control characters as spaces, runs of whitespace collapsed.
pub open spec fn ooc_collapsed(text: Seq<char>) -> Seq<char> {
    join(words(text.map_values(ooc_char())), " "@)
}

/// OOC body text capped at the relay limit, with an ellipsis when cut.
pub open spec fn ooc_text(text: Seq<char>) -> Seq<char> {
    let t = ooc_collapsed(text);
    if t.len() <= MAX_OOC_TEXT_LEN {
        t
    } else {
        t.take(MAX_OOC_TEXT_LEN - 1).push('…')
    }
}

/// Sanitize OOC body text: no control chars, single-line, length-capped.
pub fn sanitize_ooc_text(text: &str) -> (r: String)
    ensures
        r@ == ooc_text(text@),
{
    let n = text.unicode_len();
    let ghost f = ooc_char();
    let mut mapped = String::new();
    let mut i: usize = 0;
    while i < n
        invariant
            n == text@.len(),
            0 <= i <= n,
            f == ooc_char(),
            mapped@ =~= text@.take(i as int).map_values(f),
        decreases n - i,
    {
        let c = text.get_char(i);
        assert(text@.take(i + 1) =~= text@.take(i as int).push(c));
        assert(text@.take(i + 1).map_values(f) =~= text@.take(i as int).map_values(f).push(f(c)));
        push_char(&mut mapped, if char_is_control(c) { ' ' } else { c });
        i += 1;
    }
    assert(text@.take(n as int) =~= text@);
    let parts = split_words(mapped.as_str());
    let joined = join_all(&parts, " ");
    let m = joined.unicode_len();
    if m <= MAX_OOC_TEXT_LEN {
        return joined;
    }
    let mut out = owned(joined.as_str().substring_char(0, MAX_OOC_TEXT_LEN - 1));
    push_char(&mut out, '…');
    out
}

/// A sanitized nick sanitizes to itself: the lower-case form of a valid nick is
/// valid, needs no trimming, and is already in lower case.
pub proof fn law_sanitize_nick_idempotent(raw: Seq<char>)
    requires
        valid_nick(trim_seq(raw)),
    ensures
        valid_nick(trim_seq(lower_seq(trim_seq(raw)))),
        lower_seq(trim_seq(lower_seq(trim_seq(raw)))) == lower_seq(trim_seq(raw)),
{
    let t = trim_seq(raw);
    let l = lower_seq(t);
    assert(l.len() == t.len());
    assert forall|i: int| 1 <= i < l.len() implies nick_char(#[trigger] l[i]) by {
        assert(nick_char(t[i]));
    }
    assert(nick_start_char(l[0]));
    assert(!crate::text::is_ws(l[0]));
    assert(!crate::text::is_ws(l.last())) by {
        if l.len() > 1 {
            assert(nick_char(l[l.len() - 1]));
        }
    }
    assert(crate::text::lstrip_ws(l) == l);
    assert(crate::text::rstrip_ws(l) == l);
    assert(lower_seq(l) =~= l);
}

/// The displayed nick is never empty, never longer than a nick, and holds no
/// control characters.
pub proof fn law_nick_display_safe(raw: Seq<char>)
    ensures
        0 < nick_display(raw).len() <= MAX_IRC_NICK_LEN,
        forall|i: int| 0 <= i < nick_display(raw).len() ==> !is_control(#[trigger] nick_display(raw)[i]),
{
    let safe = displayable(trim_seq(raw));
    trim_seq(raw).filter_lemma(shown_char());
    let shown = if safe.len() > MAX_IRC_NICK_LEN {
        safe.take(MAX_IRC_NICK_LEN as int)
    } else {
        safe
    };
    assert forall|i: int| 0 <= i < shown.len() implies !is_control(#[trigger] shown[i]) by {
        assert(shown[i] == safe[i]);
        assert(shown_char()(safe[i]));
    }
    if shown.len() == 0 {
        reveal_strlit("???");
    }
}

/// Relayed OOC text never exceeds the relay limit.
pub proof fn law_ooc_text_capped(text: Seq<char>)
    ensures
        ooc_text(text).len() <= MAX_OOC_TEXT_LEN,
{
}

/// Text whose only whitespace is single spaces between other characters,
/// except perhaps one at its end, and with no control character.
pub open spec fn spaced_text(s: Seq<char>) -> bool {
    &&& forall|i: int| 0 <= i < s.len() ==> !is_control(#[trigger] s[i]) && (is_ws(s[i]) ==> s[i] == ' ')
    &&& (s.len() > 0 ==> s[0] != ' ')
    &&& forall|i: int| 0 <= i < s.len() - 1 ==> !(#[trigger] s[i] == ' ' && s[i + 1] == ' ')
}

proof fn lemma_words_parts(s: Seq<char>)
    ensures
        forall|k: int| 0 <= k < words(s).len() ==> #[trigger] words(s)[k].len() > 0,
        forall|k: int, j: int|
            0 <= k < words(s).len() && 0 <= j < words(s)[k].len() ==> !is_ws(#[trigger] words(s)[k][j]),
        (forall|i: int| 0 <= i < s.len() ==> !is_control(#[trigger] s[i])) ==> forall|k: int, j: int|
            0 <= k < words(s).len() && 0 <= j < words(s)[k].len() ==> !is_control(
                #[trigger] words(s)[k][j],
            ),
    decreases s.len(),
{
    if s.len() > 0 {
        let p = s.drop_last();
        lemma_words_parts(p);
        let w = words(p);
        let c = s.last();
        let nc = forall|i: int| 0 <= i < s.len() ==> !is_control(#[trigger] s[i]);
        if nc {
            assert forall|i: int| 0 <= i < p.len() implies !is_control(#[trigger] p[i]) by {
                assert(p[i] == s[i]);
            }
            assert(!is_control(s[s.len() - 1]));
        }
        if is_ws(c) {
            assert(words(s) == w);
        } else if s.len() >= 2 && !is_ws(s[s.len() - 2]) && w.len() > 0 {
            let u = w.update(w.len() - 1, w.last().push(c));
            assert(words(s) == u);
            assert forall|k: int, j: int| 0 <= k < u.len() && 0 <= j < u[k].len() implies !is_ws(#[trigger] u[k][j])
                && (nc ==> !is_control(u[k][j])) by {
                if k < w.len() - 1 {
                    assert(u[k] == w[k]);
                } else if j < w.last().len() {
                    assert(u[k][j] == w[w.len() - 1][j]);
                } else {
                    assert(u[k][j] == c);
                }
            }
            assert forall|k: int| 0 <= k < u.len() implies #[trigger] u[k].len() > 0 by {
                if k < w.len() - 1 {
                    assert(u[k] == w[k]);
                }
            }
        } else {
            let u = w.push(seq![c]);
            assert(words(s) == u);
            assert forall|k: int, j: int| 0 <= k < u.len() && 0 <= j < u[k].len() implies !is_ws(#[trigger] u[k][j])
                && (nc ==> !is_control(u[k][j])) by {
                if k < w.len() {
                    assert(u[k] == w[k]);
                } else {
                    assert(u[k][j] == c);
                }
            }
            assert forall|k: int| 0 <= k < u.len() implies #[trigger] u[k].len() > 0 by {
                if k < w.len() {
                    assert(u[k] == w[k]);
                }
            }
        }
    }
}

proof fn lemma_join_spaced(ws: Seq<Seq<char>>)
    requires
        forall|k: int| 0 <= k < ws.len() ==> #[trigger] ws[k].len() > 0,
        forall|k: int, j: int| 0 <= k < ws.len() && 0 <= j < ws[k].len() ==> !is_ws(#[trigger] ws[k][j]),
        forall|k: int, j: int| 0 <= k < ws.len() && 0 <= j < ws[k].len() ==> !is_control(#[trigger] ws[k][j]),
    ensures
        spaced_text(join(ws, " "@)),
        join(ws, " "@).len() > 0 ==> !is_ws(join(ws, " "@).last()),
    decreases ws.len(),
{
    reveal_strlit(" ");
    let j = join(ws, " "@);
    if ws.len() == 1 {
        assert forall|i: int| 0 <= i < j.len() implies !is_control(#[trigger] j[i]) && (is_ws(j[i]) ==> j[i] == ' ') by {
            assert(ws[0][i] == j[i]);
        }
        assert(!is_ws(ws[0][ws[0].len() - 1]));
        assert(!is_ws(ws[0][0]));
        assert(!is_ws(' ') == false);
    } else if ws.len() > 1 {
        let a = join(ws.drop_last(), " "@);
        let w = ws.last();
        lemma_join_spaced(ws.drop_last());
        assert(j =~= a + " "@ + w);
        assert(ws.drop_last().len() > 0);
        assert(ws.drop_last()[0].len() > 0);
        assert(a.len() > 0) by {
            lemma_join_nonempty(ws.drop_last());
        }
        assert(w.len() > 0);
        assert(!is_ws(w[0]) && !is_ws(w[w.len() - 1]));
        assert forall|i: int| 0 <= i < j.len() implies !is_control(#[trigger] j[i]) && (is_ws(j[i]) ==> j[i] == ' ') by {
            if i < a.len() {
                assert(j[i] == a[i]);
            } else if i == a.len() {
                assert(j[i] == ' ');
            } else {
                assert(j[i] == w[i - a.len() - 1]);
            }
        }
        assert forall|i: int| 0 <= i < j.len() - 1 implies !(#[trigger] j[i] == ' ' && j[i + 1] == ' ') by {
            if i < a.len() - 1 {
                assert(j[i] == a[i] && j[i + 1] == a[i + 1]);
            } else if i == a.len() - 1 {
                assert(j[i] == a[i]);
            } else if i == a.len() {
                assert(j[i + 1] == w[0]);
            } else {
                assert(j[i] == w[i - a.len() - 1]);
            }
        }
        assert(j[0] == a[0]);
        assert(j.last() == w.last());
    }
}

proof fn lemma_join_nonempty(ws: Seq<Seq<char>>)
    requires
        ws.len() > 0,
        ws[0].len() > 0,
    ensures
        join(ws, " "@).len() > 0,
    decreases ws.len(),
{
    if ws.len() > 1 {
        lemma_join_nonempty(ws.drop_last());
    }
}

proof fn lemma_join_grow(ws: Seq<Seq<char>>, c: char)
    requires
        ws.len() > 0,
    ensures
        join(ws.update(ws.len() - 1, ws.last().push(c)), " "@) == join(ws, " "@).push(c),
{
    let u = ws.update(ws.len() - 1, ws.last().push(c));
    if ws.len() > 1 {
        assert(u.drop_last() =~= ws.drop_last());
        assert(join(u, " "@) =~= join(ws, " "@).push(c));
    } else {
        assert(join(u, " "@) =~= join(ws, " "@).push(c));
    }
}

/// Joining the words of spaced text gives the text back, less a final space.
proof fn lemma_words_rejoin(s: Seq<char>)
    requires
        spaced_text(s),
    ensures
        join(words(s), " "@) == (if s.len() > 0 && s.last() == ' ' {
            s.drop_last()
        } else {
            s
        }),
        s.len() > 0 ==> words(s).len() > 0,
    decreases s.len(),
{
    reveal_strlit(" ");
    if s.len() > 0 {
        let p = s.drop_last();
        let c = s.last();
        assert(spaced_text(p)) by {
            assert forall|i: int| 0 <= i < p.len() implies !is_control(#[trigger] p[i]) && (is_ws(p[i]) ==> p[i] == ' ') by {
                assert(p[i] == s[i]);
            }
            assert forall|i: int| 0 <= i < p.len() - 1 implies !(#[trigger] p[i] == ' ' && p[i + 1] == ' ') by {
                assert(p[i] == s[i] && p[i + 1] == s[i + 1]);
            }
            if p.len() > 0 {
                assert(p[0] == s[0]);
            }
        }
        lemma_words_rejoin(p);
        lemma_words_parts(p);
        assert(s[s.len() - 1] == c);
        if is_ws(c) {
            assert(c == ' ');
            assert(p.len() > 0);
            assert(p.last() != ' ') by {
                assert(!(s[s.len() - 2] == ' ' && s[s.len() - 1] == ' '));
            }
        } else if s.len() >= 2 && !is_ws(s[s.len() - 2]) && words(p).len() > 0 {
            assert(p.last() == s[s.len() - 2]);
            lemma_join_grow(words(p), c);
            assert(s =~= p.push(c));
        } else {
            if p.len() > 0 {
                assert(p.last() == s[s.len() - 2]);
                assert(words(p).len() > 0);
                assert(is_ws(p.last()));
                assert(p.last() == ' ');
                let w = words(p).push(seq![c]);
                assert(w.drop_last() =~= words(p));
                assert(join(w, " "@) =~= p.drop_last() + " "@ + seq![c]);
                assert(p.drop_last() + " "@ + seq![c] =~= s);
            } else {
                assert(words(p) =~= Seq::<Seq<char>>::empty());
                assert(join(words(p).push(seq![c]), " "@) =~= s);
            }
        }
    }
}

proof fn lemma_spaced_trim(s: Seq<char>)
    requires
        s.len() == 0 || (!is_ws(s[0]) && !is_ws(s.last())),
    ensures
        trim_seq(s) == s,
{
    assert(lstrip_ws(s) == s);
    assert(rstrip_ws(s) == s);
}

/// Relayed OOC text has no control character, no whitespace at either end
/// and no two whitespace characters in a row, stays within the relay limit,
/// and sanitizing it again leaves it as it is.
pub proof fn law_ooc_text_clean(text: Seq<char>)
    ensures
        ooc_text(text).len() <= MAX_OOC_TEXT_LEN,
        forall|i: int| 0 <= i < ooc_text(text).len() ==> !is_control(#[trigger] ooc_text(text)[i]),
        trim_seq(ooc_text(text)) == ooc_text(text),
        forall|i: int|
            0 <= i < ooc_text(text).len() - 1 ==> !(is_ws(#[trigger] ooc_text(text)[i]) && is_ws(
                ooc_text(text)[i + 1],
            )),
        ooc_text(ooc_text(text)) == ooc_text(text),
{
    let m = text.map_values(ooc_char());
    assert forall|i: int| 0 <= i < m.len() implies !is_control(#[trigger] m[i]) by {
        assert(m[i] == ooc_char()(text[i]));
    }
    lemma_words_parts(m);
    let t = ooc_collapsed(text);
    lemma_join_spaced(words(m));
    let r = ooc_text(text);
    if t.len() > MAX_OOC_TEXT_LEN {
        let h = t.take(MAX_OOC_TEXT_LEN - 1);
        assert(r =~= h.push('…'));
        assert forall|i: int| 0 <= i < r.len() implies !is_control(#[trigger] r[i]) && (is_ws(r[i]) ==> r[i] == ' ') by {
            if i < h.len() {
                assert(r[i] == t[i]);
            } else {
                assert(r[i] == '…');
            }
        }
        assert forall|i: int| 0 <= i < r.len() - 1 implies !(#[trigger] r[i] == ' ' && r[i + 1] == ' ') by {
            if i < h.len() - 1 {
                assert(r[i] == t[i] && r[i + 1] == t[i + 1]);
            } else {
                assert(r[i + 1] == '…');
            }
        }
        assert(r[0] == t[0]);
        assert(!is_ws(t[0]));
    }
    assert(spaced_text(r));
    assert(r.len() == 0 || (!is_ws(r[0]) && !is_ws(r.last())));
    lemma_spaced_trim(r);
    assert forall|i: int| 0 <= i < r.len() - 1 implies !(is_ws(#[trigger] r[i]) && is_ws(r[i + 1])) by {
        assert(!(r[i] == ' ' && r[i + 1] == ' '));
    }
    let m2 = r.map_values(ooc_char());
    assert(m2 =~= r);
    lemma_words_rejoin(r);
    assert(ooc_collapsed(r) == r);
}

} // verus!
