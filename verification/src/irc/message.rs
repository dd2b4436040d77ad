//! Parsed IRC wire messages used by the transport layer.

use vstd::prelude::*;

use crate::text::{
    all_digits, before_char, first_piece, has_prefix, join, join_from, lstrip_in, owned,
    parse_u16, parse_unsigned, push_char, rstrip_in, split_once, split_once_str, split_words,
    starts_with, str_all_digits, str_eq, strip_prefix, trim_end_in, trim_start_in, views, words,
    contains_seq, first_occurrence, is_ws, occurs_at,
};

verus! {

/// Direction of an IRC protocol line relative to the bot.
#[derive(Debug, Clone, PartialEq, Eq)]
pub enum IrcMessage {
    Ping { token: String },
    Privmsg { from: String, target: String, text: String },
    Notice { from: String, target: String, text: String },
    Join { nick: String, channel: String },
    Part { nick: String, channel: String, reason: Option<String> },
    Quit { nick: String, reason: Option<String> },
    Numeric { code: u16, params: Vec<String> },
    Raw(String),
}

/// An [`IrcMessage`] with every string taken by its characters.
pub enum IrcMessageView {
    Ping { token: Seq<char> },
    Privmsg { from: Seq<char>, target: Seq<char>, text: Seq<char> },
    Notice { from: Seq<char>, target: Seq<char>, text: Seq<char> },
    Join { nick: Seq<char>, channel: Seq<char> },
    Part { nick: Seq<char>, channel: Seq<char>, reason: Option<Seq<char>> },
    Quit { nick: Seq<char>, reason: Option<Seq<char>> },
    Numeric { code: u16, params: Seq<Seq<char>> },
    Raw(Seq<char>),
}

pub open spec fn opt_view(o: Option<String>) -> Option<Seq<char>> {
    match o {
        Some(s) => Some(s@),
        None => None,
    }
}

impl View for IrcMessage {
    type V = IrcMessageView;

    open spec fn view(&self) -> IrcMessageView {
        match self {
            IrcMessage::Ping { token } => IrcMessageView::Ping { token: token@ },
            IrcMessage::Privmsg { from, target, text } => IrcMessageView::Privmsg {
                from: from@,
                target: target@,
                text: text@,
            },
            IrcMessage::Notice { from, target, text } => IrcMessageView::Notice {
                from: from@,
                target: target@,
                text: text@,
            },
            IrcMessage::Join { nick, channel } => IrcMessageView::Join {
                nick: nick@,
                channel: channel@,
            },
            IrcMessage::Part { nick, channel, reason } => IrcMessageView::Part {
                nick: nick@,
                channel: channel@,
                reason: opt_view(*reason),
            },
            IrcMessage::Quit { nick, reason } => IrcMessageView::Quit {
                nick: nick@,
                reason: opt_view(*reason),
            },
            IrcMessage::Numeric { code, params } => IrcMessageView::Numeric {
                code: *code,
                params: views(params@),
            },
            IrcMessage::Raw(s) => IrcMessageView::Raw(s@),
        }
    }
}

/// A line without its IRCv3 message tags (`@key=val;key2 ...`).
pub open spec fn without_tags(line: Seq<char>) -> Seq<char> {
    if has_prefix(line, "@"@) {
        match split_once(line, " "@) {
            Some((_, rest)) => rest,
            None => line,
        }
    } else {
        line
    }
}

/// Strip IRCv3 message tags (`@key=val;key2 ...`) from a wire line.
pub fn strip_ircv3_tags(line: &str) -> (r: &str)
    ensures
        r@ == without_tags(line@),
{
    if starts_with(line, "@") {
        match split_once_str(line, " ") {
            Some((_, rest)) => rest,
            None => line,
        }
    } else {
        line
    }
}

/// Nick part of a message prefix (`nick!user@host` → `nick`).
pub open spec fn prefix_nick(prefix: Seq<char>) -> Seq<char> {
    before_char(prefix, '!')
}

/// The sender named by an optional prefix, `unknown` without one.
pub open spec fn sender(prefix: Option<Seq<char>>) -> Seq<char> {
    match prefix {
        Some(p) => prefix_nick(p),
        None => "unknown"@,
    }
}

/// Prefix (without `:`) and payload of a tag-free line.
pub open spec fn prefix_and_payload(line: Seq<char>) -> (Option<Seq<char>>, Seq<char>) {
    if has_prefix(line, ":"@) {
        let rest = line.subrange(":"@.len() as int, line.len() as int);
        match split_once(rest, " "@) {
            Some((pfx, body)) => (Some(pfx), body),
            None => (Some(rest), Seq::empty()),
        }
    } else {
        (None, line)
    }
}

/// Text after the first ` :` of the payload, empty without one.
pub open spec fn trailing_part(payload: Seq<char>) -> Seq<char> {
    match split_once(payload, " :"@) {
        Some((_, t)) => t,
        None => Seq::empty(),
    }
}

/// Text of a PRIVMSG/NOTICE: the trailing part, else the remaining params.
pub open spec fn message_text(params: Seq<Seq<char>>, trailing: Seq<char>) -> Seq<char> {
    if trailing.len() == 0 {
        join(params.subrange(1, params.len() as int), seq![' '])
    } else {
        trailing
    }
}

pub open spec fn opt_nonempty(t: Seq<char>) -> Option<Seq<char>> {
    if t.len() == 0 {
        None
    } else {
        Some(t)
    }
}

/// The message built from a tag-free line once its pieces are known.
pub open spec fn message_from_parts(
    line: Seq<char>,
    from: Seq<char>,
    ws: Seq<Seq<char>>,
    trailing: Seq<char>,
) -> IrcMessageView {
    let command = if ws.len() > 0 { ws[0] } else { Seq::empty() };
    let params = if ws.len() > 0 { ws.drop_first() } else { ws };
    if command == "PRIVMSG"@ && params.len() >= 2 {
        IrcMessageView::Privmsg {
            from,
            target: params[0],
            text: message_text(params, trailing),
        }
    } else if command == "NOTICE"@ && params.len() >= 2 {
        IrcMessageView::Notice {
            from,
            target: params[0],
            text: message_text(params, trailing),
        }
    } else if command == "JOIN"@ {
        IrcMessageView::Join {
            nick: from,
            channel: if trailing.len() > 0 {
                trailing
            } else if params.len() > 0 {
                params[0]
            } else {
                Seq::empty()
            },
        }
    } else if command == "PART"@ {
        IrcMessageView::Part {
            nick: from,
            channel: if params.len() > 0 {
                params[0]
            } else {
                Seq::empty()
            },
            reason: opt_nonempty(trailing),
        }
    } else if command == "QUIT"@ {
        IrcMessageView::Quit { nick: from, reason: opt_nonempty(trailing) }
    } else if all_digits(command) {
        IrcMessageView::Numeric {
            code: match parse_unsigned(command, u16::MAX as nat) {
                Some(v) => v as u16,
                None => 0,
            },
            params,
        }
    } else {
        IrcMessageView::Raw(line)
    }
}

/// The structured message of one protocol line.
pub open spec fn message_of(raw: Seq<char>) -> IrcMessageView {
    let line = without_tags(rstrip_in(raw, seq!['\r', '\n']));
    if has_prefix(line, "PING "@) {
        IrcMessageView::Ping {
            token: lstrip_in(line.subrange("PING "@.len() as int, line.len() as int), seq![':']),
        }
    } else {
        let (prefix, payload) = prefix_and_payload(line);
        message_from_parts(line, sender(prefix), words(payload), trailing_part(payload))
    }
}

fn extract_nick(prefix: &str) -> (r: String)
    ensures
        r@ == prefix_nick(prefix@),
{
    owned(first_piece(prefix, '!'))
}

fn sender_of(prefix: Option<&str>) -> (r: String)
    ensures
        r@ == sender(
            match prefix {
                Some(p) => Some(p@),
                None => None,
            },
        ),
{
    match prefix {
        Some(p) => extract_nick(p),
        None => owned("unknown"),
    }
}

fn copy_strings(v: &Vec<String>, from: usize) -> (r: Vec<String>)
    requires
        from <= v@.len(),
    ensures
        views(r@) == views(v@).subrange(from as int, v@.len() as int),
{
    let mut out: Vec<String> = Vec::new();
    let mut i = from;
    while i < v.len()
        invariant
            from <= i <= v.len(),
            views(out@) =~= views(v@).subrange(from as int, i as int),
        decreases v.len() - i,
    {
        let ghost out0 = views(out@);
        let item = v[i].clone();
        out.push(item);
        assert(views(out@) =~= out0.push(v@[i as int]@));
        i += 1;
    }
    out
}

fn message_from(line: &str, from: String, parts: Vec<String>, trailing: String) -> (r: IrcMessage)
    ensures
        r@ == message_from_parts(line@, from@, views(parts@), trailing@),
{
    let ghost ws = views(parts@);
    let command: &str = if parts.len() > 0 {
        parts[0].as_str()
    } else {
        ""
    };
    assert(command@ == (if ws.len() > 0 { ws[0] } else { Seq::<char>::empty() })) by {
        reveal_strlit("");
    }
    let nparams = if parts.len() > 0 {
        parts.len() - 1
    } else {
        0
    };
    let ghost params = if ws.len() > 0 {
        ws.drop_first()
    } else {
        ws
    };
    assert(params.len() == nparams);
    if str_eq(command, "PRIVMSG") && nparams >= 2 {
        let text = if trailing.unicode_len() == 0 {
            assert(params.subrange(1, params.len() as int) =~= ws.subrange(2, ws.len() as int));
            assert(" "@ =~= seq![' ']) by {
                reveal_strlit(" ");
            }
            join_from(&parts, 2, " ")
        } else {
            trailing
        };
        return IrcMessage::Privmsg { from, target: parts[1].clone(), text };
    }
    if str_eq(command, "NOTICE") && nparams >= 2 {
        let text = if trailing.unicode_len() == 0 {
            assert(params.subrange(1, params.len() as int) =~= ws.subrange(2, ws.len() as int));
            assert(" "@ =~= seq![' ']) by {
                reveal_strlit(" ");
            }
            join_from(&parts, 2, " ")
        } else {
            trailing
        };
        return IrcMessage::Notice { from, target: parts[1].clone(), text };
    }
    if str_eq(command, "JOIN") {
        let channel = if trailing.unicode_len() > 0 {
            trailing
        } else if nparams > 0 {
            parts[1].clone()
        } else {
            String::new()
        };
        return IrcMessage::Join { nick: from, channel };
    }
    if str_eq(command, "PART") {
        let channel = if nparams > 0 {
            parts[1].clone()
        } else {
            String::new()
        };
        let reason = if trailing.unicode_len() == 0 {
            None
        } else {
            Some(trailing)
        };
        return IrcMessage::Part { nick: from, channel, reason };
    }
    if str_eq(command, "QUIT") {
        let reason = if trailing.unicode_len() == 0 {
            None
        } else {
            Some(trailing)
        };
        return IrcMessage::Quit { nick: from, reason };
    }
    if str_all_digits(command) {
        let code = match parse_u16(command) {
            Some(v) => v,
            None => 0,
        };
        let params_vec = if parts.len() > 0 {
            copy_strings(&parts, 1)
        } else {
            Vec::new()
        };
        assert(views(params_vec@) =~= params);
        return IrcMessage::Numeric { code, params: params_vec };
    }
    IrcMessage::Raw(owned(line))
}

/// Parse a single IRC protocol line into a structured message.
pub fn parse_irc_line(raw: &str) -> (r: IrcMessage)
    ensures
        r@ == message_of(raw@),
{
    let crlf = vec!['\r', '\n'];
    assert(crlf@ =~= seq!['\r', '\n']);
    let line = strip_ircv3_tags(trim_end_in(raw, &crlf));
    if let Some(rest) = strip_prefix(line, "PING ") {
        let colon = vec![':'];
        assert(colon@ =~= seq![':']);
        return IrcMessage::Ping { token: owned(trim_start_in(rest, &colon)) };
    }
    let (prefix, payload): (Option<&str>, &str) = match strip_prefix(line, ":") {
        Some(rest) => match split_once_str(rest, " ") {
            Some((p, b)) => (Some(p), b),
            None => (Some(rest), ""),
        },
        None => (None, line),
    };
    assert(payload@ == prefix_and_payload(line@).1) by {
        reveal_strlit("");
    }
    let parts = split_words(payload);
    let trailing = match split_once_str(payload, " :") {
        Some((_, t)) => owned(t),
        None => String::new(),
    };
    let from = sender_of(prefix);
    message_from(line, from, parts, trailing)
}

/// One outgoing parameter list: each parameter preceded by a space.
pub open spec fn spaced(params: Seq<Seq<char>>) -> Seq<char>
    decreases params.len(),
{
    if params.len() == 0 {
        Seq::empty()
    } else {
        spaced(params.drop_last()) + seq![' '] + params.last()
    }
}

/// The wire form of an outgoing command.
pub open spec fn outgoing(
    command: Seq<char>,
    params: Seq<Seq<char>>,
    trailing: Option<Seq<char>>,
) -> Seq<char> {
    command + spaced(params) + match trailing {
        Some(t) => " :"@ + t,
        None => Seq::empty(),
    } + "\r\n"@
}

pub open spec fn str_views(v: Seq<&str>) -> Seq<Seq<char>> {
    v.map_values(|x: &str| x@)
}

/// Format an outgoing IRC command line.
pub fn format_outgoing(command: &str, params: &[&str], trailing: Option<&str>) -> (r: String)
    ensures
        r@ == outgoing(
            command@,
            str_views(params@),
            match trailing {
                Some(t) => Some(t@),
                None => None,
            },
        ),
{
    let mut line = owned(command);
    let mut i: usize = 0;
    while i < params.len()
        invariant
            0 <= i <= params@.len(),
            line@ == command@ + spaced(str_views(params@).take(i as int)),
        decreases params.len() - i,
    {
        assert(str_views(params@).take(i + 1).drop_last() =~= str_views(params@).take(i as int));
        push_char(&mut line, ' ');
        line.append(params[i]);
        assert(line@ =~= command@ + spaced(str_views(params@).take(i + 1)));
        i += 1;
    }
    assert(str_views(params@).take(params@.len() as int) =~= str_views(params@));
    if let Some(text) = trailing {
        line.append(" :");
        line.append(text);
    }
    line.append("\r\n");
    assert(line@ =~= outgoing(
        command@,
        str_views(params@),
        match trailing {
            Some(t) => Some(t@),
            None => None,
        },
    ));
    line
}

proof fn lemma_rstrip_after(p: Seq<char>, l: Seq<char>, set: Seq<char>)
    requires
        p.len() > 0,
        !set.contains(p.last()),
    ensures
        rstrip_in(p + l, set) == p + rstrip_in(l, set),
    decreases l.len(),
{
    if l.len() > 0 && set.contains(l.last()) {
        assert((p + l).drop_last() =~= p + l.drop_last());
        lemma_rstrip_after(p, l.drop_last(), set);
    } else if l.len() == 0 {
        assert(p + l =~= p);
    } else {
        assert((p + l).last() == l.last());
    }
}

proof fn lemma_rstrip_prefix(l: Seq<char>, set: Seq<char>)
    ensures
        rstrip_in(l, set).len() <= l.len(),
        forall|i: int| 0 <= i < rstrip_in(l, set).len() ==> #[trigger] rstrip_in(l, set)[i] == l[i],
    decreases l.len(),
{
    if l.len() > 0 && set.contains(l.last()) {
        lemma_rstrip_prefix(l.drop_last(), set);
    }
}

proof fn lemma_tag_word_dropped(tags: Seq<char>, l: Seq<char>)
    requires
        tags.len() > 0,
        !tags.contains(' '),
        !(l.len() > 0 && l[0] == '@'),
    ensures
        without_tags(rstrip_in(seq!['@'] + tags + seq![' '] + l, seq!['\r', '\n'])) == without_tags(
            rstrip_in(l, seq!['\r', '\n']),
        ),
{
    let crlf = seq!['\r', '\n'];
    let head = seq!['@'] + tags + seq![' '];
    assert(seq!['@'] + tags + seq![' '] + l =~= head + l);
    assert(!crlf.contains(head.last())) by {
        assert(head.last() == ' ');
    }
    lemma_rstrip_after(head, l, crlf);
    let r = rstrip_in(l, crlf);
    let t = head + r;
    let k: int = tags.len() as int + 1;
    reveal_strlit("@");
    reveal_strlit(" ");
    assert(has_prefix(t, "@"@)) by {
        assert(t.subrange(0, 1) =~= "@"@);
    }
    assert(occurs_at(t, " "@, k)) by {
        assert(t.subrange(k, k + 1) =~= " "@);
    }
    assert forall|j: int| 0 <= j < k implies !occurs_at(t, " "@, j) by {
        if occurs_at(t, " "@, j) {
            assert(t.subrange(j, j + 1)[0] == t[j]);
            if j == 0 {
                assert(t[0] == '@');
            } else {
                assert(t[j] == tags[j - 1]);
                assert(tags.contains(tags[j - 1]));
            }
        }
    }
    assert(contains_seq(t, " "@));
    let c = choose|c: int| occurs_at(t, " "@, c) && forall|j: int| 0 <= j < c ==> !occurs_at(t, " "@, j);
    assert(occurs_at(t, " "@, c) && forall|j: int| 0 <= j < c ==> !occurs_at(t, " "@, j));
    assert(c == k) by {
        if c < k {
        } else if c > k {
            assert(!occurs_at(t, " "@, k));
        }
    }
    assert(first_occurrence(t, " "@) == Some(k));
    assert(t.subrange(k + 1, t.len() as int) =~= r);
    assert(without_tags(t) == r);
    lemma_rstrip_prefix(l, crlf);
    if r.len() > 0 {
        assert(r[0] == l[0]);
        assert(!has_prefix(r, "@"@)) by {
            if has_prefix(r, "@"@) {
                assert(r.subrange(0, 1)[0] == r[0]);
            }
        }
    } else {
        assert(!has_prefix(r, "@"@));
    }
    assert(without_tags(r) == r);
}

/// IRCv3 message tags never change the parsed message: a line with a tag
/// word (`@` and the tags, no space among them) before it parses as the line
/// alone, when that line does not itself start with `@`.
pub proof fn law_tags_ignored(tags: Seq<char>, l: Seq<char>)
    requires
        tags.len() > 0,
        !tags.contains(' '),
        !(l.len() > 0 && l[0] == '@'),
    ensures
        message_of(seq!['@'] + tags + seq![' '] + l) == message_of(l),
{
    lemma_tag_word_dropped(tags, l);
}

proof fn lemma_words_nonempty(s: Seq<char>)
    requires
        s.len() > 0,
        !is_ws(s.last()),
    ensures
        words(s).len() > 0,
{
}

/// Words of text cut after whitespace are the words of the two pieces.
proof fn lemma_words_concat(a: Seq<char>, b: Seq<char>)
    requires
        a.len() == 0 || is_ws(a.last()),
    ensures
        words(a + b) == words(a) + words(b),
    decreases b.len(),
{
    if b.len() == 0 {
        assert(a + b =~= a);
        assert(words(a) + words(b) =~= words(a));
    } else {
        let b1 = b.drop_last();
        assert((a + b).drop_last() =~= a + b1);
        assert((a + b).last() == b.last());
        lemma_words_concat(a, b1);
        if !is_ws(b.last()) {
            if b.len() >= 2 {
                assert((a + b)[(a + b).len() - 2] == b[b.len() - 2]);
                if !is_ws(b[b.len() - 2]) {
                    lemma_words_nonempty(b1);
                    assert(b1.last() == b[b.len() - 2]);
                    assert(words(a + b) =~= words(a) + words(b));
                } else {
                    assert(words(a + b) =~= words(a) + words(b));
                }
            } else {
                assert(b1.len() == 0);
                assert(words(b1) =~= Seq::<Seq<char>>::empty());
                if a.len() > 0 {
                    assert((a + b)[(a + b).len() - 2] == a.last());
                }
                assert(words(a + b) =~= words(a) + words(b));
            }
        }
    }
}

/// A word alone is its only word.
proof fn lemma_words_single(w: Seq<char>)
    requires
        w.len() > 0,
        forall|i: int| 0 <= i < w.len() ==> !is_ws(#[trigger] w[i]),
    ensures
        words(w) == seq![w],
    decreases w.len(),
{
    if w.len() == 1 {
        assert(w.drop_last().len() == 0);
        assert(words(w.drop_last()) =~= Seq::<Seq<char>>::empty());
        assert(seq![w.last()] =~= w);
    } else {
        let w1 = w.drop_last();
        assert forall|i: int| 0 <= i < w1.len() implies !is_ws(#[trigger] w1[i]) by {
            assert(w1[i] == w[i]);
        }
        lemma_words_single(w1);
        assert(w[w.len() - 2] == w1.last());
        assert(w.last() == w[w.len() - 1]);
        assert(w1.push(w.last()) =~= w);
    }
}

/// A word and then a space: the word.
proof fn lemma_words_word_space(w: Seq<char>)
    requires
        w.len() > 0,
        forall|i: int| 0 <= i < w.len() ==> !is_ws(#[trigger] w[i]),
    ensures
        words(w + seq![' ']) == seq![w],
{
    lemma_words_single(w);
    assert((w + seq![' ']).drop_last() =~= w);
}

/// Split at the first space of `w + ' ' + rest` when `w` has none.
proof fn lemma_split_first_space(w: Seq<char>, rest: Seq<char>)
    requires
        !w.contains(' '),
    ensures
        split_once(w + seq![' '] + rest, " "@) == Some((w, rest)),
{
    let t = w + seq![' '] + rest;
    let k: int = w.len() as int;
    reveal_strlit(" ");
    assert(occurs_at(t, " "@, k)) by {
        assert(t.subrange(k, k + 1) =~= " "@);
    }
    assert forall|j: int| 0 <= j < k implies !occurs_at(t, " "@, j) by {
        if occurs_at(t, " "@, j) {
            assert(t.subrange(j, j + 1)[0] == t[j]);
            assert(t[j] == w[j]);
            assert(w.contains(w[j]));
        }
    }
    assert(contains_seq(t, " "@));
    let c = choose|c: int| occurs_at(t, " "@, c) && forall|j: int| 0 <= j < c ==> !occurs_at(t, " "@, j);
    assert(occurs_at(t, " "@, c) && forall|j: int| 0 <= j < c ==> !occurs_at(t, " "@, j));
    assert(c == k) by {
        if c < k {
        } else if c > k {
            assert(!occurs_at(t, " "@, k));
        }
    }
    assert(t.subrange(0, k) =~= w);
    assert(t.subrange(k + 1, t.len() as int) =~= rest);
}

/// The wire line `:<prefix> <cmd> <first> :<rest>`.
pub open spec fn command_line(prefix: Seq<char>, cmd: Seq<char>, first: Seq<char>, rest: Seq<char>) -> Seq<char> {
    seq![':'] + prefix + seq![' '] + (cmd + seq![' '] + first + seq![' ', ':'] + rest)
}

/// How the pieces of such a line are read: the line is its own tag-free,
/// CR/LF-free form, not a PING, with `prefix` before the payload.
#[verifier::spinoff_prover]
#[verifier::rlimit(30)]
proof fn lemma_command_line_pieces(prefix: Seq<char>, cmd: Seq<char>, first: Seq<char>, rest: Seq<char>)
    requires
        !prefix.contains(' '),
        rest.len() == 0 || (rest.last() != '\r' && rest.last() != '\n'),
    ensures
        ({
            let payload = cmd + seq![' '] + first + seq![' ', ':'] + rest;
            let line = command_line(prefix, cmd, first, rest);
            &&& without_tags(rstrip_in(line, seq!['\r', '\n'])) == line
            &&& !has_prefix(line, "PING "@)
            &&& prefix_and_payload(line) == (Some(prefix), payload)
        }),
{
    reveal_strlit("PING ");
    reveal_strlit(":");
    reveal_strlit("@");
    let payload = cmd + seq![' '] + first + seq![' ', ':'] + rest;
    let line = command_line(prefix, cmd, first, rest);
    let crlf = seq!['\r', '\n'];
    assert(rstrip_in(line, crlf) == line) by {
        if rest.len() > 0 {
            assert(line.last() == rest.last());
        } else {
            assert(line.last() == ':');
        }
        assert(!crlf.contains(line.last()));
    }
    assert(!has_prefix(line, "@"@)) by {
        if has_prefix(line, "@"@) {
            assert(line.subrange(0, 1)[0] == line[0]);
        }
    }
    assert(!has_prefix(line, "PING "@)) by {
        if has_prefix(line, "PING "@) {
            assert(line.subrange(0, 5)[0] == line[0]);
        }
    }
    assert(has_prefix(line, ":"@)) by {
        assert(line.subrange(0, 1) =~= ":"@);
    }
    assert(line.subrange(1, line.len() as int) =~= prefix + seq![' '] + payload);
    lemma_split_first_space(prefix, payload);
}

/// Text with a non-space first character has a word.
proof fn lemma_words_first_word(s: Seq<char>)
    requires
        s.len() > 0,
        !is_ws(s[0]),
    ensures
        words(s).len() > 0,
    decreases s.len(),
{
    if s.len() > 1 {
        lemma_words_first_word(s.drop_last());
    }
}

/// The words of a payload `<cmd> <first> :<rest>` start with the command and
/// the first parameter, and a word follows them.
proof fn lemma_command_words(cmd: Seq<char>, first: Seq<char>, rest: Seq<char>)
    requires
        cmd.len() > 0,
        forall|i: int| 0 <= i < cmd.len() ==> !is_ws(#[trigger] cmd[i]),
        first.len() > 0,
        forall|i: int| 0 <= i < first.len() ==> !is_ws(#[trigger] first[i]),
    ensures
        words(cmd + seq![' '] + first + seq![' ', ':'] + rest).len() >= 3,
        words(cmd + seq![' '] + first + seq![' ', ':'] + rest)[0] == cmd,
        words(cmd + seq![' '] + first + seq![' ', ':'] + rest)[1] == first,
{
    let payload = cmd + seq![' '] + first + seq![' ', ':'] + rest;
    lemma_words_word_space(cmd);
    lemma_words_word_space(first);
    let tail = seq![':'] + rest;
    assert(payload =~= (cmd + seq![' ']) + ((first + seq![' ']) + tail));
    lemma_words_concat(cmd + seq![' '], (first + seq![' ']) + tail);
    lemma_words_concat(first + seq![' '], tail);
    lemma_words_first_word(tail);
    assert(words(payload) == seq![cmd] + (seq![first] + words(tail)));
}

/// The trailing part of `<cmd> <first> :<rest>` is `rest` when neither the
/// command nor the first parameter holds a space and the first parameter
/// does not start with `:`.
proof fn lemma_command_trailing(cmd: Seq<char>, first: Seq<char>, rest: Seq<char>)
    requires
        !cmd.contains(' '),
        first.len() > 0,
        !first.contains(' '),
        first[0] != ':',
    ensures
        trailing_part(cmd + seq![' '] + first + seq![' ', ':'] + rest) == rest,
{
    let t = cmd + seq![' '] + first + seq![' ', ':'] + rest;
    let k: int = (cmd.len() + 1 + first.len()) as int;
    reveal_strlit(" :");
    assert(occurs_at(t, " :"@, k)) by {
        assert(t.subrange(k, k + 2) =~= " :"@);
    }
    assert forall|j: int| 0 <= j < k implies !occurs_at(t, " :"@, j) by {
        if occurs_at(t, " :"@, j) {
            assert(t.subrange(j, j + 2)[0] == t[j]);
            assert(t.subrange(j, j + 2)[1] == t[j + 1]);
            if j < cmd.len() {
                assert(t[j] == cmd[j]);
                assert(cmd.contains(cmd[j]));
            } else if j == cmd.len() {
                assert(t[j + 1] == first[0]);
            } else {
                assert(t[j] == first[j - cmd.len() - 1]);
                assert(first.contains(first[j - cmd.len() - 1]));
            }
        }
    }
    assert(contains_seq(t, " :"@));
    let c = choose|c: int| occurs_at(t, " :"@, c) && forall|j: int| 0 <= j < c ==> !occurs_at(t, " :"@, j);
    assert(occurs_at(t, " :"@, c) && forall|j: int| 0 <= j < c ==> !occurs_at(t, " :"@, j));
    assert(c == k) by {
        if c < k {
        } else if c > k {
            assert(!occurs_at(t, " :"@, k));
        }
    }
    assert(t.subrange(k + 2, t.len() as int) =~= rest);
}

/// A PART line (`:<prefix> PART <chan> :<reason>`) names the channel left by
/// its first parameter, whatever the reason says, and the leaver by the nick
/// of its prefix; the reason is the text after ` :` (none when empty).
pub proof fn law_part_channel_is_first_param(prefix: Seq<char>, chan: Seq<char>, reason: Seq<char>)
    requires
        !prefix.contains(' '),
        chan.len() > 0,
        forall|i: int| 0 <= i < chan.len() ==> !is_ws(#[trigger] chan[i]),
        reason.len() == 0 || (reason.last() != '\r' && reason.last() != '\n'),
    ensures
        message_of(command_line(prefix, "PART"@, chan, reason)) matches IrcMessageView::Part { nick, channel, reason: r }
            && nick == prefix_nick(prefix) && channel == chan && (chan[0] != ':' ==> r == (if reason.len() == 0 {
            None::<Seq<char>>
        } else {
            Some(reason)
        })),
{
    let cmd = "PART"@;
    let payload = cmd + seq![' '] + chan + seq![' ', ':'] + reason;
    let line = command_line(prefix, cmd, chan, reason);
    reveal_strlit("PART");
    lemma_command_line_pieces(prefix, cmd, chan, reason);
    assert forall|i: int| 0 <= i < cmd.len() implies !is_ws(#[trigger] cmd[i]) by {}
    lemma_command_words(cmd, chan, reason);
    let ws = words(payload);
    lemma_part_parts(line, sender(Some(prefix)), ws, trailing_part(payload));
    lemma_message_of_pieces(line, prefix, payload);
    if chan[0] != ':' {
        assert(!cmd.contains(' '));
        assert(!chan.contains(' ')) by {
            if chan.contains(' ') {
                let i = choose|i: int| 0 <= i < chan.len() && chan[i] == ' ';
                assert(!is_ws(chan[i]));
            }
        }
        lemma_command_trailing(cmd, chan, reason);
    }
}

/// A PRIVMSG or NOTICE line `:<prefix> <cmd> <target> :<text>` with a
/// non-empty text is a message from the nick of the prefix to the target,
/// carrying exactly that text.
#[verifier::spinoff_prover]
#[verifier::rlimit(30)]
pub proof fn law_message_target_and_text(
    notice: bool,
    prefix: Seq<char>,
    target: Seq<char>,
    text: Seq<char>,
)
    requires
        !prefix.contains(' '),
        target.len() > 0,
        forall|i: int| 0 <= i < target.len() ==> !is_ws(#[trigger] target[i]),
        target[0] != ':',
        text.len() > 0,
        text.last() != '\r' && text.last() != '\n',
    ensures
        ({
            let m = message_of(command_line(prefix, if notice { "NOTICE"@ } else { "PRIVMSG"@ }, target, text));
            if notice {
                m == IrcMessageView::Notice { from: prefix_nick(prefix), target, text }
            } else {
                m == IrcMessageView::Privmsg { from: prefix_nick(prefix), target, text }
            }
        }),
{
    reveal_strlit("NOTICE");
    reveal_strlit("PRIVMSG");
    let cmd = if notice { "NOTICE"@ } else { "PRIVMSG"@ };
    let payload = cmd + seq![' '] + target + seq![' ', ':'] + text;
    let line = command_line(prefix, cmd, target, text);
    lemma_command_line_pieces(prefix, cmd, target, text);
    assert forall|i: int| 0 <= i < cmd.len() implies !is_ws(#[trigger] cmd[i]) by {}
    assert(!cmd.contains(' '));
    assert(!target.contains(' ')) by {
        if target.contains(' ') {
            let i = choose|i: int| 0 <= i < target.len() && target[i] == ' ';
            assert(!is_ws(target[i]));
        }
    }
    lemma_command_words(cmd, target, text);
    lemma_command_trailing(cmd, target, text);
    lemma_message_of_pieces(line, prefix, payload);
    let ws = words(payload);
    assert(ws.drop_first()[0] == target);
    assert("PRIVMSG"@ != "NOTICE"@) by {
        assert("PRIVMSG"@.len() == 7 && "NOTICE"@.len() == 6);
    }
}

/// A tag-free, CR/LF-free line that is no PING is read from its prefix and payload.
proof fn lemma_message_of_pieces(line: Seq<char>, prefix: Seq<char>, payload: Seq<char>)
    requires
        without_tags(rstrip_in(line, seq!['\r', '\n'])) == line,
        !has_prefix(line, "PING "@),
        prefix_and_payload(line) == (Some(prefix), payload),
    ensures
        message_of(line) == message_from_parts(line, sender(Some(prefix)), words(payload), trailing_part(payload)),
{
}

/// A command word `PART` makes a Part message with the first parameter as channel.
proof fn lemma_part_parts(line: Seq<char>, from: Seq<char>, ws: Seq<Seq<char>>, trailing: Seq<char>)
    requires
        ws.len() >= 2,
        ws[0] == "PART"@,
    ensures
        message_from_parts(line, from, ws, trailing) matches IrcMessageView::Part { nick, channel, .. } && nick
            == from && channel == ws[1],
{
    reveal_strlit("PART");
    reveal_strlit("PRIVMSG");
    reveal_strlit("NOTICE");
    reveal_strlit("JOIN");
    assert("PART"@ != "PRIVMSG"@ && "PART"@ != "NOTICE"@ && "PART"@ != "JOIN"@) by {
        assert("PART"@.len() == 4 && "PRIVMSG"@.len() == 7 && "NOTICE"@.len() == 6);
        assert("PART"@[0] != "JOIN"@[0]);
    }
    assert(ws.drop_first()[0] == ws[1]);
}

/// What the server relays of a PRIVMSG or NOTICE this library formats reads
/// back as that message: prefixed by `:<prefix> `, the line formatted for a
/// target and a non-empty text parses as a message from the prefix's nick to
/// that target with that text.
pub proof fn law_formatted_message_round_trip(
    notice: bool,
    prefix: Seq<char>,
    target: Seq<char>,
    text: Seq<char>,
)
    requires
        !prefix.contains(' '),
        target.len() > 0,
        forall|i: int| 0 <= i < target.len() ==> !is_ws(#[trigger] target[i]),
        target[0] != ':',
        text.len() > 0,
        text.last() != '\r' && text.last() != '\n',
    ensures
        ({
            let cmd = if notice { "NOTICE"@ } else { "PRIVMSG"@ };
            let m = message_of(seq![':'] + prefix + seq![' '] + outgoing(cmd, seq![target], Some(text)));
            if notice {
                m == IrcMessageView::Notice { from: prefix_nick(prefix), target, text }
            } else {
                m == IrcMessageView::Privmsg { from: prefix_nick(prefix), target, text }
            }
        }),
{
    let cmd = if notice { "NOTICE"@ } else { "PRIVMSG"@ };
    lemma_relayed_line(prefix, cmd, target, text);
    law_message_target_and_text(notice, prefix, target, text);
    lemma_message_of_same_line(
        seq![':'] + prefix + seq![' '] + outgoing(cmd, seq![target], Some(text)),
        command_line(prefix, cmd, target, text),
    );
}

/// A line that ends alike once CR/LF is dropped parses alike.
proof fn lemma_message_of_same_line(a: Seq<char>, b: Seq<char>)
    requires
        rstrip_in(a, seq!['\r', '\n']) == rstrip_in(b, seq!['\r', '\n']),
    ensures
        message_of(a) == message_of(b),
{
}

/// The relayed form of a formatted command is the command line and CR LF.
proof fn lemma_relayed_line(prefix: Seq<char>, cmd: Seq<char>, target: Seq<char>, text: Seq<char>)
    requires
        text.len() > 0,
        text.last() != '\r' && text.last() != '\n',
    ensures
        rstrip_in(seq![':'] + prefix + seq![' '] + outgoing(cmd, seq![target], Some(text)), seq!['\r', '\n'])
            == rstrip_in(command_line(prefix, cmd, target, text), seq!['\r', '\n']),
{
    let crlf = seq!['\r', '\n'];
    reveal_strlit(" :");
    reveal_strlit("\r\n");
    let line = command_line(prefix, cmd, target, text);
    let relayed = seq![':'] + prefix + seq![' '] + outgoing(cmd, seq![target], Some(text));
    assert(spaced(seq![target]) =~= seq![' '] + target) by {
        assert(seq![target].drop_last() =~= Seq::<Seq<char>>::empty());
        assert(spaced(seq![target].drop_last()) == Seq::<char>::empty());
        assert(seq![target].last() == target);
    }
    assert("\r\n"@ =~= seq!['\r', '\n']);
    assert(relayed =~= line + "\r\n"@);
    assert(relayed.drop_last() =~= line + seq!['\r']);
    assert((line + seq!['\r']).drop_last() =~= line);
    assert(crlf.contains(relayed.last()));
    assert(crlf.contains((line + seq!['\r']).last()));
    assert(rstrip_in(relayed, crlf) == rstrip_in(line + seq!['\r'], crlf));
    assert(rstrip_in(line + seq!['\r'], crlf) == rstrip_in(line, crlf));
}

/// A PING line (`PING :<token>` or `PING <token>`) carries its token back,
/// without the leading `:`.
#[verifier::spinoff_prover]
#[verifier::rlimit(40)]
pub proof fn law_ping_token(token: Seq<char>)
    requires
        token.len() == 0 || token[0] != ':',
        token.len() == 0 || (token.last() != '\r' && token.last() != '\n'),
    ensures
        message_of("PING :"@ + token) == (IrcMessageView::Ping { token }),
        message_of("PING "@ + token) == (IrcMessageView::Ping { token }),
{
    reveal_strlit("PING :");
    reveal_strlit("PING ");
    reveal_strlit("@");
    let crlf = seq!['\r', '\n'];
    let colon = seq![':'];
    let a = "PING :"@ + token;
    let b = "PING "@ + token;
    assert(rstrip_in(a, crlf) == a) by {
        if token.len() == 0 {
            assert(a.last() == ':');
        } else {
            assert(a.last() == token.last());
        }
    }
    assert(rstrip_in(b, crlf) == b) by {
        if token.len() == 0 {
            assert(b.last() == ' ');
        } else {
            assert(b.last() == token.last());
        }
    }
    assert(!has_prefix(a, "@"@) && !has_prefix(b, "@"@)) by {
        if has_prefix(a, "@"@) {
            assert(a.subrange(0, 1)[0] == a[0]);
        }
        if has_prefix(b, "@"@) {
            assert(b.subrange(0, 1)[0] == b[0]);
        }
    }
    assert(has_prefix(a, "PING "@)) by {
        assert(a.subrange(0, 5) =~= "PING "@);
    }
    assert(has_prefix(b, "PING "@)) by {
        assert(b.subrange(0, 5) =~= "PING "@);
    }
    let ra = a.subrange(5, a.len() as int);
    assert(ra =~= colon + token);
    assert(ra.drop_first() =~= token);
    assert(colon.contains(ra[0]));
    assert(lstrip_in(token, colon) == token) by {
        if token.len() > 0 {
            assert(!colon.contains(token[0]));
        }
    }
    assert(lstrip_in(ra, colon) == lstrip_in(token, colon));
    assert(b.subrange(5, b.len() as int) =~= token);
}

/// A QUIT line `:<prefix> QUIT :<reason>` is the nick of the prefix leaving,
/// with the reason (none when empty).
#[verifier::spinoff_prover]
#[verifier::rlimit(40)]
pub proof fn law_quit_reason(prefix: Seq<char>, reason: Seq<char>)
    requires
        !prefix.contains(' '),
        reason.len() == 0 || (reason.last() != '\r' && reason.last() != '\n'),
    ensures
        message_of(seq![':'] + prefix + seq![' '] + ("QUIT"@ + seq![' ', ':'] + reason)) == (IrcMessageView::Quit {
            nick: prefix_nick(prefix),
            reason: if reason.len() == 0 {
                None
            } else {
                Some(reason)
            },
        }),
{
    let payload = "QUIT"@ + seq![' ', ':'] + reason;
    let line = seq![':'] + prefix + seq![' '] + payload;
    lemma_quit_pieces(prefix, reason);
    lemma_quit_payload(reason);
    lemma_message_of_pieces(line, prefix, payload);
    lemma_quit_parts(line, sender(Some(prefix)), words(payload), reason);
}

proof fn lemma_quit_parts(line: Seq<char>, from: Seq<char>, ws: Seq<Seq<char>>, trailing: Seq<char>)
    requires
        ws.len() >= 1,
        ws[0] == "QUIT"@,
    ensures
        message_from_parts(line, from, ws, trailing) == (IrcMessageView::Quit { nick: from, reason: opt_nonempty(trailing) }),
{
    reveal_strlit("QUIT");
    reveal_strlit("PART");
    reveal_strlit("PRIVMSG");
    reveal_strlit("NOTICE");
    reveal_strlit("JOIN");
    assert("QUIT"@ != "PRIVMSG"@ && "QUIT"@ != "NOTICE"@ && "QUIT"@ != "JOIN"@ && "QUIT"@ != "PART"@) by {
        assert("QUIT"@.len() == 4 && "PRIVMSG"@.len() == 7 && "NOTICE"@.len() == 6);
        assert("QUIT"@[0] != "JOIN"@[0] && "QUIT"@[0] != "PART"@[0]);
    }
}

#[verifier::spinoff_prover]
#[verifier::rlimit(30)]
proof fn lemma_quit_pieces(prefix: Seq<char>, reason: Seq<char>)
    requires
        !prefix.contains(' '),
        reason.len() == 0 || (reason.last() != '\r' && reason.last() != '\n'),
    ensures
        ({
            let payload = "QUIT"@ + seq![' ', ':'] + reason;
            let line = seq![':'] + prefix + seq![' '] + payload;
            &&& without_tags(rstrip_in(line, seq!['\r', '\n'])) == line
            &&& !has_prefix(line, "PING "@)
            &&& prefix_and_payload(line) == (Some(prefix), payload)
        }),
{
    reveal_strlit("PING ");
    reveal_strlit(":");
    reveal_strlit("@");
    let payload = "QUIT"@ + seq![' ', ':'] + reason;
    let line = seq![':'] + prefix + seq![' '] + payload;
    let crlf = seq!['\r', '\n'];
    assert(rstrip_in(line, crlf) == line) by {
        if reason.len() > 0 {
            assert(line.last() == reason.last());
        } else {
            assert(line.last() == ':');
        }
        assert(!crlf.contains(line.last()));
    }
    assert(!has_prefix(line, "@"@)) by {
        if has_prefix(line, "@"@) {
            assert(line.subrange(0, 1)[0] == line[0]);
        }
    }
    assert(!has_prefix(line, "PING "@)) by {
        if has_prefix(line, "PING "@) {
            assert(line.subrange(0, 5)[0] == line[0]);
        }
    }
    assert(has_prefix(line, ":"@)) by {
        assert(line.subrange(0, 1) =~= ":"@);
    }
    assert(line.subrange(1, line.len() as int) =~= prefix + seq![' '] + payload);
    lemma_split_first_space(prefix, payload);
}

/// The payload `QUIT :<reason>` has `QUIT` for its first word and the reason
/// for its trailing part.
proof fn lemma_quit_payload(reason: Seq<char>)
    ensures
        words("QUIT"@ + seq![' ', ':'] + reason).len() >= 1,
        words("QUIT"@ + seq![' ', ':'] + reason)[0] == "QUIT"@,
        trailing_part("QUIT"@ + seq![' ', ':'] + reason) == reason,
{
    reveal_strlit("QUIT");
    reveal_strlit(" :");
    let cmd = "QUIT"@;
    let t = cmd + seq![' ', ':'] + reason;
    assert forall|i: int| 0 <= i < cmd.len() implies !is_ws(#[trigger] cmd[i]) by {}
    lemma_words_word_space(cmd);
    assert(t =~= (cmd + seq![' ']) + (seq![':'] + reason));
    lemma_words_concat(cmd + seq![' '], seq![':'] + reason);
    let k: int = 4;
    assert(occurs_at(t, " :"@, k)) by {
        assert(t.subrange(k, k + 2) =~= " :"@);
    }
    assert forall|j: int| 0 <= j < k implies !occurs_at(t, " :"@, j) by {
        if occurs_at(t, " :"@, j) {
            assert(t.subrange(j, j + 2)[0] == t[j]);
            assert(t[j] == cmd[j]);
        }
    }
    assert(contains_seq(t, " :"@));
    let c = choose|c: int| occurs_at(t, " :"@, c) && forall|j: int| 0 <= j < c ==> !occurs_at(t, " :"@, j);
    assert(occurs_at(t, " :"@, c) && forall|j: int| 0 <= j < c ==> !occurs_at(t, " :"@, j));
    assert(c == k) by {
        if c < k {
        } else if c > k {
            assert(!occurs_at(t, " :"@, k));
        }
    }
    assert(t.subrange(k + 2, t.len() as int) =~= reason);
}

/// A JOIN line `:<prefix> JOIN <chan>` is the nick of the prefix joining that
/// channel.
#[verifier::spinoff_prover]
#[verifier::rlimit(40)]
pub proof fn law_join_channel(prefix: Seq<char>, chan: Seq<char>)
    requires
        !prefix.contains(' '),
        chan.len() > 0,
        forall|i: int| 0 <= i < chan.len() ==> !is_ws(#[trigger] chan[i]),
        chan[0] != ':',
    ensures
        message_of(seq![':'] + prefix + seq![' '] + ("JOIN"@ + seq![' '] + chan)) == (IrcMessageView::Join {
            nick: prefix_nick(prefix),
            channel: chan,
        }),
{
    let payload = "JOIN"@ + seq![' '] + chan;
    let line = seq![':'] + prefix + seq![' '] + payload;
    lemma_join_pieces(prefix, chan);
    lemma_join_payload(chan);
    lemma_message_of_pieces(line, prefix, payload);
    lemma_join_parts(line, sender(Some(prefix)), words(payload));
}

proof fn lemma_join_parts(line: Seq<char>, from: Seq<char>, ws: Seq<Seq<char>>)
    requires
        ws.len() >= 2,
        ws[0] == "JOIN"@,
    ensures
        message_from_parts(line, from, ws, Seq::empty()) == (IrcMessageView::Join { nick: from, channel: ws[1] }),
{
    reveal_strlit("JOIN");
    reveal_strlit("PRIVMSG");
    reveal_strlit("NOTICE");
    assert("JOIN"@ != "PRIVMSG"@ && "JOIN"@ != "NOTICE"@) by {
        assert("JOIN"@.len() == 4 && "PRIVMSG"@.len() == 7 && "NOTICE"@.len() == 6);
    }
    assert(ws.drop_first()[0] == ws[1]);
}

#[verifier::spinoff_prover]
#[verifier::rlimit(30)]
proof fn lemma_join_pieces(prefix: Seq<char>, chan: Seq<char>)
    requires
        !prefix.contains(' '),
        chan.len() > 0,
        forall|i: int| 0 <= i < chan.len() ==> !is_ws(#[trigger] chan[i]),
    ensures
        ({
            let payload = "JOIN"@ + seq![' '] + chan;
            let line = seq![':'] + prefix + seq![' '] + payload;
            &&& without_tags(rstrip_in(line, seq!['\r', '\n'])) == line
            &&& !has_prefix(line, "PING "@)
            &&& prefix_and_payload(line) == (Some(prefix), payload)
        }),
{
    reveal_strlit("PING ");
    reveal_strlit(":");
    reveal_strlit("@");
    let payload = "JOIN"@ + seq![' '] + chan;
    let line = seq![':'] + prefix + seq![' '] + payload;
    let crlf = seq!['\r', '\n'];
    assert(rstrip_in(line, crlf) == line) by {
        assert(line.last() == chan.last());
        assert(!is_ws(chan[chan.len() - 1]));
        assert(!crlf.contains(line.last()));
    }
    assert(!has_prefix(line, "@"@)) by {
        if has_prefix(line, "@"@) {
            assert(line.subrange(0, 1)[0] == line[0]);
        }
    }
    assert(!has_prefix(line, "PING "@)) by {
        if has_prefix(line, "PING "@) {
            assert(line.subrange(0, 5)[0] == line[0]);
        }
    }
    assert(has_prefix(line, ":"@)) by {
        assert(line.subrange(0, 1) =~= ":"@);
    }
    assert(line.subrange(1, line.len() as int) =~= prefix + seq![' '] + payload);
    lemma_split_first_space(prefix, payload);
}

/// The payload `JOIN <chan>` has the words `JOIN` and the channel and no
/// trailing part.
proof fn lemma_join_payload(chan: Seq<char>)
    requires
        chan.len() > 0,
        forall|i: int| 0 <= i < chan.len() ==> !is_ws(#[trigger] chan[i]),
        chan[0] != ':',
    ensures
        words("JOIN"@ + seq![' '] + chan) == seq!["JOIN"@, chan],
        trailing_part("JOIN"@ + seq![' '] + chan) == Seq::<char>::empty(),
{
    reveal_strlit("JOIN");
    reveal_strlit(" :");
    let cmd = "JOIN"@;
    let t = cmd + seq![' '] + chan;
    assert forall|i: int| 0 <= i < cmd.len() implies !is_ws(#[trigger] cmd[i]) by {}
    lemma_words_word_space(cmd);
    lemma_words_single(chan);
    lemma_words_concat(cmd + seq![' '], chan);
    assert(seq![cmd] + seq![chan] =~= seq![cmd, chan]);
    assert(!contains_seq(t, " :"@)) by {
        if contains_seq(t, " :"@) {
            let j = choose|j: int| occurs_at(t, " :"@, j);
            assert(t.subrange(j, j + 2)[0] == t[j]);
            assert(t.subrange(j, j + 2)[1] == t[j + 1]);
            if j < 4 {
                assert(t[j] == cmd[j]);
            } else if j == 4 {
                assert(t[j + 1] == chan[0]);
            } else {
                assert(t[j] == chan[j - 5]);
            }
        }
    }
}

} // verus!
