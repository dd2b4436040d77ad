//! Decisions of the IRC registration loop.

use vstd::prelude::*;

use super::capability::{
    cap_end_command, cap_ls_complete, cap_request_command, is_welcome, registration_commands,
    registration_lines, welcome_line,
};
use super::config::IrcConfig;
use super::message::{format_outgoing, message_of, outgoing, parse_irc_line, str_views, IrcMessage, IrcMessageView};
use super::nickserv::{parse_nickserv_reply, reports_bad_password, reports_identified, NickServNotice};
use crate::text::{
    concat3, contains_seq, decimal, decimal_string, eq_ignore_case, has_prefix, join, lower_seq,
    lstrip_in, lstrip_ws, owned, push_str, strip_prefix, trim, trim_seq, trim_start, trim_start_in,
    views,
};

verus! {

/// How a single IRC transport session ended.
#[derive(Debug, Clone, PartialEq, Eq)]
pub enum SessionEnd {
    /// Server closed the connection or the read stream ended.
    Disconnected {
        /// Whether the bot completed registration before the disconnect.
        was_registered: bool,
    },
}

/// The message shown when NickServ rejects the bot's password.
pub open spec fn rejected_password_message() -> Seq<char> {
    "NickServ rejected IRC_NICKSERV_PASSWORD — fix credentials and restart"@
}

/// Whether a message received before the server's welcome is NickServ rejecting
/// the bot's password: a notice or private message from `service` (ignoring
/// ASCII case) that reports a bad password and not a success.
pub open spec fn rejects_bot_password(message: IrcMessage, service: Seq<char>, welcomed: bool) -> bool {
    !welcomed && match message {
        IrcMessage::Notice { from, text, .. } => lower_seq(from@) == lower_seq(service)
            && !reports_identified(lower_seq(text@)) && reports_bad_password(lower_seq(text@)),
        IrcMessage::Privmsg { from, text, .. } => lower_seq(from@) == lower_seq(service)
            && !reports_identified(lower_seq(text@)) && reports_bad_password(lower_seq(text@)),
        _ => false,
    }
}

/// Check a NickServ reply during registration: a rejected password is fatal,
/// anything else lets registration go on.
pub fn handle_nickserv_during_registration(message: &IrcMessage, service: &str, welcomed: bool) -> (r: Result<(), String>)
    ensures
        rejects_bot_password(*message, service@, welcomed) ==> (r matches Err(e) && e@
            == rejected_password_message()),
        !rejects_bot_password(*message, service@, welcomed) ==> r is Ok,
{
    if welcomed {
        return Ok(());
    }
    let (from, text) = match message {
        IrcMessage::Notice { from, text, .. } => (from.as_str(), text.as_str()),
        IrcMessage::Privmsg { from, text, .. } => (from.as_str(), text.as_str()),
        _ => {
            return Ok(());
        },
    };
    if !eq_ignore_case(from, service) {
        return Ok(());
    }
    match parse_nickserv_reply(text) {
        NickServNotice::InvalidPassword => Err(
            owned("NickServ rejected IRC_NICKSERV_PASSWORD — fix credentials and restart"),
        ),
        _ => Ok(()),
    }
}

/// Fatal registration or auth failure — reconnect will not help.
#[derive(Debug)]
pub struct SessionFatal(pub String);

impl SessionFatal {
    /// The failure's message.
    pub fn into_error(self) -> (r: String)
        ensures
            r == self.0,
    {
        self.0
    }
}

// ---------------------------------------------------------------------------
// The registration loop, one server line at a time

/// Where registration stands.
#[derive(Debug, Clone, Copy, PartialEq, Eq, Structural)]
pub struct RegistrationState {
    /// The server's welcome (001) has arrived.
    pub welcomed: bool,
    /// `CAP REQ` and `CAP END` have gone out (or IRCv3 is off).
    pub caps_requested: bool,
    /// The bot's NickServ identification has gone out.
    pub nickserv_sent: bool,
}

/// What the loop around the library does next.
#[derive(Debug)]
pub enum RegistrationAction {
    /// Send this raw line.
    Send(String),
    /// Identify the bot to NickServ.
    NickServBootstrap,
    /// Join the world channel.
    JoinWorld,
    /// Hand this message to the bot.
    Deliver(IrcMessage),
    /// The session is over.
    End(SessionEnd),
    /// Registration failed for good; reconnecting will not help.
    Fatal(String),
}

pub enum ActionView {
    Send(Seq<char>),
    NickServBootstrap,
    JoinWorld,
    Deliver(IrcMessageView),
    End(SessionEnd),
    Fatal(Seq<char>),
}

impl View for RegistrationAction {
    type V = ActionView;

    open spec fn view(&self) -> ActionView {
        match self {
            RegistrationAction::Send(l) => ActionView::Send(l@),
            RegistrationAction::NickServBootstrap => ActionView::NickServBootstrap,
            RegistrationAction::JoinWorld => ActionView::JoinWorld,
            RegistrationAction::Deliver(m) => ActionView::Deliver(m@),
            RegistrationAction::End(e) => ActionView::End(*e),
            RegistrationAction::Fatal(m) => ActionView::Fatal(m@),
        }
    }
}

pub open spec fn action_views(v: Seq<RegistrationAction>) -> Seq<ActionView> {
    v.map_values(|a: RegistrationAction| a@)
}

pub open spec fn sends(lines: Seq<Seq<char>>) -> Seq<ActionView> {
    lines.map_values(|l: Seq<char>| ActionView::Send(l))
}

/// The state registration starts in: capabilities count as requested when
/// IRCv3 is off, and NickServ is identified at once then when configured.
pub open spec fn start_state(ircv3: bool, configured: bool) -> RegistrationState {
    RegistrationState { welcomed: false, caps_requested: !ircv3, nickserv_sent: !ircv3 && configured }
}

/// What starting registration does: the registration lines, then NickServ
/// identification when IRCv3 is off and a password is configured.
pub open spec fn start_actions(nick: Seq<char>, realname: Seq<char>, ircv3: bool, configured: bool) -> Seq<ActionView> {
    sends(registration_lines(nick, realname, ircv3)) + if !ircv3 && configured {
        seq![ActionView::NickServBootstrap]
    } else {
        Seq::empty()
    }
}

/// The token of a `PING` line: the line, less leading whitespace, starts with
/// `PING `; the token is the rest without leading colons, trimmed.
pub open spec fn ping_token(line: Seq<char>) -> Option<Seq<char>> {
    let t = lstrip_ws(line);
    if has_prefix(t, "PING "@) {
        Some(trim_seq(lstrip_in(t.skip(5), seq![':'])))
    } else {
        None
    }
}

/// The server replies that refuse registration: erroneous nickname (432),
/// nickname in use (433), nickname collision (436), nickname unavailable
/// (437), not registered yet (451), wrong password (464) and banned (465).
pub open spec fn refusal_code(code: u16) -> bool {
    code == 432 || code == 433 || code == 436 || code == 437 || code == 451 || code == 464 || code == 465
}

/// The message of a refusal: its code and the server's line, trimmed.
pub open spec fn refusal_message(code: u16, line: Seq<char>) -> Seq<char> {
    "IRC server refused registration ("@ + decimal(code as nat) + "): "@ + trim_seq(line)
}

/// `rejects_bot_password`, over a message's characters.
pub open spec fn refuses_password(m: IrcMessageView, service: Seq<char>, welcomed: bool) -> bool {
    !welcomed && match m {
        IrcMessageView::Notice { from, text, .. } => lower_seq(from) == lower_seq(service)
            && !reports_identified(lower_seq(text)) && reports_bad_password(lower_seq(text)),
        IrcMessageView::Privmsg { from, text, .. } => lower_seq(from) == lower_seq(service)
            && !reports_identified(lower_seq(text)) && reports_bad_password(lower_seq(text)),
        _ => false,
    }
}

pub open spec fn cap_ls_line(line: Seq<char>) -> bool {
    contains_seq(line, " CAP "@) && contains_seq(line, " LS "@) && !contains_seq(line, " LS * "@)
}

pub open spec fn cap_request_line() -> Seq<char> {
    outgoing(
        "CAP"@,
        seq!["REQ"@],
        Some(
            join(
                seq![
                    "cap-notify"@,
                    "server-time"@,
                    "message-tags"@,
                    "echo-message"@,
                    "batch"@,
                    "labeled-response"@,
                    "account-tag"@,
                ],
                " "@,
            ),
        ),
    )
}

pub open spec fn pong_line(token: Seq<char>) -> Seq<char> {
    outgoing("PONG"@, seq![token], None)
}

/// The capability request, when the server's `CAP LS` is complete and it
/// has not gone out yet, with NickServ identification if still owed.
pub open spec fn after_checks_a1(st: RegistrationState, line: Seq<char>, ircv3: bool, configured: bool) -> Seq<ActionView> {
    if ircv3 && cap_ls_line(line) && !st.caps_requested {
        seq![ActionView::Send(cap_request_line()), ActionView::Send(outgoing("CAP"@, seq!["END"@], None))]
            + if configured && !st.nickserv_sent {
            seq![ActionView::NickServBootstrap]
        } else {
            Seq::empty()
        }
    } else {
        Seq::empty()
    }
}

/// After the checks that can end the session: request capabilities once when
/// the server's `CAP LS` is complete (identifying to NickServ then, if not yet
/// done), join the world on the welcome, and once welcomed answer a parsed
/// `PING` and hand every message to the bot.
pub open spec fn after_checks(
    st: RegistrationState,
    line: Seq<char>,
    m: IrcMessageView,
    ircv3: bool,
    configured: bool,
) -> (RegistrationState, Seq<ActionView>) {
    let caps = ircv3 && cap_ls_line(line) && !st.caps_requested;
    let a1 = after_checks_a1(st, line, ircv3, configured);
    let st1 = if caps {
        RegistrationState { caps_requested: true, nickserv_sent: st.nickserv_sent || configured, ..st }
    } else {
        st
    };
    let welcome_now = !st1.welcomed && welcome_line(line);
    let st2 = if welcome_now {
        RegistrationState { welcomed: true, ..st1 }
    } else {
        st1
    };
    let a2 = a1 + if welcome_now {
        seq![ActionView::JoinWorld]
    } else {
        Seq::empty()
    };
    if !st2.welcomed {
        (st2, a2)
    } else {
        (
            st2,
            a2 + (match m {
                IrcMessageView::Ping { token } => seq![ActionView::Send(pong_line(token))],
                _ => Seq::empty(),
            }) + seq![ActionView::Deliver(m)],
        )
    }
}

/// One server line read during the session. Before the welcome, a passed
/// deadline ends the session unregistered. A `PING` line is answered. A
/// refusal ends the session fatally, except "not registered yet" (451), which
/// is let through; so does NickServ rejecting the bot's password before the
/// welcome. Everything else goes on as `after_checks` says.
pub open spec fn registration_transition(
    st: RegistrationState,
    line: Seq<char>,
    deadline_passed: bool,
    ircv3: bool,
    configured: bool,
    service: Seq<char>,
) -> (RegistrationState, Seq<ActionView>) {
    if !st.welcomed && deadline_passed {
        (st, seq![ActionView::End(SessionEnd::Disconnected { was_registered: false })])
    } else {
        match ping_token(line) {
            Some(t) => (st, seq![ActionView::Send(pong_line(t))]),
            None => {
                let m = message_of(line);
                match m {
                    IrcMessageView::Numeric { code, params } if refusal_code(code) && code != 451 => (
                        st,
                        seq![ActionView::Fatal(refusal_message(code, line))],
                    ),
                    _ => if refuses_password(m, service, st.welcomed) {
                        (st, seq![ActionView::Fatal(rejected_password_message())])
                    } else {
                        after_checks(st, line, m, ircv3, configured)
                    },
                }
            },
        }
    }
}

/// Begin registration.
pub fn registration_start(config: &IrcConfig) -> (r: (RegistrationState, Vec<RegistrationAction>))
    ensures
        r.0 == start_state(config.ircv3, config.nickserv.password is Some),
        action_views(r.1@) == start_actions(
            config.bot_nick@,
            config.realname@,
            config.ircv3,
            config.nickserv.password is Some,
        ),
{
    let lines = registration_commands(config.bot_nick.as_str(), config.realname.as_str(), config.ircv3);
    let configured = config.nickserv.is_configured();
    let mut actions: Vec<RegistrationAction> = Vec::new();
    let mut i: usize = 0;
    while i < lines.len()
        invariant
            0 <= i <= lines@.len(),
            action_views(actions@) == sends(views(lines@).take(i as int)),
        decreases lines@.len() - i,
    {
        let ghost before = action_views(actions@);
        actions.push(RegistrationAction::Send(owned(lines[i].as_str())));
        assert(action_views(actions@) =~= before.push(ActionView::Send(lines@[i as int]@)));
        assert(sends(views(lines@).take(i + 1)) =~= sends(views(lines@).take(i as int)).push(
            ActionView::Send(lines@[i as int]@),
        ));
        i += 1;
    }
    assert(views(lines@).take(lines@.len() as int) =~= views(lines@));
    let ghost sent = action_views(actions@);
    if !config.ircv3 && configured {
        actions.push(RegistrationAction::NickServBootstrap);
        assert(action_views(actions@) =~= sent + seq![ActionView::NickServBootstrap]);
    } else {
        assert(action_views(actions@) =~= sent + Seq::<ActionView>::empty());
    }
    let st = RegistrationState {
        welcomed: false,
        caps_requested: !config.ircv3,
        nickserv_sent: !config.ircv3 && configured,
    };
    (st, actions)
}

/// How the session ends when the server closes the connection or a read fails.
pub fn session_closed(st: &RegistrationState) -> (r: SessionEnd)
    ensures
        r == (SessionEnd::Disconnected { was_registered: st.welcomed }),
{
    SessionEnd::Disconnected { was_registered: st.welcomed }
}

fn ping_of(line: &str) -> (r: Option<&str>)
    ensures
        match r {
            Some(t) => ping_token(line@) == Some(t@),
            None => ping_token(line@) is None,
        },
{
    let t = trim_start(line);
    match strip_prefix(t, "PING ") {
        Some(rest) => {
            proof {
                reveal_strlit("PING ");
            }
            assert(rest@ =~= t@.skip(5));
            let colons = vec![':'];
            assert(colons@ =~= seq![':']);
            Some(trim(trim_start_in(rest, &colons)))
        },
        None => None,
    }
}

fn pong(token: &str) -> (r: String)
    ensures
        r@ == pong_line(token@),
{
    let ps = vec![token];
    assert(str_views(ps@) =~= seq![token@]);
    format_outgoing("PONG", ps.as_slice(), None)
}

fn refusal_text(code: u16, line: &str) -> (r: String)
    ensures
        r@ == refusal_message(code, line@),
{
    let mut m = concat3("IRC server refused registration (", decimal_string(code as u64).as_str(), "): ");
    push_str(&mut m, trim(line));
    m
}

fn run_after_checks(st: RegistrationState, line: &str, message: IrcMessage, config: &IrcConfig) -> (r: (
    RegistrationState,
    Vec<RegistrationAction>,
))
    ensures
        (r.0, action_views(r.1@)) == after_checks(
            st,
            line@,
            message@,
            config.ircv3,
            config.nickserv.password is Some,
        ),
{
    let mut actions: Vec<RegistrationAction> = Vec::new();
    let configured = config.nickserv.is_configured();
    let mut next = st;
    if config.ircv3 && cap_ls_complete(line) && !st.caps_requested {
        actions.push(RegistrationAction::Send(cap_request_command()));
        actions.push(RegistrationAction::Send(cap_end_command()));
        next.caps_requested = true;
        if configured && !st.nickserv_sent {
            actions.push(RegistrationAction::NickServBootstrap);
            next.nickserv_sent = true;
        }
    }
    let ghost a1 = action_views(actions@);
    assert(a1 =~= after_checks_a1(st, line@, config.ircv3, config.nickserv.password is Some));
    if !next.welcomed && is_welcome(line) {
        next.welcomed = true;
        actions.push(RegistrationAction::JoinWorld);
    }
    let ghost a2 = action_views(actions@);
    assert(a2 =~= a1 + if !st.welcomed && next.welcomed { seq![ActionView::JoinWorld] } else { Seq::<ActionView>::empty() });
    if !next.welcomed {
        assert(a2 =~= a1 + Seq::<ActionView>::empty());
        return (next, actions);
    }
    if let IrcMessage::Ping { token } = &message {
        actions.push(RegistrationAction::Send(pong(token.as_str())));
    }
    let ghost a3 = action_views(actions@);
    assert(a3 =~= a2 + (match message@ {
        IrcMessageView::Ping { token } => seq![ActionView::Send(pong_line(token))],
        _ => Seq::<ActionView>::empty(),
    }));
    let ghost mv = message@;
    actions.push(RegistrationAction::Deliver(message));
    assert(action_views(actions@) =~= a3.push(ActionView::Deliver(mv)));
    (next, actions)
}

/// Read one server line; `deadline_passed` says whether the registration
/// deadline had passed when the loop came round.
#[verifier::rlimit(60)]
#[verifier::spinoff_prover]
pub fn registration_step(st: RegistrationState, line: &str, deadline_passed: bool, config: &IrcConfig) -> (r: (
    RegistrationState,
    Vec<RegistrationAction>,
))
    ensures
        (r.0, action_views(r.1@)) == registration_transition(
            st,
            line@,
            deadline_passed,
            config.ircv3,
            config.nickserv.password is Some,
            config.nickserv.service@,
        ),
{
    let mut actions: Vec<RegistrationAction> = Vec::new();
    if !st.welcomed && deadline_passed {
        actions.push(RegistrationAction::End(SessionEnd::Disconnected { was_registered: false }));
        assert(action_views(actions@) =~= seq![ActionView::End(SessionEnd::Disconnected { was_registered: false })]);
        return (st, actions);
    }
    if let Some(token) = ping_of(line) {
        actions.push(RegistrationAction::Send(pong(token)));
        assert(action_views(actions@) =~= seq![ActionView::Send(pong_line(token@))]);
        return (st, actions);
    }
    let message = parse_irc_line(line);
    if let IrcMessage::Numeric { code, .. } = &message {
        if (*code == 432 || *code == 433 || *code == 436 || *code == 437 || *code == 464 || *code == 465) {
            actions.push(RegistrationAction::Fatal(refusal_text(*code, line)));
            assert(action_views(actions@) =~= seq![ActionView::Fatal(refusal_message(*code, line@))]);
            return (st, actions);
        }
    }
    if let Err(e) = handle_nickserv_during_registration(&message, config.nickserv.service.as_str(), st.welcomed) {
        actions.push(RegistrationAction::Fatal(e));
        assert(action_views(actions@) =~= seq![ActionView::Fatal(rejected_password_message())]);
        return (st, actions);
    }
    run_after_checks(st, line, message, config)
}

} // verus!
