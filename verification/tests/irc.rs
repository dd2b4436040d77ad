use std::time::Duration;

use mudl::irc::capability::{cap_ls_complete, cap_request_command, registration_commands};
use mudl::irc::channels::{classify_target, room_channel_name, ChannelTarget};
use mudl::irc::config::{normalize_channel_name, normalize_channel_prefix, parse_bool, IrcConfig};
use mudl::irc::connect::{log_outbound_command, sanitize_wire_line};
use mudl::irc::dispatch::{dispatch_nickserv_identify, dispatch_nickserv_logged_out};
use mudl::irc::runner::{
    registration_start, registration_step, session_closed, RegistrationAction, SessionEnd, SessionFatal,
};
use mudl::irc::transport::MockTransport;
use mudl::irc::identity::{verify_irc_identity, IrcIdentityPolicy};
use mudl::irc::input::normalize_irc_command_input;
use mudl::irc::message::{format_outgoing, parse_irc_line, IrcMessage};
use mudl::irc::nick::{
    sanitize_irc_nick, sanitize_nick_display, sanitize_ooc_text, MAX_OOC_TEXT_LEN,
};
use mudl::irc::nickserv::{
    identify_account_command, identify_nick_command, parse_nickserv_reply, player_help_text,
    IrcNickServConfig, NickServNotice,
};
use mudl::irc::reconnect::{ExponentialBackoff, IrcReconnectConfig};
use mudl::irc::social::{format_emote, format_ooc, format_say, format_tell};
use mudl::object::ObjectId;

#[test]
fn detects_cap_ls_completion() {
    assert!(cap_ls_complete(":irc CAP * LS :multi-prefix account-notify"));
    assert!(!cap_ls_complete(":irc CAP * LS * :draft/relay-msg tags"));
}

#[test]
fn registration_includes_cap_ls_when_ircv3_enabled() {
    let lines = registration_commands("mudl", "MUDL Bot", true);
    assert!(lines[0].starts_with("CAP LS"));
    assert!(lines.iter().any(|l| l.starts_with("NICK ")));
}

#[test]
fn cap_request_lists_ircv3_caps() {
    let cmd = cap_request_command();
    assert!(cmd.contains("server-time"));
    assert!(cmd.contains("message-tags"));
}

#[test]
fn room_channel_uses_object_slug() {
    let config = IrcConfig::default();
    let channel = room_channel_name(&config.room_channel_prefix, &ObjectId::new("room:void-001"));
    assert_eq!(channel, "#mudl-void-001");
}

#[test]
fn classifies_world_room_and_bot_targets() {
    let config = IrcConfig::default();
    assert_eq!(classify_target("#mudl", &config), ChannelTarget::World);
    assert_eq!(
        classify_target("#mudl-void-001", &config),
        ChannelTarget::Room("void-001".to_string())
    );
    assert_eq!(classify_target("mudl", &config), ChannelTarget::Bot);
    assert_eq!(
        classify_target("alice", &config),
        ChannelTarget::Private("alice".to_string())
    );
}

#[test]
fn defaults_assume_tls_and_ircv3() {
    let config = IrcConfig::default();
    assert_eq!(config.port, 6697);
    assert!(config.tls);
    assert!(config.ircv3);
}

#[test]
fn normalizes_channel_names() {
    assert_eq!(normalize_channel_name("mudl"), "#mudl");
    assert_eq!(normalize_channel_name("#play"), "#play");
    assert_eq!(normalize_channel_prefix("mudl"), "#mudl-");
}

#[test]
fn parse_bool_env_values() {
    assert!(parse_bool("true", false));
    assert!(!parse_bool("0", true));
    assert!(parse_bool("garbage", true));
}

#[test]
fn connection_summary_includes_tls_and_ircv3() {
    let config = IrcConfig::default();
    assert!(config.connection_summary().contains("tls"));
    assert!(config.connection_summary().contains("ircv3"));
}

#[test]
fn sanitize_wire_line_redacts_secrets() {
    assert_eq!(sanitize_wire_line("PRIVMSG NickServ :IDENTIFY alice sekrit"), "<redacted>");
    assert!(sanitize_wire_line(":server 001 mudl :Welcome").contains("Welcome"));
}

#[test]
fn require_account_tag_rejects_unidentified() {
    let policy = IrcIdentityPolicy { require_account_tag: true, ..Default::default() };
    assert!(verify_irc_identity("alice", None, &policy).is_err());
    assert!(verify_irc_identity("alice", Some("*"), &policy).is_err());
    assert!(verify_irc_identity("alice", Some("AliceAccount"), &policy).is_ok());
}

#[test]
fn account_bindings_enforce_per_nick() {
    let policy = IrcIdentityPolicy {
        account_bindings: vec![("alice".to_string(), "AliceAccount".to_string())],
        ..Default::default()
    };
    assert!(verify_irc_identity("alice", Some("AliceAccount"), &policy).is_ok());
    assert!(verify_irc_identity("alice", Some("wrong"), &policy).is_err());
    assert!(verify_irc_identity("bob", None, &policy).is_ok());
}

#[test]
fn permissive_policy_allows_all() {
    let policy = IrcIdentityPolicy::default();
    assert!(verify_irc_identity("alice", None, &policy).is_ok());
}

#[test]
fn strips_msg_prefix_to_bot() {
    assert_eq!(normalize_irc_command_input("/msg mudl look", "mudl"), "look");
    assert_eq!(
        normalize_irc_command_input("/MSG Mudl say hello there", "mudl"),
        "say hello there"
    );
}

#[test]
fn strips_query_prefix_to_bot() {
    assert_eq!(normalize_irc_command_input("/query mudl help", "mudl"), "help");
}

#[test]
fn leaves_plain_commands_unchanged() {
    assert_eq!(normalize_irc_command_input("go north", "mudl"), "go north");
    assert_eq!(normalize_irc_command_input("/msg alice hi", "mudl"), "/msg alice hi");
}

#[test]
fn leaves_msg_to_other_target_unchanged() {
    assert_eq!(normalize_irc_command_input("/msg alice psst", "mudl"), "/msg alice psst");
}

#[test]
fn parses_privmsg_with_prefix() {
    let msg = parse_irc_line(":alice!u@h PRIVMSG #mudl :look");
    assert_eq!(
        msg,
        IrcMessage::Privmsg {
            from: "alice".to_string(),
            target: "#mudl".to_string(),
            text: "look".to_string(),
        }
    );
}

#[test]
fn parses_ping() {
    let msg = parse_irc_line("PING :abc");
    assert_eq!(msg, IrcMessage::Ping { token: "abc".to_string() });
}

#[test]
fn parses_tagged_privmsg() {
    let msg = parse_irc_line("@time=2026-07-07T12:00:00Z :alice!u@h PRIVMSG mudl :go north");
    assert_eq!(
        msg,
        IrcMessage::Privmsg {
            from: "alice".to_string(),
            target: "mudl".to_string(),
            text: "go north".to_string(),
        }
    );
}

#[test]
fn parses_privmsg_to_bot_nick() {
    let msg = parse_irc_line(":Bob!u@host PRIVMSG Mudl :login");
    assert_eq!(
        msg,
        IrcMessage::Privmsg {
            from: "Bob".to_string(),
            target: "Mudl".to_string(),
            text: "login".to_string(),
        }
    );
}

#[test]
fn formats_trailing_privmsg() {
    let line = format_outgoing("PRIVMSG", &["alice"], Some("hello"));
    assert_eq!(line, "PRIVMSG alice :hello\r\n");
}

#[test]
fn sanitize_irc_nick_accepts_valid_nicks() {
    assert_eq!(sanitize_irc_nick("Alice"), Some("alice".to_string()));
    assert_eq!(sanitize_irc_nick("brain-s"), Some("brain-s".to_string()));
    assert_eq!(sanitize_irc_nick("x"), Some("x".to_string()));
}

#[test]
fn sanitize_irc_nick_rejects_invalid() {
    assert!(sanitize_irc_nick("").is_none());
    assert!(sanitize_irc_nick("123bad").is_none());
    assert!(sanitize_irc_nick("al\nce").is_none());
    assert!(sanitize_irc_nick(&"a".repeat(31)).is_none());
}

#[test]
fn sanitize_nick_display_strips_control_chars() {
    assert_eq!(sanitize_nick_display("Alice"), "Alice");
    assert_eq!(sanitize_nick_display("bad\nnick"), "badnick");
    assert_eq!(sanitize_nick_display("\x01"), "???");
}

#[test]
fn sanitize_ooc_text_collapses_and_caps_length() {
    assert_eq!(sanitize_ooc_text("brb"), "brb");
    assert_eq!(sanitize_ooc_text("line1\nline2"), "line1 line2");
    let long = "a".repeat(500);
    let capped = sanitize_ooc_text(&long);
    assert!(capped.ends_with('…'));
    assert!(capped.chars().count() <= MAX_OOC_TEXT_LEN);
}

#[test]
fn identify_nick_command_includes_nick_and_password() {
    assert_eq!(identify_nick_command("alice", "sekrit"), "IDENTIFY alice sekrit");
}

#[test]
fn bot_identify_command_when_password_set() {
    let cfg = IrcNickServConfig {
        service: "NickServ".to_string(),
        account: None,
        password: Some("bot-pass".to_string()),
    };
    assert_eq!(cfg.bot_identify_command().as_deref(), Some("IDENTIFY bot-pass"));
}

#[test]
fn bot_identify_command_uses_account_when_set() {
    let cfg = IrcNickServConfig {
        service: "NickServ".to_string(),
        account: Some("muddlebot".to_string()),
        password: Some("bot-pass".to_string()),
    };
    assert_eq!(cfg.bot_identify_command().as_deref(), Some("IDENTIFY muddlebot bot-pass"));
}

#[test]
fn identify_account_command_includes_account_and_password() {
    assert_eq!(identify_account_command("muddlebot", "sekrit"), "IDENTIFY muddlebot sekrit");
}

#[test]
fn bot_identify_command_none_without_password() {
    let cfg = IrcNickServConfig::default();
    assert!(cfg.bot_identify_command().is_none());
}

#[test]
fn parse_identified_notice() {
    let notice = parse_nickserv_reply("Password accepted - you are now recognized as user 'alice'.");
    assert_eq!(notice, NickServNotice::Identified { nick: Some("alice".to_string()) });
}

#[test]
fn parse_invalid_password() {
    let notice = parse_nickserv_reply("Invalid password.");
    assert_eq!(notice, NickServNotice::InvalidPassword);
}

#[test]
fn player_help_mentions_manual_registration_not_bot_register() {
    let help = player_help_text(false);
    assert!(help.contains("IRC client"));
    assert!(help.contains("REGISTER"));
    assert!(!help.contains("nickserv register"));
}

#[test]
fn default_reconnect_is_enabled_with_sane_backoff() {
    let config = IrcReconnectConfig::default();
    assert!(config.enabled);
    assert_eq!(config.initial_secs, 5);
    assert_eq!(config.max_secs, 300);
    assert_eq!(config.max_attempts, 0);
}

#[test]
fn backoff_doubles_until_max() {
    let config = IrcReconnectConfig { initial_secs: 2, max_secs: 10, ..IrcReconnectConfig::default() };
    let mut backoff = ExponentialBackoff::new(&config);
    assert_eq!(backoff.next_delay(), Duration::from_secs(2));
    assert_eq!(backoff.next_delay(), Duration::from_secs(4));
    assert_eq!(backoff.next_delay(), Duration::from_secs(8));
    assert_eq!(backoff.next_delay(), Duration::from_secs(10));
    assert_eq!(backoff.next_delay(), Duration::from_secs(10));
}

#[test]
fn backoff_resets_after_success() {
    let config = IrcReconnectConfig::default();
    let mut backoff = ExponentialBackoff::new(&config);
    assert_eq!(backoff.next_delay(), Duration::from_secs(5));
    backoff.reset();
    assert_eq!(backoff.next_delay(), Duration::from_secs(5));
}

#[test]
fn max_attempts_zero_means_unlimited() {
    let config = IrcReconnectConfig { max_attempts: 0, ..IrcReconnectConfig::default() };
    assert!(config.should_retry(999));
}

#[test]
fn max_attempts_limits_retries() {
    let config = IrcReconnectConfig { max_attempts: 3, ..IrcReconnectConfig::default() };
    assert!(config.should_retry(0));
    assert!(config.should_retry(2));
    assert!(!config.should_retry(3));
}

#[test]
fn social_formats_are_immersive() {
    assert_eq!(format_say("Alice", "hi"), "Alice says, \"hi\"");
    assert_eq!(format_emote("Alice", "waves."), "Alice waves.");
    assert_eq!(format_tell("Bob", "psst"), "Bob tells you, \"psst\"");
    assert_eq!(format_ooc("Alice", "brb"), "[OOC] Alice: brb");
}

#[test]
fn format_ooc_sanitizes_speaker_and_body() {
    assert_eq!(format_ooc("Al\nice", "brb\nsoon"), "[OOC] Alice: brb soon");
}

#[test]
fn log_outbound_command_trims_and_redacts() {
    assert_eq!(log_outbound_command("\r\n"), None);
    assert_eq!(log_outbound_command(""), None);
    assert_eq!(
        log_outbound_command("NICK mudl\r\n").as_deref(),
        Some("NICK mudl")
    );
    assert_eq!(
        log_outbound_command("PRIVMSG NickServ :identify mudl sekrit\r\n").as_deref(),
        Some("<redacted>")
    );
    let long = format!("PRIVMSG #mudl :{}\r\n", "x".repeat(300));
    let logged = log_outbound_command(&long).unwrap();
    assert_eq!(logged.len(), 200 + "…".len());
    assert!(logged.ends_with('…'));
}

#[test]
fn room_channel_reads_back_as_its_room() {
    let config = IrcConfig::default();
    let room = ObjectId::new("room:north-hall-002");
    let channel = room_channel_name(&config.room_channel_prefix, &room);
    assert_eq!(
        classify_target(&channel, &config),
        ChannelTarget::Room("north-hall-002".to_string())
    );
}

#[test]
fn lenient_policy_accepts_any_nick() {
    let policy = IrcIdentityPolicy::default();
    assert!(verify_irc_identity("anyone", None, &policy).is_ok());
    assert!(verify_irc_identity("anyone", Some("*"), &policy).is_ok());
}

#[test]
fn bound_nick_needs_its_account_in_any_case() {
    let policy = IrcIdentityPolicy {
        require_account_tag: false,
        account_bindings: vec![("alice".to_string(), "AliceAcct".to_string())],
    };
    assert!(verify_irc_identity("alice", Some("aliceacct"), &policy).is_ok());
    assert!(verify_irc_identity("alice", Some(" ALICEACCT "), &policy).is_ok());
    let err = verify_irc_identity("alice", Some("mallory"), &policy).unwrap_err();
    assert_eq!(
        err,
        "IRC account verification failed for nick 'alice'. Contact the operator if you believe this is an error."
    );
    assert!(verify_irc_identity("alice", None, &policy).is_err());
    assert!(verify_irc_identity("bob", None, &policy).is_ok());
}

#[test]
fn required_tag_refuses_missing_account() {
    let policy = IrcIdentityPolicy { require_account_tag: true, account_bindings: Vec::new() };
    let err = verify_irc_identity("bob", Some("*"), &policy).unwrap_err();
    assert!(err.starts_with("This network requires a registered/SASL-identified IRC account."));
    assert!(verify_irc_identity("bob", Some("bob"), &policy).is_ok());
}

#[test]
fn recorder_reports_privmsgs_per_target() {
    let mut t = MockTransport::new();
    t.send_privmsg("alice", "hello");
    t.join("#mudl");
    t.send_notice("alice", "note");
    t.send_privmsg("#mudl", "all");
    t.send_privmsg("alice", "again");
    assert_eq!(t.privmsgs_to("alice"), vec!["hello".to_string(), "again".to_string()]);
    assert_eq!(t.channel_messages("#mudl"), vec!["all".to_string()]);
    assert_eq!(t.recorded().len(), 5);
    t.clear();
    assert!(t.recorded().is_empty());
}

#[test]
fn session_fatal_carries_its_message() {
    let fatal = SessionFatal("NickServ rejected IRC_NICKSERV_PASSWORD".to_string());
    assert_eq!(fatal.into_error(), "NickServ rejected IRC_NICKSERV_PASSWORD");
}

#[test]
fn reconnect_settings_keep_max_at_least_initial() {
    let cfg = IrcReconnectConfig::from_settings(Some("off"), Some("60"), Some("10"), Some(" 7 "));
    assert!(!cfg.enabled);
    assert_eq!(cfg.initial_secs, 60);
    assert_eq!(cfg.max_secs, 60);
    assert_eq!(cfg.max_attempts, 7);
    let cfg = IrcReconnectConfig::from_settings(None, Some("0"), Some("x"), Some("-1"));
    assert!(cfg.enabled);
    assert_eq!(cfg.initial_secs, 5);
    assert_eq!(cfg.max_secs, 300);
    assert_eq!(cfg.max_attempts, 0);
}

#[test]
fn nickserv_settings_trim_and_drop_blanks() {
    let cfg = IrcNickServConfig::from_settings(None, Some("  "), Some(" s3cret "));
    assert_eq!(cfg.service, "NickServ");
    assert_eq!(cfg.account, None);
    assert_eq!(cfg.password.as_deref(), Some("s3cret"));
    assert!(cfg.is_configured());
    let cfg = IrcNickServConfig::from_settings(Some("AuthServ"), Some("bot"), None);
    assert_eq!(cfg.service, "AuthServ");
    assert_eq!(cfg.account.as_deref(), Some("bot"));
    assert!(!cfg.is_configured());
}

fn sent(actions: &[RegistrationAction]) -> Vec<String> {
    actions
        .iter()
        .filter_map(|a| match a {
            RegistrationAction::Send(l) => Some(l.clone()),
            _ => None,
        })
        .collect()
}

#[test]
fn registration_starts_with_cap_ls_nick_and_user() {
    let config = IrcConfig::default();
    let (st, actions) = registration_start(&config);
    assert!(!st.welcomed && !st.caps_requested && !st.nickserv_sent);
    assert_eq!(sent(&actions).len(), 3);
    assert!(sent(&actions)[0].starts_with("CAP LS 302"));

    let mut legacy = IrcConfig::default();
    legacy.ircv3 = false;
    legacy.nickserv.password = Some("pw".to_string());
    let (st, actions) = registration_start(&legacy);
    assert!(st.caps_requested && st.nickserv_sent);
    assert!(matches!(actions.last(), Some(RegistrationAction::NickServBootstrap)));
}

#[test]
fn registration_answers_ping_and_requests_caps_once() {
    let mut config = IrcConfig::default();
    config.nickserv.password = Some("pw".to_string());
    let (st, _) = registration_start(&config);
    let (st, actions) = registration_step(st, "PING :abc123", false, &config);
    assert_eq!(sent(&actions), vec!["PONG abc123\r\n".to_string()]);
    let (st, actions) = registration_step(st, ":irc.example CAP * LS :multi-prefix sasl", false, &config);
    assert!(st.caps_requested && st.nickserv_sent);
    assert_eq!(sent(&actions).len(), 2);
    assert!(matches!(actions.last(), Some(RegistrationAction::NickServBootstrap)));
    let (_, again) = registration_step(st, ":irc.example CAP * LS :multi-prefix sasl", false, &config);
    assert!(again.is_empty());
}

#[test]
fn registration_welcome_joins_world_then_delivers() {
    let config = IrcConfig::default();
    let (st, _) = registration_start(&config);
    let (st, actions) = registration_step(st, ":irc.example 001 mudl :Welcome", false, &config);
    assert!(st.welcomed);
    assert!(matches!(actions[0], RegistrationAction::JoinWorld));
    assert!(matches!(actions.last(), Some(RegistrationAction::Deliver(_))));
    let (_, actions) = registration_step(st, ":alice!u@h PRIVMSG mudl :look", true, &config);
    assert!(matches!(
        &actions[..],
        [RegistrationAction::Deliver(IrcMessage::Privmsg { text, .. })] if text == "look"
    ));
    assert_eq!(session_closed(&st), SessionEnd::Disconnected { was_registered: true });
}

#[test]
fn registration_refusals_deadline_and_bad_password_end_the_session() {
    let config = IrcConfig::default();
    let (st, _) = registration_start(&config);
    let (_, actions) =
        registration_step(st, ":irc.example 433 * mudl :Nickname is already in use", false, &config);
    assert!(matches!(
        &actions[..],
        [RegistrationAction::Fatal(m)]
            if m == "IRC server refused registration (433): :irc.example 433 * mudl :Nickname is already in use"
    ));
    let (_, actions) = registration_step(st, ":irc.example 451 * :You have not registered", false, &config);
    assert!(actions.is_empty());
    let (_, actions) = registration_step(st, ":irc.example NOTICE * :hello", true, &config);
    assert!(matches!(
        &actions[..],
        [RegistrationAction::End(SessionEnd::Disconnected { was_registered: false })]
    ));
    let (_, actions) = registration_step(
        st,
        ":NickServ!s@services NOTICE mudl :Invalid password for mudl",
        false,
        &config,
    );
    assert!(matches!(&actions[..], [RegistrationAction::Fatal(_)]));
}

fn words(line: &str) -> Vec<String> {
    line.split_whitespace().skip(1).map(str::to_string).collect()
}

#[test]
fn nickserv_identify_relays_without_echoing_password() {
    let config = IrcConfig::default();
    let outcome =
        dispatch_nickserv_logged_out("alice", "alice".to_string(), &words("nickserv identify sekrit-pass"), &config);
    assert_eq!(outcome.nickserv_outbound, vec!["IDENTIFY alice sekrit-pass"]);
    assert!(outcome.to_sender.iter().any(|l| l.contains("Identification request sent")));
    assert!(!outcome.to_sender.iter().any(|l| l.contains("sekrit-pass")));
}

#[test]
fn nickserv_register_directs_to_client() {
    let config = IrcConfig::default();
    let outcome = dispatch_nickserv_logged_out(
        "alice",
        "alice".to_string(),
        &words("nickserv register sekrit-pass alice@example.com"),
        &config,
    );
    assert!(outcome.nickserv_outbound.is_empty());
    assert!(outcome.to_sender.iter().any(|l| l.contains("IRC client")));
    assert!(!outcome.to_sender.iter().any(|l| l.contains("sekrit-pass")));
}

#[test]
fn nickserv_identify_without_password_shows_usage_and_help_splits_lines() {
    let config = IrcConfig::default();
    let outcome = dispatch_nickserv_identify("alice", "alice".to_string(), &[], &config);
    assert!(outcome.nickserv_outbound.is_empty());
    assert_eq!(
        outcome.to_sender,
        vec!["Usage: nickserv identify <password> (or /msg NickServ IDENTIFY <password>)"]
    );
    let help = dispatch_nickserv_logged_out("alice", "alice".to_string(), &[], &config);
    assert!(help.to_sender.len() > 1);
    let other = dispatch_nickserv_logged_out("alice", "alice".to_string(), &["bogus".to_string()], &config);
    assert_eq!(other.to_sender.len(), 1);
    assert_eq!(other.to_sender[0], help.to_sender.join("\n"));
}
