use rust_irc::apply::Code;
use rust_irc::client::ClientInfo;
use rust_irc::frames::{error_frame, pong_frame, quit_frame, unknown_frame};
use rust_irc::message::{Command, Message, Side};
use rust_irc::parse::{minlength_or_fail, strip_colon, ParseError};
use rust_irc::route::{filter_broadcast, prepare_broadcast, route_broadcast, ServerClientBroadcast};
use rust_irc::session::{session_step, SessionEvent};
use rust_irc::strutil::{split_char, strip_line_ending, to_upper, trim_ws};
use rust_irc::verbs::CommandType;

fn registered(nick: &str, user: &str, channels: &[&str]) -> ClientInfo {
    ClientInfo {
        nickname: nick.to_string(),
        username: user.to_string(),
        realname: format!("{} Example", user),
        channels: channels.iter().map(|c| c.to_string()).collect(),
    }
}

#[test]
fn registration_burst_lines() {
    // Scenario: NICK then USER; the USER handler emits numerics 001..005.
    let mut info = ClientInfo::default();
    let (code, frames) = Message::parse("NICK alice")
        .unwrap()
        .apply(&mut info, "srv");
    assert_eq!(code, Code::Fine);
    assert!(frames.is_empty());
    assert_eq!(info.nickname, "alice");

    let (code, frames) = Message::parse("USER alice 0 * :Alice Example")
        .unwrap()
        .apply(&mut info, "srv");
    assert_eq!(code, Code::Fine);
    assert_eq!(info.username, "alice");
    assert_eq!(info.realname, "Alice Example");
    let lines: Vec<&str> = frames.iter().map(|f| f.as_str()).collect();
    assert_eq!(
        lines,
        vec![
            ":srv 001 alice :Welcome to the Internet Relay Network alice!alice@srv\r\n",
            ":srv 002 alice :Your host is srv, running version rust_irc-0.0.0\r\n",
            ":srv 003 alice :This server was created... probably 10 seconds ago who cares\r\n",
            ":srv 004 alice srv rust_irc-0.0.0    \r\n",
            ":srv 005 alice CASEMAPPING=ascii :are available on this server\r\n",
        ]
    );
}

#[test]
fn ping_pong() {
    let mut info = registered("alice", "alice", &[]);
    let (code, frames) = Message::parse("PING abc123")
        .unwrap()
        .apply(&mut info, "srv");
    assert_eq!(code, Code::Fine);
    assert_eq!(frames.len(), 1);
    assert_eq!(frames[0].as_str(), "PONG srv :abc123\r\n");
}

#[test]
fn motd_triplet() {
    let mut info = registered("alice", "alice", &[]);
    let (code, frames) = Message::parse("MOTD").unwrap().apply(&mut info, "srv");
    assert_eq!(code, Code::Fine);
    let lines: Vec<&str> = frames.iter().map(|f| f.as_str()).collect();
    assert_eq!(
        lines,
        vec![
            ":srv 375 alice :- srv Message of the day - \r\n",
            ":srv 372 alice :- Hi from Rust-IRC!\r\n",
            ":srv 376 alice :End of /MOTD command\r\n",
        ]
    );
}

#[test]
fn unknown_command_421() {
    let mut info = registered("alice", "alice", &[]);
    let (code, frames) = Message::parse("FLOOBER").unwrap().apply(&mut info, "srv");
    assert_eq!(code, Code::Fine);
    assert_eq!(frames.len(), 1);
    assert_eq!(
        frames[0].as_str(),
        ":srv 421 alice * FLOOBER: Unknown command\r\n"
    );
}

#[test]
fn unknown_before_registration_uses_star() {
    let mut info = ClientInfo::default();
    let (_, frames) = Message::parse("FLOOBER").unwrap().apply(&mut info, "srv");
    assert_eq!(
        frames[0].as_str(),
        ":srv 421 * * FLOOBER: Unknown command\r\n"
    );
}

#[test]
fn quit_writes_goodbye_and_exits() {
    let mut info = registered("alice", "alice", &[]);
    let (code, frames) = Message::parse("QUIT :bye").unwrap().apply(&mut info, "srv");
    assert_eq!(code, Code::Exit);
    assert_eq!(frames.len(), 1);
    assert_eq!(frames[0].as_str(), "ERROR :Goodbye!\r\n");
}

#[test]
fn every_frame_ends_with_one_crlf() {
    let info = registered("alice", "alice", &[]);
    let frames = vec![
        pong_frame("srv", "tok"),
        error_frame("Goodbye!"),
        quit_frame(&info, "later"),
        unknown_frame("srv", &info, "BLORP"),
    ];
    for f in frames {
        let s = f.as_str();
        assert!(s.ends_with("\r\n"));
        assert_eq!(s.matches("\r\n").count(), 1);
        assert_eq!(s.matches('\n').count(), 1);
    }
}

#[test]
fn join_echo_and_broadcast() {
    // Scenario: alice joins #cats; the JOIN is echoed to her and every other
    // session observes it through the hub.
    let mut alice = registered("alice", "alice", &[]);
    let step = session_step(&mut alice, "srv", SessionEvent::Line("JOIN #cats\r\n".to_string()));
    assert!(!step.exit);
    assert_eq!(alice.channels, vec!["#cats".to_string()]);
    assert_eq!(step.frames.len(), 1);
    assert_eq!(step.frames[0].as_str(), "JOIN #cats\r\n");

    let published = step.publish.expect("JOIN must be handed to the hub");
    assert_eq!(published.source, Some("alice".to_string()));
    assert_eq!(published.side, Side::Server);

    let envelope = route_broadcast(published).expect("hub must fan a JOIN out");
    let mut bob = registered("bob", "bob", &[]);
    let step = session_step(&mut bob, "srv", SessionEvent::Broadcast(envelope));
    assert_eq!(step.frames.len(), 1);
    assert_eq!(step.frames[0].as_str(), ":alice JOIN #cats\r\n");
}

#[test]
fn privmsg_scoping_and_self_exclusion() {
    // Scenario: alice messages #cats. Bob is in #cats and receives it;
    // carol is not and receives nothing; alice never hears her own message.
    let mut alice = registered("alice", "alice", &["#cats"]);
    let step = session_step(
        &mut alice,
        "srv",
        SessionEvent::Line("PRIVMSG #cats :meow\r\n".to_string()),
    );
    assert!(step.frames.is_empty());
    let published = step.publish.expect("PRIVMSG must be handed to the hub");
    let envelope = route_broadcast(published).expect("hub must fan a PRIVMSG out");

    let mut bob = registered("bob", "bob", &["#cats"]);
    let step = session_step(&mut bob, "srv", SessionEvent::Broadcast(envelope.clone()));
    assert_eq!(step.frames.len(), 1);
    assert_eq!(step.frames[0].as_str(), ":alice PRIVMSG #cats :meow\r\n");

    let mut carol = registered("carol", "carol", &["#dogs"]);
    let step = session_step(&mut carol, "srv", SessionEvent::Broadcast(envelope.clone()));
    assert!(step.frames.is_empty());

    let step = session_step(&mut alice, "srv", SessionEvent::Broadcast(envelope));
    assert!(step.frames.is_empty());
}

#[test]
fn filter_rules() {
    let message = Message {
        tags: None,
        source: Some("alice".to_string()),
        command: Command::PRIVMSG(vec!["#cats".to_string()], "meow".to_string()),
        side: Side::Server,
    };
    let envelope = ServerClientBroadcast::PrivMessage {
        channels: vec!["#cats".to_string()],
        message: message.clone(),
    };
    // Originator: excluded.
    assert_eq!(
        filter_broadcast(envelope.clone(), &registered("alice", "alice", &["#cats"])),
        None
    );
    // Member of a target channel: delivered.
    assert_eq!(
        filter_broadcast(envelope.clone(), &registered("bob", "bob", &["#cats", "#dogs"])),
        Some(message.clone())
    );
    // No shared channel: not delivered.
    assert_eq!(
        filter_broadcast(envelope.clone(), &registered("bob", "bob", &[])),
        None
    );
    // No source on the broadcast: not delivered.
    let anonymous = ServerClientBroadcast::PrivMessage {
        channels: vec!["#cats".to_string()],
        message: Message { source: None, ..message.clone() },
    };
    assert_eq!(
        filter_broadcast(anonymous, &registered("bob", "bob", &["#cats"])),
        None
    );
    // A JOIN is delivered to everyone.
    let join = ServerClientBroadcast::Join { message: message.clone() };
    assert_eq!(
        filter_broadcast(join, &registered("alice", "alice", &[])),
        Some(message)
    );
}

#[test]
fn hub_routes_only_broadcast_class() {
    let mk = |command| Message { tags: None, source: Some("alice".to_string()), command, side: Side::Server };
    assert!(route_broadcast(mk(Command::PRIVMSG(vec!["#x".to_string()], "hi".to_string()))).is_some());
    assert!(route_broadcast(mk(Command::JOIN(vec!["#x".to_string()], None))).is_some());
    assert!(route_broadcast(mk(Command::PING("t".to_string()))).is_none());
    assert!(route_broadcast(mk(Command::NICK("n".to_string()))).is_none());
}

#[test]
fn prepare_rewrites_source_and_side() {
    let m = Message {
        tags: None,
        source: None,
        command: Command::PRIVMSG(vec!["#x".to_string()], "hi".to_string()),
        side: Side::Client,
    };
    let p = prepare_broadcast(m.clone(), &"alice".to_string());
    assert_eq!(p.source, Some("alice".to_string()));
    assert_eq!(p.side, Side::Server);
    assert_eq!(p.command, m.command);
}

#[test]
fn shutdown_signal_ends_session_with_farewell() {
    // Scenario: the signal fires while alice is connected and idle.
    let mut alice = registered("alice", "alice", &[]);
    let step = session_step(&mut alice, "srv", SessionEvent::ShutdownSignal);
    assert!(step.exit);
    assert!(step.publish.is_none());
    let lines: Vec<&str> = step.frames.iter().map(|f| f.as_str()).collect();
    assert_eq!(
        lines,
        vec![
            ":alice QUIT :Quit: Server shutting down.\r\n",
            "ERROR :Server shutting down.\r\n",
        ]
    );
}

#[test]
fn eof_ends_session_with_farewell() {
    let mut alice = registered("alice", "alice", &[]);
    let step = session_step(&mut alice, "srv", SessionEvent::Eof);
    assert!(step.exit);
    assert_eq!(step.frames.len(), 2);
}

#[test]
fn lag_is_not_fatal() {
    let mut alice = registered("alice", "alice", &[]);
    let step = session_step(&mut alice, "srv", SessionEvent::BroadcastLagged);
    assert!(!step.exit);
    assert!(step.frames.is_empty());
    assert!(step.publish.is_none());
}

#[test]
fn parse_errors_are_recoverable_in_session() {
    let mut alice = registered("alice", "alice", &[]);
    let step = session_step(&mut alice, "srv", SessionEvent::Line("".to_string()));
    assert!(!step.exit);
    assert!(step.frames.is_empty());
    let step = session_step(&mut alice, "srv", SessionEvent::Line("USER too few\r\n".to_string()));
    assert!(!step.exit);
    assert!(step.frames.is_empty());
}

#[test]
fn session_quit_exits() {
    let mut alice = registered("alice", "alice", &[]);
    let step = session_step(&mut alice, "srv", SessionEvent::Line("QUIT :bye\r\n".to_string()));
    assert!(step.exit);
    assert_eq!(step.frames.len(), 1);
    assert_eq!(step.frames[0].as_str(), "ERROR :Goodbye!\r\n");
}

#[test]
fn parse_never_panics_on_odd_lines() {
    // Totality spot-checks: odd shapes must give a value or InvalidInput.
    let lines = [
        "",
        " ",
        "  ",
        ":",
        "@",
        "@ :",
        ": :",
        "@tags",
        ":src",
        "PING",
        "PONG one",
        "JOIN",
        "NICK",
        "USER a b c",
        "PRIVMSG #x",
        "PRIVMSG #x :",
        "QUIT :",
        "@a;b :c",
        "privmsg #x :hi",
        "  leading spaces",
        "verylongnonsense with many tokens and :a trailer at the end",
    ];
    for l in lines {
        let _ = Message::parse(l);
        let _ = Command::parse(l);
    }
    let long = "X".repeat(4096);
    let _ = Message::parse(&long);
}

#[test]
fn lowercase_verbs_are_recognized() {
    assert_eq!(
        Command::parse("privmsg #x :hi").unwrap(),
        Command::PRIVMSG(vec!["#x".to_string()], "hi".to_string())
    );
    assert_eq!(Command::parse("die").unwrap(), Command::DIE);
}

#[test]
fn round_trip_more_canonical_lines() {
    for line in [
        "JOIN #meow,#blep nyaa,mlem",
        "PONG srv tok",
        "NICK alice",
        "PING x",
        "DIE",
        "REHASH",
        "MOTD",
        "QUIT",
        "PRIVMSG #a,#b :many words here",
    ] {
        assert_eq!(Command::parse(line).unwrap().to_string(), line);
    }
}

#[test]
fn message_round_trip_with_prefixes() {
    for line in [
        ":alice PRIVMSG #cats :meow",
        "@a;b :src PING tok",
        "@a;b PING tok",
    ] {
        assert_eq!(Message::parse(line).unwrap().to_string(), line);
    }
}

#[test]
fn strip_colon_rules() {
    assert_eq!(strip_colon(":abc".to_string()).unwrap(), "abc");
    assert_eq!(strip_colon("abc".to_string()).unwrap(), "abc");
    assert_eq!(strip_colon("::x".to_string()).unwrap(), ":x");
    assert_eq!(strip_colon(":".to_string()), Err(ParseError::InvalidInput));
    assert_eq!(strip_colon("".to_string()), Err(ParseError::InvalidInput));
}

#[test]
fn minlength_check() {
    let parts = vec!["a".to_string(), "b".to_string()];
    assert!(minlength_or_fail(&parts, 2).is_ok());
    assert_eq!(minlength_or_fail(&parts, 3), Err(ParseError::InvalidInput));
}

#[test]
fn string_helpers() {
    assert_eq!(split_char("a,b,,c", ','), vec!["a", "b", "", "c"]);
    assert_eq!(split_char("", ','), vec![""]);
    assert_eq!(to_upper("miXed09!"), "MIXED09!");
    assert_eq!(trim_ws("  x y\t"), "x y");
    assert_eq!(strip_line_ending("PING x\r\n"), "PING x");
    assert_eq!(strip_line_ending("PING x\n"), "PING x");
    assert_eq!(strip_line_ending("PING x"), "PING x");
}

#[test]
fn command_type_classification() {
    assert_eq!(CommandType::from_str("nick"), CommandType::NICK);
    assert_eq!(CommandType::from_str("PRIVMSG"), CommandType::PRIVMSG);
    assert_eq!(CommandType::from_str("floober"), CommandType::UNKNOWN("FLOOBER".to_string()));
    assert_eq!(CommandType::from_str("JOIN").to_string(), "JOIN");
    assert_eq!(CommandType::UNKNOWN("CAP".to_string()).to_string(), "CAP");
}

#[test]
fn canonical_identity() {
    let info = registered("alice", "aliceu", &[]);
    assert_eq!(info.to_canonical("srv"), "alice!aliceu@srv");
}

#[test]
fn join_with_trailing_space_keeps_empty_channel() {
    assert_eq!(
        Command::parse("JOIN ").unwrap(),
        Command::JOIN(vec!["".to_string()], None)
    );
}

#[test]
fn prefixes_without_command_are_invalid() {
    assert_eq!(Message::parse("@a :b"), Err(ParseError::InvalidInput));
    assert_eq!(Message::parse(":src"), Err(ParseError::InvalidInput));
    assert_eq!(Message::parse("@tags"), Err(ParseError::InvalidInput));
}

#[test]
fn double_colon_source_is_invalid() {
    assert_eq!(Message::parse(":a :b PING x"), Err(ParseError::InvalidInput));
}

#[test]
fn envelope_with_line_feed_is_dropped() {
    // A message that somehow carries a line feed must never reach the wire:
    // the session drops the envelope instead of framing it.
    let message = Message {
        tags: None,
        source: Some("alice".to_string()),
        command: Command::JOIN(vec!["#a\nQUIT".to_string()], None),
        side: Side::Server,
    };
    let envelope = ServerClientBroadcast::Join { message };
    let mut bob = registered("bob", "bob", &[]);
    let step = session_step(&mut bob, "srv", SessionEvent::Broadcast(envelope));
    assert!(step.frames.is_empty());
    assert!(!step.exit);
}

#[test]
fn line_with_embedded_line_feed_is_dropped() {
    let mut alice = registered("alice", "alice", &[]);
    let step = session_step(
        &mut alice,
        "srv",
        SessionEvent::Line("PING a\nQUIT\r\n".to_string()),
    );
    assert!(step.frames.is_empty());
    assert!(!step.exit);
}

#[test]
fn quit_source_is_the_nickname() {
    // The QUIT source is the nick, not the username, also when they differ.
    let info = registered("alice", "bob", &[]);
    assert_eq!(
        quit_frame(&info, "later").as_str(),
        ":alice QUIT :later\r\n"
    );

    let mut info = registered("alice", "bob", &[]);
    let step = session_step(&mut info, "srv", SessionEvent::ShutdownSignal);
    assert_eq!(
        step.frames[0].as_str(),
        ":alice QUIT :Quit: Server shutting down.\r\n"
    );
}
