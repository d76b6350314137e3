use rust_irc::message::{Command, Message, Side};
use rust_irc::parse::ParseError;

#[test]
fn parse_privmessage() {
    let command: Command = Command::parse("PRIVMSG #meow :Hi there").unwrap();
    assert_eq!(
        command,
        Command::PRIVMSG(vec!["#meow".to_string()], "Hi there".to_string())
    );
}

#[test]
fn parse_ping() {
    let command: Command = Command::parse("PING wuiobgv9").unwrap();
    assert_eq!(command, Command::PING("wuiobgv9".to_string()));
}

#[test]
fn parse_join() {
    let command: Command = Command::parse("JOIN #meow").unwrap();
    assert_eq!(command, Command::JOIN(vec!["#meow".to_string()], None));
}

#[test]
fn parse_join_key() {
    let command: Command = Command::parse("JOIN #meow nyaa").unwrap();
    assert_eq!(
        command,
        Command::JOIN(vec!["#meow".to_string()], Some(vec!["nyaa".to_string()]))
    );
}

#[test]
fn parse_multi_join() {
    let command: Command = Command::parse("JOIN #meow,#blep nyaa,mlem").unwrap();
    assert_eq!(
        command,
        Command::JOIN(
            vec!["#meow".to_string(), "#blep".to_string()],
            Some(vec!["nyaa".to_string(), "mlem".to_string()])
        )
    );
}

#[test]
fn parse_pong() {
    let command: Command = Command::parse("PONG tigercat2000.dev wuiobgv9").unwrap();
    assert_eq!(
        command,
        Command::PONG("tigercat2000.dev".to_string(), "wuiobgv9".to_string())
    );
}

#[test]
fn parse_die() {
    let command: Command = Command::parse("DIE").unwrap();
    assert_eq!(command, Command::DIE);
}

#[test]
fn parse_rehash() {
    let command: Command = Command::parse("REHASH").unwrap();
    assert_eq!(command, Command::REHASH);
}

#[test]
fn parse_motd() {
    let command: Command = Command::parse("MOTD").unwrap();
    assert_eq!(command, Command::MOTD(None));
}

#[test]
fn parse_quit() {
    let command: Command = Command::parse("QUIT").unwrap();
    assert_eq!(command, Command::QUIT(None));
}

#[test]
fn parse_quit_with_message() {
    let command: Command = Command::parse("QUIT :Leaving").unwrap();
    assert_eq!(command, Command::QUIT(Some("Leaving".to_string())));
}

#[test]
fn parse_user() {
    let command: Command = Command::parse("USER guest 0 * :Meow Tompski").unwrap();
    assert_eq!(
        command,
        Command::USER(
            "guest".to_string(),
            "0".to_string(),
            "*".to_string(),
            "Meow Tompski".to_string()
        )
    );
}

#[test]
fn parse_nospace_realname() {
    let command: Command = Command::parse("USER guest 0 * hola").unwrap();
    assert_eq!(
        command,
        Command::USER(
            "guest".to_string(),
            "0".to_string(),
            "*".to_string(),
            "hola".to_string()
        )
    );
}

#[test]
fn parse_malformed_user() {
    let command: Result<Command, ParseError> = Command::parse("USER guest 0 * :");
    match command {
        // Correct
        Err(ParseError::InvalidInput) => {}
        // Incorrect
        Ok(_) => panic!("Malformed USER command parsed anyways"),
    }
}

#[test]
fn parse_nonsense() {
    let command: Command = Command::parse("POST / HTTP/1.1").unwrap();
    assert_eq!(command, Command::UNKNOWN("POST / HTTP/1.1".to_string()));
}

#[test]
fn parse_blank_string() {
    let command: Result<Command, ParseError> = Command::parse("");
    match command {
        // Correct
        Err(ParseError::InvalidInput) => {}
        // Incorrect
        Ok(_) => panic!("Malformed command parsed anyways"),
    }
}

#[test]
fn parse_adv_motd() {
    let command: Result<Command, ParseError> = Command::parse("MOTD otherserver.com");
    match command {
        // Correct
        Ok(Command::UNIMPLEMENTED(x)) if x == "MOTD otherserver.com" => {}
        // Incorrect
        Ok(_) => panic!("Malformed command parsed incorrectly"),
        // Incorrect
        Err(_) => panic!("Malformed command incorrectly errored"),
    }
}

#[test]
fn parse_full_ass_message() {
    let message: Message =
        Message::parse("@meow;mlem :irc.example.com CAP LS * :multi-prefix extended-join sasl")
            .unwrap();
    assert_eq!(
        message,
        Message {
            tags: Some(vec!["meow".to_string(), "mlem".to_string()]),
            source: Some("irc.example.com".to_string()),
            command: Command::UNKNOWN("CAP LS * :multi-prefix extended-join sasl".to_string()),
            side: Side::Unknown,
        }
    )
}

#[test]
fn parse_full_ass_message2() {
    let message: Message = Message::parse("@meow;mlem :irc.example.com USER guest 0 * :Meow Tompski")
        .unwrap();
    assert_eq!(
        message,
        Message {
            tags: Some(vec!["meow".to_string(), "mlem".to_string()]),
            source: Some("irc.example.com".to_string()),
            command: Command::USER(
                "guest".to_string(),
                "0".to_string(),
                "*".to_string(),
                "Meow Tompski".to_string()
            ),
            side: Side::Unknown,
        }
    )
}

#[test]
fn test_to_string_matches_from_string() {
    let mut str = "PRIVMSG #meow :hey dudes";
    let mut command: Command = Command::parse(str).unwrap();
    assert_eq!(command.to_string(), str);

    str = "USER guest 0 * :Meow Tompski";
    command = Command::parse(str).unwrap();
    assert_eq!(command.to_string(), str);

    str = "USER guest 0 * meow";
    command = Command::parse(str).unwrap();
    assert_eq!(command.to_string(), str);

    str = "QUIT :Leaving";
    command = Command::parse(str).unwrap();
    assert_eq!(command.to_string(), str);
}
