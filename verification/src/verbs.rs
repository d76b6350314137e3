//! A bare classification of the relayed verbs, without payloads: the light
//! counterpart of `Command` for code that only needs to know which verb a
//! token names.

use vstd::prelude::*;

use crate::strutil::{spec_upper, to_upper, verb_matches};

verus! {

/// The verbs the relay acts on; anything else is carried uppercased.
#[allow(non_camel_case_types)]
#[derive(Debug, PartialEq, Eq, Clone)]
pub enum CommandType {
    NICK,
    USER,
    PING,
    MOTD,
    QUIT,
    PRIVMSG,
    JOIN,
    UNKNOWN(String),
}

impl CommandType {
    /// Classifies a verb token, case-insensitively; an unrecognized verb is
    /// kept, uppercased.
    pub fn from_str(s: &str) -> (r: CommandType)
        ensures
            match r {
                CommandType::NICK => spec_upper(s@) == "NICK"@,
                CommandType::USER => spec_upper(s@) == "USER"@,
                CommandType::PING => spec_upper(s@) == "PING"@,
                CommandType::MOTD => spec_upper(s@) == "MOTD"@,
                CommandType::QUIT => spec_upper(s@) == "QUIT"@,
                CommandType::PRIVMSG => spec_upper(s@) == "PRIVMSG"@,
                CommandType::JOIN => spec_upper(s@) == "JOIN"@,
                CommandType::UNKNOWN(x) => x@ == spec_upper(s@) && spec_upper(s@) != "NICK"@
                    && spec_upper(s@) != "USER"@ && spec_upper(s@) != "PING"@ && spec_upper(s@)
                    != "MOTD"@ && spec_upper(s@) != "QUIT"@ && spec_upper(s@) != "PRIVMSG"@
                    && spec_upper(s@) != "JOIN"@,
            },
    {
        if verb_matches(s, "NICK") {
            CommandType::NICK
        } else if verb_matches(s, "USER") {
            CommandType::USER
        } else if verb_matches(s, "PING") {
            CommandType::PING
        } else if verb_matches(s, "MOTD") {
            CommandType::MOTD
        } else if verb_matches(s, "QUIT") {
            CommandType::QUIT
        } else if verb_matches(s, "PRIVMSG") {
            CommandType::PRIVMSG
        } else if verb_matches(s, "JOIN") {
            CommandType::JOIN
        } else {
            CommandType::UNKNOWN(to_upper(s))
        }
    }

    /// The verb's wire text; an unrecognized verb is returned as carried.
    pub fn to_string(&self) -> (r: String)
        ensures
            match self {
                CommandType::NICK => r@ == "NICK"@,
                CommandType::USER => r@ == "USER"@,
                CommandType::PING => r@ == "PING"@,
                CommandType::MOTD => r@ == "MOTD"@,
                CommandType::QUIT => r@ == "QUIT"@,
                CommandType::PRIVMSG => r@ == "PRIVMSG"@,
                CommandType::JOIN => r@ == "JOIN"@,
                CommandType::UNKNOWN(x) => r@ == x@,
            },
    {
        match self {
            CommandType::NICK => String::from_str("NICK"),
            CommandType::USER => String::from_str("USER"),
            CommandType::PING => String::from_str("PING"),
            CommandType::MOTD => String::from_str("MOTD"),
            CommandType::QUIT => String::from_str("QUIT"),
            CommandType::PRIVMSG => String::from_str("PRIVMSG"),
            CommandType::JOIN => String::from_str("JOIN"),
            CommandType::UNKNOWN(x) => x.clone(),
        }
    }
}

} // verus!
