//! Parsing wire lines into `Message` and `Command` values.
//!
//! A line is split on single spaces; the first token (after any `@tags` and
//! `:source` prefixes) is the verb, uppercased; each verb then consumes its
//! parameters, with comma-separated lists and a colon-prefixed trailer.
//! Parsing is total: every input yields a value or an `InvalidInput` error.

use vstd::prelude::*;

use crate::message::{Command, CommandView, Message, MessageView, Side};
use crate::strutil::{
    lemma_join_chars, lemma_skip_free, lemma_split_chars, lemma_split_non_empty, lemma_trim_free,
    spec_join, spec_split, spec_trim, spec_upper, split_char, join_from, starts_with_char,
    trim_ws, verb_matches,
};

verus! {

/// The one recoverable parse failure: the line does not fit the grammar.
#[derive(Debug, PartialEq, Eq, Clone, Copy)]
pub enum ParseError {
    InvalidInput,
}

/// A trailer with its leading `:` removed: `None` when the input is empty or
/// holds nothing but the colon.
pub open spec fn spec_strip_colon(s: Seq<char>) -> Option<Seq<char>> {
    if s.len() == 0 {
        None
    } else {
        let t = if s[0] == ':' {
            s.skip(1)
        } else {
            s
        };
        if t.len() == 0 {
            None
        } else {
            Some(t)
        }
    }
}

pub open spec fn spec_parse_join(parts: Seq<Seq<char>>) -> Option<CommandView> {
    if parts.len() < 2 {
        None
    } else {
        let channels = spec_split(parts[1], ',');
        let keys = if parts.len() == 3 {
            Some(spec_split(parts[2], ','))
        } else {
            None
        };
        Some(CommandView::JOIN(channels, keys))
    }
}

pub open spec fn spec_parse_privmsg(parts: Seq<Seq<char>>) -> Option<CommandView> {
    if parts.len() < 3 {
        None
    } else {
        match spec_strip_colon(spec_join(parts.skip(2), ' ')) {
            Some(m) => Some(CommandView::PRIVMSG(spec_split(parts[1], ','), m)),
            None => None,
        }
    }
}

pub open spec fn spec_parse_quit(parts: Seq<Seq<char>>) -> Option<CommandView> {
    if parts.len() >= 2 && parts[1].len() > 0 {
        match spec_strip_colon(spec_join(parts.skip(1), ' ')) {
            Some(m) => Some(CommandView::QUIT(Some(m))),
            None => None,
        }
    } else {
        Some(CommandView::QUIT(None))
    }
}

pub open spec fn spec_parse_user(parts: Seq<Seq<char>>) -> Option<CommandView> {
    if parts.len() < 5 {
        None
    } else {
        match spec_strip_colon(spec_join(parts.skip(4), ' ')) {
            Some(r) => Some(CommandView::USER(parts[1], parts[2], parts[3], r)),
            None => None,
        }
    }
}

/// What parsing the command portion of a line yields: the typed command, or
/// `None` where the line must be rejected as invalid input.
pub open spec fn spec_parse_command(s: Seq<char>) -> Option<CommandView> {
    let parts = spec_split(s, ' ');
    let verb = spec_upper(parts[0]);
    if verb.len() == 0 {
        None
    } else if verb == "DIE"@ {
        Some(CommandView::DIE)
    } else if verb == "JOIN"@ {
        spec_parse_join(parts)
    } else if verb == "MOTD"@ {
        if parts.len() != 1 {
            Some(CommandView::UNIMPLEMENTED(spec_trim(s)))
        } else {
            Some(CommandView::MOTD(None))
        }
    } else if verb == "NICK"@ {
        if parts.len() < 2 {
            None
        } else {
            Some(CommandView::NICK(parts[1]))
        }
    } else if verb == "PING"@ {
        if parts.len() < 2 {
            None
        } else {
            Some(CommandView::PING(parts[1]))
        }
    } else if verb == "PONG"@ {
        if parts.len() < 3 {
            None
        } else {
            Some(CommandView::PONG(parts[1], parts[2]))
        }
    } else if verb == "PRIVMSG"@ {
        spec_parse_privmsg(parts)
    } else if verb == "QUIT"@ {
        spec_parse_quit(parts)
    } else if verb == "REHASH"@ {
        Some(CommandView::REHASH)
    } else if verb == "USER"@ {
        spec_parse_user(parts)
    } else {
        Some(CommandView::UNKNOWN(spec_trim(s)))
    }
}

/// Assembles a parsed message once the `@tags` and `:source` prefixes have
/// been recognized and the remaining text parses as a command.
pub open spec fn spec_message_from(
    tags: Option<Seq<Seq<char>>>,
    source: Option<Seq<char>>,
    rest: Seq<char>,
) -> Option<MessageView> {
    match spec_parse_command(rest) {
        Some(c) => Some(
            MessageView { tags, source, command: c, side: Side::Unknown },
        ),
        None => None,
    }
}

/// What parsing a whole line yields: tags and source are recognized by the
/// leading character of the first two tokens, the rest is the command.
pub open spec fn spec_parse_message(s: Seq<char>) -> Option<MessageView> {
    let parts = spec_split(s, ' ');
    let tag0 = parts[0].len() > 0 && parts[0][0] == '@';
    let src0 = parts[0].len() > 0 && parts[0][0] == ':';
    let src1 = parts.len() >= 2 && parts[1].len() > 0 && parts[1][0] == ':';
    if tag0 && src1 {
        spec_message_from(
            Some(spec_split(parts[0].skip(1), ';')),
            Some(parts[1].skip(1)),
            spec_join(parts.skip(2), ' '),
        )
    } else if tag0 {
        spec_message_from(
            Some(spec_split(parts[0].skip(1), ';')),
            None,
            spec_join(parts.skip(1), ' '),
        )
    } else if src0 && src1 {
        None
    } else if src0 {
        spec_message_from(None, Some(parts[0].skip(1)), spec_join(parts.skip(1), ' '))
    } else {
        spec_message_from(None, None, s)
    }
}

/// Fails with `InvalidInput` when fewer than `len` tokens are present.
pub fn minlength_or_fail(x: &Vec<String>, len: usize) -> (r: Result<(), ParseError>)
    ensures
        r is Ok <==> x@.len() >= len,
{
    if x.len() < len {
        Err(ParseError::InvalidInput)
    } else {
        Ok(())
    }
}

/// Strips one leading `:` from a trailer; empty input, or a lone colon, is
/// invalid.
pub fn strip_colon(a: String) -> (r: Result<String, ParseError>)
    ensures
        match r {
            Ok(t) => spec_strip_colon(a@) == Some(t@),
            Err(_) => spec_strip_colon(a@) is None,
        },
{
    let n = a.as_str().unicode_len();
    if n == 0 {
        return Err(ParseError::InvalidInput);
    }
    let t = if a.as_str().get_char(0) == ':' {
        let r = String::from_str(a.as_str().substring_char(1, n));
        proof {
            assert(a@.subrange(1, n as int) =~= a@.skip(1));
        }
        r
    } else {
        a
    };
    if t.as_str().unicode_len() == 0 {
        Err(ParseError::InvalidInput)
    } else {
        Ok(t)
    }
}

impl Command {
    /// Parses the command portion of a line: the verb and its parameters,
    /// everything after any `@tags` / `:source` prefixes.
    pub fn parse(s: &str) -> (r: Result<Command, ParseError>)
        ensures
            match r {
                Ok(c) => spec_parse_command(s@) == Some(c@),
                Err(_) => spec_parse_command(s@) is None,
            },
    {
        let parts = split_char(s, ' ');
        proof {
            lemma_split_non_empty(s@, ' ');
            assert(parts.deep_view().len() == parts@.len());
        }
        let verb = &parts[0];
        if verb.as_str().unicode_len() == 0 {
            Err(ParseError::InvalidInput)
        } else if verb_matches(verb.as_str(), "DIE") {
            Ok(Command::DIE)
        } else if verb_matches(verb.as_str(), "JOIN") {
            match minlength_or_fail(&parts, 2) {
                Ok(_) => {
                    let channels = split_char(parts[1].as_str(), ',');
                    let keys = if parts.len() == 3 {
                        Some(split_char(parts[2].as_str(), ','))
                    } else {
                        None
                    };
                    Ok(Command::JOIN(channels, keys))
                },
                Err(e) => Err(e),
            }
        } else if verb_matches(verb.as_str(), "MOTD") {
            if parts.len() != 1 {
                Ok(Command::UNIMPLEMENTED(trim_ws(s)))
            } else {
                Ok(Command::MOTD(None))
            }
        } else if verb_matches(verb.as_str(), "NICK") {
            match minlength_or_fail(&parts, 2) {
                Ok(_) => Ok(Command::NICK(parts[1].clone())),
                Err(e) => Err(e),
            }
        } else if verb_matches(verb.as_str(), "PING") {
            match minlength_or_fail(&parts, 2) {
                Ok(_) => Ok(Command::PING(parts[1].clone())),
                Err(e) => Err(e),
            }
        } else if verb_matches(verb.as_str(), "PONG") {
            match minlength_or_fail(&parts, 3) {
                Ok(_) => Ok(Command::PONG(parts[1].clone(), parts[2].clone())),
                Err(e) => Err(e),
            }
        } else if verb_matches(verb.as_str(), "PRIVMSG") {
            match minlength_or_fail(&parts, 3) {
                Ok(_) => {
                    let targets = split_char(parts[1].as_str(), ',');
                    proof {
                        reveal_strlit(" ");
                    }
                    let joined = join_from(&parts, 2, " ");
                    match strip_colon(joined) {
                        Ok(m) => Ok(Command::PRIVMSG(targets, m)),
                        Err(e) => Err(e),
                    }
                },
                Err(e) => Err(e),
            }
        } else if verb_matches(verb.as_str(), "QUIT") {
            if parts.len() >= 2 && parts[1].as_str().unicode_len() > 0 {
                proof {
                    reveal_strlit(" ");
                }
                let joined = join_from(&parts, 1, " ");
                match strip_colon(joined) {
                    Ok(m) => Ok(Command::QUIT(Some(m))),
                    Err(e) => Err(e),
                }
            } else {
                Ok(Command::QUIT(None))
            }
        } else if verb_matches(verb.as_str(), "REHASH") {
            Ok(Command::REHASH)
        } else if verb_matches(verb.as_str(), "USER") {
            match minlength_or_fail(&parts, 5) {
                Ok(_) => {
                    proof {
                        reveal_strlit(" ");
                    }
                    let joined = join_from(&parts, 4, " ");
                    match strip_colon(joined) {
                        Ok(realname) => Ok(
                            Command::USER(
                                parts[1].clone(),
                                parts[2].clone(),
                                parts[3].clone(),
                                realname,
                            ),
                        ),
                        Err(e) => Err(e),
                    }
                },
                Err(e) => Err(e),
            }
        } else {
            Ok(Command::UNKNOWN(trim_ws(s)))
        }
    }
}

impl Message {
    /// Parses a whole line: optional `@tags` and `:source` prefixes followed
    /// by the command. The side of a freshly parsed message is `Unknown`.
    pub fn parse(s: &str) -> (r: Result<Message, ParseError>)
        ensures
            match r {
                Ok(m) => spec_parse_message(s@) == Some(m@),
                Err(_) => spec_parse_message(s@) is None,
            },
    {
        let parts = split_char(s, ' ');
        proof {
            lemma_split_non_empty(s@, ' ');
            assert(parts.deep_view().len() == parts@.len());
        }
        let tag0 = starts_with_char(parts[0].as_str(), '@');
        let src0 = starts_with_char(parts[0].as_str(), ':');
        let src1 = parts.len() >= 2 && starts_with_char(parts[1].as_str(), ':');
        proof {
            reveal_strlit(" ");
        }
        if tag0 && src1 {
            let n0 = parts[0].as_str().unicode_len();
            let tags = split_char(parts[0].as_str().substring_char(1, n0), ';');
            let n1 = parts[1].as_str().unicode_len();
            let source = String::from_str(parts[1].as_str().substring_char(1, n1));
            proof {
                assert(parts.deep_view()[0].subrange(1, n0 as int) =~= parts.deep_view()[0].skip(1));
                assert(parts.deep_view()[1].subrange(1, n1 as int) =~= parts.deep_view()[1].skip(1));
            }
            let rest = join_from(&parts, 2, " ");
            match Command::parse(rest.as_str()) {
                Ok(c) => Ok(
                    Message {
                        tags: Some(tags),
                        source: Some(source),
                        command: c,
                        side: Side::Unknown,
                    },
                ),
                Err(e) => Err(e),
            }
        } else if tag0 {
            let n0 = parts[0].as_str().unicode_len();
            let tags = split_char(parts[0].as_str().substring_char(1, n0), ';');
            proof {
                assert(parts.deep_view()[0].subrange(1, n0 as int) =~= parts.deep_view()[0].skip(1));
            }
            let rest = join_from(&parts, 1, " ");
            match Command::parse(rest.as_str()) {
                Ok(c) => Ok(
                    Message { tags: Some(tags), source: None, command: c, side: Side::Unknown },
                ),
                Err(e) => Err(e),
            }
        } else if src0 && src1 {
            Err(ParseError::InvalidInput)
        } else if src0 {
            let n0 = parts[0].as_str().unicode_len();
            let source = String::from_str(parts[0].as_str().substring_char(1, n0));
            proof {
                assert(parts.deep_view()[0].subrange(1, n0 as int) =~= parts.deep_view()[0].skip(1));
            }
            let rest = join_from(&parts, 1, " ");
            match Command::parse(rest.as_str()) {
                Ok(c) => Ok(
                    Message { tags: None, source: Some(source), command: c, side: Side::Unknown },
                ),
                Err(e) => Err(e),
            }
        } else {
            match Command::parse(s) {
                Ok(c) => Ok(
                    Message { tags: None, source: None, command: c, side: Side::Unknown },
                ),
                Err(e) => Err(e),
            }
        }
    }
}

/// Stripping a colon preserves freedom from a character.
proof fn lemma_strip_colon_free(s: Seq<char>, c: char)
    requires
        !s.contains(c),
    ensures
        spec_strip_colon(s) matches Some(t) ==> !t.contains(c),
{
    if s.len() > 0 && s[0] == ':' {
        lemma_skip_free(s, 1, c);
    }
}

/// A command parsed from a line with no line feed has no line feed in any
/// field: what came off one wire line stays a single line.
pub proof fn lemma_parse_command_clean(s: Seq<char>)
    requires
        crate::message::seq_clean(s),
    ensures
        spec_parse_command(s) matches Some(c) ==> c.clean(),
{
    let parts = spec_split(s, ' ');
    lemma_split_chars(s, ' ', '\n');
    lemma_split_non_empty(s, ' ');
    lemma_trim_free(s, '\n');
    if parts.len() >= 2 {
        lemma_split_chars(parts[1], ',', '\n');
    }
    if parts.len() >= 3 {
        lemma_split_chars(parts[2], ',', '\n');
    }
    assert forall|k: int, i: int| 0 <= k <= parts.len() && 0 <= i < parts.skip(k).len() implies !(
    #[trigger] parts.skip(k)[i]).contains('\n') by {
        assert(parts.skip(k)[i] == parts[i + k]);
    }
    if parts.len() >= 2 {
        lemma_join_chars(parts.skip(1), ' ', '\n');
        lemma_strip_colon_free(spec_join(parts.skip(1), ' '), '\n');
    }
    if parts.len() >= 3 {
        lemma_join_chars(parts.skip(2), ' ', '\n');
        lemma_strip_colon_free(spec_join(parts.skip(2), ' '), '\n');
    }
    if parts.len() >= 5 {
        lemma_join_chars(parts.skip(4), ' ', '\n');
        lemma_strip_colon_free(spec_join(parts.skip(4), ' '), '\n');
    }
}

/// A message parsed from a line with no line feed has no line feed in any
/// field.
pub proof fn lemma_parse_message_clean(s: Seq<char>)
    requires
        crate::message::seq_clean(s),
    ensures
        spec_parse_message(s) matches Some(m) ==> m.clean(),
{
    let parts = spec_split(s, ' ');
    lemma_split_chars(s, ' ', '\n');
    lemma_split_non_empty(s, ' ');
    if parts[0].len() > 0 {
        lemma_skip_free(parts[0], 1, '\n');
        lemma_split_chars(parts[0].skip(1), ';', '\n');
    }
    if parts.len() >= 2 && parts[1].len() > 0 {
        lemma_skip_free(parts[1], 1, '\n');
    }
    assert forall|k: int, i: int| 0 <= k <= parts.len() && 0 <= i < parts.skip(k).len() implies !(
    #[trigger] parts.skip(k)[i]).contains('\n') by {
        assert(parts.skip(k)[i] == parts[i + k]);
    }
    if parts.len() >= 2 {
        lemma_join_chars(parts.skip(1), ' ', '\n');
        lemma_parse_command_clean(spec_join(parts.skip(1), ' '));
    }
    if parts.len() >= 3 {
        lemma_join_chars(parts.skip(2), ' ', '\n');
        lemma_parse_command_clean(spec_join(parts.skip(2), ' '));
    }
    lemma_parse_command_clean(s);
}

} // verus!
