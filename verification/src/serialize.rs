//! Serializing messages back to wire lines. The serializer returns a pure
//! line: the terminating CR LF is appended by the frame layer, never here.

use vstd::prelude::*;

use crate::message::{Command, CommandView, Message, MessageView};
use crate::strutil::{contains_char, join_from, lemma_concat_free, lemma_join_chars, spec_join};

verus! {

/// The wire line of a serializable command: the uppercase verb, comma-joined
/// lists, and a colon-prefixed trailer where the payload is a message.
/// Unserializable variants have no wire form and map to the empty sequence.
pub open spec fn spec_serialize_command(c: CommandView) -> Seq<char> {
    match c {
        CommandView::DIE => "DIE"@,
        CommandView::JOIN(chans, keys) => match keys {
            Some(k) => "JOIN "@ + spec_join(chans, ',') + " "@ + spec_join(k, ','),
            None => "JOIN "@ + spec_join(chans, ','),
        },
        CommandView::MOTD(_) => "MOTD"@,
        CommandView::NICK(n) => "NICK "@ + n,
        CommandView::PING(t) => "PING "@ + t,
        CommandView::PONG(s, t) => "PONG "@ + s + " "@ + t,
        CommandView::PRIVMSG(targets, m) => "PRIVMSG "@ + spec_join(targets, ',') + " :"@ + m,
        CommandView::QUIT(m) => match m {
            Some(x) => "QUIT :"@ + x,
            None => "QUIT"@,
        },
        CommandView::REHASH => "REHASH"@,
        CommandView::USER(u, mo, un, r) => "USER "@ + u + " "@ + mo + " "@ + un + (
            if r.contains(' ') {
                " :"@
            } else {
                " "@
            }) + r,
        CommandView::UNKNOWN(x) => x,
        CommandView::UNIMPLEMENTED(x) => x,
        _ => Seq::<char>::empty(),
    }
}

/// The wire line of a message: `@tags` and `:source` prefixes, where present,
/// followed by the serialized command.
pub open spec fn spec_serialize_message(m: MessageView) -> Seq<char> {
    let cmd = spec_serialize_command(m.command);
    match (m.tags, m.source) {
        (None, None) => cmd,
        (None, Some(src)) => ":"@ + src + " "@ + cmd,
        (Some(tags), None) => "@"@ + spec_join(tags, ';') + " "@ + cmd,
        (Some(tags), Some(src)) => "@"@ + spec_join(tags, ';') + " :"@ + src + " "@ + cmd,
    }
}

impl Command {
    /// The command's wire line, without CR LF. Only commands the relay emits
    /// have a wire form.
    pub fn to_string(&self) -> (r: String)
        requires
            self@.serializable(),
        ensures
            r@ == spec_serialize_command(self@),
    {
        proof {
            reveal_strlit(",");
        }
        match self {
            Command::DIE => String::from_str("DIE"),
            Command::JOIN(chans, keys) => {
                let mut out = String::from_str("JOIN ");
                proof {
                    assert(chans.deep_view().skip(0) =~= chans.deep_view());
                }
                out.append(join_from(chans, 0, ",").as_str());
                match keys {
                    Some(k) => {
                        proof {
                            assert(k.deep_view().skip(0) =~= k.deep_view());
                        }
                        out.append(" ");
                        out.append(join_from(k, 0, ",").as_str());
                        out
                    },
                    None => out,
                }
            },
            Command::MOTD(_) => String::from_str("MOTD"),
            Command::NICK(n) => {
                let mut out = String::from_str("NICK ");
                out.append(n.as_str());
                out
            },
            Command::PING(t) => {
                let mut out = String::from_str("PING ");
                out.append(t.as_str());
                out
            },
            Command::PONG(s, t) => {
                let mut out = String::from_str("PONG ");
                out.append(s.as_str());
                out.append(" ");
                out.append(t.as_str());
                out
            },
            Command::PRIVMSG(targets, m) => {
                let mut out = String::from_str("PRIVMSG ");
                proof {
                    assert(targets.deep_view().skip(0) =~= targets.deep_view());
                }
                out.append(join_from(targets, 0, ",").as_str());
                out.append(" :");
                out.append(m.as_str());
                out
            },
            Command::QUIT(m) => match m {
                Some(x) => {
                    let mut out = String::from_str("QUIT :");
                    out.append(x.as_str());
                    out
                },
                None => String::from_str("QUIT"),
            },
            Command::REHASH => String::from_str("REHASH"),
            Command::USER(u, mo, un, r) => {
                let mut out = String::from_str("USER ");
                out.append(u.as_str());
                out.append(" ");
                out.append(mo.as_str());
                out.append(" ");
                out.append(un.as_str());
                if contains_char(r.as_str(), ' ') {
                    out.append(" :");
                } else {
                    out.append(" ");
                }
                out.append(r.as_str());
                out
            },
            Command::UNKNOWN(x) => x.clone(),
            Command::UNIMPLEMENTED(x) => x.clone(),
            _ => {
                proof {
                    assert(false);
                }
                String::new()
            },
        }
    }
}

impl Message {
    /// The message's wire line, without CR LF: prefixes followed by the
    /// command. The side is provenance metadata and is not serialized.
    pub fn to_string(&self) -> (r: String)
        requires
            self@.command.serializable(),
        ensures
            r@ == spec_serialize_message(self@),
    {
        proof {
            reveal_strlit(";");
        }
        let cmd = self.command.to_string();
        match (&self.tags, &self.source) {
            (None, None) => cmd,
            (None, Some(src)) => {
                let mut out = String::from_str(":");
                out.append(src.as_str());
                out.append(" ");
                out.append(cmd.as_str());
                out
            },
            (Some(tags), None) => {
                let mut out = String::from_str("@");
                proof {
                    assert(tags.deep_view().skip(0) =~= tags.deep_view());
                }
                out.append(join_from(tags, 0, ";").as_str());
                out.append(" ");
                out.append(cmd.as_str());
                out
            },
            (Some(tags), Some(src)) => {
                let mut out = String::from_str("@");
                proof {
                    assert(tags.deep_view().skip(0) =~= tags.deep_view());
                }
                out.append(join_from(tags, 0, ";").as_str());
                out.append(" :");
                out.append(src.as_str());
                out.append(" ");
                out.append(cmd.as_str());
                out
            },
        }
    }
}

/// A frame body built from a clean message is clean: serialization of a
/// message with no line feed in any field yields a line with no line feed.
pub proof fn lemma_serialize_command_clean(c: CommandView)
    requires
        c.clean(),
    ensures
        crate::message::seq_clean(spec_serialize_command(c)),
{
    reveal_strlit("DIE");
    reveal_strlit("JOIN ");
    reveal_strlit("MOTD");
    reveal_strlit("NICK ");
    reveal_strlit("PING ");
    reveal_strlit("PONG ");
    reveal_strlit("PRIVMSG ");
    reveal_strlit("QUIT");
    reveal_strlit("QUIT :");
    reveal_strlit("REHASH");
    reveal_strlit("USER ");
    reveal_strlit(" ");
    reveal_strlit(" :");
    let nl = '\n';
    match c {
        CommandView::JOIN(chans, keys) => {
            lemma_join_chars(chans, ',', nl);
            lemma_concat_free("JOIN "@, spec_join(chans, ','), nl);
            match keys {
                Some(k) => {
                    lemma_join_chars(k, ',', nl);
                    lemma_concat_free("JOIN "@ + spec_join(chans, ','), " "@, nl);
                    lemma_concat_free("JOIN "@ + spec_join(chans, ',') + " "@, spec_join(k, ','), nl);
                },
                None => {},
            }
        },
        CommandView::NICK(n) => {
            lemma_concat_free("NICK "@, n, nl);
        },
        CommandView::PING(t) => {
            lemma_concat_free("PING "@, t, nl);
        },
        CommandView::PONG(s, t) => {
            lemma_concat_free("PONG "@, s, nl);
            lemma_concat_free("PONG "@ + s, " "@, nl);
            lemma_concat_free("PONG "@ + s + " "@, t, nl);
        },
        CommandView::PRIVMSG(targets, m) => {
            lemma_join_chars(targets, ',', nl);
            lemma_concat_free("PRIVMSG "@, spec_join(targets, ','), nl);
            lemma_concat_free("PRIVMSG "@ + spec_join(targets, ','), " :"@, nl);
            lemma_concat_free("PRIVMSG "@ + spec_join(targets, ',') + " :"@, m, nl);
        },
        CommandView::QUIT(m) => {
            match m {
                Some(x) => {
                    lemma_concat_free("QUIT :"@, x, nl);
                },
                None => {},
            }
        },
        CommandView::USER(u, mo, un, r) => {
            lemma_concat_free("USER "@, u, nl);
            lemma_concat_free("USER "@ + u, " "@, nl);
            lemma_concat_free("USER "@ + u + " "@, mo, nl);
            lemma_concat_free("USER "@ + u + " "@ + mo, " "@, nl);
            lemma_concat_free("USER "@ + u + " "@ + mo + " "@, un, nl);
            let head = "USER "@ + u + " "@ + mo + " "@ + un;
            if r.contains(' ') {
                lemma_concat_free(head, " :"@, nl);
                lemma_concat_free(head + " :"@, r, nl);
            } else {
                lemma_concat_free(head, " "@, nl);
                lemma_concat_free(head + " "@, r, nl);
            }
        },
        _ => {},
    }
}

/// Serialization of a clean message yields a clean line.
pub proof fn lemma_serialize_message_clean(m: MessageView)
    requires
        m.clean(),
    ensures
        crate::message::seq_clean(spec_serialize_message(m)),
{
    reveal_strlit(":");
    reveal_strlit("@");
    reveal_strlit(" ");
    reveal_strlit(" :");
    let nl = '\n';
    lemma_serialize_command_clean(m.command);
    let cmd = spec_serialize_command(m.command);
    match (m.tags, m.source) {
        (None, None) => {},
        (None, Some(src)) => {
            lemma_concat_free(":"@, src, nl);
            lemma_concat_free(":"@ + src, " "@, nl);
            lemma_concat_free(":"@ + src + " "@, cmd, nl);
        },
        (Some(tags), None) => {
            lemma_join_chars(tags, ';', nl);
            lemma_concat_free("@"@, spec_join(tags, ';'), nl);
            lemma_concat_free("@"@ + spec_join(tags, ';'), " "@, nl);
            lemma_concat_free("@"@ + spec_join(tags, ';') + " "@, cmd, nl);
        },
        (Some(tags), Some(src)) => {
            lemma_join_chars(tags, ';', nl);
            lemma_concat_free("@"@, spec_join(tags, ';'), nl);
            lemma_concat_free("@"@ + spec_join(tags, ';'), " :"@, nl);
            lemma_concat_free("@"@ + spec_join(tags, ';') + " :"@, src, nl);
            lemma_concat_free("@"@ + spec_join(tags, ';') + " :"@ + src, " "@, nl);
            lemma_concat_free("@"@ + spec_join(tags, ';') + " :"@ + src + " "@, cmd, nl);
        },
    }
}

} // verus!
