//! The typed message model: a command variant, optional tags and source, and
//! the provenance side, together with the mathematical views the contracts
//! are stated over.

use vstd::prelude::*;

verus! {

/// Provenance of a message: which side of the connection produced it.
#[derive(Debug, PartialEq, Eq, Clone, Copy)]
pub enum Side {
    Client,
    Server,
    Unknown,
}

/// A protocol command with its payload. List-valued parameters are
/// comma-separated on the wire; a final "message" parameter is a trailer.
#[allow(non_camel_case_types)]
#[derive(Debug, PartialEq, Eq, Clone)]
pub enum Command {
    ADMIN(Option<String>),
    AWAY(Option<String>),
    CONNECT(String, String, String),
    DIE,
    ENCAP(String, String, Vec<String>),
    ERROR(String),
    HELP,
    INFO(Option<String>),
    INVITE(String, String),
    JOIN(Vec<String>, Option<Vec<String>>),
    KICK(String, String, Option<String>),
    KILL(String, String),
    KNOCK(String, Option<String>),
    LINKS(Option<String>, Option<String>),
    LIST(Option<Vec<String>>, Option<String>),
    LUSERS(Option<String>, Option<String>),
    MODE(String, Option<String>, Option<Vec<String>>),
    MOTD(Option<String>),
    NAMES(Option<Vec<String>>),
    NICK(String),
    NOTICE(Vec<String>, String),
    OPER(String, String),
    PART(Vec<String>, String),
    PASS(String),
    PING(String),
    PONG(String, String),
    PRIVMSG(Vec<String>, String),
    QUIT(Option<String>),
    REHASH,
    SQUIT(Option<String>, String),
    STATS(String, Option<String>),
    TIME(Option<String>),
    TOPIC(String, Option<String>),
    TRACE(Option<String>),
    USER(String, String, String, String),
    USERHOST(Vec<String>),
    USERIP(String),
    USERS(Option<String>),
    VERSION(Option<String>),
    WALLOPS(String),
    WHO(String),
    WHOIS(Option<String>, String),
    /// A grammatically well-formed line whose verb is not recognized.
    UNKNOWN(String),
    /// A recognized verb in a shape the relay does not support.
    UNIMPLEMENTED(String),
}

/// The mathematical value of a `Command`: the same variants over character
/// sequences.
#[allow(non_camel_case_types)]
pub enum CommandView {
    ADMIN(Option<Seq<char>>),
    AWAY(Option<Seq<char>>),
    CONNECT(Seq<char>, Seq<char>, Seq<char>),
    DIE,
    ENCAP(Seq<char>, Seq<char>, Seq<Seq<char>>),
    ERROR(Seq<char>),
    HELP,
    INFO(Option<Seq<char>>),
    INVITE(Seq<char>, Seq<char>),
    JOIN(Seq<Seq<char>>, Option<Seq<Seq<char>>>),
    KICK(Seq<char>, Seq<char>, Option<Seq<char>>),
    KILL(Seq<char>, Seq<char>),
    KNOCK(Seq<char>, Option<Seq<char>>),
    LINKS(Option<Seq<char>>, Option<Seq<char>>),
    LIST(Option<Seq<Seq<char>>>, Option<Seq<char>>),
    LUSERS(Option<Seq<char>>, Option<Seq<char>>),
    MODE(Seq<char>, Option<Seq<char>>, Option<Seq<Seq<char>>>),
    MOTD(Option<Seq<char>>),
    NAMES(Option<Seq<Seq<char>>>),
    NICK(Seq<char>),
    NOTICE(Seq<Seq<char>>, Seq<char>),
    OPER(Seq<char>, Seq<char>),
    PART(Seq<Seq<char>>, Seq<char>),
    PASS(Seq<char>),
    PING(Seq<char>),
    PONG(Seq<char>, Seq<char>),
    PRIVMSG(Seq<Seq<char>>, Seq<char>),
    QUIT(Option<Seq<char>>),
    REHASH,
    SQUIT(Option<Seq<char>>, Seq<char>),
    STATS(Seq<char>, Option<Seq<char>>),
    TIME(Option<Seq<char>>),
    TOPIC(Seq<char>, Option<Seq<char>>),
    TRACE(Option<Seq<char>>),
    USER(Seq<char>, Seq<char>, Seq<char>, Seq<char>),
    USERHOST(Seq<Seq<char>>),
    USERIP(Seq<char>),
    USERS(Option<Seq<char>>),
    VERSION(Option<Seq<char>>),
    WALLOPS(Seq<char>),
    WHO(Seq<char>),
    WHOIS(Option<Seq<char>>, Seq<char>),
    UNKNOWN(Seq<char>),
    UNIMPLEMENTED(Seq<char>),
}

impl View for Command {
    type V = CommandView;

    open spec fn view(&self) -> CommandView {
        match self {
            Command::ADMIN(a) => CommandView::ADMIN(a.deep_view()),
            Command::AWAY(a) => CommandView::AWAY(a.deep_view()),
            Command::CONNECT(a, b, c) => CommandView::CONNECT(a@, b@, c@),
            Command::DIE => CommandView::DIE,
            Command::ENCAP(a, b, c) => CommandView::ENCAP(a@, b@, c.deep_view()),
            Command::ERROR(a) => CommandView::ERROR(a@),
            Command::HELP => CommandView::HELP,
            Command::INFO(a) => CommandView::INFO(a.deep_view()),
            Command::INVITE(a, b) => CommandView::INVITE(a@, b@),
            Command::JOIN(a, b) => CommandView::JOIN(a.deep_view(), b.deep_view()),
            Command::KICK(a, b, c) => CommandView::KICK(a@, b@, c.deep_view()),
            Command::KILL(a, b) => CommandView::KILL(a@, b@),
            Command::KNOCK(a, b) => CommandView::KNOCK(a@, b.deep_view()),
            Command::LINKS(a, b) => CommandView::LINKS(a.deep_view(), b.deep_view()),
            Command::LIST(a, b) => CommandView::LIST(a.deep_view(), b.deep_view()),
            Command::LUSERS(a, b) => CommandView::LUSERS(a.deep_view(), b.deep_view()),
            Command::MODE(a, b, c) => CommandView::MODE(a@, b.deep_view(), c.deep_view()),
            Command::MOTD(a) => CommandView::MOTD(a.deep_view()),
            Command::NAMES(a) => CommandView::NAMES(a.deep_view()),
            Command::NICK(a) => CommandView::NICK(a@),
            Command::NOTICE(a, b) => CommandView::NOTICE(a.deep_view(), b@),
            Command::OPER(a, b) => CommandView::OPER(a@, b@),
            Command::PART(a, b) => CommandView::PART(a.deep_view(), b@),
            Command::PASS(a) => CommandView::PASS(a@),
            Command::PING(a) => CommandView::PING(a@),
            Command::PONG(a, b) => CommandView::PONG(a@, b@),
            Command::PRIVMSG(a, b) => CommandView::PRIVMSG(a.deep_view(), b@),
            Command::QUIT(a) => CommandView::QUIT(a.deep_view()),
            Command::REHASH => CommandView::REHASH,
            Command::SQUIT(a, b) => CommandView::SQUIT(a.deep_view(), b@),
            Command::STATS(a, b) => CommandView::STATS(a@, b.deep_view()),
            Command::TIME(a) => CommandView::TIME(a.deep_view()),
            Command::TOPIC(a, b) => CommandView::TOPIC(a@, b.deep_view()),
            Command::TRACE(a) => CommandView::TRACE(a.deep_view()),
            Command::USER(a, b, c, d) => CommandView::USER(a@, b@, c@, d@),
            Command::USERHOST(a) => CommandView::USERHOST(a.deep_view()),
            Command::USERIP(a) => CommandView::USERIP(a@),
            Command::USERS(a) => CommandView::USERS(a.deep_view()),
            Command::VERSION(a) => CommandView::VERSION(a.deep_view()),
            Command::WALLOPS(a) => CommandView::WALLOPS(a@),
            Command::WHO(a) => CommandView::WHO(a@),
            Command::WHOIS(a, b) => CommandView::WHOIS(a.deep_view(), b@),
            Command::UNKNOWN(a) => CommandView::UNKNOWN(a@),
            Command::UNIMPLEMENTED(a) => CommandView::UNIMPLEMENTED(a@),
        }
    }
}

/// A character sequence that can stand inside a single wire frame: it holds
/// no line feed.
pub open spec fn seq_clean(s: Seq<char>) -> bool {
    !s.contains('\n')
}

pub open spec fn opt_clean(s: Option<Seq<char>>) -> bool {
    match s {
        Some(x) => seq_clean(x),
        None => true,
    }
}

pub open spec fn list_clean(l: Seq<Seq<char>>) -> bool {
    forall|i: int| 0 <= i < l.len() ==> seq_clean(#[trigger] l[i])
}

pub open spec fn opt_list_clean(l: Option<Seq<Seq<char>>>) -> bool {
    match l {
        Some(x) => list_clean(x),
        None => true,
    }
}

impl CommandView {
    /// No field of the command holds a line feed.
    pub open spec fn clean(self) -> bool {
        match self {
            CommandView::ADMIN(a) => opt_clean(a),
            CommandView::AWAY(a) => opt_clean(a),
            CommandView::CONNECT(a, b, c) => seq_clean(a) && seq_clean(b) && seq_clean(c),
            CommandView::DIE => true,
            CommandView::ENCAP(a, b, c) => seq_clean(a) && seq_clean(b) && list_clean(c),
            CommandView::ERROR(a) => seq_clean(a),
            CommandView::HELP => true,
            CommandView::INFO(a) => opt_clean(a),
            CommandView::INVITE(a, b) => seq_clean(a) && seq_clean(b),
            CommandView::JOIN(a, b) => list_clean(a) && opt_list_clean(b),
            CommandView::KICK(a, b, c) => seq_clean(a) && seq_clean(b) && opt_clean(c),
            CommandView::KILL(a, b) => seq_clean(a) && seq_clean(b),
            CommandView::KNOCK(a, b) => seq_clean(a) && opt_clean(b),
            CommandView::LINKS(a, b) => opt_clean(a) && opt_clean(b),
            CommandView::LIST(a, b) => opt_list_clean(a) && opt_clean(b),
            CommandView::LUSERS(a, b) => opt_clean(a) && opt_clean(b),
            CommandView::MODE(a, b, c) => seq_clean(a) && opt_clean(b) && opt_list_clean(c),
            CommandView::MOTD(a) => opt_clean(a),
            CommandView::NAMES(a) => opt_list_clean(a),
            CommandView::NICK(a) => seq_clean(a),
            CommandView::NOTICE(a, b) => list_clean(a) && seq_clean(b),
            CommandView::OPER(a, b) => seq_clean(a) && seq_clean(b),
            CommandView::PART(a, b) => list_clean(a) && seq_clean(b),
            CommandView::PASS(a) => seq_clean(a),
            CommandView::PING(a) => seq_clean(a),
            CommandView::PONG(a, b) => seq_clean(a) && seq_clean(b),
            CommandView::PRIVMSG(a, b) => list_clean(a) && seq_clean(b),
            CommandView::QUIT(a) => opt_clean(a),
            CommandView::REHASH => true,
            CommandView::SQUIT(a, b) => opt_clean(a) && seq_clean(b),
            CommandView::STATS(a, b) => seq_clean(a) && opt_clean(b),
            CommandView::TIME(a) => opt_clean(a),
            CommandView::TOPIC(a, b) => seq_clean(a) && opt_clean(b),
            CommandView::TRACE(a) => opt_clean(a),
            CommandView::USER(a, b, c, d) => seq_clean(a) && seq_clean(b) && seq_clean(c)
                && seq_clean(d),
            CommandView::USERHOST(a) => list_clean(a),
            CommandView::USERIP(a) => seq_clean(a),
            CommandView::USERS(a) => opt_clean(a),
            CommandView::VERSION(a) => opt_clean(a),
            CommandView::WALLOPS(a) => seq_clean(a),
            CommandView::WHO(a) => seq_clean(a),
            CommandView::WHOIS(a, b) => opt_clean(a) && seq_clean(b),
            CommandView::UNKNOWN(a) => seq_clean(a),
            CommandView::UNIMPLEMENTED(a) => seq_clean(a),
        }
    }

    /// The command has a serialized wire form. The relay only ever emits
    /// these variants.
    pub open spec fn serializable(self) -> bool {
        match self {
            CommandView::DIE => true,
            CommandView::JOIN(_, _) => true,
            CommandView::MOTD(s) => s is None,
            CommandView::NICK(_) => true,
            CommandView::PING(_) => true,
            CommandView::PONG(_, _) => true,
            CommandView::PRIVMSG(_, _) => true,
            CommandView::QUIT(_) => true,
            CommandView::REHASH => true,
            CommandView::USER(_, _, _, _) => true,
            CommandView::UNKNOWN(_) => true,
            CommandView::UNIMPLEMENTED(_) => true,
            _ => false,
        }
    }
}

/// A single token on the wire: no embedded space.
pub open spec fn tok_wf(s: Seq<char>) -> bool {
    !s.contains(' ')
}

/// A comma-joined list parameter: non-empty, each item free of space and
/// comma.
pub open spec fn list_wf(l: Seq<Seq<char>>) -> bool {
    l.len() >= 1 && forall|i: int| 0 <= i < l.len() ==> tok_wf(#[trigger] l[i]) && !l[i].contains(
        ',',
    )
}

impl CommandView {
    /// The command's serialized form parses back to the command itself: the
    /// canonical wire shape of the recognized verbs.
    pub open spec fn wf_wire(self) -> bool {
        match self {
            CommandView::DIE => true,
            CommandView::REHASH => true,
            CommandView::MOTD(s) => s is None,
            CommandView::NICK(n) => tok_wf(n),
            CommandView::PING(t) => tok_wf(t),
            CommandView::PONG(s, t) => tok_wf(s) && tok_wf(t),
            CommandView::JOIN(chans, keys) => list_wf(chans) && match keys {
                Some(k) => list_wf(k),
                None => true,
            },
            CommandView::PRIVMSG(targets, m) => list_wf(targets) && m.len() > 0,
            CommandView::QUIT(m) => match m {
                Some(x) => x.len() > 0,
                None => true,
            },
            CommandView::USER(u, mo, un, r) => tok_wf(u) && tok_wf(mo) && tok_wf(un) && r.len() > 0
                && (r.contains(' ') || r[0] != ':'),
            _ => false,
        }
    }
}

/// A `@tags` prefix in canonical wire shape: at least one tag, none holding
/// a space or the `;` delimiter.
pub open spec fn tags_wf(t: Seq<Seq<char>>) -> bool {
    t.len() >= 1 && forall|i: int| 0 <= i < t.len() ==> tok_wf(#[trigger] t[i]) && !t[i].contains(
        ';',
    )
}

/// A parsed line: optional tags, optional source, the command, and the
/// provenance side (never taken from the wire).
#[derive(Debug, PartialEq, Eq, Clone)]
pub struct Message {
    pub tags: Option<Vec<String>>,
    pub source: Option<String>,
    pub command: Command,
    pub side: Side,
}

/// The mathematical value of a `Message`.
pub struct MessageView {
    pub tags: Option<Seq<Seq<char>>>,
    pub source: Option<Seq<char>>,
    pub command: CommandView,
    pub side: Side,
}

impl View for Message {
    type V = MessageView;

    open spec fn view(&self) -> MessageView {
        MessageView {
            tags: self.tags.deep_view(),
            source: self.source.deep_view(),
            command: self.command@,
            side: self.side,
        }
    }
}

impl MessageView {
    /// No field of the message holds a line feed.
    pub open spec fn clean(self) -> bool {
        opt_list_clean(self.tags) && opt_clean(self.source) && self.command.clean()
    }

    /// The message's serialized form parses back to the message itself:
    /// canonical command shape with canonical prefixes.
    pub open spec fn wf_wire(self) -> bool {
        self.command.wf_wire() && (self.tags matches Some(t) ==> tags_wf(t)) && (
        self.source matches Some(s) ==> tok_wf(s))
    }
}

fn string_clean(s: &String) -> (r: bool)
    ensures
        r == seq_clean(s@),
{
    !crate::strutil::contains_char(s.as_str(), '\n')
}

fn opt_string_clean(o: &Option<String>) -> (r: bool)
    ensures
        r == opt_clean(o.deep_view()),
{
    match o {
        Some(s) => string_clean(s),
        None => true,
    }
}

fn vec_clean(v: &Vec<String>) -> (r: bool)
    ensures
        r == list_clean(v.deep_view()),
{
    let mut i: usize = 0;
    while i < v.len()
        invariant
            i <= v@.len(),
            forall|k: int| 0 <= k < i ==> seq_clean(#[trigger] v.deep_view()[k]),
        decreases v@.len() - i,
    {
        if !string_clean(&v[i]) {
            proof {
                assert(!seq_clean(v.deep_view()[i as int]));
            }
            return false;
        }
        i += 1;
    }
    true
}

fn opt_vec_clean(o: &Option<Vec<String>>) -> (r: bool)
    ensures
        r == opt_list_clean(o.deep_view()),
{
    match o {
        Some(v) => vec_clean(v),
        None => true,
    }
}

impl Command {
    /// Whether every field is free of line feeds, so that a frame built from
    /// this command stays a single line.
    pub fn is_clean(&self) -> (r: bool)
        ensures
            r == self@.clean(),
    {
        match self {
            Command::ADMIN(a) => opt_string_clean(a),
            Command::AWAY(a) => opt_string_clean(a),
            Command::CONNECT(a, b, c) => string_clean(a) && string_clean(b) && string_clean(c),
            Command::DIE => true,
            Command::ENCAP(a, b, c) => string_clean(a) && string_clean(b) && vec_clean(c),
            Command::ERROR(a) => string_clean(a),
            Command::HELP => true,
            Command::INFO(a) => opt_string_clean(a),
            Command::INVITE(a, b) => string_clean(a) && string_clean(b),
            Command::JOIN(a, b) => vec_clean(a) && opt_vec_clean(b),
            Command::KICK(a, b, c) => string_clean(a) && string_clean(b) && opt_string_clean(c),
            Command::KILL(a, b) => string_clean(a) && string_clean(b),
            Command::KNOCK(a, b) => string_clean(a) && opt_string_clean(b),
            Command::LINKS(a, b) => opt_string_clean(a) && opt_string_clean(b),
            Command::LIST(a, b) => opt_vec_clean(a) && opt_string_clean(b),
            Command::LUSERS(a, b) => opt_string_clean(a) && opt_string_clean(b),
            Command::MODE(a, b, c) => string_clean(a) && opt_string_clean(b) && opt_vec_clean(c),
            Command::MOTD(a) => opt_string_clean(a),
            Command::NAMES(a) => opt_vec_clean(a),
            Command::NICK(a) => string_clean(a),
            Command::NOTICE(a, b) => vec_clean(a) && string_clean(b),
            Command::OPER(a, b) => string_clean(a) && string_clean(b),
            Command::PART(a, b) => vec_clean(a) && string_clean(b),
            Command::PASS(a) => string_clean(a),
            Command::PING(a) => string_clean(a),
            Command::PONG(a, b) => string_clean(a) && string_clean(b),
            Command::PRIVMSG(a, b) => vec_clean(a) && string_clean(b),
            Command::QUIT(a) => opt_string_clean(a),
            Command::REHASH => true,
            Command::SQUIT(a, b) => opt_string_clean(a) && string_clean(b),
            Command::STATS(a, b) => string_clean(a) && opt_string_clean(b),
            Command::TIME(a) => opt_string_clean(a),
            Command::TOPIC(a, b) => string_clean(a) && opt_string_clean(b),
            Command::TRACE(a) => opt_string_clean(a),
            Command::USER(a, b, c, d) => string_clean(a) && string_clean(b) && string_clean(c)
                && string_clean(d),
            Command::USERHOST(a) => vec_clean(a),
            Command::USERIP(a) => string_clean(a),
            Command::USERS(a) => opt_string_clean(a),
            Command::VERSION(a) => opt_string_clean(a),
            Command::WALLOPS(a) => string_clean(a),
            Command::WHO(a) => string_clean(a),
            Command::WHOIS(a, b) => opt_string_clean(a) && string_clean(b),
            Command::UNKNOWN(a) => string_clean(a),
            Command::UNIMPLEMENTED(a) => string_clean(a),
        }
    }
}

impl Message {
    /// Whether every field is free of line feeds.
    pub fn is_clean(&self) -> (r: bool)
        ensures
            r == self@.clean(),
    {
        opt_vec_clean(&self.tags) && opt_string_clean(&self.source) && self.command.is_clean()
    }
}

} // verus!
