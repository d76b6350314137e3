//! The round-trip laws of the codec: a serializable command in canonical
//! wire shape parses back from its own serialization, and hence every line
//! the relay emits re-parses to the value it was emitted from.

use vstd::prelude::*;

use crate::message::{CommandView, MessageView, Side, list_wf, tok_wf};
use crate::parse::{
    spec_parse_command, spec_parse_message, spec_strip_colon,
};
use crate::serialize::{spec_serialize_command, spec_serialize_message};
use crate::strutil::{
    lemma_join_chars, lemma_join_split, lemma_split_join, lemma_split_non_empty,
    lemma_split_prepend_token, lemma_split_whole, spec_join, spec_split, spec_upper, upper_char,
};

verus! {

/// The first part of a split begins with the first character of the input,
/// when that character is not the separator.
proof fn lemma_split_first_char(s: Seq<char>, sep: char)
    requires
        s.len() > 0,
        s[0] != sep,
    ensures
        spec_split(s, sep)[0].len() > 0,
        spec_split(s, sep)[0][0] == s[0],
{
    lemma_split_non_empty(s.skip(1), sep);
}

/// Uppercasing fixes a sequence with no lowercase ASCII letter.
proof fn lemma_upper_fixed(v: Seq<char>)
    requires
        forall|i: int| 0 <= i < v.len() ==> !('a' <= #[trigger] v[i] && v[i] <= 'z'),
    ensures
        spec_upper(v) == v,
{
    assert forall|i: int| 0 <= i < v.len() implies spec_upper(v)[i] == v[i] by {
        assert(upper_char(v[i]) == v[i]);
    }
    assert(spec_upper(v) =~= v);
}

proof fn round_trip_nick(c: CommandView)
    requires
        c matches CommandView::NICK(n) && tok_wf(n),
    ensures
        spec_parse_command(spec_serialize_command(c)) == Some(c),
{
    let n = c->NICK_0;
    let s = spec_serialize_command(c);
    reveal_strlit("NICK ");
    reveal_strlit("NICK");
    assert("NICK "@ =~= "NICK"@ + seq![' ']);
    assert(s =~= "NICK"@ + seq![' '] + n);
    assert(!"NICK"@.contains(' '));
    lemma_split_prepend_token("NICK"@, n, ' ');
    let parts = spec_split(s, ' ');
    assert(parts == seq!["NICK"@] + spec_split(n, ' '));
    assert(parts[0] == "NICK"@);
    lemma_upper_fixed("NICK"@);
    reveal_strlit("DIE");
    reveal_strlit("JOIN");
    reveal_strlit("MOTD");
    lemma_split_whole(n, ' ');
    assert(parts[1] == n);
    assert(spec_parse_command(s) == Some(c));
}

proof fn round_trip_ping(c: CommandView)
    requires
        c matches CommandView::PING(t) && tok_wf(t),
    ensures
        spec_parse_command(spec_serialize_command(c)) == Some(c),
{
    let t = c->PING_0;
    let s = spec_serialize_command(c);
    reveal_strlit("PING ");
    reveal_strlit("PING");
    assert("PING "@ =~= "PING"@ + seq![' ']);
    assert(s =~= "PING"@ + seq![' '] + t);
    assert(!"PING"@.contains(' '));
    lemma_split_prepend_token("PING"@, t, ' ');
    let parts = spec_split(s, ' ');
    assert(parts[0] == "PING"@);
    lemma_upper_fixed("PING"@);
    reveal_strlit("DIE");
    reveal_strlit("JOIN");
    reveal_strlit("MOTD");
    reveal_strlit("NICK");
    lemma_split_whole(t, ' ');
    assert(parts[1] == t);
    assert(spec_parse_command(s) == Some(c));
}

proof fn round_trip_pong(c: CommandView)
    requires
        c matches CommandView::PONG(sv, t) && tok_wf(sv) && tok_wf(t),
    ensures
        spec_parse_command(spec_serialize_command(c)) == Some(c),
{
    let sv = c->PONG_0;
    let t = c->PONG_1;
    let s = spec_serialize_command(c);
    reveal_strlit("PONG ");
    reveal_strlit("PONG");
    reveal_strlit(" ");
    assert("PONG "@ =~= "PONG"@ + seq![' ']);
    assert(s =~= "PONG"@ + seq![' '] + (sv + seq![' '] + t));
    assert(!"PONG"@.contains(' '));
    lemma_split_prepend_token("PONG"@, sv + seq![' '] + t, ' ');
    lemma_split_prepend_token(sv, t, ' ');
    lemma_split_whole(t, ' ');
    let parts = spec_split(s, ' ');
    assert(parts == seq!["PONG"@] + (seq![sv] + seq![t]));
    assert(parts[0] == "PONG"@);
    assert(parts[1] == sv);
    assert(parts[2] == t);
    assert(parts.len() == 3);
    lemma_upper_fixed("PONG"@);
    reveal_strlit("DIE");
    reveal_strlit("JOIN");
    reveal_strlit("MOTD");
    reveal_strlit("NICK");
    reveal_strlit("PING");
    assert("PONG"@ != "PING"@) by {
        assert("PONG"@[1] != "PING"@[1]);
    }
    assert(spec_parse_command(s) == Some(c));
}

proof fn round_trip_verbless(c: CommandView)
    requires
        c matches CommandView::DIE || c matches CommandView::REHASH || (
        c matches CommandView::MOTD(x) && x is None),
    ensures
        spec_parse_command(spec_serialize_command(c)) == Some(c),
{
    let s = spec_serialize_command(c);
    reveal_strlit("DIE");
    reveal_strlit("REHASH");
    reveal_strlit("MOTD");
    reveal_strlit("JOIN");
    reveal_strlit("NICK");
    reveal_strlit("PING");
    reveal_strlit("PONG");
    reveal_strlit("PRIVMSG");
    reveal_strlit("QUIT");
    reveal_strlit("USER");
    assert(!s.contains(' '));
    lemma_split_whole(s, ' ');
    let parts = spec_split(s, ' ');
    assert(parts == seq![s]);
    assert(parts.len() == 1);
    lemma_upper_fixed(s);
    assert(spec_parse_command(s) == Some(c));
}

proof fn round_trip_join(c: CommandView)
    requires
        c matches CommandView::JOIN(chans, keys) && list_wf(chans) && (keys matches Some(k)
            ==> list_wf(k)),
    ensures
        spec_parse_command(spec_serialize_command(c)) == Some(c),
{
    let chans = c->JOIN_0;
    let keys = c->JOIN_1;
    let s = spec_serialize_command(c);
    reveal_strlit("JOIN ");
    reveal_strlit("JOIN");
    reveal_strlit(" ");
    assert("JOIN "@ =~= "JOIN"@ + seq![' ']);
    assert(!"JOIN"@.contains(' '));
    let jc = spec_join(chans, ',');
    lemma_join_chars(chans, ',', ' ');
    lemma_split_join(chans, ',');
    let parts = spec_split(s, ' ');
    match keys {
        None => {
            assert(s =~= "JOIN"@ + seq![' '] + jc);
            lemma_split_prepend_token("JOIN"@, jc, ' ');
            lemma_split_whole(jc, ' ');
            assert(parts == seq!["JOIN"@] + seq![jc]);
            assert(parts.len() == 2);
            assert(parts[0] == "JOIN"@);
            assert(parts[1] == jc);
        },
        Some(k) => {
            let jk = spec_join(k, ',');
            lemma_join_chars(k, ',', ' ');
            lemma_split_join(k, ',');
            assert(s =~= "JOIN"@ + seq![' '] + (jc + seq![' '] + jk));
            lemma_split_prepend_token("JOIN"@, jc + seq![' '] + jk, ' ');
            lemma_split_prepend_token(jc, jk, ' ');
            lemma_split_whole(jk, ' ');
            assert(parts == seq!["JOIN"@] + (seq![jc] + seq![jk]));
            assert(parts.len() == 3);
            assert(parts[0] == "JOIN"@);
            assert(parts[1] == jc);
            assert(parts[2] == jk);
        },
    }
    lemma_upper_fixed("JOIN"@);
    reveal_strlit("DIE");
    assert(spec_parse_command(s) == Some(c));
}

proof fn round_trip_quit(c: CommandView)
    requires
        c matches CommandView::QUIT(m) && (m matches Some(x) ==> x.len() > 0),
    ensures
        spec_parse_command(spec_serialize_command(c)) == Some(c),
{
    let m = c->QUIT_0;
    let s = spec_serialize_command(c);
    reveal_strlit("QUIT");
    reveal_strlit("QUIT :");
    reveal_strlit("DIE");
    reveal_strlit("JOIN");
    reveal_strlit("MOTD");
    reveal_strlit("NICK");
    reveal_strlit("PING");
    reveal_strlit("PONG");
    reveal_strlit("PRIVMSG");
    match m {
        None => {
            assert(!s.contains(' '));
            lemma_split_whole(s, ' ');
            lemma_upper_fixed(s);
            assert(spec_parse_command(s) == Some(c));
        },
        Some(x) => {
            let trailer = seq![':'] + x;
            assert("QUIT :"@ =~= "QUIT"@ + seq![' '] + seq![':']);
            assert(s =~= "QUIT"@ + seq![' '] + trailer);
            assert(!"QUIT"@.contains(' '));
            lemma_split_prepend_token("QUIT"@, trailer, ' ');
            let parts = spec_split(s, ' ');
            assert(parts == seq!["QUIT"@] + spec_split(trailer, ' '));
            assert(parts[0] == "QUIT"@);
            lemma_upper_fixed("QUIT"@);
            lemma_split_non_empty(trailer, ' ');
            lemma_split_first_char(trailer, ' ');
            assert(parts[1] == spec_split(trailer, ' ')[0]);
            assert(parts[1].len() > 0);
            assert(parts.skip(1) =~= spec_split(trailer, ' '));
            lemma_join_split(trailer, ' ');
            assert(spec_join(parts.skip(1), ' ') == trailer);
            assert(trailer[0] == ':');
            assert(trailer.skip(1) =~= x);
            assert(spec_strip_colon(trailer) == Some(x));
            assert(spec_parse_command(s) == Some(c));
        },
    }
}

proof fn round_trip_privmsg(c: CommandView)
    requires
        c matches CommandView::PRIVMSG(targets, m) && list_wf(targets) && m.len() > 0,
    ensures
        spec_parse_command(spec_serialize_command(c)) == Some(c),
{
    let targets = c->PRIVMSG_0;
    let m = c->PRIVMSG_1;
    let s = spec_serialize_command(c);
    reveal_strlit("PRIVMSG ");
    reveal_strlit("PRIVMSG");
    reveal_strlit(" :");
    reveal_strlit("DIE");
    reveal_strlit("JOIN");
    reveal_strlit("MOTD");
    reveal_strlit("NICK");
    reveal_strlit("PING");
    reveal_strlit("PONG");
    let jt = spec_join(targets, ',');
    let trailer = seq![':'] + m;
    assert("PRIVMSG "@ =~= "PRIVMSG"@ + seq![' ']);
    assert(" :"@ =~= seq![' '] + seq![':']);
    assert(s =~= "PRIVMSG"@ + seq![' '] + (jt + seq![' '] + trailer));
    assert(!"PRIVMSG"@.contains(' '));
    lemma_join_chars(targets, ',', ' ');
    lemma_split_join(targets, ',');
    lemma_split_prepend_token("PRIVMSG"@, jt + seq![' '] + trailer, ' ');
    lemma_split_prepend_token(jt, trailer, ' ');
    let parts = spec_split(s, ' ');
    assert(parts == seq!["PRIVMSG"@] + (seq![jt] + spec_split(trailer, ' ')));
    assert(parts[0] == "PRIVMSG"@);
    assert(parts[1] == jt);
    lemma_split_non_empty(trailer, ' ');
    assert(parts.len() >= 3);
    lemma_upper_fixed("PRIVMSG"@);
    assert(parts.skip(2) =~= spec_split(trailer, ' '));
    lemma_join_split(trailer, ' ');
    assert(spec_join(parts.skip(2), ' ') == trailer);
    assert(trailer[0] == ':');
    assert(trailer.skip(1) =~= m);
    assert(spec_strip_colon(trailer) == Some(m));
    assert(spec_parse_command(s) == Some(c));
}

proof fn round_trip_user(c: CommandView)
    requires
        c matches CommandView::USER(u, mo, un, r) && tok_wf(u) && tok_wf(mo) && tok_wf(un)
            && r.len() > 0 && (r.contains(' ') || r[0] != ':'),
    ensures
        spec_parse_command(spec_serialize_command(c)) == Some(c),
{
    let u = c->USER_0;
    let mo = c->USER_1;
    let un = c->USER_2;
    let r = c->USER_3;
    let s = spec_serialize_command(c);
    reveal_strlit("USER ");
    reveal_strlit("USER");
    reveal_strlit(" ");
    reveal_strlit(" :");
    reveal_strlit("DIE");
    reveal_strlit("JOIN");
    reveal_strlit("MOTD");
    reveal_strlit("NICK");
    reveal_strlit("PING");
    reveal_strlit("PONG");
    reveal_strlit("PRIVMSG");
    reveal_strlit("QUIT");
    reveal_strlit("REHASH");
    assert("USER "@ =~= "USER"@ + seq![' ']);
    assert(!"USER"@.contains(' '));
    lemma_upper_fixed("USER"@);
    let parts = spec_split(s, ' ');
    if r.contains(' ') {
        let trailer = seq![':'] + r;
        assert(" :"@ =~= seq![' '] + seq![':']);
        assert(s =~= "USER"@ + seq![' '] + (u + seq![' '] + (mo + seq![' '] + (un + seq![' ']
            + trailer))));
        lemma_split_prepend_token("USER"@, u + seq![' '] + (mo + seq![' '] + (un + seq![' ']
            + trailer)), ' ');
        lemma_split_prepend_token(u, mo + seq![' '] + (un + seq![' '] + trailer), ' ');
        lemma_split_prepend_token(mo, un + seq![' '] + trailer, ' ');
        lemma_split_prepend_token(un, trailer, ' ');
        assert(parts == seq!["USER"@] + (seq![u] + (seq![mo] + (seq![un] + spec_split(
            trailer,
            ' ',
        )))));
        lemma_split_non_empty(trailer, ' ');
        assert(parts.len() >= 5);
        assert(parts[0] == "USER"@);
        assert(parts[1] == u);
        assert(parts[2] == mo);
        assert(parts[3] == un);
        assert(parts.skip(4) =~= spec_split(trailer, ' '));
        lemma_join_split(trailer, ' ');
        assert(spec_join(parts.skip(4), ' ') == trailer);
        assert(trailer[0] == ':');
        assert(trailer.skip(1) =~= r);
        assert(spec_strip_colon(trailer) == Some(r));
        assert(spec_parse_command(s) == Some(c));
    } else {
        assert(s =~= "USER"@ + seq![' '] + (u + seq![' '] + (mo + seq![' '] + (un + seq![' ']
            + r))));
        lemma_split_prepend_token("USER"@, u + seq![' '] + (mo + seq![' '] + (un + seq![' '] + r)),
            ' ');
        lemma_split_prepend_token(u, mo + seq![' '] + (un + seq![' '] + r), ' ');
        lemma_split_prepend_token(mo, un + seq![' '] + r, ' ');
        lemma_split_prepend_token(un, r, ' ');
        lemma_split_whole(r, ' ');
        assert(parts == seq!["USER"@] + (seq![u] + (seq![mo] + (seq![un] + seq![r]))));
        assert(parts.len() == 5);
        assert(parts[0] == "USER"@);
        assert(parts[1] == u);
        assert(parts[2] == mo);
        assert(parts[3] == un);
        assert(parts[4] == r);
        assert(parts.skip(4) =~= seq![r]);
        assert(spec_join(parts.skip(4), ' ') == r);
        assert(r[0] != ':');
        assert(spec_strip_colon(r) == Some(r));
        assert(spec_parse_command(s) == Some(c));
    }
}

/// Parsing inverts serialization: every command of the recognized verbs, in
/// canonical wire shape, is recovered exactly from its own wire line.
pub proof fn lemma_parse_serialize_round_trip(c: CommandView)
    requires
        c.wf_wire(),
    ensures
        spec_parse_command(spec_serialize_command(c)) == Some(c),
{
    match c {
        CommandView::DIE => round_trip_verbless(c),
        CommandView::REHASH => round_trip_verbless(c),
        CommandView::MOTD(_) => round_trip_verbless(c),
        CommandView::NICK(_) => round_trip_nick(c),
        CommandView::PING(_) => round_trip_ping(c),
        CommandView::PONG(_, _) => round_trip_pong(c),
        CommandView::JOIN(_, _) => round_trip_join(c),
        CommandView::QUIT(_) => round_trip_quit(c),
        CommandView::PRIVMSG(_, _) => round_trip_privmsg(c),
        CommandView::USER(_, _, _, _) => round_trip_user(c),
        _ => {
            assert(false);
        },
    }
}

/// The wire line of a well-formed command begins with its verb's first
/// letter: never a space nor a `@` or `:` prefix marker.
proof fn lemma_serialized_head(c: CommandView)
    requires
        c.wf_wire(),
    ensures
        spec_serialize_command(c).len() > 0,
        spec_serialize_command(c)[0] != '@',
        spec_serialize_command(c)[0] != ':',
        spec_serialize_command(c)[0] != ' ',
{
    reveal_strlit("DIE");
    reveal_strlit("REHASH");
    reveal_strlit("MOTD");
    reveal_strlit("JOIN ");
    reveal_strlit("NICK ");
    reveal_strlit("PING ");
    reveal_strlit("PONG ");
    reveal_strlit("PRIVMSG ");
    reveal_strlit("QUIT");
    reveal_strlit("QUIT :");
    reveal_strlit("USER ");
    let s = spec_serialize_command(c);
    match c {
        CommandView::DIE => {},
        CommandView::REHASH => {},
        CommandView::MOTD(_) => {},
        CommandView::NICK(_) => {
            assert(s[0] == "NICK "@[0]);
        },
        CommandView::PING(_) => {
            assert(s[0] == "PING "@[0]);
        },
        CommandView::PONG(_, _) => {
            assert(s[0] == "PONG "@[0]);
        },
        CommandView::JOIN(_, k) => {
            assert(s[0] == "JOIN "@[0]);
        },
        CommandView::QUIT(m) => {
            if m is Some {
                assert(s[0] == "QUIT :"@[0]);
            }
        },
        CommandView::PRIVMSG(_, _) => {
            assert(s[0] == "PRIVMSG "@[0]);
        },
        CommandView::USER(_, _, _, _) => {
            assert(s[0] == "USER "@[0]);
        },
        _ => {
            assert(false);
        },
    }
}

/// Parsing inverts serialization at the message level as well: the optional
/// `@tags` and `:source` prefixes are recovered together with the command.
/// The side is not wire data, so the statement fixes it at `Unknown`.
pub proof fn lemma_parse_serialize_message_round_trip(m: MessageView)
    requires
        m.wf_wire(),
        m.side == Side::Unknown,
    ensures
        spec_parse_message(spec_serialize_message(m)) == Some(m),
{
    let s = spec_serialize_message(m);
    let cmd = spec_serialize_command(m.command);
    lemma_parse_serialize_round_trip(m.command);
    lemma_serialized_head(m.command);
    lemma_split_first_char(cmd, ' ');
    lemma_split_non_empty(cmd, ' ');
    lemma_join_split(cmd, ' ');
    reveal_strlit(":");
    reveal_strlit("@");
    reveal_strlit(" ");
    reveal_strlit(" :");
    match (m.tags, m.source) {
        (None, None) => {
            let parts = spec_split(s, ' ');
            assert(parts[0].len() > 0 && parts[0][0] == cmd[0]);
            assert(spec_parse_message(s) == Some(m));
        },
        (None, Some(src)) => {
            let tok0 = seq![':'] + src;
            assert(s =~= tok0 + seq![' '] + cmd);
            assert(!tok0.contains(' ')) by {
                assert forall|i: int| 0 <= i < tok0.len() implies tok0[i] != ' ' by {
                    if i > 0 {
                        assert(tok0[i] == src[i - 1]);
                    }
                }
            }
            lemma_split_prepend_token(tok0, cmd, ' ');
            let parts = spec_split(s, ' ');
            assert(parts == seq![tok0] + spec_split(cmd, ' '));
            assert(parts[0] == tok0);
            assert(parts[1] == spec_split(cmd, ' ')[0]);
            assert(parts[1].len() > 0 && parts[1][0] == cmd[0]);
            assert(tok0.skip(1) =~= src);
            assert(parts.skip(1) =~= spec_split(cmd, ' '));
            assert(spec_join(parts.skip(1), ' ') == cmd);
            assert(spec_parse_message(s) == Some(m));
        },
        (Some(tags), None) => {
            let jt = spec_join(tags, ';');
            let tok0 = seq!['@'] + jt;
            assert(s =~= tok0 + seq![' '] + cmd);
            lemma_join_chars(tags, ';', ' ');
            assert(!tok0.contains(' ')) by {
                assert forall|i: int| 0 <= i < tok0.len() implies tok0[i] != ' ' by {
                    if i > 0 {
                        assert(tok0[i] == jt[i - 1]);
                    }
                }
            }
            lemma_split_prepend_token(tok0, cmd, ' ');
            let parts = spec_split(s, ' ');
            assert(parts == seq![tok0] + spec_split(cmd, ' '));
            assert(parts[0] == tok0);
            assert(parts[1] == spec_split(cmd, ' ')[0]);
            assert(parts[1].len() > 0 && parts[1][0] == cmd[0]);
            assert(tok0.skip(1) =~= jt);
            lemma_split_join(tags, ';');
            assert(parts.skip(1) =~= spec_split(cmd, ' '));
            assert(spec_join(parts.skip(1), ' ') == cmd);
            assert(spec_parse_message(s) == Some(m));
        },
        (Some(tags), Some(src)) => {
            let jt = spec_join(tags, ';');
            let tok0 = seq!['@'] + jt;
            let tok1 = seq![':'] + src;
            assert(s =~= tok0 + seq![' '] + (tok1 + seq![' '] + cmd));
            lemma_join_chars(tags, ';', ' ');
            assert(!tok0.contains(' ')) by {
                assert forall|i: int| 0 <= i < tok0.len() implies tok0[i] != ' ' by {
                    if i > 0 {
                        assert(tok0[i] == jt[i - 1]);
                    }
                }
            }
            assert(!tok1.contains(' ')) by {
                assert forall|i: int| 0 <= i < tok1.len() implies tok1[i] != ' ' by {
                    if i > 0 {
                        assert(tok1[i] == src[i - 1]);
                    }
                }
            }
            lemma_split_prepend_token(tok0, tok1 + seq![' '] + cmd, ' ');
            lemma_split_prepend_token(tok1, cmd, ' ');
            let parts = spec_split(s, ' ');
            assert(parts == seq![tok0] + (seq![tok1] + spec_split(cmd, ' ')));
            assert(parts[0] == tok0);
            assert(parts[1] == tok1);
            assert(parts.len() >= 2);
            assert(tok0.skip(1) =~= jt);
            assert(tok1.skip(1) =~= src);
            lemma_split_join(tags, ';');
            assert(parts.skip(2) =~= spec_split(cmd, ' '));
            assert(spec_join(parts.skip(2), ' ') == cmd);
            assert(spec_parse_message(s) == Some(m));
        },
    }
}

/// Serialization inverts parsing on every canonical line: a line that is the
/// wire form of some well-formed command re-serializes to itself after a
/// parse. This is the emitted-line round trip.
pub proof fn lemma_serialize_parse_line(l: Seq<char>, c: CommandView)
    requires
        c.wf_wire(),
        l == spec_serialize_command(c),
    ensures
        spec_parse_command(l) is Some,
        spec_serialize_command(spec_parse_command(l)->Some_0) == l,
{
    lemma_parse_serialize_round_trip(c);
}

} // verus!
