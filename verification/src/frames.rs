//! Outbound frames. A `Frame` is one wire line with its terminator: its
//! constructor appends CR LF, and the type invariant keeps every frame
//! terminated by exactly one CR LF pair.

use vstd::prelude::*;

use crate::client::{ClientInfo, ClientInfoView, spec_canonical};
use crate::message::seq_clean;
use crate::strutil::lemma_concat_free;

verus! {

/// One fully framed wire line: the payload followed by CR LF, with no other
/// line feed anywhere.
pub open spec fn frame_wf(s: Seq<char>) -> bool {
    s.len() >= 2 && s[s.len() - 2] == '\r' && s[s.len() - 1] == '\n' && forall|i: int|
        0 <= i < s.len() - 1 ==> s[i] != '\n'
}

/// A pre-serialized outbound line, CR LF-terminated by construction.
#[derive(Debug)]
pub struct Frame {
    line: String,
}

impl View for Frame {
    type V = Seq<char>;

    closed spec fn view(&self) -> Seq<char> {
        self.line@
    }
}

impl DeepView for Frame {
    type V = Seq<char>;

    open spec fn deep_view(&self) -> Seq<char> {
        self.view()
    }
}

impl Frame {
    #[verifier::type_invariant]
    spec fn type_inv(self) -> bool {
        frame_wf(self@)
    }

    /// Frames `line` by appending the CR LF terminator. Every frame ends
    /// with exactly one CR LF pair: this is the write-framing guarantee.
    pub fn new(line: &str) -> (f: Frame)
        requires
            seq_clean(line@),
        ensures
            f@ == line@ + "\r\n"@,
            frame_wf(f@),
    {
        let mut s = String::from_str(line);
        s.append("\r\n");
        proof {
            reveal_strlit("\r\n");
            assert(s@.len() == line@.len() + 2);
            assert(s@[s@.len() - 2] == '\r');
            assert(s@[s@.len() - 1] == '\n');
            assert forall|i: int| 0 <= i < s@.len() - 1 implies s@[i] != '\n' by {
                if i < line@.len() {
                    assert(s@[i] == line@[i]);
                } else {
                    assert(s@[i] == "\r\n"@[i - line@.len()]);
                }
            }
        }
        Frame { line: s }
    }

    /// The framed line, terminator included. Whatever frame reaches the
    /// writer, its text ends with exactly one CR LF pair: the type invariant
    /// guarantees it of every frame, however it was built.
    pub fn as_str(&self) -> (r: &str)
        ensures
            r@ == self@,
            frame_wf(r@),
    {
        proof {
            use_type_invariant(self);
        }
        self.line.as_str()
    }
}

/// Appends a line-feed-free piece, keeping the whole line-feed-free.
fn append_clean(out: &mut String, piece: &str)
    requires
        seq_clean(old(out)@),
        seq_clean(piece@),
    ensures
        final(out)@ == old(out)@ + piece@,
        seq_clean(final(out)@),
{
    proof {
        lemma_concat_free(out@, piece@, '\n');
    }
    out.append(piece);
}

/// The numeric replies the relay emits, with their three-digit wire codes.
#[allow(non_camel_case_types)]
#[derive(Debug, Clone, Copy, PartialEq, Eq)]
pub enum NumericReply {
    RPL_WELCOME,
    RPL_YOURHOST,
    RPL_CREATED,
    RPL_MYINFO,
    RPL_ISUPPORT,
    RPL_MOTDSTART,
    RPL_MOTD,
    RPL_ENDOFMOTD,
    ERR_UNKNOWN_COMMAND,
}

impl NumericReply {
    /// The three-digit code of this reply.
    pub open spec fn spec_code(self) -> Seq<char> {
        match self {
            NumericReply::RPL_WELCOME => "001"@,
            NumericReply::RPL_YOURHOST => "002"@,
            NumericReply::RPL_CREATED => "003"@,
            NumericReply::RPL_MYINFO => "004"@,
            NumericReply::RPL_ISUPPORT => "005"@,
            NumericReply::RPL_MOTDSTART => "375"@,
            NumericReply::RPL_MOTD => "372"@,
            NumericReply::RPL_ENDOFMOTD => "376"@,
            NumericReply::ERR_UNKNOWN_COMMAND => "421"@,
        }
    }

    /// The three-digit code as wire text.
    pub fn code_str(&self) -> (r: &'static str)
        ensures
            r@ == self.spec_code(),
    {
        match self {
            NumericReply::RPL_WELCOME => "001",
            NumericReply::RPL_YOURHOST => "002",
            NumericReply::RPL_CREATED => "003",
            NumericReply::RPL_MYINFO => "004",
            NumericReply::RPL_ISUPPORT => "005",
            NumericReply::RPL_MOTDSTART => "375",
            NumericReply::RPL_MOTD => "372",
            NumericReply::RPL_ENDOFMOTD => "376",
            NumericReply::ERR_UNKNOWN_COMMAND => "421",
        }
    }
}

/// The client token of a numeric reply: the username, or `*` before
/// registration.
pub open spec fn client_token(info: ClientInfoView) -> Seq<char> {
    if info.username.len() == 0 {
        "*"@
    } else {
        info.username
    }
}

/// A numeric reply line, without CR LF:
/// `:<server> <code> <client> <payload>`.
pub open spec fn spec_numeric_line(
    server: Seq<char>,
    code: NumericReply,
    info: ClientInfoView,
    payload: Seq<char>,
) -> Seq<char> {
    ":"@ + server + " "@ + code.spec_code() + " "@ + client_token(info) + " "@ + payload
}

/// A numeric reply frame.
pub fn numeric_frame(server: &str, code: NumericReply, info: &ClientInfo, payload: &str) -> (f:
    Frame)
    requires
        seq_clean(server@),
        seq_clean(payload@),
        info@.wf(),
    ensures
        f@ == spec_numeric_line(server@, code, info@, payload@) + "\r\n"@,
{
    proof {
        reveal_strlit(":");
        reveal_strlit(" ");
        reveal_strlit("*");
        reveal_strlit("001");
        reveal_strlit("002");
        reveal_strlit("003");
        reveal_strlit("004");
        reveal_strlit("005");
        reveal_strlit("375");
        reveal_strlit("372");
        reveal_strlit("376");
        reveal_strlit("421");
    }
    let mut out = String::from_str(":");
    append_clean(&mut out, server);
    append_clean(&mut out, " ");
    append_clean(&mut out, code.code_str());
    append_clean(&mut out, " ");
    if self_token_is_star(info) {
        append_clean(&mut out, "*");
    } else {
        append_clean(&mut out, info.username.as_str());
    }
    append_clean(&mut out, " ");
    append_clean(&mut out, payload);
    Frame::new(out.as_str())
}

/// Whether the client token falls back to `*`.
fn self_token_is_star(info: &ClientInfo) -> (r: bool)
    ensures
        r == (info@.username.len() == 0),
{
    info.username.as_str().unicode_len() == 0
}

/// The PONG reply line, without CR LF: `PONG <server> :<token>`.
pub open spec fn spec_pong_line(server: Seq<char>, token: Seq<char>) -> Seq<char> {
    "PONG "@ + server + " :"@ + token
}

/// The PONG reply to a PING, echoing the token as a trailer.
pub fn pong_frame(server: &str, token: &str) -> (f: Frame)
    requires
        seq_clean(server@),
        seq_clean(token@),
    ensures
        f@ == spec_pong_line(server@, token@) + "\r\n"@,
{
    proof {
        reveal_strlit("PONG ");
        reveal_strlit(" :");
    }
    let mut out = String::from_str("PONG ");
    append_clean(&mut out, server);
    append_clean(&mut out, " :");
    append_clean(&mut out, token);
    Frame::new(out.as_str())
}

/// The farewell line of a quitting client, without CR LF:
/// `:<nick> QUIT :<reason>` — the nickname is the QUIT source.
pub open spec fn spec_quit_line(info: ClientInfoView, reason: Seq<char>) -> Seq<char> {
    ":"@ + info.nickname + " QUIT :"@ + reason
}

/// The farewell QUIT frame written when a session ends.
pub fn quit_frame(info: &ClientInfo, reason: &str) -> (f: Frame)
    requires
        info@.wf(),
        seq_clean(reason@),
    ensures
        f@ == spec_quit_line(info@, reason@) + "\r\n"@,
{
    proof {
        reveal_strlit(":");
        reveal_strlit(" QUIT :");
    }
    let mut out = String::from_str(":");
    append_clean(&mut out, info.nickname.as_str());
    append_clean(&mut out, " QUIT :");
    append_clean(&mut out, reason);
    Frame::new(out.as_str())
}

/// The ERROR line, without CR LF: `ERROR :<message>`.
pub open spec fn spec_error_line(msg: Seq<char>) -> Seq<char> {
    "ERROR :"@ + msg
}

/// The ERROR frame sent before a connection closes.
pub fn error_frame(msg: &str) -> (f: Frame)
    requires
        seq_clean(msg@),
    ensures
        f@ == spec_error_line(msg@) + "\r\n"@,
{
    proof {
        reveal_strlit("ERROR :");
    }
    let mut out = String::from_str("ERROR :");
    append_clean(&mut out, msg);
    Frame::new(out.as_str())
}

/// The 421 payload for an unrecognized command attempt.
pub open spec fn spec_unknown_payload(attempt: Seq<char>) -> Seq<char> {
    "* "@ + attempt + ": Unknown command"@
}

/// The 421 ERR_UNKNOWNCOMMAND frame naming the attempted command.
pub fn unknown_frame(server: &str, info: &ClientInfo, attempt: &str) -> (f: Frame)
    requires
        seq_clean(server@),
        seq_clean(attempt@),
        info@.wf(),
    ensures
        f@ == spec_numeric_line(
            server@,
            NumericReply::ERR_UNKNOWN_COMMAND,
            info@,
            spec_unknown_payload(attempt@),
        ) + "\r\n"@,
{
    proof {
        reveal_strlit("* ");
        reveal_strlit(": Unknown command");
    }
    let mut payload = String::from_str("* ");
    append_clean(&mut payload, attempt);
    append_clean(&mut payload, ": Unknown command");
    numeric_frame(server, NumericReply::ERR_UNKNOWN_COMMAND, info, payload.as_str())
}

/// The five registration payloads, in emission order, without their numeric
/// envelopes.
pub open spec fn spec_registration_lines(info: ClientInfoView, server: Seq<char>) -> Seq<
    Seq<char>,
> {
    seq![
        spec_numeric_line(
            server,
            NumericReply::RPL_WELCOME,
            info,
            ":Welcome to the Internet Relay Network "@ + spec_canonical(info, server),
        ) + "\r\n"@,
        spec_numeric_line(
            server,
            NumericReply::RPL_YOURHOST,
            info,
            ":Your host is "@ + server + ", running version rust_irc-0.0.0"@,
        ) + "\r\n"@,
        spec_numeric_line(
            server,
            NumericReply::RPL_CREATED,
            info,
            ":This server was created... probably 10 seconds ago who cares"@,
        ) + "\r\n"@,
        spec_numeric_line(
            server,
            NumericReply::RPL_MYINFO,
            info,
            server + " rust_irc-0.0.0    "@,
        ) + "\r\n"@,
        spec_numeric_line(
            server,
            NumericReply::RPL_ISUPPORT,
            info,
            "CASEMAPPING=ascii :are available on this server"@,
        ) + "\r\n"@,
    ]
}

/// The registration burst: numerics 001 through 005, emitted after USER.
pub fn registration_frames(info: &ClientInfo, server: &str) -> (r: Vec<Frame>)
    requires
        info@.wf(),
        seq_clean(server@),
    ensures
        r.deep_view() == spec_registration_lines(info@, server@),
{
    proof {
        reveal_strlit(":Welcome to the Internet Relay Network ");
        reveal_strlit(":Your host is ");
        reveal_strlit(", running version rust_irc-0.0.0");
        reveal_strlit(":This server was created... probably 10 seconds ago who cares");
        reveal_strlit(" rust_irc-0.0.0    ");
        reveal_strlit("CASEMAPPING=ascii :are available on this server");
        reveal_strlit("!");
        reveal_strlit("@");
    }
    let mut welcome = String::from_str(":Welcome to the Internet Relay Network ");
    let canonical = info.to_canonical(server);
    proof {
        lemma_concat_free(info@.nickname, "!"@, '\n');
        lemma_concat_free(info@.nickname + "!"@, info@.username, '\n');
        lemma_concat_free(info@.nickname + "!"@ + info@.username, "@"@, '\n');
        lemma_concat_free(info@.nickname + "!"@ + info@.username + "@"@, server@, '\n');
    }
    append_clean(&mut welcome, canonical.as_str());

    let mut yourhost = String::from_str(":Your host is ");
    append_clean(&mut yourhost, server);
    append_clean(&mut yourhost, ", running version rust_irc-0.0.0");

    let mut myinfo = String::from_str(server);
    append_clean(&mut myinfo, " rust_irc-0.0.0    ");

    let mut r: Vec<Frame> = Vec::new();
    r.push(numeric_frame(server, NumericReply::RPL_WELCOME, info, welcome.as_str()));
    r.push(numeric_frame(server, NumericReply::RPL_YOURHOST, info, yourhost.as_str()));
    r.push(
        numeric_frame(
            server,
            NumericReply::RPL_CREATED,
            info,
            ":This server was created... probably 10 seconds ago who cares",
        ),
    );
    r.push(numeric_frame(server, NumericReply::RPL_MYINFO, info, myinfo.as_str()));
    r.push(
        numeric_frame(
            server,
            NumericReply::RPL_ISUPPORT,
            info,
            "CASEMAPPING=ascii :are available on this server",
        ),
    );
    proof {
        assert(r.deep_view() =~= spec_registration_lines(info@, server@));
    }
    r
}

/// The three MOTD payloads, in emission order.
pub open spec fn spec_motd_lines(info: ClientInfoView, server: Seq<char>) -> Seq<Seq<char>> {
    seq![
        spec_numeric_line(
            server,
            NumericReply::RPL_MOTDSTART,
            info,
            ":- "@ + server + " Message of the day - "@,
        ) + "\r\n"@,
        spec_numeric_line(server, NumericReply::RPL_MOTD, info, ":- Hi from Rust-IRC!"@)
            + "\r\n"@,
        spec_numeric_line(server, NumericReply::RPL_ENDOFMOTD, info, ":End of /MOTD command"@)
            + "\r\n"@,
    ]
}

/// The MOTD triplet: 375 start, 372 body, 376 end.
pub fn motd_frames(info: &ClientInfo, server: &str) -> (r: Vec<Frame>)
    requires
        info@.wf(),
        seq_clean(server@),
    ensures
        r.deep_view() == spec_motd_lines(info@, server@),
{
    proof {
        reveal_strlit(":- ");
        reveal_strlit(" Message of the day - ");
        reveal_strlit(":- Hi from Rust-IRC!");
        reveal_strlit(":End of /MOTD command");
    }
    let mut start = String::from_str(":- ");
    append_clean(&mut start, server);
    append_clean(&mut start, " Message of the day - ");

    let mut r: Vec<Frame> = Vec::new();
    r.push(numeric_frame(server, NumericReply::RPL_MOTDSTART, info, start.as_str()));
    r.push(numeric_frame(server, NumericReply::RPL_MOTD, info, ":- Hi from Rust-IRC!"));
    r.push(numeric_frame(server, NumericReply::RPL_ENDOFMOTD, info, ":End of /MOTD command"));
    proof {
        assert(r.deep_view() =~= spec_motd_lines(info@, server@));
    }
    r
}

} // verus!
