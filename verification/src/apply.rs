//! Applying an incoming message to a session: identity updates, the frames
//! to write back, and what the caller must do next.

use vstd::prelude::*;

use crate::client::{ClientInfo, ClientInfoView};
use crate::frames::{
    Frame, NumericReply, error_frame, motd_frames, pong_frame,
    registration_frames, spec_error_line, spec_motd_lines, spec_numeric_line, spec_pong_line,
    spec_registration_lines, spec_unknown_payload, unknown_frame,
};
use crate::message::{Command, CommandView, Message, MessageView, Side, list_clean, seq_clean};
use crate::serialize::{lemma_serialize_message_clean, spec_serialize_message};

verus! {

/// What the session loop must do after applying a message.
#[derive(Debug, PartialEq, Eq, Clone, Copy)]
pub enum Code {
    /// Nothing further.
    Fine,
    /// Hand the message to the hub for fan-out.
    Broadcast,
    /// Terminate the session cleanly.
    Exit,
}

/// The identity after a message is applied: NICK and USER update the naming
/// fields, a client-side JOIN appends its channels, everything else leaves
/// the identity unchanged.
pub open spec fn spec_apply_info(m: MessageView, info: ClientInfoView) -> ClientInfoView {
    match m.command {
        CommandView::NICK(n) => ClientInfoView { nickname: n, ..info },
        CommandView::USER(u, _, _, r) => ClientInfoView { username: u, realname: r, ..info },
        CommandView::JOIN(chans, _) => if m.side == Side::Client {
            ClientInfoView { channels: info.channels + chans, ..info }
        } else {
            info
        },
        _ => info,
    }
}

/// The caller's next step: QUIT exits; a client-side PRIVMSG or JOIN is
/// handed to the hub; everything else is done after its writes.
pub open spec fn spec_apply_code(m: MessageView) -> Code {
    match m.command {
        CommandView::QUIT(_) => Code::Exit,
        CommandView::PRIVMSG(_, _) => if m.side == Side::Client {
            Code::Broadcast
        } else {
            Code::Fine
        },
        CommandView::JOIN(_, _) => if m.side == Side::Client {
            Code::Broadcast
        } else {
            Code::Fine
        },
        _ => Code::Fine,
    }
}

/// The frames written while applying a message, in order. Frames that show
/// the identity use the updated identity: USER registers and then greets.
pub open spec fn spec_apply_frames(
    m: MessageView,
    info: ClientInfoView,
    server: Seq<char>,
) -> Seq<Seq<char>> {
    let info2 = spec_apply_info(m, info);
    match m.command {
        CommandView::USER(_, _, _, _) => spec_registration_lines(info2, server),
        CommandView::PING(t) => seq![spec_pong_line(server, t) + "\r\n"@],
        CommandView::MOTD(_) => spec_motd_lines(info2, server),
        CommandView::QUIT(_) => seq![spec_error_line("Goodbye!"@) + "\r\n"@],
        CommandView::PRIVMSG(_, _) => if m.side == Side::Server {
            seq![spec_serialize_message(m) + "\r\n"@]
        } else {
            Seq::<Seq<char>>::empty()
        },
        CommandView::JOIN(_, _) => if m.side == Side::Client || m.side == Side::Server {
            seq![spec_serialize_message(m) + "\r\n"@]
        } else {
            Seq::<Seq<char>>::empty()
        },
        CommandView::UNKNOWN(a) => seq![
            spec_numeric_line(
                server,
                NumericReply::ERR_UNKNOWN_COMMAND,
                info2,
                spec_unknown_payload(a),
            ) + "\r\n"@,
        ],
        CommandView::UNIMPLEMENTED(a) => seq![
            spec_numeric_line(
                server,
                NumericReply::ERR_UNKNOWN_COMMAND,
                info2,
                spec_unknown_payload(a),
            ) + "\r\n"@,
        ],
        _ => Seq::<Seq<char>>::empty(),
    }
}

fn one_frame(f: Frame) -> (r: Vec<Frame>)
    ensures
        r.deep_view() == seq![f@],
{
    let mut r: Vec<Frame> = Vec::new();
    r.push(f);
    proof {
        assert(r.deep_view() =~= seq![f@]);
    }
    r
}

fn no_frames() -> (r: Vec<Frame>)
    ensures
        r.deep_view() == Seq::<Seq<char>>::empty(),
{
    let r: Vec<Frame> = Vec::new();
    proof {
        assert(r.deep_view() =~= Seq::<Seq<char>>::empty());
    }
    r
}

impl Message {
    /// Applies the message to the session: updates the identity, returns the
    /// frames to write and the caller's next step.
    pub fn apply(&self, info: &mut ClientInfo, server: &str) -> (r: (Code, Vec<Frame>))
        requires
            old(info)@.wf(),
            self@.clean(),
            seq_clean(server@),
        ensures
            final(info)@ == spec_apply_info(self@, old(info)@),
            final(info)@.wf(),
            r.0 == spec_apply_code(self@),
            r.1.deep_view() == spec_apply_frames(self@, old(info)@, server@),
    {
        match &self.command {
            Command::NICK(n) => {
                info.nickname = n.clone();
                (Code::Fine, no_frames())
            },
            Command::USER(u, _, _, realname) => {
                info.username = u.clone();
                info.realname = realname.clone();
                let frames = registration_frames(info, server);
                (Code::Fine, frames)
            },
            Command::PING(t) => {
                (Code::Fine, one_frame(pong_frame(server, t.as_str())))
            },
            Command::MOTD(_) => {
                (Code::Fine, motd_frames(info, server))
            },
            Command::QUIT(_) => {
                proof {
                    reveal_strlit("Goodbye!");
                }
                (Code::Exit, one_frame(error_frame("Goodbye!")))
            },
            Command::PRIVMSG(_, _) => match self.side {
                Side::Client => (Code::Broadcast, no_frames()),
                Side::Server => {
                    proof {
                        lemma_serialize_message_clean(self@);
                    }
                    let line = self.to_string();
                    (Code::Fine, one_frame(Frame::new(line.as_str())))
                },
                Side::Unknown => (Code::Fine, no_frames()),
            },
            Command::JOIN(chans, _) => match self.side {
                Side::Client => {
                    let mut i: usize = 0;
                    let ghost pre = info.channels.deep_view();
                    while i < chans.len()
                        invariant
                            i <= chans@.len(),
                            pre == old(info)@.channels,
                            info@.nickname == old(info)@.nickname,
                            info@.username == old(info)@.username,
                            info@.realname == old(info)@.realname,
                            info.channels.deep_view() == pre + chans.deep_view().take(i as int),
                        decreases chans@.len() - i,
                    {
                        let ghost before = info.channels.deep_view();
                        info.channels.push(chans[i].clone());
                        proof {
                            assert(info.channels.deep_view() =~= before.push(
                                chans.deep_view()[i as int],
                            ));
                            assert(before.push(chans.deep_view()[i as int]) =~= pre
                                + chans.deep_view().take(i as int + 1));
                        }
                        i += 1;
                    }
                    proof {
                        assert(chans.deep_view().take(chans@.len() as int) =~= chans.deep_view());
                        assert(list_clean(info.channels.deep_view()));
                        lemma_serialize_message_clean(self@);
                    }
                    let line = self.to_string();
                    (Code::Broadcast, one_frame(Frame::new(line.as_str())))
                },
                Side::Server => {
                    proof {
                        lemma_serialize_message_clean(self@);
                    }
                    let line = self.to_string();
                    (Code::Fine, one_frame(Frame::new(line.as_str())))
                },
                Side::Unknown => (Code::Fine, no_frames()),
            },
            Command::UNKNOWN(attempt) => {
                (Code::Fine, one_frame(unknown_frame(server, info, attempt.as_str())))
            },
            Command::UNIMPLEMENTED(attempt) => {
                (Code::Fine, one_frame(unknown_frame(server, info, attempt.as_str())))
            },
            _ => (Code::Fine, no_frames()),
        }
    }
}

} // verus!
