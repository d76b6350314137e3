//! The per-session decision step. The event loop itself — the select over
//! socket, hub and shutdown — performs I/O and lives outside the library;
//! every decision it takes is this one function from state and event to new
//! state and actions.

use vstd::prelude::*;

use crate::apply::{Code, spec_apply_code, spec_apply_frames, spec_apply_info};
use crate::client::{ClientInfo, ClientInfoView};
use crate::frames::{Frame, error_frame, quit_frame, spec_error_line, spec_quit_line};
use crate::message::{Message, MessageView, Side, seq_clean};
use crate::parse::{lemma_parse_message_clean, spec_parse_message};
use crate::route::{
    BroadcastView, ServerClientBroadcast, filter_broadcast, prepare_broadcast, spec_filter,
    spec_prepare,
};
use crate::strutil::{contains_char, spec_strip_ending, strip_line_ending};

verus! {

/// One occurrence the session loop can observe.
#[derive(Debug)]
pub enum SessionEvent {
    /// The client sent a line (terminator included, as read).
    Line(String),
    /// The client closed the connection.
    Eof,
    /// The hub delivered a fan-out envelope.
    Broadcast(ServerClientBroadcast),
    /// This subscriber lagged and skipped ahead; a warning, nothing more.
    BroadcastLagged,
    /// The shutdown signal fired.
    ShutdownSignal,
}

/// The mathematical value of a session event.
pub enum SessionEventView {
    Line(Seq<char>),
    Eof,
    Broadcast(BroadcastView),
    BroadcastLagged,
    ShutdownSignal,
}

impl View for SessionEvent {
    type V = SessionEventView;

    open spec fn view(&self) -> SessionEventView {
        match self {
            SessionEvent::Line(l) => SessionEventView::Line(l@),
            SessionEvent::Eof => SessionEventView::Eof,
            SessionEvent::Broadcast(e) => SessionEventView::Broadcast(e@),
            SessionEvent::BroadcastLagged => SessionEventView::BroadcastLagged,
            SessionEvent::ShutdownSignal => SessionEventView::ShutdownSignal,
        }
    }
}

/// What one step tells the loop to do: write these frames in order, publish
/// this message to the hub if any, and exit if told to.
pub struct SessionStep {
    pub frames: Vec<Frame>,
    pub publish: Option<Message>,
    pub exit: bool,
}

/// The value of a step: the new identity and the actions.
pub struct StepView {
    pub info: ClientInfoView,
    pub frames: Seq<Seq<char>>,
    pub publish: Option<MessageView>,
    pub exit: bool,
}

/// A step that does nothing and continues.
pub open spec fn spec_noop(info: ClientInfoView) -> StepView {
    StepView { info, frames: Seq::<Seq<char>>::empty(), publish: None, exit: false }
}

/// Dispatching one message: apply it, and republish it under the session's
/// own name when the apply asks for a broadcast.
pub open spec fn spec_dispatch(mv: MessageView, info: ClientInfoView, server: Seq<char>) -> StepView {
    let info2 = spec_apply_info(mv, info);
    let code = spec_apply_code(mv);
    StepView {
        info: info2,
        frames: spec_apply_frames(mv, info, server),
        publish: if code == Code::Broadcast {
            Some(spec_prepare(mv, info2.username))
        } else {
            None
        },
        exit: code == Code::Exit,
    }
}

/// The farewell written when the session ends on EOF or shutdown: the QUIT
/// notice and the closing ERROR.
pub open spec fn spec_farewell(info: ClientInfoView) -> StepView {
    StepView {
        info,
        frames: seq![
            spec_quit_line(info, "Quit: Server shutting down."@) + "\r\n"@,
            spec_error_line("Server shutting down."@) + "\r\n"@,
        ],
        publish: None,
        exit: true,
    }
}

/// The session step relation: what each event does to the identity and what
/// it makes the loop write, publish and decide.
///
/// An inbound line is stripped of its terminator and parsed; a line that
/// does not parse — or that still holds a line feed, which no single wire
/// line can — is dropped and the session continues: parse errors are
/// recoverable. A delivered envelope passes the scoping filter first, and
/// its message is applied only if it is free of line feeds, since envelopes
/// arrive over a channel the library does not control and the frames built
/// from the message must stay single lines. EOF and the shutdown signal
/// write the farewell and end the session.
pub open spec fn spec_session_step(
    e: SessionEventView,
    info: ClientInfoView,
    server: Seq<char>,
) -> StepView {
    match e {
        SessionEventView::Line(l) => {
            let s = spec_strip_ending(l);
            if !seq_clean(s) {
                spec_noop(info)
            } else {
                match spec_parse_message(s) {
                    None => spec_noop(info),
                    Some(mv0) => spec_dispatch(
                        MessageView { side: Side::Client, ..mv0 },
                        info,
                        server,
                    ),
                }
            }
        },
        SessionEventView::Eof => spec_farewell(info),
        SessionEventView::ShutdownSignal => spec_farewell(info),
        SessionEventView::BroadcastLagged => spec_noop(info),
        SessionEventView::Broadcast(env) => match spec_filter(env, info) {
            None => spec_noop(info),
            Some(mv) => if !mv.clean() {
                spec_noop(info)
            } else {
                spec_dispatch(mv, info, server)
            },
        },
    }
}

fn noop_step() -> (r: SessionStep)
    ensures
        r.frames.deep_view() == Seq::<Seq<char>>::empty(),
        r.publish is None,
        !r.exit,
{
    let frames: Vec<Frame> = Vec::new();
    proof {
        assert(frames.deep_view() =~= Seq::<Seq<char>>::empty());
    }
    SessionStep { frames, publish: None, exit: false }
}

fn dispatch(m: Message, info: &mut ClientInfo, server: &str) -> (r: SessionStep)
    requires
        old(info)@.wf(),
        m@.clean(),
        seq_clean(server@),
    ensures
        final(info)@ == spec_dispatch(m@, old(info)@, server@).info,
        final(info)@.wf(),
        r.frames.deep_view() == spec_dispatch(m@, old(info)@, server@).frames,
        (match r.publish {
            Some(p) => spec_dispatch(m@, old(info)@, server@).publish == Some(p@),
            None => spec_dispatch(m@, old(info)@, server@).publish is None,
        }),
        r.exit == spec_dispatch(m@, old(info)@, server@).exit,
{
    let (code, frames) = m.apply(info, server);
    let publish = match code {
        Code::Broadcast => Some(prepare_broadcast(m, &info.username)),
        _ => None,
    };
    let exit = match code {
        Code::Exit => true,
        _ => false,
    };
    SessionStep { frames, publish, exit }
}

/// One step of the session loop: applies the event to the identity and
/// returns the frames to write, the message to publish, and whether to exit.
///
/// The shutdown signal, like EOF, always ends the session: the step it
/// returns has `exit` set, so a loop driven by this function returns as soon
/// as the signal is observed.
pub fn session_step(info: &mut ClientInfo, server: &str, event: SessionEvent) -> (r: SessionStep)
    requires
        old(info)@.wf(),
        seq_clean(server@),
    ensures
        final(info)@ == spec_session_step(event@, old(info)@, server@).info,
        final(info)@.wf(),
        r.frames.deep_view() == spec_session_step(event@, old(info)@, server@).frames,
        (match r.publish {
            Some(p) => spec_session_step(event@, old(info)@, server@).publish == Some(p@),
            None => spec_session_step(event@, old(info)@, server@).publish is None,
        }),
        r.exit == spec_session_step(event@, old(info)@, server@).exit,
        event@ is ShutdownSignal ==> r.exit,
        event@ is Eof ==> r.exit,
{
    match event {
        SessionEvent::Line(l) => {
            let stripped = strip_line_ending(l.as_str());
            if contains_char(stripped.as_str(), '\n') {
                noop_step()
            } else {
                match Message::parse(stripped.as_str()) {
                    Err(_) => noop_step(),
                    Ok(m) => {
                        proof {
                            lemma_parse_message_clean(stripped@);
                        }
                        let m2 = Message { side: Side::Client, ..m };
                        dispatch(m2, info, server)
                    },
                }
            }
        },
        SessionEvent::Eof => farewell_step(info),
        SessionEvent::ShutdownSignal => farewell_step(info),
        SessionEvent::BroadcastLagged => noop_step(),
        SessionEvent::Broadcast(env) => {
            match filter_broadcast(env, info) {
                None => noop_step(),
                Some(m) => {
                    if m.is_clean() {
                        dispatch(m, info, server)
                    } else {
                        noop_step()
                    }
                },
            }
        },
    }
}

/// Broadcast self-exclusion, end to end: whatever line a client sends, if
/// the session publishes a PRIVMSG for it and the hub routes that
/// publication, the resulting envelope is never delivered back to this same
/// session.
pub proof fn lemma_session_self_exclusion(
    l: Seq<char>,
    info: ClientInfoView,
    server: Seq<char>,
    p: MessageView,
    env: BroadcastView,
)
    requires
        spec_session_step(SessionEventView::Line(l), info, server).publish == Some(p),
        p.command matches crate::message::CommandView::PRIVMSG(_, _),
        crate::route::spec_route(p) == Some(env),
    ensures
        spec_filter(env, spec_session_step(SessionEventView::Line(l), info, server).info) is None,
{
    let st = spec_session_step(SessionEventView::Line(l), info, server);
    let s = spec_strip_ending(l);
    if seq_clean(s) {
        match spec_parse_message(s) {
            Some(mv0) => {
                let mv = MessageView { side: Side::Client, ..mv0 };
                let info2 = spec_apply_info(mv, info);
                assert(p == spec_prepare(mv, info2.username));
                assert(p.source == Some(info2.username));
                assert(st.info == info2);
            },
            None => {},
        }
    }
}

fn farewell_step(info: &ClientInfo) -> (r: SessionStep)
    requires
        info@.wf(),
    ensures
        r.frames.deep_view() == spec_farewell(info@).frames,
        r.publish is None,
        r.exit,
{
    proof {
        reveal_strlit("Quit: Server shutting down.");
        reveal_strlit("Server shutting down.");
    }
    let mut frames: Vec<Frame> = Vec::new();
    frames.push(quit_frame(info, "Quit: Server shutting down."));
    frames.push(error_frame("Server shutting down."));
    proof {
        assert(frames.deep_view() =~= spec_farewell(info@).frames);
    }
    SessionStep { frames, publish: None, exit: true }
}

} // verus!
