//! The broadcast fabric's rules: which client messages the hub fans out,
//! and which fan-out envelopes a session delivers to its own client.

use vstd::prelude::*;

use crate::client::{ClientInfo, ClientInfoView};
use crate::message::{Command, CommandView, Message, MessageView, Side};

verus! {

/// The envelope the hub publishes to every session.
#[derive(Debug, PartialEq, Eq, Clone)]
pub enum ServerClientBroadcast {
    /// A PRIVMSG scoped to its target channels.
    PrivMessage { channels: Vec<String>, message: Message },
    /// A JOIN, observed by every session.
    Join { message: Message },
}

/// The mathematical value of a broadcast envelope.
pub enum BroadcastView {
    PrivMessage { channels: Seq<Seq<char>>, message: MessageView },
    Join { message: MessageView },
}

impl View for ServerClientBroadcast {
    type V = BroadcastView;

    open spec fn view(&self) -> BroadcastView {
        match self {
            ServerClientBroadcast::PrivMessage { channels, message } => BroadcastView::PrivMessage {
                channels: channels.deep_view(),
                message: message@,
            },
            ServerClientBroadcast::Join { message } => BroadcastView::Join { message: message@ },
        }
    }
}

/// What the hub does with a message a session asked it to broadcast: a
/// PRIVMSG is scoped to its targets, a JOIN goes to everyone, anything else
/// is ignored.
pub open spec fn spec_route(m: MessageView) -> Option<BroadcastView> {
    match m.command {
        CommandView::PRIVMSG(targets, _) => Some(
            BroadcastView::PrivMessage { channels: targets, message: m },
        ),
        CommandView::JOIN(_, _) => Some(BroadcastView::Join { message: m }),
        _ => None,
    }
}

/// A message as a session republishes it: the source is rewritten to the
/// session's own username and the side to `Server`.
pub open spec fn spec_prepare(m: MessageView, username: Seq<char>) -> MessageView {
    MessageView { source: Some(username), side: Side::Server, ..m }
}

/// Whether two channel lists share a member.
pub open spec fn spec_intersects(a: Seq<Seq<char>>, b: Seq<Seq<char>>) -> bool {
    exists|i: int, j: int| 0 <= i < a.len() && 0 <= j < b.len() && a[i] == b[j]
}

/// Whether a session delivers an envelope to its client: a PRIVMSG only when
/// it has a source that is not the session's own username and the session
/// shares a channel with the targets; a JOIN always.
pub open spec fn spec_should_deliver(e: BroadcastView, info: ClientInfoView) -> bool {
    match e {
        BroadcastView::PrivMessage { channels, message } => match message.source {
            Some(src) => src != info.username && spec_intersects(info.channels, channels),
            None => false,
        },
        BroadcastView::Join { message } => true,
    }
}

/// The message a session takes from an envelope, if any.
pub open spec fn spec_filter(e: BroadcastView, info: ClientInfoView) -> Option<MessageView> {
    if spec_should_deliver(e, info) {
        match e {
            BroadcastView::PrivMessage { channels, message } => Some(message),
            BroadcastView::Join { message } => Some(message),
        }
    } else {
        None
    }
}

/// The hub's routing step: wraps a broadcast-class message in its envelope.
pub fn route_broadcast(m: Message) -> (r: Option<ServerClientBroadcast>)
    ensures
        match r {
            Some(e) => spec_route(m@) == Some(e@),
            None => spec_route(m@) is None,
        },
{
    broadcast use vstd::std_specs::vec::vec_clone_deep_view_proof;

    match &m.command {
        Command::PRIVMSG(targets, _) => {
            let channels = targets.clone();
            Some(ServerClientBroadcast::PrivMessage { channels, message: m })
        },
        Command::JOIN(_, _) => Some(ServerClientBroadcast::Join { message: m }),
        _ => None,
    }
}

fn string_vec_contains(v: &Vec<String>, s: &String) -> (r: bool)
    ensures
        r == v.deep_view().contains(s@),
{
    let mut i: usize = 0;
    while i < v.len()
        invariant
            i <= v@.len(),
            forall|k: int| 0 <= k < i ==> v.deep_view()[k] != s@,
        decreases v@.len() - i,
    {
        if v[i].eq(s) {
            proof {
                assert(v.deep_view()[i as int] == s@);
            }
            return true;
        }
        i += 1;
    }
    false
}

/// Whether the two channel lists share a member.
pub fn channels_intersect(a: &Vec<String>, b: &Vec<String>) -> (r: bool)
    ensures
        r == spec_intersects(a.deep_view(), b.deep_view()),
{
    let mut i: usize = 0;
    while i < a.len()
        invariant
            i <= a@.len(),
            forall|k: int, j: int|
                0 <= k < i && 0 <= j < b.deep_view().len() ==> #[trigger] a.deep_view()[k]
                    != #[trigger] b.deep_view()[j],
        decreases a@.len() - i,
    {
        if string_vec_contains(b, &a[i]) {
            proof {
                let j = choose|j: int|
                    0 <= j < b.deep_view().len() && b.deep_view()[j] == a.deep_view()[i as int];
                assert(a.deep_view()[i as int] == b.deep_view()[j]);
                assert(spec_intersects(a.deep_view(), b.deep_view()));
            }
            return true;
        }
        i += 1;
    }
    proof {
        assert(!spec_intersects(a.deep_view(), b.deep_view()));
    }
    false
}

/// The session's delivery filter: decides whether the envelope's message is
/// applied to this session, exactly per the channel-scoping rules.
pub fn filter_broadcast(e: ServerClientBroadcast, info: &ClientInfo) -> (r: Option<Message>)
    ensures
        match r {
            Some(m) => spec_filter(e@, info@) == Some(m@),
            None => spec_filter(e@, info@) is None,
        },
{
    match e {
        ServerClientBroadcast::PrivMessage { channels, message } => match &message.source {
            Some(src) => {
                if !src.eq(&info.username) && channels_intersect(&info.channels, &channels) {
                    Some(message)
                } else {
                    None
                }
            },
            None => None,
        },
        ServerClientBroadcast::Join { message } => Some(message),
    }
}

/// The session's republish step: the outgoing copy carries the session's own
/// username as its source and is marked as server-originated.
pub fn prepare_broadcast(m: Message, username: &String) -> (r: Message)
    ensures
        r@ == spec_prepare(m@, username@),
{
    Message { source: Some(username.clone()), side: Side::Server, ..m }
}

/// Broadcast self-exclusion: a PRIVMSG republished by a session, routed by
/// the hub, is never delivered back to a session with the originator's
/// username — in particular, never to the originator itself.
pub proof fn lemma_broadcast_self_exclusion(m: MessageView, u: Seq<char>, info: ClientInfoView)
    requires
        m.command matches CommandView::PRIVMSG(_, _),
        info.username == u,
    ensures
        spec_route(spec_prepare(m, u)) matches Some(e) ==> spec_filter(e, info) is None,
{
}

/// Channel scoping: a routed PRIVMSG with targets `T` is delivered to a
/// session exactly when the session is not the originator and its joined
/// channels intersect `T`; the delivered message is the routed one itself.
pub proof fn lemma_channel_scoping(m: MessageView, info: ClientInfoView)
    requires
        m.command matches CommandView::PRIVMSG(_, _),
        m.source is Some,
    ensures
        spec_route(m) matches Some(e) && (spec_filter(e, info) is Some <==> (
        m.source->Some_0 != info.username && spec_intersects(
            info.channels,
            m.command->PRIVMSG_0,
        ))),
        spec_filter(spec_route(m)->Some_0, info) matches Some(d) ==> d == m,
{
}

/// Join delivery: a routed JOIN is delivered to every session, unchanged.
pub proof fn lemma_join_delivery(m: MessageView, info: ClientInfoView)
    requires
        m.command matches CommandView::JOIN(_, _),
    ensures
        spec_route(m) matches Some(e) && spec_filter(e, info) == Some(m),
{
}

} // verus!
