//! Per-session identity: nickname, username, realname and joined channels,
//! with the canonical `nick!user@server` form.

use vstd::prelude::*;

use crate::message::{list_clean, seq_clean};

verus! {

/// What a session knows about its client. Fields are mutated by the NICK,
/// USER and JOIN handlers and read when frames are built.
#[derive(Debug, PartialEq, Eq, Clone)]
pub struct ClientInfo {
    pub nickname: String,
    pub username: String,
    pub realname: String,
    pub channels: Vec<String>,
}

/// The mathematical value of a `ClientInfo`.
pub struct ClientInfoView {
    pub nickname: Seq<char>,
    pub username: Seq<char>,
    pub realname: Seq<char>,
    pub channels: Seq<Seq<char>>,
}

impl View for ClientInfo {
    type V = ClientInfoView;

    open spec fn view(&self) -> ClientInfoView {
        ClientInfoView {
            nickname: self.nickname@,
            username: self.username@,
            realname: self.realname@,
            channels: self.channels.deep_view(),
        }
    }
}

impl ClientInfoView {
    /// Every identity field is free of line feeds, so frames built from the
    /// identity stay single lines.
    pub open spec fn wf(self) -> bool {
        seq_clean(self.nickname) && seq_clean(self.username) && seq_clean(self.realname)
            && list_clean(self.channels)
    }
}

/// The canonical identity string `nick!user@server`.
pub open spec fn spec_canonical(info: ClientInfoView, server: Seq<char>) -> Seq<char> {
    info.nickname + "!"@ + info.username + "@"@ + server
}

impl Default for ClientInfo {
    /// A fresh identity: all fields empty, no channels joined.
    fn default() -> (r: ClientInfo)
        ensures
            r@.nickname == Seq::<char>::empty(),
            r@.username == Seq::<char>::empty(),
            r@.realname == Seq::<char>::empty(),
            r@.channels == Seq::<Seq<char>>::empty(),
            r@.wf(),
    {
        let r = ClientInfo {
            nickname: String::new(),
            username: String::new(),
            realname: String::new(),
            channels: Vec::new(),
        };
        proof {
            assert(r@.channels =~= Seq::<Seq<char>>::empty());
        }
        r
    }
}

impl ClientInfo {
    /// The canonical form of the user identifier, `nick!user@server`.
    pub fn to_canonical(&self, server: &str) -> (r: String)
        ensures
            r@ == spec_canonical(self@, server@),
    {
        let mut out = self.nickname.clone();
        out.append("!");
        out.append(self.username.as_str());
        out.append("@");
        out.append(server);
        out
    }

    /// Whether every identity field is free of line feeds.
    pub fn is_wf(&self) -> (r: bool)
        ensures
            r == self@.wf(),
    {
        let mut i: usize = 0;
        let mut chans_ok = true;
        while i < self.channels.len()
            invariant
                i <= self.channels@.len(),
                chans_ok == forall|k: int|
                    0 <= k < i ==> seq_clean(#[trigger] self.channels.deep_view()[k]),
            decreases self.channels@.len() - i,
        {
            if crate::strutil::contains_char(self.channels[i].as_str(), '\n') {
                proof {
                    assert(!seq_clean(self.channels.deep_view()[i as int]));
                }
                chans_ok = false;
            }
            i += 1;
        }
        !crate::strutil::contains_char(self.nickname.as_str(), '\n')
            && !crate::strutil::contains_char(self.username.as_str(), '\n')
            && !crate::strutil::contains_char(self.realname.as_str(), '\n') && chans_ok
    }
}

} // verus!
