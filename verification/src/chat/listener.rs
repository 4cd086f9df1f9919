//! One listening connection. A listener without credentials runs under a
//! generated anonymous account name, as the platform allows for read-only
//! connections.

use vstd::prelude::*;
use vstd::string::*;

use crate::chat::client::{ConnectAction, WebSocket, WebSocketState};
use crate::strutil::dec_digits;

verus! {

/// Relies on rand::thread_rng and rand::Rng::gen_range: a draw from the
/// given range, which is nonempty here, so the result lies inside it.
#[verifier::external_body]
fn random_listener_number() -> (r: u64)
    ensures
        10000 <= r <= 99999,
{
    rand::Rng::gen_range(&mut rand::thread_rng(), 10000..=99999)
}

/// A read-side connection and the number of channels routed to it.
pub struct Listener {
    pub websocket: WebSocket,
    pub username: String,
    pub channels_count: u64,
}

impl Listener {
    /// The anonymous account-name pattern: `justinfan` followed by a
    /// five-digit number.
    pub open spec fn anonymous_name(name: Seq<char>) -> bool {
        exists|n: int| 10000 <= n <= 99999 && name == "justinfan"@ + dec_digits(n)
    }

    /// A fresh listener. Without a username an anonymous one is drawn;
    /// without a token the connection stays read-only.
    pub fn new(username: Option<String>, oauth_token: Option<String>) -> (r: Self)
        ensures
            r.channels_count == 0,
            r.websocket.wf(),
            r.websocket.spec_state() == WebSocketState::NotConnected,
            r.websocket.spec_channels().len() == 0,
            r.websocket.spec_bucket().len() == 0,
            r.websocket.spec_skipped().len() == 0,
            r.websocket.spec_sends().len() == 0,
            r.websocket.spec_timeouts() == Seq::<(String, u64)>::empty(),
            r.websocket.spec_clock() == 0,
            r.websocket.spec_pace_until() == 0,
            r.websocket.spec_username() == r.username,
            r.websocket.spec_oauth_token() == oauth_token,
            match username {
                Some(u) => r.username == u,
                None => Self::anonymous_name(r.username@),
            },
    {
        let name: String = match username {
            Some(u) => u,
            None => {
                let n = random_listener_number();
                let mut generated = String::from_str("justinfan");
                let digits = crate::strutil::u64_to_string(n);
                generated.append(digits.as_str());
                proof {
                    assert(generated@ =~= "justinfan"@ + dec_digits(n as int));
                }
                generated
            },
        };
        let websocket = WebSocket::new(name.clone(), oauth_token);
        Listener { websocket, username: name, channels_count: 0 }
    }

    /// Begins a handshake unless one is already under way or done.
    pub fn connect(&mut self) -> (r: ConnectAction)
        requires
            old(self).websocket.wf(),
        ensures
            final(self).websocket.wf(),
            final(self).username == old(self).username,
            final(self).channels_count == old(self).channels_count,
            (old(self).websocket.spec_state() == WebSocketState::Connecting || old(self).websocket.spec_state() == WebSocketState::Connected) ==> r
                == ConnectAction::AlreadyActive && final(self).websocket == old(self).websocket,
            !(old(self).websocket.spec_state() == WebSocketState::Connecting || old(self).websocket.spec_state() == WebSocketState::Connected) ==> r == ConnectAction::Attempt
                && final(self).websocket.spec_state() == WebSocketState::Connecting && final(self).websocket.spec_channels() == old(self).websocket.spec_channels(),
    {
        self.websocket.connect()
    }

    /// Routes one channel to this listener. The count follows the
    /// distinct channels: a name the connection already tracks, compared
    /// without regard to case, raises nothing.
    pub fn join_channel(&mut self, channel_name: &str)
        requires
            old(self).websocket.wf(),
            old(self).channels_count < u64::MAX,
        ensures
            final(self).websocket.wf(),
            final(self).username == old(self).username,
            final(self).websocket.spec_state() == old(self).websocket.spec_state(),
            (exists|i: int|
                0 <= i < old(self).websocket.spec_channels().len()
                    && crate::strutil::eq_ignore_case_spec(
                    #[trigger] old(self).websocket.spec_channels()[i].name@,
                    channel_name@,
                )) ==> final(self).websocket.spec_channels() == old(self).websocket.spec_channels()
                && final(self).channels_count == old(self).channels_count,
            !(exists|i: int|
                0 <= i < old(self).websocket.spec_channels().len()
                    && crate::strutil::eq_ignore_case_spec(
                    #[trigger] old(self).websocket.spec_channels()[i].name@,
                    channel_name@,
                )) ==> final(self).websocket.spec_channels().len() == old(self).websocket.spec_channels().len() + 1 && final(self).websocket.spec_channels().last().name@ == channel_name@
                && final(self).channels_count == old(self).channels_count + 1,
    {
        let added = self.websocket.join_channel(channel_name);
        if added {
            self.channels_count = self.channels_count + 1;
        }
    }

    /// Uncounts one channel and hands back the line that leaves it.
    pub fn leave_channel(&mut self, channel_name: &str) -> (r: String)
        requires
            old(self).websocket.wf(),
            old(self).channels_count >= 1,
        ensures
            final(self).websocket == old(self).websocket,
            final(self).username == old(self).username,
            final(self).channels_count == old(self).channels_count - 1,
            r@ == "PART #"@ + crate::strutil::lower_seq(channel_name@),
    {
        self.channels_count = self.channels_count - 1;
        self.websocket.leave_channel(channel_name)
    }

    pub fn get_state(&self) -> (r: WebSocketState)
        ensures
            r == self.websocket.spec_state(),
    {
        self.websocket.get_state()
    }
}

} // verus!
