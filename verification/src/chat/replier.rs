//! The single authenticated connection through which every bot reply and
//! whisper leaves. It reuses the connection, codec and leaky bucket
//! unchanged; only the credentials and the reconnect supervision differ
//! from a listening shard.

use vstd::prelude::*;
use vstd::string::*;

use crate::chat::client::{
    clip, privmsg_line, whisper_line, ConnectAction, WebSocket, WebSocketState, BUCKET_CAPACITY,
};
use crate::common::message_data::{spec_has_tag, MessageData, Type};

verus! {

/// What the reconnect supervisor does on one tick, given the state it saw
/// last tick and the state it sees now: leave a healthy connection alone,
/// note a fresh disconnect, or call for a reconnect attempt.
#[derive(Debug, Clone, Copy, PartialEq, Eq, Structural)]
pub enum MonitorAction {
    Healthy,
    ObserveDisconnect,
    Reconnect,
}

/// The write-side connection, always carrying real credentials.
pub struct Replier {
    websocket: WebSocket,
}

impl Replier {
    pub closed spec fn spec_websocket(self) -> WebSocket {
        self.websocket
    }

    pub open spec fn wf(self) -> bool {
        self.spec_websocket().wf()
    }

    /// A fresh authenticated connection for outbound replies.
    pub fn new(username: &str, oauth: &str) -> (r: Self)
        ensures
            r.wf(),
            r.spec_websocket().spec_state() == WebSocketState::NotConnected,
            r.spec_websocket().spec_username()@ == username@,
            r.spec_websocket().spec_oauth_token() matches Some(tok) && tok@ == oauth@,
            r.spec_websocket().spec_bucket().len() == 0,
            r.spec_websocket().spec_skipped().len() == 0,
            r.spec_websocket().spec_channels().len() == 0,
            r.spec_websocket().spec_timeouts() == Seq::<(String, u64)>::empty(),
            r.spec_websocket().spec_pace_until() == 0,
            r.spec_websocket().spec_clock() == 0,
    {
        Replier {
            websocket: WebSocket::new(String::from_str(username), Some(String::from_str(oauth))),
        }
    }

    /// Begins a handshake unless one is already under way or done.
    pub fn connect(&mut self) -> (r: ConnectAction)
        requires
            old(self).wf(),
        ensures
            final(self).wf(),
            (old(self).spec_websocket().spec_state() == WebSocketState::Connecting || old(self).spec_websocket().spec_state() == WebSocketState::Connected) ==> r
                == ConnectAction::AlreadyActive && final(self).spec_websocket() == old(self).spec_websocket(),
            !(old(self).spec_websocket().spec_state() == WebSocketState::Connecting || old(self).spec_websocket().spec_state() == WebSocketState::Connected) ==> {
                &&& r == ConnectAction::Attempt
                &&& final(self).spec_websocket().spec_state() == WebSocketState::Connecting
                &&& final(self).spec_websocket().spec_channels() == old(
                    self,
                ).spec_websocket().spec_channels()
                &&& final(self).spec_websocket().spec_bucket() == old(
                    self,
                ).spec_websocket().spec_bucket()
                &&& final(self).spec_websocket().spec_skipped() == old(
                    self,
                ).spec_websocket().spec_skipped()
                &&& final(self).spec_websocket().spec_sends() == old(
                    self,
                ).spec_websocket().spec_sends()
                &&& final(self).spec_websocket().spec_timeouts() == old(
                    self,
                ).spec_websocket().spec_timeouts()
            },
    {
        self.websocket.connect()
    }

    /// Requests membership of `channel_name` for the reply connection.
    pub fn join_channel(&mut self, channel_name: &str)
        requires
            old(self).wf(),
        ensures
            final(self).wf(),
            final(self).spec_websocket().spec_state() == old(self).spec_websocket().spec_state(),
            final(self).spec_websocket().spec_bucket() == old(self).spec_websocket().spec_bucket(),
            (exists|i: int|
                0 <= i < old(self).spec_websocket().spec_channels().len()
                    && crate::strutil::eq_ignore_case_spec(
                    #[trigger] old(self).spec_websocket().spec_channels()[i].name@,
                    channel_name@,
                )) ==> final(self).spec_websocket().spec_channels() == old(self).spec_websocket().spec_channels(),
            !(exists|i: int|
                0 <= i < old(self).spec_websocket().spec_channels().len()
                    && crate::strutil::eq_ignore_case_spec(
                    #[trigger] old(self).spec_websocket().spec_channels()[i].name@,
                    channel_name@,
                )) ==> final(self).spec_websocket().spec_channels().len() == old(self).spec_websocket().spec_channels().len() + 1 && final(self).spec_websocket().spec_channels().last().name@ == channel_name@,
    {
        self.websocket.join_channel(channel_name);
    }

    pub fn get_state(&self) -> (r: WebSocketState)
        ensures
            r == self.spec_websocket().spec_state(),
    {
        self.websocket.get_state()
    }

    /// Marks the connection as being in `state`, as the socket loops
    /// report transport events. A transition to `Disconnected` clears
    /// every channel's membership flag.
    pub fn set_state(&mut self, state: WebSocketState)
        requires
            old(self).wf(),
        ensures
            final(self).wf(),
            final(self).spec_websocket().spec_state() == state,
            final(self).spec_websocket().spec_bucket() == old(self).spec_websocket().spec_bucket(),
            state == WebSocketState::Disconnected ==> final(self).spec_websocket().spec_channels()
                =~= crate::chat::client::cleared(old(self).spec_websocket().spec_channels()),
            state != WebSocketState::Disconnected ==> final(self).spec_websocket().spec_channels()
                == old(self).spec_websocket().spec_channels(),
    {
        self.websocket.set_state(state);
    }

    /// Frames `message_text` as one channel message, cut to the wire
    /// limit, and offers it to the leaky bucket. A full bucket drops the
    /// message silently; the call itself always succeeds.
    pub fn send_message(&mut self, channel_name: &str, message_text: &str) -> (r: Result<
        (),
        &'static str,
    >)
        requires
            old(self).wf(),
        ensures
            final(self).wf(),
            r is Ok,
            final(self).spec_websocket().spec_state() == old(self).spec_websocket().spec_state(),
            final(self).spec_websocket().spec_channels() == old(self).spec_websocket().spec_channels(),
            old(self).spec_websocket().spec_bucket().len() + old(self).spec_websocket().spec_skipped().len() < BUCKET_CAPACITY ==> final(self).spec_websocket().spec_bucket() =~= old(self).spec_websocket().spec_bucket().push(
                "PRIVMSG #"@ + channel_name@ + " :"@ + clip(message_text@) + "\r\n"@,
            ),
            old(self).spec_websocket().spec_bucket().len() + old(self).spec_websocket().spec_skipped().len() >= BUCKET_CAPACITY ==> final(self).spec_websocket().spec_bucket() == old(self).spec_websocket().spec_bucket(),
    {
        let mut message = MessageData::default(0);
        message.channel = String::from_str(channel_name);
        let body = message_text.unicode_len();
        let clipped = if body <= crate::chat::client::MESSAGE_CHARACTER_LIMIT {
            String::from_str(message_text)
        } else {
            String::from_str(
                message_text.substring_char(0, crate::chat::client::MESSAGE_CHARACTER_LIMIT),
            )
        };
        message.text = clipped;
        let mut tag_list: Vec<Type> = Vec::new();
        tag_list.push(Type::PRIVMSG);
        message.tags = tag_list;
        proof {
            assert(message.tags@[0] == Type::PRIVMSG);
            assert(spec_has_tag(message.tags@, Type::PRIVMSG));
            assert(privmsg_line(message) =~= "PRIVMSG #"@ + channel_name@ + " :"@ + clip(
                message_text@,
            ) + "\r\n"@);
        }
        let _accepted = self.websocket.send_message(message);
        Ok(())
    }

    /// Hands a prepared reply or whisper intent to the leaky bucket.
    pub fn reply_message(&mut self, message: MessageData) -> (r: bool)
        requires
            old(self).wf(),
            spec_has_tag(message.tags@, Type::WHISPER) && !spec_has_tag(
                message.tags@,
                Type::PRIVMSG,
            ) ==> message.display_name is Some && message.reply is Some,
        ensures
            final(self).wf(),
            final(self).spec_websocket().spec_state() == old(self).spec_websocket().spec_state(),
            spec_has_tag(message.tags@, Type::PRIVMSG) && old(self).spec_websocket().spec_bucket().len() + old(self).spec_websocket().spec_skipped().len()
                < BUCKET_CAPACITY ==> r && final(self).spec_websocket().spec_bucket() =~= old(self).spec_websocket().spec_bucket().push(privmsg_line(message)),
            !spec_has_tag(message.tags@, Type::PRIVMSG) && spec_has_tag(
                message.tags@,
                Type::WHISPER,
            ) && old(self).spec_websocket().spec_bucket().len() + old(self).spec_websocket().spec_skipped().len() < BUCKET_CAPACITY ==> r && final(self).spec_websocket().spec_bucket() =~= old(self).spec_websocket().spec_bucket().push(
                whisper_line(message),
            ),
            old(self).spec_websocket().spec_bucket().len() + old(self).spec_websocket().spec_skipped().len() >= BUCKET_CAPACITY ==> !r && final(self).spec_websocket().spec_bucket() == old(self).spec_websocket().spec_bucket(),
            !spec_has_tag(message.tags@, Type::PRIVMSG) && !spec_has_tag(
                message.tags@,
                Type::WHISPER,
            ) ==> !r && final(self).spec_websocket().spec_bucket() == old(self).spec_websocket().spec_bucket(),
    {
        self.websocket.send_message(message)
    }

    /// The authentication lines to write when the transport opens.
    pub fn handshake_lines(&self) -> (r: Vec<String>)
        ensures
            match self.spec_websocket().spec_oauth_token() {
                Some(tok) => r@.len() == 3 && r@[0]@ == "PASS "@ + tok@ && r@[1]@ == "NICK "@
                    + self.spec_websocket().spec_username()@ && r@[2]@
                    == "CAP REQ :twitch.tv/tags twitch.tv/commands"@,
                None => r@.len() == 2 && r@[0]@ == "NICK "@
                    + self.spec_websocket().spec_username()@ && r@[1]@
                    == "CAP REQ :twitch.tv/tags twitch.tv/commands"@,
            },
    {
        self.websocket.handshake_lines()
    }

    /// Reacts to one line read from the socket, as the connection does.
    pub fn handle_twitch_receive(&mut self, line: &str, now: u64) -> (r: crate::chat::client::InboundAction)
        requires
            old(self).wf(),
        ensures
            final(self).wf(),
            final(self).spec_websocket().spec_bucket() == old(self).spec_websocket().spec_bucket(),
            crate::strutil::starts_with_seq(line@, "PING"@) ==> (r
                matches crate::chat::client::InboundAction::Pong(p) && p@
                == crate::strutil::replace_all_spec(line@, "PING"@, "PONG"@)),
            !crate::strutil::starts_with_seq(line@, "PING"@) && crate::strutil::contains_seq(
                line@,
                "PRIVMSG #"@,
            ) ==> (match crate::common::message_data::parse_outcome(line@) {
                Some(_) => r matches crate::chat::client::InboundAction::Dispatch(m)
                    && crate::common::message_data::parsed_ok(m, line@, now),
                None => r is Drop,
            }),
            !crate::strutil::starts_with_seq(line@, "PING"@) && !crate::strutil::contains_seq(
                line@,
                "PRIVMSG #"@,
            ) && !crate::strutil::contains_seq(line@, "PRIVMSG"@) && crate::strutil::contains_seq(
                line@,
                ":Welcome, GLHF!"@,
            ) ==> final(self).spec_websocket().spec_state() == WebSocketState::Connected,
    {
        self.websocket.handle_twitch_receive(line, now)
    }

    /// The instant from which the dispatch loop may run again: one leak
    /// interval after the last paced send.
    pub fn pace_ready_at(&self) -> (r: u64)
        ensures
            r as int == self.spec_websocket().spec_pace_until(),
    {
        self.websocket.pace_ready_at()
    }

    /// One turn of the outbound leaky-bucket loop: `pass_now` is the
    /// instant the drain pass started, `now` the current instant, which
    /// must lie past the pacing mark of the last paced send.
    pub fn leaky_bucket_step(&mut self, pass_now: u64, now: u64) -> (r:
        crate::chat::client::BucketStep)
        requires
            old(self).wf(),
            pass_now <= now,
            now as int >= old(self).spec_websocket().spec_clock(),
            now as int >= old(self).spec_websocket().spec_pace_until(),
            now + crate::chat::client::LEAK_RATE_MS <= u64::MAX,
        ensures
            final(self).wf(),
            final(self).spec_websocket().spec_clock() == now as int,
            final(self).spec_websocket().spec_state() == old(self).spec_websocket().spec_state(),
            final(self).spec_websocket().spec_channels() == old(self).spec_websocket().spec_channels(),
            old(self).spec_websocket().spec_bucket().len() == 0 && old(
                self,
            ).spec_websocket().spec_skipped().len() == 0 ==> {
                &&& r is Idle
                &&& final(self).spec_websocket().spec_bucket() == old(
                    self,
                ).spec_websocket().spec_bucket()
                &&& final(self).spec_websocket().spec_skipped() == old(
                    self,
                ).spec_websocket().spec_skipped()
                &&& final(self).spec_websocket().spec_sends() == old(
                    self,
                ).spec_websocket().spec_sends()
                &&& final(self).spec_websocket().spec_timeouts() == old(
                    self,
                ).spec_websocket().spec_timeouts()
                &&& final(self).spec_websocket().spec_pace_until() == old(
                    self,
                ).spec_websocket().spec_pace_until()
            },
            old(self).spec_websocket().spec_bucket().len() == 0 && old(
                self,
            ).spec_websocket().spec_skipped().len() > 0 ==> {
                &&& r is Requeued
                &&& final(self).spec_websocket().spec_bucket() =~= old(
                    self,
                ).spec_websocket().spec_skipped()
                &&& final(self).spec_websocket().spec_skipped() =~= Seq::<Seq<char>>::empty()
                &&& final(self).spec_websocket().spec_sends() == old(
                    self,
                ).spec_websocket().spec_sends()
                &&& final(self).spec_websocket().spec_timeouts() == old(
                    self,
                ).spec_websocket().spec_timeouts()
                &&& final(self).spec_websocket().spec_pace_until() == old(
                    self,
                ).spec_websocket().spec_pace_until()
            },
            old(self).spec_websocket().spec_bucket().len() > 0 ==> {
                let line = old(self).spec_websocket().spec_bucket()[0];
                &&& final(self).spec_websocket().spec_bucket() =~= old(
                    self,
                ).spec_websocket().spec_bucket().drop_first()
                &&& match crate::chat::client::spec_extract_channel(line) {
                    None => {
                        &&& r matches crate::chat::client::BucketStep::Sent(l) && l@ == line
                        &&& final(self).spec_websocket().spec_skipped() == old(
                            self,
                        ).spec_websocket().spec_skipped()
                        &&& final(self).spec_websocket().spec_sends() == old(
                            self,
                        ).spec_websocket().spec_sends()
                        &&& final(self).spec_websocket().spec_timeouts() == old(
                            self,
                        ).spec_websocket().spec_timeouts()
                        &&& final(self).spec_websocket().spec_pace_until() == old(
                            self,
                        ).spec_websocket().spec_pace_until()
                    },
                    Some(c) => if crate::chat::client::cooling_at(
                        old(self).spec_websocket().spec_timeouts(),
                        c,
                        pass_now,
                    ) || crate::chat::client::skipped_has_channel(
                        old(self).spec_websocket().spec_skipped(),
                        c,
                    ) {
                        &&& r is Skipped
                        &&& final(self).spec_websocket().spec_skipped() =~= old(
                            self,
                        ).spec_websocket().spec_skipped().push(line)
                        &&& final(self).spec_websocket().spec_sends() == old(
                            self,
                        ).spec_websocket().spec_sends()
                        &&& final(self).spec_websocket().spec_timeouts() == old(
                            self,
                        ).spec_websocket().spec_timeouts()
                        &&& final(self).spec_websocket().spec_pace_until() == old(
                            self,
                        ).spec_websocket().spec_pace_until()
                    } else {
                        &&& r matches crate::chat::client::BucketStep::Sent(l) && l@ == line
                        &&& final(self).spec_websocket().spec_skipped() == old(
                            self,
                        ).spec_websocket().spec_skipped()
                        &&& final(self).spec_websocket().spec_sends() =~= old(
                            self,
                        ).spec_websocket().spec_sends().push((c, now as int))
                        &&& crate::chat::client::lookup_timeout(
                            final(self).spec_websocket().spec_timeouts(),
                            c,
                        ) == Some((pass_now + crate::chat::client::LEAK_RATE_MS) as u64)
                        &&& final(self).spec_websocket().spec_pace_until() == now
                            + crate::chat::client::LEAK_RATE_MS
                    },
                }
            },
    {
        self.websocket.leaky_bucket_step(pass_now, now)
    }

    /// The supervisor's decision for one tick: reconnect whenever the
    /// connection is neither connected now nor freshly lost, observe a
    /// fresh disconnect once, and leave a healthy connection alone.
    pub fn monitor_connection(last: WebSocketState, current: WebSocketState) -> (r: MonitorAction)
        ensures
            current == WebSocketState::Connected ==> r == MonitorAction::Healthy,
            current != WebSocketState::Connected && last == WebSocketState::Connected ==> r
                == MonitorAction::ObserveDisconnect,
            current != WebSocketState::Connected && last != WebSocketState::Connected ==> r
                == MonitorAction::Reconnect,
    {
        if matches!(current, WebSocketState::Connected) {
            MonitorAction::Healthy
        } else if matches!(last, WebSocketState::Connected) {
            MonitorAction::ObserveDisconnect
        } else {
            MonitorAction::Reconnect
        }
    }
}

} // verus!
