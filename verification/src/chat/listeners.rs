//! The pool of listening connections. Each shard carries at most
//! [`CHANNELS_PER_LISTENER`] channels; a join request goes to the first
//! shard with room, and a new anonymous shard is created only when every
//! existing one is full.

use vstd::prelude::*;

use crate::chat::client::WebSocketState;
use crate::chat::listener::Listener;

verus! {

/// Greatest number of channels one listening connection carries.
pub const CHANNELS_PER_LISTENER: u64 = 5;

/// The index of the first shard with room for one more channel.
pub open spec fn first_open(shards: Seq<Listener>) -> Option<int>
    decreases shards.len(),
{
    if shards.len() == 0 {
        Option::None
    } else if shards[0].channels_count < CHANNELS_PER_LISTENER {
        Some(0int)
    } else {
        match first_open(shards.drop_first()) {
            Some(i) => Some(i + 1),
            None => Option::None,
        }
    }
}

proof fn lemma_first_open_props(shards: Seq<Listener>)
    ensures
        match first_open(shards) {
            Some(i) => 0 <= i < shards.len() && shards[i].channels_count < CHANNELS_PER_LISTENER
                && forall|j: int|
                0 <= j < i ==> #[trigger] shards[j].channels_count >= CHANNELS_PER_LISTENER,
            None => forall|j: int|
                0 <= j < shards.len() ==> #[trigger] shards[j].channels_count
                    >= CHANNELS_PER_LISTENER,
        },
    decreases shards.len(),
{
    if shards.len() > 0 {
        lemma_first_open_props(shards.drop_first());
        assert(forall|j: int|
            0 <= j < shards.drop_first().len() ==> #[trigger] shards.drop_first()[j] == shards[j
                + 1]);
        if shards[0].channels_count >= CHANNELS_PER_LISTENER {
            match first_open(shards.drop_first()) {
                Some(i) => {
                    assert forall|j: int| 0 <= j < i + 1 implies #[trigger] shards[j].channels_count
                        >= CHANNELS_PER_LISTENER by {
                        if j > 0 {
                            assert(shards.drop_first()[j - 1] == shards[j]);
                        }
                    }
                },
                None => {
                    assert forall|j: int| 0 <= j < shards.len() implies #[trigger] shards[j].channels_count
                        >= CHANNELS_PER_LISTENER by {
                        if j > 0 {
                            assert(shards.drop_first()[j - 1] == shards[j]);
                        }
                    }
                },
            }
        }
    }
}

/// The sharding manager: all listening connections, created on demand.
pub struct Listeners {
    listener_collection: Vec<Listener>,
}

impl Listeners {
    /// Every shard is within its channel cap and internally consistent.
    pub closed spec fn wf(self) -> bool {
        forall|i: int|
            0 <= i < self.listener_collection@.len() ==> {
                &&& (#[trigger] self.listener_collection@[i]).channels_count
                    <= CHANNELS_PER_LISTENER
                &&& self.listener_collection@[i].websocket.wf()
            }
    }

    /// The shards, in creation order.
    pub closed spec fn spec_shards(self) -> Seq<Listener> {
        self.listener_collection@
    }

    /// No shard ever carries more channels than the per-listener cap.
    pub proof fn lemma_shard_capacity(self, i: int)
        requires
            self.wf(),
            0 <= i < self.spec_shards().len(),
        ensures
            self.spec_shards()[i].channels_count <= CHANNELS_PER_LISTENER,
    {
    }

    /// An empty pool; shards appear as channels are added.
    pub fn new() -> (r: Self)
        ensures
            r.wf(),
            r.spec_shards() == Seq::<Listener>::empty(),
    {
        Listeners { listener_collection: Vec::new() }
    }

    /// How many shards the pool holds.
    pub fn shard_count(&self) -> (r: usize)
        ensures
            r == self.spec_shards().len(),
    {
        self.listener_collection.len()
    }

    /// The names of the channels routed to shard `i`.
    pub fn shard_channels(&self, i: usize) -> (r: Vec<String>)
        requires
            i < self.spec_shards().len(),
        ensures
            r@.len() == self.spec_shards()[i as int].websocket.spec_channels().len(),
            forall|j: int|
                0 <= j < r@.len() ==> #[trigger] r@[j]@ == self.spec_shards()[
                    i as int
                ].websocket.spec_channels()[j].name@,
    {
        self.listener_collection[i].websocket.channel_names()
    }

    /// The lifecycle state of shard `i`'s connection.
    pub fn shard_state(&self, i: usize) -> (r: WebSocketState)
        requires
            i < self.spec_shards().len(),
        ensures
            r == self.spec_shards()[i as int].websocket.spec_state(),
    {
        self.listener_collection[i].get_state()
    }

    /// The authentication lines shard `i` writes when its transport
    /// opens.
    pub fn shard_handshake_lines(&self, i: usize) -> (r: Vec<String>)
        requires
            i < self.spec_shards().len(),
        ensures
            match self.spec_shards()[i as int].websocket.spec_oauth_token() {
                Some(tok) => r@.len() == 3 && r@[0]@ == "PASS "@ + tok@ && r@[1]@ == "NICK "@
                    + self.spec_shards()[i as int].websocket.spec_username()@ && r@[2]@
                    == "CAP REQ :twitch.tv/tags twitch.tv/commands"@,
                None => r@.len() == 2 && r@[0]@ == "NICK "@ + self.spec_shards()[
                    i as int
                ].websocket.spec_username()@ && r@[1]@
                    == "CAP REQ :twitch.tv/tags twitch.tv/commands"@,
            },
    {
        let lines = self.listener_collection[i].websocket.handshake_lines();
        lines
    }

    /// Begins a handshake on shard `i` unless one is already active.
    pub fn shard_connect(&mut self, i: usize) -> (r: crate::chat::client::ConnectAction)
        requires
            old(self).wf(),
            i < old(self).spec_shards().len(),
        ensures
            final(self).wf(),
            final(self).spec_shards().len() == old(self).spec_shards().len(),
            forall|j: int|
                0 <= j < old(self).spec_shards().len() && j != i ==> #[trigger] final(self).spec_shards()[j] == old(self).spec_shards()[j],
            ({
                let before = old(self).spec_shards()[i as int].websocket;
                let after = final(self).spec_shards()[i as int].websocket;
                if before.spec_state() == WebSocketState::Connecting || before.spec_state()
                    == WebSocketState::Connected {
                    r == crate::chat::client::ConnectAction::AlreadyActive && after == before
                } else {
                    r == crate::chat::client::ConnectAction::Attempt && after.spec_state()
                        == WebSocketState::Connecting && after.spec_channels()
                        == before.spec_channels()
                }
            }),
    {
        let mut shard = self.listener_collection.remove(i);
        let action = shard.connect();
        self.listener_collection.insert(i, shard);
        proof {
            assert forall|j: int| 0 <= j < self.listener_collection@.len() implies {
                &&& (#[trigger] self.listener_collection@[j]).channels_count
                    <= CHANNELS_PER_LISTENER
                &&& self.listener_collection@[j].websocket.wf()
            } by {
                if j != i {
                    assert(self.listener_collection@[j] == old(self).listener_collection@[j]);
                }
            }
        }
        action
    }

    /// Marks shard `i`'s connection as being in `state`, as the socket
    /// loops report transport events.
    pub fn shard_set_state(&mut self, i: usize, state: WebSocketState)
        requires
            old(self).wf(),
            i < old(self).spec_shards().len(),
        ensures
            final(self).wf(),
            final(self).spec_shards().len() == old(self).spec_shards().len(),
            forall|j: int|
                0 <= j < old(self).spec_shards().len() && j != i ==> #[trigger] final(self).spec_shards()[j] == old(self).spec_shards()[j],
            final(self).spec_shards()[i as int].websocket.spec_state() == state,
            state == WebSocketState::Disconnected ==> final(self).spec_shards()[
                i as int
            ].websocket.spec_channels() =~= crate::chat::client::cleared(
                old(self).spec_shards()[i as int].websocket.spec_channels(),
            ),
    {
        let mut shard = self.listener_collection.remove(i);
        shard.websocket.set_state(state);
        self.listener_collection.insert(i, shard);
        proof {
            assert forall|j: int| 0 <= j < self.listener_collection@.len() implies {
                &&& (#[trigger] self.listener_collection@[j]).channels_count
                    <= CHANNELS_PER_LISTENER
                &&& self.listener_collection@[j].websocket.wf()
            } by {
                if j != i {
                    assert(self.listener_collection@[j] == old(self).listener_collection@[j]);
                }
            }
        }
    }

    /// Reacts to one line read on shard `i`'s socket, as the connection
    /// does: a keepalive is answered, a channel message is decoded and
    /// handed over, the welcome banner completes the handshake.
    pub fn shard_handle_line(&mut self, i: usize, line: &str, now: u64) -> (r:
        crate::chat::client::InboundAction)
        requires
            old(self).wf(),
            i < old(self).spec_shards().len(),
        ensures
            final(self).wf(),
            final(self).spec_shards().len() == old(self).spec_shards().len(),
            forall|j: int|
                0 <= j < old(self).spec_shards().len() && j != i ==> #[trigger] final(self).spec_shards()[j] == old(self).spec_shards()[j],
            final(self).spec_shards()[i as int].websocket.spec_channels() == old(self).spec_shards()[i as int].websocket.spec_channels(),
            final(self).spec_shards()[i as int].websocket.spec_bucket() == old(self).spec_shards()[i as int].websocket.spec_bucket(),
            final(self).spec_shards()[i as int].channels_count == old(self).spec_shards()[
                i as int
            ].channels_count,
            crate::strutil::starts_with_seq(line@, "PING"@) ==> {
                &&& final(self).spec_shards()[i as int].websocket.spec_state() == old(self).spec_shards()[i as int].websocket.spec_state()
                &&& r matches crate::chat::client::InboundAction::Pong(p) && p@
                    == crate::strutil::replace_all_spec(line@, "PING"@, "PONG"@)
            },
            !crate::strutil::starts_with_seq(line@, "PING"@) && crate::strutil::contains_seq(
                line@,
                "PRIVMSG #"@,
            ) ==> {
                &&& final(self).spec_shards()[i as int].websocket.spec_state() == old(self).spec_shards()[i as int].websocket.spec_state()
                &&& match crate::common::message_data::parse_outcome(line@) {
                    Some(_) => r matches crate::chat::client::InboundAction::Dispatch(m)
                        && crate::common::message_data::parsed_ok(m, line@, now),
                    None => r is Drop,
                }
            },
            !crate::strutil::starts_with_seq(line@, "PING"@) && !crate::strutil::contains_seq(
                line@,
                "PRIVMSG #"@,
            ) && !crate::strutil::contains_seq(line@, "PRIVMSG"@) && crate::strutil::contains_seq(
                line@,
                ":Welcome, GLHF!"@,
            ) ==> final(self).spec_shards()[i as int].websocket.spec_state()
                == WebSocketState::Connected && r is Welcome,
            !crate::strutil::starts_with_seq(line@, "PING"@) && !crate::strutil::contains_seq(
                line@,
                "PRIVMSG #"@,
            ) && !(!crate::strutil::contains_seq(line@, "PRIVMSG"@)
                && crate::strutil::contains_seq(line@, ":Welcome, GLHF!"@)) ==> final(self).spec_shards()[i as int].websocket.spec_state() == old(self).spec_shards()[
                i as int
            ].websocket.spec_state() && r is Drop,
    {
        let mut shard = self.listener_collection.remove(i);
        let action = shard.websocket.handle_twitch_receive(line, now);
        self.listener_collection.insert(i, shard);
        proof {
            assert forall|j: int| 0 <= j < self.listener_collection@.len() implies {
                &&& (#[trigger] self.listener_collection@[j]).channels_count
                    <= CHANNELS_PER_LISTENER
                &&& self.listener_collection@[j].websocket.wf()
            } by {
                if j != i {
                    assert(self.listener_collection@[j] == old(self).listener_collection@[j]);
                }
            }
        }
        action
    }

    /// Issues the next pending JOIN of shard `i`, gated by the shared
    /// limiter: the first channel still waiting gets its JOIN line and is
    /// marked joined, or the limiter's window is full and the caller is
    /// told until when to sleep.
    pub fn shard_join_step(
        &mut self,
        i: usize,
        limiter: &mut crate::chat::client::JoinRateLimiter,
        now: u64,
    ) -> (r: crate::chat::client::JoinStep)
        requires
            old(self).wf(),
            i < old(self).spec_shards().len(),
            old(limiter).wf(),
            now as int >= old(limiter).spec_clock(),
            now + old(limiter).spec_period() <= u64::MAX,
        ensures
            final(self).wf(),
            final(limiter).wf(),
            final(limiter).spec_max_attempts() == old(limiter).spec_max_attempts(),
            final(limiter).spec_period() == old(limiter).spec_period(),
            final(self).spec_shards().len() == old(self).spec_shards().len(),
            forall|j: int|
                0 <= j < old(self).spec_shards().len() && j != i ==> #[trigger] final(self).spec_shards()[j] == old(self).spec_shards()[j],
            final(self).spec_shards()[i as int].channels_count == old(self).spec_shards()[
                i as int
            ].channels_count,
            old(self).spec_shards()[i as int].websocket.spec_state() != WebSocketState::Connected
                ==> r is Idle && final(self).spec_shards()[i as int].websocket.spec_channels()
                == old(self).spec_shards()[i as int].websocket.spec_channels() && *final(limiter)
                == *old(limiter),
            (old(self).spec_shards()[i as int].websocket.spec_state() == WebSocketState::Connected
                && crate::chat::client::first_pending(
                old(self).spec_shards()[i as int].websocket.spec_channels(),
            ) is None) ==> (r is Idle && final(self).spec_shards()[
                i as int
            ].websocket.spec_channels() == old(self).spec_shards()[
                i as int
            ].websocket.spec_channels() && *final(limiter) == *old(limiter)),
            old(self).spec_shards()[i as int].websocket.spec_state() == WebSocketState::Connected
                ==> (crate::chat::client::first_pending(
                old(self).spec_shards()[i as int].websocket.spec_channels(),
            ) matches Some(p) ==> {
                let before = old(self).spec_shards()[i as int].websocket.spec_channels();
                let after = final(self).spec_shards()[i as int].websocket.spec_channels();
                &&& final(limiter).spec_clock() == now as int
                &&& match r {
                    crate::chat::client::JoinStep::Join(l) => {
                        &&& l@ == "JOIN #"@ + crate::strutil::lower_seq(before[p].name@)
                        &&& after.len() == before.len()
                        &&& forall|j: int|
                            0 <= j < before.len() && j != p ==> #[trigger] after[j] == before[j]
                        &&& after[p].name == before[p].name
                        &&& after[p].state == crate::common::channel_data::ChannelState::Connected
                        &&& final(limiter).spec_history() == old(limiter).spec_history().push(
                            now as int,
                        )
                    },
                    crate::chat::client::JoinStep::Wait(u) => {
                        &&& now < u <= now + old(limiter).spec_period()
                        &&& after == before
                        &&& final(limiter).spec_history() == old(limiter).spec_history()
                    },
                    crate::chat::client::JoinStep::Idle => false,
                }
            }),
    {
        let mut shard = self.listener_collection.remove(i);
        let step = shard.websocket.join_pending_channels(limiter, now);
        self.listener_collection.insert(i, shard);
        proof {
            assert forall|j: int| 0 <= j < self.listener_collection@.len() implies {
                &&& (#[trigger] self.listener_collection@[j]).channels_count
                    <= CHANNELS_PER_LISTENER
                &&& self.listener_collection@[j].websocket.wf()
            } by {
                if j != i {
                    assert(self.listener_collection@[j] == old(self).listener_collection@[j]);
                }
            }
        }
        step
    }

    /// Ensures some shard carries `channel`: the first shard with room
    /// takes it, and only when every shard is full is exactly one new
    /// shard created for it.
    pub fn add_channel(&mut self, channel: &str)
        requires
            old(self).wf(),
        ensures
            final(self).wf(),
            first_open(old(self).spec_shards()) matches Some(i) ==> {
                &&& final(self).spec_shards().len() == old(self).spec_shards().len()
                &&& forall|j: int|
                    0 <= j < old(self).spec_shards().len() && j != i ==> #[trigger] final(self).spec_shards()[j] == old(self).spec_shards()[j]
                &&& final(self).spec_shards()[i].username == old(self).spec_shards()[i].username
                &&& (exists|j: int|
                    0 <= j < old(self).spec_shards()[i].websocket.spec_channels().len()
                        && crate::strutil::eq_ignore_case_spec(
                        #[trigger] old(self).spec_shards()[i].websocket.spec_channels()[j].name@,
                        channel@,
                    )) ==> final(self).spec_shards()[i].websocket.spec_channels() == old(self).spec_shards()[i].websocket.spec_channels() && final(self).spec_shards()[
                    i
                ].channels_count == old(self).spec_shards()[i].channels_count
                &&& !(exists|j: int|
                    0 <= j < old(self).spec_shards()[i].websocket.spec_channels().len()
                        && crate::strutil::eq_ignore_case_spec(
                        #[trigger] old(self).spec_shards()[i].websocket.spec_channels()[j].name@,
                        channel@,
                    )) ==> final(self).spec_shards()[i].websocket.spec_channels().len() == old(self).spec_shards()[i].websocket.spec_channels().len() + 1 && final(self).spec_shards()[i].websocket.spec_channels().last().name@ == channel@ && final(self).spec_shards()[i].channels_count == old(self).spec_shards()[i].channels_count
                    + 1
            },
            first_open(old(self).spec_shards()) is None ==> {
                &&& final(self).spec_shards().len() == old(self).spec_shards().len() + 1
                &&& forall|j: int|
                    0 <= j < old(self).spec_shards().len() ==> #[trigger] final(self).spec_shards()[j] == old(self).spec_shards()[j]
                &&& final(self).spec_shards().last().channels_count == 1
                &&& final(self).spec_shards().last().websocket.spec_channels().len() == 1
                &&& final(self).spec_shards().last().websocket.spec_channels().last().name@
                    == channel@
                &&& final(self).spec_shards().last().websocket.spec_state()
                    == WebSocketState::NotConnected
            },
    {
        proof {
            lemma_first_open_props(self.listener_collection@);
        }
        let mut i: usize = 0;
        let len = self.listener_collection.len();
        while i < len
            invariant
                0 <= i <= len,
                len == self.listener_collection@.len(),
                *self == *old(self),
                old(self).wf(),
                forall|j: int|
                    0 <= j < i ==> #[trigger] self.listener_collection@[j].channels_count
                        >= CHANNELS_PER_LISTENER,
            decreases len - i,
        {
            if self.listener_collection[i].channels_count < CHANNELS_PER_LISTENER {
                proof {
                    lemma_first_open_props(self.listener_collection@);
                }
                let mut shard = self.listener_collection.remove(i);
                shard.join_channel(channel);
                self.listener_collection.insert(i, shard);
                proof {
                    assert(forall|j: int|
                        0 <= j < self.listener_collection@.len() && j != i
                            ==> #[trigger] self.listener_collection@[j] == old(self).listener_collection@[j]);
                }
                return ;
            }
            i = i + 1;
        }
        let mut shard = Listener::new(Option::None, Option::None);
        shard.join_channel(channel);
        self.listener_collection.push(shard);
    }
}

} // verus!
