//! One physical chat connection: its lifecycle state machine, the channels
//! it has joined, the outbound leaky bucket that paces sends per channel,
//! and the process-wide join-rate limiter.
//!
//! The connection is modelled over a millisecond clock that the caller
//! advances: every step takes `now` and promises what it decides for any
//! such time. The socket itself, and the loops that feed lines in and carry
//! lines out, live with the caller; this type owns every decision they act
//! on.

use vstd::prelude::*;
use vstd::string::*;

use crate::common::channel_data::{Channel, ChannelState};
use crate::common::message_data::{spec_has_tag, MessageData, Type};
use crate::strutil::{
    contains_seq, lower_seq, spec_find, split_once_sub, starts_with_seq, starts_with_sub,
    to_lowercase,
};

verus! {

/// Greatest number of outbound lines the leaky bucket holds at once.
pub const BUCKET_CAPACITY: usize = 100;

/// Least spacing, in milliseconds, between two sends to one channel.
pub const LEAK_RATE_MS: u64 = 1500;

#[derive(Debug, Clone, Copy, PartialEq, Eq, Structural)]
pub enum WebSocketState {
    NotConnected,
    Connecting,
    Connected,
    Disconnected,
    Failed,
}

impl WebSocketState {
    /// The index under which the state is stored in an atomic word.
    pub open spec fn spec_as_index(self) -> usize {
        match self {
            WebSocketState::NotConnected => 0,
            WebSocketState::Connecting => 1,
            WebSocketState::Connected => 2,
            WebSocketState::Disconnected => 3,
            WebSocketState::Failed => 4,
        }
    }

    /// The state a stored index denotes; anything unknown reads as
    /// `Disconnected`.
    pub open spec fn spec_from_index(value: usize) -> WebSocketState {
        if value == 0 {
            WebSocketState::NotConnected
        } else if value == 1 {
            WebSocketState::Connecting
        } else if value == 2 {
            WebSocketState::Connected
        } else if value == 4 {
            WebSocketState::Failed
        } else {
            WebSocketState::Disconnected
        }
    }

    /// The index under which the state is stored in an atomic word.
    pub fn as_index(&self) -> (r: usize)
        ensures
            r == self.spec_as_index(),
            WebSocketState::spec_from_index(r) == *self,
    {
        match self {
            WebSocketState::NotConnected => 0,
            WebSocketState::Connecting => 1,
            WebSocketState::Connected => 2,
            WebSocketState::Disconnected => 3,
            WebSocketState::Failed => 4,
        }
    }
}

impl From<usize> for WebSocketState {
    fn from(value: usize) -> (r: Self) {
        if value == 0 {
            WebSocketState::NotConnected
        } else if value == 1 {
            WebSocketState::Connecting
        } else if value == 2 {
            WebSocketState::Connected
        } else if value == 4 {
            WebSocketState::Failed
        } else {
            WebSocketState::Disconnected
        }
    }
}

impl vstd::std_specs::convert::FromSpecImpl<usize> for WebSocketState {
    open spec fn obeys_from_spec() -> bool {
        true
    }

    open spec fn from_spec(value: usize) -> WebSocketState {
        WebSocketState::spec_from_index(value)
    }
}

/// Ascending order of a sequence of times.
pub open spec fn sorted(s: Seq<int>) -> bool {
    forall|i: int, j: int| 0 <= i < j < s.len() ==> s[i] <= s[j]
}

/// How many entries of `h` fall in the trailing window `(w - period, w]`.
pub open spec fn window_count(h: Seq<int>, period: int, w: int) -> int
    decreases h.len(),
{
    if h.len() == 0 {
        0
    } else {
        window_count(h.drop_last(), period, w) + if w - period < h.last() && h.last() <= w {
            1int
        } else {
            0int
        }
    }
}

/// Every trailing window of length `period` holds at most `max` entries.
pub open spec fn joins_bounded(h: Seq<int>, period: int, max: int) -> bool {
    forall|w: int| window_count(h, period, w) <= max
}

proof fn lemma_window_count_split(h: Seq<int>, period: int, w: int, k: int)
    requires
        0 <= k <= h.len(),
        forall|i: int| 0 <= i < k ==> h[i] <= w - period,
        forall|i: int| k <= i < h.len() ==> w - period < #[trigger] h[i] <= w,
    ensures
        window_count(h, period, w) == h.len() - k,
    decreases h.len(),
{
    if h.len() > 0 {
        if k == h.len() {
            lemma_window_count_split(h.drop_last(), period, w, k - 1);
        } else {
            lemma_window_count_split(h.drop_last(), period, w, k);
        }
    }
}

proof fn lemma_window_count_le_suffix(h: Seq<int>, period: int, w: int, k: int)
    requires
        0 <= k <= h.len(),
        forall|i: int| 0 <= i < k ==> h[i] <= w - period,
    ensures
        window_count(h, period, w) <= h.len() - k,
    decreases h.len(),
{
    if h.len() > 0 {
        if k == h.len() {
            lemma_window_count_le_suffix(h.drop_last(), period, w, k - 1);
        } else {
            lemma_window_count_le_suffix(h.drop_last(), period, w, k);
        }
    }
}

/// The process-wide gate in front of every JOIN command.
///
/// `join_attempts` holds the times of the joins still inside the trailing
/// window; `history` records every join ever granted, so the rate bound can
/// be stated over the whole run.
pub struct JoinRateLimiter {
    join_attempts: Vec<u64>,
    max_attempts: usize,
    period: u64,
    clock: u64,
    history: Ghost<Seq<int>>,
}

/// What one call of [`JoinRateLimiter::wait_and_record`] decides: proceed
/// with the JOIN now, or sleep until the window has room again and retry.
#[derive(Debug, Clone, Copy, PartialEq, Eq, Structural)]
pub enum JoinGate {
    Proceed,
    WaitUntil(u64),
}

impl JoinRateLimiter {
    /// Internal consistency: the attempt list is exactly the in-window
    /// suffix of the join history, and no window ever exceeded the bound.
    pub closed spec fn wf(self) -> bool {
        let h = self.history@;
        let a = self.join_attempts@;
        let k = h.len() - a.len();
        &&& 1 <= self.max_attempts
        &&& 1 <= self.period
        &&& sorted(h)
        &&& a.len() <= h.len()
        &&& a.len() <= self.max_attempts
        &&& forall|i: int| 0 <= i < h.len() ==> 0 <= #[trigger] h[i] <= self.clock as int
        &&& forall|i: int| 0 <= i < a.len() ==> h[k + i] == #[trigger] a[i] as int
        &&& forall|i: int| 0 <= i < k ==> #[trigger] h[i] + self.period <= self.clock as int
        &&& forall|i: int|
            0 <= i < a.len() ==> #[trigger] a[i] + self.period > self.clock
        &&& joins_bounded(h, self.period as int, self.max_attempts as int)
    }

    /// Every join the limiter has granted, in order.
    pub closed spec fn spec_history(self) -> Seq<int> {
        self.history@
    }

    pub closed spec fn spec_period(self) -> int {
        self.period as int
    }

    pub closed spec fn spec_max_attempts(self) -> int {
        self.max_attempts as int
    }

    /// The last time the limiter was consulted.
    pub closed spec fn spec_clock(self) -> int {
        self.clock as int
    }

    /// A fresh limiter that will admit at most `max_attempts` joins within
    /// any trailing window of `period_ms` milliseconds.
    pub fn new(max_attempts: usize, period_ms: u64) -> (r: Self)
        requires
            max_attempts >= 1,
            period_ms >= 1,
        ensures
            r.wf(),
            r.spec_history() == Seq::<int>::empty(),
            r.spec_max_attempts() == max_attempts as int,
            r.spec_period() == period_ms as int,
            r.spec_clock() == 0,
    {
        JoinRateLimiter {
            join_attempts: Vec::new(),
            max_attempts,
            period: period_ms,
            clock: 0,
            history: Ghost(Seq::empty()),
        }
    }

    /// Decides whether a JOIN may be issued at `now`.
    ///
    /// Entries older than the window are discarded; if fewer than
    /// `max_attempts` remain the attempt is recorded and may proceed, else
    /// the caller is told when the oldest in-window attempt ages out. The
    /// caller sleeps until then and calls again; nothing is recorded for a
    /// wait.
    pub fn wait_and_record(&mut self, now: u64) -> (r: JoinGate)
        requires
            old(self).wf(),
            now as int >= old(self).spec_clock(),
            now + old(self).spec_period() <= u64::MAX,
        ensures
            final(self).wf(),
            final(self).spec_max_attempts() == old(self).spec_max_attempts(),
            final(self).spec_period() == old(self).spec_period(),
            final(self).spec_clock() == now as int,
            r == JoinGate::Proceed <==> window_count(
                old(self).spec_history(),
                old(self).spec_period(),
                now as int,
            ) < old(self).spec_max_attempts(),
            match r {
                JoinGate::Proceed => final(self).spec_history() == old(self).spec_history().push(
                    now as int,
                ),
                JoinGate::WaitUntil(u) => final(self).spec_history() == old(self).spec_history()
                    && now < u <= now + old(self).spec_period(),
            },
    {
        let ghost h = self.history@;
        let ghost a0 = self.join_attempts@;
        // Discard attempts that have aged out of the trailing window.
        let mut j: usize = 0;
        let len = self.join_attempts.len();
        while j < len && self.period <= now && self.join_attempts[j] <= now - self.period
            invariant
                0 <= j <= len,
                len == self.join_attempts@.len(),
                self.join_attempts@ == a0,
                forall|i: int|
                    0 <= i < j ==> #[trigger] a0[i] + self.period <= now,
            decreases len - j,
        {
            j = j + 1;
        }
        let tail = self.join_attempts.split_off(j);
        self.join_attempts = tail;
        self.clock = now;
        proof {
            assert(self.join_attempts@ =~= a0.skip(j as int));
            let k = h.len() - a0.len();
            assert forall|i: int| 0 <= i < h.len() - self.join_attempts@.len() implies #[trigger] h[i]
                + self.period <= now by {
                if i >= k {
                    assert(h[i] == a0[i - k] as int);
                    assert(i - k < j);
                }
            }
            assert forall|i: int| 0 <= i < self.join_attempts@.len() implies h[h.len()
                - self.join_attempts@.len() + i] == #[trigger] self.join_attempts@[i] as int by {
                assert(self.join_attempts@[i] == a0[j + i]);
            }
            assert forall|i: int| 0 <= i < self.join_attempts@.len() implies #[trigger] self
                .join_attempts@[i] + self.period > now by {
                if j < a0.len() {
                    // the scan stopped at an attempt still in the window; all
                    // later ones are at least as recent
                    assert(a0[j as int] + self.period > now);
                    assert(h[k + j] == a0[j as int] as int);
                    assert(h[k + j + i] == self.join_attempts@[i] as int);
                    assert(h[k + j] <= h[k + j + i]);
                }
            }
        }
        proof {
            lemma_window_count_split(
                self.history@,
                self.period as int,
                now as int,
                self.history@.len() - self.join_attempts@.len(),
            );
        }
        if self.join_attempts.len() < self.max_attempts {
            self.join_attempts.push(now);
            proof {
                let h2 = h.push(now as int);
                let a2 = self.join_attempts@;
                assert(h2.drop_last() =~= h);
                assert forall|i: int| 0 <= i < a2.len() implies h2[h2.len() - a2.len() + i]
                    == #[trigger] a2[i] as int by {
                    if i < a2.len() - 1 {
                        assert(h2[h2.len() - a2.len() + i] == h[h.len() - (a2.len() - 1) + i]);
                    }
                }
                assert forall|w: int|
                    window_count(h2, self.period as int, w) <= self.max_attempts as int by {
                    assert(window_count(h2, self.period as int, w) == window_count(
                        h,
                        self.period as int,
                        w,
                    ) + if w - self.period < now as int && now as int <= w {
                        1int
                    } else {
                        0int
                    });
                    if w - self.period < now as int && now <= w {
                        lemma_window_count_le_suffix(
                            h,
                            self.period as int,
                            w,
                            h.len() - (a2.len() - 1),
                        );
                    }
                }
                self.history@ = h2;
            }
            JoinGate::Proceed
        } else {
            let first = self.join_attempts[0];
            proof {
                let h = self.history@;
                let k = h.len() - self.join_attempts@.len();
                assert(h[k] == self.join_attempts@[0] as int);
                assert(first <= self.clock);
            }
            JoinGate::WaitUntil(first + self.period)
        }
    }
}

/// No trailing window of the limiter's period ever holds more joins than
/// its bound: the platform's join rate contract, over the whole history.
pub proof fn lemma_join_rate_bounded(limiter: JoinRateLimiter, w: int)
    requires
        limiter.wf(),
    ensures
        window_count(limiter.spec_history(), limiter.spec_period(), w)
            <= limiter.spec_max_attempts(),
{
}

/// Greatest number of characters a message body may carry on the wire.
pub const MESSAGE_CHARACTER_LIMIT: usize = 500;

/// The timeout recorded for channel `c`, scanning from the front.
pub open spec fn lookup_timeout(ts: Seq<(String, u64)>, c: Seq<char>) -> Option<u64>
    decreases ts.len(),
{
    if ts.len() == 0 {
        Option::None
    } else if ts[0].0@ == c {
        Some(ts[0].1)
    } else {
        lookup_timeout(ts.drop_first(), c)
    }
}

proof fn lemma_lookup_first_match(ts: Seq<(String, u64)>, c: Seq<char>, i: int)
    requires
        0 <= i <= ts.len(),
        forall|j: int| 0 <= j < i ==> #[trigger] ts[j].0@ != c,
        i < ts.len() ==> ts[i].0@ == c,
    ensures
        lookup_timeout(ts, c) == if i < ts.len() {
            Some(ts[i].1)
        } else {
            Option::<u64>::None
        },
    decreases ts.len(),
{
    if ts.len() > 0 {
        if i == 0 {
        } else {
            lemma_lookup_first_match(ts.drop_first(), c, i - 1);
        }
    }
}

proof fn lemma_lookup_same(ts1: Seq<(String, u64)>, ts2: Seq<(String, u64)>, c: Seq<char>)
    requires
        ts1.len() == ts2.len(),
        forall|j: int| 0 <= j < ts1.len() ==> #[trigger] ts1[j].0@ == ts2[j].0@,
        forall|j: int|
            0 <= j < ts1.len() && ts1[j].0@ == c ==> #[trigger] ts1[j].1 == ts2[j].1,
    ensures
        lookup_timeout(ts1, c) == lookup_timeout(ts2, c),
    decreases ts1.len(),
{
    if ts1.len() > 0 {
        assert(ts1[0].0@ == ts2[0].0@);
        lemma_lookup_same(ts1.drop_first(), ts2.drop_first(), c);
    }
}

/// The channel a formatted line is bound for: the word after `PRIVMSG #`.
pub open spec fn spec_extract_channel(line: Seq<char>) -> Option<Seq<char>> {
    match spec_find(line, "PRIVMSG #"@) {
        Some(i) => {
            let after = line.skip(i + "PRIVMSG #"@.len());
            match spec_find(after, " "@) {
                Some(k) => Some(after.take(k)),
                None => Option::None,
            }
        },
        None => Option::None,
    }
}

/// Every channel with its membership flag cleared, as a disconnect leaves
/// them.
pub open spec fn cleared(chs: Seq<Channel>) -> Seq<Channel> {
    chs.map_values(
        |c: Channel| Channel { name: c.name, state: ChannelState::NotConnected },
    )
}

/// What [`WebSocket::connect`] decides: the handshake is already under way
/// or done, or one attempt should be made.
#[derive(Debug, Clone, Copy, PartialEq, Eq, Structural)]
pub enum ConnectAction {
    AlreadyActive,
    Attempt,
}

/// One physical connection, modelled over the caller's millisecond clock.
pub struct WebSocket {
    pub username: String,
    pub oauth_token: Option<String>,
    state: WebSocketState,
    channels: Vec<Channel>,
    message_bucket: Vec<String>,
    skipped: Vec<String>,
    channel_timeouts: Vec<(String, u64)>,
    clock: u64,
    pace_until: u64,
    sends: Ghost<Seq<(Seq<char>, int)>>,
}

impl WebSocket {
    pub closed spec fn spec_username(self) -> String {
        self.username
    }

    pub closed spec fn spec_oauth_token(self) -> Option<String> {
        self.oauth_token
    }

    pub closed spec fn spec_state(self) -> WebSocketState {
        self.state
    }

    pub closed spec fn spec_channels(self) -> Seq<Channel> {
        self.channels@
    }

    /// The formatted lines waiting in the leaky bucket, oldest first.
    pub closed spec fn spec_bucket(self) -> Seq<Seq<char>> {
        self.message_bucket@.map_values(|s: String| s@)
    }

    /// Lines set aside during the current pass because their channel is
    /// still cooling down.
    pub closed spec fn spec_skipped(self) -> Seq<Seq<char>> {
        self.skipped@.map_values(|s: String| s@)
    }

    /// Every paced send issued on this connection: channel and time.
    pub closed spec fn spec_sends(self) -> Seq<(Seq<char>, int)> {
        self.sends@
    }

    pub closed spec fn spec_clock(self) -> int {
        self.clock as int
    }

    pub closed spec fn spec_timeouts(self) -> Seq<(String, u64)> {
        self.channel_timeouts@
    }

    /// The instant before which the dispatch loop must not run again: one
    /// leak interval after the last paced send.
    pub closed spec fn spec_pace_until(self) -> int {
        self.pace_until as int
    }

    /// Internal consistency: the bucket is bounded, and the recorded sends
    /// obey the leak rate — any two of them, whatever their channels, lie
    /// at least one leak interval apart, and the pacing mark covers them
    /// all.
    pub closed spec fn wf(self) -> bool {
        let sends = self.sends@;
        &&& self.message_bucket@.len() + self.skipped@.len() <= BUCKET_CAPACITY
        &&& forall|i: int| 0 <= i < sends.len() ==> 0 <= #[trigger] sends[i].1 <= self.clock as int
        &&& forall|i: int|
            0 <= i < sends.len() ==> #[trigger] sends[i].1 + LEAK_RATE_MS <= self.pace_until
        &&& forall|i: int, j: int|
            0 <= i < j < sends.len() ==> #[trigger] sends[j].1 >= #[trigger] sends[i].1
                + LEAK_RATE_MS
        &&& forall|i: int|
            0 <= i < self.channel_timeouts@.len() ==> #[trigger] self.channel_timeouts@[i].1
                <= self.clock + LEAK_RATE_MS
    }

    /// A connection that has never been opened: no channels, an empty
    /// bucket, no sends recorded.
    pub fn new(username: String, oauth_token: Option<String>) -> (r: Self)
        ensures
            r.wf(),
            r.spec_username() == username,
            r.spec_oauth_token() == oauth_token,
            r.spec_state() == WebSocketState::NotConnected,
            r.spec_channels() == Seq::<Channel>::empty(),
            r.spec_bucket() =~= Seq::<Seq<char>>::empty(),
            r.spec_skipped() =~= Seq::<Seq<char>>::empty(),
            r.spec_sends() == Seq::<(Seq<char>, int)>::empty(),
            r.spec_timeouts() == Seq::<(String, u64)>::empty(),
            r.spec_clock() == 0,
            r.spec_pace_until() == 0,
    {
        WebSocket {
            username,
            oauth_token,
            state: WebSocketState::NotConnected,
            channels: Vec::new(),
            message_bucket: Vec::new(),
            skipped: Vec::new(),
            channel_timeouts: Vec::new(),
            clock: 0,
            pace_until: 0,
            sends: Ghost(Seq::empty()),
        }
    }

    pub fn get_state(&self) -> (r: WebSocketState)
        ensures
            r == self.spec_state(),
    {
        self.state
    }

    /// Moves the connection to `state`. A transition to `Disconnected`
    /// clears every channel's membership flag, so that a reconnect joins
    /// them all again.
    pub fn set_state(&mut self, state: WebSocketState)
        requires
            old(self).wf(),
        ensures
            final(self).wf(),
            final(self).spec_state() == state,
            state == WebSocketState::Disconnected ==> final(self).spec_channels() =~= cleared(
                old(self).spec_channels(),
            ),
            state != WebSocketState::Disconnected ==> final(self).spec_channels() == old(self).spec_channels(),
            final(self).spec_username() == old(self).spec_username(),
            final(self).spec_oauth_token() == old(self).spec_oauth_token(),
            final(self).spec_bucket() == old(self).spec_bucket(),
            final(self).spec_skipped() == old(self).spec_skipped(),
            final(self).spec_sends() == old(self).spec_sends(),
            final(self).spec_clock() == old(self).spec_clock(),
            final(self).spec_timeouts() == old(self).spec_timeouts(),
            final(self).spec_pace_until() == old(self).spec_pace_until(),
    {
        self.state = state;
        if matches!(state, WebSocketState::Disconnected) {
            let mut i: usize = 0;
            let len = self.channels.len();
            while i < len
                invariant
                    0 <= i <= len,
                    len == self.channels@.len(),
                    old(self).channels@.len() == len,
                    forall|j: int|
                        i <= j < len ==> #[trigger] self.channels@[j] == old(self).channels@[j],
                    forall|j: int|
                        0 <= j < i ==> #[trigger] self.channels@[j] == (Channel {
                            name: old(self).channels@[j].name,
                            state: ChannelState::NotConnected,
                        }),
                    self.state == state,
                    self.username == old(self).username,
                    self.oauth_token == old(self).oauth_token,
                    self.message_bucket == old(self).message_bucket,
                    self.skipped == old(self).skipped,
                    self.channel_timeouts == old(self).channel_timeouts,
                    self.clock == old(self).clock,
                    self.pace_until == old(self).pace_until,
                    self.sends == old(self).sends,
                decreases len - i,
            {
                self.channels[i].state = ChannelState::NotConnected;
                i = i + 1;
            }
        }
    }

    /// The idempotent entry point of the handshake: while the connection is
    /// already `Connecting` or `Connected` nothing happens; from any other
    /// state one attempt begins and the state becomes `Connecting`. The
    /// caller opens the transport and reports the outcome through
    /// [`WebSocket::set_state`].
    pub fn connect(&mut self) -> (r: ConnectAction)
        requires
            old(self).wf(),
        ensures
            final(self).wf(),
            (old(self).spec_state() == WebSocketState::Connecting || old(self).spec_state()
                == WebSocketState::Connected) ==> r == ConnectAction::AlreadyActive && *final(self)
                == *old(self),
            !(old(self).spec_state() == WebSocketState::Connecting || old(self).spec_state()
                == WebSocketState::Connected) ==> {
                &&& r == ConnectAction::Attempt
                &&& final(self).spec_state() == WebSocketState::Connecting
                &&& final(self).spec_channels() == old(self).spec_channels()
                &&& final(self).spec_bucket() == old(self).spec_bucket()
                &&& final(self).spec_skipped() == old(self).spec_skipped()
                &&& final(self).spec_sends() == old(self).spec_sends()
                &&& final(self).spec_clock() == old(self).spec_clock()
                &&& final(self).spec_timeouts() == old(self).spec_timeouts()
                &&& final(self).spec_pace_until() == old(self).spec_pace_until()
                &&& final(self).spec_username() == old(self).spec_username()
                &&& final(self).spec_oauth_token() == old(self).spec_oauth_token()
            },
    {
        match self.state {
            WebSocketState::Connecting | WebSocketState::Connected => ConnectAction::AlreadyActive,
            _ => {
                self.state = WebSocketState::Connecting;
                ConnectAction::Attempt
            },
        }
    }
}

/// `s` cut to the platform's single-message character limit.
pub open spec fn clip(s: Seq<char>) -> Seq<char> {
    if s.len() <= MESSAGE_CHARACTER_LIMIT {
        s
    } else {
        s.take(MESSAGE_CHARACTER_LIMIT as int)
    }
}

/// The one raw line a channel message is framed as: a threaded reply when
/// the intent names the message it answers, a plain `PRIVMSG` otherwise.
pub open spec fn privmsg_line(m: MessageData) -> Seq<char> {
    let body = match m.reply {
        Some(rep) => rep@,
        None => m.text@,
    };
    let prefix = match (m.reply, m.id) {
        (Some(_), Some(i)) => "@reply-parent-msg-id="@ + i@ + " "@,
        _ => Seq::<char>::empty(),
    };
    prefix + "PRIVMSG #"@ + m.channel@ + " :"@ + clip(body) + "\r\n"@
}

/// The one raw line a whisper is framed as.
pub open spec fn whisper_line(m: MessageData) -> Seq<char>
    recommends
        m.display_name is Some,
        m.reply is Some,
{
    "WHISPER "@ + lower_seq(m.display_name.unwrap()@) + " :"@ + clip(m.reply.unwrap()@) + "\r\n"@
}

/// Cuts `s` to the platform's single-message character limit.
fn clip_exec(s: &str) -> (r: String)
    ensures
        r@ == clip(s@),
{
    let len = s.unicode_len();
    if len <= MESSAGE_CHARACTER_LIMIT {
        String::from_str(s)
    } else {
        String::from_str(s.substring_char(0, MESSAGE_CHARACTER_LIMIT))
    }
}

/// A line from the server the connection reacts to: answer a keepalive,
/// hand a decoded message to the dispatcher, or note the welcome banner
/// that completes the handshake. `Drop` is everything unrecognized.
pub enum InboundAction {
    Pong(String),
    Dispatch(MessageData),
    Welcome,
    Drop,
}

/// The index of the first channel still waiting to be joined.
pub open spec fn first_pending(chs: Seq<Channel>) -> Option<int>
    decreases chs.len(),
{
    if chs.len() == 0 {
        Option::None
    } else if chs[0].state == ChannelState::NotConnected {
        Some(0int)
    } else {
        match first_pending(chs.drop_first()) {
            Some(i) => Some(i + 1),
            None => Option::None,
        }
    }
}

proof fn lemma_first_pending_props(chs: Seq<Channel>)
    ensures
        match first_pending(chs) {
            Some(i) => 0 <= i < chs.len() && chs[i].state == ChannelState::NotConnected
                && forall|j: int|
                0 <= j < i ==> #[trigger] chs[j].state != ChannelState::NotConnected,
            None => forall|j: int|
                0 <= j < chs.len() ==> #[trigger] chs[j].state != ChannelState::NotConnected,
        },
    decreases chs.len(),
{
    if chs.len() > 0 {
        lemma_first_pending_props(chs.drop_first());
        assert(forall|j: int|
            0 <= j < chs.drop_first().len() ==> #[trigger] chs.drop_first()[j] == chs[j + 1]);
        if chs[0].state != ChannelState::NotConnected {
            match first_pending(chs.drop_first()) {
                Some(i) => {
                    assert(chs[i + 1].state == ChannelState::NotConnected);
                    assert forall|j: int| 0 <= j < i + 1 implies #[trigger] chs[j].state
                        != ChannelState::NotConnected by {
                        if j > 0 {
                            assert(chs.drop_first()[j - 1] == chs[j]);
                        }
                    }
                },
                None => {
                    assert forall|j: int| 0 <= j < chs.len() implies #[trigger] chs[j].state
                        != ChannelState::NotConnected by {
                        if j > 0 {
                            assert(chs.drop_first()[j - 1] == chs[j]);
                        }
                    }
                },
            }
        }
    }
}

/// One of the skipped lines is bound for channel `c`.
pub open spec fn skipped_has_channel(skipped: Seq<Seq<char>>, c: Seq<char>) -> bool {
    exists|i: int|
        0 <= i < skipped.len() && spec_extract_channel(#[trigger] skipped[i]) == Some(c)
}

/// What one turn of the leaky-bucket dispatch loop decides.
///
/// `Sent` carries the line to write to the socket; after a paced send the
/// loop sleeps for the leak interval. `Skipped` set one line aside because
/// its channel is still cooling down (or already has an earlier line set
/// aside, which keeps per-channel order). `Requeued` moved the set-aside
/// lines back into the bucket at the end of a pass; `Idle` found nothing
/// to do.
pub enum BucketStep {
    Sent(String),
    Skipped,
    Requeued,
    Idle,
}

impl WebSocket {
    /// The authentication sequence written right after the transport
    /// opens: `PASS` (only with a token), `NICK`, `CAP REQ`. These bypass
    /// the leaky bucket.
    pub fn handshake_lines(&self) -> (r: Vec<String>)
        ensures
            match self.spec_oauth_token() {
                Some(tok) => r@.len() == 3 && r@[0]@ == "PASS "@ + tok@ && r@[1]@ == "NICK "@
                    + self.spec_username()@ && r@[2]@
                    == "CAP REQ :twitch.tv/tags twitch.tv/commands"@,
                None => r@.len() == 2 && r@[0]@ == "NICK "@ + self.spec_username()@ && r@[1]@
                    == "CAP REQ :twitch.tv/tags twitch.tv/commands"@,
            },
    {
        let mut lines: Vec<String> = Vec::new();
        match &self.oauth_token {
            Some(tok) => {
                let mut pass = String::from_str("PASS ");
                pass.append(tok.as_str());
                lines.push(pass);
            },
            None => {},
        }
        let mut nick = String::from_str("NICK ");
        nick.append(self.username.as_str());
        lines.push(nick);
        lines.push(String::from_str("CAP REQ :twitch.tv/tags twitch.tv/commands"));
        lines
    }

    /// Reacts to one line read from the socket: a `PING` is answered at
    /// once with the same payload under `PONG`; a channel message is
    /// decoded and handed over; the welcome banner moves the connection to
    /// `Connected`; anything else is dropped.
    pub fn handle_twitch_receive(&mut self, line: &str, now: u64) -> (r: InboundAction)
        requires
            old(self).wf(),
        ensures
            final(self).wf(),
            final(self).spec_channels() == old(self).spec_channels(),
            final(self).spec_bucket() == old(self).spec_bucket(),
            final(self).spec_skipped() == old(self).spec_skipped(),
            final(self).spec_sends() == old(self).spec_sends(),
            final(self).spec_clock() == old(self).spec_clock(),
            final(self).spec_timeouts() == old(self).spec_timeouts(),
            final(self).spec_pace_until() == old(self).spec_pace_until(),
            final(self).spec_username() == old(self).spec_username(),
            final(self).spec_oauth_token() == old(self).spec_oauth_token(),
            starts_with_seq(line@, "PING"@) ==> {
                &&& final(self).spec_state() == old(self).spec_state()
                &&& r matches InboundAction::Pong(p) && p@ == crate::strutil::replace_all_spec(
                    line@,
                    "PING"@,
                    "PONG"@,
                )
            },
            !starts_with_seq(line@, "PING"@) && contains_seq(line@, "PRIVMSG #"@) ==> {
                &&& final(self).spec_state() == old(self).spec_state()
                &&& match crate::common::message_data::parse_outcome(line@) {
                    Some(_) => r matches InboundAction::Dispatch(m)
                        && crate::common::message_data::parsed_ok(m, line@, now),
                    None => r is Drop,
                }
            },
            !starts_with_seq(line@, "PING"@) && !contains_seq(line@, "PRIVMSG #"@)
                && !contains_seq(line@, "PRIVMSG"@) && contains_seq(line@, ":Welcome, GLHF!"@)
                ==> final(self).spec_state() == WebSocketState::Connected && r is Welcome,
            !starts_with_seq(line@, "PING"@) && !contains_seq(line@, "PRIVMSG #"@) && !(
            !contains_seq(line@, "PRIVMSG"@) && contains_seq(line@, ":Welcome, GLHF!"@)) ==> {
                &&& final(self).spec_state() == old(self).spec_state()
                &&& r is Drop
            },
    {
        if starts_with_sub(line, "PING") {
            proof {
                reveal_strlit("PING");
                assert("PING"@.len() == 4);
            }
            InboundAction::Pong(crate::strutil::replace_all(line, "PING", "PONG"))
        } else if crate::strutil::contains_sub(line, "PRIVMSG #") {
            match MessageData::new(line, now) {
                Some(m) => InboundAction::Dispatch(m),
                None => InboundAction::Drop,
            }
        } else if !crate::strutil::contains_sub(line, "PRIVMSG") && crate::strutil::contains_sub(
            line,
            ":Welcome, GLHF!",
        ) {
            self.set_state(WebSocketState::Connected);
            InboundAction::Welcome
        } else {
            InboundAction::Drop
        }
    }

    /// Frames `message` and offers it to the leaky bucket.
    ///
    /// Returns whether the line was accepted: a full bucket drops the
    /// newest intent, and a message tagged neither `PRIVMSG` nor `WHISPER`
    /// is not sendable. A whisper must carry the recipient and the reply
    /// text it is framed from.
    pub fn send_message(&mut self, message: MessageData) -> (r: bool)
        requires
            old(self).wf(),
            spec_has_tag(message.tags@, Type::WHISPER) && !spec_has_tag(
                message.tags@,
                Type::PRIVMSG,
            ) ==> message.display_name is Some && message.reply is Some,
        ensures
            final(self).wf(),
            final(self).spec_state() == old(self).spec_state(),
            final(self).spec_channels() == old(self).spec_channels(),
            final(self).spec_skipped() == old(self).spec_skipped(),
            final(self).spec_sends() == old(self).spec_sends(),
            final(self).spec_clock() == old(self).spec_clock(),
            final(self).spec_timeouts() == old(self).spec_timeouts(),
            final(self).spec_pace_until() == old(self).spec_pace_until(),
            final(self).spec_username() == old(self).spec_username(),
            final(self).spec_oauth_token() == old(self).spec_oauth_token(),
            ({
                let full = old(self).spec_bucket().len() + old(self).spec_skipped().len()
                    >= BUCKET_CAPACITY;
                if spec_has_tag(message.tags@, Type::PRIVMSG) {
                    if full {
                        r == false && final(self).spec_bucket() == old(self).spec_bucket()
                    } else {
                        r == true && final(self).spec_bucket() =~= old(self).spec_bucket().push(
                            privmsg_line(message),
                        )
                    }
                } else if spec_has_tag(message.tags@, Type::WHISPER) {
                    if full {
                        r == false && final(self).spec_bucket() == old(self).spec_bucket()
                    } else {
                        r == true && final(self).spec_bucket() =~= old(self).spec_bucket().push(
                            whisper_line(message),
                        )
                    }
                } else {
                    r == false && final(self).spec_bucket() == old(self).spec_bucket()
                }
            }),
    {
        let is_privmsg = crate::common::message_data::has_tag(&message.tags, Type::PRIVMSG);
        let is_whisper = crate::common::message_data::has_tag(&message.tags, Type::WHISPER);
        if is_privmsg {
            let mut line = String::new();
            let body: &String = match (&message.reply, &message.id) {
                (Some(rep), Some(ident)) => {
                    line.append("@reply-parent-msg-id=");
                    line.append(ident.as_str());
                    line.append(" ");
                    rep
                },
                (Some(rep), None) => rep,
                _ => &message.text,
            };
            line.append("PRIVMSG #");
            line.append(message.channel.as_str());
            line.append(" :");
            let clipped = clip_exec(body.as_str());
            line.append(clipped.as_str());
            line.append("\r\n");
            proof {
                assert(line@ =~= privmsg_line(message));
            }
            if self.message_bucket.len() + self.skipped.len() < BUCKET_CAPACITY {
                self.message_bucket.push(line);
                proof {
                    assert(self.message_bucket@.map_values(|s: String| s@) =~= old(self).message_bucket@.map_values(|s: String| s@).push(privmsg_line(message)));
                }
                true
            } else {
                false
            }
        } else if is_whisper {
            let mut line = String::from_str("WHISPER ");
            let recipient = match &message.display_name {
                Some(dn) => to_lowercase(dn.as_str()),
                None => String::new(),
            };
            line.append(recipient.as_str());
            line.append(" :");
            let body = match &message.reply {
                Some(rep) => clip_exec(rep.as_str()),
                None => String::new(),
            };
            line.append(body.as_str());
            line.append("\r\n");
            proof {
                assert(line@ =~= whisper_line(message));
            }
            if self.message_bucket.len() + self.skipped.len() < BUCKET_CAPACITY {
                self.message_bucket.push(line);
                proof {
                    assert(self.message_bucket@.map_values(|s: String| s@) =~= old(self).message_bucket@.map_values(|s: String| s@).push(whisper_line(message)));
                }
                true
            } else {
                false
            }
        } else {
            false
        }
    }

    /// The channel a formatted line is bound for, read back out of the
    /// line itself.
    pub fn extract_channel_name(message: &str) -> (r: Option<String>)
        ensures
            match spec_extract_channel(message@) {
                Some(c) => r matches Some(s) && s@ == c,
                None => r is None,
            },
    {
        match split_once_sub(message, "PRIVMSG #") {
            Some((_head, after)) => match split_once_sub(after.as_str(), " ") {
                Some((channel, _rest)) => Some(channel),
                None => Option::None,
            },
            None => Option::None,
        }
    }
}

/// Channel `c` is still cooling down at `now`: its recorded next-eligible
/// time lies in the future.
pub open spec fn cooling_at(ts: Seq<(String, u64)>, c: Seq<char>, now: u64) -> bool {
    match lookup_timeout(ts, c) {
        Some(u) => now < u,
        None => false,
    }
}

proof fn lemma_lookup_push_other(ts: Seq<(String, u64)>, e: (String, u64), d: Seq<char>)
    requires
        e.0@ != d,
    ensures
        lookup_timeout(ts.push(e), d) == lookup_timeout(ts, d),
    decreases ts.len(),
{
    if ts.len() == 0 {
        assert(ts.push(e)[0] == e);
        assert(ts.push(e).drop_first() =~= Seq::<(String, u64)>::empty());
        assert(lookup_timeout(Seq::<(String, u64)>::empty(), d) is None);
        assert(lookup_timeout(ts.push(e), d) is None);
        assert(lookup_timeout(ts, d) is None);
    } else {
        assert(ts.push(e)[0] == ts[0]);
        assert(ts.push(e).drop_first() =~= ts.drop_first().push(e));
        lemma_lookup_push_other(ts.drop_first(), e, d);
        if ts[0].0@ == d {
            assert(lookup_timeout(ts.push(e), d) == Some(ts[0].1));
            assert(lookup_timeout(ts, d) == Some(ts[0].1));
        } else {
            assert(lookup_timeout(ts.push(e), d) == lookup_timeout(ts.drop_first().push(e), d));
            assert(lookup_timeout(ts, d) == lookup_timeout(ts.drop_first(), d));
        }
    }
}

/// The recorded timeout for channel `c`, if one is present.
fn get_timeout(ts: &Vec<(String, u64)>, c: &str) -> (r: Option<u64>)
    ensures
        r == lookup_timeout(ts@, c@),
{
    let mut i: usize = 0;
    let len = ts.len();
    while i < len
        invariant
            0 <= i <= len,
            len == ts@.len(),
            forall|j: int| 0 <= j < i ==> #[trigger] ts@[j].0@ != c@,
        decreases len - i,
    {
        if crate::strutil::str_eq(ts[i].0.as_str(), c) {
            proof {
                lemma_lookup_first_match(ts@, c@, i as int);
            }
            return Some(ts[i].1);
        }
        i = i + 1;
    }
    proof {
        lemma_lookup_first_match(ts@, c@, len as int);
    }
    Option::None
}

/// Records `until` as channel `c`'s next-eligible send time, leaving every
/// other channel's entry as it was.
fn stamp_timeout(ts: &mut Vec<(String, u64)>, c: &str, until: u64)
    ensures
        lookup_timeout(final(ts)@, c@) == Some(until),
        forall|d: Seq<char>|
            d != c@ ==> #[trigger] lookup_timeout(final(ts)@, d) == lookup_timeout(old(ts)@, d),
        forall|i: int|
            0 <= i < final(ts)@.len() ==> #[trigger] final(ts)@[i].1 == until || (exists|j: int|
                0 <= j < old(ts)@.len() && final(ts)@[i] == old(ts)@[j]),
{
    let mut i: usize = 0;
    let len = ts.len();
    while i < len
        invariant
            0 <= i <= len,
            len == ts@.len(),
            ts@ == old(ts)@,
            forall|j: int| 0 <= j < i ==> #[trigger] ts@[j].0@ != c@,
        decreases len - i,
    {
        if crate::strutil::str_eq(ts[i].0.as_str(), c) {
            let ghost before = ts@;
            ts[i] = (String::from_str(c), until);
            proof {
                assert(ts@[i as int].0@ == c@);
                assert(forall|j: int|
                    0 <= j < ts@.len() && j != i ==> #[trigger] ts@[j] == before[j]);
                lemma_lookup_first_match(ts@, c@, i as int);
                assert forall|d: Seq<char>| d != c@ implies #[trigger] lookup_timeout(ts@, d)
                    == lookup_timeout(before, d) by {
                    lemma_lookup_same(ts@, before, d);
                }
                assert forall|k: int| 0 <= k < ts@.len() implies #[trigger] ts@[k].1 == until || (
                exists|j: int| 0 <= j < before.len() && ts@[k] == before[j]) by {
                    if k != i {
                        assert(ts@[k] == before[k]);
                    }
                }
            }
            return ;
        }
        i = i + 1;
    }
    let ghost before = ts@;
    ts.push((String::from_str(c), until));
    proof {
        assert(ts@[len as int].0@ == c@);
        lemma_lookup_first_match(ts@, c@, len as int);
        assert forall|d: Seq<char>| d != c@ implies #[trigger] lookup_timeout(ts@, d)
            == lookup_timeout(before, d) by {
            lemma_lookup_push_other(before, ts@[len as int], d);
        }
        assert forall|k: int| 0 <= k < ts@.len() implies #[trigger] ts@[k].1 == until || (exists|
            j: int,
        | 0 <= j < before.len() && ts@[k] == before[j]) by {
            if k < len {
                assert(ts@[k] == before[k]);
            }
        }
    }
}

/// Whether one of the set-aside lines is bound for channel `c`.
fn skipped_contains(skipped: &Vec<String>, c: &str) -> (r: bool)
    ensures
        r == skipped_has_channel(skipped@.map_values(|s: String| s@), c@),
{
    let ghost view = skipped@.map_values(|s: String| s@);
    let mut i: usize = 0;
    let len = skipped.len();
    while i < len
        invariant
            0 <= i <= len,
            len == skipped@.len(),
            view == skipped@.map_values(|s: String| s@),
            forall|j: int|
                0 <= j < i ==> spec_extract_channel(#[trigger] view[j]) != Some(c@),
        decreases len - i,
    {
        match WebSocket::extract_channel_name(skipped[i].as_str()) {
            Some(ch) => {
                if crate::strutil::str_eq(ch.as_str(), c) {
                    proof {
                        assert(view[i as int] == skipped@[i as int]@);
                        assert(spec_extract_channel(view[i as int]) == Some(c@));
                    }
                    return true;
                }
            },
            None => {},
        }
        proof {
            assert(view[i as int] == skipped@[i as int]@);
        }
        i = i + 1;
    }
    false
}

impl WebSocket {
    /// One turn of the leaky-bucket dispatch loop.
    ///
    /// `pass_now` is the instant the current drain pass started — cooldown
    /// checks use it, as one pass judges every queued line against one
    /// moment. `now` is the current instant; the caller owes the global
    /// pacing of the loop and may not step again before one leak interval
    /// has passed since the last paced send (`now >= spec_pace_until()`,
    /// see [`WebSocket::pace_ready_at`]).
    ///
    /// The head of the bucket is sent unless its channel is still inside
    /// the leak interval (or already has a line set aside, which keeps
    /// per-channel order), in which case it is set aside. An empty bucket
    /// takes the set-aside lines back, or reports an idle pass. A line
    /// that names no channel is sent without pacing.
    pub fn leaky_bucket_step(&mut self, pass_now: u64, now: u64) -> (r: BucketStep)
        requires
            old(self).wf(),
            pass_now <= now,
            now as int >= old(self).spec_clock(),
            now as int >= old(self).spec_pace_until(),
            now + LEAK_RATE_MS <= u64::MAX,
        ensures
            final(self).wf(),
            final(self).spec_clock() == now as int,
            final(self).spec_state() == old(self).spec_state(),
            final(self).spec_channels() == old(self).spec_channels(),
            final(self).spec_username() == old(self).spec_username(),
            final(self).spec_oauth_token() == old(self).spec_oauth_token(),
            old(self).spec_bucket().len() == 0 && old(self).spec_skipped().len() == 0 ==> {
                &&& r is Idle
                &&& final(self).spec_bucket() == old(self).spec_bucket()
                &&& final(self).spec_skipped() == old(self).spec_skipped()
                &&& final(self).spec_sends() == old(self).spec_sends()
                &&& final(self).spec_timeouts() == old(self).spec_timeouts()
                &&& final(self).spec_pace_until() == old(self).spec_pace_until()
            },
            old(self).spec_bucket().len() == 0 && old(self).spec_skipped().len() > 0 ==> {
                &&& r is Requeued
                &&& final(self).spec_bucket() =~= old(self).spec_skipped()
                &&& final(self).spec_skipped() =~= Seq::<Seq<char>>::empty()
                &&& final(self).spec_sends() == old(self).spec_sends()
                &&& final(self).spec_timeouts() == old(self).spec_timeouts()
                &&& final(self).spec_pace_until() == old(self).spec_pace_until()
            },
            old(self).spec_bucket().len() > 0 ==> {
                let line = old(self).spec_bucket()[0];
                &&& final(self).spec_bucket() =~= old(self).spec_bucket().drop_first()
                &&& match spec_extract_channel(line) {
                    None => {
                        &&& r matches BucketStep::Sent(l) && l@ == line
                        &&& final(self).spec_skipped() == old(self).spec_skipped()
                        &&& final(self).spec_sends() == old(self).spec_sends()
                        &&& final(self).spec_timeouts() == old(self).spec_timeouts()
                        &&& final(self).spec_pace_until() == old(self).spec_pace_until()
                    },
                    Some(c) => if cooling_at(old(self).spec_timeouts(), c, pass_now)
                        || skipped_has_channel(old(self).spec_skipped(), c) {
                        &&& r is Skipped
                        &&& final(self).spec_skipped() =~= old(self).spec_skipped().push(line)
                        &&& final(self).spec_sends() == old(self).spec_sends()
                        &&& final(self).spec_timeouts() == old(self).spec_timeouts()
                        &&& final(self).spec_pace_until() == old(self).spec_pace_until()
                    } else {
                        &&& r matches BucketStep::Sent(l) && l@ == line
                        &&& final(self).spec_skipped() == old(self).spec_skipped()
                        &&& final(self).spec_sends() =~= old(self).spec_sends().push(
                            (c, now as int),
                        )
                        &&& lookup_timeout(final(self).spec_timeouts(), c) == Some(
                            (pass_now + LEAK_RATE_MS) as u64,
                        )
                        &&& forall|d: Seq<char>|
                            d != c ==> #[trigger] lookup_timeout(final(self).spec_timeouts(), d)
                                == lookup_timeout(old(self).spec_timeouts(), d)
                        &&& final(self).spec_pace_until() == now + LEAK_RATE_MS
                    },
                }
            },
    {
        self.clock = now;
        if self.message_bucket.len() == 0 {
            if self.skipped.len() == 0 {
                return BucketStep::Idle;
            }
            let mut drained: Vec<String> = Vec::new();
            core::mem::swap(&mut drained, &mut self.skipped);
            self.message_bucket.append(&mut drained);
            proof {
                assert(self.message_bucket@ =~= old(self).skipped@);
                assert(self.skipped@ =~= Seq::<String>::empty());
                assert(self.skipped@.map_values(|s: String| s@) =~= Seq::<Seq<char>>::empty());
            }
            return BucketStep::Requeued;
        }
        let line = self.message_bucket.remove(0);
        proof {
            assert(self.message_bucket@.map_values(|s: String| s@) =~= old(self).message_bucket@.map_values(|s: String| s@).drop_first());
            assert(line@ == old(self).spec_bucket()[0]);
        }
        match Self::extract_channel_name(line.as_str()) {
            Some(channel) => {
                let cooling = match get_timeout(&self.channel_timeouts, channel.as_str()) {
                    Some(u) => pass_now < u,
                    None => false,
                };
                let held = skipped_contains(&self.skipped, channel.as_str());
                if cooling || held {
                    self.skipped.push(line);
                    proof {
                        assert(self.skipped@.map_values(|s: String| s@) =~= old(self).skipped@.map_values(|s: String| s@).push(
                            old(self).spec_bucket()[0],
                        ));
                    }
                    BucketStep::Skipped
                } else {
                    let ghost ts_before = self.channel_timeouts@;
                    let ghost sends_before = self.sends@;
                    stamp_timeout(
                        &mut self.channel_timeouts,
                        channel.as_str(),
                        pass_now + LEAK_RATE_MS,
                    );
                    self.pace_until = now + LEAK_RATE_MS;
                    proof {
                        self.sends@ = self.sends@.push((channel@, now as int));
                        let s2 = self.sends@;
                        assert forall|i: int| 0 <= i < s2.len() implies {
                            &&& 0 <= #[trigger] s2[i].1 <= self.clock as int
                            &&& s2[i].1 + LEAK_RATE_MS <= self.pace_until
                        } by {
                            if i < s2.len() - 1 {
                                assert(s2[i] == sends_before[i]);
                                assert(sends_before[i].1 + LEAK_RATE_MS <= old(self).pace_until);
                            }
                        }
                        assert forall|i: int, j: int|
                            0 <= i < j < s2.len() implies #[trigger] s2[j].1 >= #[trigger] s2[i].1
                            + LEAK_RATE_MS by {
                            if j == s2.len() - 1 {
                                assert(s2[i] == sends_before[i]);
                                assert(sends_before[i].1 + LEAK_RATE_MS <= old(self).pace_until);
                            } else {
                                assert(s2[i] == sends_before[i] && s2[j] == sends_before[j]);
                            }
                        }
                        assert forall|i: int|
                            0 <= i < self.channel_timeouts@.len() implies #[trigger] self
                            .channel_timeouts@[i].1 <= self.clock + LEAK_RATE_MS by {
                            if self.channel_timeouts@[i].1 != pass_now + LEAK_RATE_MS {
                                let j = choose|j: int|
                                    0 <= j < ts_before.len() && self.channel_timeouts@[i]
                                        == ts_before[j];
                                assert(ts_before[j].1 <= old(self).clock + LEAK_RATE_MS);
                            }
                        }
                    }
                    BucketStep::Sent(line)
                }
            },
            None => BucketStep::Sent(line),
        }
    }
}

/// What one call of [`WebSocket::join_pending_channels`] decides: issue
/// the JOIN line for the first pending channel, sleep until the join
/// window has room, or report that nothing is pending.
pub enum JoinStep {
    Join(String),
    Wait(u64),
    Idle,
}

impl WebSocket {
    /// Subscribes the connection to `channel_name`: a channel is created
    /// on first request, found by case-insensitive name afterwards, and
    /// joined by the next pass of [`WebSocket::join_pending_channels`].
    /// Returns whether the channel was new to this connection.
    pub fn join_channel(&mut self, channel_name: &str) -> (added: bool)
        requires
            old(self).wf(),
        ensures
            final(self).wf(),
            added == !(exists|i: int|
                0 <= i < old(self).spec_channels().len() && crate::strutil::eq_ignore_case_spec(
                    #[trigger] old(self).spec_channels()[i].name@,
                    channel_name@,
                )),
            final(self).spec_state() == old(self).spec_state(),
            final(self).spec_bucket() == old(self).spec_bucket(),
            final(self).spec_skipped() == old(self).spec_skipped(),
            final(self).spec_sends() == old(self).spec_sends(),
            final(self).spec_clock() == old(self).spec_clock(),
            final(self).spec_timeouts() == old(self).spec_timeouts(),
            final(self).spec_pace_until() == old(self).spec_pace_until(),
            final(self).spec_username() == old(self).spec_username(),
            final(self).spec_oauth_token() == old(self).spec_oauth_token(),
            (exists|i: int|
                0 <= i < old(self).spec_channels().len() && crate::strutil::eq_ignore_case_spec(
                    #[trigger] old(self).spec_channels()[i].name@,
                    channel_name@,
                )) ==> final(self).spec_channels() == old(self).spec_channels(),
            !(exists|i: int|
                0 <= i < old(self).spec_channels().len() && crate::strutil::eq_ignore_case_spec(
                    #[trigger] old(self).spec_channels()[i].name@,
                    channel_name@,
                )) ==> {
                &&& final(self).spec_channels().len() == old(self).spec_channels().len() + 1
                &&& forall|i: int|
                    0 <= i < old(self).spec_channels().len() ==> #[trigger] final(self).spec_channels()[i] == old(self).spec_channels()[i]
                &&& final(self).spec_channels().last().name@ == channel_name@
                &&& final(self).spec_channels().last().state == ChannelState::NotConnected
            },
    {
        let mut i: usize = 0;
        let len = self.channels.len();
        while i < len
            invariant
                0 <= i <= len,
                len == self.channels@.len(),
                *self == *old(self),
                old(self).wf(),
                forall|j: int|
                    0 <= j < i ==> !crate::strutil::eq_ignore_case_spec(
                        #[trigger] self.channels@[j].name@,
                        channel_name@,
                    ),
            decreases len - i,
        {
            if crate::strutil::eq_ignore_case(self.channels[i].name.as_str(), channel_name) {
                return false;
            }
            i = i + 1;
        }
        self.channels.push(
            Channel { name: String::from_str(channel_name), state: ChannelState::NotConnected },
        );
        true
    }

    /// Issues JOINs for channels not yet joined on this socket, one per
    /// call, each gated by the shared join limiter.
    ///
    /// While the connection is not `Connected`, or no channel is pending,
    /// nothing happens. Otherwise the first pending channel either gets
    /// its JOIN line — it is then marked joined, and the caller writes the
    /// line to the socket — or the limiter's window is full and the caller
    /// is told until when to sleep.
    pub fn join_pending_channels(
        &mut self,
        limiter: &mut JoinRateLimiter,
        now: u64,
    ) -> (r: JoinStep)
        requires
            old(self).wf(),
            old(limiter).wf(),
            now as int >= old(limiter).spec_clock(),
            now + old(limiter).spec_period() <= u64::MAX,
        ensures
            final(self).wf(),
            final(limiter).wf(),
            final(limiter).spec_max_attempts() == old(limiter).spec_max_attempts(),
            final(limiter).spec_period() == old(limiter).spec_period(),
            final(self).spec_state() == old(self).spec_state(),
            final(self).spec_bucket() == old(self).spec_bucket(),
            final(self).spec_skipped() == old(self).spec_skipped(),
            final(self).spec_sends() == old(self).spec_sends(),
            final(self).spec_clock() == old(self).spec_clock(),
            final(self).spec_timeouts() == old(self).spec_timeouts(),
            final(self).spec_pace_until() == old(self).spec_pace_until(),
            final(self).spec_username() == old(self).spec_username(),
            final(self).spec_oauth_token() == old(self).spec_oauth_token(),
            old(self).spec_state() != WebSocketState::Connected ==> r is Idle && final(self).spec_channels() == old(self).spec_channels() && *final(limiter) == *old(limiter),
            (old(self).spec_state() == WebSocketState::Connected && first_pending(
                old(self).spec_channels(),
            ) is None) ==> (r is Idle && final(self).spec_channels() == old(self).spec_channels()
                && *final(limiter) == *old(limiter)),
            old(self).spec_state() == WebSocketState::Connected ==> (first_pending(
                old(self).spec_channels(),
            ) matches Some(i) ==> {
                &&& final(limiter).spec_clock() == now as int
                &&& match r {
                    JoinStep::Join(l) => {
                        &&& l@ == "JOIN #"@ + lower_seq(old(self).spec_channels()[i].name@)
                        &&& final(self).spec_channels().len() == old(self).spec_channels().len()
                        &&& forall|j: int|
                            0 <= j < old(self).spec_channels().len() && j != i
                                ==> #[trigger] final(self).spec_channels()[j] == old(self).spec_channels()[j]
                        &&& final(self).spec_channels()[i].name == old(self).spec_channels()[i].name
                        &&& final(self).spec_channels()[i].state == ChannelState::Connected
                        &&& final(limiter).spec_history() == old(limiter).spec_history().push(
                            now as int,
                        )
                    },
                    JoinStep::Wait(u) => {
                        &&& now < u <= now + old(limiter).spec_period()
                        &&& final(self).spec_channels() == old(self).spec_channels()
                        &&& final(limiter).spec_history() == old(limiter).spec_history()
                    },
                    JoinStep::Idle => false,
                }
            }),
    {
        if !matches!(self.state, WebSocketState::Connected) {
            return JoinStep::Idle;
        }
        proof {
            lemma_first_pending_props(self.channels@);
        }
        let mut i: usize = 0;
        let len = self.channels.len();
        while i < len
            invariant
                0 <= i <= len,
                len == self.channels@.len(),
                *self == *old(self),
                *limiter == *old(limiter),
                old(self).wf(),
                old(limiter).wf(),
                old(self).spec_state() == WebSocketState::Connected,
                now as int >= old(limiter).spec_clock(),
                now + old(limiter).spec_period() <= u64::MAX,
                forall|j: int|
                    0 <= j < i ==> #[trigger] self.channels@[j].state
                        != ChannelState::NotConnected,
            decreases len - i,
        {
            if matches!(self.channels[i].state, ChannelState::NotConnected) {
                proof {
                    lemma_first_pending_props(self.channels@);
                }
                match limiter.wait_and_record(now) {
                    JoinGate::Proceed => {
                        let name = self.channels[i].name.clone();
                        let mut line = String::from_str("JOIN #");
                        let lowered = to_lowercase(name.as_str());
                        line.append(lowered.as_str());
                        self.channels[i] = Channel {
                            name,
                            state: ChannelState::Connected,
                        };
                        proof {
                            assert(line@ =~= "JOIN #"@ + lower_seq(
                                old(self).spec_channels()[i as int].name@,
                            ));
                        }
                        return JoinStep::Join(line);
                    },
                    JoinGate::WaitUntil(u) => {
                        return JoinStep::Wait(u);
                    },
                }
            }
            i = i + 1;
        }
        JoinStep::Idle
    }

    /// The raw line that leaves a channel. The caller writes it to the
    /// socket; membership bookkeeping is not changed by leaving.
    pub fn leave_channel(&self, channel_name: &str) -> (r: String)
        ensures
            r@ == "PART #"@ + lower_seq(channel_name@),
    {
        let mut line = String::from_str("PART #");
        let lowered = to_lowercase(channel_name);
        line.append(lowered.as_str());
        proof {
            assert(line@ =~= "PART #"@ + lower_seq(channel_name@));
        }
        line
    }

    /// The names of the channels this connection tracks, in the order they
    /// were requested.
    pub fn channel_names(&self) -> (r: Vec<String>)
        ensures
            r@.len() == self.spec_channels().len(),
            forall|i: int|
                0 <= i < r@.len() ==> #[trigger] r@[i]@ == self.spec_channels()[i].name@,
    {
        let mut names: Vec<String> = Vec::new();
        let mut i: usize = 0;
        let len = self.channels.len();
        while i < len
            invariant
                0 <= i <= len,
                len == self.channels@.len(),
                names@.len() == i,
                forall|j: int| 0 <= j < i ==> #[trigger] names@[j]@ == self.channels@[j].name@,
            decreases len - i,
        {
            names.push(self.channels[i].name.clone());
            i = i + 1;
        }
        names
    }

    /// The instant from which the dispatch loop may run again: one leak
    /// interval after the last paced send. The loop sleeps until then.
    pub fn pace_ready_at(&self) -> (r: u64)
        ensures
            r as int == self.spec_pace_until(),
    {
        self.pace_until
    }

    /// How many lines wait in the bucket and the set-aside list together.
    pub fn pending_line_count(&self) -> (r: usize)
        requires
            self.wf(),
        ensures
            r == self.spec_bucket().len() + self.spec_skipped().len(),
    {
        self.message_bucket.len() + self.skipped.len()
    }
}

/// Two sends to the same channel are never closer than the leak interval:
/// the wire never sees the per-channel rate contract broken.
pub proof fn lemma_per_channel_leak_rate(ws: WebSocket, i: int, j: int)
    requires
        ws.wf(),
        0 <= i < j < ws.spec_sends().len(),
        ws.spec_sends()[i].0 == ws.spec_sends()[j].0,
    ensures
        ws.spec_sends()[j].1 >= ws.spec_sends()[i].1 + LEAK_RATE_MS,
{
}

/// Any two paced sends of one connection, whatever their channels, are at
/// least one leak interval apart: the dispatch loop's global pacing.
pub proof fn lemma_global_leak_rate(ws: WebSocket, i: int, j: int)
    requires
        ws.wf(),
        0 <= i < j < ws.spec_sends().len(),
    ensures
        ws.spec_sends()[j].1 >= ws.spec_sends()[i].1 + LEAK_RATE_MS,
{
}

/// A transition to `Disconnected` leaves every channel present but not
/// joined: the supervisor that later re-issues JOINs finds them all
/// pending.
pub proof fn lemma_disconnect_clears_membership(chs: Seq<Channel>)
    ensures
        cleared(chs).len() == chs.len(),
        forall|i: int|
            0 <= i < chs.len() ==> #[trigger] cleared(chs)[i].state
                == ChannelState::NotConnected && cleared(chs)[i].name == chs[i].name,
{
}

} // verus!
