use chapterverse::chat::client::{
    ConnectAction, JoinGate, JoinRateLimiter, JoinStep, WebSocket, WebSocketState,
};

#[test]
fn join_rate_window_rolls() {
    // Scenario: 25 join requests at once under a 20-per-10s limit; exactly
    // 20 proceed at first, the rest only after the window rolls.
    let mut limiter = JoinRateLimiter::new(20, 10_000);
    let mut granted = 0;
    let mut waits = Vec::new();
    for _ in 0..25 {
        match limiter.wait_and_record(0) {
            JoinGate::Proceed => granted += 1,
            JoinGate::WaitUntil(u) => waits.push(u),
        }
    }
    assert_eq!(granted, 20);
    assert_eq!(waits, vec![10_000; 5]);

    // before the window rolls, nothing more is granted
    assert!(matches!(limiter.wait_and_record(9_999), JoinGate::WaitUntil(_)));

    // once the first attempts age out, the remaining five proceed
    let mut late_granted = 0;
    for _ in 0..5 {
        match limiter.wait_and_record(10_000) {
            JoinGate::Proceed => late_granted += 1,
            JoinGate::WaitUntil(_) => {}
        }
    }
    assert_eq!(late_granted, 5);
}

#[test]
fn connect_is_idempotent_while_active() {
    let mut ws = WebSocket::new(String::from("bot"), None);
    assert_eq!(ws.connect(), ConnectAction::Attempt);
    assert_eq!(ws.get_state(), WebSocketState::Connecting);
    assert_eq!(ws.connect(), ConnectAction::AlreadyActive);
    assert_eq!(ws.get_state(), WebSocketState::Connecting);
    ws.set_state(WebSocketState::Connected);
    assert_eq!(ws.connect(), ConnectAction::AlreadyActive);
    // after a disconnect, another attempt is made
    ws.set_state(WebSocketState::Disconnected);
    assert_eq!(ws.connect(), ConnectAction::Attempt);
    ws.set_state(WebSocketState::Failed);
    assert_eq!(ws.connect(), ConnectAction::Attempt);
}

fn collect_joins(ws: &mut WebSocket, limiter: &mut JoinRateLimiter, now: u64) -> Vec<String> {
    let mut lines = Vec::new();
    loop {
        match ws.join_pending_channels(limiter, now) {
            JoinStep::Join(line) => lines.push(line),
            JoinStep::Wait(_) => panic!("the limiter should have room here"),
            JoinStep::Idle => return lines,
        }
    }
}

#[test]
fn disconnect_clears_membership_and_rejoins() {
    // A disconnect resets every membership flag, and the supervisor's next
    // pass issues every JOIN again.
    let mut ws = WebSocket::new(String::from("bot"), None);
    let mut limiter = JoinRateLimiter::new(20, 10_000);
    ws.join_channel("Alpha");
    ws.join_channel("beta");
    ws.join_channel("ALPHA"); // same channel, case-insensitively
    assert_eq!(ws.channel_names(), vec![String::from("Alpha"), String::from("beta")]);

    // no JOIN leaves before the handshake is done
    assert!(matches!(ws.join_pending_channels(&mut limiter, 0), JoinStep::Idle));

    ws.connect();
    ws.set_state(WebSocketState::Connected);
    let first_round = collect_joins(&mut ws, &mut limiter, 1);
    assert_eq!(first_round, vec![String::from("JOIN #alpha"), String::from("JOIN #beta")]);

    // already joined: nothing further to do
    assert!(collect_joins(&mut ws, &mut limiter, 2).is_empty());

    ws.set_state(WebSocketState::Disconnected);
    ws.connect();
    ws.set_state(WebSocketState::Connected);
    let second_round = collect_joins(&mut ws, &mut limiter, 3);
    assert_eq!(second_round, vec![String::from("JOIN #alpha"), String::from("JOIN #beta")]);
}

#[test]
fn joins_respect_the_limiter() {
    let mut ws = WebSocket::new(String::from("bot"), None);
    let mut limiter = JoinRateLimiter::new(2, 10_000);
    ws.join_channel("one");
    ws.join_channel("two");
    ws.join_channel("three");
    ws.set_state(WebSocketState::Connected);
    assert!(matches!(ws.join_pending_channels(&mut limiter, 0), JoinStep::Join(_)));
    assert!(matches!(ws.join_pending_channels(&mut limiter, 0), JoinStep::Join(_)));
    match ws.join_pending_channels(&mut limiter, 0) {
        JoinStep::Wait(u) => assert_eq!(u, 10_000),
        _ => panic!("the third join must wait for the window"),
    }
    match ws.join_pending_channels(&mut limiter, 10_000) {
        JoinStep::Join(line) => assert_eq!(line, "JOIN #three"),
        _ => panic!("the third join proceeds once the window rolls"),
    }
}

#[test]
fn handshake_lines_follow_the_credentials() {
    let anon = WebSocket::new(String::from("justinfan12345"), None);
    let lines = anon.handshake_lines();
    assert_eq!(
        lines,
        vec![
            String::from("NICK justinfan12345"),
            String::from("CAP REQ :twitch.tv/tags twitch.tv/commands"),
        ]
    );

    let real = WebSocket::new(String::from("bot"), Some(String::from("oauth:secret")));
    let lines = real.handshake_lines();
    assert_eq!(
        lines,
        vec![
            String::from("PASS oauth:secret"),
            String::from("NICK bot"),
            String::from("CAP REQ :twitch.tv/tags twitch.tv/commands"),
        ]
    );
}

#[test]
fn leave_channel_formats_a_part_line() {
    let ws = WebSocket::new(String::from("bot"), None);
    assert_eq!(ws.leave_channel("SomeChannel"), "PART #somechannel");
}
