use chapterverse::chat::client::{ConnectAction, WebSocketState};
use chapterverse::common::message_data::{MessageData, Type};
use chapterverse::chat::listener::Listener;
use chapterverse::chat::listeners::Listeners;
use chapterverse::chat::replier::{MonitorAction, Replier};
use chapterverse::chat::client::BucketStep;

#[test]
fn six_channels_fill_one_shard_and_start_another() {
    // Scenario: adding a, b, c, d, e, f one at a time with five channels
    // per listener leaves shard one with {a..e} and shard two with {f}.
    let mut pool = Listeners::new();
    for name in ["a", "b", "c", "d", "e", "f"] {
        pool.add_channel(name);
    }
    assert_eq!(pool.shard_count(), 2);
    assert_eq!(
        pool.shard_channels(0),
        vec![
            String::from("a"),
            String::from("b"),
            String::from("c"),
            String::from("d"),
            String::from("e"),
        ]
    );
    assert_eq!(pool.shard_channels(1), vec![String::from("f")]);
    assert_eq!(pool.shard_state(0), WebSocketState::NotConnected);
}

#[test]
fn eleventh_channel_creates_a_third_shard() {
    let mut pool = Listeners::new();
    for i in 0..11 {
        pool.add_channel(&format!("chan{}", i));
    }
    assert_eq!(pool.shard_count(), 3);
    assert_eq!(pool.shard_channels(2), vec![String::from("chan10")]);
}

#[test]
fn anonymous_listener_gets_a_generated_name() {
    let listener = Listener::new(None, None);
    assert!(listener.username.starts_with("justinfan"));
    assert_eq!(listener.username.len(), "justinfan".len() + 5);
    assert!(listener.username["justinfan".len()..].chars().all(|c| c.is_ascii_digit()));
    assert_eq!(listener.channels_count, 0);
    assert_eq!(listener.get_state(), WebSocketState::NotConnected);
}

#[test]
fn named_listener_keeps_its_name() {
    let listener = Listener::new(Some(String::from("watcher")), None);
    assert_eq!(listener.username, "watcher");
}

#[test]
fn listener_counts_channels() {
    let mut listener = Listener::new(Some(String::from("watcher")), None);
    listener.join_channel("a");
    listener.join_channel("b");
    assert_eq!(listener.channels_count, 2);
    let part = listener.leave_channel("B");
    assert_eq!(part, "PART #b");
    assert_eq!(listener.channels_count, 1);
}

#[test]
fn repeated_channel_is_counted_once() {
    // The count follows the distinct channels the connection tracks, so a
    // repeated name, in any case, raises nothing.
    let mut listener = Listener::new(Some(String::from("watcher")), None);
    listener.join_channel("alpha");
    listener.join_channel("ALPHA");
    listener.join_channel("alpha");
    assert_eq!(listener.channels_count, 1);
}

#[test]
fn pool_does_not_count_a_repeated_channel_as_load() {
    // A shard fed the same channel again keeps both its list and its
    // count, so five repeats do not pass for a full shard.
    let mut pool = Listeners::new();
    for _ in 0..6 {
        pool.add_channel("echo");
    }
    assert_eq!(pool.shard_count(), 1);
    assert_eq!(pool.shard_channels(0), vec![String::from("echo")]);
    for name in ["b", "c", "d", "e"] {
        pool.add_channel(name);
    }
    assert_eq!(pool.shard_count(), 1);
    pool.add_channel("f");
    assert_eq!(pool.shard_count(), 2);
    assert_eq!(pool.shard_channels(1), vec![String::from("f")]);
}

#[test]
fn replier_frames_and_sends_replies() {
    let mut replier = Replier::new("bot", "oauth:secret");
    assert_eq!(replier.get_state(), WebSocketState::NotConnected);
    assert_eq!(
        replier.handshake_lines(),
        vec![
            String::from("PASS oauth:secret"),
            String::from("NICK bot"),
            String::from("CAP REQ :twitch.tv/tags twitch.tv/commands"),
        ]
    );
    assert!(replier.send_message("chan", "Jesus is Lord!").is_ok());
    match replier.leaky_bucket_step(0, 0) {
        BucketStep::Sent(line) => assert_eq!(line, "PRIVMSG #chan :Jesus is Lord!\r\n"),
        _ => panic!("the reply should leave at once"),
    }
}

#[test]
fn replier_forwards_prepared_intents() {
    let mut replier = Replier::new("bot", "oauth:secret");

    let mut reply = MessageData::default(0);
    reply.channel = String::from("chan");
    reply.text = String::from("unused");
    reply.reply = Some(String::from("answered"));
    reply.id = Some(String::from("m1"));
    reply.tags = vec![Type::PRIVMSG];
    assert!(replier.reply_message(reply));
    match replier.leaky_bucket_step(0, 0) {
        BucketStep::Sent(line) => {
            assert_eq!(line, "@reply-parent-msg-id=m1 PRIVMSG #chan :answered\r\n")
        }
        _ => panic!("the threaded reply should leave at once"),
    }
    // the paced send holds the loop for one leak interval
    assert_eq!(replier.pace_ready_at(), 1500);

    let mut whisper = MessageData::default(0);
    whisper.display_name = Some(String::from("Someone"));
    whisper.reply = Some(String::from("quietly"));
    whisper.tags = vec![Type::WHISPER];
    assert!(replier.reply_message(whisper));
    match replier.leaky_bucket_step(1500, 1500) {
        BucketStep::Sent(line) => assert_eq!(line, "WHISPER someone :quietly\r\n"),
        _ => panic!("the whisper should leave at once"),
    }
}

#[test]
fn listener_connect_is_idempotent() {
    let mut listener = Listener::new(Some(String::from("watcher")), None);
    assert_eq!(listener.connect(), ConnectAction::Attempt);
    assert_eq!(listener.get_state(), WebSocketState::Connecting);
    assert_eq!(listener.connect(), ConnectAction::AlreadyActive);
}

#[test]
fn monitor_decisions_cover_every_state_pair() {
    assert_eq!(
        Replier::monitor_connection(WebSocketState::NotConnected, WebSocketState::Connected),
        MonitorAction::Healthy
    );
    assert_eq!(
        Replier::monitor_connection(WebSocketState::Connected, WebSocketState::Connected),
        MonitorAction::Healthy
    );
    assert_eq!(
        Replier::monitor_connection(WebSocketState::Connected, WebSocketState::Disconnected),
        MonitorAction::ObserveDisconnect
    );
    assert_eq!(
        Replier::monitor_connection(WebSocketState::Disconnected, WebSocketState::Disconnected),
        MonitorAction::Reconnect
    );
    assert_eq!(
        Replier::monitor_connection(WebSocketState::NotConnected, WebSocketState::NotConnected),
        MonitorAction::Reconnect
    );
    assert_eq!(
        Replier::monitor_connection(WebSocketState::Failed, WebSocketState::Failed),
        MonitorAction::Reconnect
    );
}

#[test]
fn state_round_trips_through_its_index() {
    for state in [
        WebSocketState::NotConnected,
        WebSocketState::Connecting,
        WebSocketState::Connected,
        WebSocketState::Disconnected,
        WebSocketState::Failed,
    ] {
        assert_eq!(WebSocketState::from(state.as_index()), state);
    }
    // unknown stored values read as Disconnected
    assert_eq!(WebSocketState::from(7usize), WebSocketState::Disconnected);
}
