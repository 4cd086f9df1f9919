use chapterverse::chat::client::{BucketStep, WebSocket, BUCKET_CAPACITY, LEAK_RATE_MS};
use chapterverse::common::message_data::{MessageData, Type};

fn intent(channel: &str, text: &str) -> MessageData {
    let mut m = MessageData::default(0);
    m.channel = String::from(channel);
    m.text = String::from(text);
    m.tags = vec![Type::PRIVMSG];
    m
}

/// One pass of the dispatch loop: cooldowns are judged against `pass_now`
/// (the instant the pass started), sends happen at `now`. Steps until a
/// line is sent, or until a second requeue shows this pass can make no
/// further progress.
fn drive_until_sent(ws: &mut WebSocket, pass_now: u64, now: u64) -> Option<String> {
    let mut requeues = 0;
    let mut guard = 0;
    loop {
        match ws.leaky_bucket_step(pass_now, now) {
            BucketStep::Sent(line) => return Some(line),
            BucketStep::Skipped => {}
            BucketStep::Requeued => {
                requeues += 1;
                if requeues > 1 {
                    return None;
                }
            }
            BucketStep::Idle => return None,
        }
        guard += 1;
        if guard > 1000 {
            panic!("dispatch loop made no progress");
        }
    }
}

#[test]
fn leaky_bucket_paces_one_channel() {
    // Scenario: three intents for one channel land within 10 ms; the
    // second and third leave no earlier than 1.5 s and 3.0 s after the
    // first.
    let mut ws = WebSocket::new(String::from("bot"), None);
    assert!(ws.send_message(intent("foo", "one")));
    assert!(ws.send_message(intent("foo", "two")));
    assert!(ws.send_message(intent("foo", "three")));

    let first = drive_until_sent(&mut ws, 0, 0).expect("first message goes out at once");
    assert_eq!(first, "PRIVMSG #foo :one\r\n");
    // the loop may not run again before the leak interval has passed
    assert_eq!(ws.pace_ready_at(), LEAK_RATE_MS);

    // a pass still judging cooldowns at its start instant sends nothing
    assert!(drive_until_sent(&mut ws, 0, 1500).is_none());

    let second =
        drive_until_sent(&mut ws, 1500, 1500).expect("second message after the leak interval");
    assert_eq!(second, "PRIVMSG #foo :two\r\n");
    assert_eq!(ws.pace_ready_at(), 3000);

    assert!(drive_until_sent(&mut ws, 1500, 3000).is_none());
    let third =
        drive_until_sent(&mut ws, 3000, 3000).expect("third message a further interval later");
    assert_eq!(third, "PRIVMSG #foo :three\r\n");
}

#[test]
fn cooling_channel_does_not_block_others() {
    let mut ws = WebSocket::new(String::from("bot"), None);
    assert!(ws.send_message(intent("hot", "a")));
    assert!(ws.send_message(intent("hot", "b")));
    assert!(ws.send_message(intent("calm", "c")));

    assert_eq!(drive_until_sent(&mut ws, 0, 0).as_deref(), Some("PRIVMSG #hot :a\r\n"));
    // within the same pass, the second line for `hot` is set aside but
    // `calm` goes out
    assert_eq!(drive_until_sent(&mut ws, 0, 1500).as_deref(), Some("PRIVMSG #calm :c\r\n"));
    assert!(drive_until_sent(&mut ws, 0, 3000).is_none());
    assert_eq!(drive_until_sent(&mut ws, 3000, 3000).as_deref(), Some("PRIVMSG #hot :b\r\n"));
}

#[test]
fn bucket_drops_excess_enqueues() {
    // The queue never exceeds its capacity; the excess enqueues report
    // the drop.
    let mut ws = WebSocket::new(String::from("bot"), None);
    for i in 0..BUCKET_CAPACITY {
        assert!(ws.send_message(intent("chan", &format!("m{}", i))));
    }
    assert_eq!(ws.pending_line_count(), BUCKET_CAPACITY);
    assert!(!ws.send_message(intent("chan", "one too many")));
    assert!(!ws.send_message(intent("other", "also dropped")));
    assert_eq!(ws.pending_line_count(), BUCKET_CAPACITY);
}

#[test]
fn untagged_message_is_not_sendable() {
    let mut ws = WebSocket::new(String::from("bot"), None);
    let mut m = MessageData::default(0);
    m.channel = String::from("chan");
    m.text = String::from("text");
    assert!(!ws.send_message(m));
    assert_eq!(ws.pending_line_count(), 0);
}

#[test]
fn reply_line_carries_parent_reference() {
    let mut ws = WebSocket::new(String::from("bot"), None);
    let mut m = intent("chan", "ignored");
    m.reply = Some(String::from("the answer"));
    m.id = Some(String::from("abc-123"));
    assert!(ws.send_message(m));
    let line = drive_until_sent(&mut ws, 0, 0).unwrap();
    assert_eq!(line, "@reply-parent-msg-id=abc-123 PRIVMSG #chan :the answer\r\n");
}

#[test]
fn reply_without_id_is_a_plain_privmsg() {
    let mut ws = WebSocket::new(String::from("bot"), None);
    let mut m = intent("chan", "ignored");
    m.reply = Some(String::from("just text"));
    assert!(ws.send_message(m));
    assert_eq!(drive_until_sent(&mut ws, 0, 0).as_deref(), Some("PRIVMSG #chan :just text\r\n"));
}

#[test]
fn whisper_line_lowercases_the_recipient() {
    let mut ws = WebSocket::new(String::from("bot"), None);
    let mut m = MessageData::default(0);
    m.tags = vec![Type::WHISPER];
    m.display_name = Some(String::from("BigFan"));
    m.reply = Some(String::from("hello"));
    assert!(ws.send_message(m));
    // a whisper names no channel, so it leaves without pacing
    assert_eq!(drive_until_sent(&mut ws, 0, 0).as_deref(), Some("WHISPER bigfan :hello\r\n"));
    assert_eq!(ws.pace_ready_at(), 0);
}

#[test]
fn set_aside_lines_keep_per_channel_order() {
    // A line whose channel already has an earlier line set aside waits
    // behind it, even once the cooldown has expired: sends to one channel
    // leave in enqueue order.
    let mut ws = WebSocket::new(String::from("bot"), None);
    assert!(ws.send_message(intent("foo", "first")));
    assert_eq!(drive_until_sent(&mut ws, 0, 0).as_deref(), Some("PRIVMSG #foo :first\r\n"));
    assert!(ws.send_message(intent("foo", "second")));
    // second is set aside while the pass still sees the channel cooling
    assert!(matches!(ws.leaky_bucket_step(0, 1500), BucketStep::Skipped));
    assert!(ws.send_message(intent("foo", "third")));
    // the cooldown is over, but third must not overtake the waiting second
    assert!(matches!(ws.leaky_bucket_step(1600, 1600), BucketStep::Skipped));
    assert_eq!(
        drive_until_sent(&mut ws, 1600, 1600).as_deref(),
        Some("PRIVMSG #foo :second\r\n")
    );
    assert_eq!(
        drive_until_sent(&mut ws, 3100, 3100).as_deref(),
        Some("PRIVMSG #foo :third\r\n")
    );
}

#[test]
fn overlong_body_is_cut_to_the_wire_limit() {
    let mut ws = WebSocket::new(String::from("bot"), None);
    let long = "a".repeat(600);
    assert!(ws.send_message(intent("chan", &long)));
    let line = drive_until_sent(&mut ws, 0, 0).unwrap();
    let expected = format!("PRIVMSG #chan :{}\r\n", "a".repeat(500));
    assert_eq!(line, expected);
}
