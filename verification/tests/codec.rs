use chapterverse::chat::client::{InboundAction, WebSocket, WebSocketState};
use chapterverse::common::message_data::{should_dispatch, MessageData, Type};
use chapterverse::data::message_data::parse_message;

#[test]
fn parse_privmsg_fields() {
    let raw = "@badges=;display-name=Alice;id=msg1;mod=true;first-msg=0:alice!alice@alice.tmi.twitch.tv PRIVMSG #chapterverse :Hello there\r\n";
    let m = MessageData::new(raw, 5).expect("line should parse");
    assert_eq!(m.badges.as_deref(), Some(""));
    assert_eq!(m.channel, "chapterverse");
    assert_eq!(m.text, "Hello there");
    assert_eq!(m.display_name.as_deref(), Some("Alice"));
    assert_eq!(m.id.as_deref(), Some("msg1"));
    assert_eq!(m.mod_status, Some(true));
    assert_eq!(m.first_msg, None);
    assert_eq!(m.received, 5);
    assert_eq!(m.raw_message, raw);
    assert!(m.reply.is_none());
    assert_eq!(m.tags, vec![Type::PRIVMSG]);
    assert!(should_dispatch(&m));
}

#[test]
fn parse_whisper_fields() {
    let raw = "@badges=;display-name=Bob:bob!bob@tmi.twitch.tv WHISPER mybot :psst\r\n";
    let m = MessageData::new(raw, 0).expect("whisper should parse");
    assert_eq!(m.channel, "mybot");
    assert_eq!(m.text, "psst");
    assert_eq!(m.display_name.as_deref(), Some("Bob"));
    assert_eq!(m.tags, vec![Type::WHISPER]);
}

#[test]
fn parse_rejects_malformed_lines() {
    assert!(MessageData::new("no separator at all", 0).is_none());
    assert!(MessageData::new("PING :tmi.twitch.tv", 0).is_none());
    assert!(MessageData::new("meta:rest without command token", 0).is_none());
    // command token present but no ` :` before the body
    assert!(MessageData::new("meta:user PRIVMSG #chan_nobody", 0).is_none());
}

#[test]
fn later_duplicate_tag_wins() {
    let raw = "@badges=;display-name=First;display-name=Second:u!u@tmi PRIVMSG #c :x\r\n";
    let m = MessageData::new(raw, 0).unwrap();
    assert_eq!(m.display_name.as_deref(), Some("Second"));
}

#[test]
fn first_tag_is_read_like_the_rest() {
    // The '@' that introduces the tags of a wire line must not stick to
    // the first key: a line whose first (or only) tag is display-name
    // still identifies the sender.
    let raw = "@display-name=Muxy:u PRIVMSG #c :h";
    let m = MessageData::new(raw, 0).expect("line should parse");
    assert_eq!(m.display_name.as_deref(), Some("Muxy"));
    assert!(!should_dispatch(&m));

    let raw2 = "@badges=broadcaster/1;color=#FF0000:u PRIVMSG #c :h";
    let m2 = MessageData::new(raw2, 0).unwrap();
    assert_eq!(m2.badges.as_deref(), Some("broadcaster/1"));
}

#[test]
fn last_tag_value_loses_the_source_separator_space() {
    // On a real wire line a space separates the tags from the ':nick!...'
    // source; splitting at the first ':' leaves it on the last value, and
    // it must not defeat the ignore comparison.
    let raw = "@badges=;display-name=NightBot :n!n@n.tmi.twitch.tv PRIVMSG #c :h
";
    let m = MessageData::new(raw, 0).expect("line should parse");
    assert_eq!(m.display_name.as_deref(), Some("NightBot"));
    assert!(!should_dispatch(&m));
}

#[test]
fn ignore_list_drops_known_bots() {
    // Scenario: a tag-prefixed channel message from a display name on the
    // ignore list never passes the dispatcher gate.
    let raw = "@badges=;display-name=EveryGoodWork:evy!evy@tmi PRIVMSG #chapterverse :Hi\r\n";
    let m = MessageData::new(raw, 0).expect("line should parse");
    assert_eq!(m.tags, vec![Type::PRIVMSG, Type::Ignore]);
    assert!(!should_dispatch(&m));

    // the comparison is case-insensitive
    let raw2 = "@badges=;display-name=nightbot:n!n@tmi PRIVMSG #chapterverse :Hi\r\n";
    let m2 = MessageData::new(raw2, 0).unwrap();
    assert!(!should_dispatch(&m2));

    // an unlisted sender passes
    let raw3 = "@badges=;display-name=Carol:c!c@tmi PRIVMSG #chapterverse :Hi\r\n";
    let m3 = MessageData::new(raw3, 0).unwrap();
    assert!(should_dispatch(&m3));
}

#[test]
fn ping_is_answered_with_pong() {
    // Scenario: the keepalive answer carries the same payload.
    let mut ws = WebSocket::new(String::from("bot"), None);
    match ws.handle_twitch_receive("PING :tmi.twitch.tv", 0) {
        InboundAction::Pong(line) => assert_eq!(line, "PONG :tmi.twitch.tv"),
        _ => panic!("a PING line must be answered with a PONG"),
    }
}

#[test]
fn welcome_banner_completes_handshake() {
    let mut ws = WebSocket::new(String::from("bot"), None);
    ws.connect();
    assert_eq!(ws.get_state(), WebSocketState::Connecting);
    match ws.handle_twitch_receive(":tmi.twitch.tv 001 bot :Welcome, GLHF!", 0) {
        InboundAction::Welcome => {}
        _ => panic!("the welcome banner must be recognized"),
    }
    assert_eq!(ws.get_state(), WebSocketState::Connected);
}

#[test]
fn unrecognized_lines_are_dropped() {
    let mut ws = WebSocket::new(String::from("bot"), None);
    match ws.handle_twitch_receive(":tmi.twitch.tv 372 bot :You are in a maze", 0) {
        InboundAction::Drop => {}
        _ => panic!("an unrecognized line must be dropped"),
    }
    assert_eq!(ws.get_state(), WebSocketState::NotConnected);
}

#[test]
fn message_complete_measures_elapsed_time() {
    let m = MessageData::default(5);
    assert_eq!(m.complete(12), Ok(7));
    assert_eq!(m.complete(5), Ok(0));
    assert_eq!(m.complete(3), Err("Time went backwards"));
}

#[test]
fn parse_message_flat_fields() {
    let raw = "@badge-info=;subscriber=1;mod=0;display-name=Dana :dana!dana@tmi PRIVMSG #chan :Howdy";
    let m = parse_message(raw).expect("flat line should parse");
    assert_eq!(m.channel, "chan");
    assert_eq!(m.text, "Howdy");
    assert_eq!(m.display_name.as_deref(), Some("Dana"));
    assert_eq!(m.subscriber, Some(1));
    assert_eq!(m.mod_status, Some(0));
    assert_eq!(m.badge_info.as_deref(), Some(""));
    assert_eq!(m.turbo, None);
}

#[test]
fn parse_message_numeric_edge_values() {
    let raw = "first-msg=+7;turbo=256;subscriber=007 :u!u@tmi PRIVMSG #c :x";
    let m = parse_message(raw).unwrap();
    assert_eq!(m.first_msg, Some(7));
    assert_eq!(m.turbo, None); // over the u8 range
    assert_eq!(m.subscriber, Some(7)); // leading zeros are fine
}

#[test]
fn parse_message_rejects_missing_pieces() {
    assert!(parse_message("no separators").is_none());
    assert!(parse_message("meta :content without command").is_none());
    assert!(parse_message("meta :PRIVMSG #chan_without_body").is_none());
}
