//! A flat decoding of one channel-message line: metadata before the first
//! ` :`, then `PRIVMSG #channel :text`, with the numeric metadata values
//! kept as numbers.

use vstd::prelude::*;
use vstd::string::*;

use crate::common::message_data::{opt_str, part_value, strip_tag_marker, tag_value};
use crate::strutil::{spec_find, split_once_sub, starts_with_sub, str_eq, trim};

verus! {

#[derive(Debug)]
pub struct MessageData {
    pub badge_info: Option<String>,
    pub badges: Option<String>,
    pub client_nonce: Option<String>,
    pub color: Option<String>,
    pub display_name: Option<String>,
    pub emotes: Option<String>,
    pub first_msg: Option<u8>,
    pub flags: Option<String>,
    pub id: Option<String>,
    pub mod_status: Option<u8>,
    pub returning_chatter: Option<u8>,
    pub room_id: Option<String>,
    pub subscriber: Option<u8>,
    pub tmi_sent_ts: Option<String>,
    pub turbo: Option<u8>,
    pub user_id: Option<String>,
    pub user_type: Option<String>,
    pub channel: String,
    pub text: String,
}

/// A decimal digit.
pub open spec fn is_digit(c: char) -> bool {
    '0' <= c && c <= '9'
}

/// The numeric value of a decimal digit character.
pub open spec fn digit_val(c: char) -> int {
    c as int - '0' as int
}

/// Every character of `s` is a decimal digit.
pub open spec fn all_digits(s: Seq<char>) -> bool {
    forall|i: int| 0 <= i < s.len() ==> is_digit(#[trigger] s[i])
}

/// The number the digit string `s` denotes.
pub open spec fn digits_value(s: Seq<char>) -> int
    decreases s.len(),
{
    if s.len() == 0 {
        0
    } else {
        digits_value(s.drop_last()) * 10 + digit_val(s.last())
    }
}

/// The digits of a number string, with an optional leading `+` removed.
pub open spec fn u8_body(s: Seq<char>) -> Seq<char> {
    if s.len() > 0 && s[0] == '+' {
        s.drop_first()
    } else {
        s
    }
}

/// How `u8::from_str` reads a string: an optional leading `+`, then one or
/// more digits denoting a value up to 255.
pub open spec fn parse_u8_spec(s: Seq<char>) -> Option<u8> {
    let body = u8_body(s);
    if body.len() > 0 && all_digits(body) && digits_value(body) <= 255 {
        Some(digits_value(body) as u8)
    } else {
        Option::None
    }
}

proof fn lemma_digits_nonneg(s: Seq<char>)
    requires
        all_digits(s),
    ensures
        digits_value(s) >= 0,
    decreases s.len(),
{
    if s.len() > 0 {
        assert(all_digits(s.drop_last()));
        lemma_digits_nonneg(s.drop_last());
    }
}

proof fn lemma_digits_mono(s: Seq<char>, k: int)
    requires
        all_digits(s),
        0 <= k <= s.len(),
    ensures
        digits_value(s) >= digits_value(s.take(k)),
    decreases s.len(),
{
    if s.len() > k {
        assert(all_digits(s.drop_last()));
        lemma_digits_mono(s.drop_last(), k);
        lemma_digits_nonneg(s.drop_last());
        assert(s.drop_last().take(k) =~= s.take(k));
    } else {
        assert(s.take(k) =~= s);
    }
}

/// Reads a number the way the platform writes its numeric tag values.
pub fn parse_u8(s: &str) -> (r: Option<u8>)
    ensures
        r == parse_u8_spec(s@),
{
    let len = s.unicode_len();
    let start: usize = if len > 0 && s.get_char(0) == '+' {
        1
    } else {
        0
    };
    let ghost body = u8_body(s@);
    proof {
        assert(body =~= s@.subrange(start as int, len as int));
    }
    if start >= len {
        return Option::None;
    }
    let mut acc: u32 = 0;
    let mut i: usize = start;
    while i < len
        invariant
            start <= i <= len,
            len == s@.len(),
            start <= 1,
            body == u8_body(s@),
            body =~= s@.subrange(start as int, len as int),
            acc <= 255,
            all_digits(s@.subrange(start as int, i as int)),
            acc == digits_value(s@.subrange(start as int, i as int)),
        decreases len - i,
    {
        let c = s.get_char(i);
        if !('0' <= c && c <= '9') {
            proof {
                assert(body[i - start] == c);
                assert(!is_digit(c));
                assert(!all_digits(body));
                assert(parse_u8_spec(s@) is None);
            }
            return Option::None;
        }
        let d: u32 = (c as u32) - ('0' as u32);
        proof {
            assert(s@.subrange(start as int, i + 1).drop_last() =~= s@.subrange(
                start as int,
                i as int,
            ));
        }
        acc = acc * 10 + d;
        i = i + 1;
        if acc > 255 {
            proof {
                assert(s@.subrange(start as int, i as int).last() == c);
                assert(acc == digits_value(s@.subrange(start as int, i as int)));
                if all_digits(body) {
                    lemma_digits_mono(body, i - start);
                    assert(body.take(i - start) =~= s@.subrange(start as int, i as int));
                    assert(digits_value(body) > 255);
                }
                assert(parse_u8_spec(s@) is None);
            }
            return Option::None;
        }
    }
    proof {
        assert(s@.subrange(start as int, len as int) =~= body);
    }
    Some(acc as u8)
}

/// A supplied value is parsed as a number, even when that parse fails.
pub open spec fn upd_u8(base: Option<u8>, v: Option<Seq<char>>) -> Option<u8> {
    match v {
        Some(x) => parse_u8_spec(x),
        None => base,
    }
}

/// The channel and body of a flat message line: metadata up to the first
/// ` :`, the channel after `PRIVMSG #`, the body after the next ` :`.
pub open spec fn wire_outcome(raw: Seq<char>) -> Option<(Seq<char>, Seq<char>)> {
    match spec_find(raw, " :"@) {
        Some(i) => {
            let content = raw.skip(i + " :"@.len());
            match spec_find(content, "PRIVMSG #"@) {
                Some(j) => {
                    let tail = content.skip(j + "PRIVMSG #"@.len());
                    match spec_find(tail, " :"@) {
                        Some(k) => Some((tail.take(k), tail.skip(k + " :"@.len()))),
                        None => Option::None,
                    }
                },
                None => Option::None,
            }
        },
        None => Option::None,
    }
}

/// The metadata prefix of a flat message line: everything before the
/// first ` :`.
pub open spec fn wire_meta(raw: Seq<char>) -> Seq<char> {
    match spec_find(raw, " :"@) {
        Some(i) => raw.take(i),
        None => raw,
    }
}

/// All seventeen tag fields hold exactly what the metadata prefix
/// assigns, numeric values read as numbers.
pub open spec fn wire_tags_ok(m: MessageData, meta: Seq<char>) -> bool {
    &&& opt_str(m.badge_info) == tag_value(meta, "badge-info"@)
    &&& opt_str(m.badges) == tag_value(meta, "badges"@)
    &&& opt_str(m.client_nonce) == tag_value(meta, "client-nonce"@)
    &&& opt_str(m.color) == tag_value(meta, "color"@)
    &&& opt_str(m.display_name) == tag_value(meta, "display-name"@)
    &&& opt_str(m.emotes) == tag_value(meta, "emotes"@)
    &&& m.first_msg == upd_u8(Option::None, tag_value(meta, "first-msg"@))
    &&& opt_str(m.flags) == tag_value(meta, "flags"@)
    &&& opt_str(m.id) == tag_value(meta, "id"@)
    &&& m.mod_status == upd_u8(Option::None, tag_value(meta, "mod"@))
    &&& m.returning_chatter == upd_u8(Option::None, tag_value(meta, "returning-chatter"@))
    &&& opt_str(m.room_id) == tag_value(meta, "room-id"@)
    &&& m.subscriber == upd_u8(Option::None, tag_value(meta, "subscriber"@))
    &&& opt_str(m.tmi_sent_ts) == tag_value(meta, "tmi-sent-ts"@)
    &&& m.turbo == upd_u8(Option::None, tag_value(meta, "turbo"@))
    &&& opt_str(m.user_id) == tag_value(meta, "user-id"@)
    &&& opt_str(m.user_type) == tag_value(meta, "user-type"@)
}

/// Like [`wire_tags_ok`], over the values the fields held before, for a
/// single `key=value` part.
spec fn wire_part_applied(a: MessageData, b: MessageData, part: Seq<char>) -> bool {
    &&& opt_str(b.badge_info) == crate::common::message_data::upd(
        opt_str(a.badge_info),
        part_value(part, "badge-info"@),
    )
    &&& opt_str(b.badges) == crate::common::message_data::upd(
        opt_str(a.badges),
        part_value(part, "badges"@),
    )
    &&& opt_str(b.client_nonce) == crate::common::message_data::upd(
        opt_str(a.client_nonce),
        part_value(part, "client-nonce"@),
    )
    &&& opt_str(b.color) == crate::common::message_data::upd(
        opt_str(a.color),
        part_value(part, "color"@),
    )
    &&& opt_str(b.display_name) == crate::common::message_data::upd(
        opt_str(a.display_name),
        part_value(part, "display-name"@),
    )
    &&& opt_str(b.emotes) == crate::common::message_data::upd(
        opt_str(a.emotes),
        part_value(part, "emotes"@),
    )
    &&& b.first_msg == upd_u8(a.first_msg, part_value(part, "first-msg"@))
    &&& opt_str(b.flags) == crate::common::message_data::upd(
        opt_str(a.flags),
        part_value(part, "flags"@),
    )
    &&& opt_str(b.id) == crate::common::message_data::upd(
        opt_str(a.id),
        part_value(part, "id"@),
    )
    &&& b.mod_status == upd_u8(a.mod_status, part_value(part, "mod"@))
    &&& b.returning_chatter == upd_u8(a.returning_chatter, part_value(part, "returning-chatter"@))
    &&& opt_str(b.room_id) == crate::common::message_data::upd(
        opt_str(a.room_id),
        part_value(part, "room-id"@),
    )
    &&& b.subscriber == upd_u8(a.subscriber, part_value(part, "subscriber"@))
    &&& opt_str(b.tmi_sent_ts) == crate::common::message_data::upd(
        opt_str(a.tmi_sent_ts),
        part_value(part, "tmi-sent-ts"@),
    )
    &&& b.turbo == upd_u8(a.turbo, part_value(part, "turbo"@))
    &&& opt_str(b.user_id) == crate::common::message_data::upd(
        opt_str(a.user_id),
        part_value(part, "user-id"@),
    )
    &&& opt_str(b.user_type) == crate::common::message_data::upd(
        opt_str(a.user_type),
        part_value(part, "user-type"@),
    )
}

/// Like [`wire_part_applied`], for the whole prefix, later parts winning.
spec fn wire_tags_applied(a: MessageData, b: MessageData, meta: Seq<char>) -> bool {
    &&& opt_str(b.badge_info) == crate::common::message_data::upd(
        opt_str(a.badge_info),
        tag_value(meta, "badge-info"@),
    )
    &&& opt_str(b.badges) == crate::common::message_data::upd(
        opt_str(a.badges),
        tag_value(meta, "badges"@),
    )
    &&& opt_str(b.client_nonce) == crate::common::message_data::upd(
        opt_str(a.client_nonce),
        tag_value(meta, "client-nonce"@),
    )
    &&& opt_str(b.color) == crate::common::message_data::upd(
        opt_str(a.color),
        tag_value(meta, "color"@),
    )
    &&& opt_str(b.display_name) == crate::common::message_data::upd(
        opt_str(a.display_name),
        tag_value(meta, "display-name"@),
    )
    &&& opt_str(b.emotes) == crate::common::message_data::upd(
        opt_str(a.emotes),
        tag_value(meta, "emotes"@),
    )
    &&& b.first_msg == upd_u8(a.first_msg, tag_value(meta, "first-msg"@))
    &&& opt_str(b.flags) == crate::common::message_data::upd(
        opt_str(a.flags),
        tag_value(meta, "flags"@),
    )
    &&& opt_str(b.id) == crate::common::message_data::upd(
        opt_str(a.id),
        tag_value(meta, "id"@),
    )
    &&& b.mod_status == upd_u8(a.mod_status, tag_value(meta, "mod"@))
    &&& b.returning_chatter == upd_u8(a.returning_chatter, tag_value(meta, "returning-chatter"@))
    &&& opt_str(b.room_id) == crate::common::message_data::upd(
        opt_str(a.room_id),
        tag_value(meta, "room-id"@),
    )
    &&& b.subscriber == upd_u8(a.subscriber, tag_value(meta, "subscriber"@))
    &&& opt_str(b.tmi_sent_ts) == crate::common::message_data::upd(
        opt_str(a.tmi_sent_ts),
        tag_value(meta, "tmi-sent-ts"@),
    )
    &&& b.turbo == upd_u8(a.turbo, tag_value(meta, "turbo"@))
    &&& opt_str(b.user_id) == crate::common::message_data::upd(
        opt_str(a.user_id),
        tag_value(meta, "user-id"@),
    )
    &&& opt_str(b.user_type) == crate::common::message_data::upd(
        opt_str(a.user_type),
        tag_value(meta, "user-type"@),
    )
}

/// The channel and body the flat parse leaves untouched.
spec fn wire_same_frame(a: MessageData, b: MessageData) -> bool {
    &&& a.channel == b.channel
    &&& a.text == b.text
}

#[verifier::rlimit(100)]
fn wire_apply_part(message: &mut MessageData, part: &str)
    ensures
        wire_same_frame(*old(message), *final(message)),
        wire_part_applied(*old(message), *final(message), part@),
{
    proof {
        reveal_strlit("=");
        assert("="@ =~= seq!['=']);
        reveal_strlit("badge-info");
        reveal_strlit("badges");
        reveal_strlit("client-nonce");
        reveal_strlit("color");
        reveal_strlit("display-name");
        reveal_strlit("emotes");
        reveal_strlit("first-msg");
        reveal_strlit("flags");
        reveal_strlit("id");
        reveal_strlit("mod");
        reveal_strlit("returning-chatter");
        reveal_strlit("room-id");
        reveal_strlit("subscriber");
        reveal_strlit("tmi-sent-ts");
        reveal_strlit("turbo");
        reveal_strlit("user-id");
        reveal_strlit("user-type");
        assert("badge-info"@.len() == 10 && "badge-info"@[0] == 'b');
        assert("badges"@.len() == 6 && "badges"@[0] == 'b');
        assert("client-nonce"@.len() == 12 && "client-nonce"@[0] == 'c');
        assert("color"@.len() == 5 && "color"@[0] == 'c');
        assert("display-name"@.len() == 12 && "display-name"@[0] == 'd');
        assert("emotes"@.len() == 6 && "emotes"@[0] == 'e');
        assert("first-msg"@.len() == 9 && "first-msg"@[0] == 'f');
        assert("flags"@.len() == 5 && "flags"@[0] == 'f');
        assert("id"@.len() == 2 && "id"@[0] == 'i');
        assert("mod"@.len() == 3 && "mod"@[0] == 'm');
        assert("returning-chatter"@.len() == 17 && "returning-chatter"@[0] == 'r');
        assert("room-id"@.len() == 7 && "room-id"@[0] == 'r');
        assert("subscriber"@.len() == 10 && "subscriber"@[0] == 's');
        assert("tmi-sent-ts"@.len() == 11 && "tmi-sent-ts"@[0] == 't');
        assert("turbo"@.len() == 5 && "turbo"@[0] == 't');
        assert("user-id"@.len() == 7 && "user-id"@[0] == 'u');
        assert("user-type"@.len() == 9 && "user-type"@[0] == 'u');
        assert("badges"@[1] == 'a' && "emotes"@[1] == 'm');
        assert("color"@[1] == 'o' && "flags"@[1] == 'l' && "turbo"@[1] == 'u');
        assert("client-nonce"@[1] == 'l' && "display-name"@[1] == 'i');
        assert("badge-info"@[1] == 'a' && "subscriber"@[1] == 'u');
        assert("first-msg"@[1] == 'i' && "user-type"@[1] == 's');
        assert("room-id"@[1] == 'o' && "user-id"@[1] == 's');
        assert("tmi-sent-ts"@[1] == 'm');
    }
    match split_once_sub(part, "=") {
        Some((key, value)) => {
            let k = key.as_str();
            let trimmed = trim(value.as_str());
            if str_eq(k, "badge-info") {
                message.badge_info = Some(trimmed);
            } else if str_eq(k, "badges") {
                message.badges = Some(trimmed);
            } else if str_eq(k, "client-nonce") {
                message.client_nonce = Some(trimmed);
            } else if str_eq(k, "color") {
                message.color = Some(trimmed);
            } else if str_eq(k, "display-name") {
                message.display_name = Some(trimmed);
            } else if str_eq(k, "emotes") {
                message.emotes = Some(trimmed);
            } else if str_eq(k, "first-msg") {
                message.first_msg = parse_u8(trimmed.as_str());
            } else if str_eq(k, "flags") {
                message.flags = Some(trimmed);
            } else if str_eq(k, "id") {
                message.id = Some(trimmed);
            } else if str_eq(k, "mod") {
                message.mod_status = parse_u8(trimmed.as_str());
            } else if str_eq(k, "returning-chatter") {
                message.returning_chatter = parse_u8(trimmed.as_str());
            } else if str_eq(k, "room-id") {
                message.room_id = Some(trimmed);
            } else if str_eq(k, "subscriber") {
                message.subscriber = parse_u8(trimmed.as_str());
            } else if str_eq(k, "tmi-sent-ts") {
                message.tmi_sent_ts = Some(trimmed);
            } else if str_eq(k, "turbo") {
                message.turbo = parse_u8(trimmed.as_str());
            } else if str_eq(k, "user-id") {
                message.user_id = Some(trimmed);
            } else if str_eq(k, "user-type") {
                message.user_type = Some(trimmed);
            }
        },
        None => {
        },
    }
}

fn wire_apply_tags(message: &mut MessageData, meta: &str)
    ensures
        wire_same_frame(*old(message), *final(message)),
        wire_tags_applied(*old(message), *final(message), meta@),
    decreases meta@.len(),
{
    proof {
        reveal_strlit(";");
        assert(";"@ =~= seq![';']);
        crate::strutil::lemma_find_at_props(meta@, ";"@, 0);
    }
    match split_once_sub(meta, ";") {
        Some((part, rest)) => {
            wire_apply_part(message, part.as_str());
            wire_apply_tags(message, rest.as_str());
        },
        None => {
            wire_apply_part(message, meta);
        },
    }
}

/// Decodes one flat channel-message line.
///
/// Returns `None` when the line lacks a ` :` separator, the `PRIVMSG #`
/// token after it, or the ` :` before the body; otherwise the channel,
/// body and every metadata field are as [`wire_outcome`] and
/// [`wire_tags_ok`] state.
pub fn parse_message(raw_message: &str) -> (r: Option<MessageData>)
    ensures
        r is Some <==> wire_outcome(raw_message@) is Some,
        r matches Some(m) ==> {
            &&& wire_outcome(raw_message@) matches Some(out) && m.channel@ == out.0 && m.text@
                == out.1
            &&& wire_tags_ok(m, strip_tag_marker(wire_meta(raw_message@)))
        },
{
    let meta_content = split_once_sub(raw_message, " :");
    let (meta, content) = match meta_content {
        Some(pair) => pair,
        None => {
            return Option::None;
        },
    };
    let tail = match split_once_sub(content.as_str(), "PRIVMSG #") {
        Some((_head, t)) => t,
        None => {
            return Option::None;
        },
    };
    let (channel, text) = match split_once_sub(tail.as_str(), " :") {
        Some(pair) => pair,
        None => {
            return Option::None;
        },
    };
    let mut message = MessageData {
        badge_info: Option::None,
        badges: Option::None,
        client_nonce: Option::None,
        color: Option::None,
        display_name: Option::None,
        emotes: Option::None,
        first_msg: Option::None,
        flags: Option::None,
        id: Option::None,
        mod_status: Option::None,
        returning_chatter: Option::None,
        room_id: Option::None,
        subscriber: Option::None,
        tmi_sent_ts: Option::None,
        turbo: Option::None,
        user_id: Option::None,
        user_type: Option::None,
        channel,
        text,
    };
    let meta_len = meta.as_str().unicode_len();
    let stripped = if starts_with_sub(meta.as_str(), "@") {
        proof {
            reveal_strlit("@");
            assert("@"@ =~= seq!['@']);
            assert(meta@.subrange(0, 1) == "@"@);
            assert(meta@.subrange(0, 1)[0] == meta@[0]);
            assert(meta@[0] == '@');
        }
        let tail = meta.as_str().substring_char(1, meta_len);
        proof {
            assert(tail@ =~= strip_tag_marker(meta@));
        }
        String::from_str(tail)
    } else {
        proof {
            reveal_strlit("@");
            assert("@"@ =~= seq!['@']);
            if meta@.len() > 0 && meta@[0] == '@' {
                assert(meta@.subrange(0, 1) =~= "@"@);
            }
            assert(meta@ =~= strip_tag_marker(meta@));
        }
        meta
    };
    wire_apply_tags(&mut message, stripped.as_str());
    Some(message)
}

} // verus!
