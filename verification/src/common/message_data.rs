//! Decoding of one raw chat line into a tagged inbound message.
//!
//! A raw line carries a `;`-separated `key=value` metadata prefix, then the
//! command (`PRIVMSG #channel` or `WHISPER user`), then ` :` and the body.
//! [`MessageData::new`] performs the split and fills one field per known
//! metadata key; a sender on the fixed bot ignore-list is tagged
//! [`Type::Ignore`] so the dispatcher can drop the message.

use vstd::prelude::*;
use vstd::string::*;

use crate::strutil::{
    contains_seq, contains_sub, eq_ignore_case, eq_ignore_case_spec, parse_bool, parse_bool_spec,
    spec_find, split_once_sub, starts_with_sub, str_eq, trim, trim_crlf, trim_crlf_spec,
    trim_spec,
};

verus! {

#[derive(Debug, Clone, Copy, PartialEq, Eq, Hash, Structural)]
pub enum Type {
    PossibleCommand,
    PossibleScripture,
    NotScripture,
    NotCommand,
    Command,
    Scripture,
    Gospel,
    Unspecified,
    Ignore,
    ExcludeMetrics,
    WHISPER,
    PRIVMSG,
}

#[derive(Debug, Clone)]
pub struct MessageData {
    pub badge_info: Option<String>,
    pub badges: Option<String>,
    pub client_nonce: Option<String>,
    pub color: Option<String>,
    pub display_name: Option<String>,
    pub emotes: Option<String>,
    pub first_msg: Option<bool>,
    pub flags: Option<String>,
    pub id: Option<String>,
    pub mod_status: Option<bool>,
    pub returning_chatter: Option<bool>,
    pub room_id: Option<String>,
    pub subscriber: Option<bool>,
    pub tmi_sent_ts: Option<String>,
    pub turbo: Option<bool>,
    pub user_id: Option<String>,
    pub user_type: Option<String>,
    pub channel: String,
    pub text: String,
    pub raw_message: String,
    pub received: u64,
    pub tags: Vec<Type>,
    pub reply: Option<String>,
}

/// The characters of an optional string.
pub open spec fn opt_str(o: Option<String>) -> Option<Seq<char>> {
    match o {
        Some(s) => Some(s@),
        None => None,
    }
}

/// `v` if the metadata part supplied a value, else the field as it was.
pub open spec fn upd(base: Option<Seq<char>>, v: Option<Seq<char>>) -> Option<Seq<char>> {
    match v {
        Some(x) => Some(x),
        None => base,
    }
}

/// A supplied value is parsed as a boolean, even when that parse fails.
pub open spec fn upd_bool(base: Option<bool>, v: Option<Seq<char>>) -> Option<bool> {
    match v {
        Some(x) => parse_bool_spec(x),
        None => base,
    }
}

/// The value one `key=value` part assigns to `key`, if it is about `key`.
/// The value is trimmed: on the wire the last tag's value carries the
/// space that separates the prefix from the `:nick!...` source.
pub open spec fn part_value(part: Seq<char>, key: Seq<char>) -> Option<Seq<char>> {
    match spec_find(part, seq!['=']) {
        Some(j) => if part.take(j) == key {
            Some(trim_spec(part.skip(j + 1)))
        } else {
            None
        },
        None => None,
    }
}

/// The metadata prefix with the `@` that introduces the tags of a wire
/// line removed, so that the first `key=value` pair is read like the
/// rest.
pub open spec fn strip_tag_marker(s: Seq<char>) -> Seq<char> {
    if s.len() > 0 && s[0] == '@' {
        s.drop_first()
    } else {
        s
    }
}

/// The value the whole `;`-separated metadata prefix leaves in `key`:
/// the rightmost part for `key` wins.
pub open spec fn tag_value(meta: Seq<char>, key: Seq<char>) -> Option<Seq<char>>
    decreases meta.len(),
{
    match spec_find(meta, seq![';']) {
        Some(i) => if 0 <= i < meta.len() {
            match tag_value(meta.skip(i + 1), key) {
                Some(v) => Some(v),
                None => part_value(meta.take(i), key),
            }
        } else {
            part_value(meta, key)
        },
        None => part_value(meta, key),
    }
}

/// The metadata prefix and the remainder after the first `:`.
pub open spec fn split_meta(raw: Seq<char>) -> Option<(Seq<char>, Seq<char>)> {
    match spec_find(raw, ":"@) {
        Some(i) => Some((raw.take(i), raw.skip(i + ":"@.len()))),
        None => None,
    }
}

/// Channel (or recipient) and body of the text after the command token
/// `cmd`: the piece up to the first ` :` is the trimmed channel, the piece
/// after it is the body with its trailing line ending removed.
pub open spec fn segment_split(rest: Seq<char>, cmd: Seq<char>) -> Option<(Seq<char>, Seq<char>)> {
    match spec_find(rest, cmd) {
        Some(j) => {
            let tail = rest.skip(j + cmd.len());
            match spec_find(tail, " :"@) {
                Some(k) => Some(
                    (trim_spec(tail.take(k)), trim_crlf_spec(tail.skip(k + " :"@.len()))),
                ),
                None => None,
            }
        },
        None => None,
    }
}

/// Everything `MessageData::new` extracts besides the metadata tags:
/// channel, body, and whether the line was a whisper.
pub open spec fn parse_outcome(raw: Seq<char>) -> Option<(Seq<char>, Seq<char>, bool)> {
    match split_meta(raw) {
        Some((meta, rest)) => if contains_seq(raw, "PRIVMSG #"@) {
            match segment_split(rest, "PRIVMSG #"@) {
                Some((ch, tx)) => Some((ch, tx, false)),
                None => Option::None,
            }
        } else if contains_seq(raw, "WHISPER"@) {
            match segment_split(rest, "WHISPER"@) {
                Some((ch, tx)) => Some((ch, tx, true)),
                None => Option::None,
            }
        } else {
            Option::None
        },
        None => Option::None,
    }
}

/// The fixed list of chat-bot account names whose messages are never
/// answered, compared without regard to case.
pub open spec fn in_ignore_list(name: Seq<char>) -> bool {
    ||| eq_ignore_case_spec(name, "EveryGoodWork"@)
    ||| eq_ignore_case_spec(name, "ChapterVerse"@)
    ||| eq_ignore_case_spec(name, "NightBot"@)
    ||| eq_ignore_case_spec(name, "StreamElements"@)
    ||| eq_ignore_case_spec(name, "Moobot"@)
    ||| eq_ignore_case_spec(name, "Fossabot"@)
    ||| eq_ignore_case_spec(name, "Wizebot"@)
    ||| eq_ignore_case_spec(name, "Streamlabs"@)
    ||| eq_ignore_case_spec(name, "Coebot"@)
    ||| eq_ignore_case_spec(name, "AnkhBot"@)
    ||| eq_ignore_case_spec(name, "Vivbot"@)
    ||| eq_ignore_case_spec(name, "Stay_Hydrated_Bot"@)
    ||| eq_ignore_case_spec(name, "CommanderRoot"@)
    ||| eq_ignore_case_spec(name, "DeepBot"@)
    ||| eq_ignore_case_spec(name, "ScorpBot"@)
    ||| eq_ignore_case_spec(name, "PhantomBot"@)
    ||| eq_ignore_case_spec(name, "Botisimo"@)
    ||| eq_ignore_case_spec(name, "Muxy"@)
    ||| eq_ignore_case_spec(name, "SeryBot"@)
    ||| eq_ignore_case_spec(name, "MoveBot"@)
    ||| eq_ignore_case_spec(name, "Rainmaker"@)
}

/// Whether `name` is on the bot ignore-list.
pub fn is_ignored(name: &str) -> (r: bool)
    ensures
        r == in_ignore_list(name@),
{
    eq_ignore_case(name, "EveryGoodWork") || eq_ignore_case(name, "ChapterVerse")
        || eq_ignore_case(name, "NightBot") || eq_ignore_case(name, "StreamElements")
        || eq_ignore_case(name, "Moobot") || eq_ignore_case(name, "Fossabot") || eq_ignore_case(
        name,
        "Wizebot",
    ) || eq_ignore_case(name, "Streamlabs") || eq_ignore_case(name, "Coebot") || eq_ignore_case(
        name,
        "AnkhBot",
    ) || eq_ignore_case(name, "Vivbot") || eq_ignore_case(name, "Stay_Hydrated_Bot")
        || eq_ignore_case(name, "CommanderRoot") || eq_ignore_case(name, "DeepBot")
        || eq_ignore_case(name, "ScorpBot") || eq_ignore_case(name, "PhantomBot")
        || eq_ignore_case(name, "Botisimo") || eq_ignore_case(name, "Muxy") || eq_ignore_case(
        name,
        "SeryBot",
    ) || eq_ignore_case(name, "MoveBot") || eq_ignore_case(name, "Rainmaker")
}

/// Some tag is present in the list.
pub open spec fn spec_has_tag(tags: Seq<Type>, t: Type) -> bool {
    exists|i: int| 0 <= i < tags.len() && tags[i] == t
}

/// Whether `t` occurs among `tags`.
pub fn has_tag(tags: &Vec<Type>, t: Type) -> (r: bool)
    ensures
        r == spec_has_tag(tags@, t),
{
    let mut i: usize = 0;
    while i < tags.len()
        invariant
            0 <= i <= tags@.len(),
            forall|j: int| 0 <= j < i ==> tags@[j] != t,
        decreases tags@.len() - i,
    {
        if tags[i] == t {
            return true;
        }
        i = i + 1;
    }
    false
}

/// The dispatcher-side gate: a message tagged [`Type::Ignore`] never
/// reaches command handling.
pub fn should_dispatch(message: &MessageData) -> (r: bool)
    ensures
        r == !spec_has_tag(message.tags@, Type::Ignore),
{
    !has_tag(&message.tags, Type::Ignore)
}

impl MessageData {
    /// An empty message received at `now` (milliseconds of the transport
    /// clock).
    pub fn default(now: u64) -> (r: Self)
        ensures
            r.badge_info is None,
            r.badges is None,
            r.client_nonce is None,
            r.color is None,
            r.display_name is None,
            r.emotes is None,
            r.first_msg is None,
            r.flags is None,
            r.id is None,
            r.mod_status is None,
            r.returning_chatter is None,
            r.room_id is None,
            r.subscriber is None,
            r.tmi_sent_ts is None,
            r.turbo is None,
            r.user_id is None,
            r.user_type is None,
            r.channel@ == Seq::<char>::empty(),
            r.text@ == Seq::<char>::empty(),
            r.raw_message@ == Seq::<char>::empty(),
            r.received == now,
            r.tags@ == Seq::<Type>::empty(),
            r.reply is None,
    {
        MessageData {
            badge_info: Option::None,
            badges: Option::None,
            client_nonce: Option::None,
            color: Option::None,
            display_name: Option::None,
            emotes: Option::None,
            first_msg: Option::None,
            flags: Option::None,
            id: Option::None,
            mod_status: Option::None,
            returning_chatter: Option::None,
            room_id: Option::None,
            subscriber: Option::None,
            tmi_sent_ts: Option::None,
            turbo: Option::None,
            user_id: Option::None,
            user_type: Option::None,
            channel: String::new(),
            text: String::new(),
            raw_message: String::new(),
            received: now,
            tags: Vec::new(),
            reply: Option::None,
        }
    }

    /// Milliseconds between receipt and `now`; an error when the clock
    /// reads earlier than the receipt stamp.
    pub fn complete(&self, now: u64) -> (r: Result<u64, &'static str>)
        ensures
            now >= self.received ==> r == Ok::<u64, &'static str>(
                (now - self.received) as u64,
            ),
            now < self.received ==> (r matches Err(e) && e@ == "Time went backwards"@),
    {
        if now >= self.received {
            Ok(now - self.received)
        } else {
            Err("Time went backwards")
        }
    }
}

/// The non-tag fields one metadata part leaves untouched.
pub open spec fn same_frame(a: MessageData, b: MessageData) -> bool {
    &&& a.channel == b.channel
    &&& a.text == b.text
    &&& a.raw_message == b.raw_message
    &&& a.received == b.received
    &&& a.tags == b.tags
    &&& a.reply == b.reply
}

/// All seventeen tag fields carry the values the metadata prefix `meta`
/// assigns, over the values they held before.
pub open spec fn tags_applied(a: MessageData, b: MessageData, meta: Seq<char>) -> bool {
    &&& opt_str(b.badge_info) == upd(opt_str(a.badge_info), tag_value(meta, "badge-info"@))
    &&& opt_str(b.badges) == upd(opt_str(a.badges), tag_value(meta, "badges"@))
    &&& opt_str(b.client_nonce) == upd(opt_str(a.client_nonce), tag_value(meta, "client-nonce"@))
    &&& opt_str(b.color) == upd(opt_str(a.color), tag_value(meta, "color"@))
    &&& opt_str(b.display_name) == upd(opt_str(a.display_name), tag_value(meta, "display-name"@))
    &&& opt_str(b.emotes) == upd(opt_str(a.emotes), tag_value(meta, "emotes"@))
    &&& b.first_msg == upd_bool(a.first_msg, tag_value(meta, "first-msg"@))
    &&& opt_str(b.flags) == upd(opt_str(a.flags), tag_value(meta, "flags"@))
    &&& opt_str(b.id) == upd(opt_str(a.id), tag_value(meta, "id"@))
    &&& b.mod_status == upd_bool(a.mod_status, tag_value(meta, "mod"@))
    &&& b.returning_chatter == upd_bool(a.returning_chatter, tag_value(meta, "returning-chatter"@))
    &&& opt_str(b.room_id) == upd(opt_str(a.room_id), tag_value(meta, "room-id"@))
    &&& b.subscriber == upd_bool(a.subscriber, tag_value(meta, "subscriber"@))
    &&& opt_str(b.tmi_sent_ts) == upd(opt_str(a.tmi_sent_ts), tag_value(meta, "tmi-sent-ts"@))
    &&& b.turbo == upd_bool(a.turbo, tag_value(meta, "turbo"@))
    &&& opt_str(b.user_id) == upd(opt_str(a.user_id), tag_value(meta, "user-id"@))
    &&& opt_str(b.user_type) == upd(opt_str(a.user_type), tag_value(meta, "user-type"@))
}

/// Like [`tags_applied`], for a single `key=value` part.
pub open spec fn part_applied(a: MessageData, b: MessageData, part: Seq<char>) -> bool {
    &&& opt_str(b.badge_info) == upd(opt_str(a.badge_info), part_value(part, "badge-info"@))
    &&& opt_str(b.badges) == upd(opt_str(a.badges), part_value(part, "badges"@))
    &&& opt_str(b.client_nonce) == upd(opt_str(a.client_nonce), part_value(part, "client-nonce"@))
    &&& opt_str(b.color) == upd(opt_str(a.color), part_value(part, "color"@))
    &&& opt_str(b.display_name) == upd(opt_str(a.display_name), part_value(part, "display-name"@))
    &&& opt_str(b.emotes) == upd(opt_str(a.emotes), part_value(part, "emotes"@))
    &&& b.first_msg == upd_bool(a.first_msg, part_value(part, "first-msg"@))
    &&& opt_str(b.flags) == upd(opt_str(a.flags), part_value(part, "flags"@))
    &&& opt_str(b.id) == upd(opt_str(a.id), part_value(part, "id"@))
    &&& b.mod_status == upd_bool(a.mod_status, part_value(part, "mod"@))
    &&& b.returning_chatter == upd_bool(
        a.returning_chatter,
        part_value(part, "returning-chatter"@),
    )
    &&& opt_str(b.room_id) == upd(opt_str(a.room_id), part_value(part, "room-id"@))
    &&& b.subscriber == upd_bool(a.subscriber, part_value(part, "subscriber"@))
    &&& opt_str(b.tmi_sent_ts) == upd(opt_str(a.tmi_sent_ts), part_value(part, "tmi-sent-ts"@))
    &&& b.turbo == upd_bool(a.turbo, part_value(part, "turbo"@))
    &&& opt_str(b.user_id) == upd(opt_str(a.user_id), part_value(part, "user-id"@))
    &&& opt_str(b.user_type) == upd(opt_str(a.user_type), part_value(part, "user-type"@))
}

/// Applies a single `key=value` metadata part to the message.
#[verifier::rlimit(100)]
fn apply_part(message: &mut MessageData, part: &str)
    ensures
        same_frame(*old(message), *final(message)),
        part_applied(*old(message), *final(message), part@),
{
    proof {
        reveal_strlit("=");
        assert("="@ =~= seq!['=']);
        reveal_strlit("badge-info");
        reveal_strlit("badges");
        reveal_strlit("client-nonce");
        reveal_strlit("color");
        reveal_strlit("display-name");
        reveal_strlit("emotes");
        reveal_strlit("first-msg");
        reveal_strlit("flags");
        reveal_strlit("id");
        reveal_strlit("mod");
        reveal_strlit("returning-chatter");
        reveal_strlit("room-id");
        reveal_strlit("subscriber");
        reveal_strlit("tmi-sent-ts");
        reveal_strlit("turbo");
        reveal_strlit("user-id");
        reveal_strlit("user-type");
        assert("badge-info"@.len() == 10 && "badge-info"@[0] == 'b');
        assert("badges"@.len() == 6 && "badges"@[0] == 'b');
        assert("client-nonce"@.len() == 12 && "client-nonce"@[0] == 'c');
        assert("color"@.len() == 5 && "color"@[0] == 'c');
        assert("display-name"@.len() == 12 && "display-name"@[0] == 'd');
        assert("emotes"@.len() == 6 && "emotes"@[0] == 'e');
        assert("first-msg"@.len() == 9 && "first-msg"@[0] == 'f');
        assert("flags"@.len() == 5 && "flags"@[0] == 'f');
        assert("id"@.len() == 2 && "id"@[0] == 'i');
        assert("mod"@.len() == 3 && "mod"@[0] == 'm');
        assert("returning-chatter"@.len() == 17 && "returning-chatter"@[0] == 'r');
        assert("room-id"@.len() == 7 && "room-id"@[0] == 'r');
        assert("subscriber"@.len() == 10 && "subscriber"@[0] == 's');
        assert("tmi-sent-ts"@.len() == 11 && "tmi-sent-ts"@[0] == 't');
        assert("turbo"@.len() == 5 && "turbo"@[0] == 't');
        assert("user-id"@.len() == 7 && "user-id"@[0] == 'u');
        assert("user-type"@.len() == 9 && "user-type"@[0] == 'u');
        assert("badges"@[1] == 'a' && "emotes"@[1] == 'm');
        assert("color"@[1] == 'o' && "flags"@[1] == 'l' && "turbo"@[1] == 'u');
        assert("client-nonce"@[1] == 'l' && "display-name"@[1] == 'i');
        assert("badge-info"@[1] == 'a' && "subscriber"@[1] == 'u');
        assert("first-msg"@[1] == 'i' && "user-type"@[1] == 's');
        assert("room-id"@[1] == 'o' && "user-id"@[1] == 's');
        assert("tmi-sent-ts"@[1] == 'm');
    }
    match split_once_sub(part, "=") {
        Some((key, value)) => {
            let k = key.as_str();
            let trimmed = trim(value.as_str());
            if str_eq(k, "badge-info") {
                message.badge_info = Some(trimmed);
            } else if str_eq(k, "badges") {
                message.badges = Some(trimmed);
            } else if str_eq(k, "client-nonce") {
                message.client_nonce = Some(trimmed);
            } else if str_eq(k, "color") {
                message.color = Some(trimmed);
            } else if str_eq(k, "display-name") {
                message.display_name = Some(trimmed);
            } else if str_eq(k, "emotes") {
                message.emotes = Some(trimmed);
            } else if str_eq(k, "first-msg") {
                message.first_msg = parse_bool(trimmed.as_str());
            } else if str_eq(k, "flags") {
                message.flags = Some(trimmed);
            } else if str_eq(k, "id") {
                message.id = Some(trimmed);
            } else if str_eq(k, "mod") {
                message.mod_status = parse_bool(trimmed.as_str());
            } else if str_eq(k, "returning-chatter") {
                message.returning_chatter = parse_bool(trimmed.as_str());
            } else if str_eq(k, "room-id") {
                message.room_id = Some(trimmed);
            } else if str_eq(k, "subscriber") {
                message.subscriber = parse_bool(trimmed.as_str());
            } else if str_eq(k, "tmi-sent-ts") {
                message.tmi_sent_ts = Some(trimmed);
            } else if str_eq(k, "turbo") {
                message.turbo = parse_bool(trimmed.as_str());
            } else if str_eq(k, "user-id") {
                message.user_id = Some(trimmed);
            } else if str_eq(k, "user-type") {
                message.user_type = Some(trimmed);
            }
        },
        None => {
        },
    }
}

/// All tag fields of `m` hold exactly what the metadata prefix `meta`
/// assigns, starting from empty fields.
pub open spec fn tags_from_meta(m: MessageData, meta: Seq<char>) -> bool {
    &&& opt_str(m.badge_info) == tag_value(meta, "badge-info"@)
    &&& opt_str(m.badges) == tag_value(meta, "badges"@)
    &&& opt_str(m.client_nonce) == tag_value(meta, "client-nonce"@)
    &&& opt_str(m.color) == tag_value(meta, "color"@)
    &&& opt_str(m.display_name) == tag_value(meta, "display-name"@)
    &&& opt_str(m.emotes) == tag_value(meta, "emotes"@)
    &&& m.first_msg == upd_bool(Option::None, tag_value(meta, "first-msg"@))
    &&& opt_str(m.flags) == tag_value(meta, "flags"@)
    &&& opt_str(m.id) == tag_value(meta, "id"@)
    &&& m.mod_status == upd_bool(Option::None, tag_value(meta, "mod"@))
    &&& m.returning_chatter == upd_bool(Option::None, tag_value(meta, "returning-chatter"@))
    &&& opt_str(m.room_id) == tag_value(meta, "room-id"@)
    &&& m.subscriber == upd_bool(Option::None, tag_value(meta, "subscriber"@))
    &&& opt_str(m.tmi_sent_ts) == tag_value(meta, "tmi-sent-ts"@)
    &&& m.turbo == upd_bool(Option::None, tag_value(meta, "turbo"@))
    &&& opt_str(m.user_id) == tag_value(meta, "user-id"@)
    &&& opt_str(m.user_type) == tag_value(meta, "user-type"@)
}

/// Applies the whole `;`-separated metadata prefix, later parts winning.
fn apply_tags(message: &mut MessageData, meta: &str)
    ensures
        same_frame(*old(message), *final(message)),
        tags_applied(*old(message), *final(message), meta@),
    decreases meta@.len(),
{
    proof {
        reveal_strlit(";");
        assert(";"@ =~= seq![';']);
        crate::strutil::lemma_find_at_props(meta@, ";"@, 0);
    }
    match split_once_sub(meta, ";") {
        Some((part, rest)) => {
            apply_part(message, part.as_str());
            apply_tags(message, rest.as_str());
        },
        None => {
            apply_part(message, meta);
        },
    }
}

/// Everything [`MessageData::new`] promises of a message it returns for
/// the raw line `raw` received at `now`.
pub open spec fn parsed_ok(m: MessageData, raw: Seq<char>, now: u64) -> bool {
    &&& parse_outcome(raw) matches Some(out) && m.channel@ == out.0 && m.text@ == out.1
    &&& m.raw_message@ == raw
    &&& m.received == now
    &&& m.reply is None
    &&& tags_from_meta(m, strip_tag_marker(split_meta(raw).unwrap().0))
    &&& {
        let kind = if parse_outcome(raw).unwrap().2 {
            Type::WHISPER
        } else {
            Type::PRIVMSG
        };
        if m.display_name matches Some(dn) && in_ignore_list(dn@) {
            m.tags@ == seq![kind, Type::Ignore]
        } else {
            m.tags@ == seq![kind]
        }
    }
}

impl MessageData {
    /// Decodes one raw chat line received at `now`.
    ///
    /// Returns `None` when the line holds no metadata `:` separator, no
    /// command token, or no ` :` before the body; otherwise every field is
    /// as [`parse_outcome`] and [`tags_from_meta`] state, and the message
    /// of an ignore-listed sender carries the [`Type::Ignore`] tag.
    pub fn new(raw: &str, now: u64) -> (r: Option<MessageData>)
        ensures
            r is Some <==> parse_outcome(raw@) is Some,
            r matches Some(m) ==> parsed_ok(m, raw@, now),
    {
        let meta_rest = split_once_sub(raw, ":");
        let (meta, rest) = match meta_rest {
            Some(pair) => pair,
            None => {
                return Option::None;
            },
        };
        let parts = if contains_sub(raw, "PRIVMSG #") {
            match split_once_sub(rest.as_str(), "PRIVMSG #") {
                Some((_head, tail)) => match split_once_sub(tail.as_str(), " :") {
                    Some((ch, tx)) => (trim(ch.as_str()), trim_crlf(tx.as_str()), false),
                    None => {
                        return Option::None;
                    },
                },
                None => {
                    return Option::None;
                },
            }
        } else if contains_sub(raw, "WHISPER") {
            match split_once_sub(rest.as_str(), "WHISPER") {
                Some((_head, tail)) => match split_once_sub(tail.as_str(), " :") {
                    Some((ch, tx)) => (trim(ch.as_str()), trim_crlf(tx.as_str()), true),
                    None => {
                        return Option::None;
                    },
                },
                None => {
                    return Option::None;
                },
            }
        } else {
            return Option::None;
        };
        let (channel, text, whisper) = parts;
        let kind = if whisper {
            Type::WHISPER
        } else {
            Type::PRIVMSG
        };
        let mut message = MessageData::default(now);
        message.channel = channel;
        message.text = text;
        message.raw_message = String::from_str(raw);
        let mut tag_list: Vec<Type> = Vec::new();
        tag_list.push(kind);
        message.tags = tag_list;
        let meta_len = meta.as_str().unicode_len();
        let stripped = if starts_with_sub(meta.as_str(), "@") {
            proof {
                reveal_strlit("@");
                assert("@"@ =~= seq!['@']);
                assert(meta@.subrange(0, 1) == "@"@);
                assert(meta@.subrange(0, 1)[0] == meta@[0]);
                assert(meta@[0] == '@');
            }
            let tail = meta.as_str().substring_char(1, meta_len);
            proof {
                assert(tail@ =~= strip_tag_marker(meta@));
            }
            String::from_str(tail)
        } else {
            proof {
                reveal_strlit("@");
                assert("@"@ =~= seq!['@']);
                if meta@.len() > 0 && meta@[0] == '@' {
                    assert(meta@.subrange(0, 1) =~= "@"@);
                }
                assert(meta@ =~= strip_tag_marker(meta@));
            }
            meta
        };
        apply_tags(&mut message, stripped.as_str());
        let ignored = match &message.display_name {
            Some(dn) => is_ignored(dn.as_str()),
            None => false,
        };
        if ignored {
            message.tags.push(Type::Ignore);
            proof {
                assert(message.tags@ =~= seq![kind, Type::Ignore]);
            }
        } else {
            proof {
                assert(message.tags@ =~= seq![kind]);
            }
        }
        Some(message)
    }
}

/// An inbound message the codec decoded for a sender on the ignore-list
/// never passes the dispatcher gate: its tag list carries
/// [`Type::Ignore`], which [`should_dispatch`] rejects.
pub proof fn lemma_ignore_list_drop(m: MessageData, raw: Seq<char>, now: u64)
    requires
        parsed_ok(m, raw, now),
        m.display_name matches Some(dn) && in_ignore_list(dn@),
    ensures
        spec_has_tag(m.tags@, Type::Ignore),
{
    assert(m.tags@[1] == Type::Ignore);
}

} // verus!
