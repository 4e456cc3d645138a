//! The typed events that the server sends, read from the JSON body of a
//! notification frame.
use vstd::prelude::*;
use crate::codec::push_bytes;
use crate::decode::{MsgDecodeError, RawServerMessage};
use crate::json::{
    field_string, field_string_or_empty, field_u32, lenient_str, lenient_u32, same_text, str_of,
    str_or_empty_of, to_lenient_string, to_lenient_u32, u32_of, JsonValue,
};

verus! {

/// The element at position `i` of a value that may be absent.
pub open spec fn entry_of(v: Option<JsonValue>, i: int) -> Option<JsonValue> {
    match v {
        Some(x) => x.element(i),
        None => None,
    }
}

/// The last element of a value that may be absent.
pub open spec fn last_entry_of(v: Option<JsonValue>) -> Option<JsonValue> {
    match v {
        Some(x) => x.last_element(),
        None => None,
    }
}

/// The element at position `i` of a value that may be absent.
fn entry(v: Option<&JsonValue>, i: usize) -> (r: Option<&JsonValue>)
    ensures
        match entry_of(
            match v {
                Some(x) => Some(*x),
                None => None,
            },
            i as int,
        ) {
            Some(e) => r is Some && *r->Some_0 == e,
            None => r is None,
        },
{
    match v {
        Some(x) => x.index(i),
        None => None,
    }
}

/// The last element of a value that may be absent.
fn last_entry(v: Option<&JsonValue>) -> (r: Option<&JsonValue>)
    ensures
        match last_entry_of(
            match v {
                Some(x) => Some(*x),
                None => None,
            },
        ) {
            Some(e) => r is Some && *r->Some_0 == e,
            None => r is None,
        },
{
    match v {
        Some(x) => x.last(),
        None => None,
    }
}

/// A chat message, read from the positional `info` array of a `DANMU_MSG`.
#[derive(Clone, Debug, PartialEq, Eq)]
pub struct DanmuMsg {
    pub uid: u32,
    pub uname: String,
    pub card_lv: u32,
    pub card_name: String,
    pub card_owner_uid: u32,
    pub card_owner_name: String,
    pub text: String,
}

/// A viewer who entered or interacted with the room.
#[derive(Clone, Debug, PartialEq, Eq)]
pub struct User {
    pub uid: u32,
    pub uname: String,
}

/// A purchase of a guard subscription.
#[derive(Clone, Debug, PartialEq, Eq)]
pub struct GuardBuy {
    pub gift_id: u32,
    pub gift_name: String,
    pub guard_level: u32,
    pub num: u32,
    pub uid: u32,
    pub username: String,
}

/// One gift.
#[derive(Clone, Debug, PartialEq, Eq)]
pub struct OneGift {
    pub gift_id: u32,
    pub gift_name: String,
    pub num: u32,
    pub uid: u32,
    pub uname: String,
}

/// A combo of gifts.
#[derive(Clone, Debug, PartialEq, Eq)]
pub struct BatchGift {
    pub gift_id: u32,
    pub gift_name: String,
    pub total_num: u32,
    pub uid: u32,
    pub uname: String,
}

impl DanmuMsg {
    /// Whether `info` can be read as a chat message: it is an array.
    pub open spec fn readable(info: JsonValue) -> bool {
        info is Array
    }

    /// Whether `self` is what `info` says. Each entry is read leniently: an entry
    /// that is missing or of another kind reads as zero or empty, and so do the
    /// entries of a user or medal entry that is no array.
    pub open spec fn read_from(self, info: JsonValue) -> bool {
        let user = info.element(2);
        let medal = info.element(3);
        &&& self.text@ == lenient_str(info.element(1))
        &&& self.uid == lenient_u32(entry_of(user, 0))
        &&& self.uname@ == lenient_str(entry_of(user, 1))
        &&& self.card_lv == lenient_u32(entry_of(medal, 0))
        &&& self.card_name@ == lenient_str(entry_of(medal, 1))
        &&& self.card_owner_name@ == lenient_str(entry_of(medal, 2))
        &&& self.card_owner_uid == lenient_u32(last_entry_of(medal))
    }

    /// Reads a chat message from its `info` array.
    pub fn from_info(info: &JsonValue) -> (r: Result<DanmuMsg, MsgDecodeError>)
        ensures
            r is Ok <==> Self::readable(*info),
            r is Ok ==> r->Ok_0.read_from(*info),
            r is Err ==> r->Err_0 is DecodeBodyError,
    {
        match info {
            JsonValue::Array(_) => {},
            _ => {
                return Err(MsgDecodeError::DecodeBodyError("info type error".to_owned()));
            },
        }
        let user = info.index(2);
        let medal = info.index(3);
        Ok(DanmuMsg {
            uid: to_lenient_u32(entry(user, 0)),
            uname: to_lenient_string(entry(user, 1)),
            card_lv: to_lenient_u32(entry(medal, 0)),
            card_name: to_lenient_string(entry(medal, 1)),
            card_owner_uid: to_lenient_u32(last_entry(medal)),
            card_owner_name: to_lenient_string(entry(medal, 2)),
            text: to_lenient_string(info.index(1)),
        })
    }
}

impl User {
    /// Whether `v` holds a user: a `u32` member `uid`, and a text `uname` or none.
    pub open spec fn readable(v: JsonValue) -> bool {
        &&& u32_of(v.member("uid"@)) is Some
        &&& str_or_empty_of(v.member("uname"@)) is Some
    }

    /// Whether `self` is the user that `v` holds.
    pub open spec fn read_from(self, v: JsonValue) -> bool {
        &&& Some(self.uid) == u32_of(v.member("uid"@))
        &&& Some(self.uname@) == str_or_empty_of(v.member("uname"@))
    }

    /// Reads a user from a JSON object.
    pub fn from_json(v: &JsonValue) -> (r: Result<User, MsgDecodeError>)
        ensures
            r is Ok <==> Self::readable(*v),
            r is Ok ==> r->Ok_0.read_from(*v),
            r is Err ==> r->Err_0 is DecodeBodyError,
    {
        let uid = field_u32(v, "uid")?;
        let uname = field_string_or_empty(v, "uname")?;
        Ok(User { uid, uname })
    }
}

impl GuardBuy {
    /// Whether `v` holds a guard purchase: all six members, of their kinds.
    pub open spec fn readable(v: JsonValue) -> bool {
        &&& u32_of(v.member("gift_id"@)) is Some
        &&& str_of(v.member("gift_name"@)) is Some
        &&& u32_of(v.member("guard_level"@)) is Some
        &&& u32_of(v.member("num"@)) is Some
        &&& u32_of(v.member("uid"@)) is Some
        &&& str_of(v.member("username"@)) is Some
    }

    /// Whether `self` is the purchase that `v` holds.
    pub open spec fn read_from(self, v: JsonValue) -> bool {
        &&& Some(self.gift_id) == u32_of(v.member("gift_id"@))
        &&& Some(self.gift_name@) == str_of(v.member("gift_name"@))
        &&& Some(self.guard_level) == u32_of(v.member("guard_level"@))
        &&& Some(self.num) == u32_of(v.member("num"@))
        &&& Some(self.uid) == u32_of(v.member("uid"@))
        &&& Some(self.username@) == str_of(v.member("username"@))
    }

    /// Reads a guard purchase from a JSON object.
    pub fn from_json(v: &JsonValue) -> (r: Result<GuardBuy, MsgDecodeError>)
        ensures
            r is Ok <==> Self::readable(*v),
            r is Ok ==> r->Ok_0.read_from(*v),
            r is Err ==> r->Err_0 is DecodeBodyError,
    {
        let gift_id = field_u32(v, "gift_id")?;
        let gift_name = field_string(v, "gift_name")?;
        let guard_level = field_u32(v, "guard_level")?;
        let num = field_u32(v, "num")?;
        let uid = field_u32(v, "uid")?;
        let username = field_string(v, "username")?;
        Ok(GuardBuy { gift_id, gift_name, guard_level, num, uid, username })
    }
}

impl OneGift {
    /// Whether `v` holds a gift: `giftId`, `giftName`, `num`, `uid` and `uname`.
    pub open spec fn readable(v: JsonValue) -> bool {
        &&& u32_of(v.member("giftId"@)) is Some
        &&& str_of(v.member("giftName"@)) is Some
        &&& u32_of(v.member("num"@)) is Some
        &&& u32_of(v.member("uid"@)) is Some
        &&& str_of(v.member("uname"@)) is Some
    }

    /// Whether `self` is the gift that `v` holds.
    pub open spec fn read_from(self, v: JsonValue) -> bool {
        &&& Some(self.gift_id) == u32_of(v.member("giftId"@))
        &&& Some(self.gift_name@) == str_of(v.member("giftName"@))
        &&& Some(self.num) == u32_of(v.member("num"@))
        &&& Some(self.uid) == u32_of(v.member("uid"@))
        &&& Some(self.uname@) == str_of(v.member("uname"@))
    }

    /// Reads a gift from a JSON object.
    pub fn from_json(v: &JsonValue) -> (r: Result<OneGift, MsgDecodeError>)
        ensures
            r is Ok <==> Self::readable(*v),
            r is Ok ==> r->Ok_0.read_from(*v),
            r is Err ==> r->Err_0 is DecodeBodyError,
    {
        let gift_id = field_u32(v, "giftId")?;
        let gift_name = field_string(v, "giftName")?;
        let num = field_u32(v, "num")?;
        let uid = field_u32(v, "uid")?;
        let uname = field_string(v, "uname")?;
        Ok(OneGift { gift_id, gift_name, num, uid, uname })
    }
}

impl BatchGift {
    /// Whether `v` holds a gift combo: `gift_id`, `gift_name`, `total_num`, `uid`
    /// and `uname`.
    pub open spec fn readable(v: JsonValue) -> bool {
        &&& u32_of(v.member("gift_id"@)) is Some
        &&& str_of(v.member("gift_name"@)) is Some
        &&& u32_of(v.member("total_num"@)) is Some
        &&& u32_of(v.member("uid"@)) is Some
        &&& str_of(v.member("uname"@)) is Some
    }

    /// Whether `self` is the combo that `v` holds.
    pub open spec fn read_from(self, v: JsonValue) -> bool {
        &&& Some(self.gift_id) == u32_of(v.member("gift_id"@))
        &&& Some(self.gift_name@) == str_of(v.member("gift_name"@))
        &&& Some(self.total_num) == u32_of(v.member("total_num"@))
        &&& Some(self.uid) == u32_of(v.member("uid"@))
        &&& Some(self.uname@) == str_of(v.member("uname"@))
    }

    /// Reads a gift combo from a JSON object.
    pub fn from_json(v: &JsonValue) -> (r: Result<BatchGift, MsgDecodeError>)
        ensures
            r is Ok <==> Self::readable(*v),
            r is Ok ==> r->Ok_0.read_from(*v),
            r is Err ==> r->Err_0 is DecodeBodyError,
    {
        let gift_id = field_u32(v, "gift_id")?;
        let gift_name = field_string(v, "gift_name")?;
        let total_num = field_u32(v, "total_num")?;
        let uid = field_u32(v, "uid")?;
        let uname = field_string(v, "uname")?;
        Ok(BatchGift { gift_id, gift_name, total_num, uid, uname })
    }
}

/// An event of the room, tagged by the `cmd` member of its JSON body. A `cmd`
/// that this client does not read stands as `Other`, with the body it came in.
#[allow(non_camel_case_types)]
#[derive(Clone, Debug, PartialEq, Eq)]
pub enum NotificationMsg {
    DANMU_MSG { info: DanmuMsg },
    ENTRY_EFFECT { data: User },
    INTERACT_WORD { data: User },
    NOTICE_MSG,
    STOP_LIVE_ROOM_LIST,
    SEND_GIFT { data: OneGift },
    COMBO_SEND { data: BatchGift },
    ONLINE_RANK_COUNT,
    ONLINE_RANK_V2,
    GUARD_BUY { data: GuardBuy },
    ROOM_REAL_TIME_MESSAGE_UPDATE,
    LIVE,
    Other { cmd: String, raw: Vec<u8> },
}

/// The text of the `cmd` member of an event.
pub open spec fn cmd_of(v: JsonValue) -> Option<Seq<char>> {
    str_of(v.member("cmd"@))
}

impl NotificationMsg {
    /// Whether `v` holds an event: an object with a text `cmd`, and for the
    /// events that carry data, a member `info` or `data` that reads.
    pub open spec fn readable(v: JsonValue) -> bool {
        match cmd_of(v) {
            None => false,
            Some(cmd) => if cmd == "DANMU_MSG"@ {
                v.member("info"@) is Some && DanmuMsg::readable(v.member("info"@)->Some_0)
            } else if cmd == "ENTRY_EFFECT"@ || cmd == "INTERACT_WORD"@ {
                v.member("data"@) is Some && User::readable(v.member("data"@)->Some_0)
            } else if cmd == "SEND_GIFT"@ {
                v.member("data"@) is Some && OneGift::readable(v.member("data"@)->Some_0)
            } else if cmd == "COMBO_SEND"@ {
                v.member("data"@) is Some && BatchGift::readable(v.member("data"@)->Some_0)
            } else if cmd == "GUARD_BUY"@ {
                v.member("data"@) is Some && GuardBuy::readable(v.member("data"@)->Some_0)
            } else {
                true
            },
        }
    }

    /// Whether `self` is the event that `v` holds; `raw` is the body that `v`
    /// was read from.
    pub open spec fn read_from(self, v: JsonValue, raw: Seq<u8>) -> bool {
        let cmd = cmd_of(v)->Some_0;
        let info = v.member("info"@)->Some_0;
        let data = v.member("data"@)->Some_0;
        if cmd == "DANMU_MSG"@ {
            self is DANMU_MSG && self->DANMU_MSG_info.read_from(info)
        } else if cmd == "ENTRY_EFFECT"@ {
            self is ENTRY_EFFECT && self->ENTRY_EFFECT_data.read_from(data)
        } else if cmd == "INTERACT_WORD"@ {
            self is INTERACT_WORD && self->INTERACT_WORD_data.read_from(data)
        } else if cmd == "SEND_GIFT"@ {
            self is SEND_GIFT && self->SEND_GIFT_data.read_from(data)
        } else if cmd == "COMBO_SEND"@ {
            self is COMBO_SEND && self->COMBO_SEND_data.read_from(data)
        } else if cmd == "GUARD_BUY"@ {
            self is GUARD_BUY && self->GUARD_BUY_data.read_from(data)
        } else if cmd == "NOTICE_MSG"@ {
            self is NOTICE_MSG
        } else if cmd == "STOP_LIVE_ROOM_LIST"@ {
            self is STOP_LIVE_ROOM_LIST
        } else if cmd == "ONLINE_RANK_COUNT"@ {
            self is ONLINE_RANK_COUNT
        } else if cmd == "ONLINE_RANK_V2"@ {
            self is ONLINE_RANK_V2
        } else if cmd == "ROOM_REAL_TIME_MESSAGE_UPDATE"@ {
            self is ROOM_REAL_TIME_MESSAGE_UPDATE
        } else if cmd == "LIVE"@ {
            self is LIVE
        } else {
            self is Other && self->Other_cmd@ == cmd && self->Other_raw@ == raw
        }
    }

    /// Reads an event from the JSON `v` of the body `raw` of a notification.
    pub fn from_json(v: &JsonValue, raw: &[u8]) -> (r: Result<NotificationMsg, MsgDecodeError>)
        ensures
            r is Ok <==> Self::readable(*v),
            r is Ok ==> r->Ok_0.read_from(*v, raw@),
            r is Err ==> r->Err_0 is DecodeBodyError,
    {
        let cmd = field_string(v, "cmd")?;
        let c = cmd.as_str();
        if same_text(c, "DANMU_MSG") {
            match v.get("info") {
                Some(info) => Ok(NotificationMsg::DANMU_MSG { info: DanmuMsg::from_info(info)? }),
                None => Err(MsgDecodeError::DecodeBodyError("info".to_owned())),
            }
        } else if same_text(c, "ENTRY_EFFECT") || same_text(c, "INTERACT_WORD") {
            let data = match v.get("data") {
                Some(d) => User::from_json(d)?,
                None => {
                    return Err(MsgDecodeError::DecodeBodyError("data".to_owned()));
                },
            };
            if same_text(c, "ENTRY_EFFECT") {
                Ok(NotificationMsg::ENTRY_EFFECT { data })
            } else {
                Ok(NotificationMsg::INTERACT_WORD { data })
            }
        } else if same_text(c, "SEND_GIFT") {
            match v.get("data") {
                Some(d) => Ok(NotificationMsg::SEND_GIFT { data: OneGift::from_json(d)? }),
                None => Err(MsgDecodeError::DecodeBodyError("data".to_owned())),
            }
        } else if same_text(c, "COMBO_SEND") {
            match v.get("data") {
                Some(d) => Ok(NotificationMsg::COMBO_SEND { data: BatchGift::from_json(d)? }),
                None => Err(MsgDecodeError::DecodeBodyError("data".to_owned())),
            }
        } else if same_text(c, "GUARD_BUY") {
            match v.get("data") {
                Some(d) => Ok(NotificationMsg::GUARD_BUY { data: GuardBuy::from_json(d)? }),
                None => Err(MsgDecodeError::DecodeBodyError("data".to_owned())),
            }
        } else if same_text(c, "NOTICE_MSG") {
            Ok(NotificationMsg::NOTICE_MSG)
        } else if same_text(c, "STOP_LIVE_ROOM_LIST") {
            Ok(NotificationMsg::STOP_LIVE_ROOM_LIST)
        } else if same_text(c, "ONLINE_RANK_COUNT") {
            Ok(NotificationMsg::ONLINE_RANK_COUNT)
        } else if same_text(c, "ONLINE_RANK_V2") {
            Ok(NotificationMsg::ONLINE_RANK_V2)
        } else if same_text(c, "ROOM_REAL_TIME_MESSAGE_UPDATE") {
            Ok(NotificationMsg::ROOM_REAL_TIME_MESSAGE_UPDATE)
        } else if same_text(c, "LIVE") {
            Ok(NotificationMsg::LIVE)
        } else {
            let mut bytes: Vec<u8> = Vec::new();
            push_bytes(&mut bytes, raw);
            assert(bytes@ =~= raw@);
            Ok(NotificationMsg::Other { cmd, raw: bytes })
        }
    }
}

/// An event that the server sent, as the consumer receives it.
#[derive(Clone, Debug, PartialEq, Eq)]
pub enum ServerLiveMessage {
    LoginAck,
    Notification(NotificationMsg),
    ServerHeartBeat,
}

impl ServerLiveMessage {
    /// The event of a decoded frame. `body` is the JSON read from the body of a
    /// notification frame, or nothing where the body is no JSON; it is not read
    /// for the other frames.
    pub fn from_frame(frame: &RawServerMessage, body: Option<&JsonValue>) -> (r: Result<
        ServerLiveMessage,
        MsgDecodeError,
    >)
        ensures
            match frame {
                RawServerMessage::LoginAck => r == Ok::<ServerLiveMessage, MsgDecodeError>(ServerLiveMessage::LoginAck),
                RawServerMessage::ServerHeartBeat => r == Ok::<ServerLiveMessage, MsgDecodeError>(ServerLiveMessage::ServerHeartBeat),
                RawServerMessage::Notification(raw) => match body {
                    None => r is Err && r->Err_0 is DecodeBodyError,
                    Some(v) => {
                        &&& r is Ok <==> NotificationMsg::readable(*v)
                        &&& r is Ok ==> r->Ok_0 is Notification && r->Ok_0->Notification_0.read_from(*v, raw@)
                        &&& r is Err ==> r->Err_0 is DecodeBodyError
                    },
                },
            },
    {
        match frame {
            RawServerMessage::LoginAck => Ok(ServerLiveMessage::LoginAck),
            RawServerMessage::ServerHeartBeat => Ok(ServerLiveMessage::ServerHeartBeat),
            RawServerMessage::Notification(raw) => match body {
                None => Err(MsgDecodeError::DecodeBodyError("body is no JSON".to_owned())),
                Some(v) => Ok(ServerLiveMessage::Notification(NotificationMsg::from_json(v, raw.as_slice())?)),
            },
        }
    }
}

/// Whether the event of a frame can be read; `body` is the JSON of its body.
pub open spec fn frame_readable(frame: RawServerMessage, body: Option<JsonValue>) -> bool {
    match frame {
        RawServerMessage::Notification(_) => body is Some && NotificationMsg::readable(body->Some_0),
        _ => true,
    }
}

/// Whether `ev` is the event of a frame with JSON body `body`.
pub open spec fn is_event_of(ev: ServerLiveMessage, frame: RawServerMessage, body: Option<JsonValue>) -> bool {
    match frame {
        RawServerMessage::LoginAck => ev == ServerLiveMessage::LoginAck,
        RawServerMessage::ServerHeartBeat => ev == ServerLiveMessage::ServerHeartBeat,
        RawServerMessage::Notification(raw) => ev is Notification && ev->Notification_0.read_from(
            body->Some_0,
            raw@,
        ),
    }
}

/// The positions of the frames whose events can be read, in order.
pub open spec fn readable_positions(frames: Seq<RawServerMessage>, bodies: Seq<Option<JsonValue>>) -> Seq<int>
    decreases frames.len(),
{
    if frames.len() == 0 {
        seq![]
    } else {
        let prev = readable_positions(frames.drop_last(), bodies);
        if frame_readable(frames.last(), bodies[frames.len() - 1]) {
            prev.push(frames.len() - 1)
        } else {
            prev
        }
    }
}

proof fn lemma_positions_below(frames: Seq<RawServerMessage>, bodies: Seq<Option<JsonValue>>)
    ensures
        forall|j: int| 0 <= j < readable_positions(frames, bodies).len() ==> 0 <= #[trigger] readable_positions(frames, bodies)[j] < frames.len(),
    decreases frames.len(),
{
    if frames.len() > 0 {
        let prev = readable_positions(frames.drop_last(), bodies);
        lemma_positions_below(frames.drop_last(), bodies);
        let all = readable_positions(frames, bodies);
        assert forall|j: int| 0 <= j < all.len() implies 0 <= #[trigger] all[j] < frames.len() by {
            if j < prev.len() {
                assert(all[j] == prev[j]);
            }
        }
    }
}

/// The events of the frames of one message, in order. `bodies[i]` is the JSON
/// read from the body of frame `i`, or nothing. A frame whose event cannot be
/// read is left out; the frames after it still count.
pub fn collect_events(frames: &Vec<RawServerMessage>, bodies: &Vec<Option<JsonValue>>) -> (r: Vec<
    ServerLiveMessage,
>)
    requires
        frames@.len() == bodies@.len(),
    ensures
        r@.len() == readable_positions(frames@, bodies@).len(),
        forall|j: int| #![trigger r@[j]] 0 <= j < r@.len() ==> {
            let k = readable_positions(frames@, bodies@)[j];
            is_event_of(r@[j], frames@[k], bodies@[k])
        },
{
    let mut out: Vec<ServerLiveMessage> = Vec::new();
    let mut i: usize = 0;
    assert(frames@.subrange(0, 0) =~= Seq::<RawServerMessage>::empty());
    while i < frames.len()
        invariant
            i <= frames@.len(),
            frames@.len() == bodies@.len(),
            out@.len() == readable_positions(frames@.subrange(0, i as int), bodies@).len(),
            forall|j: int| #![trigger out@[j]] 0 <= j < out@.len() ==> {
                let k = readable_positions(frames@.subrange(0, i as int), bodies@)[j];
                0 <= k < i && is_event_of(out@[j], frames@[k], bodies@[k])
            },
        decreases frames@.len() - i,
    {
        let ghost prev = readable_positions(frames@.subrange(0, i as int), bodies@);
        let ghost next = frames@.subrange(0, i + 1);
        assert(next.drop_last() =~= frames@.subrange(0, i as int));
        assert(next.last() == frames@[i as int]);
        proof {
            lemma_positions_below(frames@.subrange(0, i as int), bodies@);
        }
        let body = match &bodies[i] {
            Some(v) => Some(v),
            None => None,
        };
        match ServerLiveMessage::from_frame(&frames[i], body) {
            Ok(ev) => {
                out.push(ev);
                assert(readable_positions(next, bodies@) == prev.push(i as int));
            },
            Err(_) => {
                assert(readable_positions(next, bodies@) == prev);
            },
        }
        i = i + 1;
    }
    assert(frames@.subrange(0, frames@.len() as int) =~= frames@);
    out
}

} // verus!
