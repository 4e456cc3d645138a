//! The shapes of the REST answers that the client reads.
use vstd::prelude::*;
use crate::cookie::{classify_poll, AuthError, PollOutcome};

verus! {

/// The envelope of every REST answer: `code` zero is success.
#[derive(Clone, Debug, PartialEq, Eq)]
pub struct APIResult<T> {
    pub code: i32,
    pub message: Option<String>,
    pub ttl: u32,
    pub ts: u32,
    pub data: Option<T>,
}

impl<T> APIResult<T> {
    /// Whether the answer reports success.
    pub fn is_success(&self) -> (r: bool)
        ensures
            r == (self.code == 0),
    {
        self.code == 0
    }
}

/// The QR code to show and the key to poll it with.
#[derive(Clone, Debug, PartialEq, Eq)]
pub struct LoginUrl {
    pub url: String,
    pub qrcode_key: String,
}

/// The data of a QR-login poll answer; `code` zero means confirmed.
#[derive(Clone, Debug, PartialEq, Eq)]
pub struct QrResult {
    pub url: String,
    pub refresh_token: String,
    pub timestamp: u64,
    pub code: i32,
    pub message: String,
}

impl APIResult<QrResult> {
    /// What the poll answer says: a failure for an outer code other than zero,
    /// confirmed for an inner code of zero, and pending otherwise.
    pub fn poll_outcome(&self) -> (r: Result<PollOutcome, AuthError>)
        ensures
            self.code != 0 ==> r == Err::<PollOutcome, AuthError>(AuthError::PollFailed { code: self.code }),
            self.code == 0 && self.data is Some && self.data->Some_0.code == 0 ==> r == Ok::<
                PollOutcome,
                AuthError,
            >(PollOutcome::Confirmed),
            self.code == 0 && !(self.data is Some && self.data->Some_0.code == 0) ==> r == Ok::<
                PollOutcome,
                AuthError,
            >(PollOutcome::Pending),
    {
        let inner = match &self.data {
            Some(d) => Some(d.code),
            None => None,
        };
        classify_poll(self.code, inner)
    }
}

/// The data of a block request: the blocked user's name, or an empty list.
#[derive(Clone, Debug, PartialEq, Eq)]
pub enum BanUserResult {
    Success { uname: String },
    Fail(Vec<()>),
}

/// One user that a user follows.
#[derive(Clone, Debug, PartialEq, Eq)]
pub struct FollowUser {
    pub mid: u32,
    pub uname: String,
    pub mtime: u64,
}

/// A page of followed users and their total count.
#[derive(Clone, Debug, PartialEq, Eq)]
pub struct FollowResult {
    pub list: Vec<FollowUser>,
    pub total: u32,
}

/// A chat server that the danmu-info answer lists.
#[derive(Clone, Debug, PartialEq, Eq)]
pub struct LiveHost {
    pub host: String,
    pub port: u32,
    pub ws_port: u32,
    pub wss_port: u32,
}

/// The configuration: the room to follow.
#[derive(Clone, Copy, Debug, PartialEq, Eq, Structural)]
pub struct AppConfig {
    pub room_id: u32,
}

/// The texts of form fields, name and value.
pub open spec fn fields_of(v: Seq<(String, String)>) -> Seq<(Seq<char>, Seq<char>)> {
    v.map_values(|f: (String, String)| (f.0@, f.1@))
}

/// The form that sends chat message `msg` to room `room_id`: white, size 25,
/// scrolling, with the CSRF token under both of its names.
pub open spec fn barrage_fields(room_id: Seq<char>, msg: Seq<char>, rnd: Seq<char>, csrf: Seq<char>) -> Seq<
    (Seq<char>, Seq<char>),
> {
    seq![
        ("color"@, "16777215"@),
        ("fontsize"@, "25"@),
        ("mode"@, "1"@),
        ("msg"@, msg),
        ("rnd"@, rnd),
        ("roomid"@, room_id),
        ("bubble"@, "0"@),
        ("csrf_token"@, csrf),
        ("csrf"@, csrf),
    ]
}

/// The form that blocks user `block_uid` in room `room_id` for `hour` hours.
pub open spec fn ban_fields(room_id: Seq<char>, block_uid: Seq<char>, hour: Seq<char>, csrf: Seq<char>) -> Seq<
    (Seq<char>, Seq<char>),
> {
    seq![
        ("roomid"@, room_id),
        ("block_uid"@, block_uid),
        ("hour"@, hour),
        ("csrf_token"@, csrf),
        ("csrf"@, csrf),
        ("visit_id"@, ""@),
    ]
}

/// A form field from two texts.
fn field(name: &str, value: &str) -> (r: (String, String))
    ensures
        r.0@ == name@,
        r.1@ == value@,
{
    (name.to_owned(), value.to_owned())
}

/// The form of a chat message; `rnd` is the time in seconds, in decimal.
pub fn barrage_form(room_id: &str, msg: &str, rnd: &str, csrf: &str) -> (r: Vec<(String, String)>)
    ensures
        fields_of(r@) == barrage_fields(room_id@, msg@, rnd@, csrf@),
{
    let mut v: Vec<(String, String)> = Vec::new();
    v.push(field("color", "16777215"));
    v.push(field("fontsize", "25"));
    v.push(field("mode", "1"));
    v.push(field("msg", msg));
    v.push(field("rnd", rnd));
    v.push(field("roomid", room_id));
    v.push(field("bubble", "0"));
    v.push(field("csrf_token", csrf));
    v.push(field("csrf", csrf));
    assert(fields_of(v@) =~= barrage_fields(room_id@, msg@, rnd@, csrf@));
    v
}

/// The form of a block request; `hour` is the number of hours, in decimal.
pub fn ban_form(room_id: &str, block_uid: &str, hour: &str, csrf: &str) -> (r: Vec<(String, String)>)
    ensures
        fields_of(r@) == ban_fields(room_id@, block_uid@, hour@, csrf@),
{
    let mut v: Vec<(String, String)> = Vec::new();
    v.push(field("roomid", room_id));
    v.push(field("block_uid", block_uid));
    v.push(field("hour", hour));
    v.push(field("csrf_token", csrf));
    v.push(field("csrf", csrf));
    v.push(field("visit_id", ""));
    assert(fields_of(v@) =~= ban_fields(room_id@, block_uid@, hour@, csrf@));
    v
}

} // verus!
