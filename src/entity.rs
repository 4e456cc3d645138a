//! A room and its streamer, as the REST layer describes them.
use vstd::prelude::*;

verus! {

/// A live room.
#[derive(Clone, Debug, PartialEq, Eq)]
pub struct Room {
    /// The real room number.
    pub room_id: String,
    /// The streamer.
    pub user: User,
    /// The streamer's announcement.
    pub content: String,
    /// When the announcement was posted.
    pub content_time: String,
    /// The room's status as the server words it.
    pub statue: String,
}

/// A streamer.
#[derive(Clone, Debug, PartialEq, Eq)]
pub struct User {
    pub uid: String,
    pub username: String,
}

} // verus!
