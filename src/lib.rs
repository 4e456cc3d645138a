//! A client library for a live-streaming chat room: the binary frame codec,
//! the typed events that the server sends, the reconnect policy of the
//! streaming session, and the session cookies that authenticate a user.
pub mod api;
pub mod codec;
pub mod cookie;
pub mod decode;
pub mod entity;
pub mod json;
pub mod notification;
pub mod session;
pub mod text;
