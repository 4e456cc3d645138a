//! Decoding of one websocket message from the server into its frames.
use vstd::prelude::*;
use crate::codec::{
    frame_bytes, get_be16, get_be32, header_at, lemma_frame_bytes, FrameHeader, HEADER_LEN,
    OP_HEARTBEAT_ACK, OP_LOGIN_ACK, OP_NOTIFICATION, VERSION_JSON, VERSION_ZLIB,
};

verus! {

/// How deep compressed frames may nest: the content of a compressed frame holds
/// plain frames only.
pub const ZLIB_NESTING: u32 = 1;

/// Why a server message could not be decoded.
#[derive(Clone, Debug, PartialEq, Eq)]
pub enum MsgDecodeError {
    /// Fewer than sixteen bytes for a header, a header length other than sixteen,
    /// or a frame longer than the bytes that remain.
    BadHeader,
    UselessMsg(usize),
    /// The inflater refused the body of a compressed frame (a bad header, block or
    /// checksum); its message. A stream cut short is not refused: its inflated
    /// part is decoded.
    InflateError(String),
    /// A version or an operation code that this client does not know.
    UndefinedMsg { pkg_v: u16, pkg_type: u32 },
    /// The body of a notification does not hold the event it should.
    DecodeBodyError(String),
}

/// What a decode error stands for, with its texts as character sequences.
pub enum DecodeFault {
    BadHeader,
    UselessMsg(usize),
    InflateError(Seq<char>),
    UndefinedMsg { pkg_v: u16, pkg_type: u32 },
    DecodeBodyError(Seq<char>),
}

impl View for MsgDecodeError {
    type V = DecodeFault;

    open spec fn view(&self) -> DecodeFault {
        match self {
            MsgDecodeError::BadHeader => DecodeFault::BadHeader,
            MsgDecodeError::UselessMsg(n) => DecodeFault::UselessMsg(*n),
            MsgDecodeError::InflateError(m) => DecodeFault::InflateError(m@),
            MsgDecodeError::UndefinedMsg { pkg_v, pkg_type } => DecodeFault::UndefinedMsg {
                pkg_v: *pkg_v,
                pkg_type: *pkg_type,
            },
            MsgDecodeError::DecodeBodyError(m) => DecodeFault::DecodeBodyError(m@),
        }
    }
}

/// One frame that the server sent, before its JSON is read.
#[derive(Clone, Debug, PartialEq, Eq)]
pub enum RawServerMessage {
    LoginAck,
    ServerHeartBeat,
    /// The JSON body of a notification.
    Notification(Vec<u8>),
}

/// What a server frame stands for.
pub enum RawEvent {
    LoginAck,
    ServerHeartBeat,
    Notification(Seq<u8>),
}

impl View for RawServerMessage {
    type V = RawEvent;

    open spec fn view(&self) -> RawEvent {
        match self {
            RawServerMessage::LoginAck => RawEvent::LoginAck,
            RawServerMessage::ServerHeartBeat => RawEvent::ServerHeartBeat,
            RawServerMessage::Notification(b) => RawEvent::Notification(b@),
        }
    }
}

/// The events that a list of frames stands for.
pub open spec fn events_of(s: Seq<RawServerMessage>) -> Seq<RawEvent> {
    s.map_values(|m: RawServerMessage| m@)
}

/// `prefix` followed by the events of `r`, or the error of `r`.
pub open spec fn prepend(prefix: Seq<RawEvent>, r: Result<Seq<RawEvent>, DecodeFault>) -> Result<
    Seq<RawEvent>,
    DecodeFault,
> {
    match r {
        Ok(s) => Ok(prefix + s),
        Err(e) => Err(e),
    }
}

/// What the zlib inflater of the `inflate` crate returns for a byte string.
pub uninterp spec fn zlib_inflated(b: Seq<u8>) -> Result<Seq<u8>, Seq<char>>;

/// Relies on inflate::inflate_bytes_zlib: the inflated bytes, or its message where
/// it refuses the stream; the outcome depends on the bytes alone.
#[verifier::external_body]
fn inflate_zlib(b: &[u8]) -> (r: Result<Vec<u8>, String>)
    ensures
        match r {
            Ok(v) => zlib_inflated(b@) == Ok::<Seq<u8>, Seq<char>>(v@),
            Err(m) => zlib_inflated(b@) == Err::<Seq<u8>, Seq<char>>(m@),
        },
{
    inflate::inflate_bytes_zlib(b)
}

/// The event of a plain (not compressed) frame with header `h` and body `body`.
pub open spec fn plain_frame_event(h: FrameHeader, body: Seq<u8>) -> Result<Seq<RawEvent>, DecodeFault> {
    if h.version > VERSION_ZLIB {
        Err(DecodeFault::UndefinedMsg { pkg_v: h.version, pkg_type: h.op })
    } else if h.op == OP_HEARTBEAT_ACK {
        Ok(seq![RawEvent::ServerHeartBeat])
    } else if h.op == OP_NOTIFICATION {
        Ok(seq![RawEvent::Notification(body)])
    } else if h.op == OP_LOGIN_ACK {
        Ok(seq![RawEvent::LoginAck])
    } else {
        Err(DecodeFault::UndefinedMsg { pkg_v: h.version, pkg_type: h.op })
    }
}

/// Whether `data` starts with a whole frame with a sixteen-byte header.
pub open spec fn starts_with_frame(data: Seq<u8>) -> bool {
    &&& data.len() >= HEADER_LEN
    &&& header_at(data, 0).header_length == HEADER_LEN
    &&& header_at(data, 0).total_length >= HEADER_LEN
    &&& header_at(data, 0).total_length <= data.len()
}

/// The events of the frames in `data`, in order. A compressed frame stands for the
/// events of its inflated content, where `depth` allows one more level of nesting,
/// and the frames after it in `data` follow those events.
pub open spec fn decode_events(data: Seq<u8>, depth: nat) -> Result<Seq<RawEvent>, DecodeFault>
    decreases depth, data.len(),
{
    if data.len() == 0 {
        Ok(seq![])
    } else if !starts_with_frame(data) {
        Err(DecodeFault::BadHeader)
    } else {
        let h = header_at(data, 0);
        let body = data.subrange(HEADER_LEN as int, h.total_length as int);
        let rest = data.subrange(h.total_length as int, data.len() as int);
        let first = if h.version == VERSION_ZLIB {
            if depth == 0 {
                Err(DecodeFault::UndefinedMsg { pkg_v: h.version, pkg_type: h.op })
            } else {
                match zlib_inflated(body) {
                    Ok(inner) => decode_events(inner, (depth - 1) as nat),
                    Err(m) => Err(DecodeFault::InflateError(m)),
                }
            }
        } else {
            plain_frame_event(h, body)
        };
        match first {
            Ok(evs) => prepend(evs, decode_events(rest, depth)),
            Err(e) => Err(e),
        }
    }
}

/// Copies the bytes from `a` up to `b`.
fn copy_range(data: &[u8], a: usize, b: usize) -> (r: Vec<u8>)
    requires
        a <= b <= data@.len(),
    ensures
        r@ == data@.subrange(a as int, b as int),
{
    let mut out: Vec<u8> = Vec::with_capacity(b - a);
    let mut i: usize = a;
    while i < b
        invariant
            a <= i <= b,
            b <= data@.len(),
            out@ == data@.subrange(a as int, i as int),
        decreases b - i,
    {
        out.push(data[i]);
        assert(data@.subrange(a as int, i + 1) =~= data@.subrange(a as int, i as int).push(data@[i as int]));
        i = i + 1;
    }
    out
}

/// Reads the header of the frame at position `at`.
pub fn read_header(data: &[u8], at: usize) -> (r: FrameHeader)
    requires
        at + 16 <= data@.len(),
    ensures
        r == header_at(data@, at as int),
        r == header_at(data@.subrange(at as int, data@.len() as int), 0),
{
    let len = data.len();
    assert(at + 16 <= len);
    let r = FrameHeader {
        total_length: get_be32(data, at),
        header_length: get_be16(data, at + 4),
        version: get_be16(data, at + 6),
        op: get_be32(data, at + 8),
        sequence: get_be32(data, at + 12),
    };
    let ghost rem = data@.subrange(at as int, data@.len() as int);
    assert forall|k: int| 0 <= k < 16 implies #[trigger] rem[k] == data@[at + k] by {}
    r
}

/// Reads the header at the start of a message, as the decoder does.
pub fn decode_header(data: &[u8]) -> (r: Result<FrameHeader, MsgDecodeError>)
    ensures
        match r {
            Ok(h) => data@.len() >= 16 && h == header_at(data@, 0) && h.header_length == HEADER_LEN,
            Err(e) => e == MsgDecodeError::BadHeader && (data@.len() < 16 || header_at(
                data@,
                0,
            ).header_length != HEADER_LEN),
        },
{
    if data.len() < 16 {
        return Err(MsgDecodeError::BadHeader);
    }
    let h = read_header(data, 0);
    if h.header_length != HEADER_LEN {
        Err(MsgDecodeError::BadHeader)
    } else {
        Ok(h)
    }
}

proof fn lemma_prepend_assoc(a: Seq<RawEvent>, b: Seq<RawEvent>, r: Result<Seq<RawEvent>, DecodeFault>)
    ensures
        prepend(a, prepend(b, r)) == prepend(a + b, r),
{
    if let Ok(s) = r {
        assert(a + (b + s) =~= (a + b) + s);
    }
}

/// Decodes the frames of `data` onto `out`, allowing `depth` levels of nested
/// compressed frames; on an error `out` holds what came before it.
fn decode_frames(data: &[u8], depth: u32, out: &mut Vec<RawServerMessage>) -> (r: Result<
    (),
    MsgDecodeError,
>)
    ensures
        match decode_events(data@, depth as nat) {
            Ok(evs) => r is Ok && events_of(final(out)@) == events_of(old(out)@) + evs,
            Err(e) => r is Err && r->Err_0@ == e,
        },
    decreases depth,
{
    let ghost d = depth as nat;
    let ghost start = events_of(out@);
    let ghost mut acc: Seq<RawEvent> = seq![];
    let mut pos: usize = 0;
    assert(data@.subrange(0, data@.len() as int) =~= data@);
    while pos < data.len()
        invariant
            pos <= data@.len(),
            d == depth as nat,
            events_of(out@) == start + acc,
            decode_events(data@, d) == prepend(acc, decode_events(data@.subrange(pos as int, data@.len() as int), d)),
        decreases data@.len() - pos,
    {
        let ghost rem = data@.subrange(pos as int, data@.len() as int);
        if data.len() - pos < 16 {
            return Err(MsgDecodeError::BadHeader);
        }
        let h = read_header(data, pos);
        if h.header_length != HEADER_LEN || h.total_length < 16 || h.total_length as usize > data.len() - pos {
            return Err(MsgDecodeError::BadHeader);
        }
        let end = pos + h.total_length as usize;
        let body = copy_range(data, pos + 16, end);
        assert(body@ =~= rem.subrange(16, h.total_length as int));
        let ghost rest = rem.subrange(h.total_length as int, rem.len() as int);
        assert(rest =~= data@.subrange(end as int, data@.len() as int));
        if h.version == VERSION_ZLIB {
            if depth == 0 {
                return Err(MsgDecodeError::UndefinedMsg { pkg_v: h.version, pkg_type: h.op });
            }
            match inflate_zlib(body.as_slice()) {
                Ok(inner) => {
                    let mut inner_out: Vec<RawServerMessage> = Vec::new();
                    let ir = decode_frames(inner.as_slice(), depth - 1, &mut inner_out);
                    match ir {
                        Ok(()) => {
                            let ghost evs = events_of(inner_out@);
                            assert(events_of(inner_out@) =~= events_of(Seq::<RawServerMessage>::empty()) + evs);
                            let ghost before = out@;
                            out.append(&mut inner_out);
                            assert(events_of(out@) =~= events_of(before) + evs);
                            proof {
                                lemma_prepend_assoc(acc, evs, decode_events(rest, d));
                                acc = acc + evs;
                            }
                        },
                        Err(e) => {
                            return Err(e);
                        },
                    }
                },
                Err(m) => {
                    return Err(MsgDecodeError::InflateError(m));
                },
            }
        } else if h.version > VERSION_ZLIB {
            return Err(MsgDecodeError::UndefinedMsg { pkg_v: h.version, pkg_type: h.op });
        } else {
            let m = if h.op == OP_HEARTBEAT_ACK {
                RawServerMessage::ServerHeartBeat
            } else if h.op == OP_NOTIFICATION {
                RawServerMessage::Notification(body)
            } else if h.op == OP_LOGIN_ACK {
                RawServerMessage::LoginAck
            } else {
                return Err(MsgDecodeError::UndefinedMsg { pkg_v: h.version, pkg_type: h.op });
            };
            let ghost ev = m@;
            let ghost before = out@;
            out.push(m);
            assert(events_of(out@) =~= events_of(before).push(ev));
            proof {
                lemma_prepend_assoc(acc, seq![ev], decode_events(rest, d));
                acc = acc + seq![ev];
            }
        }
        pos = end;
    }
    assert(data@.subrange(pos as int, data@.len() as int) =~= Seq::<u8>::empty());
    assert(acc + Seq::<RawEvent>::empty() =~= acc);
    Ok(())
}

/// Decodes one websocket message into the frames it holds, appended in wire order
/// to `result_list`. An empty message holds none. On an error the whole message is
/// dropped and `result_list` is left as it was. Compressed frames nest at most
/// `ZLIB_NESTING` deep: a compressed frame inside the content of a compressed frame
/// is refused as `UndefinedMsg` with version 2, which also bounds the work on a
/// stream that inflates to itself.
pub fn decode_from_server(data: Vec<u8>, result_list: &mut Vec<RawServerMessage>) -> (r: Result<
    (),
    MsgDecodeError,
>)
    ensures
        match decode_events(data@, ZLIB_NESTING as nat) {
            Ok(evs) => r is Ok && events_of(final(result_list)@) == events_of(old(result_list)@)
                + evs,
            Err(e) => r is Err && r->Err_0@ == e && final(result_list)@ == old(result_list)@,
        },
{
    let mut found: Vec<RawServerMessage> = Vec::new();
    let r = decode_frames(data.as_slice(), ZLIB_NESTING, &mut found);
    match r {
        Ok(()) => {
            let ghost before = result_list@;
            let ghost evs = events_of(found@);
            assert(events_of(found@) =~= events_of(Seq::<RawServerMessage>::empty()) + evs);
            result_list.append(&mut found);
            assert(events_of(result_list@) =~= events_of(before) + evs);
            Ok(())
        },
        Err(e) => Err(e),
    }
}

/// Decodes the inflated content of a compressed frame, which holds plain frames
/// only, appending their events to `result_list`; on an error `result_list` is
/// left as it was.
pub fn decode_inflated(content: &[u8], result_list: &mut Vec<RawServerMessage>) -> (r: Result<
    (),
    MsgDecodeError,
>)
    ensures
        match decode_events(content@, 0) {
            Ok(evs) => r is Ok && events_of(final(result_list)@) == events_of(old(result_list)@)
                + evs,
            Err(e) => r is Err && r->Err_0@ == e && final(result_list)@ == old(result_list)@,
        },
{
    let mut found: Vec<RawServerMessage> = Vec::new();
    match decode_frames(content, 0, &mut found) {
        Ok(()) => {
            let ghost before = result_list@;
            let ghost evs = events_of(found@);
            assert(events_of(found@) =~= events_of(Seq::<RawServerMessage>::empty()) + evs);
            result_list.append(&mut found);
            assert(events_of(result_list@) =~= events_of(before) + evs);
            Ok(())
        },
        Err(e) => Err(e),
    }
}

/// Decoding two messages joined together gives the events of the first, then
/// those of the second (or the second's error).
pub proof fn lemma_decode_concat(a: Seq<u8>, b: Seq<u8>, depth: nat)
    requires
        decode_events(a, depth) is Ok,
    ensures
        decode_events(a + b, depth) == prepend(decode_events(a, depth)->Ok_0, decode_events(b, depth)),
    decreases a.len(),
{
    let s = a + b;
    if a.len() == 0 {
        assert(s =~= b);
        if let Ok(x) = decode_events(b, depth) {
            assert(Seq::<RawEvent>::empty() + x =~= x);
        }
    } else {
        let h = header_at(a, 0);
        assert(header_at(s, 0) == h);
        let t = h.total_length as int;
        assert(s.subrange(16, t) =~= a.subrange(16, t));
        let rest_a = a.subrange(t, a.len() as int);
        assert(s.subrange(t, s.len() as int) =~= rest_a + b);
        lemma_decode_concat(rest_a, b, depth);
        let first = if h.version == VERSION_ZLIB {
            if depth == 0 {
                Err(DecodeFault::UndefinedMsg { pkg_v: h.version, pkg_type: h.op })
            } else {
                match zlib_inflated(a.subrange(16, t)) {
                    Ok(inner) => decode_events(inner, (depth - 1) as nat),
                    Err(m) => Err(DecodeFault::InflateError(m)),
                }
            }
        } else {
            plain_frame_event(h, a.subrange(16, t))
        };
        let evs = first->Ok_0;
        lemma_prepend_assoc(evs, decode_events(rest_a, depth)->Ok_0, decode_events(b, depth));
    }
}

/// A frame cut short by one byte or more decodes to `BadHeader`, with no event.
pub proof fn lemma_truncated_frame(f: Seq<u8>, k: int, depth: nat)
    requires
        starts_with_frame(f),
        header_at(f, 0).total_length == f.len(),
        0 < k < f.len(),
    ensures
        decode_events(f.subrange(0, k), depth) == Err::<Seq<RawEvent>, DecodeFault>(DecodeFault::BadHeader),
{
    let s = f.subrange(0, k);
    if k >= 16 {
        assert(header_at(s, 0) == header_at(f, 0));
    }
}

/// A plain frame whose operation code is none of 3, 5 and 8 decodes to
/// `UndefinedMsg`, whatever follows it.
pub proof fn lemma_unknown_op(version: u16, op: u32, body: Seq<u8>, rest: Seq<u8>, depth: nat)
    requires
        version != VERSION_ZLIB,
        op != OP_HEARTBEAT_ACK,
        op != OP_NOTIFICATION,
        op != OP_LOGIN_ACK,
        HEADER_LEN + body.len() <= u32::MAX,
    ensures
        decode_events(frame_bytes(version, op, body) + rest, depth) == Err::<Seq<RawEvent>, DecodeFault>(
            DecodeFault::UndefinedMsg { pkg_v: version, pkg_type: op },
        ),
{
    lemma_frame_bytes(version, op, body, rest);
}

/// Plain notification frames, one for each body, one after the other.
pub open spec fn notification_frames(bodies: Seq<Seq<u8>>) -> Seq<u8>
    decreases bodies.len(),
{
    if bodies.len() == 0 {
        seq![]
    } else {
        frame_bytes(VERSION_JSON, OP_NOTIFICATION, bodies[0]) + notification_frames(bodies.drop_first())
    }
}

/// The notification events of the given bodies, in order.
pub open spec fn notifications(bodies: Seq<Seq<u8>>) -> Seq<RawEvent> {
    bodies.map_values(|b: Seq<u8>| RawEvent::Notification(b))
}

/// Whether each body fits in a frame.
pub open spec fn bodies_fit(bodies: Seq<Seq<u8>>) -> bool {
    forall|i: int| 0 <= i < bodies.len() ==> HEADER_LEN + #[trigger] bodies[i].len() <= u32::MAX
}

/// Notification frames one after the other decode to their bodies, in order.
pub proof fn lemma_notification_frames(bodies: Seq<Seq<u8>>, depth: nat)
    requires
        bodies_fit(bodies),
    ensures
        decode_events(notification_frames(bodies), depth) == Ok::<Seq<RawEvent>, DecodeFault>(
            notifications(bodies),
        ),
    decreases bodies.len(),
{
    if bodies.len() > 0 {
        let tail = bodies.drop_first();
        assert(bodies_fit(tail)) by {
            assert forall|i: int| 0 <= i < tail.len() implies HEADER_LEN + #[trigger] tail[i].len()
                <= u32::MAX by {
                assert(tail[i] == bodies[i + 1]);
            }
        }
        assert(HEADER_LEN + bodies[0].len() <= u32::MAX);
        lemma_notification_frames(tail, depth);
        lemma_frame_bytes(VERSION_JSON, OP_NOTIFICATION, bodies[0], notification_frames(tail));
        assert(notifications(bodies) =~= seq![RawEvent::Notification(bodies[0])] + notifications(tail));
    } else {
        assert(notifications(bodies) =~= Seq::<RawEvent>::empty());
    }
}

/// A compressed frame whose content inflates to notification frames decodes to
/// exactly those notifications, in order.
pub proof fn lemma_zlib_nesting(z: Seq<u8>, op: u32, bodies: Seq<Seq<u8>>)
    requires
        zlib_inflated(z) == Ok::<Seq<u8>, Seq<char>>(notification_frames(bodies)),
        HEADER_LEN + z.len() <= u32::MAX,
        bodies_fit(bodies),
    ensures
        decode_events(frame_bytes(VERSION_ZLIB, op, z), ZLIB_NESTING as nat) == Ok::<
            Seq<RawEvent>,
            DecodeFault,
        >(notifications(bodies)),
{
    let f = frame_bytes(VERSION_ZLIB, op, z);
    assert(f + Seq::<u8>::empty() =~= f);
    lemma_frame_bytes(VERSION_ZLIB, op, z, Seq::<u8>::empty());
    lemma_notification_frames(bodies, 0);
    let h = header_at(f, 0);
    assert(f.subrange(HEADER_LEN as int, h.total_length as int) == z);
    assert(f.subrange(h.total_length as int, f.len() as int) =~= Seq::<u8>::empty());
    assert(decode_events(Seq::<u8>::empty(), ZLIB_NESTING as nat) == Ok::<Seq<RawEvent>, DecodeFault>(seq![]));
    assert(notifications(bodies) + Seq::<RawEvent>::empty() =~= notifications(bodies));
}

} // verus!
