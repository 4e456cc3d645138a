//! The fixed 16-byte big-endian frame header and the frames that the client sends.
use vstd::prelude::*;
use crate::cookie::UserToken;
use crate::text::{decimal_u32, parse_u32};

verus! {

/// Length of every frame header, in bytes.
pub const HEADER_LEN: u16 = 16;

/// Sequence id written into every client frame.
pub const SEQUENCE_ID: u32 = 1;

/// Protocol version of a frame whose body is JSON.
pub const VERSION_JSON: u16 = 0;

/// Protocol version of a frame whose body is plain bytes.
pub const VERSION_PLAIN: u16 = 1;

/// Protocol version of a frame whose body is a zlib stream of further frames.
pub const VERSION_ZLIB: u16 = 2;

/// Operation code of a client heartbeat.
pub const OP_HEARTBEAT: u32 = 2;

/// Operation code of a server heartbeat acknowledgement.
pub const OP_HEARTBEAT_ACK: u32 = 3;

/// Operation code of a server notification carrying a JSON event.
pub const OP_NOTIFICATION: u32 = 5;

/// Operation code of a client login.
pub const OP_LOGIN: u32 = 7;

/// Operation code of a server login acknowledgement.
pub const OP_LOGIN_ACK: u32 = 8;

/// Largest number of characters of a login key that still fits in one frame.
pub const MAX_KEY_CHARS: usize = 0x10000000;

/// Body of a client heartbeat frame.
pub const HEARTBEAT_BODY: &'static str = "[object Object]";

/// Start of the login body, up to the value of `uid`.
pub const LOGIN_UID_FIELD: &'static str = "{\"uid\":";

/// JSON value of an unknown user id.
pub const LOGIN_NULL: &'static str = "null";

/// Login body between the `uid` value and the room id.
pub const LOGIN_ROOM_FIELD: &'static str = ",\"roomid\":";

/// Login body between the room id and the value of `key`.
pub const LOGIN_FIXED_FIELDS: &'static str = ",\"protover\":2,\"platform\":\"web\",\"type\":2,\"key\":";

/// End of the login body.
pub const LOGIN_END: &'static str = "}";

/// The bytes of a text made of ASCII characters, one byte for each.
pub open spec fn ascii(s: Seq<char>) -> Seq<u8> {
    s.map_values(|c: char| c as u8)
}

/// Big-endian bytes of a 16-bit value.
pub open spec fn be16(x: u16) -> Seq<u8> {
    seq![(x / 256) as u8, (x % 256) as u8]
}

/// Big-endian bytes of a 32-bit value.
pub open spec fn be32(x: u32) -> Seq<u8> {
    seq![(x / 0x1000000) as u8, ((x / 0x10000) % 256) as u8, ((x / 256) % 256) as u8, (x % 256) as u8]
}

/// The 16-bit big-endian value at position `i` of `s`.
pub open spec fn read_be16(s: Seq<u8>, i: int) -> u16 {
    (s[i] as int * 256 + s[i + 1] as int) as u16
}

/// The 32-bit big-endian value at position `i` of `s`.
pub open spec fn read_be32(s: Seq<u8>, i: int) -> u32 {
    (s[i] as int * 0x1000000 + s[i + 1] as int * 0x10000 + s[i + 2] as int * 256 + s[i + 3] as int) as u32
}

/// Decimal digits of a natural number, most significant first, in ASCII.
pub open spec fn decimal(n: nat) -> Seq<u8>
    decreases n,
{
    if n < 10 {
        seq![(48 + n) as u8]
    } else {
        decimal(n / 10).push((48 + n % 10) as u8)
    }
}

/// A frame header as it stands on the wire.
#[derive(Clone, Copy, Debug, PartialEq, Eq)]
pub struct FrameHeader {
    pub total_length: u32,
    pub header_length: u16,
    pub version: u16,
    pub op: u32,
    pub sequence: u32,
}

impl FrameHeader {
    /// The sixteen bytes of the header.
    pub open spec fn spec_bytes(self) -> Seq<u8> {
        be32(self.total_length) + be16(self.header_length) + be16(self.version) + be32(self.op)
            + be32(self.sequence)
    }

    /// Length of the body that follows the header.
    pub open spec fn body_length(self) -> int {
        self.total_length - self.header_length
    }

    /// The header of a client frame with a body of `body_len` bytes.
    pub open spec fn client(version: u16, op: u32, body_len: nat) -> FrameHeader {
        FrameHeader {
            total_length: (HEADER_LEN + body_len) as u32,
            header_length: HEADER_LEN,
            version,
            op,
            sequence: SEQUENCE_ID,
        }
    }

    /// Writes the header big-endian.
    pub fn to_bytes(&self) -> (r: Vec<u8>)
        ensures
            r@ == self.spec_bytes(),
    {
        let mut out: Vec<u8> = Vec::with_capacity(16);
        push_be32(&mut out, self.total_length);
        push_be16(&mut out, self.header_length);
        push_be16(&mut out, self.version);
        push_be32(&mut out, self.op);
        push_be32(&mut out, self.sequence);
        out
    }
}

/// A frame with a sixteen-byte header, sequence id one, and the given body.
pub open spec fn frame_bytes(version: u16, op: u32, body: Seq<u8>) -> Seq<u8> {
    FrameHeader::client(version, op, body.len()).spec_bytes() + body
}

/// Whatever follows it, a frame reads back as its header and its body.
pub proof fn lemma_frame_bytes(version: u16, op: u32, body: Seq<u8>, rest: Seq<u8>)
    requires
        HEADER_LEN + body.len() <= u32::MAX,
    ensures
        ({
            let s = frame_bytes(version, op, body) + rest;
            let h = header_at(s, 0);
            &&& s.len() == HEADER_LEN + body.len() + rest.len()
            &&& h == FrameHeader::client(version, op, body.len())
            &&& h.total_length == HEADER_LEN + body.len()
            &&& h.header_length == HEADER_LEN
            &&& h.version == version
            &&& h.op == op
            &&& s.subrange(HEADER_LEN as int, h.total_length as int) == body
            &&& s.subrange(h.total_length as int, s.len() as int) == rest
        }),
{
    let h = FrameHeader::client(version, op, body.len());
    let s = frame_bytes(version, op, body) + rest;
    assert(s.subrange(0, 16) =~= h.spec_bytes());
    lemma_header_round_trip(h, s, 0);
    assert(s.subrange(16, 16 + body.len() as int) =~= body);
    assert(s.subrange(16 + body.len() as int, s.len() as int) =~= rest);
}

/// The header read from the sixteen bytes at position `i` of `s`.
pub open spec fn header_at(s: Seq<u8>, i: int) -> FrameHeader {
    FrameHeader {
        total_length: read_be32(s, i),
        header_length: read_be16(s, i + 4),
        version: read_be16(s, i + 6),
        op: read_be32(s, i + 8),
        sequence: read_be32(s, i + 12),
    }
}

/// Appends bytes.
pub fn push_bytes(out: &mut Vec<u8>, b: &[u8])
    ensures
        final(out)@ == old(out)@ + b@,
{
    let ghost before = out@;
    let mut i: usize = 0;
    while i < b.len()
        invariant
            i <= b@.len(),
            out@ == before + b@.subrange(0, i as int),
        decreases b@.len() - i,
    {
        out.push(b[i]);
        assert(b@.subrange(0, i + 1) =~= b@.subrange(0, i as int).push(b@[i as int]));
        i = i + 1;
    }
    assert(b@.subrange(0, b@.len() as int) =~= b@);
}

/// Appends the big-endian bytes of a 16-bit value.
pub fn push_be16(out: &mut Vec<u8>, x: u16)
    ensures
        final(out)@ == old(out)@ + be16(x),
{
    out.push((x / 256) as u8);
    out.push((x % 256) as u8);
    assert(final(out)@ =~= old(out)@ + be16(x));
}

/// Appends the big-endian bytes of a 32-bit value.
pub fn push_be32(out: &mut Vec<u8>, x: u32)
    ensures
        final(out)@ == old(out)@ + be32(x),
{
    out.push((x / 0x1000000) as u8);
    out.push(((x / 0x10000) % 256) as u8);
    out.push(((x / 256) % 256) as u8);
    out.push((x % 256) as u8);
    assert(final(out)@ =~= old(out)@ + be32(x));
}

/// Reads the 16-bit big-endian value at position `i`.
pub fn get_be16(data: &[u8], i: usize) -> (r: u16)
    requires
        i + 2 <= data@.len(),
    ensures
        r == read_be16(data@, i as int),
{
    (data[i] as u16) * 256 + (data[i + 1] as u16)
}

/// Reads the 32-bit big-endian value at position `i`.
pub fn get_be32(data: &[u8], i: usize) -> (r: u32)
    requires
        i + 4 <= data@.len(),
    ensures
        r == read_be32(data@, i as int),
{
    (data[i] as u32) * 0x1000000 + (data[i + 1] as u32) * 0x10000 + (data[i + 2] as u32) * 256
        + (data[i + 3] as u32)
}

/// Reading back the bytes of a 16-bit value gives the value.
pub proof fn lemma_be16_round_trip(x: u16, s: Seq<u8>, i: int)
    requires
        0 <= i,
        i + 2 <= s.len(),
        s.subrange(i, i + 2) == be16(x),
    ensures
        read_be16(s, i) == x,
{
    assert(s[i] == be16(x)[0]);
    assert(s[i + 1] == be16(x)[1]);
}

/// Reading back the bytes of a 32-bit value gives the value.
pub proof fn lemma_be32_round_trip(x: u32, s: Seq<u8>, i: int)
    requires
        0 <= i,
        i + 4 <= s.len(),
        s.subrange(i, i + 4) == be32(x),
    ensures
        read_be32(s, i) == x,
{
    assert(s[i] == be32(x)[0]);
    assert(s[i + 1] == be32(x)[1]);
    assert(s[i + 2] == be32(x)[2]);
    assert(s[i + 3] == be32(x)[3]);
}

/// Reading a header back from its bytes, wherever they stand, gives the header.
pub proof fn lemma_header_round_trip(h: FrameHeader, s: Seq<u8>, i: int)
    requires
        0 <= i,
        i + 16 <= s.len(),
        s.subrange(i, i + 16) == h.spec_bytes(),
    ensures
        header_at(s, i) == h,
{
    let b = h.spec_bytes();
    assert(s.subrange(i, i + 4) =~= b.subrange(0, 4));
    assert(s.subrange(i + 4, i + 6) =~= b.subrange(4, 6));
    assert(s.subrange(i + 6, i + 8) =~= b.subrange(6, 8));
    assert(s.subrange(i + 8, i + 12) =~= b.subrange(8, 12));
    assert(s.subrange(i + 12, i + 16) =~= b.subrange(12, 16));
    assert(b.subrange(0, 4) =~= be32(h.total_length));
    assert(b.subrange(4, 6) =~= be16(h.header_length));
    assert(b.subrange(6, 8) =~= be16(h.version));
    assert(b.subrange(8, 12) =~= be32(h.op));
    assert(b.subrange(12, 16) =~= be32(h.sequence));
    lemma_be32_round_trip(h.total_length, s, i);
    lemma_be16_round_trip(h.header_length, s, i + 4);
    lemma_be16_round_trip(h.version, s, i + 6);
    lemma_be32_round_trip(h.op, s, i + 8);
    lemma_be32_round_trip(h.sequence, s, i + 12);
}

/// Relies on serde_json::to_vec, which writes a string as a quoted and escaped JSON
/// string: the result depends on the characters alone, and each character takes at
/// most six bytes (a `\u00XX` escape), besides the two quotes. Writing into a `Vec`
/// does not fail, so the error arm is never taken. Its escape table leaves every
/// ASCII character from the space up alone but `"` and `\`.
#[verifier::external_body]
fn json_string(s: &str) -> (r: Vec<u8>)
    ensures
        r@ == json_quoted(s@),
        r@.len() <= 6 * s@.len() + 2,
        plain_json_text(s@) ==> r@ == plain_quoted(s@),
{
    match serde_json::to_vec(s) {
        Ok(v) => v,
        Err(_) => Vec::new(),
    }
}

/// Whether a text is written into a JSON string as it stands: each character is
/// ASCII from the space up, and none is `"` or `\`.
pub open spec fn plain_json_text(s: Seq<char>) -> bool {
    forall|i: int|
        0 <= i < s.len() ==> ' ' <= #[trigger] s[i] <= '\u{7f}' && s[i] != '"' && s[i] != '\\'
}

/// A plain text between double quotes.
pub open spec fn plain_quoted(s: Seq<char>) -> Seq<u8> {
    seq![34u8] + ascii(s) + seq![34u8]
}

/// The JSON string that serde_json writes for a text.
pub uninterp spec fn json_quoted(s: Seq<char>) -> Seq<u8>;

/// Appends the ASCII bytes of a text, one byte for each character.
pub fn push_text(out: &mut Vec<u8>, s: &str)
    ensures
        final(out)@ == old(out)@ + ascii(s@),
{
    let n = s.unicode_len();
    let mut i: usize = 0;
    while i < n
        invariant
            n == s@.len(),
            i <= n,
            out@ == old(out)@ + ascii(s@.subrange(0, i as int)),
        decreases n - i,
    {
        let c = s.get_char(i);
        out.push(c as u8);
        assert(s@.subrange(0, i + 1) =~= s@.subrange(0, i as int).push(c));
        assert(ascii(s@.subrange(0, i + 1)) =~= ascii(s@.subrange(0, i as int)).push(c as u8));
        i = i + 1;
    }
    assert(s@.subrange(0, n as int) =~= s@);
}

/// Appends the decimal digits of `n`.
pub fn push_decimal(out: &mut Vec<u8>, n: u32)
    ensures
        final(out)@ == old(out)@ + decimal(n as nat),
    decreases n,
{
    if n >= 10 {
        push_decimal(out, n / 10);
    }
    out.push((48 + n % 10) as u8);
    assert(final(out)@ =~= old(out)@ + decimal(n as nat));
}

/// The decimal digits of a number below `10^k` are at most `k`.
proof fn lemma_decimal_len(n: nat, k: nat, p: nat)
    requires
        k >= 1,
        p == pow10(k),
        n < p,
    ensures
        decimal(n).len() <= k,
    decreases n,
{
    if n >= 10 {
        if k == 1 {
            assert(pow10(1) == 10 * pow10(0));
        } else {
            let q = pow10((k - 1) as nat);
            assert(p == 10 * q);
            assert(n / 10 < q) by (nonlinear_arith)
                requires
                    n < 10 * q,
            ;
            lemma_decimal_len(n / 10, (k - 1) as nat, q);
        }
    }
}

/// Ten to the power `k`.
pub open spec fn pow10(k: nat) -> nat
    decreases k,
{
    if k == 0 {
        1
    } else {
        10 * pow10((k - 1) as nat)
    }
}

/// A `u32` has at most ten decimal digits.
proof fn lemma_decimal_u32(n: u32)
    ensures
        decimal(n as nat).len() <= 10,
{
    reveal_with_fuel(pow10, 11);
    assert(pow10(10) == 10000000000);
    lemma_decimal_len(n as nat, 10, pow10(10));
}

/// What the client sends to join a room.
#[derive(Clone, Debug, PartialEq, Eq)]
pub struct WsLogin {
    pub room_id: u32,
    pub uid: u32,
    pub key: String,
}

impl WsLogin {
    /// The login of the user of `token` to room `room_id` with chat key `key`;
    /// a user id that is no `u32` logs in as an unknown user.
    pub fn for_user(room_id: u32, token: &UserToken, key: String) -> (r: WsLogin)
        ensures
            r.room_id == room_id,
            r.key == key,
            r.uid == match decimal_u32(token.uid@) {
                Some(v) => v,
                None => 0,
            },
    {
        let uid = match parse_u32(token.uid.as_str()) {
            Some(v) => v,
            None => 0,
        };
        WsLogin { room_id, uid, key }
    }

    /// The JSON value of `uid`: `null` for an unknown user.
    pub open spec fn uid_json(self) -> Seq<u8> {
        if self.uid == 0 {
            ascii(LOGIN_NULL@)
        } else {
            decimal(self.uid as nat)
        }
    }

    /// The JSON body of the login frame.
    pub open spec fn spec_body(self) -> Seq<u8> {
        self.body_with(json_quoted(self.key@))
    }

    /// The JSON body of the login frame, with `quoted_key` as the JSON string of the key.
    pub open spec fn body_with(self, quoted_key: Seq<u8>) -> Seq<u8> {
        ascii(LOGIN_UID_FIELD@) + self.uid_json() + ascii(LOGIN_ROOM_FIELD@) + decimal(
            self.room_id as nat,
        ) + ascii(LOGIN_FIXED_FIELDS@) + quoted_key + ascii(LOGIN_END@)
    }

    /// Writes the JSON body of the login frame around the JSON string of the key.
    pub fn body_with_key(&self, quoted_key: &[u8]) -> (r: Vec<u8>)
        ensures
            r@ == self.body_with(quoted_key@),
    {
        let mut out: Vec<u8> = Vec::new();
        push_text(&mut out, LOGIN_UID_FIELD);
        if self.uid == 0 {
            push_text(&mut out, LOGIN_NULL);
        } else {
            push_decimal(&mut out, self.uid);
        }
        push_text(&mut out, LOGIN_ROOM_FIELD);
        push_decimal(&mut out, self.room_id);
        push_text(&mut out, LOGIN_FIXED_FIELDS);
        push_bytes(&mut out, quoted_key);
        push_text(&mut out, LOGIN_END);
        out
    }

    /// Writes the JSON body of the login frame.
    pub fn body(&self) -> (r: Vec<u8>)
        ensures
            r@ == self.spec_body(),
            r@.len() <= 6 * self.key@.len() + 100,
            plain_json_text(self.key@) ==> r@ == self.body_with(plain_quoted(self.key@)),
    {
        let key = json_string(self.key.as_str());
        let out = self.body_with_key(key.as_slice());
        proof {
            lemma_login_body_len(*self);
        }
        out
    }
}

/// A frame that the client sends.
#[derive(Clone, Debug, PartialEq, Eq)]
pub enum ClientLiveMessage {
    Login(WsLogin),
    ClientHeartBeat,
}

impl ClientLiveMessage {
    /// The protocol version of the frame.
    pub open spec fn version(self) -> u16 {
        VERSION_PLAIN
    }

    /// The operation code of the frame.
    pub open spec fn op(self) -> u32 {
        match self {
            ClientLiveMessage::Login(_) => OP_LOGIN,
            ClientLiveMessage::ClientHeartBeat => OP_HEARTBEAT,
        }
    }

    /// The body of the frame.
    pub open spec fn spec_body(self) -> Seq<u8> {
        match self {
            ClientLiveMessage::Login(l) => l.spec_body(),
            ClientLiveMessage::ClientHeartBeat => ascii(HEARTBEAT_BODY@),
        }
    }

    /// Whether the frame fits the 32-bit length field.
    pub open spec fn encodable(self) -> bool {
        match self {
            ClientLiveMessage::Login(l) => l.key@.len() <= MAX_KEY_CHARS,
            ClientLiveMessage::ClientHeartBeat => true,
        }
    }

    /// The header of the frame.
    pub open spec fn spec_header(self) -> FrameHeader {
        FrameHeader::client(self.version(), self.op(), self.spec_body().len())
    }

    /// The whole frame: header, then body.
    pub open spec fn spec_encode(self) -> Seq<u8> {
        frame_bytes(self.version(), self.op(), self.spec_body())
    }

    /// Encodes the message as one frame.
    pub fn encode(self) -> (r: Vec<u8>)
        requires
            self.encodable(),
        ensures
            r@ == self.spec_encode(),
            HEADER_LEN + self.spec_body().len() <= u32::MAX,
            self is Login && plain_json_text(self->Login_0.key@) ==> r@ == frame_bytes(
                VERSION_PLAIN,
                OP_LOGIN,
                self->Login_0.body_with(plain_quoted(self->Login_0.key@)),
            ),
    {
        let (op, body) = match &self {
            ClientLiveMessage::Login(l) => (OP_LOGIN, l.body()),
            ClientLiveMessage::ClientHeartBeat => {
                let mut b: Vec<u8> = Vec::new();
                push_text(&mut b, HEARTBEAT_BODY);
                proof {
                    reveal_strlit("[object Object]");
                }
                (OP_HEARTBEAT, b)
            },
        };
        let header = FrameHeader {
            total_length: (HEADER_LEN as usize + body.len()) as u32,
            header_length: HEADER_LEN,
            version: VERSION_PLAIN,
            op,
            sequence: SEQUENCE_ID,
        };
        let mut out = header.to_bytes();
        push_bytes(&mut out, body.as_slice());
        out
    }
}

/// An encoded message reads back with its version, its operation code and the
/// length of its body; the header is sixteen bytes, the sequence id one, and the
/// total length sixteen more than the body.
pub proof fn lemma_encode_round_trip(m: ClientLiveMessage)
    requires
        HEADER_LEN + m.spec_body().len() <= u32::MAX,
    ensures
        ({
            let s = m.spec_encode();
            let h = header_at(s, 0);
            &&& h.version == m.version()
            &&& h.op == m.op()
            &&& h.header_length == HEADER_LEN
            &&& h.sequence == SEQUENCE_ID
            &&& h.total_length == s.len()
            &&& h.body_length() == m.spec_body().len()
            &&& s.subrange(HEADER_LEN as int, s.len() as int) == m.spec_body()
        }),
{
    let s = m.spec_encode();
    assert(s + Seq::<u8>::empty() =~= s);
    lemma_frame_bytes(m.version(), m.op(), m.spec_body(), Seq::<u8>::empty());
}

/// A login body is at most six bytes for each character of the key, and a hundred more.
proof fn lemma_login_body_len(l: WsLogin)
    requires
        json_quoted(l.key@).len() <= 6 * l.key@.len() + 2,
    ensures
        l.spec_body().len() <= 6 * l.key@.len() + 100,
{
    reveal_strlit("{\"uid\":");
    reveal_strlit("null");
    reveal_strlit(",\"roomid\":");
    reveal_strlit(",\"protover\":2,\"platform\":\"web\",\"type\":2,\"key\":");
    reveal_strlit("}");
    lemma_decimal_u32(l.uid);
    lemma_decimal_u32(l.room_id);
}

} // verus!
