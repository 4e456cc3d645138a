use bili_danmu::decode::{decode_from_server, decode_inflated, MsgDecodeError, RawServerMessage};
use bili_danmu::json::JsonValue;
use bili_danmu::notification::NotificationMsg;

fn frame(version: u16, op: u32, body: &[u8]) -> Vec<u8> {
    let mut f = Vec::new();
    f.extend_from_slice(&(16 + body.len() as u32).to_be_bytes());
    f.extend_from_slice(&16u16.to_be_bytes());
    f.extend_from_slice(&version.to_be_bytes());
    f.extend_from_slice(&op.to_be_bytes());
    f.extend_from_slice(&1u32.to_be_bytes());
    f.extend_from_slice(body);
    f
}

/// A zlib stream that stores `data` in one uncompressed block.
fn zlib_stored(data: &[u8]) -> Vec<u8> {
    let mut z = vec![0x78, 0x01, 0x01];
    let len = data.len() as u16;
    z.extend_from_slice(&len.to_le_bytes());
    z.extend_from_slice(&(!len).to_le_bytes());
    z.extend_from_slice(data);
    let (mut a, mut b) = (1u32, 0u32);
    for &x in data {
        a = (a + x as u32) % 65521;
        b = (b + a) % 65521;
    }
    z.extend_from_slice(&((b << 16) | a).to_be_bytes());
    z
}

fn to_json(v: &serde_json::Value) -> JsonValue {
    match v {
        serde_json::Value::Null => JsonValue::Null,
        serde_json::Value::Bool(b) => JsonValue::Bool(*b),
        serde_json::Value::Number(n) => match (n.as_u64(), n.as_i64()) {
            (Some(u), _) => JsonValue::UInt(u),
            (None, Some(i)) => JsonValue::Int(i),
            _ => JsonValue::Float,
        },
        serde_json::Value::String(s) => JsonValue::Str(s.clone()),
        serde_json::Value::Array(a) => JsonValue::Array(a.iter().map(to_json).collect()),
        serde_json::Value::Object(m) => {
            JsonValue::Object(m.iter().map(|(k, v)| (k.clone(), to_json(v))).collect())
        }
    }
}

fn decode(data: Vec<u8>) -> Result<Vec<RawServerMessage>, MsgDecodeError> {
    let mut out = Vec::new();
    decode_from_server(data, &mut out).map(|_| out)
}

#[test]
fn login_ack_frame() {
    assert_eq!(decode(frame(1, 8, b"")).unwrap(), vec![RawServerMessage::LoginAck]);
}

#[test]
fn heartbeat_ack_frame() {
    let f = frame(1, 3, &[0, 0, 0, 9]);
    assert_eq!(decode(f).unwrap(), vec![RawServerMessage::ServerHeartBeat]);
}

#[test]
fn empty_message_has_no_events() {
    assert_eq!(decode(vec![]).unwrap(), vec![]);
}

#[test]
fn zlib_batch_of_two_notifications() {
    let danmu = br#"{"cmd":"DANMU_MSG","info":[0,"hi",[7,"bob"],[1,"fans","up",42]]}"#;
    let gift = br#"{"cmd":"SEND_GIFT","data":{"giftId":31036,"giftName":"rose","num":2,"uid":7,"uname":"bob"}}"#;
    let mut inner = frame(0, 5, danmu);
    inner.extend(frame(0, 5, gift));
    let outer = frame(2, 5, &zlib_stored(&inner));
    let raw = decode(outer).unwrap();
    assert_eq!(
        raw,
        vec![
            RawServerMessage::Notification(danmu.to_vec()),
            RawServerMessage::Notification(gift.to_vec())
        ]
    );
    let events: Vec<NotificationMsg> = raw
        .iter()
        .map(|m| match m {
            RawServerMessage::Notification(b) => {
                let v: serde_json::Value = serde_json::from_slice(b).unwrap();
                NotificationMsg::from_json(&to_json(&v), b).unwrap()
            }
            _ => panic!("not a notification"),
        })
        .collect();
    match &events[0] {
        NotificationMsg::DANMU_MSG { info } => {
            assert_eq!(info.uid, 7);
            assert_eq!(info.uname, "bob");
            assert_eq!(info.text, "hi");
            assert_eq!(info.card_lv, 1);
            assert_eq!(info.card_name, "fans");
            assert_eq!(info.card_owner_name, "up");
            assert_eq!(info.card_owner_uid, 42);
        }
        other => panic!("unexpected {:?}", other),
    }
    match &events[1] {
        NotificationMsg::SEND_GIFT { data } => {
            assert_eq!(data.gift_id, 31036);
            assert_eq!(data.gift_name, "rose");
            assert_eq!(data.num, 2);
            assert_eq!(data.uid, 7);
            assert_eq!(data.uname, "bob");
        }
        other => panic!("unexpected {:?}", other),
    }
}

#[test]
fn frames_decode_in_wire_order() {
    let mut data = frame(1, 8, b"");
    data.extend(frame(0, 5, b"{}"));
    data.extend(frame(1, 3, &[0, 0, 0, 1]));
    assert_eq!(
        decode(data).unwrap(),
        vec![
            RawServerMessage::LoginAck,
            RawServerMessage::Notification(b"{}".to_vec()),
            RawServerMessage::ServerHeartBeat
        ]
    );
}

#[test]
fn decoding_appends_after_earlier_events() {
    let mut out = vec![RawServerMessage::ServerHeartBeat];
    decode_from_server(frame(1, 8, b""), &mut out).unwrap();
    assert_eq!(out, vec![RawServerMessage::ServerHeartBeat, RawServerMessage::LoginAck]);
}

#[test]
fn unknown_op_is_rejected() {
    for op in [0u32, 1, 2, 4, 6, 7, 9, 1000] {
        assert_eq!(
            decode(frame(0, op, b"x")),
            Err(MsgDecodeError::UndefinedMsg { pkg_v: 0, pkg_type: op })
        );
    }
}

#[test]
fn unknown_version_is_rejected() {
    assert_eq!(
        decode(frame(3, 5, b"{}")),
        Err(MsgDecodeError::UndefinedMsg { pkg_v: 3, pkg_type: 5 })
    );
}

#[test]
fn truncated_frame_is_bad_header_and_keeps_the_list() {
    let f = frame(0, 5, br#"{"cmd":"LIVE"}"#);
    for cut in 1..f.len() {
        let mut out = vec![RawServerMessage::LoginAck];
        let r = decode_from_server(f[..f.len() - cut].to_vec(), &mut out);
        assert_eq!(r, Err(MsgDecodeError::BadHeader));
        assert_eq!(out, vec![RawServerMessage::LoginAck]);
    }
}

#[test]
fn truncated_trailing_frame_fails_the_batch() {
    let mut data = frame(1, 8, b"");
    let second = frame(1, 3, &[0, 0, 0, 1]);
    data.extend_from_slice(&second[..10]);
    let mut out = Vec::new();
    assert_eq!(decode_from_server(data, &mut out), Err(MsgDecodeError::BadHeader));
    assert!(out.is_empty());
}

#[test]
fn header_length_other_than_16_is_bad_header() {
    let mut f = frame(1, 8, b"");
    f[5] = 12;
    assert_eq!(decode(f), Err(MsgDecodeError::BadHeader));
}

#[test]
fn total_length_below_16_is_bad_header() {
    let mut f = frame(1, 8, b"");
    f[3] = 15;
    assert_eq!(decode(f), Err(MsgDecodeError::BadHeader));
}

#[test]
fn corrupt_zlib_is_inflate_error() {
    let r = decode(frame(2, 5, &[1, 2, 3, 4]));
    assert!(matches!(r, Err(MsgDecodeError::InflateError(_))));
}

#[test]
fn nested_compressed_frame_is_rejected() {
    let inner = frame(2, 5, &zlib_stored(&frame(1, 8, b"")));
    let outer = frame(2, 5, &zlib_stored(&inner));
    assert_eq!(decode(outer), Err(MsgDecodeError::UndefinedMsg { pkg_v: 2, pkg_type: 5 }));
}

#[test]
fn compressed_frame_then_plain_frame() {
    let mut data = frame(2, 5, &zlib_stored(&frame(1, 8, b"")));
    data.extend(frame(1, 3, &[0, 0, 0, 2]));
    assert_eq!(
        decode(data).unwrap(),
        vec![RawServerMessage::LoginAck, RawServerMessage::ServerHeartBeat]
    );
}

#[test]
fn inflated_content_holds_plain_frames_only() {
    let mut content = frame(0, 5, b"{}");
    content.extend(frame(1, 8, b""));
    let mut out = Vec::new();
    decode_inflated(&content, &mut out).unwrap();
    assert_eq!(out, vec![RawServerMessage::Notification(b"{}".to_vec()), RawServerMessage::LoginAck]);
    let nested = frame(2, 5, &zlib_stored(&frame(1, 8, b"")));
    let mut out = vec![RawServerMessage::ServerHeartBeat];
    assert_eq!(
        decode_inflated(&nested, &mut out),
        Err(MsgDecodeError::UndefinedMsg { pkg_v: 2, pkg_type: 5 })
    );
    assert_eq!(out, vec![RawServerMessage::ServerHeartBeat]);
}
