use bili_danmu::decode::{MsgDecodeError, RawServerMessage};
use bili_danmu::json::JsonValue;
use bili_danmu::notification::{collect_events, DanmuMsg, NotificationMsg, ServerLiveMessage};

fn to_json(v: &serde_json::Value) -> JsonValue {
    match v {
        serde_json::Value::Null => JsonValue::Null,
        serde_json::Value::Bool(b) => JsonValue::Bool(*b),
        serde_json::Value::Number(n) => match (n.as_u64(), n.as_i64()) {
            (Some(u), _) => JsonValue::UInt(u),
            (None, Some(i)) => JsonValue::Int(i),
            _ => JsonValue::Float,
        },
        serde_json::Value::String(s) => JsonValue::Str(s.clone()),
        serde_json::Value::Array(a) => JsonValue::Array(a.iter().map(to_json).collect()),
        serde_json::Value::Object(m) => {
            JsonValue::Object(m.iter().map(|(k, v)| (k.clone(), to_json(v))).collect())
        }
    }
}

fn parse(text: &str) -> JsonValue {
    to_json(&serde_json::from_str(text).unwrap())
}

fn read(text: &str) -> Result<NotificationMsg, MsgDecodeError> {
    NotificationMsg::from_json(&parse(text), text.as_bytes())
}

#[test]
fn danmu_missing_entries_default() {
    let m = read(r#"{"cmd":"DANMU_MSG","info":[0,"yo",[],[]]}"#).unwrap();
    assert_eq!(
        m,
        NotificationMsg::DANMU_MSG {
            info: DanmuMsg {
                uid: 0,
                uname: String::new(),
                card_lv: 0,
                card_name: String::new(),
                card_owner_uid: 0,
                card_owner_name: String::new(),
                text: "yo".to_string(),
            }
        }
    );
}

#[test]
fn danmu_owner_uid_is_last_medal_entry() {
    let m = read(r#"{"cmd":"DANMU_MSG","info":[0,"t",[5,"a"],[3,"m","o",1,2,99]]}"#).unwrap();
    match m {
        NotificationMsg::DANMU_MSG { info } => {
            assert_eq!(info.card_owner_uid, 99);
            assert_eq!(info.card_owner_name, "o");
            assert_eq!(info.card_lv, 3);
        }
        other => panic!("unexpected {:?}", other),
    }
}

#[test]
fn danmu_large_uid_keeps_low_bits() {
    let m = read(r#"{"cmd":"DANMU_MSG","info":[0,"t",[4294967297,"a"],[]]}"#).unwrap();
    match m {
        NotificationMsg::DANMU_MSG { info } => assert_eq!(info.uid, 1),
        other => panic!("unexpected {:?}", other),
    }
}

#[test]
fn danmu_info_not_array_is_error() {
    let r = read(r#"{"cmd":"DANMU_MSG","info":{"a":1}}"#);
    assert!(matches!(r, Err(MsgDecodeError::DecodeBodyError(_))));
    let r = read(r#"{"cmd":"DANMU_MSG","info":"hi"}"#);
    assert!(matches!(r, Err(MsgDecodeError::DecodeBodyError(_))));
    let r = read(r#"{"cmd":"DANMU_MSG"}"#);
    assert!(matches!(r, Err(MsgDecodeError::DecodeBodyError(_))));
}

#[test]
fn danmu_short_or_odd_array_reads_leniently() {
    let empty = DanmuMsg {
        uid: 0,
        uname: String::new(),
        card_lv: 0,
        card_name: String::new(),
        card_owner_uid: 0,
        card_owner_name: String::new(),
        text: String::new(),
    };
    assert_eq!(
        read(r#"{"cmd":"DANMU_MSG","info":[]}"#).unwrap(),
        NotificationMsg::DANMU_MSG { info: empty.clone() }
    );
    assert_eq!(
        read(r#"{"cmd":"DANMU_MSG","info":[0,"hi"]}"#).unwrap(),
        NotificationMsg::DANMU_MSG { info: DanmuMsg { text: "hi".to_string(), ..empty.clone() } }
    );
    assert_eq!(
        read(r#"{"cmd":"DANMU_MSG","info":[0,5,[9,"u"],"medal"]}"#).unwrap(),
        NotificationMsg::DANMU_MSG {
            info: DanmuMsg { uid: 9, uname: "u".to_string(), ..empty.clone() }
        }
    );
    assert_eq!(
        read(r#"{"cmd":"DANMU_MSG","info":[0,"t",{"uid":3},[2]]}"#).unwrap(),
        NotificationMsg::DANMU_MSG {
            info: DanmuMsg { text: "t".to_string(), card_lv: 2, card_owner_uid: 2, ..empty }
        }
    );
}

#[test]
fn entry_and_interact_read_user() {
    let m = read(r#"{"cmd":"INTERACT_WORD","data":{"uid":12,"uname":"amy","msg_type":1}}"#).unwrap();
    match m {
        NotificationMsg::INTERACT_WORD { data } => {
            assert_eq!(data.uid, 12);
            assert_eq!(data.uname, "amy");
        }
        other => panic!("unexpected {:?}", other),
    }
    let m = read(r#"{"cmd":"ENTRY_EFFECT","data":{"uid":3}}"#).unwrap();
    match m {
        NotificationMsg::ENTRY_EFFECT { data } => {
            assert_eq!(data.uid, 3);
            assert_eq!(data.uname, "");
        }
        other => panic!("unexpected {:?}", other),
    }
}

#[test]
fn user_without_uid_is_error() {
    let r = read(r#"{"cmd":"ENTRY_EFFECT","data":{"uname":"x"}}"#);
    assert_eq!(r, Err(MsgDecodeError::DecodeBodyError("uid".to_string())));
    let r = read(r#"{"cmd":"ENTRY_EFFECT","data":{"uid":4294967296}}"#);
    assert_eq!(r, Err(MsgDecodeError::DecodeBodyError("uid".to_string())));
}

#[test]
fn combo_and_guard_read_their_data() {
    let m = read(r#"{"cmd":"COMBO_SEND","data":{"gift_id":1,"gift_name":"g","total_num":9,"uid":2,"uname":"u"}}"#)
        .unwrap();
    match m {
        NotificationMsg::COMBO_SEND { data } => {
            assert_eq!(data.total_num, 9);
            assert_eq!(data.gift_name, "g");
        }
        other => panic!("unexpected {:?}", other),
    }
    let m = read(r#"{"cmd":"GUARD_BUY","data":{"gift_id":10003,"gift_name":"captain","guard_level":3,"num":1,"uid":8,"username":"v"}}"#)
        .unwrap();
    match m {
        NotificationMsg::GUARD_BUY { data } => {
            assert_eq!(data.guard_level, 3);
            assert_eq!(data.username, "v");
            assert_eq!(data.gift_id, 10003);
        }
        other => panic!("unexpected {:?}", other),
    }
}

#[test]
fn gift_missing_field_is_error() {
    let r = read(r#"{"cmd":"SEND_GIFT","data":{"giftId":1,"num":2,"uid":3,"uname":"u"}}"#);
    assert_eq!(r, Err(MsgDecodeError::DecodeBodyError("giftName".to_string())));
}

#[test]
fn plain_commands_and_unknown_command() {
    assert_eq!(read(r#"{"cmd":"LIVE","roomid":1}"#).unwrap(), NotificationMsg::LIVE);
    assert_eq!(read(r#"{"cmd":"NOTICE_MSG"}"#).unwrap(), NotificationMsg::NOTICE_MSG);
    assert_eq!(read(r#"{"cmd":"ONLINE_RANK_V2","data":[]}"#).unwrap(), NotificationMsg::ONLINE_RANK_V2);
    assert_eq!(
        read(r#"{"cmd":"PK_BATTLE_START","data":{}}"#).unwrap(),
        NotificationMsg::Other {
            cmd: "PK_BATTLE_START".to_string(),
            raw: br#"{"cmd":"PK_BATTLE_START","data":{}}"#.to_vec()
        }
    );
}

#[test]
fn missing_cmd_is_error() {
    assert_eq!(read(r#"{"data":{}}"#), Err(MsgDecodeError::DecodeBodyError("cmd".to_string())));
    assert_eq!(read(r#"[1,2]"#), Err(MsgDecodeError::DecodeBodyError("cmd".to_string())));
}

#[test]
fn server_message_from_frames() {
    assert_eq!(
        ServerLiveMessage::from_frame(&RawServerMessage::LoginAck, None),
        Ok(ServerLiveMessage::LoginAck)
    );
    assert_eq!(
        ServerLiveMessage::from_frame(&RawServerMessage::ServerHeartBeat, None),
        Ok(ServerLiveMessage::ServerHeartBeat)
    );
    let body = br#"{"cmd":"LIVE"}"#.to_vec();
    let v = parse(r#"{"cmd":"LIVE"}"#);
    assert_eq!(
        ServerLiveMessage::from_frame(&RawServerMessage::Notification(body.clone()), Some(&v)),
        Ok(ServerLiveMessage::Notification(NotificationMsg::LIVE))
    );
    let r = ServerLiveMessage::from_frame(&RawServerMessage::Notification(body), None);
    assert!(matches!(r, Err(MsgDecodeError::DecodeBodyError(_))));
}

#[test]
fn unreadable_frame_is_skipped_and_the_rest_kept() {
    let frames = vec![
        RawServerMessage::LoginAck,
        RawServerMessage::Notification(b"{".to_vec()),
        RawServerMessage::Notification(br#"{"cmd":"SEND_GIFT","data":{}}"#.to_vec()),
        RawServerMessage::Notification(br#"{"cmd":"LIVE"}"#.to_vec()),
        RawServerMessage::ServerHeartBeat,
    ];
    let bodies = vec![
        None,
        None,
        Some(parse(r#"{"cmd":"SEND_GIFT","data":{}}"#)),
        Some(parse(r#"{"cmd":"LIVE"}"#)),
        None,
    ];
    assert_eq!(
        collect_events(&frames, &bodies),
        vec![
            ServerLiveMessage::LoginAck,
            ServerLiveMessage::Notification(NotificationMsg::LIVE),
            ServerLiveMessage::ServerHeartBeat
        ]
    );
}
