use bili_danmu::api::{ban_form, barrage_form, APIResult, QrResult};
use bili_danmu::cookie::{check_cookie, classify_poll, AuthError, PollOutcome, UserToken};
use bili_danmu::text::{join_lines, parse_u32, split_text};

#[test]
fn cookie_extraction() {
    let t = check_cookie("DedeUserID=42; SESSDATA=abc; bili_jct=xyz; foo=bar").unwrap();
    assert_eq!(
        t,
        UserToken { uid: "42".to_string(), token: "abc".to_string(), csrf: "xyz".to_string() }
    );
}

#[test]
fn cookie_missing_one_is_auth_error() {
    assert_eq!(check_cookie("DedeUserID=42; SESSDATA=abc; foo=bar"), Err(AuthError::MissingCookies));
    assert_eq!(check_cookie("SESSDATA=abc; bili_jct=xyz"), Err(AuthError::MissingCookies));
    assert_eq!(check_cookie("DedeUserID=42; bili_jct=xyz"), Err(AuthError::MissingCookies));
    assert_eq!(check_cookie("DedeUserID=; SESSDATA=abc; bili_jct=xyz"), Err(AuthError::MissingCookies));
    assert_eq!(check_cookie(""), Err(AuthError::MissingCookies));
}

#[test]
fn cookie_last_entry_wins_and_spaces_trimmed() {
    let t = check_cookie("  bili_jct=first ;DedeUserID=1;SESSDATA=s  ; bili_jct=second").unwrap();
    assert_eq!(t.csrf, "second");
    assert_eq!(t.uid, "1");
    assert_eq!(t.token, "s");
}

#[test]
fn split_and_join_lines() {
    let lines = vec!["a=1; Path=/".to_string(), "".to_string(), "b=2".to_string()];
    let joined = join_lines(&lines);
    assert_eq!(joined, "a=1; Path=/\n\nb=2");
    assert_eq!(split_text(&joined, '\n'), lines);
    assert_eq!(split_text("", ';'), vec!["".to_string()]);
    assert_eq!(split_text("x;", ';'), vec!["x".to_string(), "".to_string()]);
    assert_eq!(join_lines(&vec![]), "");
}

#[test]
fn poll_outcomes() {
    assert_eq!(classify_poll(-1, None), Err(AuthError::PollFailed { code: -1 }));
    assert_eq!(classify_poll(0, Some(0)), Ok(PollOutcome::Confirmed));
    assert_eq!(classify_poll(0, Some(86101)), Ok(PollOutcome::Pending));
    assert_eq!(classify_poll(0, None), Ok(PollOutcome::Pending));
    let answer = APIResult {
        code: 0,
        message: None,
        ttl: 1,
        ts: 0,
        data: Some(QrResult {
            url: String::new(),
            refresh_token: String::new(),
            timestamp: 0,
            code: 86038,
            message: "expired".to_string(),
        }),
    };
    assert_eq!(answer.poll_outcome(), Ok(PollOutcome::Pending));
    assert!(answer.is_success());
}

#[test]
fn parse_u32_values() {
    assert_eq!(parse_u32("0"), Some(0));
    assert_eq!(parse_u32("4294967295"), Some(4294967295));
    assert_eq!(parse_u32("4294967296"), None);
    assert_eq!(parse_u32(""), None);
    assert_eq!(parse_u32("-1"), None);
    assert_eq!(parse_u32("+1"), None);
}

fn pairs(v: &[(String, String)]) -> Vec<(&str, &str)> {
    v.iter().map(|(a, b)| (a.as_str(), b.as_str())).collect()
}

#[test]
fn barrage_and_ban_forms() {
    let f = barrage_form("421296", "弹幕测试", "1700000000", "tok");
    assert_eq!(
        pairs(&f),
        vec![
            ("color", "16777215"),
            ("fontsize", "25"),
            ("mode", "1"),
            ("msg", "弹幕测试"),
            ("rnd", "1700000000"),
            ("roomid", "421296"),
            ("bubble", "0"),
            ("csrf_token", "tok"),
            ("csrf", "tok")
        ]
    );
    let f = ban_form("421296", "386121455", "1", "tok");
    assert_eq!(
        pairs(&f),
        vec![
            ("roomid", "421296"),
            ("block_uid", "386121455"),
            ("hour", "1"),
            ("csrf_token", "tok"),
            ("csrf", "tok"),
            ("visit_id", "")
        ]
    );
}
