//! The session token that the three login cookies make, and the outcome of a
//! QR-login poll.
use vstd::prelude::*;
use crate::text::{split, split_text, texts_of};

verus! {

/// Name and `=` of the cookie that holds the user id.
pub const COOKIE_USER_ID: &'static str = "DedeUserID=";

/// Name and `=` of the cookie that holds the session data.
pub const COOKIE_SESSDATA: &'static str = "SESSDATA=";

/// Name and `=` of the cookie that holds the CSRF token.
pub const COOKIE_BILI_JCT: &'static str = "bili_jct=";

/// The three cookie values that identify a user; all three are non-empty.
#[derive(Clone, Debug, PartialEq, Eq)]
pub struct UserToken {
    pub uid: String,
    pub token: String,
    pub csrf: String,
}

/// Why a user could not be authenticated.
#[derive(Clone, Copy, Debug, PartialEq, Eq, Structural)]
pub enum AuthError {
    /// One of the three cookies is missing or empty.
    MissingCookies,
    /// The QR poll answered with an outer code other than zero.
    PollFailed { code: i32 },
}

/// `p` without the spaces at its start.
pub open spec fn trim_start(p: Seq<char>) -> Seq<char>
    decreases p.len(),
{
    if p.len() > 0 && p[0] == ' ' {
        trim_start(p.drop_first())
    } else {
        p
    }
}

/// `p` without the spaces at its end.
pub open spec fn trim_end(p: Seq<char>) -> Seq<char>
    decreases p.len(),
{
    if p.len() > 0 && p.last() == ' ' {
        trim_end(p.drop_last())
    } else {
        p
    }
}

/// `p` without the spaces at either end.
pub open spec fn trim(p: Seq<char>) -> Seq<char> {
    trim_end(trim_start(p))
}

/// Whether `p` starts with `pre`.
pub open spec fn starts_with(p: Seq<char>, pre: Seq<char>) -> bool {
    pre.len() <= p.len() && p.subrange(0, pre.len() as int) == pre
}

/// The value of the last entry that starts with `name` (its name and `=`), after
/// spaces are trimmed; empty where there is none.
pub open spec fn cookie_value(entries: Seq<Seq<char>>, name: Seq<char>) -> Seq<char>
    decreases entries.len(),
{
    if entries.len() == 0 {
        Seq::<char>::empty()
    } else if starts_with(trim(entries.last()), name) {
        trim(entries.last()).subrange(name.len() as int, trim(entries.last()).len() as int)
    } else {
        cookie_value(entries.drop_last(), name)
    }
}

/// The value of cookie `name` in a cookie header: entries split at `;`.
pub open spec fn header_value(cookies: Seq<char>, name: Seq<char>) -> Seq<char> {
    cookie_value(split(cookies, ';'), name)
}

/// Whether a cookie header holds all three cookies, each non-empty.
pub open spec fn authenticated(cookies: Seq<char>) -> bool {
    &&& header_value(cookies, COOKIE_USER_ID@).len() > 0
    &&& header_value(cookies, COOKIE_SESSDATA@).len() > 0
    &&& header_value(cookies, COOKIE_BILI_JCT@).len() > 0
}

/// Removes the spaces at both ends.
pub fn trim_spaces(p: &str) -> (r: String)
    ensures
        r@ == trim(p@),
{
    let n = p.unicode_len();
    let mut a: usize = 0;
    assert(p@.subrange(0, n as int) =~= p@);
    while a < n && p.get_char(a) == ' '
        invariant
            n == p@.len(),
            a <= n,
            trim_start(p@) == trim_start(p@.subrange(a as int, n as int)),
        decreases n - a,
    {
        assert(p@.subrange(a as int, n as int).drop_first() =~= p@.subrange(a + 1, n as int));
        a = a + 1;
    }
    assert(trim_start(p@) == p@.subrange(a as int, n as int));
    let mut b: usize = n;
    while b > a && p.get_char(b - 1) == ' '
        invariant
            n == p@.len(),
            a <= b <= n,
            trim(p@) == trim_end(p@.subrange(a as int, b as int)),
        decreases b - a,
    {
        assert(p@.subrange(a as int, b as int).drop_last() =~= p@.subrange(a as int, b - 1));
        b = b - 1;
    }
    p.substring_char(a, b).to_owned()
}

/// Whether `p` starts with `pre`.
pub fn has_prefix(p: &str, pre: &str) -> (r: bool)
    ensures
        r == starts_with(p@, pre@),
{
    let n = pre.unicode_len();
    if n > p.unicode_len() {
        return false;
    }
    let mut i: usize = 0;
    while i < n
        invariant
            n == pre@.len(),
            n <= p@.len(),
            i <= n,
            p@.subrange(0, i as int) == pre@.subrange(0, i as int),
        decreases n - i,
    {
        if p.get_char(i) != pre.get_char(i) {
            assert(p@.subrange(0, n as int)[i as int] != pre@[i as int]);
            return false;
        }
        assert(p@.subrange(0, i + 1) =~= p@.subrange(0, i as int).push(p@[i as int]));
        assert(pre@.subrange(0, i + 1) =~= pre@.subrange(0, i as int).push(pre@[i as int]));
        i = i + 1;
    }
    assert(pre@.subrange(0, n as int) =~= pre@);
    true
}

/// Reads the session token from a cookie header, `k=v` entries separated by `;`.
/// Where a cookie stands more than once the last one counts.
pub fn check_cookie(cookies: &str) -> (r: Result<UserToken, AuthError>)
    ensures
        r is Ok <==> authenticated(cookies@),
        r is Ok ==> {
            &&& r->Ok_0.uid@ == header_value(cookies@, COOKIE_USER_ID@)
            &&& r->Ok_0.token@ == header_value(cookies@, COOKIE_SESSDATA@)
            &&& r->Ok_0.csrf@ == header_value(cookies@, COOKIE_BILI_JCT@)
        },
        r is Err ==> r->Err_0 == AuthError::MissingCookies,
{
    let entries = split_text(cookies, ';');
    let ghost es = texts_of(entries@);
    let mut uid = String::new();
    let mut token = String::new();
    let mut csrf = String::new();
    let mut i: usize = 0;
    while i < entries.len()
        invariant
            i <= entries@.len(),
            es == texts_of(entries@),
            uid@ == cookie_value(es.subrange(0, i as int), COOKIE_USER_ID@),
            token@ == cookie_value(es.subrange(0, i as int), COOKIE_SESSDATA@),
            csrf@ == cookie_value(es.subrange(0, i as int), COOKIE_BILI_JCT@),
        decreases entries@.len() - i,
    {
        let ghost done = es.subrange(0, i + 1);
        assert(done.drop_last() =~= es.subrange(0, i as int));
        assert(done.last() == entries@[i as int]@);
        let e = trim_spaces(entries[i].as_str());
        let m = e.unicode_len();
        if has_prefix(e.as_str(), COOKIE_USER_ID) {
            uid = e.as_str().substring_char(COOKIE_USER_ID.unicode_len(), m).to_owned();
        }
        if has_prefix(e.as_str(), COOKIE_SESSDATA) {
            token = e.as_str().substring_char(COOKIE_SESSDATA.unicode_len(), m).to_owned();
        }
        if has_prefix(e.as_str(), COOKIE_BILI_JCT) {
            csrf = e.as_str().substring_char(COOKIE_BILI_JCT.unicode_len(), m).to_owned();
        }
        i = i + 1;
    }
    assert(es.subrange(0, entries@.len() as int) =~= es);
    if uid.unicode_len() == 0 || token.unicode_len() == 0 || csrf.unicode_len() == 0 {
        Err(AuthError::MissingCookies)
    } else {
        Ok(UserToken { uid, token, csrf })
    }
}

/// What a QR-login poll says.
#[derive(Clone, Copy, Debug, PartialEq, Eq, Structural)]
pub enum PollOutcome {
    /// The user confirmed the login: take the cookies.
    Confirmed,
    /// Not scanned, not confirmed yet, or expired: poll again.
    Pending,
}

/// Reads a poll answer from its outer `code` and the `code` of its data, if any.
pub fn classify_poll(code: i32, data_code: Option<i32>) -> (r: Result<PollOutcome, AuthError>)
    ensures
        code != 0 ==> r == Err::<PollOutcome, AuthError>(AuthError::PollFailed { code }),
        code == 0 && data_code == Some(0i32) ==> r == Ok::<PollOutcome, AuthError>(PollOutcome::Confirmed),
        code == 0 && data_code != Some(0i32) ==> r == Ok::<PollOutcome, AuthError>(PollOutcome::Pending),
{
    if code != 0 {
        Err(AuthError::PollFailed { code })
    } else {
        match data_code {
            Some(0) => Ok(PollOutcome::Confirmed),
            _ => Ok(PollOutcome::Pending),
        }
    }
}

} // verus!
