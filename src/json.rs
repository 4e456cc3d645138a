//! A JSON document as plain values, and the lookups that the event decoder makes.
use vstd::prelude::*;
use crate::decode::MsgDecodeError;

verus! {

/// A JSON value. A number is `UInt` when it is an integer that fits a `u64`,
/// `Int` when it is a negative integer that fits an `i64`, and `Float` otherwise.
#[derive(Debug)]
pub enum JsonValue {
    Null,
    Bool(bool),
    UInt(u64),
    Int(i64),
    Float,
    Str(String),
    Array(Vec<JsonValue>),
    /// The members of an object, each key once, in the order the parser hands them out.
    Object(Vec<(String, JsonValue)>),
}

/// The value of the first member named `key`.
pub open spec fn find_member(members: Seq<(String, JsonValue)>, key: Seq<char>) -> Option<JsonValue>
    decreases members.len(),
{
    if members.len() == 0 {
        None
    } else if members[0].0@ == key {
        Some(members[0].1)
    } else {
        find_member(members.drop_first(), key)
    }
}

impl JsonValue {
    /// The member `key` of an object; nothing for any other value.
    pub open spec fn member(self, key: Seq<char>) -> Option<JsonValue> {
        match self {
            JsonValue::Object(m) => find_member(m@, key),
            _ => None,
        }
    }

    /// The element at position `i` of an array; nothing for any other value.
    pub open spec fn element(self, i: int) -> Option<JsonValue> {
        match self {
            JsonValue::Array(a) => if 0 <= i < a@.len() {
                Some(a@[i])
            } else {
                None
            },
            _ => None,
        }
    }

    /// The last element of an array; nothing for any other value.
    pub open spec fn last_element(self) -> Option<JsonValue> {
        match self {
            JsonValue::Array(a) => if a@.len() > 0 {
                Some(a@.last())
            } else {
                None
            },
            _ => None,
        }
    }

    /// The member `key` of an object.
    pub fn get(&self, key: &str) -> (r: Option<&JsonValue>)
        ensures
            match self.member(key@) {
                Some(v) => r is Some && *r->Some_0 == v,
                None => r is None,
            },
    {
        match self {
            JsonValue::Object(members) => {
                let mut i: usize = 0;
                assert(members@.subrange(0, members@.len() as int) =~= members@);
                while i < members.len()
                    invariant
                        i <= members@.len(),
                        self.member(key@) == find_member(members@, key@),
                        find_member(members@, key@) == find_member(members@.subrange(i as int, members@.len() as int), key@),
                    decreases members@.len() - i,
                {
                    let ghost rest = members@.subrange(i as int, members@.len() as int);
                    assert(rest.drop_first() =~= members@.subrange(i + 1, members@.len() as int));
                    assert(rest[0] == members@[i as int]);
                    let entry = &members[i];
                    if same_text(entry.0.as_str(), key) {
                        assert(find_member(rest, key@) == Some(rest[0].1));
                        assert(*entry == members@[i as int]);
                        return Some(&entry.1);
                    }
                    i = i + 1;
                }
                None
            },
            _ => None,
        }
    }

    /// The element at position `i` of an array.
    pub fn index(&self, i: usize) -> (r: Option<&JsonValue>)
        ensures
            match self.element(i as int) {
                Some(v) => r is Some && *r->Some_0 == v,
                None => r is None,
            },
    {
        match self {
            JsonValue::Array(a) => {
                if i < a.len() {
                    Some(&a[i])
                } else {
                    None
                }
            },
            _ => None,
        }
    }

    /// The last element of an array.
    pub fn last(&self) -> (r: Option<&JsonValue>)
        ensures
            match self.last_element() {
                Some(v) => r is Some && *r->Some_0 == v,
                None => r is None,
            },
    {
        match self {
            JsonValue::Array(a) => {
                if a.len() > 0 {
                    Some(&a[a.len() - 1])
                } else {
                    None
                }
            },
            _ => None,
        }
    }
}

/// Whether two texts are the same, character for character.
pub fn same_text(a: &str, b: &str) -> (r: bool)
    ensures
        r == (a@ == b@),
{
    let n = a.unicode_len();
    if n != b.unicode_len() {
        return false;
    }
    let mut i: usize = 0;
    while i < n
        invariant
            n == a@.len(),
            n == b@.len(),
            i <= n,
            a@.subrange(0, i as int) == b@.subrange(0, i as int),
        decreases n - i,
    {
        if a.get_char(i) != b.get_char(i) {
            assert(a@[i as int] != b@[i as int]);
            return false;
        }
        assert(a@.subrange(0, i + 1) =~= a@.subrange(0, i as int).push(a@[i as int]));
        assert(b@.subrange(0, i + 1) =~= b@.subrange(0, i as int).push(b@[i as int]));
        i = i + 1;
    }
    assert(a@ =~= a@.subrange(0, n as int));
    assert(b@ =~= b@.subrange(0, n as int));
    true
}

/// A `u32` field: an integer that fits, and nothing for anything else.
pub open spec fn u32_of(v: Option<JsonValue>) -> Option<u32> {
    match v {
        Some(JsonValue::UInt(n)) => if n <= u32::MAX {
            Some(n as u32)
        } else {
            None
        },
        _ => None,
    }
}

/// A text field: a string, and nothing for anything else.
pub open spec fn str_of(v: Option<JsonValue>) -> Option<Seq<char>> {
    match v {
        Some(JsonValue::Str(s)) => Some(s@),
        _ => None,
    }
}

/// A text field that may be left out: empty where absent.
pub open spec fn str_or_empty_of(v: Option<JsonValue>) -> Option<Seq<char>> {
    match v {
        None => Some(Seq::<char>::empty()),
        Some(JsonValue::Str(s)) => Some(s@),
        _ => None,
    }
}

/// A number read leniently: the low 32 bits of an integer that fits a `u64`,
/// zero for anything else.
pub open spec fn lenient_u32(v: Option<JsonValue>) -> u32 {
    match v {
        Some(JsonValue::UInt(n)) => (n % 0x1_0000_0000) as u32,
        _ => 0,
    }
}

/// A text read leniently: empty for anything but a string.
pub open spec fn lenient_str(v: Option<JsonValue>) -> Seq<char> {
    match v {
        Some(JsonValue::Str(s)) => s@,
        _ => Seq::<char>::empty(),
    }
}

/// The error for a member `key` that is missing or of the wrong kind.
fn field_error(key: &str) -> (e: MsgDecodeError)
    ensures
        e == MsgDecodeError::DecodeBodyError(e->DecodeBodyError_0),
        e->DecodeBodyError_0@ == key@,
{
    MsgDecodeError::DecodeBodyError(key.to_owned())
}

/// Reads the member `key` of an object as a `u32`.
pub fn field_u32(v: &JsonValue, key: &str) -> (r: Result<u32, MsgDecodeError>)
    ensures
        match u32_of(v.member(key@)) {
            Some(n) => r == Ok::<u32, MsgDecodeError>(n),
            None => r is Err && r->Err_0 is DecodeBodyError && r->Err_0->DecodeBodyError_0@ == key@,
        },
{
    match v.get(key) {
        Some(JsonValue::UInt(n)) => {
            if *n <= 0xffff_ffff {
                Ok(*n as u32)
            } else {
                Err(field_error(key))
            }
        },
        _ => Err(field_error(key)),
    }
}

/// Reads the member `key` of an object as a text.
pub fn field_string(v: &JsonValue, key: &str) -> (r: Result<String, MsgDecodeError>)
    ensures
        match str_of(v.member(key@)) {
            Some(s) => r is Ok && r->Ok_0@ == s,
            None => r is Err && r->Err_0 is DecodeBodyError && r->Err_0->DecodeBodyError_0@ == key@,
        },
{
    match v.get(key) {
        Some(JsonValue::Str(s)) => Ok(s.clone()),
        _ => Err(field_error(key)),
    }
}

/// Reads the member `key` of an object as a text that may be left out.
pub fn field_string_or_empty(v: &JsonValue, key: &str) -> (r: Result<String, MsgDecodeError>)
    ensures
        match str_or_empty_of(v.member(key@)) {
            Some(s) => r is Ok && r->Ok_0@ == s,
            None => r is Err && r->Err_0 is DecodeBodyError && r->Err_0->DecodeBodyError_0@ == key@,
        },
{
    match v.get(key) {
        None => Ok(String::new()),
        Some(JsonValue::Str(s)) => Ok(s.clone()),
        _ => Err(field_error(key)),
    }
}

/// Reads a value leniently as a `u32`.
pub fn to_lenient_u32(v: Option<&JsonValue>) -> (r: u32)
    ensures
        r == lenient_u32(match v {
            Some(x) => Some(*x),
            None => None,
        }),
{
    match v {
        Some(JsonValue::UInt(n)) => (*n % 0x1_0000_0000) as u32,
        _ => 0,
    }
}

/// Reads a value leniently as a text.
pub fn to_lenient_string(v: Option<&JsonValue>) -> (r: String)
    ensures
        r@ == lenient_str(match v {
            Some(x) => Some(*x),
            None => None,
        }),
{
    match v {
        Some(JsonValue::Str(s)) => s.clone(),
        _ => String::new(),
    }
}

} // verus!
