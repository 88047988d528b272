//! A plain model of the JSON values that blockchain RPC endpoints answer with.
use vstd::prelude::*;

verus! {

/// A JSON number as the RPC layer distinguishes it: a non-negative integer,
/// a negative integer, or a floating-point number carried by its IEEE-754 bit pattern.
#[derive(PartialEq, Eq, Structural, Clone, Copy, Debug)]
pub enum JsonNumber {
    PosInt(u64),
    NegInt(i64),
    FloatBits(u64),
}

/// A JSON value. Object members keep the order in which they were read.
#[derive(Debug)]
pub enum Json {
    Null,
    Bool(bool),
    Number(JsonNumber),
    String(String),
    Array(Vec<Json>),
    Object(Vec<(String, Json)>),
}

/// The value stored under `key` among `members`: the first member with that key.
pub open spec fn spec_member(members: Seq<(String, Json)>, key: Seq<char>) -> Option<Json>
    decreases members.len(),
{
    if members.len() == 0 {
        None
    } else if members[0].0@ == key {
        Some(members[0].1)
    } else {
        spec_member(members.drop_first(), key)
    }
}

impl Json {
    /// Object lookup; `None` for a missing key or a value that is not an object.
    pub open spec fn spec_get(self, key: Seq<char>) -> Option<Json> {
        match self {
            Json::Object(members) => spec_member(members@, key),
            _ => None,
        }
    }

    pub open spec fn spec_as_str(self) -> Option<Seq<char>> {
        match self {
            Json::String(s) => Some(s@),
            _ => None,
        }
    }

    pub open spec fn spec_as_u64(self) -> Option<u64> {
        match self {
            Json::Number(JsonNumber::PosInt(n)) => Some(n),
            _ => None,
        }
    }

    pub open spec fn spec_as_i64(self) -> Option<i64> {
        match self {
            Json::Number(JsonNumber::PosInt(n)) => if n <= i64::MAX {
                Some(n as i64)
            } else {
                None
            },
            Json::Number(JsonNumber::NegInt(n)) => Some(n),
            _ => None,
        }
    }

    /// Null, an empty array or an empty object.
    pub open spec fn spec_is_empty_params(self) -> bool {
        match self {
            Json::Null => true,
            Json::Array(v) => v@.len() == 0,
            Json::Object(m) => m@.len() == 0,
            _ => false,
        }
    }

    /// A raw call has no parameters when they are null, an array without
    /// elements or an object without members; any value with content, or a
    /// boolean, number or string, is parameters.
    pub proof fn law_empty_params(self)
        ensures
            self is Null ==> self.spec_is_empty_params(),
            (self matches Json::Array(v) && v@.len() == 0) ==> self.spec_is_empty_params(),
            (self matches Json::Object(m) && m@.len() == 0) ==> self.spec_is_empty_params(),
            (self matches Json::Array(v) && v@.len() > 0) ==> !self.spec_is_empty_params(),
            (self matches Json::Object(m) && m@.len() > 0) ==> !self.spec_is_empty_params(),
            (self is Bool || self is Number || self is String) ==> !self.spec_is_empty_params(),
    {
    }

    pub fn is_empty_params(&self) -> (r: bool)
        ensures
            r == self.spec_is_empty_params(),
    {
        match self {
            Json::Null => true,
            Json::Array(v) => v.len() == 0,
            Json::Object(m) => m.len() == 0,
            _ => false,
        }
    }

    /// Looks `key` up in an object.
    pub fn get(&self, key: &str) -> (r: Option<&Json>)
        ensures
            r matches Some(v) ==> self.spec_get(key@) == Some(*v),
            r is None ==> self.spec_get(key@) is None,
    {
        match self {
            Json::Object(members) => {
                let mut i: usize = 0;
                assert(members@.skip(0) =~= members@);
                while i < members.len()
                    invariant
                        i <= members.len(),
                        self.spec_get(key@) == spec_member(members@, key@),
                        spec_member(members@, key@) == spec_member(members@.skip(i as int), key@),
                    decreases members.len() - i,
                {
                    assert(members@.skip(i as int).drop_first() =~= members@.skip(i + 1));
                    assert(members@.skip(i as int)[0] == members@[i as int]);
                    if str_eq(members[i].0.as_str(), key) {
                        return Some(&members[i].1);
                    }
                    i = i + 1;
                }
                None
            },
            _ => None,
        }
    }

    pub fn as_str(&self) -> (r: Option<&str>)
        ensures
            r matches Some(s) ==> self.spec_as_str() == Some(s@),
            r is None ==> self.spec_as_str() is None,
    {
        match self {
            Json::String(s) => Some(s.as_str()),
            _ => None,
        }
    }

    pub fn as_u64(&self) -> (r: Option<u64>)
        ensures
            r == self.spec_as_u64(),
    {
        match self {
            Json::Number(JsonNumber::PosInt(n)) => Some(*n),
            _ => None,
        }
    }

    pub fn as_i64(&self) -> (r: Option<i64>)
        ensures
            r == self.spec_as_i64(),
    {
        match self {
            Json::Number(JsonNumber::PosInt(n)) => if *n <= 0x7fff_ffff_ffff_ffffu64 {
                Some(*n as i64)
            } else {
                None
            },
            Json::Number(JsonNumber::NegInt(n)) => Some(*n),
            _ => None,
        }
    }
}

/// Character-wise equality of two strings.
pub fn str_eq(a: &str, b: &str) -> (r: bool)
    ensures
        r == (a@ == b@),
{
    let n = a.unicode_len();
    if n != b.unicode_len() {
        return false;
    }
    let mut i: usize = 0;
    while i < n
        invariant
            n == a@.len(),
            n == b@.len(),
            i <= n,
            forall|j: int| 0 <= j < i ==> a@[j] == b@[j],
        decreases n - i,
    {
        if a.get_char(i) != b.get_char(i) {
            return false;
        }
        i = i + 1;
    }
    assert(a@ =~= b@);
    true
}

} // verus!
