//! A JSON document, as the report parser reads it.
use vstd::prelude::*;

verus! {

/// A JSON value.
///
/// Numbers are held by what the parser reads of them: `Integer(n)` is a
/// number that has an `i64` value; `OtherNumber` is any other number (a
/// fraction, or an integer above `i64::MAX`).  An object keeps its members
/// in order; looking a key up finds its first member of that name.
#[derive(Debug)]
pub enum Json {
    Null,
    Bool(bool),
    Integer(i64),
    OtherNumber,
    Str(String),
    Array(Vec<Json>),
    Object(Vec<(String, Json)>),
}

impl View for Json {
    type V = Json;

    open spec fn view(&self) -> Json {
        *self
    }
}

/// The view of an optional value.
pub open spec fn opt_view<T: View>(o: Option<T>) -> Option<T::V> {
    match o {
        Some(v) => Some(v@),
        None => None,
    }
}

/// The value of the first member named `key`.
pub open spec fn lookup(members: Seq<(String, Json)>, key: Seq<char>) -> Option<Json>
    decreases members.len(),
{
    if members.len() == 0 {
        None
    } else if members[0].0@ == key {
        Some(members[0].1)
    } else {
        lookup(members.drop_first(), key)
    }
}

/// The member `key` of an object; nothing for any other value.
pub open spec fn spec_get(j: Json, key: Seq<char>) -> Option<Json> {
    match j {
        Json::Object(members) => lookup(members@, key),
        _ => None,
    }
}

/// The member `key` of an object, or `Null` where there is none.
pub open spec fn spec_index(j: Json, key: Seq<char>) -> Json {
    match spec_get(j, key) {
        Some(v) => v,
        None => Json::Null,
    }
}

pub open spec fn spec_as_i64(j: Json) -> Option<i64> {
    match j {
        Json::Integer(n) => Some(n),
        _ => None,
    }
}

pub open spec fn spec_as_str(j: Json) -> Option<Seq<char>> {
    match j {
        Json::Str(s) => Some(s@),
        _ => None,
    }
}

pub open spec fn spec_as_array(j: Json) -> Option<Seq<Json>> {
    match j {
        Json::Array(items) => Some(items@),
        _ => None,
    }
}

/// Looking past members whose names differ from `key` does not change the result.
proof fn lemma_lookup_skip(members: Seq<(String, Json)>, key: Seq<char>, i: int)
    requires
        0 <= i <= members.len(),
        forall|j: int| 0 <= j < i ==> members[j].0@ != key,
    ensures
        lookup(members, key) == lookup(members.skip(i), key),
    decreases i,
{
    if i > 0 {
        lemma_lookup_skip(members.drop_first(), key, i - 1);
        assert(members.drop_first().skip(i - 1) =~= members.skip(i));
    } else {
        assert(members.skip(0) =~= members);
    }
}

impl Json {
    /// The member `key` of an object; `None` for a missing key or a value that is no object.
    pub fn get(&self, key: &str) -> (r: Option<&Json>)
        ensures
            opt_view(r) == spec_get(*self, key@),
    {
        match self {
            Json::Object(members) => {
                let wanted = key.to_owned();
                let n = members.len();
                let mut i: usize = 0;
                while i < n
                    invariant
                        *self == Json::Object(*members),
                        n == members@.len(),
                        0 <= i <= n,
                        wanted@ == key@,
                        forall|j: int| 0 <= j < i ==> members@[j].0@ != key@,
                    decreases n - i,
                {
                    if members[i].0 == wanted {
                        proof {
                            lemma_lookup_skip(members@, key@, i as int);
                            assert(members@.skip(i as int)[0] == members@[i as int]);
                        }
                        return Some(&members[i].1);
                    }
                    i = i + 1;
                }
                proof {
                    lemma_lookup_skip(members@, key@, n as int);
                }
                None
            },
            _ => None,
        }
    }

    pub fn as_i64(&self) -> (r: Option<i64>)
        ensures
            r == spec_as_i64(*self),
    {
        match self {
            Json::Integer(n) => Some(*n),
            _ => None,
        }
    }

    pub fn as_str(&self) -> (r: Option<&str>)
        ensures
            opt_view(r) == spec_as_str(*self),
    {
        match self {
            Json::Str(s) => Some(s.as_str()),
            _ => None,
        }
    }

    pub fn as_array(&self) -> (r: Option<&Vec<Json>>)
        ensures
            opt_view(r) == spec_as_array(*self),
    {
        match self {
            Json::Array(items) => Some(items),
            _ => None,
        }
    }
}

} // verus!
