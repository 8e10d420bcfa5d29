//! A JSON document model for the values the library reads and builds.

use vstd::prelude::*;
use crate::text::str_eq;

verus! {

/// A JSON value.
///
/// Integers that fit in `i64` are held as numbers; any other JSON number is
/// held by its literal text. Object members keep their order.
#[derive(Debug)]
pub enum Json {
    Null,
    Bool(bool),
    Int(i64),
    Number(String),
    Str(String),
    Array(Vec<Json>),
    Object(Vec<(String, Json)>),
}

/// The mathematical content of a [`Json`] value.
pub enum JsonV {
    Null,
    Bool(bool),
    Int(int),
    Number(Seq<char>),
    Str(Seq<char>),
    Array(Seq<JsonV>),
    Object(Seq<(Seq<char>, JsonV)>),
}

impl Json {
    pub open spec fn deep(&self) -> JsonV
        decreases self,
    {
        match self {
            Json::Null => JsonV::Null,
            Json::Bool(b) => JsonV::Bool(*b),
            Json::Int(i) => JsonV::Int(*i as int),
            Json::Number(t) => JsonV::Number(t@),
            Json::Str(s) => JsonV::Str(s@),
            Json::Array(v) => JsonV::Array(
                Seq::new(v@.len(), |i: int| if 0 <= i < v@.len() { v@[i].deep() } else { JsonV::Null }),
            ),
            Json::Object(m) => JsonV::Object(
                Seq::new(
                    m@.len(),
                    |i: int| if 0 <= i < m@.len() { (m@[i].0@, m@[i].1.deep()) } else { (Seq::empty(), JsonV::Null) },
                ),
            ),
        }
    }
}


/// The first member at or after `i` of the object members `m` named `key`.
pub open spec fn member(m: Seq<(Seq<char>, JsonV)>, key: Seq<char>, i: int) -> Option<JsonV>
    decreases m.len() - i,
{
    if i < 0 || i >= m.len() {
        None
    } else if m[i].0 == key {
        Some(m[i].1)
    } else {
        member(m, key, i + 1)
    }
}

impl JsonV {
    /// The member named `key` of an object (`Value::get` with a string key).
    pub open spec fn get(self, key: Seq<char>) -> Option<JsonV> {
        match self {
            JsonV::Object(m) => member(m, key, 0),
            _ => None,
        }
    }

    pub open spec fn as_str(self) -> Option<Seq<char>> {
        match self {
            JsonV::Str(s) => Some(s),
            _ => None,
        }
    }

    /// The value of an integer that fits in `i64` (`Value::as_i64`).
    pub open spec fn as_i64(self) -> Option<int> {
        match self {
            JsonV::Int(i) => Some(i),
            _ => None,
        }
    }

    pub open spec fn as_bool(self) -> Option<bool> {
        match self {
            JsonV::Bool(b) => Some(b),
            _ => None,
        }
    }

    pub open spec fn as_array(self) -> Option<Seq<JsonV>> {
        match self {
            JsonV::Array(a) => Some(a),
            _ => None,
        }
    }
}

/// The string found by following `key` from an optional value.
pub open spec fn get_str(v: Option<JsonV>, key: Seq<char>) -> Option<Seq<char>> {
    match v {
        Some(j) => match j.get(key) {
            Some(x) => x.as_str(),
            None => None,
        },
        None => None,
    }
}

/// The deep views of a sequence of values.
pub open spec fn deep_seq(v: Seq<Json>) -> Seq<JsonV> {
    Seq::new(v.len(), |i: int| v[i].deep())
}

/// The deep views of a sequence of object members.
pub open spec fn deep_members(m: Seq<(String, Json)>) -> Seq<(Seq<char>, JsonV)> {
    Seq::new(m.len(), |i: int| (m[i].0@, m[i].1.deep()))
}

/// The deep view of an array or object is built from its parts.
pub proof fn lemma_deep_parts(j: &Json)
    ensures
        j matches Json::Array(v) ==> j.deep() == JsonV::Array(deep_seq(v@)),
        j matches Json::Object(m) ==> j.deep() == JsonV::Object(deep_members(m@)),
{
    match j {
        Json::Array(v) => {
            assert(j.deep()->Array_0 =~= deep_seq(v@));
        },
        Json::Object(m) => {
            assert(j.deep()->Object_0 =~= deep_members(m@));
        },
        _ => {},
    }
}

impl Json {
    /// A string value.
    pub fn from_str(s: &str) -> (r: Json)
        ensures
            r.deep() == JsonV::Str(s@),
    {
        Json::Str(String::from_str(s))
    }

    /// An object from its members, in order.
    pub fn object(m: Vec<(String, Json)>) -> (r: Json)
        ensures
            r.deep() == JsonV::Object(deep_members(m@)),
    {
        let r = Json::Object(m);
        proof {
            lemma_deep_parts(&r);
        }
        r
    }

    /// An array from its elements, in order.
    pub fn array(v: Vec<Json>) -> (r: Json)
        ensures
            r.deep() == JsonV::Array(deep_seq(v@)),
    {
        let r = Json::Array(v);
        proof {
            lemma_deep_parts(&r);
        }
        r
    }

    /// The member named `key` of an object.
    pub fn get(&self, key: &str) -> (r: Option<&Json>)
        ensures
            r matches Some(j) ==> self.deep().get(key@) == Some(j.deep()),
            r is None ==> self.deep().get(key@) is None,
    {
        proof {
            lemma_deep_parts(self);
        }
        match self {
            Json::Object(m) => {
                let ghost dm = deep_members(m@);
                let mut i: usize = 0;
                while i < m.len()
                    invariant
                        i <= m@.len(),
                        dm == deep_members(m@),
                        self.deep() == JsonV::Object(dm),
                        member(dm, key@, 0) == member(dm, key@, i as int),
                    decreases m@.len() - i,
                {
                    assert(dm[i as int] == (m@[i as int].0@, m@[i as int].1.deep()));
                    if str_eq(m[i].0.as_str(), key) {
                        return Some(&m[i].1);
                    }
                    i = i + 1;
                }
                None
            },
            _ => None,
        }
    }

    /// The text of a string value.
    pub fn as_str(&self) -> (r: Option<&str>)
        ensures
            r matches Some(s) ==> self.deep().as_str() == Some(s@),
            r is None ==> self.deep().as_str() is None,
    {
        match self {
            Json::Str(s) => Some(s.as_str()),
            _ => None,
        }
    }

    /// The value of an integer that fits in `i64`.
    pub fn as_i64(&self) -> (r: Option<i64>)
        ensures
            r matches Some(i) ==> self.deep().as_i64() == Some(i as int),
            r is None ==> self.deep().as_i64() is None,
    {
        match self {
            Json::Int(i) => Some(*i),
            _ => None,
        }
    }

    /// The value of a boolean.
    pub fn as_bool(&self) -> (r: Option<bool>)
        ensures
            r == self.deep().as_bool(),
    {
        match self {
            Json::Bool(b) => Some(*b),
            _ => None,
        }
    }

    /// The elements of an array.
    pub fn as_array(&self) -> (r: Option<&Vec<Json>>)
        ensures
            r matches Some(v) ==> self.deep().as_array() == Some(deep_seq(v@)),
            r is None ==> self.deep().as_array() is None,
    {
        proof {
            lemma_deep_parts(self);
        }
        match self {
            Json::Array(v) => Some(v),
            _ => None,
        }
    }

    /// A copy of the value.
    #[verifier::loop_isolation(false)]
    pub fn clone_json(&self) -> (r: Json)
        ensures
            r.deep() == self.deep(),
        decreases self,
    {
        proof {
            lemma_deep_parts(self);
        }
        match self {
            Json::Null => Json::Null,
            Json::Bool(b) => Json::Bool(*b),
            Json::Int(i) => Json::Int(*i),
            Json::Number(t) => Json::Number(t.clone()),
            Json::Str(s) => Json::Str(s.clone()),
            Json::Array(v) => {
                let mut out: Vec<Json> = Vec::new();
                let mut i: usize = 0;
                while i < v.len()
                    invariant
                        i <= v@.len(),
                        out@.len() == i,
                        forall|k: int| 0 <= k < i ==> #[trigger] out@[k].deep() == v@[k].deep(),
                    decreases v@.len() - i,
                {
                    proof {
                        vstd::std_specs::vec::axiom_vec_index_decreases(*v, i as int);
                        assert(decreases_to!(*self => v[i as int]));
                    }
                    out.push(v[i].clone_json());
                    i = i + 1;
                }
                let r = Json::array(out);
                assert(deep_seq(out@) =~= deep_seq(v@));
                r
            },
            Json::Object(m) => {
                let mut out: Vec<(String, Json)> = Vec::new();
                let mut i: usize = 0;
                while i < m.len()
                    invariant
                        i <= m@.len(),
                        out@.len() == i,
                        forall|k: int|
                            0 <= k < i ==> #[trigger] out@[k].0@ == m@[k].0@ && out@[k].1.deep()
                                == m@[k].1.deep(),
                    decreases m@.len() - i,
                {
                    proof {
                        vstd::std_specs::vec::axiom_vec_index_decreases(*m, i as int);
                        assert(decreases_to!(m[i as int] => m[i as int].1));
                        assert(decreases_to!(*self => m[i as int].1));
                    }
                    out.push((m[i].0.clone(), m[i].1.clone_json()));
                    i = i + 1;
                }
                let r = Json::object(out);
                assert(deep_members(out@) =~= deep_members(m@));
                r
            },
        }
    }
}


/// Appends the member `key: v` to the members of an object under
/// construction.
pub fn push_member(m: &mut Vec<(String, Json)>, key: &str, v: Json)
    ensures
        deep_members(final(m)@) == deep_members(old(m)@).push((key@, v.deep())),
{
    let ghost before = m@;
    let k = String::from_str(key);
    let ghost vd = v.deep();
    m.push((k, v));
    assert(deep_members(m@) =~= deep_members(before).push((key@, vd)));
}

/// Appends `v` to the elements of an array under construction.
pub fn push_element(a: &mut Vec<Json>, v: Json)
    ensures
        deep_seq(final(a)@) == deep_seq(old(a)@).push(v.deep()),
{
    let ghost before = a@;
    let ghost vd = v.deep();
    a.push(v);
    assert(deep_seq(a@) =~= deep_seq(before).push(vd));
}

/// A string value from characters.
pub fn json_chars(s: &[char]) -> (r: Json)
    ensures
        r.deep() == JsonV::Str(s@),
{
    Json::Str(crate::text::string_of(s))
}

} // verus!
