//! A JSON document model for subscription profiles and Xray configurations.
use vstd::prelude::*;

verus! {

/// A JSON number as a JSON document holds it: a non-negative integer, a
/// negative integer, or any other number, kept as its decimal text.
#[derive(Debug)]
pub enum JsonNumber {
    PosInt(u64),
    NegInt(i64),
    Float(String),
}

/// A JSON value. Object members are kept as `(key, value)` pairs.
#[derive(Debug)]
pub enum Json {
    Null,
    Bool(bool),
    Number(JsonNumber),
    String(String),
    Array(Vec<Json>),
    Object(Vec<(String, Json)>),
}

/// The mathematical model of a [`JsonNumber`].
pub enum NumberValue {
    PosInt(u64),
    NegInt(i64),
    Float(Seq<char>),
}

/// The mathematical model of a [`Json`] value.
pub enum JsonValue {
    Null,
    Bool(bool),
    Number(NumberValue),
    Str(Seq<char>),
    Array(Seq<JsonValue>),
    Object(Seq<(Seq<char>, JsonValue)>),
}

impl View for JsonNumber {
    type V = NumberValue;

    open spec fn view(&self) -> NumberValue {
        match self {
            JsonNumber::PosInt(n) => NumberValue::PosInt(*n),
            JsonNumber::NegInt(n) => NumberValue::NegInt(*n),
            JsonNumber::Float(t) => NumberValue::Float(t@),
        }
    }
}

pub open spec fn json_view(j: Json) -> JsonValue
    decreases j, 0nat,
{
    match j {
        Json::Null => JsonValue::Null,
        Json::Bool(b) => JsonValue::Bool(b),
        Json::Number(n) => JsonValue::Number(n@),
        Json::String(s) => JsonValue::Str(s@),
        Json::Array(v) => JsonValue::Array(seq_view(v@)),
        Json::Object(m) => JsonValue::Object(members_view(m@)),
    }
}

pub open spec fn seq_view(s: Seq<Json>) -> Seq<JsonValue>
    decreases s, 1nat,
{
    Seq::new(s.len(), |i: int| if 0 <= i < s.len() { json_view(s[i]) } else { JsonValue::Null })
}

pub open spec fn members_view(s: Seq<(String, Json)>) -> Seq<(Seq<char>, JsonValue)>
    decreases s, 1nat,
{
    Seq::new(s.len(), |i: int| if 0 <= i < s.len() { (s[i].0@, json_view(s[i].1)) } else { (Seq::empty(), JsonValue::Null) })
}

impl View for Json {
    type V = JsonValue;

    open spec fn view(&self) -> JsonValue {
        json_view(*self)
    }
}


/// No two members of `m` share a name.
pub open spec fn distinct_names(m: Seq<(Seq<char>, JsonValue)>) -> bool {
    forall|i: int, j: int| 0 <= i < j < m.len() ==> #[trigger] m[i].0 != #[trigger] m[j].0
}

/// A value that a JSON document can hold: no object has two members of one
/// name, and a negative integer is negative.
pub open spec fn json_wf(v: JsonValue) -> bool
    decreases v,
{
    match v {
        JsonValue::Number(NumberValue::NegInt(n)) => n < 0,
        JsonValue::Array(s) => forall|i: int| 0 <= i < s.len() ==> json_wf(#[trigger] s[i]),
        JsonValue::Object(m) => distinct_names(m) && forall|i: int|
            0 <= i < m.len() ==> json_wf(#[trigger] m[i].1),
        _ => true,
    }
}

/// Position `i` holds the first member of `m` named `key`.
pub open spec fn key_at(m: Seq<(Seq<char>, JsonValue)>, key: Seq<char>, i: int) -> bool {
    &&& 0 <= i < m.len()
    &&& m[i].0 == key
    &&& forall|j: int| 0 <= j < i ==> #[trigger] m[j].0 != key
}

/// The position of the first member of `m` named `key`, if any.
pub open spec fn key_index(m: Seq<(Seq<char>, JsonValue)>, key: Seq<char>) -> Option<int> {
    if exists|i: int| key_at(m, key, i) {
        Some(choose|i: int| key_at(m, key, i))
    } else {
        None
    }
}

/// The value of the member of `m` named `key`, if any.
pub open spec fn member_lookup(m: Seq<(Seq<char>, JsonValue)>, key: Seq<char>) -> Option<JsonValue> {
    match key_index(m, key) {
        Some(i) => Some(m[i].1),
        None => None,
    }
}

/// `m` with the member named `key` set to `value`: replaced where the
/// member exists, added at the end where it does not.
pub open spec fn member_set(m: Seq<(Seq<char>, JsonValue)>, key: Seq<char>, value: JsonValue) -> Seq<(Seq<char>, JsonValue)> {
    match key_index(m, key) {
        Some(i) => m.update(i, (key, value)),
        None => m.push((key, value)),
    }
}

impl JsonValue {
    /// The member `key` of an object; nothing for any other value.
    pub open spec fn get(self, key: Seq<char>) -> Option<JsonValue> {
        match self {
            JsonValue::Object(m) => member_lookup(m, key),
            _ => None,
        }
    }

    /// The text of a string value.
    pub open spec fn as_str(self) -> Option<Seq<char>> {
        match self {
            JsonValue::Str(s) => Some(s),
            _ => None,
        }
    }

    /// The value of a non-negative integer.
    pub open spec fn as_u64(self) -> Option<u64> {
        match self {
            JsonValue::Number(NumberValue::PosInt(n)) => Some(n),
            _ => None,
        }
    }

    /// The elements of an array.
    pub open spec fn as_array(self) -> Option<Seq<JsonValue>> {
        match self {
            JsonValue::Array(a) => Some(a),
            _ => None,
        }
    }

    /// The text held by the member `key`, where it is a string.
    pub open spec fn str_member(self, key: Seq<char>) -> Option<Seq<char>> {
        match self.get(key) {
            Some(v) => v.as_str(),
            None => None,
        }
    }
}

/// Two positions that both hold the first member named `key` are the same.
pub proof fn lemma_key_at_unique(m: Seq<(Seq<char>, JsonValue)>, key: Seq<char>, i: int, j: int)
    requires
        key_at(m, key, i),
        key_at(m, key, j),
    ensures
        i == j,
{
    if i < j {
        assert(m[i].0 != key);
    } else if j < i {
        assert(m[j].0 != key);
    }
}

/// A member named `key` at position `j` means that some position up to `j`
/// holds the first member named `key`.
pub proof fn lemma_first_member(m: Seq<(Seq<char>, JsonValue)>, key: Seq<char>, j: int) -> (w: int)
    requires
        0 <= j < m.len(),
        m[j].0 == key,
    ensures
        w <= j,
        key_at(m, key, w),
    decreases j,
{
    if exists|q: int| 0 <= q < j && m[q].0 == key {
        let q = choose|q: int| 0 <= q < j && m[q].0 == key;
        lemma_first_member(m, key, q)
    } else {
        j
    }
}

/// `key_index(m, key) == Some(i)` exactly where position `i` holds the first
/// member named `key`.
pub proof fn lemma_key_index_at(m: Seq<(Seq<char>, JsonValue)>, key: Seq<char>, i: int)
    ensures
        key_index(m, key) == Some(i) <==> key_at(m, key, i),
{
    if key_at(m, key, i) {
        let c = choose|c: int| key_at(m, key, c);
        lemma_key_at_unique(m, key, i, c);
    }
}

/// Objects whose members have the same names in the same order find every
/// name at the same position.
pub proof fn lemma_key_index_same_names(
    m1: Seq<(Seq<char>, JsonValue)>,
    m2: Seq<(Seq<char>, JsonValue)>,
    key: Seq<char>,
)
    requires
        m1.len() == m2.len(),
        forall|i: int| 0 <= i < m1.len() ==> #[trigger] m1[i].0 == m2[i].0,
    ensures
        key_index(m1, key) == key_index(m2, key),
{
    assert forall|i: int| key_at(m1, key, i) <==> key_at(m2, key, i) by {
        if 0 <= i < m1.len() {
            assert forall|j: int| 0 <= j < i implies (m1[j].0 != key <==> #[trigger] m2[j].0 != key) by {
                assert(m1[j].0 == m2[j].0);
            }
        }
    }
    if exists|i: int| key_at(m1, key, i) {
        let i = choose|i: int| key_at(m1, key, i);
        lemma_key_index_at(m1, key, i);
        lemma_key_index_at(m2, key, i);
    }
}

/// After setting member `key` to `value`, `key` holds `value` and every other
/// member is as it was.
pub proof fn read_after_set_member(m: Seq<(Seq<char>, JsonValue)>, key: Seq<char>, value: JsonValue, other: Seq<char>)
    ensures
        member_lookup(member_set(m, key, value), key) == Some(value),
        other != key ==> member_lookup(member_set(m, key, value), other) == member_lookup(m, other),
        key_index(member_set(m, key, value), key) is Some,
{
    let s = member_set(m, key, value);
    match key_index(m, key) {
        Some(i) => {
            lemma_key_index_at(m, key, i);
            assert forall|j: int| 0 <= j < m.len() implies #[trigger] s[j].0 == m[j].0 by {}
            lemma_key_index_same_names(s, m, key);
            lemma_key_index_same_names(s, m, other);
            if other != key {
                if let Some(j) = key_index(m, other) {
                    lemma_key_index_at(m, other, j);
                }
            }
        },
        None => {
            assert forall|j: int| !key_at(m, key, j) by {
                if key_at(m, key, j) {
                    lemma_key_index_at(m, key, j);
                }
            }
            assert forall|j: int| 0 <= j < m.len() implies #[trigger] m[j].0 != key by {
                if m[j].0 == key {
                    let w = lemma_first_member(m, key, j);
                    lemma_key_index_at(m, key, w);
                }
            }
            assert(key_at(s, key, m.len() as int));
            lemma_key_index_at(s, key, m.len() as int);
            if other != key {
                assert forall|j: int| key_at(s, other, j) <==> key_at(m, other, j) by {
                    if 0 <= j < m.len() {
                        assert forall|q: int| 0 <= q < j implies (s[q].0 != other <==> #[trigger] m[q].0 != other) by {
                            assert(s[q] == m[q]);
                        }
                        assert(s[j] == m[j]);
                    }
                }
                if let Some(j) = key_index(m, other) {
                    lemma_key_index_at(m, other, j);
                    lemma_key_index_at(s, other, j);
                } else {
                    assert forall|j: int| !key_at(s, other, j) by {
                        if key_at(s, other, j) {
                            lemma_key_index_at(m, other, j);
                        }
                    }
                }
            }
        },
    }
}

/// Setting a member to the value it already holds changes nothing.
pub proof fn lemma_member_set_same(m: Seq<(Seq<char>, JsonValue)>, key: Seq<char>, value: JsonValue)
    requires
        member_lookup(m, key) == Some(value),
    ensures
        member_set(m, key, value) == m,
{
    let i = key_index(m, key)->0;
    lemma_key_index_at(m, key, i);
    assert(m.update(i, (key, value)) =~= m);
}

/// Setting a member keeps an object free of repeated names and of values a
/// JSON document cannot hold.
pub proof fn lemma_member_set_wf(m: Seq<(Seq<char>, JsonValue)>, key: Seq<char>, value: JsonValue)
    requires
        json_wf(JsonValue::Object(m)),
        json_wf(value),
    ensures
        json_wf(JsonValue::Object(member_set(m, key, value))),
{
    let s = member_set(m, key, value);
    match key_index(m, key) {
        Some(i) => {
            lemma_key_index_at(m, key, i);
            assert forall|a: int, b: int| 0 <= a < b < s.len() implies #[trigger] s[a].0 != #[trigger] s[b].0 by {
                assert(s[a].0 == m[a].0 && s[b].0 == m[b].0);
                assert(m[a].0 != m[b].0);
            }
            assert forall|j: int| 0 <= j < s.len() implies json_wf(#[trigger] s[j].1) by {
                if j != i {
                    assert(json_wf(m[j].1));
                }
            }
        },
        None => {
            assert forall|j: int| 0 <= j < m.len() implies #[trigger] m[j].0 != key by {
                if m[j].0 == key {
                    let w = lemma_first_member(m, key, j);
                    lemma_key_index_at(m, key, w);
                }
            }
            assert forall|a: int, b: int| 0 <= a < b < s.len() implies #[trigger] s[a].0 != #[trigger] s[b].0 by {
                if b < m.len() {
                    assert(m[a].0 != m[b].0);
                } else {
                    assert(m[a].0 != key);
                }
            }
            assert forall|j: int| 0 <= j < s.len() implies json_wf(#[trigger] s[j].1) by {
                if j < m.len() {
                    assert(json_wf(m[j].1));
                }
            }
        },
    }
}

/// The position of the first member of `m` named `key`.
pub fn find_member(m: &Vec<(String, Json)>, key: &str) -> (r: Option<usize>)
    ensures
        match r {
            Some(i) => key_index(members_view(m@), key@) == Some(i as int),
            None => key_index(members_view(m@), key@) is None,
        },
{
    let ghost mv = members_view(m@);
    let mut i: usize = 0;
    while i < m.len()
        invariant
            mv == members_view(m@),
            i <= m.len(),
            forall|j: int| 0 <= j < i ==> #[trigger] mv[j].0 != key@,
        decreases m.len() - i,
    {
        if crate::text::str_eq(m[i].0.as_str(), key) {
            assert(key_at(mv, key@, i as int));
            let ghost c = choose|c: int| key_at(mv, key@, c);
            assert(c == i) by {
                if c < i {
                    assert(mv[c].0 != key@);
                } else if c > i {
                    assert(mv[i as int].0 != key@);
                }
            }
            return Some(i);
        }
        i = i + 1;
    }
    assert forall|c: int| !key_at(mv, key@, c) by {
        if 0 <= c < mv.len() {
            assert(mv[c].0 != key@);
        }
    }
    None
}

impl Json {
    /// The member `key` of an object, as `serde_json::Value::get` gives it.
    pub fn get(&self, key: &str) -> (r: Option<&Json>)
        ensures
            match r {
                Some(v) => self@.get(key@) == Some(v@),
                None => self@.get(key@) is None,
            },
    {
        match self {
            Json::Object(m) => match find_member(m, key) {
                Some(i) => Some(&m[i].1),
                None => None,
            },
            _ => None,
        }
    }

    /// The text of a string value.
    pub fn as_str(&self) -> (r: Option<&str>)
        ensures
            match r {
                Some(t) => self@.as_str() == Some(t@),
                None => self@.as_str() is None,
            },
    {
        match self {
            Json::String(s) => Some(s.as_str()),
            _ => None,
        }
    }

    /// The value of a non-negative integer.
    pub fn as_u64(&self) -> (r: Option<u64>)
        ensures
            r == self@.as_u64(),
    {
        match self {
            Json::Number(JsonNumber::PosInt(n)) => Some(*n),
            _ => None,
        }
    }

    /// The elements of an array.
    pub fn as_array(&self) -> (r: Option<&Vec<Json>>)
        ensures
            match r {
                Some(v) => self@.as_array() == Some(seq_view(v@)),
                None => self@.as_array() is None,
            },
    {
        match self {
            Json::Array(v) => Some(v),
            _ => None,
        }
    }

    /// The text held by the member `key`, where it is a string.
    pub fn str_member(&self, key: &str) -> (r: Option<&str>)
        ensures
            match r {
                Some(t) => self@.str_member(key@) == Some(t@),
                None => self@.str_member(key@) is None,
            },
    {
        match self.get(key) {
            Some(v) => v.as_str(),
            None => None,
        }
    }
}

} // verus!
