//! Structured game data as the auditor reads it: a tree of nulls, flags,
//! numbers, texts, arrays and objects.
use vstd::prelude::*;
use crate::text::same_text;

verus! {

/// A number of a document: a non-negative integer, a negative integer, or a
/// real number held in millionths.
#[derive(Debug, Clone, Copy, PartialEq, Eq, Structural)]
pub enum JsonNumber {
    PosInt(u64),
    NegInt(i64),
    Real(i128),
}

/// A value of a document.
#[derive(Debug)]
pub enum JsonValue {
    Null,
    Bool(bool),
    Number(JsonNumber),
    Text(String),
    Array(Vec<JsonValue>),
    Object(JsonObject),
}

/// A named member of an object.
#[derive(Debug)]
pub struct JsonField {
    pub key: String,
    pub value: JsonValue,
}

/// An object of a document: its members in the order in which they are
/// written. A key is looked up at its first member.
#[derive(Debug)]
pub struct JsonObject {
    pub fields: Vec<JsonField>,
}

/// A number as a real in millionths.
pub open spec fn number_as_fixed(number: JsonNumber) -> int {
    match number {
        JsonNumber::PosInt(n) => n * 1_000_000,
        JsonNumber::NegInt(n) => n * 1_000_000,
        JsonNumber::Real(v) => v as int,
    }
}

/// Position `i` is the first member with the given key.
pub open spec fn is_member(fields: Seq<JsonField>, key: Seq<char>, i: int) -> bool {
    &&& 0 <= i < fields.len()
    &&& fields[i].key@ == key
    &&& forall|j: int| 0 <= j < i ==> (#[trigger] fields[j]).key@ != key
}

/// Some member has the given key.
pub open spec fn has_member(fields: Seq<JsonField>, key: Seq<char>) -> bool {
    exists|i: int| is_member(fields, key, i)
}

/// The value of the first member with the given key.
pub open spec fn member_value(fields: Seq<JsonField>, key: Seq<char>) -> JsonValue {
    fields[choose|i: int| is_member(fields, key, i)].value
}

/// The first member with a key is the member the key is looked up at.
pub proof fn lemma_member_unique(fields: Seq<JsonField>, key: Seq<char>, i: int)
    requires
        is_member(fields, key, i),
    ensures
        has_member(fields, key),
        member_value(fields, key) == fields[i].value,
{
    let c = choose|c: int| is_member(fields, key, c);
    assert(is_member(fields, key, c));
    if c < i {
        assert(fields[c].key@ != key);
    } else if i < c {
        assert(fields[i].key@ != key);
    }
}

/// Where no member carries a key, the key is not a member.
pub proof fn lemma_member_absent(fields: Seq<JsonField>, key: Seq<char>)
    requires
        forall|j: int| 0 <= j < fields.len() ==> (#[trigger] fields[j]).key@ != key,
    ensures
        !has_member(fields, key),
{
    if has_member(fields, key) {
        let c = choose|c: int| is_member(fields, key, c);
        assert(fields[c].key@ != key);
    }
}

impl JsonNumber {
    /// The number as a real in millionths.
    pub fn as_fixed(&self) -> (value: i128)
        ensures
            value == number_as_fixed(*self),
    {
        match self {
            JsonNumber::PosInt(n) => (*n as i128) * 1_000_000,
            JsonNumber::NegInt(n) => (*n as i128) * 1_000_000,
            JsonNumber::Real(v) => *v,
        }
    }
}

impl JsonObject {
    /// Whether the object has a member with the given key.
    pub open spec fn has(&self, key: Seq<char>) -> bool {
        has_member(self.fields@, key)
    }

    /// The value the object holds under a key.
    pub open spec fn at(&self, key: Seq<char>) -> JsonValue {
        member_value(self.fields@, key)
    }

    /// An object without members.
    pub fn new() -> (object: Self)
        ensures
            object.fields@.len() == 0,
            forall|key: Seq<char>| !object.has(key),
    {
        let object = JsonObject { fields: Vec::new() };
        assert forall|key: Seq<char>| !object.has(key) by {
            lemma_member_absent(object.fields@, key);
        }
        object
    }

    /// The value under a key, if the object has such a member.
    pub fn get(&self, key: &str) -> (value: Option<&JsonValue>)
        ensures
            match value {
                Some(v) => self.has(key@) && *v == self.at(key@),
                None => !self.has(key@),
            },
    {
        let mut i: usize = 0;
        while i < self.fields.len()
            invariant
                i <= self.fields@.len(),
                forall|j: int| 0 <= j < i ==> (#[trigger] self.fields@[j]).key@ != key@,
            decreases self.fields@.len() - i,
        {
            if same_text(self.fields[i].key.as_str(), key) {
                proof {
                    lemma_member_unique(self.fields@, key@, i as int);
                }
                return Some(&self.fields[i].value);
            }
            i += 1;
        }
        proof {
            lemma_member_absent(self.fields@, key@);
        }
        None
    }

    /// Whether the object has a member with the given key.
    pub fn contains_key(&self, key: &str) -> (found: bool)
        ensures
            found == self.has(key@),
    {
        self.get(key).is_some()
    }
}

/// The value a value holds under a key: that of the member, where the value
/// is an object with such a member.
pub open spec fn value_get(value: JsonValue, key: Seq<char>) -> Option<JsonValue> {
    match value {
        JsonValue::Object(object) => if object.has(key) {
            Some(object.at(key))
        } else {
            None
        },
        _ => None,
    }
}

/// Whether a value is a non-negative integer.
pub open spec fn value_is_u64(value: JsonValue) -> bool {
    value matches JsonValue::Number(JsonNumber::PosInt(_))
}

/// Whether a value is a real number that is not written as an integer.
pub open spec fn value_is_f64(value: JsonValue) -> bool {
    value matches JsonValue::Number(JsonNumber::Real(_))
}

/// The characters of a value that is a text.
pub open spec fn value_as_text(value: JsonValue) -> Option<Seq<char>> {
    match value {
        JsonValue::Text(text) => Some(text@),
        _ => None,
    }
}

/// The elements of a value that is an array.
pub open spec fn value_as_array(value: JsonValue) -> Option<Seq<JsonValue>> {
    match value {
        JsonValue::Array(items) => Some(items@),
        _ => None,
    }
}

/// A value that is a number, as a real in millionths.
pub open spec fn value_as_fixed(value: JsonValue) -> Option<int> {
    match value {
        JsonValue::Number(number) => Some(number_as_fixed(number)),
        _ => None,
    }
}

impl JsonValue {
    /// The value under a key, where this value is an object that has such a
    /// member.
    pub fn get(&self, key: &str) -> (value: Option<&JsonValue>)
        ensures
            match value {
                Some(v) => value_get(*self, key@) == Some(*v),
                None => value_get(*self, key@).is_none(),
            },
    {
        match self {
            JsonValue::Object(object) => object.get(key),
            _ => None,
        }
    }

    /// Whether the value is a non-negative integer.
    pub fn is_u64(&self) -> (yes: bool)
        ensures
            yes == value_is_u64(*self),
    {
        match self {
            JsonValue::Number(JsonNumber::PosInt(_)) => true,
            _ => false,
        }
    }

    /// Whether the value is a real number that is not written as an
    /// integer.
    pub fn is_f64(&self) -> (yes: bool)
        ensures
            yes == value_is_f64(*self),
    {
        match self {
            JsonValue::Number(JsonNumber::Real(_)) => true,
            _ => false,
        }
    }

    /// The text of a value that is one.
    pub fn as_str(&self) -> (text: Option<&str>)
        ensures
            match text {
                Some(t) => value_as_text(*self) == Some(t@),
                None => value_as_text(*self).is_none(),
            },
    {
        match self {
            JsonValue::Text(text) => Some(text.as_str()),
            _ => None,
        }
    }

    /// The elements of a value that is an array.
    pub fn as_array(&self) -> (items: Option<&Vec<JsonValue>>)
        ensures
            match items {
                Some(v) => value_as_array(*self) == Some(v@),
                None => value_as_array(*self).is_none(),
            },
    {
        match self {
            JsonValue::Array(items) => Some(items),
            _ => None,
        }
    }

    /// A value that is a number, as a real in millionths.
    pub fn as_fixed(&self) -> (value: Option<i128>)
        ensures
            match value {
                Some(v) => value_as_fixed(*self) == Some(v as int),
                None => value_as_fixed(*self).is_none(),
            },
    {
        match self {
            JsonValue::Number(number) => Some(number.as_fixed()),
            _ => None,
        }
    }
}

} // verus!
