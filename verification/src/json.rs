//! The JSON values that stream messages are made of, as the library reads them.
//!
//! A message line is JSON text; the reader that turns text into a [`JsonValue`]
//! stands outside the library.  The library reads the values through the
//! accessors below, which behave as the accessors of a JSON document model do:
//! a field of an object is found by name, and a scalar is read as a string,
//! integer, number or boolean when it is one, and as nothing otherwise.
use vstd::prelude::*;
use crate::floatbits::spec_is_nan;
use crate::text::str_eq;

verus! {

/// A JSON number as the library reads it.
pub struct JsonNumber {
    /// The value as a 64-bit signed integer, when it is an integer in that range.
    pub int: Option<i64>,
    /// The bit pattern of the value as a binary64 floating-point number.
    pub bits: u64,
    /// The binary64 value times one hundred, rounded half away from zero and
    /// saturated to the `i64` range: the integer that runner keys are made of.
    pub hundredths: i64,
}

/// A JSON value.  An object keeps its members in order; a name is looked up by
/// its first occurrence.
pub enum JsonValue {
    Null,
    Bool(bool),
    Number(JsonNumber),
    Str(String),
    Array(Vec<JsonValue>),
    Object(Vec<(String, JsonValue)>),
}

/// The index of the first member called `key`, if there is one.
pub open spec fn first_index(entries: Seq<(String, JsonValue)>, key: Seq<char>) -> Option<int> {
    if exists|i: int| 0 <= i < entries.len() && entries[i].0@ == key {
        Some(
            choose|i: int|
                0 <= i < entries.len() && entries[i].0@ == key && forall|j: int|
                    0 <= j < i ==> entries[j].0@ != key,
        )
    } else {
        None
    }
}

/// When the member at `i` is the first called `key`, `first_index` finds it.
pub proof fn lemma_first_index(entries: Seq<(String, JsonValue)>, key: Seq<char>, i: int)
    requires
        0 <= i < entries.len(),
        entries[i].0@ == key,
        forall|j: int| 0 <= j < i ==> entries[j].0@ != key,
    ensures
        first_index(entries, key) == Some(i),
{
    let k = choose|k: int|
        0 <= k < entries.len() && entries[k].0@ == key && forall|j: int|
            0 <= j < k ==> entries[j].0@ != key;
    assert(0 <= k < entries.len() && entries[k].0@ == key && forall|j: int|
        0 <= j < k ==> entries[j].0@ != key);
    if k < i {
        assert(entries[k].0@ != key);
    }
    if i < k {
        assert(entries[i].0@ != key);
    }
}

/// `first_index` finds the first member called `key` whenever there is one.
pub proof fn lemma_first_index_found(entries: Seq<(String, JsonValue)>, key: Seq<char>)
    ensures
        first_index(entries, key) matches Some(i) ==> 0 <= i < entries.len() && entries[i].0@
            == key && forall|j: int| 0 <= j < i ==> entries[j].0@ != key,
    decreases entries.len(),
{
    if exists|i: int| 0 <= i < entries.len() && entries[i].0@ == key {
        let init = entries.drop_last();
        lemma_first_index_found(init, key);
        if exists|i: int| 0 <= i < init.len() && init[i].0@ == key {
            let j = first_index(init, key).unwrap();
            assert(entries[j] == init[j]);
            assert forall|k: int| 0 <= k < j implies entries[k].0@ != key by {
                assert(entries[k] == init[k]);
            }
            lemma_first_index(entries, key, j);
        } else {
            let j = entries.len() - 1;
            assert forall|k: int| 0 <= k < j implies entries[k].0@ != key by {
                assert(entries[k] == init[k]);
            }
            lemma_first_index(entries, key, j);
        }
    }
}

impl JsonValue {
    /// No number anywhere in the value is a NaN.  JSON text has no way to
    /// write a NaN, so this holds of every value read from it.
    pub open spec fn nan_free(self) -> bool
        decreases self,
    {
        match self {
            JsonValue::Number(n) => !spec_is_nan(n.bits),
            JsonValue::Array(v) => forall|i: int|
                0 <= i < v@.len() ==> (#[trigger] v@[i]).nan_free(),
            JsonValue::Object(entries) => forall|i: int|
                0 <= i < entries@.len() ==> (#[trigger] entries@[i]).1.nan_free(),
            _ => true,
        }
    }

    /// The members and elements of a value read from JSON text are
    /// NaN-free too.
    pub proof fn lemma_nan_free_parts(self, key: Seq<char>)
        requires
            self.nan_free(),
        ensures
            self.field(key) matches Some(v) ==> v.nan_free(),
            self.field_array(key) matches Some(us) ==> forall|i: int|
                0 <= i < us.len() ==> (#[trigger] us[i]).nan_free(),
            self.array_value() matches Some(us) ==> forall|i: int|
                0 <= i < us.len() ==> (#[trigger] us[i]).nan_free(),
    {
        if let Some(v) = self.field(key) {
            if let JsonValue::Object(entries) = self {
                lemma_first_index_found(entries@, key);
                let i = first_index(entries@, key).unwrap();
                assert(entries@[i].1.nan_free());
            }
            assert(v.nan_free());
            if let JsonValue::Array(w) = v {
                assert forall|i: int| 0 <= i < w@.len() implies (#[trigger] w@[i]).nan_free() by {}
            }
        }
    }

    /// The member called `key` of an object; nothing for other values.
    pub open spec fn field(self, key: Seq<char>) -> Option<JsonValue> {
        match self {
            JsonValue::Object(entries) => match first_index(entries@, key) {
                Some(i) => Some(entries@[i].1),
                None => None,
            },
            _ => None,
        }
    }

    /// The value as a string, when it is one.
    pub open spec fn str_value(self) -> Option<Seq<char>> {
        match self {
            JsonValue::Str(s) => Some(s@),
            _ => None,
        }
    }

    /// The value as a 64-bit integer, when it is an integer in that range.
    pub open spec fn i64_value(self) -> Option<i64> {
        match self {
            JsonValue::Number(n) => n.int,
            _ => None,
        }
    }

    /// The value as a binary64 number (its bit pattern), when it is a number.
    pub open spec fn f64_value(self) -> Option<u64> {
        match self {
            JsonValue::Number(n) => Some(n.bits),
            _ => None,
        }
    }

    /// The value times one hundred, rounded, when it is a number.
    pub open spec fn hundredths_value(self) -> Option<i64> {
        match self {
            JsonValue::Number(n) => Some(n.hundredths),
            _ => None,
        }
    }

    /// The value as a boolean, when it is one.
    pub open spec fn bool_value(self) -> Option<bool> {
        match self {
            JsonValue::Bool(b) => Some(b),
            _ => None,
        }
    }

    /// The elements of an array.
    pub open spec fn array_value(self) -> Option<Seq<JsonValue>> {
        match self {
            JsonValue::Array(v) => Some(v@),
            _ => None,
        }
    }

    /// Looks up the member called `key` of an object.
    pub fn get(&self, key: &str) -> (r: Option<&JsonValue>)
        ensures
            match r {
                Some(v) => self.field(key@) == Some(*v),
                None => self.field(key@) is None,
            },
    {
        match self {
            JsonValue::Object(entries) => {
                let n = entries.len();
                let mut i: usize = 0;
                while i < n
                    invariant
                        n == entries@.len(),
                        *self == JsonValue::Object(*entries),
                        i <= n,
                        forall|j: int| 0 <= j < i ==> entries@[j].0@ != key@,
                    decreases n - i,
                {
                    if str_eq(entries[i].0.as_str(), key) {
                        proof {
                            lemma_first_index(entries@, key@, i as int);
                        }
                        return Some(&entries[i].1);
                    }
                    i = i + 1;
                }
                None
            },
            _ => None,
        }
    }

    /// The value as a string slice, when it is a string.
    pub fn as_str(&self) -> (r: Option<&str>)
        ensures
            match r {
                Some(s) => self.str_value() == Some(s@),
                None => self.str_value() is None,
            },
    {
        match self {
            JsonValue::Str(s) => Some(s.as_str()),
            _ => None,
        }
    }

    /// The value as a 64-bit integer, when it is an integer in that range.
    pub fn as_i64(&self) -> (r: Option<i64>)
        ensures
            r == self.i64_value(),
    {
        match self {
            JsonValue::Number(n) => n.int,
            _ => None,
        }
    }

    /// The value as a binary64 bit pattern, when it is a number.
    pub fn as_f64(&self) -> (r: Option<u64>)
        ensures
            r == self.f64_value(),
    {
        match self {
            JsonValue::Number(n) => Some(n.bits),
            _ => None,
        }
    }

    /// The value times one hundred, rounded, when it is a number.
    pub fn as_hundredths(&self) -> (r: Option<i64>)
        ensures
            r == self.hundredths_value(),
    {
        match self {
            JsonValue::Number(n) => Some(n.hundredths),
            _ => None,
        }
    }

    /// The value as a boolean, when it is one.
    pub fn as_bool(&self) -> (r: Option<bool>)
        ensures
            r == self.bool_value(),
    {
        match self {
            JsonValue::Bool(b) => Some(*b),
            _ => None,
        }
    }

    /// The elements of an array, when the value is one.
    pub fn as_array(&self) -> (r: Option<&Vec<JsonValue>>)
        ensures
            match r {
                Some(v) => self.array_value() == Some(v@),
                None => self.array_value() is None,
            },
    {
        match self {
            JsonValue::Array(v) => Some(v),
            _ => None,
        }
    }
}

impl JsonValue {
    /// The member `key`, read as a string.
    pub open spec fn field_str(self, key: Seq<char>) -> Option<Seq<char>> {
        match self.field(key) {
            Some(v) => v.str_value(),
            None => None,
        }
    }

    /// The member `key`, read as a 64-bit integer.
    pub open spec fn field_i64(self, key: Seq<char>) -> Option<i64> {
        match self.field(key) {
            Some(v) => v.i64_value(),
            None => None,
        }
    }

    /// The member `key`, read as a binary64 bit pattern.
    pub open spec fn field_f64(self, key: Seq<char>) -> Option<u64> {
        match self.field(key) {
            Some(v) => v.f64_value(),
            None => None,
        }
    }

    /// The member `key`, read as a number times one hundred, rounded.
    pub open spec fn field_hundredths(self, key: Seq<char>) -> Option<i64> {
        match self.field(key) {
            Some(v) => v.hundredths_value(),
            None => None,
        }
    }

    /// The member `key`, read as a boolean.
    pub open spec fn field_bool(self, key: Seq<char>) -> Option<bool> {
        match self.field(key) {
            Some(v) => v.bool_value(),
            None => None,
        }
    }

    /// The member `key`, read as an array.
    pub open spec fn field_array(self, key: Seq<char>) -> Option<Seq<JsonValue>> {
        match self.field(key) {
            Some(v) => v.array_value(),
            None => None,
        }
    }

    /// The member `key` as a string slice, when it is a string.
    pub fn get_str(&self, key: &str) -> (r: Option<&str>)
        ensures
            match r {
                Some(s) => self.field_str(key@) == Some(s@),
                None => self.field_str(key@) is None,
            },
    {
        match self.get(key) {
            Some(v) => v.as_str(),
            None => None,
        }
    }

    /// The member `key` as a 64-bit integer.
    pub fn get_i64(&self, key: &str) -> (r: Option<i64>)
        ensures
            r == self.field_i64(key@),
    {
        match self.get(key) {
            Some(v) => v.as_i64(),
            None => None,
        }
    }

    /// The member `key` as a binary64 bit pattern.
    pub fn get_f64(&self, key: &str) -> (r: Option<u64>)
        ensures
            r == self.field_f64(key@),
    {
        match self.get(key) {
            Some(v) => v.as_f64(),
            None => None,
        }
    }

    /// The member `key` as a number times one hundred, rounded.
    pub fn get_hundredths(&self, key: &str) -> (r: Option<i64>)
        ensures
            r == self.field_hundredths(key@),
    {
        match self.get(key) {
            Some(v) => v.as_hundredths(),
            None => None,
        }
    }

    /// The member `key` as a boolean.
    pub fn get_bool(&self, key: &str) -> (r: Option<bool>)
        ensures
            r == self.field_bool(key@),
    {
        match self.get(key) {
            Some(v) => v.as_bool(),
            None => None,
        }
    }

    /// The member `key` as an array.
    pub fn get_array(&self, key: &str) -> (r: Option<&Vec<JsonValue>>)
        ensures
            match r {
                Some(v) => self.field_array(key@) == Some(v@),
                None => self.field_array(key@) is None,
            },
    {
        match self.get(key) {
            Some(v) => v.as_array(),
            None => None,
        }
    }
}

impl JsonValue {
    /// Takes the member called `key` out of an object, consuming it.
    pub fn take_field(self, key: &str) -> (r: Option<JsonValue>)
        ensures
            r == self.field(key@),
    {
        match self {
            JsonValue::Object(mut entries) => {
                let ghost e0 = entries@;
                let n = entries.len();
                let mut i: usize = 0;
                while i < n
                    invariant
                        n == entries@.len(),
                        entries@ == e0,
                        self == JsonValue::Object(entries),
                        i <= n,
                        forall|j: int| 0 <= j < i ==> e0[j].0@ != key@,
                    decreases n - i,
                {
                    if str_eq(entries[i].0.as_str(), key) {
                        proof {
                            lemma_first_index(e0, key@, i as int);
                        }
                        let (_, v) = entries.remove(i);
                        return Some(v);
                    }
                    i = i + 1;
                }
                None
            },
            _ => None,
        }
    }
}

} // verus!
