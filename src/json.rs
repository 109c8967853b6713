//! A structured document as read from an interface description file.
use vstd::prelude::*;

verus! {

/// A structured value. Numbers are kept where they are non-negative integers
/// that fit in 64 bits, the only ones that are read.
#[derive(Debug)]
pub enum JsonValue {
    Null,
    Bool(bool),
    /// A non-negative integer.
    Number(u64),
    /// Any other number.
    OtherNumber,
    Str(String),
    Array(Vec<JsonValue>),
    /// Key-value entries; keys are distinct.
    Object(Vec<(String, JsonValue)>),
}

/// The index of the first entry with key `key`.
pub open spec fn entry_index(entries: Seq<(String, JsonValue)>, key: Seq<char>) -> Option<int>
    decreases entries.len(),
{
    if entries.len() == 0 {
        None
    } else {
        match entry_index(entries.drop_last(), key) {
            Some(i) => Some(i),
            None => if entries.last().0@ == key {
                Some(entries.len() - 1)
            } else {
                None
            },
        }
    }
}

/// The first entry with a key is within the entries and holds that key.
pub proof fn lemma_entry_index_bound(entries: Seq<(String, JsonValue)>, key: Seq<char>)
    ensures
        entry_index(entries, key) matches Some(i) ==> 0 <= i < entries.len() && entries[i].0@
            == key,
    decreases entries.len(),
{
    if entries.len() > 0 {
        lemma_entry_index_bound(entries.drop_last(), key);
    }
}

impl JsonValue {
    /// The value under `key` of an object; none where the key is absent or
    /// the value is not an object.
    pub open spec fn field(self, key: Seq<char>) -> Option<JsonValue> {
        match self {
            JsonValue::Object(entries) => match entry_index(entries@, key) {
                Some(i) => Some(entries@[i].1),
                None => None,
            },
            _ => None,
        }
    }

    /// The value under `key`, as [`JsonValue::field`].
    pub fn get(&self, key: &str) -> (r: Option<&JsonValue>)
        ensures
            match r {
                Some(v) => self.field(key@) == Some(*v),
                None => self.field(key@) is None,
            },
    {
        match self {
            JsonValue::Object(entries) => {
                let k = String::from_str(key);
                let mut i: usize = 0;
                while i < entries.len()
                    invariant
                        0 <= i <= entries@.len(),
                        k@ == key@,
                        *self == JsonValue::Object(*entries),
                        entry_index(entries@.take(i as int), key@) is None,
                    decreases entries.len() - i,
                {
                    assert(entries@.take(i as int + 1).drop_last() =~= entries@.take(i as int));
                    if entries[i].0 == k {
                        assert(entry_index(entries@.take(i as int + 1), key@) == Some(i as int));
                        proof { lemma_entry_index_prefix(entries@, key@, i as int + 1); }
                        return Some(&entries[i].1);
                    }
                    i = i + 1;
                }
                assert(entries@.take(i as int) =~= entries@);
                None
            },
            _ => None,
        }
    }
}

proof fn lemma_entry_index_prefix(entries: Seq<(String, JsonValue)>, key: Seq<char>, k: int)
    requires
        0 <= k <= entries.len(),
        entry_index(entries.take(k), key) is Some,
    ensures
        entry_index(entries, key) == entry_index(entries.take(k), key),
    decreases entries.len() - k,
{
    if k < entries.len() {
        assert(entries.take(k + 1).drop_last() =~= entries.take(k));
        lemma_entry_index_prefix(entries, key, k + 1);
    } else {
        assert(entries.take(k) =~= entries);
    }
}

/// The text of a value that is a string.
pub open spec fn text_of(v: Option<JsonValue>) -> Option<Seq<char>> {
    match v {
        Some(JsonValue::Str(s)) => Some(s@),
        _ => None,
    }
}

/// The flag of a value that is a boolean.
pub open spec fn bool_of(v: Option<JsonValue>) -> Option<bool> {
    match v {
        Some(JsonValue::Bool(b)) => Some(b),
        _ => None,
    }
}

/// The elements of a value that is an array.
pub open spec fn items_of(v: Option<JsonValue>) -> Option<Seq<JsonValue>> {
    match v {
        Some(JsonValue::Array(items)) => Some(items@),
        _ => None,
    }
}

/// `v[key]`, where `v` may be absent.
pub open spec fn field_of(v: Option<JsonValue>, key: Seq<char>) -> Option<JsonValue> {
    match v {
        Some(x) => x.field(key),
        None => None,
    }
}

/// The value under `key` of `v`, where `v` may be absent.
pub fn get_in<'a>(v: Option<&'a JsonValue>, key: &str) -> (r: Option<&'a JsonValue>)
    ensures
        match r {
            Some(x) => field_of(opt_value(v), key@) == Some(*x),
            None => field_of(opt_value(v), key@) is None,
        },
{
    match v {
        Some(x) => x.get(key),
        None => None,
    }
}

/// The value that an optional reference points to.
pub open spec fn opt_value(v: Option<&JsonValue>) -> Option<JsonValue> {
    match v {
        Some(x) => Some(*x),
        None => None,
    }
}

} // verus!
