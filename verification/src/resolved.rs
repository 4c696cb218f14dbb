//! The resolved configuration and its typed accessors.

use crate::entries::{entries_map, keys_distinct, lemma_entries_map_concat, lookup};
use crate::error::CfgError;
use config::Value;
use vstd::prelude::*;

verus! {

/// A configuration after all layers have been merged. It is never changed
/// afterwards: every method reads.
#[derive(Debug)]
pub struct ResolvedConfig {
    entries: Vec<(String, Value)>,
}

impl View for ResolvedConfig {
    type V = Map<Seq<char>, Value>;

    /// The value that each key resolves to.
    closed spec fn view(&self) -> Map<Seq<char>, Value> {
        entries_map(self.entries@)
    }
}

/// What `config::Value::into_string` makes of a value, where it succeeds.
pub uninterp spec fn string_of(value: Value) -> Option<Seq<char>>;

/// What `config::Value::into_int` makes of a value, where it succeeds.
pub uninterp spec fn int_of(value: Value) -> Option<i64>;

/// What `config::Value::into_bool` makes of a value, where it succeeds.
pub uninterp spec fn bool_of(value: Value) -> Option<bool>;

/// What `config::Value::into_table` makes of a value, where it succeeds.
pub uninterp spec fn table_of(value: Value) -> Option<Map<Seq<char>, Value>>;

/// What `config::Value::into_array` makes of a value, where it succeeds.
pub uninterp spec fn array_of(value: Value) -> Option<Seq<Value>>;

/// Calls `Clone::clone` of `config::Value`: the copy is the same value.
#[verifier::external_body]
pub(crate) fn clone_value(value: &Value) -> (r: Value)
    ensures
        r == *value,
{
    value.clone()
}

/// Calls `config::Value::into_string` on a copy of the value. The conversion
/// depends on the value alone; a failure is handed back as its message.
#[verifier::external_body]
pub(crate) fn value_to_string(value: &Value) -> (r: Result<String, String>)
    ensures
        r is Ok <==> string_of(*value) is Some,
        r is Ok ==> r.unwrap()@ == string_of(*value).unwrap(),
{
    value.clone().into_string().map_err(|e| e.to_string())
}

/// Calls `config::Value::into_int` on a copy of the value. The conversion
/// depends on the value alone; a failure is handed back as its message.
#[verifier::external_body]
pub(crate) fn value_to_int(value: &Value) -> (r: Result<i64, String>)
    ensures
        r is Ok <==> int_of(*value) is Some,
        r is Ok ==> r.unwrap() == int_of(*value).unwrap(),
{
    value.clone().into_int().map_err(|e| e.to_string())
}

/// Calls `config::Value::into_bool` on a copy of the value. The conversion
/// depends on the value alone; a failure is handed back as its message.
#[verifier::external_body]
pub(crate) fn value_to_bool(value: &Value) -> (r: Result<bool, String>)
    ensures
        r is Ok <==> bool_of(*value) is Some,
        r is Ok ==> r.unwrap() == bool_of(*value).unwrap(),
{
    value.clone().into_bool().map_err(|e| e.to_string())
}

/// Calls `config::Value::into_table` on a copy of the value. The table has
/// each key once and is handed back as a list in no particular order; a
/// failure is handed back as its message.
#[verifier::external_body]
pub(crate) fn value_to_table(value: &Value) -> (r: Result<Vec<(String, Value)>, String>)
    ensures
        r is Ok <==> table_of(*value) is Some,
        r is Ok ==> keys_distinct(r.unwrap()@),
        r is Ok ==> entries_map(r.unwrap()@) == table_of(*value).unwrap(),
{
    match value.clone().into_table() {
        Ok(table) => Ok(table.into_iter().collect()),
        Err(e) => Err(e.to_string()),
    }
}

/// Calls `config::Value::into_array` on a copy of the value. The items keep
/// their order; a failure is handed back as its message.
#[verifier::external_body]
pub(crate) fn value_to_array(value: &Value) -> (r: Result<Vec<Value>, String>)
    ensures
        r is Ok <==> array_of(*value) is Some,
        r is Ok ==> r.unwrap()@ == array_of(*value).unwrap(),
{
    value.clone().into_array().map_err(|e| e.to_string())
}

/// Turns the outcome of a conversion into the accessor's result: the
/// converted value, or a type mismatch that names the key.
pub fn typed<T>(key: &str, converted: Result<T, String>) -> (r: Result<T, CfgError>)
    ensures
        match converted {
            Ok(v) => r == Ok::<T, CfgError>(v),
            Err(message) => r matches Err(CfgError::TypeMismatch { key: k, message: m }) && k@
                == key@ && m == message,
        },
{
    match converted {
        Ok(v) => Ok(v),
        Err(message) => Err(CfgError::TypeMismatch { key: key.to_owned(), message }),
    }
}

impl ResolvedConfig {
    /// A configuration from a list of entries, applied in order: where a key
    /// occurs more than once its last entry counts.
    pub fn from_entries(entries: Vec<(String, Value)>) -> (r: ResolvedConfig)
        ensures
            r@ == entries_map(entries@),
    {
        ResolvedConfig { entries }
    }

    /// No key is defined.
    pub fn is_empty(&self) -> (r: bool)
        ensures
            r <==> self@ == Map::<Seq<char>, Value>::empty(),
    {
        let r = self.entries.len() == 0;
        proof {
            if !r {
                assert(self@.dom().contains(self.entries@.last().0@));
            }
        }
        r
    }

    /// Whether some layer defines the key.
    pub fn contains_key(&self, key: &str) -> (r: bool)
        ensures
            r == self@.dom().contains(key@),
    {
        lookup(&self.entries, key).is_some()
    }

    /// The raw value under a key.
    pub fn get(&self, key: &str) -> (r: Result<&Value, CfgError>)
        ensures
            match r {
                Ok(v) => self@.dom().contains(key@) && *v == self@[key@],
                Err(e) => !self@.dom().contains(key@) && (e matches CfgError::KeyNotFound { key: k }
                    && k@ == key@),
            },
    {
        match lookup(&self.entries, key) {
            Some(v) => Ok(v),
            None => Err(CfgError::KeyNotFound { key: key.to_owned() }),
        }
    }

    /// The value under a key, read as text.
    pub fn get_string(&self, key: &str) -> (r: Result<String, CfgError>)
        ensures
            match r {
                Ok(v) => self@.dom().contains(key@) && string_of(self@[key@]) == Some(v@),
                Err(CfgError::KeyNotFound { key: k }) => !self@.dom().contains(key@) && k@ == key@,
                Err(CfgError::TypeMismatch { key: k, .. }) => self@.dom().contains(key@) && string_of(
                    self@[key@],
                ) is None && k@ == key@,
                Err(_) => false,
            },
    {
        match self.get(key) {
            Ok(v) => typed(key, value_to_string(v)),
            Err(e) => Err(e),
        }
    }

    /// The value under a key, read as an integer.
    pub fn get_int(&self, key: &str) -> (r: Result<i64, CfgError>)
        ensures
            match r {
                Ok(v) => self@.dom().contains(key@) && int_of(self@[key@]) == Some(v),
                Err(CfgError::KeyNotFound { key: k }) => !self@.dom().contains(key@) && k@ == key@,
                Err(CfgError::TypeMismatch { key: k, .. }) => self@.dom().contains(key@) && int_of(
                    self@[key@],
                ) is None && k@ == key@,
                Err(_) => false,
            },
    {
        match self.get(key) {
            Ok(v) => typed(key, value_to_int(v)),
            Err(e) => Err(e),
        }
    }

    /// The value under a key, read as a truth value.
    pub fn get_bool(&self, key: &str) -> (r: Result<bool, CfgError>)
        ensures
            match r {
                Ok(v) => self@.dom().contains(key@) && bool_of(self@[key@]) == Some(v),
                Err(CfgError::KeyNotFound { key: k }) => !self@.dom().contains(key@) && k@ == key@,
                Err(CfgError::TypeMismatch { key: k, .. }) => self@.dom().contains(key@) && bool_of(
                    self@[key@],
                ) is None && k@ == key@,
                Err(_) => false,
            },
    {
        match self.get(key) {
            Ok(v) => typed(key, value_to_bool(v)),
            Err(e) => Err(e),
        }
    }

    /// The value under a key, read as a table: its keys with their values,
    /// each key once, in no particular order.
    pub fn get_table(&self, key: &str) -> (r: Result<Vec<(String, Value)>, CfgError>)
        ensures
            match r {
                Ok(v) => self@.dom().contains(key@) && keys_distinct(v@) && table_of(self@[key@]) == Some(entries_map(v@)),
                Err(CfgError::KeyNotFound { key: k }) => !self@.dom().contains(key@) && k@ == key@,
                Err(CfgError::TypeMismatch { key: k, .. }) => self@.dom().contains(key@) && table_of(
                    self@[key@],
                ) is None && k@ == key@,
                Err(_) => false,
            },
    {
        match self.get(key) {
            Ok(v) => typed(key, value_to_table(v)),
            Err(e) => Err(e),
        }
    }

    /// The value under a key, read as a list of values.
    pub fn get_array(&self, key: &str) -> (r: Result<Vec<Value>, CfgError>)
        ensures
            match r {
                Ok(v) => self@.dom().contains(key@) && array_of(self@[key@]) == Some(v@),
                Err(CfgError::KeyNotFound { key: k }) => !self@.dom().contains(key@) && k@ == key@,
                Err(CfgError::TypeMismatch { key: k, .. }) => self@.dom().contains(key@) && array_of(
                    self@[key@],
                ) is None && k@ == key@,
                Err(_) => false,
            },
    {
        match self.get(key) {
            Ok(v) => typed(key, value_to_array(v)),
            Err(e) => Err(e),
        }
    }

    /// A copy of the entries of `self` followed by those of `upper`.
    pub fn overlaid(&self, upper: &ResolvedConfig) -> (r: ResolvedConfig)
        ensures
            r@ == self@.union_prefer_right(upper@),
    {
        let mut entries: Vec<(String, Value)> = Vec::new();
        let mut i: usize = 0;
        while i < self.entries.len()
            invariant
                i <= self.entries.len(),
                entries@ == self.entries@.take(i as int),
            decreases self.entries.len() - i,
        {
            entries.push((self.entries[i].0.clone(), clone_value(&self.entries[i].1)));
            i = i + 1;
            assert(self.entries@.take(i as int) =~= self.entries@.take(i - 1).push(
                self.entries@[i - 1],
            ));
        }
        assert(self.entries@.take(i as int) =~= self.entries@);
        let mut k: usize = 0;
        while k < upper.entries.len()
            invariant
                k <= upper.entries.len(),
                entries@ == self.entries@ + upper.entries@.take(k as int),
            decreases upper.entries.len() - k,
        {
            entries.push((upper.entries[k].0.clone(), clone_value(&upper.entries[k].1)));
            k = k + 1;
            assert(upper.entries@.take(k as int) =~= upper.entries@.take(k - 1).push(
                upper.entries@[k - 1],
            ));
        }
        assert(upper.entries@.take(k as int) =~= upper.entries@);
        proof {
            lemma_entries_map_concat(self.entries@, upper.entries@);
        }
        ResolvedConfig { entries }
    }
}

} // verus!
