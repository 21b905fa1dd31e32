//! The append-only, in-memory log of logical mutations.
//!
//! Each record carries a monotonic logical timestamp (its append index), a
//! kind, a tagged key, and the current and previous values where the kind
//! calls for them.  The log is never reordered or truncated.

use vstd::prelude::*;
use vstd::std_specs::convert::IntoSpec;

verus! {

/// What a log record did to the dictionary.
#[derive(Debug, Clone, PartialEq, Eq)]
pub enum OperationKind {
    Insert,
    Update,
    Delete,
}

/// A logged value: numeric, string, boolean, a nested mapping (as a list of
/// key/value pairs), or an ordered sequence of values.
#[derive(Debug, PartialEq, Eq)]
pub enum OperationValue {
    NumericValue(i32),
    StringValue(String),
    BooleanValue(bool),
    MapValue(Vec<(OperationKey, OperationValue)>),
    VecValue(Vec<OperationValue>),
}

/// A logged key: numeric or string.
#[derive(Debug, Clone, PartialEq, Eq, Hash)]
pub enum OperationKey {
    NumericKey(i32),
    StringKey(String),
}

/// One record of the log.
#[derive(Debug)]
pub struct Operation {
    pub time: u64,
    pub kind: OperationKind,
    pub key: OperationKey,
    pub current_value: Option<OperationValue>,
    pub prev_value: Option<OperationValue>,
}

/// The operation log itself: an append-only vector of records whose `time`
/// stamps are their append indices.
#[derive(Debug)]
pub struct LogOperator {
    pub operations: Vec<Operation>,
}

impl OperationValue {
    /// Build a value from anything that converts into one.
    pub fn new<T: Into<Self>>(value: T) -> (r: Self)
        ensures
            <T as vstd::std_specs::convert::IntoSpec<Self>>::obeys_into_spec() ==> r
                == value.into_spec(),
    {
        value.into()
    }
}

impl From<i32> for OperationValue {
    fn from(value: i32) -> (r: Self) {
        OperationValue::NumericValue(value)
    }
}

impl vstd::std_specs::convert::FromSpecImpl<i32> for OperationValue {
    open spec fn obeys_from_spec() -> bool {
        true
    }

    open spec fn from_spec(v: i32) -> Self {
        OperationValue::NumericValue(v)
    }
}

impl From<bool> for OperationValue {
    fn from(value: bool) -> (r: Self) {
        OperationValue::BooleanValue(value)
    }
}

impl vstd::std_specs::convert::FromSpecImpl<bool> for OperationValue {
    open spec fn obeys_from_spec() -> bool {
        true
    }

    open spec fn from_spec(v: bool) -> Self {
        OperationValue::BooleanValue(v)
    }
}

impl From<String> for OperationValue {
    fn from(value: String) -> (r: Self) {
        OperationValue::StringValue(value)
    }
}

impl vstd::std_specs::convert::FromSpecImpl<String> for OperationValue {
    open spec fn obeys_from_spec() -> bool {
        true
    }

    open spec fn from_spec(v: String) -> Self {
        OperationValue::StringValue(v)
    }
}

impl From<&str> for OperationValue {
    fn from(value: &str) -> (r: Self)
        ensures
            r matches OperationValue::StringValue(s) && s@ == value@,
    {
        OperationValue::StringValue(String::from_str(value))
    }
}

impl vstd::std_specs::convert::FromSpecImpl<&str> for OperationValue {
    open spec fn obeys_from_spec() -> bool {
        false
    }

    open spec fn from_spec(v: &str) -> Self {
        arbitrary()
    }
}

impl From<Vec<OperationValue>> for OperationValue {
    fn from(value: Vec<OperationValue>) -> (r: Self) {
        OperationValue::VecValue(value)
    }
}

impl vstd::std_specs::convert::FromSpecImpl<Vec<OperationValue>> for OperationValue {
    open spec fn obeys_from_spec() -> bool {
        true
    }

    open spec fn from_spec(v: Vec<OperationValue>) -> Self {
        OperationValue::VecValue(v)
    }
}

impl From<Vec<(OperationKey, OperationValue)>> for OperationValue {
    fn from(value: Vec<(OperationKey, OperationValue)>) -> (r: Self) {
        OperationValue::MapValue(value)
    }
}

impl vstd::std_specs::convert::FromSpecImpl<Vec<(OperationKey, OperationValue)>> for OperationValue {
    open spec fn obeys_from_spec() -> bool {
        true
    }

    open spec fn from_spec(v: Vec<(OperationKey, OperationValue)>) -> Self {
        OperationValue::MapValue(v)
    }
}

impl OperationKey {
    /// Build a key from anything that converts into one.
    pub fn new<T: Into<Self>>(value: T) -> (r: Self)
        ensures
            <T as vstd::std_specs::convert::IntoSpec<Self>>::obeys_into_spec() ==> r
                == value.into_spec(),
    {
        value.into()
    }
}

impl From<i32> for OperationKey {
    fn from(value: i32) -> (r: Self) {
        OperationKey::NumericKey(value)
    }
}

impl vstd::std_specs::convert::FromSpecImpl<i32> for OperationKey {
    open spec fn obeys_from_spec() -> bool {
        true
    }

    open spec fn from_spec(v: i32) -> Self {
        OperationKey::NumericKey(v)
    }
}

impl From<String> for OperationKey {
    fn from(value: String) -> (r: Self) {
        OperationKey::StringKey(value)
    }
}

impl vstd::std_specs::convert::FromSpecImpl<String> for OperationKey {
    open spec fn obeys_from_spec() -> bool {
        true
    }

    open spec fn from_spec(v: String) -> Self {
        OperationKey::StringKey(v)
    }
}

impl<'a> From<&'a str> for OperationKey {
    fn from(value: &'a str) -> (r: Self)
        ensures
            r matches OperationKey::StringKey(s) && s@ == value@,
    {
        OperationKey::StringKey(String::from_str(value))
    }
}

impl<'a> vstd::std_specs::convert::FromSpecImpl<&'a str> for OperationKey {
    open spec fn obeys_from_spec() -> bool {
        false
    }

    open spec fn from_spec(v: &'a str) -> Self {
        arbitrary()
    }
}

impl LogOperator {
    /// A fresh, empty log.
    pub fn new() -> (r: Self)
        ensures
            r.operations@ == Seq::<Operation>::empty(),
    {
        Self { operations: Vec::new() }
    }

    /// Append an Insert record: the key was freshly bound to this value.
    pub fn insert(&mut self, key: OperationKey, current_value: OperationValue)
        ensures
            final(self).operations@ == old(self).operations@.push(
                (Operation {
                    time: old(self).operations@.len() as u64,
                    kind: OperationKind::Insert,
                    key: key,
                    current_value: Some(current_value),
                    prev_value: None,
                }),
            ),
    {
        let time = self.operations.len() as u64;
        self.operations.push(
            Operation {
                time,
                kind: OperationKind::Insert,
                key,
                current_value: Some(current_value),
                prev_value: None,
            },
        );
    }

    /// Append an Update record: the key was rebound, with the writer's
    /// observed prior value when it was known.
    pub fn update(
        &mut self,
        key: OperationKey,
        current_value: OperationValue,
        prev_value: Option<OperationValue>,
    )
        ensures
            final(self).operations@ == old(self).operations@.push(
                (Operation {
                    time: old(self).operations@.len() as u64,
                    kind: OperationKind::Update,
                    key: key,
                    current_value: Some(current_value),
                    prev_value: prev_value,
                }),
            ),
    {
        let time = self.operations.len() as u64;
        self.operations.push(
            Operation { time, kind: OperationKind::Update, key, current_value: Some(current_value), prev_value },
        );
    }

    /// Append a Delete record: the key was unbound.
    pub fn delete(&mut self, key: OperationKey)
        ensures
            final(self).operations@ == old(self).operations@.push(
                (Operation {
                    time: old(self).operations@.len() as u64,
                    kind: OperationKind::Delete,
                    key: key,
                    current_value: None,
                    prev_value: None,
                }),
            ),
    {
        let time = self.operations.len() as u64;
        self.operations.push(
            Operation {
                time,
                kind: OperationKind::Delete,
                key,
                current_value: None,
                prev_value: None,
            },
        );
    }
}

} // verus!
