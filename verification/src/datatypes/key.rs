//! Attribute keys: the hashable, orderable subset of attribute values.
//!
//! A key carries exactly one scalar payload of a fixed width and signedness,
//! or a string.  Floating-point and null payloads are excluded, so every key
//! widens losslessly into an [`AttributeValue`] and narrowing back always
//! succeeds; narrowing a float or null value fails with a conversion error.

use vstd::prelude::*;

use crate::datatypes::value::{AttributeValue, AttributeValueView, HostObject, HostObjectView};
use crate::datatypes::{
    PyBoolean, PyInt128, PyInt16, PyInt32, PyInt64, PyInt8, PyString, PyUInt128, PyUInt16,
    PyUInt32, PyUInt64, PyUInt8, PyUsize,
};
use crate::errors::GraphError;

verus! {

/// A scalar usable as a node index or as an attribute-map key.
#[derive(Debug, PartialEq, Eq, Hash)]
pub enum AttributeKey {
    Boolean(bool),
    Int128(i128),
    Int16(i16),
    Int32(i32),
    Int64(i64),
    Int8(i8),
    Str(String),
    UInt128(u128),
    UInt16(u16),
    UInt32(u32),
    UInt64(u64),
    UInt8(u8),
    Usize(usize),
}

/// The mathematical value of an [`AttributeKey`]: the same tagged payload
/// with strings abstracted to character sequences.  Equality requires both
/// a matching tag and a matching payload, so a 32-bit and a 64-bit integer
/// holding the same number stay distinct.
pub enum AttributeKeyView {
    Boolean(bool),
    Int128(i128),
    Int16(i16),
    Int32(i32),
    Int64(i64),
    Int8(i8),
    Str(Seq<char>),
    UInt128(u128),
    UInt16(u16),
    UInt32(u32),
    UInt64(u64),
    UInt8(u8),
    Usize(usize),
}

impl View for AttributeKey {
    type V = AttributeKeyView;

    open spec fn view(&self) -> AttributeKeyView {
        match self {
            AttributeKey::Boolean(b) => AttributeKeyView::Boolean(*b),
            AttributeKey::Int128(n) => AttributeKeyView::Int128(*n),
            AttributeKey::Int16(n) => AttributeKeyView::Int16(*n),
            AttributeKey::Int32(n) => AttributeKeyView::Int32(*n),
            AttributeKey::Int64(n) => AttributeKeyView::Int64(*n),
            AttributeKey::Int8(n) => AttributeKeyView::Int8(*n),
            AttributeKey::Str(s) => AttributeKeyView::Str(s@),
            AttributeKey::UInt128(n) => AttributeKeyView::UInt128(*n),
            AttributeKey::UInt16(n) => AttributeKeyView::UInt16(*n),
            AttributeKey::UInt32(n) => AttributeKeyView::UInt32(*n),
            AttributeKey::UInt64(n) => AttributeKeyView::UInt64(*n),
            AttributeKey::UInt8(n) => AttributeKeyView::UInt8(*n),
            AttributeKey::Usize(n) => AttributeKeyView::Usize(*n),
        }
    }
}

impl Clone for AttributeKey {
    fn clone(&self) -> (res: Self)
        ensures
            res == *self,
    {
        match self {
            AttributeKey::Boolean(b) => AttributeKey::Boolean(*b),
            AttributeKey::Int128(n) => AttributeKey::Int128(*n),
            AttributeKey::Int16(n) => AttributeKey::Int16(*n),
            AttributeKey::Int32(n) => AttributeKey::Int32(*n),
            AttributeKey::Int64(n) => AttributeKey::Int64(*n),
            AttributeKey::Int8(n) => AttributeKey::Int8(*n),
            AttributeKey::Str(s) => AttributeKey::Str(s.clone()),
            AttributeKey::UInt128(n) => AttributeKey::UInt128(*n),
            AttributeKey::UInt16(n) => AttributeKey::UInt16(*n),
            AttributeKey::UInt32(n) => AttributeKey::UInt32(*n),
            AttributeKey::UInt64(n) => AttributeKey::UInt64(*n),
            AttributeKey::UInt8(n) => AttributeKey::UInt8(*n),
            AttributeKey::Usize(n) => AttributeKey::Usize(*n),
        }
    }
}

impl AttributeKey {
    /// Structural equality on (tag, payload), decided executably.
    pub fn key_eq(&self, other: &AttributeKey) -> (r: bool)
        ensures
            r == (self@ == other@),
    {
        match (self, other) {
            (AttributeKey::Boolean(a), AttributeKey::Boolean(b)) => *a == *b,
            (AttributeKey::Int128(a), AttributeKey::Int128(b)) => *a == *b,
            (AttributeKey::Int16(a), AttributeKey::Int16(b)) => *a == *b,
            (AttributeKey::Int32(a), AttributeKey::Int32(b)) => *a == *b,
            (AttributeKey::Int64(a), AttributeKey::Int64(b)) => *a == *b,
            (AttributeKey::Int8(a), AttributeKey::Int8(b)) => *a == *b,
            (AttributeKey::Str(a), AttributeKey::Str(b)) => *a == *b,
            (AttributeKey::UInt128(a), AttributeKey::UInt128(b)) => *a == *b,
            (AttributeKey::UInt16(a), AttributeKey::UInt16(b)) => *a == *b,
            (AttributeKey::UInt32(a), AttributeKey::UInt32(b)) => *a == *b,
            (AttributeKey::UInt64(a), AttributeKey::UInt64(b)) => *a == *b,
            (AttributeKey::UInt8(a), AttributeKey::UInt8(b)) => *a == *b,
            (AttributeKey::Usize(a), AttributeKey::Usize(b)) => *a == *b,
            _ => false,
        }
    }

    /// Widening into the attribute-value superset; always succeeds.
    pub fn into_value(self) -> (v: AttributeValue)
        ensures
            v@ == key_as_value(self@),
    {
        match self {
            AttributeKey::Boolean(b) => AttributeValue::Boolean(b),
            AttributeKey::Int128(n) => AttributeValue::Int128(n),
            AttributeKey::Int16(n) => AttributeValue::Int16(n),
            AttributeKey::Int32(n) => AttributeValue::Int32(n),
            AttributeKey::Int64(n) => AttributeValue::Int64(n),
            AttributeKey::Int8(n) => AttributeValue::Int8(n),
            AttributeKey::Str(s) => AttributeValue::Str(s),
            AttributeKey::UInt128(n) => AttributeValue::UInt128(n),
            AttributeKey::UInt16(n) => AttributeValue::UInt16(n),
            AttributeKey::UInt32(n) => AttributeValue::UInt32(n),
            AttributeKey::UInt64(n) => AttributeValue::UInt64(n),
            AttributeKey::UInt8(n) => AttributeValue::UInt8(n),
            AttributeKey::Usize(n) => AttributeValue::Usize(n),
        }
    }

    /// Narrowing from an attribute value.  Succeeds for every boolean,
    /// integer and string payload; fails with a conversion error for
    /// floating-point and null payloads.
    pub fn try_from_value(value: AttributeValue) -> (r: Result<AttributeKey, GraphError>)
        ensures
            match r {
                Ok(k) => value_as_key(value@) == Some(k@),
                Err(e) => {
                    &&& value_as_key(value@) is None
                    &&& e matches GraphError::ConversionError(m)
                        && m@ == "Could not convert attribute value to attribute key"@
                },
            },
    {
        match value {
            AttributeValue::Boolean(b) => Ok(AttributeKey::Boolean(b)),
            AttributeValue::Int128(n) => Ok(AttributeKey::Int128(n)),
            AttributeValue::Int16(n) => Ok(AttributeKey::Int16(n)),
            AttributeValue::Int32(n) => Ok(AttributeKey::Int32(n)),
            AttributeValue::Int64(n) => Ok(AttributeKey::Int64(n)),
            AttributeValue::Int8(n) => Ok(AttributeKey::Int8(n)),
            AttributeValue::Str(s) => Ok(AttributeKey::Str(s)),
            AttributeValue::UInt128(n) => Ok(AttributeKey::UInt128(n)),
            AttributeValue::UInt16(n) => Ok(AttributeKey::UInt16(n)),
            AttributeValue::UInt32(n) => Ok(AttributeKey::UInt32(n)),
            AttributeValue::UInt64(n) => Ok(AttributeKey::UInt64(n)),
            AttributeValue::UInt8(n) => Ok(AttributeKey::UInt8(n)),
            AttributeValue::Usize(n) => Ok(AttributeKey::Usize(n)),
            AttributeValue::Float32(_) | AttributeValue::Float64(_) | AttributeValue::Null => Err(
                GraphError::ConversionError(
                    "Could not convert attribute value to attribute key".to_owned(),
                ),
            ),
        }
    }
}

/// What a key looks like when handed back to the host: an instance of its
/// explicit holder class.
pub open spec fn host_of_key(k: AttributeKeyView) -> HostObjectView {
    match k {
        AttributeKeyView::Boolean(b) => HostObjectView::Boolean(b),
        AttributeKeyView::Int128(n) => HostObjectView::Int128(n),
        AttributeKeyView::Int16(n) => HostObjectView::Int16(n),
        AttributeKeyView::Int32(n) => HostObjectView::Int32(n),
        AttributeKeyView::Int64(n) => HostObjectView::Int64(n),
        AttributeKeyView::Int8(n) => HostObjectView::Int8(n),
        AttributeKeyView::Str(s) => HostObjectView::Str(s),
        AttributeKeyView::UInt128(n) => HostObjectView::UInt128(n),
        AttributeKeyView::UInt16(n) => HostObjectView::UInt16(n),
        AttributeKeyView::UInt32(n) => HostObjectView::UInt32(n),
        AttributeKeyView::UInt64(n) => HostObjectView::UInt64(n),
        AttributeKeyView::UInt8(n) => HostObjectView::UInt8(n),
        AttributeKeyView::Usize(n) => HostObjectView::Usize(n),
    }
}

impl AttributeKey {
    /// Converts back to the foreign representation.
    pub fn into_host(self) -> (h: HostObject)
        ensures
            h@ == host_of_key(self@),
    {
        match self {
            AttributeKey::Boolean(b) => HostObject::Boolean(PyBoolean::new(b)),
            AttributeKey::Int128(n) => HostObject::Int128(PyInt128::new(n)),
            AttributeKey::Int16(n) => HostObject::Int16(PyInt16::new(n)),
            AttributeKey::Int32(n) => HostObject::Int32(PyInt32::new(n)),
            AttributeKey::Int64(n) => HostObject::Int64(PyInt64::new(n)),
            AttributeKey::Int8(n) => HostObject::Int8(PyInt8::new(n)),
            AttributeKey::Str(s) => HostObject::Str(PyString::new(s)),
            AttributeKey::UInt128(n) => HostObject::UInt128(PyUInt128::new(n)),
            AttributeKey::UInt16(n) => HostObject::UInt16(PyUInt16::new(n)),
            AttributeKey::UInt32(n) => HostObject::UInt32(PyUInt32::new(n)),
            AttributeKey::UInt64(n) => HostObject::UInt64(PyUInt64::new(n)),
            AttributeKey::UInt8(n) => HostObject::UInt8(PyUInt8::new(n)),
            AttributeKey::Usize(n) => HostObject::Usize(PyUsize::new(n)),
        }
    }
}

/// The value a key widens to.
pub open spec fn key_as_value(k: AttributeKeyView) -> AttributeValueView {
    match k {
        AttributeKeyView::Boolean(b) => AttributeValueView::Boolean(b),
        AttributeKeyView::Int128(n) => AttributeValueView::Int128(n),
        AttributeKeyView::Int16(n) => AttributeValueView::Int16(n),
        AttributeKeyView::Int32(n) => AttributeValueView::Int32(n),
        AttributeKeyView::Int64(n) => AttributeValueView::Int64(n),
        AttributeKeyView::Int8(n) => AttributeValueView::Int8(n),
        AttributeKeyView::Str(s) => AttributeValueView::Str(s),
        AttributeKeyView::UInt128(n) => AttributeValueView::UInt128(n),
        AttributeKeyView::UInt16(n) => AttributeValueView::UInt16(n),
        AttributeKeyView::UInt32(n) => AttributeValueView::UInt32(n),
        AttributeKeyView::UInt64(n) => AttributeValueView::UInt64(n),
        AttributeKeyView::UInt8(n) => AttributeValueView::UInt8(n),
        AttributeKeyView::Usize(n) => AttributeValueView::Usize(n),
    }
}

/// The key a value narrows to, if any: floats and null have none.
pub open spec fn value_as_key(v: AttributeValueView) -> Option<AttributeKeyView> {
    match v {
        AttributeValueView::Boolean(b) => Some(AttributeKeyView::Boolean(b)),
        AttributeValueView::Int128(n) => Some(AttributeKeyView::Int128(n)),
        AttributeValueView::Int16(n) => Some(AttributeKeyView::Int16(n)),
        AttributeValueView::Int32(n) => Some(AttributeKeyView::Int32(n)),
        AttributeValueView::Int64(n) => Some(AttributeKeyView::Int64(n)),
        AttributeValueView::Int8(n) => Some(AttributeKeyView::Int8(n)),
        AttributeValueView::Str(s) => Some(AttributeKeyView::Str(s)),
        AttributeValueView::UInt128(n) => Some(AttributeKeyView::UInt128(n)),
        AttributeValueView::UInt16(n) => Some(AttributeKeyView::UInt16(n)),
        AttributeValueView::UInt32(n) => Some(AttributeKeyView::UInt32(n)),
        AttributeValueView::UInt64(n) => Some(AttributeKeyView::UInt64(n)),
        AttributeValueView::UInt8(n) => Some(AttributeKeyView::UInt8(n)),
        AttributeValueView::Usize(n) => Some(AttributeKeyView::Usize(n)),
        AttributeValueView::Float32(_) => None,
        AttributeValueView::Float64(_) => None,
        AttributeValueView::Null => None,
    }
}

/// Widening a key and narrowing back yields the key unchanged.
pub proof fn lemma_key_value_round_trip(k: AttributeKeyView)
    ensures
        value_as_key(key_as_value(k)) == Some(k),
{
}

/// Narrowing a floating-point or null value to a key always fails.
pub proof fn lemma_float_and_null_never_narrow(v: AttributeValueView)
    requires
        v is Float32 || v is Float64 || v is Null,
    ensures
        value_as_key(v) is None,
{
}

} // verus!
