//! Attribute values and the conversion layer from foreign host objects.
//!
//! An [`AttributeValue`] is a closed tagged union of scalar payloads.  The
//! floating-point variants carry their IEEE-754 bit patterns as unsigned
//! integers: equality is on (tag, payload), and the host boundary is the
//! only place the bits are reinterpreted as native floats.
//!
//! A [`HostObject`] models what the conversion layer reads of a foreign,
//! dynamically-typed value: its runtime-type identity and the scalar it
//! carries.  Conversion performs an ordered sequence of type checks on the
//! first encounter of a runtime-type identity, then caches the chosen
//! conversion function so that later values of the same type skip the
//! inspection entirely.

use vstd::prelude::*;
use vstd::string::StringExecFns;

use crate::datatypes::{
    PyBoolean, PyInt128, PyInt16, PyInt32, PyInt64, PyInt8, PyString, PyUInt128, PyUInt16,
    PyUInt32, PyUInt64, PyUInt8, PyUsize,
};
use crate::errors::GraphError;
use crate::gil_hash_map::GILHashMap;

verus! {

/// A scalar attribute payload: boolean, fixed-width integer, pointer-sized
/// integer, floating-point bit pattern, string, or null.
#[derive(Debug, PartialEq, Eq)]
pub enum AttributeValue {
    Boolean(bool),
    /// IEEE-754 single-precision bit pattern.
    Float32(u32),
    /// IEEE-754 double-precision bit pattern.
    Float64(u64),
    Int128(i128),
    Int16(i16),
    Int32(i32),
    Int64(i64),
    Int8(i8),
    Null,
    Str(String),
    UInt128(u128),
    UInt16(u16),
    UInt32(u32),
    UInt64(u64),
    UInt8(u8),
    Usize(usize),
}

/// The mathematical value of an [`AttributeValue`], with strings abstracted
/// to character sequences.
pub enum AttributeValueView {
    Boolean(bool),
    Float32(u32),
    Float64(u64),
    Int128(i128),
    Int16(i16),
    Int32(i32),
    Int64(i64),
    Int8(i8),
    Null,
    Str(Seq<char>),
    UInt128(u128),
    UInt16(u16),
    UInt32(u32),
    UInt64(u64),
    UInt8(u8),
    Usize(usize),
}

impl View for AttributeValue {
    type V = AttributeValueView;

    open spec fn view(&self) -> AttributeValueView {
        match self {
            AttributeValue::Boolean(b) => AttributeValueView::Boolean(*b),
            AttributeValue::Float32(bits) => AttributeValueView::Float32(*bits),
            AttributeValue::Float64(bits) => AttributeValueView::Float64(*bits),
            AttributeValue::Int128(n) => AttributeValueView::Int128(*n),
            AttributeValue::Int16(n) => AttributeValueView::Int16(*n),
            AttributeValue::Int32(n) => AttributeValueView::Int32(*n),
            AttributeValue::Int64(n) => AttributeValueView::Int64(*n),
            AttributeValue::Int8(n) => AttributeValueView::Int8(*n),
            AttributeValue::Null => AttributeValueView::Null,
            AttributeValue::Str(s) => AttributeValueView::Str(s@),
            AttributeValue::UInt128(n) => AttributeValueView::UInt128(*n),
            AttributeValue::UInt16(n) => AttributeValueView::UInt16(*n),
            AttributeValue::UInt32(n) => AttributeValueView::UInt32(*n),
            AttributeValue::UInt64(n) => AttributeValueView::UInt64(*n),
            AttributeValue::UInt8(n) => AttributeValueView::UInt8(*n),
            AttributeValue::Usize(n) => AttributeValueView::Usize(*n),
        }
    }
}

impl Clone for AttributeValue {
    fn clone(&self) -> (res: Self)
        ensures
            res == *self,
    {
        match self {
            AttributeValue::Boolean(b) => AttributeValue::Boolean(*b),
            AttributeValue::Float32(bits) => AttributeValue::Float32(*bits),
            AttributeValue::Float64(bits) => AttributeValue::Float64(*bits),
            AttributeValue::Int128(n) => AttributeValue::Int128(*n),
            AttributeValue::Int16(n) => AttributeValue::Int16(*n),
            AttributeValue::Int32(n) => AttributeValue::Int32(*n),
            AttributeValue::Int64(n) => AttributeValue::Int64(*n),
            AttributeValue::Int8(n) => AttributeValue::Int8(*n),
            AttributeValue::Null => AttributeValue::Null,
            AttributeValue::Str(s) => AttributeValue::Str(s.clone()),
            AttributeValue::UInt128(n) => AttributeValue::UInt128(*n),
            AttributeValue::UInt16(n) => AttributeValue::UInt16(*n),
            AttributeValue::UInt32(n) => AttributeValue::UInt32(*n),
            AttributeValue::UInt64(n) => AttributeValue::UInt64(*n),
            AttributeValue::UInt8(n) => AttributeValue::UInt8(*n),
            AttributeValue::Usize(n) => AttributeValue::Usize(*n),
        }
    }
}

/// What the boundary reads of a foreign value: either an instance of one of
/// the explicit holder classes, a value of one of the host's native scalar
/// kinds, the host's null, or a value of some unrecognised runtime type.
///
/// Floating-point payloads appear as IEEE-754 bit patterns.  An
/// unrecognised value carries its runtime-type identity and a textual
/// rendering of itself for the error message.
pub enum HostObject {
    Boolean(PyBoolean),
    /// An instance of the explicit single-precision holder, as bits.
    Float32(u32),
    /// An instance of the explicit double-precision holder, as bits.
    Float64(u64),
    Int128(PyInt128),
    Int16(PyInt16),
    Int32(PyInt32),
    Int64(PyInt64),
    Int8(PyInt8),
    Str(PyString),
    UInt128(PyUInt128),
    UInt16(PyUInt16),
    UInt32(PyUInt32),
    UInt64(PyUInt64),
    UInt8(PyUInt8),
    Usize(PyUsize),
    /// A value of the host's native boolean kind.
    NativeBool(bool),
    /// A value of the host's native integer kind, at its canonical width.
    NativeInt(i64),
    /// A value of the host's native string kind.
    NativeStr(String),
    /// A value of the host's native float kind, as double-precision bits.
    NativeFloat(u64),
    /// The host's null representation.
    Null,
    /// A value of a runtime type outside the recognised kinds.
    Unknown { type_identity: u64, rendering: String },
}

/// The mathematical value of a [`HostObject`].
pub enum HostObjectView {
    Boolean(bool),
    Float32(u32),
    Float64(u64),
    Int128(i128),
    Int16(i16),
    Int32(i32),
    Int64(i64),
    Int8(i8),
    Str(Seq<char>),
    UInt128(u128),
    UInt16(u16),
    UInt32(u32),
    UInt64(u64),
    UInt8(u8),
    Usize(usize),
    NativeBool(bool),
    NativeInt(i64),
    NativeStr(Seq<char>),
    NativeFloat(u64),
    Null,
    Unknown { type_identity: u64, rendering: Seq<char> },
}

impl View for HostObject {
    type V = HostObjectView;

    open spec fn view(&self) -> HostObjectView {
        match self {
            HostObject::Boolean(p) => HostObjectView::Boolean(p@),
            HostObject::Float32(bits) => HostObjectView::Float32(*bits),
            HostObject::Float64(bits) => HostObjectView::Float64(*bits),
            HostObject::Int128(p) => HostObjectView::Int128(p@),
            HostObject::Int16(p) => HostObjectView::Int16(p@),
            HostObject::Int32(p) => HostObjectView::Int32(p@),
            HostObject::Int64(p) => HostObjectView::Int64(p@),
            HostObject::Int8(p) => HostObjectView::Int8(p@),
            HostObject::Str(p) => HostObjectView::Str(p@),
            HostObject::UInt128(p) => HostObjectView::UInt128(p@),
            HostObject::UInt16(p) => HostObjectView::UInt16(p@),
            HostObject::UInt32(p) => HostObjectView::UInt32(p@),
            HostObject::UInt64(p) => HostObjectView::UInt64(p@),
            HostObject::UInt8(p) => HostObjectView::UInt8(p@),
            HostObject::Usize(p) => HostObjectView::Usize(p@),
            HostObject::NativeBool(b) => HostObjectView::NativeBool(*b),
            HostObject::NativeInt(n) => HostObjectView::NativeInt(*n),
            HostObject::NativeStr(s) => HostObjectView::NativeStr(s@),
            HostObject::NativeFloat(bits) => HostObjectView::NativeFloat(*bits),
            HostObject::Null => HostObjectView::Null,
            HostObject::Unknown { type_identity, rendering } => HostObjectView::Unknown {
                type_identity: *type_identity,
                rendering: rendering@,
            },
        }
    }
}

/// Runtime-type identities of the recognised kinds are small reserved
/// codes; every unrecognised runtime type must identify itself with a code
/// at or above this bound.
pub const FIRST_FOREIGN_TYPE_IDENTITY: u64 = 32;

/// The runtime-type identity of a host object: one reserved code per
/// recognised kind, or the unrecognised type's own identity.
pub open spec fn type_identity_of(h: HostObjectView) -> u64 {
    match h {
        HostObjectView::Boolean(_) => 1,
        HostObjectView::Float32(_) => 2,
        HostObjectView::Float64(_) => 3,
        HostObjectView::Int128(_) => 4,
        HostObjectView::Int16(_) => 5,
        HostObjectView::Int32(_) => 6,
        HostObjectView::Int64(_) => 7,
        HostObjectView::Int8(_) => 8,
        HostObjectView::Str(_) => 9,
        HostObjectView::UInt128(_) => 10,
        HostObjectView::UInt16(_) => 11,
        HostObjectView::UInt32(_) => 12,
        HostObjectView::UInt64(_) => 13,
        HostObjectView::UInt8(_) => 14,
        HostObjectView::Usize(_) => 15,
        HostObjectView::NativeBool(_) => 16,
        HostObjectView::NativeInt(_) => 17,
        HostObjectView::NativeStr(_) => 18,
        HostObjectView::NativeFloat(_) => 19,
        HostObjectView::Null => 20,
        HostObjectView::Unknown { type_identity, .. } => type_identity,
    }
}

/// A host object is well formed when an unrecognised runtime type does not
/// masquerade under a reserved identity code.
pub open spec fn host_wf(h: HostObjectView) -> bool {
    match h {
        HostObjectView::Unknown { type_identity, .. } => type_identity
            >= FIRST_FOREIGN_TYPE_IDENTITY,
        _ => true,
    }
}

impl HostObject {
    /// The runtime-type identity, decided executably.
    pub fn type_identity(&self) -> (c: u64)
        ensures
            c == type_identity_of(self@),
    {
        match self {
            HostObject::Boolean(_) => 1,
            HostObject::Float32(_) => 2,
            HostObject::Float64(_) => 3,
            HostObject::Int128(_) => 4,
            HostObject::Int16(_) => 5,
            HostObject::Int32(_) => 6,
            HostObject::Int64(_) => 7,
            HostObject::Int8(_) => 8,
            HostObject::Str(_) => 9,
            HostObject::UInt128(_) => 10,
            HostObject::UInt16(_) => 11,
            HostObject::UInt32(_) => 12,
            HostObject::UInt64(_) => 13,
            HostObject::UInt8(_) => 14,
            HostObject::Usize(_) => 15,
            HostObject::NativeBool(_) => 16,
            HostObject::NativeInt(_) => 17,
            HostObject::NativeStr(_) => 18,
            HostObject::NativeFloat(_) => 19,
            HostObject::Null => 20,
            HostObject::Unknown { type_identity, .. } => *type_identity,
        }
    }
}

/// The conversion functions an attribute-value conversion can dispatch to,
/// one per recognised kind plus the error fallback.
#[derive(Clone, Copy, Debug, PartialEq, Eq, Structural)]
pub enum ValueConverter {
    Boolean,
    Float32,
    Float64,
    Int128,
    Int16,
    Int32,
    Int64,
    Int8,
    Str,
    UInt128,
    UInt16,
    UInt32,
    UInt64,
    UInt8,
    Usize,
    NativeBool,
    NativeInt,
    NativeStr,
    NativeFloat,
    Null,
    Fallback,
}

/// Whether a host object's runtime type satisfies the type check belonging
/// to one conversion function.  The one overlap mirrors the host: a native
/// boolean is a subtype of the native integer kind, so it satisfies the
/// native-integer check as well as the native-boolean check.
pub open spec fn spec_is_instance(h: HostObjectView, c: ValueConverter) -> bool {
    match c {
        ValueConverter::Boolean => h is Boolean,
        ValueConverter::Float32 => h is Float32,
        ValueConverter::Float64 => h is Float64,
        ValueConverter::Int128 => h is Int128,
        ValueConverter::Int16 => h is Int16,
        ValueConverter::Int32 => h is Int32,
        ValueConverter::Int64 => h is Int64,
        ValueConverter::Int8 => h is Int8,
        ValueConverter::Str => h is Str,
        ValueConverter::UInt128 => h is UInt128,
        ValueConverter::UInt16 => h is UInt16,
        ValueConverter::UInt32 => h is UInt32,
        ValueConverter::UInt64 => h is UInt64,
        ValueConverter::UInt8 => h is UInt8,
        ValueConverter::Usize => h is Usize,
        ValueConverter::NativeBool => h is NativeBool,
        ValueConverter::NativeInt => h is NativeInt || h is NativeBool,
        ValueConverter::NativeStr => h is NativeStr,
        ValueConverter::NativeFloat => h is NativeFloat,
        ValueConverter::Null => h is Null,
        ValueConverter::Fallback => false,
    }
}

/// The ordered sequence of type checks, first match wins: the explicit
/// holder kinds are checked before the host's native kinds, the native
/// boolean before the native integer (a host boolean is a subtype of the
/// host integer kind), and null last, just before the error fallback.
pub open spec fn spec_inspect(h: HostObjectView) -> ValueConverter {
    if spec_is_instance(h, ValueConverter::Boolean) {
        ValueConverter::Boolean
    } else if spec_is_instance(h, ValueConverter::Float32) {
        ValueConverter::Float32
    } else if spec_is_instance(h, ValueConverter::Float64) {
        ValueConverter::Float64
    } else if spec_is_instance(h, ValueConverter::Int128) {
        ValueConverter::Int128
    } else if spec_is_instance(h, ValueConverter::Int16) {
        ValueConverter::Int16
    } else if spec_is_instance(h, ValueConverter::Int32) {
        ValueConverter::Int32
    } else if spec_is_instance(h, ValueConverter::Int64) {
        ValueConverter::Int64
    } else if spec_is_instance(h, ValueConverter::Int8) {
        ValueConverter::Int8
    } else if spec_is_instance(h, ValueConverter::Str) {
        ValueConverter::Str
    } else if spec_is_instance(h, ValueConverter::UInt128) {
        ValueConverter::UInt128
    } else if spec_is_instance(h, ValueConverter::UInt16) {
        ValueConverter::UInt16
    } else if spec_is_instance(h, ValueConverter::UInt32) {
        ValueConverter::UInt32
    } else if spec_is_instance(h, ValueConverter::UInt64) {
        ValueConverter::UInt64
    } else if spec_is_instance(h, ValueConverter::UInt8) {
        ValueConverter::UInt8
    } else if spec_is_instance(h, ValueConverter::Usize) {
        ValueConverter::Usize
    } else if spec_is_instance(h, ValueConverter::NativeBool) {
        ValueConverter::NativeBool
    } else if spec_is_instance(h, ValueConverter::NativeInt) {
        ValueConverter::NativeInt
    } else if spec_is_instance(h, ValueConverter::NativeStr) {
        ValueConverter::NativeStr
    } else if spec_is_instance(h, ValueConverter::NativeFloat) {
        ValueConverter::NativeFloat
    } else if spec_is_instance(h, ValueConverter::Null) {
        ValueConverter::Null
    } else {
        ValueConverter::Fallback
    }
}

/// The conversion function belonging to a runtime-type identity: what the
/// ordered inspection chooses for every host object of that type.
pub open spec fn value_converter_for(identity: u64) -> ValueConverter {
    if identity == 1 {
        ValueConverter::Boolean
    } else if identity == 2 {
        ValueConverter::Float32
    } else if identity == 3 {
        ValueConverter::Float64
    } else if identity == 4 {
        ValueConverter::Int128
    } else if identity == 5 {
        ValueConverter::Int16
    } else if identity == 6 {
        ValueConverter::Int32
    } else if identity == 7 {
        ValueConverter::Int64
    } else if identity == 8 {
        ValueConverter::Int8
    } else if identity == 9 {
        ValueConverter::Str
    } else if identity == 10 {
        ValueConverter::UInt128
    } else if identity == 11 {
        ValueConverter::UInt16
    } else if identity == 12 {
        ValueConverter::UInt32
    } else if identity == 13 {
        ValueConverter::UInt64
    } else if identity == 14 {
        ValueConverter::UInt8
    } else if identity == 15 {
        ValueConverter::Usize
    } else if identity == 16 {
        ValueConverter::NativeBool
    } else if identity == 17 {
        ValueConverter::NativeInt
    } else if identity == 18 {
        ValueConverter::NativeStr
    } else if identity == 19 {
        ValueConverter::NativeFloat
    } else if identity == 20 {
        ValueConverter::Null
    } else {
        ValueConverter::Fallback
    }
}

/// The inspection's choice is a function of the runtime-type identity
/// alone: every well-formed host object of one type gets one converter.
pub proof fn lemma_inspect_by_identity(h: HostObjectView)
    requires
        host_wf(h),
    ensures
        spec_inspect(h) == value_converter_for(type_identity_of(h)),
{
}

/// What converting a host object to an attribute value yields: the direct,
/// cache-independent statement.  An unrecognised value yields the error
/// message, which is its own rendering.
pub open spec fn spec_convert_value(h: HostObjectView) -> Result<AttributeValueView, Seq<char>> {
    match h {
        HostObjectView::Boolean(b) => Ok(AttributeValueView::Boolean(b)),
        HostObjectView::Float32(bits) => Ok(AttributeValueView::Float32(bits)),
        HostObjectView::Float64(bits) => Ok(AttributeValueView::Float64(bits)),
        HostObjectView::Int128(n) => Ok(AttributeValueView::Int128(n)),
        HostObjectView::Int16(n) => Ok(AttributeValueView::Int16(n)),
        HostObjectView::Int32(n) => Ok(AttributeValueView::Int32(n)),
        HostObjectView::Int64(n) => Ok(AttributeValueView::Int64(n)),
        HostObjectView::Int8(n) => Ok(AttributeValueView::Int8(n)),
        HostObjectView::Str(s) => Ok(AttributeValueView::Str(s)),
        HostObjectView::UInt128(n) => Ok(AttributeValueView::UInt128(n)),
        HostObjectView::UInt16(n) => Ok(AttributeValueView::UInt16(n)),
        HostObjectView::UInt32(n) => Ok(AttributeValueView::UInt32(n)),
        HostObjectView::UInt64(n) => Ok(AttributeValueView::UInt64(n)),
        HostObjectView::UInt8(n) => Ok(AttributeValueView::UInt8(n)),
        HostObjectView::Usize(n) => Ok(AttributeValueView::Usize(n)),
        HostObjectView::NativeBool(b) => Ok(AttributeValueView::Boolean(b)),
        HostObjectView::NativeInt(n) => Ok(AttributeValueView::Int64(n)),
        HostObjectView::NativeStr(s) => Ok(AttributeValueView::Str(s)),
        HostObjectView::NativeFloat(bits) => Ok(AttributeValueView::Float64(bits)),
        HostObjectView::Null => Ok(AttributeValueView::Null),
        HostObjectView::Unknown { rendering, .. } => Err(rendering),
    }
}

/// How an exec conversion result relates to the specified one.
pub open spec fn conversion_result_matches(
    r: Result<AttributeValue, GraphError>,
    s: Result<AttributeValueView, Seq<char>>,
) -> bool {
    match r {
        Ok(v) => s == Ok::<AttributeValueView, Seq<char>>(v@),
        Err(e) => e matches GraphError::ConversionError(m) && s == Err::<
            AttributeValueView,
            Seq<char>,
        >(m@),
    }
}

/// Runs the ordered sequence of type checks and returns the first matching
/// conversion function; the error fallback if none matches.
pub fn inspect_host_type(ob: &HostObject) -> (c: ValueConverter)
    ensures
        c == spec_inspect(ob@),
{
    match ob {
        HostObject::Boolean(_) => ValueConverter::Boolean,
        HostObject::Float32(_) => ValueConverter::Float32,
        HostObject::Float64(_) => ValueConverter::Float64,
        HostObject::Int128(_) => ValueConverter::Int128,
        HostObject::Int16(_) => ValueConverter::Int16,
        HostObject::Int32(_) => ValueConverter::Int32,
        HostObject::Int64(_) => ValueConverter::Int64,
        HostObject::Int8(_) => ValueConverter::Int8,
        HostObject::Str(_) => ValueConverter::Str,
        HostObject::UInt128(_) => ValueConverter::UInt128,
        HostObject::UInt16(_) => ValueConverter::UInt16,
        HostObject::UInt32(_) => ValueConverter::UInt32,
        HostObject::UInt64(_) => ValueConverter::UInt64,
        HostObject::UInt8(_) => ValueConverter::UInt8,
        HostObject::Usize(_) => ValueConverter::Usize,
        HostObject::NativeBool(_) => ValueConverter::NativeBool,
        HostObject::NativeInt(_) => ValueConverter::NativeInt,
        HostObject::NativeStr(_) => ValueConverter::NativeStr,
        HostObject::NativeFloat(_) => ValueConverter::NativeFloat,
        HostObject::Null => ValueConverter::Null,
        HostObject::Unknown { .. } => ValueConverter::Fallback,
    }
}

/// Applies one conversion function to a host object whose runtime type
/// selected it.
pub fn apply_value_converter(conv: ValueConverter, ob: &HostObject) -> (r: Result<
    AttributeValue,
    GraphError,
>)
    requires
        host_wf(ob@),
        conv == value_converter_for(type_identity_of(ob@)),
    ensures
        conversion_result_matches(r, spec_convert_value(ob@)),
{
    match (conv, ob) {
        (ValueConverter::Boolean, HostObject::Boolean(p)) => Ok(
            AttributeValue::Boolean(p.value()),
        ),
        (ValueConverter::Float32, HostObject::Float32(bits)) => Ok(
            AttributeValue::Float32(*bits),
        ),
        (ValueConverter::Float64, HostObject::Float64(bits)) => Ok(
            AttributeValue::Float64(*bits),
        ),
        (ValueConverter::Int128, HostObject::Int128(p)) => Ok(AttributeValue::Int128(p.value())),
        (ValueConverter::Int16, HostObject::Int16(p)) => Ok(AttributeValue::Int16(p.value())),
        (ValueConverter::Int32, HostObject::Int32(p)) => Ok(AttributeValue::Int32(p.value())),
        (ValueConverter::Int64, HostObject::Int64(p)) => Ok(AttributeValue::Int64(p.value())),
        (ValueConverter::Int8, HostObject::Int8(p)) => Ok(AttributeValue::Int8(p.value())),
        (ValueConverter::Str, HostObject::Str(p)) => Ok(AttributeValue::Str(p.value())),
        (ValueConverter::UInt128, HostObject::UInt128(p)) => Ok(
            AttributeValue::UInt128(p.value()),
        ),
        (ValueConverter::UInt16, HostObject::UInt16(p)) => Ok(AttributeValue::UInt16(p.value())),
        (ValueConverter::UInt32, HostObject::UInt32(p)) => Ok(AttributeValue::UInt32(p.value())),
        (ValueConverter::UInt64, HostObject::UInt64(p)) => Ok(AttributeValue::UInt64(p.value())),
        (ValueConverter::UInt8, HostObject::UInt8(p)) => Ok(AttributeValue::UInt8(p.value())),
        (ValueConverter::Usize, HostObject::Usize(p)) => Ok(AttributeValue::Usize(p.value())),
        (ValueConverter::NativeBool, HostObject::NativeBool(b)) => Ok(
            AttributeValue::Boolean(*b),
        ),
        (ValueConverter::NativeInt, HostObject::NativeInt(n)) => Ok(AttributeValue::Int64(*n)),
        (ValueConverter::NativeStr, HostObject::NativeStr(s)) => Ok(
            AttributeValue::Str(s.clone()),
        ),
        (ValueConverter::NativeFloat, HostObject::NativeFloat(bits)) => Ok(
            AttributeValue::Float64(*bits),
        ),
        (ValueConverter::Null, HostObject::Null) => Ok(AttributeValue::Null),
        (ValueConverter::Fallback, HostObject::Unknown { rendering, .. }) => Err(
            GraphError::ConversionError(rendering.clone()),
        ),
        _ => vstd::pervasive::unreached(),
    }
}

/// A well-formed dispatch cache maps each filled runtime-type identity to
/// the conversion function the ordered inspection would choose for it.
pub open spec fn value_lut_wf(lut: Map<u64, ValueConverter>) -> bool {
    forall|c: u64| #[trigger] lut.contains_key(c) ==> lut[c] == value_converter_for(c)
}

/// Converts one foreign value to an attribute value through the dispatch
/// cache.
///
/// The result is pinned by the host object alone, never by the cache
/// state, so converting through a cold or a warm cache yields identical
/// results.  The cache gains at most the one entry for this object's
/// runtime-type identity; on a hit it is left untouched, so the inspection
/// runs at most once per distinct runtime type for the cache's lifetime.
pub fn convert_host_to_attribute_value(
    lut: &mut GILHashMap<ValueConverter>,
    ob: &HostObject,
) -> (r: Result<AttributeValue, GraphError>)
    requires
        host_wf(ob@),
        value_lut_wf(old(lut)@),
    ensures
        conversion_result_matches(r, spec_convert_value(ob@)),
        value_lut_wf(final(lut)@),
        final(lut)@ == old(lut)@.insert(
            type_identity_of(ob@),
            value_converter_for(type_identity_of(ob@)),
        ),
        old(lut)@.contains_key(type_identity_of(ob@)) ==> final(lut)@ == old(lut)@,
{
    let identity = ob.type_identity();
    let conv = match lut.get(identity) {
        Some(c) => *c,
        None => {
            let c = inspect_host_type(ob);
            proof {
                lemma_inspect_by_identity(ob@);
            }
            lut.insert(identity, c);
            c
        }
    };
    proof {
        lemma_inspect_by_identity(ob@);
        assert(final(lut)@ =~= old(lut)@.insert(
            type_identity_of(ob@),
            value_converter_for(type_identity_of(ob@)),
        ));
    }
    apply_value_converter(conv, ob)
}

/// A warm cache agrees with a cold inspection: the cached conversion
/// function for a host object's runtime type is exactly the one the
/// ordered inspection would choose, so a converted result never depends on
/// whether the cache was already filled.
pub proof fn lemma_warm_cache_agrees_with_inspection(
    lut: Map<u64, ValueConverter>,
    h: HostObjectView,
)
    requires
        value_lut_wf(lut),
        host_wf(h),
        lut.contains_key(type_identity_of(h)),
    ensures
        lut[type_identity_of(h)] == spec_inspect(h),
{
    lemma_inspect_by_identity(h);
}

/// What an attribute value looks like when handed back to the host: each
/// payload kind goes out as an instance of its explicit holder class, and
/// null as the host's null.
pub open spec fn host_of_value(v: AttributeValueView) -> HostObjectView {
    match v {
        AttributeValueView::Boolean(b) => HostObjectView::Boolean(b),
        AttributeValueView::Float32(bits) => HostObjectView::Float32(bits),
        AttributeValueView::Float64(bits) => HostObjectView::Float64(bits),
        AttributeValueView::Int128(n) => HostObjectView::Int128(n),
        AttributeValueView::Int16(n) => HostObjectView::Int16(n),
        AttributeValueView::Int32(n) => HostObjectView::Int32(n),
        AttributeValueView::Int64(n) => HostObjectView::Int64(n),
        AttributeValueView::Int8(n) => HostObjectView::Int8(n),
        AttributeValueView::Null => HostObjectView::Null,
        AttributeValueView::Str(s) => HostObjectView::Str(s),
        AttributeValueView::UInt128(n) => HostObjectView::UInt128(n),
        AttributeValueView::UInt16(n) => HostObjectView::UInt16(n),
        AttributeValueView::UInt32(n) => HostObjectView::UInt32(n),
        AttributeValueView::UInt64(n) => HostObjectView::UInt64(n),
        AttributeValueView::UInt8(n) => HostObjectView::UInt8(n),
        AttributeValueView::Usize(n) => HostObjectView::Usize(n),
    }
}

impl AttributeValue {
    /// Converts back to the foreign representation.
    pub fn into_host(self) -> (h: HostObject)
        ensures
            h@ == host_of_value(self@),
    {
        match self {
            AttributeValue::Boolean(b) => HostObject::Boolean(PyBoolean::new(b)),
            AttributeValue::Float32(bits) => HostObject::Float32(bits),
            AttributeValue::Float64(bits) => HostObject::Float64(bits),
            AttributeValue::Int128(n) => HostObject::Int128(PyInt128::new(n)),
            AttributeValue::Int16(n) => HostObject::Int16(PyInt16::new(n)),
            AttributeValue::Int32(n) => HostObject::Int32(PyInt32::new(n)),
            AttributeValue::Int64(n) => HostObject::Int64(PyInt64::new(n)),
            AttributeValue::Int8(n) => HostObject::Int8(PyInt8::new(n)),
            AttributeValue::Null => HostObject::Null,
            AttributeValue::Str(s) => HostObject::Str(PyString::new(s)),
            AttributeValue::UInt128(n) => HostObject::UInt128(PyUInt128::new(n)),
            AttributeValue::UInt16(n) => HostObject::UInt16(PyUInt16::new(n)),
            AttributeValue::UInt32(n) => HostObject::UInt32(PyUInt32::new(n)),
            AttributeValue::UInt64(n) => HostObject::UInt64(PyUInt64::new(n)),
            AttributeValue::UInt8(n) => HostObject::UInt8(PyUInt8::new(n)),
            AttributeValue::Usize(n) => HostObject::Usize(PyUsize::new(n)),
        }
    }
}

/// The character of one decimal digit.
pub open spec fn decimal_digit(d: int) -> char {
    if d == 0 {
        '0'
    } else if d == 1 {
        '1'
    } else if d == 2 {
        '2'
    } else if d == 3 {
        '3'
    } else if d == 4 {
        '4'
    } else if d == 5 {
        '5'
    } else if d == 6 {
        '6'
    } else if d == 7 {
        '7'
    } else if d == 8 {
        '8'
    } else {
        '9'
    }
}

/// The decimal rendering of a natural number: most significant digit
/// first, no leading zeroes, a single zero for zero.
pub open spec fn spec_decimal_nat(n: nat) -> Seq<char>
    decreases n,
{
    if n < 10 {
        seq![decimal_digit(n as int)]
    } else {
        spec_decimal_nat(n / 10).push(decimal_digit((n % 10) as int))
    }
}

/// The decimal rendering of an integer: a leading minus sign for
/// negatives.
pub open spec fn spec_decimal_int(n: int) -> Seq<char> {
    if n < 0 {
        seq!['-'] + spec_decimal_nat((-n) as nat)
    } else {
        spec_decimal_nat(n as nat)
    }
}

/// Relies on u128's `Display` implementation, which the standard library
/// documents as the decimal rendering without sign or leading zeroes.
#[verifier::external_body]
fn render_u128(n: u128) -> (r: String)
    ensures
        r@ == spec_decimal_nat(n as nat),
{
    n.to_string()
}

/// Relies on i128's `Display` implementation, which the standard library
/// documents as the decimal rendering, with a leading minus sign for
/// negative values.
#[verifier::external_body]
fn render_i128(n: i128) -> (r: String)
    ensures
        r@ == spec_decimal_int(n as int),
{
    n.to_string()
}

/// The textual rendering of a host object: strings render as themselves,
/// booleans and integers by value, floating-point payloads by their bit
/// patterns (the only value this model holds of them), the host's null by
/// its name, and an unrecognised value by the rendering it carries.
pub open spec fn host_rendering(h: HostObjectView) -> Seq<char> {
    match h {
        HostObjectView::Boolean(b) => if b {
            "true"@
        } else {
            "false"@
        },
        HostObjectView::Float32(bits) => "float32 bits "@ + spec_decimal_nat(bits as nat),
        HostObjectView::Float64(bits) => "float64 bits "@ + spec_decimal_nat(bits as nat),
        HostObjectView::Int128(n) => spec_decimal_int(n as int),
        HostObjectView::Int16(n) => spec_decimal_int(n as int),
        HostObjectView::Int32(n) => spec_decimal_int(n as int),
        HostObjectView::Int64(n) => spec_decimal_int(n as int),
        HostObjectView::Int8(n) => spec_decimal_int(n as int),
        HostObjectView::Str(t) => t,
        HostObjectView::UInt128(n) => spec_decimal_nat(n as nat),
        HostObjectView::UInt16(n) => spec_decimal_nat(n as nat),
        HostObjectView::UInt32(n) => spec_decimal_nat(n as nat),
        HostObjectView::UInt64(n) => spec_decimal_nat(n as nat),
        HostObjectView::UInt8(n) => spec_decimal_nat(n as nat),
        HostObjectView::Usize(n) => spec_decimal_nat(n as nat),
        HostObjectView::NativeBool(b) => if b {
            "true"@
        } else {
            "false"@
        },
        HostObjectView::NativeInt(n) => spec_decimal_int(n as int),
        HostObjectView::NativeStr(t) => t,
        HostObjectView::NativeFloat(bits) => "float64 bits "@ + spec_decimal_nat(bits as nat),
        HostObjectView::Null => "None"@,
        HostObjectView::Unknown { rendering, .. } => rendering,
    }
}

/// Renders a host object for an error message.
pub fn render_host(ob: &HostObject) -> (r: String)
    ensures
        r@ == host_rendering(ob@),
{
    match ob {
        HostObject::Boolean(p) => if p.value() {
            "true".to_owned()
        } else {
            "false".to_owned()
        },
        HostObject::Float32(bits) => {
            let mut r = "float32 bits ".to_owned();
            let digits = render_u128(*bits as u128);
            r.append(digits.as_str());
            r
        },
        HostObject::Float64(bits) => {
            let mut r = "float64 bits ".to_owned();
            let digits = render_u128(*bits as u128);
            r.append(digits.as_str());
            r
        },
        HostObject::Int128(p) => render_i128(p.value()),
        HostObject::Int16(p) => render_i128(p.value() as i128),
        HostObject::Int32(p) => render_i128(p.value() as i128),
        HostObject::Int64(p) => render_i128(p.value() as i128),
        HostObject::Int8(p) => render_i128(p.value() as i128),
        HostObject::Str(p) => p.value(),
        HostObject::UInt128(p) => render_u128(p.value()),
        HostObject::UInt16(p) => render_u128(p.value() as u128),
        HostObject::UInt32(p) => render_u128(p.value() as u128),
        HostObject::UInt64(p) => render_u128(p.value() as u128),
        HostObject::UInt8(p) => render_u128(p.value() as u128),
        HostObject::Usize(p) => render_u128(p.value() as u128),
        HostObject::NativeBool(b) => if *b {
            "true".to_owned()
        } else {
            "false".to_owned()
        },
        HostObject::NativeInt(n) => render_i128(*n as i128),
        HostObject::NativeStr(t) => t.clone(),
        HostObject::NativeFloat(bits) => {
            let mut r = "float64 bits ".to_owned();
            let digits = render_u128(*bits as u128);
            r.append(digits.as_str());
            r
        },
        HostObject::Null => "None".to_owned(),
        HostObject::Unknown { rendering, .. } => rendering.clone(),
    }
}

/// Round trip: converting any attribute value to the foreign
/// representation and back yields the value unchanged, in both tag and
/// payload.
pub proof fn lemma_value_host_round_trip(v: AttributeValueView)
    ensures
        spec_convert_value(host_of_value(v)) == Ok::<AttributeValueView, Seq<char>>(v),
{
}

} // verus!
