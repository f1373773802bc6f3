//! Scalar holder types exposed at the host boundary.
//!
//! Each holder pins one exact attribute payload kind (width and signedness)
//! that the host's native numeric type cannot express on its own.  A holder
//! is constructible from and readable as its underlying primitive.  The
//! floating-point holders live outside the verified library, since verified
//! code here works on integer bit patterns only.

use vstd::prelude::*;

pub mod attributes;
pub mod key;
pub mod value;

verus! {

/// Explicit boolean holder.
pub struct PyBoolean(bool);

impl View for PyBoolean {
    type V = bool;

    closed spec fn view(&self) -> bool {
        self.0
    }
}

impl PyBoolean {
    pub fn new(value: bool) -> (s: Self)
        ensures
            s@ == value,
    {
        Self(value)
    }

    pub fn value(&self) -> (v: bool)
        ensures
            v == self@,
    {
        self.0
    }
}

/// Explicit 128-bit signed integer holder.
pub struct PyInt128(i128);

impl View for PyInt128 {
    type V = i128;

    closed spec fn view(&self) -> i128 {
        self.0
    }
}

impl PyInt128 {
    pub fn new(value: i128) -> (s: Self)
        ensures
            s@ == value,
    {
        Self(value)
    }

    pub fn value(&self) -> (v: i128)
        ensures
            v == self@,
    {
        self.0
    }
}

/// Explicit 16-bit signed integer holder.
pub struct PyInt16(i16);

impl View for PyInt16 {
    type V = i16;

    closed spec fn view(&self) -> i16 {
        self.0
    }
}

impl PyInt16 {
    pub fn new(value: i16) -> (s: Self)
        ensures
            s@ == value,
    {
        Self(value)
    }

    pub fn value(&self) -> (v: i16)
        ensures
            v == self@,
    {
        self.0
    }
}

/// Explicit 32-bit signed integer holder.
pub struct PyInt32(i32);

impl View for PyInt32 {
    type V = i32;

    closed spec fn view(&self) -> i32 {
        self.0
    }
}

impl PyInt32 {
    pub fn new(value: i32) -> (s: Self)
        ensures
            s@ == value,
    {
        Self(value)
    }

    pub fn value(&self) -> (v: i32)
        ensures
            v == self@,
    {
        self.0
    }
}

/// Explicit 64-bit signed integer holder.
pub struct PyInt64(i64);

impl View for PyInt64 {
    type V = i64;

    closed spec fn view(&self) -> i64 {
        self.0
    }
}

impl PyInt64 {
    pub fn new(value: i64) -> (s: Self)
        ensures
            s@ == value,
    {
        Self(value)
    }

    pub fn value(&self) -> (v: i64)
        ensures
            v == self@,
    {
        self.0
    }
}

/// Explicit 8-bit signed integer holder.
pub struct PyInt8(i8);

impl View for PyInt8 {
    type V = i8;

    closed spec fn view(&self) -> i8 {
        self.0
    }
}

impl PyInt8 {
    pub fn new(value: i8) -> (s: Self)
        ensures
            s@ == value,
    {
        Self(value)
    }

    pub fn value(&self) -> (v: i8)
        ensures
            v == self@,
    {
        self.0
    }
}

/// Explicit string holder.
pub struct PyString(String);

impl View for PyString {
    type V = Seq<char>;

    closed spec fn view(&self) -> Seq<char> {
        self.0@
    }
}

impl PyString {
    pub fn new(value: String) -> (s: Self)
        ensures
            s@ == value@,
    {
        Self(value)
    }

    pub fn value(&self) -> (v: String)
        ensures
            v@ == self@,
    {
        self.0.clone()
    }
}

/// Explicit 128-bit unsigned integer holder.
pub struct PyUInt128(u128);

impl View for PyUInt128 {
    type V = u128;

    closed spec fn view(&self) -> u128 {
        self.0
    }
}

impl PyUInt128 {
    pub fn new(value: u128) -> (s: Self)
        ensures
            s@ == value,
    {
        Self(value)
    }

    pub fn value(&self) -> (v: u128)
        ensures
            v == self@,
    {
        self.0
    }
}

/// Explicit 16-bit unsigned integer holder.
pub struct PyUInt16(u16);

impl View for PyUInt16 {
    type V = u16;

    closed spec fn view(&self) -> u16 {
        self.0
    }
}

impl PyUInt16 {
    pub fn new(value: u16) -> (s: Self)
        ensures
            s@ == value,
    {
        Self(value)
    }

    pub fn value(&self) -> (v: u16)
        ensures
            v == self@,
    {
        self.0
    }
}

/// Explicit 32-bit unsigned integer holder.
pub struct PyUInt32(u32);

impl View for PyUInt32 {
    type V = u32;

    closed spec fn view(&self) -> u32 {
        self.0
    }
}

impl PyUInt32 {
    pub fn new(value: u32) -> (s: Self)
        ensures
            s@ == value,
    {
        Self(value)
    }

    pub fn value(&self) -> (v: u32)
        ensures
            v == self@,
    {
        self.0
    }
}

/// Explicit 64-bit unsigned integer holder.
pub struct PyUInt64(u64);

impl View for PyUInt64 {
    type V = u64;

    closed spec fn view(&self) -> u64 {
        self.0
    }
}

impl PyUInt64 {
    pub fn new(value: u64) -> (s: Self)
        ensures
            s@ == value,
    {
        Self(value)
    }

    pub fn value(&self) -> (v: u64)
        ensures
            v == self@,
    {
        self.0
    }
}

/// Explicit 8-bit unsigned integer holder.
pub struct PyUInt8(u8);

impl View for PyUInt8 {
    type V = u8;

    closed spec fn view(&self) -> u8 {
        self.0
    }
}

impl PyUInt8 {
    pub fn new(value: u8) -> (s: Self)
        ensures
            s@ == value,
    {
        Self(value)
    }

    pub fn value(&self) -> (v: u8)
        ensures
            v == self@,
    {
        self.0
    }
}

/// Explicit pointer-sized unsigned integer holder.
pub struct PyUsize(usize);

impl View for PyUsize {
    type V = usize;

    closed spec fn view(&self) -> usize {
        self.0
    }
}

impl PyUsize {
    pub fn new(value: usize) -> (s: Self)
        ensures
            s@ == value,
    {
        Self(value)
    }

    pub fn value(&self) -> (v: usize)
        ensures
            v == self@,
    {
        self.0
    }
}

} // verus!
