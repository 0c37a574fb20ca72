//! The MessagePack values that the RPC layer reads and writes.
//!
//! Floating point numbers are held by their IEEE-754 bit patterns, and a
//! string by its UTF-8 text or, where its bytes are not valid UTF-8, by the
//! bytes themselves.

use vstd::prelude::*;

verus! {

/// A MessagePack integer, which ranges from `-(2^63)` up to `2^64 - 1`.
#[derive(Clone, Copy, Debug, PartialEq)]
pub enum MsgInteger {
    /// An integer stored as unsigned.
    PosInt(u64),
    /// An integer stored as signed.
    NegInt(i64),
}

impl MsgInteger {
    /// The integer's mathematical value.
    pub open spec fn value(self) -> int {
        match self {
            MsgInteger::PosInt(n) => n as int,
            MsgInteger::NegInt(n) => n as int,
        }
    }

    /// The integer as a `u64`, where it fits.
    pub fn as_u64(&self) -> (r: Option<u64>)
        ensures
            r == (if 0 <= self.value() { Some(self.value() as u64) } else { None::<u64> }),
    {
        match self {
            MsgInteger::PosInt(n) => Some(*n),
            MsgInteger::NegInt(n) => if *n >= 0 { Some(*n as u64) } else { None },
        }
    }

    /// The integer as an `i64`, where it fits.
    pub fn as_i64(&self) -> (r: Option<i64>)
        ensures
            r == (if self.value() <= i64::MAX { Some(self.value() as i64) } else { None::<i64> }),
    {
        match self {
            MsgInteger::PosInt(n) => if *n <= 0x7fff_ffff_ffff_ffffu64 { Some(*n as i64) } else { None },
            MsgInteger::NegInt(n) => Some(*n),
        }
    }
}

/// The payload of a MessagePack string.
#[derive(Debug, PartialEq)]
pub enum MsgString {
    /// Text that is valid UTF-8.
    Valid(String),
    /// Bytes that are not valid UTF-8.
    Invalid(Vec<u8>),
}

/// A MessagePack value.
#[derive(Debug, PartialEq)]
pub enum MsgValue {
    Nil,
    Boolean(bool),
    Integer(MsgInteger),
    /// A 32-bit float, by its bit pattern.
    F32(u32),
    /// A 64-bit float, by its bit pattern.
    F64(u64),
    String(MsgString),
    Binary(Vec<u8>),
    Array(Vec<MsgValue>),
    Dict(Vec<(MsgValue, MsgValue)>),
    /// An extension value: its type tag and its bytes.
    Ext(i8, Vec<u8>),
}

/// The text of a string value, where it is valid UTF-8.
pub open spec fn spec_as_str(v: MsgValue) -> Option<Seq<char>> {
    match v {
        MsgValue::String(MsgString::Valid(s)) => Some(s@),
        _ => None,
    }
}

/// The value of an integer value.
pub open spec fn spec_int(v: MsgValue) -> Option<int> {
    match v {
        MsgValue::Integer(n) => Some(n.value()),
        _ => None,
    }
}

/// The value of an integer value that fits in a `u64`.
pub open spec fn spec_as_u64(v: MsgValue) -> Option<u64> {
    match v {
        MsgValue::Integer(n) => if 0 <= n.value() { Some(n.value() as u64) } else { None },
        _ => None,
    }
}

/// The value of an integer value that fits in an `i64`.
pub open spec fn spec_as_i64(v: MsgValue) -> Option<i64> {
    match v {
        MsgValue::Integer(n) => if n.value() <= i64::MAX { Some(n.value() as i64) } else { None },
        _ => None,
    }
}

impl MsgValue {
    pub fn from_string(s: String) -> (v: MsgValue)
        ensures
            spec_as_str(v) == Some(s@),
            v == MsgValue::String(MsgString::Valid(s)),
    {
        MsgValue::String(MsgString::Valid(s))
    }

    /// An integer value holding `n`.
    pub fn from_u64(n: u64) -> (v: MsgValue)
        ensures
            v == MsgValue::Integer(MsgInteger::PosInt(n)),
            spec_as_u64(v) == Some(n),
    {
        MsgValue::Integer(MsgInteger::PosInt(n))
    }

    /// An integer value holding `n`, stored as unsigned where `n` is not negative.
    pub fn from_i64(n: i64) -> (v: MsgValue)
        ensures
            spec_int(v) == Some(n as int),
            spec_as_i64(v) == Some(n),
            0 <= n ==> v == MsgValue::Integer(MsgInteger::PosInt(n as u64)),
            n < 0 ==> v == MsgValue::Integer(MsgInteger::NegInt(n)),
    {
        if n < 0 {
            MsgValue::Integer(MsgInteger::NegInt(n))
        } else {
            MsgValue::Integer(MsgInteger::PosInt(n as u64))
        }
    }

    pub fn is_nil(&self) -> (r: bool)
        ensures
            r == (*self is Nil),
    {
        match self {
            MsgValue::Nil => true,
            _ => false,
        }
    }

    pub fn is_array(&self) -> (r: bool)
        ensures
            r == (*self is Array),
    {
        match self {
            MsgValue::Array(_) => true,
            _ => false,
        }
    }

    pub fn is_map(&self) -> (r: bool)
        ensures
            r == (*self is Dict),
    {
        match self {
            MsgValue::Dict(_) => true,
            _ => false,
        }
    }

    /// Whether this is a string with valid UTF-8 text.
    pub fn is_str(&self) -> (r: bool)
        ensures
            r == spec_as_str(*self) is Some,
    {
        match self {
            MsgValue::String(MsgString::Valid(_)) => true,
            _ => false,
        }
    }

    pub fn as_u64(&self) -> (r: Option<u64>)
        ensures
            r == spec_as_u64(*self),
    {
        match self {
            MsgValue::Integer(n) => n.as_u64(),
            _ => None,
        }
    }

    pub fn as_i64(&self) -> (r: Option<i64>)
        ensures
            r == spec_as_i64(*self),
    {
        match self {
            MsgValue::Integer(n) => n.as_i64(),
            _ => None,
        }
    }

    pub fn as_bool(&self) -> (r: Option<bool>)
        ensures
            r == (match *self {
                MsgValue::Boolean(b) => Some(b),
                _ => None,
            }),
    {
        match self {
            MsgValue::Boolean(b) => Some(*b),
            _ => None,
        }
    }

    pub fn as_str(&self) -> (r: Option<&String>)
        ensures
            match *self {
                MsgValue::String(MsgString::Valid(s)) => r == Some(&s),
                _ => r is None,
            },
    {
        match self {
            MsgValue::String(MsgString::Valid(s)) => Some(s),
            _ => None,
        }
    }

    pub fn as_array(&self) -> (r: Option<&Vec<MsgValue>>)
        ensures
            match *self {
                MsgValue::Array(a) => r == Some(&a),
                _ => r is None,
            },
    {
        match self {
            MsgValue::Array(a) => Some(a),
            _ => None,
        }
    }

    pub fn as_map(&self) -> (r: Option<&Vec<(MsgValue, MsgValue)>>)
        ensures
            match *self {
                MsgValue::Dict(m) => r == Some(&m),
                _ => r is None,
            },
    {
        match self {
            MsgValue::Dict(m) => Some(m),
            _ => None,
        }
    }

    pub fn as_ext(&self) -> (r: Option<(i8, &Vec<u8>)>)
        ensures
            match *self {
                MsgValue::Ext(t, d) => r == Some((t, &d)),
                _ => r is None,
            },
    {
        match self {
            MsgValue::Ext(t, d) => Some((*t, d)),
            _ => None,
        }
    }
}

} // verus!
