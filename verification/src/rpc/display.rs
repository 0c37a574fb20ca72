//! The library's MessagePack values as rmpv values: the text that rmpv's
//! `Display` writes for one, which the error messages quote.

use crate::msgpack::{MsgInteger, MsgString, MsgValue};
use rmpv::Value as RmpvValue;
use rmpv::Utf8String;
use vstd::prelude::*;

verus! {

/// The text that rmpv's `Display` writes for the rmpv value that `v`
/// stands for.
pub uninterp spec fn display_text(v: MsgValue) -> Seq<char>;

/// The 32-bit float with the bit pattern `bits`, as an rmpv value: rmpv
/// reads it from its MessagePack encoding (marker `0xca`, then the bits).
#[verifier::external_body]
fn rmpv_single(bits: u32) -> RmpvValue {
    let b = bits.to_be_bytes();
    rmpv::decode::read_value(&mut &[0xca, b[0], b[1], b[2], b[3]][..]).unwrap_or(RmpvValue::Nil)
}

/// The 64-bit float with the bit pattern `bits`, as an rmpv value: rmpv
/// reads it from its MessagePack encoding (marker `0xcb`, then the bits).
#[verifier::external_body]
fn rmpv_double(bits: u64) -> RmpvValue {
    let b = bits.to_be_bytes();
    rmpv::decode::read_value(&mut &[0xcb, b[0], b[1], b[2], b[3], b[4], b[5], b[6], b[7]][..]).unwrap_or(RmpvValue::Nil)
}

/// A string as an rmpv string: its text, or, where it is not UTF-8, its
/// bytes as rmpv reads them from a MessagePack `str32`.
#[verifier::external_body]
fn rmpv_string(s: &MsgString) -> Utf8String {
    match s {
        MsgString::Valid(t) => Utf8String::from(t.as_str()),
        MsgString::Invalid(b) => {
            let mut raw = vec![0xdb];
            raw.extend_from_slice(&(b.len() as u32).to_be_bytes());
            raw.extend_from_slice(b);
            match rmpv::decode::read_value(&mut &raw[..]) {
                Ok(RmpvValue::String(u)) => u,
                _ => Utf8String::from(""),
            }
        },
    }
}

/// An integer as an rmpv value.
#[verifier::external_body]
fn rmpv_integer(n: &MsgInteger) -> RmpvValue {
    match n {
        MsgInteger::PosInt(u) => RmpvValue::from(*u),
        MsgInteger::NegInt(i) => RmpvValue::from(*i),
    }
}

/// A map as an rmpv map, entry for entry.
#[verifier::external_body]
fn rmpv_map(m: &Vec<(MsgValue, MsgValue)>) -> RmpvValue {
    RmpvValue::Map(m.iter().map(|e| (rmpv_value(&e.0), rmpv_value(&e.1))).collect())
}

/// The rmpv value that `v` stands for, variant for variant.
#[verifier::external_body]
pub(crate) fn rmpv_value(v: &MsgValue) -> RmpvValue {
    match v {
        MsgValue::Nil => RmpvValue::Nil,
        MsgValue::Boolean(b) => RmpvValue::Boolean(*b),
        MsgValue::Integer(n) => rmpv_integer(n),
        MsgValue::F32(bits) => rmpv_single(*bits),
        MsgValue::F64(bits) => rmpv_double(*bits),
        MsgValue::String(s) => RmpvValue::String(rmpv_string(s)),
        MsgValue::Binary(b) => RmpvValue::Binary(b.clone()),
        MsgValue::Array(a) => RmpvValue::Array(a.iter().map(rmpv_value).collect()),
        MsgValue::Dict(m) => rmpv_map(m),
        MsgValue::Ext(t, d) => RmpvValue::Ext(*t, d.clone()),
    }
}

/// `<rmpv::Value as Display>::fmt` on the rmpv value that `v` stands for.
#[verifier::external_body]
pub(crate) fn value_display(v: &MsgValue) -> (r: String)
    ensures
        r@ == display_text(*v),
{
    format!("{}", rmpv_value(v))
}

/// The text that rmpv's `Display` writes for `v`.
pub fn display(v: &MsgValue) -> (r: String)
    ensures
        r@ == display_text(*v),
{
    value_display(v)
}

} // verus!
