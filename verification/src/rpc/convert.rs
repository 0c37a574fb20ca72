//! Conversions between the library's values and MessagePack values.

use crate::error::NeomacsError;
use crate::msgpack::{spec_as_i64, spec_as_str, spec_as_u64, spec_int, MsgInteger, MsgString, MsgValue};
use crate::rpc::display::{display_text, value_display};
use crate::text::concat_str;
use vstd::prelude::*;
use vstd::string::*;

verus! {

/// A type that can be read from a MessagePack value.
pub trait DecodeValue: Sized {
    /// Whether `value` can be read as a `Self`.
    spec fn decodes(value: MsgValue) -> bool;

    /// Whether `value` reads as `x`.
    spec fn decodes_to(value: MsgValue, x: Self) -> bool;

    /// Reads `value` as a `Self`.
    fn decode_value(value: MsgValue) -> (r: Result<Self, NeomacsError>)
        ensures
            r is Ok <==> Self::decodes(value),
            r matches Ok(x) ==> Self::decodes_to(value, x),
            r matches Err(e) ==> e is MessagePackParse,
    ;
}

/// A type that can be written as a MessagePack value.
pub trait EncodeValue {
    /// Whether `v` is the MessagePack value that `self` is written as.
    spec fn encodes_to(&self, v: MsgValue) -> bool;

    /// Writes `self` as a MessagePack value.
    fn encode_value(&self) -> (v: MsgValue)
        ensures
            self.encodes_to(v),
    ;
}


/// The text of the error for a value `v` that does not read as a `what`.
pub open spec fn decode_error_text(what: Seq<char>, v: MsgValue) -> Seq<char> {
    "Unable to decode "@ + what + " from "@ + display_text(v)
}

/// The `MessagePackParse` error for a value `value` that does not read as
/// a `what`: "Unable to decode <what> from <value>", the value as rmpv
/// writes it.
pub fn decode_error(what: &str, value: &MsgValue) -> (e: NeomacsError)
    ensures
        e matches NeomacsError::MessagePackParse(m) && m@ == decode_error_text(what@, *value),
{
    let mut text = concat_str("Unable to decode ", what);
    text.append(" from ");
    let shown = value_display(value);
    text.append(shown.as_str());
    NeomacsError::MessagePackParse(text)
}

impl DecodeValue for u64 {
    open spec fn decodes(value: MsgValue) -> bool {
        spec_as_u64(value) is Some
    }

    open spec fn decodes_to(value: MsgValue, x: u64) -> bool {
        spec_as_u64(value) == Some(x)
    }

    fn decode_value(value: MsgValue) -> (r: Result<u64, NeomacsError>)
        ensures
            r matches Err(NeomacsError::MessagePackParse(m)) ==> m@ == decode_error_text("u64"@, value),
    {
        match value.as_u64() {
            Some(n) => Ok(n),
            None => Err(decode_error("u64", &value)),
        }
    }
}

impl DecodeValue for i64 {
    open spec fn decodes(value: MsgValue) -> bool {
        spec_as_i64(value) is Some
    }

    open spec fn decodes_to(value: MsgValue, x: i64) -> bool {
        spec_as_i64(value) == Some(x)
    }

    fn decode_value(value: MsgValue) -> (r: Result<i64, NeomacsError>)
        ensures
            r matches Err(NeomacsError::MessagePackParse(m)) ==> m@ == decode_error_text("i64"@, value),
    {
        match value.as_i64() {
            Some(n) => Ok(n),
            None => Err(decode_error("i64", &value)),
        }
    }
}

impl DecodeValue for String {
    open spec fn decodes(value: MsgValue) -> bool {
        spec_as_str(value) is Some
    }

    open spec fn decodes_to(value: MsgValue, x: String) -> bool {
        spec_as_str(value) == Some(x@)
    }

    fn decode_value(value: MsgValue) -> (r: Result<String, NeomacsError>)
        ensures
            r matches Err(NeomacsError::MessagePackParse(m)) ==> m@ == decode_error_text("String"@, value),
    {
        match value {
            MsgValue::String(MsgString::Valid(s)) => Ok(s),
            other => Err(decode_error("String", &other)),
        }
    }
}

impl DecodeValue for bool {
    open spec fn decodes(value: MsgValue) -> bool {
        value is Boolean
    }

    open spec fn decodes_to(value: MsgValue, x: bool) -> bool {
        value == MsgValue::Boolean(x)
    }

    fn decode_value(value: MsgValue) -> (r: Result<bool, NeomacsError>)
        ensures
            r matches Err(NeomacsError::MessagePackParse(m)) ==> m@ == decode_error_text("bool"@, value),
    {
        match value.as_bool() {
            Some(b) => Ok(b),
            None => Err(decode_error("bool", &value)),
        }
    }
}

impl<T: DecodeValue> DecodeValue for Vec<T> {
    open spec fn decodes(value: MsgValue) -> bool {
        value matches MsgValue::Array(a) && forall|i: int| 0 <= i < a@.len() ==> T::decodes(#[trigger] a@[i])
    }

    open spec fn decodes_to(value: MsgValue, x: Vec<T>) -> bool {
        value matches MsgValue::Array(a) && x@.len() == a@.len()
            && forall|i: int| 0 <= i < a@.len() ==> T::decodes_to(#[trigger] a@[i], x@[i])
    }

    fn decode_value(value: MsgValue) -> (r: Result<Vec<T>, NeomacsError>)
        ensures
            !(value is Array) ==> (r matches Err(NeomacsError::MessagePackParse(m))
                && m@ == decode_error_text("Vec"@, value)),
    {
        match value {
            MsgValue::Array(a) => {
                let ghost orig = a@;
                assert(value == MsgValue::Array(a));
                let mut rest = a;
                let mut parsed: Vec<T> = Vec::new();
                while rest.len() > 0
                    invariant
                        value is Array,
                        value->Array_0@ == orig,
                        parsed@.len() + rest@.len() == orig.len(),
                        rest@ == orig.subrange(parsed@.len() as int, orig.len() as int),
                        forall|i: int| 0 <= i < parsed@.len() ==> T::decodes(#[trigger] orig[i]),
                        forall|i: int| 0 <= i < parsed@.len() ==> T::decodes_to(#[trigger] orig[i], parsed@[i]),
                    decreases rest.len(),
                {
                    let ghost k = parsed@.len();
                    let elem = rest.remove(0);
                    assert(elem == orig[k as int]);
                    match T::decode_value(elem) {
                        Ok(x) => {
                            parsed.push(x);
                            assert(rest@ =~= orig.subrange(parsed@.len() as int, orig.len() as int));
                        },
                        Err(e) => {
                            assert(!T::decodes(orig[k as int]));
                            assert(!Self::decodes(value)) by {
                                if Self::decodes(value) {
                                    let x = value->Array_0;
                                    assert(x@ == orig);
                                    assert(T::decodes(x@[k as int]));
                                }
                            }
                            return Err(e);
                        },
                    }
                }
                Ok(parsed)
            },
            other => Err(decode_error("Vec", &other)),
        }
    }
}

impl DecodeValue for MsgValue {
    open spec fn decodes(value: MsgValue) -> bool {
        true
    }

    open spec fn decodes_to(value: MsgValue, x: MsgValue) -> bool {
        x == value
    }

    /// Any value reads as itself.
    fn decode_value(value: MsgValue) -> (r: Result<MsgValue, NeomacsError>) {
        Ok(value)
    }
}

impl EncodeValue for u64 {
    open spec fn encodes_to(&self, v: MsgValue) -> bool {
        v == MsgValue::Integer(MsgInteger::PosInt(*self))
    }

    fn encode_value(&self) -> (v: MsgValue) {
        MsgValue::from_u64(*self)
    }
}

impl EncodeValue for i64 {
    open spec fn encodes_to(&self, v: MsgValue) -> bool {
        &&& spec_int(v) == Some(*self as int)
        &&& 0 <= *self ==> v == MsgValue::Integer(MsgInteger::PosInt(*self as u64))
        &&& *self < 0 ==> v == MsgValue::Integer(MsgInteger::NegInt(*self))
    }

    fn encode_value(&self) -> (v: MsgValue) {
        MsgValue::from_i64(*self)
    }
}

impl EncodeValue for String {
    open spec fn encodes_to(&self, v: MsgValue) -> bool {
        v matches MsgValue::String(MsgString::Valid(s)) && s@ == self@
    }

    fn encode_value(&self) -> (v: MsgValue) {
        MsgValue::String(MsgString::Valid(self.clone()))
    }
}

impl EncodeValue for bool {
    open spec fn encodes_to(&self, v: MsgValue) -> bool {
        v == MsgValue::Boolean(*self)
    }

    fn encode_value(&self) -> (v: MsgValue) {
        MsgValue::Boolean(*self)
    }
}

impl<T: EncodeValue> EncodeValue for Vec<T> {
    open spec fn encodes_to(&self, v: MsgValue) -> bool {
        v matches MsgValue::Array(a) && a@.len() == self@.len()
            && forall|i: int| 0 <= i < self@.len() ==> (#[trigger] self@[i]).encodes_to(a@[i])
    }

    fn encode_value(&self) -> (v: MsgValue) {
        let mut out: Vec<MsgValue> = Vec::new();
        let mut i: usize = 0;
        while i < self.len()
            invariant
                i <= self@.len(),
                out@.len() == i,
                forall|j: int| 0 <= j < i ==> (#[trigger] self@[j]).encodes_to(out@[j]),
            decreases self@.len() - i,
        {
            let e = self[i].encode_value();
            out.push(e);
            i += 1;
        }
        MsgValue::Array(out)
    }
}

/// A `u64` written as a MessagePack value reads back as itself.
pub proof fn law_u64_roundtrip(x: u64, v: MsgValue)
    requires
        x.encodes_to(v),
    ensures
        <u64 as DecodeValue>::decodes(v),
        <u64 as DecodeValue>::decodes_to(v, x),
{
}

/// An `i64` written as a MessagePack value reads back as itself.
pub proof fn law_i64_roundtrip(x: i64, v: MsgValue)
    requires
        x.encodes_to(v),
    ensures
        <i64 as DecodeValue>::decodes(v),
        <i64 as DecodeValue>::decodes_to(v, x),
{
}

/// A `bool` written as a MessagePack value reads back as itself.
pub proof fn law_bool_roundtrip(x: bool, v: MsgValue)
    requires
        x.encodes_to(v),
    ensures
        <bool as DecodeValue>::decodes(v),
        <bool as DecodeValue>::decodes_to(v, x),
{
}

/// A `String` written as a MessagePack value reads back as a string with
/// the same text.
pub proof fn law_string_roundtrip(x: String, v: MsgValue, y: String)
    requires
        x.encodes_to(v),
    ensures
        <String as DecodeValue>::decodes(v),
        <String as DecodeValue>::decodes_to(v, y) <==> y@ == x@,
{
}

/// A list written as a MessagePack value reads back element by element,
/// wherever each element reads back as itself.
pub proof fn law_vec_roundtrip<T: DecodeValue + EncodeValue>(x: Vec<T>, v: MsgValue)
    requires
        x.encodes_to(v),
        forall|i: int, w: MsgValue| 0 <= i < x@.len() && #[trigger] x@[i].encodes_to(w)
            ==> T::decodes(w) && T::decodes_to(w, x@[i]),
    ensures
        <Vec<T> as DecodeValue>::decodes(v),
        <Vec<T> as DecodeValue>::decodes_to(v, x),
{
    let a = v->Array_0;
    assert forall|i: int| 0 <= i < a@.len() implies T::decodes(#[trigger] a@[i]) && T::decodes_to(a@[i], x@[i]) by {
        assert(x@[i].encodes_to(a@[i]));
    }
}

} // verus!
