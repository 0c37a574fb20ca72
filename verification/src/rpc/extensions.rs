//! MessagePack extension types that the RPC layer uses.

use crate::error::NeomacsError;
use crate::msgpack::MsgValue;
use crate::rpc::codec::{msgpack_bytes, msgpack_front, read_value, reads_back, write_value, writes_back};
use crate::rpc::convert::{DecodeValue, EncodeValue};
use crate::rpc::display::{display_text, value_display};
use vstd::prelude::*;
use vstd::string::*;

verus! {

/// The extension type of an optional value, whose bytes hold the
/// MessagePack encoding of the value, or of nil where there is none.
pub const EXTENSION_TYPE_OPTIONAL: i8 = 0;

/// Whether `val` is an optional value.
pub fn is_optional(val: &MsgValue) -> (r: bool)
    ensures
        r == (*val matches MsgValue::Ext(t, _) && t == EXTENSION_TYPE_OPTIONAL),
{
    match val {
        MsgValue::Ext(t, _) => *t == EXTENSION_TYPE_OPTIONAL,
        _ => false,
    }
}

/// Whether `r` is how `optional` is written: an optional-value extension
/// whose bytes are the MessagePack bytes of nil, or of what the value is
/// written as.
pub open spec fn encodes_optional<V: EncodeValue>(optional: Option<V>, r: MsgValue) -> bool {
    r matches MsgValue::Ext(t, d) && t == EXTENSION_TYPE_OPTIONAL
        && exists|inner: MsgValue| #![trigger msgpack_bytes(inner)]
            d@ == msgpack_bytes(inner)
            && (writes_back(inner) ==> reads_back(d@, inner))
            && match optional {
                None => inner == MsgValue::Nil,
                Some(x) => x.encodes_to(inner),
            }
}

/// Writes an optional value as an extension value.
pub fn encode_optional<V: EncodeValue>(optional: &Option<V>) -> (r: MsgValue)
    ensures
        encodes_optional(*optional, r),
{
    let inner = match optional {
        None => MsgValue::Nil,
        Some(v) => v.encode_value(),
    };
    let bytes = write_value(&inner);
    let r = MsgValue::Ext(EXTENSION_TYPE_OPTIONAL, bytes);
    assert(msgpack_bytes(inner) == bytes@);
    r
}

/// Reads an optional value from an extension value: the extension's bytes
/// hold nil (no value) or the value. Anything but an optional-value
/// extension is an error that quotes it; bytes that are not MessagePack
/// give rmpv's error.
pub fn decode_optional<V: DecodeValue>(optional: &MsgValue) -> (r: Result<Option<V>, NeomacsError>)
    ensures
        match *optional {
            MsgValue::Ext(t, d) if t == EXTENSION_TYPE_OPTIONAL => match msgpack_front(d@) {
                Ok((MsgValue::Nil, _)) => r == Ok::<Option<V>, NeomacsError>(None),
                Ok((v, _)) => (r is Ok <==> V::decodes(v))
                    && (r matches Ok(x) ==> (x matches Some(y) && V::decodes_to(v, y)))
                    && (r matches Err(e) ==> e is MessagePackParse),
                Err(_) => r matches Err(NeomacsError::MessagePackDecode(_)),
            },
            _ => r matches Err(NeomacsError::MessagePackParse(m))
                && m@ == "Invalid optional value: "@ + display_text(*optional),
        },
{
    match optional.as_ext() {
        Some((t, data)) => {
            if t == EXTENSION_TYPE_OPTIONAL {
                match read_value(data.as_slice()) {
                    Ok(MsgValue::Nil) => Ok(None),
                    Ok(v) => match V::decode_value(v) {
                        Ok(x) => Ok(Some(x)),
                        Err(e) => Err(e),
                    },
                    Err(e) => Err(NeomacsError::MessagePackDecode(e)),
                }
            } else {
                Err(invalid_optional(optional))
            }
        },
        None => Err(invalid_optional(optional)),
    }
}

/// The error for a value that is not an optional value.
fn invalid_optional(value: &MsgValue) -> (e: NeomacsError)
    ensures
        e matches NeomacsError::MessagePackParse(m) && m@ == "Invalid optional value: "@ + display_text(*value),
{
    let mut text = String::from_str("Invalid optional value: ");
    let shown = value_display(value);
    text.append(shown.as_str());
    NeomacsError::MessagePackParse(text)
}

} // verus!
