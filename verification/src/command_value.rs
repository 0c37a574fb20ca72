//! Command values as MessagePack values: floats as 64-bit floats, and an
//! optional value as the optional-value extension, whose bytes hold the
//! MessagePack bytes of nil or of the inner value; and MessagePack values
//! read back as command values.

use crate::command::{Type, Value};
use crate::error::NeomacsError;
use crate::msgpack::{spec_as_str, spec_int, MsgInteger, MsgString, MsgValue};
use crate::rpc::codec::{
    canonical, canonical_all, ext_below, ext_bound, lemma_ext_below_grows, lemma_ext_bound, msgpack_bytes,
    msgpack_front, read_front, reads_back, write_value, writes_back, ReadOutcome,
};
use crate::rpc::convert::EncodeValue;
use crate::rpc::display::{display_text, value_display};
use crate::rpc::extensions::EXTENSION_TYPE_OPTIONAL;
use vstd::prelude::*;
use vstd::string::*;

verus! {

/// Whether `v` is how the command value `x` is written.
pub open spec fn value_encodes(x: Value, v: MsgValue) -> bool
    decreases x,
{
    match x {
        Value::Nil => v == MsgValue::Nil,
        Value::Boolean(b) => v == MsgValue::Boolean(b),
        Value::Integer(i) => if i < 0 {
            v == MsgValue::Integer(MsgInteger::NegInt(i))
        } else {
            v == MsgValue::Integer(MsgInteger::PosInt(i as u64))
        },
        Value::Float(bits) => v == MsgValue::F64(bits),
        Value::String(s) => v matches MsgValue::String(MsgString::Valid(t)) && t@ == s@,
        Value::Optional(o) => v matches MsgValue::Ext(t, d) && t == EXTENSION_TYPE_OPTIONAL
            && exists|inner: MsgValue| #![trigger msgpack_bytes(inner)]
                d@ == msgpack_bytes(inner)
                && (writes_back(inner) ==> reads_back(d@, inner))
                && match o {
                    None => inner == MsgValue::Nil,
                    Some(b) => value_encodes(*b, inner),
                },
        Value::List(l) => v matches MsgValue::Array(a) && a@.len() == l@.len()
            && forall|i: int| 0 <= i < l@.len() ==> value_encodes(#[trigger] l@[i], a@[i]),
        Value::Dict(m) => v matches MsgValue::Dict(a) && a@.len() == m@.len()
            && forall|i: int| 0 <= i < m@.len() ==> value_encodes((#[trigger] m@[i]).0, a@[i].0)
                && value_encodes(m@[i].1, a@[i].1),
    }
}

/// The most bytes MessagePack gives an extension value, plus one.
pub open spec fn ext_limit() -> nat {
    0x1_0000_0000
}

/// Whether the command value `x`, written into an optional value's bytes,
/// stays within what rmpv writes and reads back: its strings are shorter
/// than 2^30 chars, its lists and dictionaries hold at most `u32::MAX`
/// entries and nest at most `depth` deep, and so, counted afresh, within
/// every optional value in it.
pub open spec fn fits_within(x: Value, depth: nat) -> bool
    decreases x,
{
    match x {
        Value::String(s) => s@.len() < 0x4000_0000,
        Value::Optional(Some(b)) => fits_within(*b, 500),
        Value::List(l) => depth > 0 && l@.len() <= u32::MAX
            && forall|i: int| 0 <= i < l@.len() ==> fits_within(#[trigger] l@[i], (depth - 1) as nat),
        Value::Dict(m) => depth > 0 && m@.len() <= u32::MAX
            && forall|i: int| 0 <= i < m@.len() ==> fits_within((#[trigger] m@[i]).0, (depth - 1) as nat)
                && fits_within(m@[i].1, (depth - 1) as nat),
        _ => true,
    }
}

/// Whether what every optional value in `x` holds fits within what rmpv
/// writes and reads back (`fits_within`).
pub open spec fn optionals_fit(x: Value) -> bool
    decreases x,
{
    match x {
        Value::Optional(Some(b)) => fits_within(*b, 500),
        Value::List(l) => forall|i: int| 0 <= i < l@.len() ==> optionals_fit(#[trigger] l@[i]),
        Value::Dict(m) => forall|i: int| 0 <= i < m@.len() ==> optionals_fit((#[trigger] m@[i]).0)
            && optionals_fit(m@[i].1),
        _ => true,
    }
}

proof fn lemma_fits_within_optionals(x: Value, depth: nat)
    requires
        fits_within(x, depth),
    ensures
        optionals_fit(x),
    decreases x,
{
    match x {
        Value::List(l) => {
            assert forall|i: int| 0 <= i < l@.len() implies optionals_fit(#[trigger] l@[i]) by {
                lemma_fits_within_optionals(l@[i], (depth - 1) as nat);
            }
        },
        Value::Dict(m) => {
            assert forall|i: int| 0 <= i < m@.len() implies optionals_fit((#[trigger] m@[i]).0) && optionals_fit(m@[i].1) by {
                lemma_fits_within_optionals(m@[i].0, (depth - 1) as nat);
                lemma_fits_within_optionals(m@[i].1, (depth - 1) as nat);
            }
        },
        _ => {},
    }
}

proof fn lemma_fits_canonical(x: Value, v: MsgValue, depth: nat)
    requires
        value_encodes(x, v),
        fits_within(x, depth),
        ext_below(v, ext_limit()),
    ensures
        canonical(v, depth),
    decreases x,
{
    match x {
        Value::List(l) => {
            let a = v->Array_0;
            assert forall|i: int| 0 <= i < a@.len() implies canonical(#[trigger] a@[i], (depth - 1) as nat) by {
                lemma_fits_canonical(l@[i], a@[i], (depth - 1) as nat);
            }
        },
        Value::Dict(m) => {
            let a = v->Dict_0;
            let ks = a@.map_values(|e: (MsgValue, MsgValue)| e.0);
            let ws = a@.map_values(|e: (MsgValue, MsgValue)| e.1);
            assert forall|i: int| 0 <= i < ks.len() implies canonical(#[trigger] ks[i], (depth - 1) as nat) by {
                lemma_fits_canonical(m@[i].0, a@[i].0, (depth - 1) as nat);
            }
            assert forall|i: int| 0 <= i < ws.len() implies canonical(#[trigger] ws[i], (depth - 1) as nat) by {
                lemma_fits_canonical(m@[i].1, a@[i].1, (depth - 1) as nat);
            }
        },
        _ => {},
    }
}

/// Writes the command value `x` as a MessagePack value. Where what its
/// optional values hold fits within what rmpv writes and reads back, and
/// the bytes of each fit MessagePack's 32-bit length, the bytes of every
/// optional value read back as what was written into them.
pub fn encode_command_value(x: &Value) -> (v: MsgValue)
    ensures
        value_encodes(*x, v),
        optionals_fit(*x) && ext_below(v, ext_limit()) ==> encodes_readably(*x, v),
    decreases x,
{
    match x {
        Value::Nil => MsgValue::Nil,
        Value::Boolean(b) => MsgValue::Boolean(*b),
        Value::Integer(i) => MsgValue::from_i64(*i),
        Value::Float(bits) => MsgValue::F64(*bits),
        Value::String(s) => MsgValue::String(MsgString::Valid(s.clone())),
        Value::Optional(o) => {
            let inner = match o {
                None => MsgValue::Nil,
                Some(b) => encode_command_value(b),
            };
            let bytes = write_value(&inner);
            assert(msgpack_bytes(inner) == bytes@);
            let v = MsgValue::Ext(EXTENSION_TYPE_OPTIONAL, bytes);
            proof {
                if optionals_fit(*x) && ext_below(v, ext_limit()) {
                    lemma_ext_below_grows(inner, bytes@.len(), ext_limit());
                    match o {
                        None => {},
                        Some(b) => {
                            lemma_fits_within_optionals(**b, 500);
                            lemma_fits_canonical(**b, inner, 500);
                        },
                    }
                    assert(writes_back(inner));
                    assert(bytes@ + Seq::<u8>::empty() == bytes@);
                    assert(msgpack_front(bytes@ + Seq::<u8>::empty()) == Ok::<(MsgValue, nat), bool>((inner, bytes@.len())));
                }
            }
            v
        },
        Value::List(l) => {
            let mut out: Vec<MsgValue> = Vec::new();
            let mut i: usize = 0;
            while i < l.len()
                invariant
                    *x == Value::List(*l),
                    i <= l@.len(),
                    out@.len() == i,
                    forall|j: int| 0 <= j < i ==> value_encodes(#[trigger] l@[j], out@[j]),
                    forall|j: int| 0 <= j < i ==> (optionals_fit(#[trigger] l@[j]) && ext_below(out@[j], ext_limit())
                        ==> encodes_readably(l@[j], out@[j])),
                decreases l@.len() - i,
            {
                proof {
                    assert(decreases_to!(*x => (*x)->List_0));
                    assert(decreases_to!(*l => l@));
                    assert(decreases_to!(l@ => l@[i as int]));
                }
                let e = encode_command_value(&l[i]);
                out.push(e);
                i += 1;
            }
            MsgValue::Array(out)
        },
        Value::Dict(m) => {
            let mut out: Vec<(MsgValue, MsgValue)> = Vec::new();
            let mut i: usize = 0;
            while i < m.len()
                invariant
                    *x == Value::Dict(*m),
                    i <= m@.len(),
                    out@.len() == i,
                    forall|j: int| 0 <= j < i ==> value_encodes((#[trigger] m@[j]).0, out@[j].0)
                        && value_encodes(m@[j].1, out@[j].1),
                    forall|j: int| 0 <= j < i ==> (optionals_fit((#[trigger] m@[j]).0) && ext_below(out@[j].0, ext_limit())
                        ==> encodes_readably(m@[j].0, out@[j].0)),
                    forall|j: int| 0 <= j < i ==> (optionals_fit((#[trigger] m@[j]).1) && ext_below(out@[j].1, ext_limit())
                        ==> encodes_readably(m@[j].1, out@[j].1)),
                decreases m@.len() - i,
            {
                proof {
                    assert(decreases_to!(*x => (*x)->Dict_0));
                    assert(decreases_to!(*m => m@));
                    assert(decreases_to!(m@ => m@[i as int]));
                    assert(decreases_to!(m@[i as int] => m@[i as int].0));
                    assert(decreases_to!(m@[i as int] => m@[i as int].1));
                }
                let k = encode_command_value(&m[i].0);
                let w = encode_command_value(&m[i].1);
                out.push((k, w));
                i += 1;
            }
            MsgValue::Dict(out)
        },
    }
}

impl EncodeValue for Value {
    open spec fn encodes_to(&self, v: MsgValue) -> bool {
        value_encodes(*self, v)
    }

    fn encode_value(&self) -> (v: MsgValue) {
        encode_command_value(self)
    }
}

/// What stops a MessagePack value from being read as a command value.
pub enum ReadFault {
    /// An optional value whose bytes are not MessagePack.
    Unreadable,
    /// A value (the one held) that no command value is written as.
    Invalid(MsgValue),
    /// An integer above `i64::MAX`, or a string that is not UTF-8: reading
    /// one does not return.
    Panics,
}

/// What first stops `v` from being read as a command value, going through
/// lists and dictionaries in order (a dictionary's key before its value)
/// and into the bytes of optional values; `None` where nothing does. Every
/// extension value met is taken to hold fewer than `b` bytes.
pub open spec fn command_fault(v: MsgValue, b: nat) -> Option<ReadFault>
    decreases b, v,
{
    match v {
        MsgValue::Integer(n) => if n.value() <= i64::MAX { None } else { Some(ReadFault::Panics) },
        MsgValue::String(MsgString::Invalid(_)) => Some(ReadFault::Panics),
        MsgValue::Binary(_) => Some(ReadFault::Invalid(v)),
        MsgValue::Array(a) => seq_fault(a@, b),
        MsgValue::Dict(m) => pairs_fault(m@, b),
        MsgValue::Ext(t, d) => if t != EXTENSION_TYPE_OPTIONAL {
            Some(ReadFault::Invalid(v))
        } else {
            match msgpack_front(d@) {
                Err(_) => Some(ReadFault::Unreadable),
                Ok((inner, n)) => if inner is Nil || n >= b { None } else { command_fault(inner, n) },
            }
        },
        _ => None,
    }
}

/// What first stops a value of `s` from being read, in order.
pub open spec fn seq_fault(s: Seq<MsgValue>, b: nat) -> Option<ReadFault>
    decreases b, s,
{
    if s.len() == 0 {
        None
    } else {
        match command_fault(s[0], b) {
            Some(f) => Some(f),
            None => seq_fault(s.subrange(1, s.len() as int), b),
        }
    }
}

/// What first stops a key or value of `s` from being read, in order.
pub open spec fn pairs_fault(s: Seq<(MsgValue, MsgValue)>, b: nat) -> Option<ReadFault>
    decreases b, s,
{
    if s.len() == 0 {
        None
    } else {
        match command_fault(s[0].0, b) {
            Some(f) => Some(f),
            None => match command_fault(s[0].1, b) {
                Some(f) => Some(f),
                None => pairs_fault(s.subrange(1, s.len() as int), b),
            },
        }
    }
}

/// Whether `v` reads as the command value `x`, a 32-bit float `bits`
/// widened to the 64-bit float `w` where `widens(bits, w)`. Every extension
/// value met is taken to hold fewer than `b` bytes.
pub open spec fn decodes_as(v: MsgValue, x: Value, widens: spec_fn(u32, u64) -> bool, b: nat) -> bool
    decreases b, v,
{
    match v {
        MsgValue::Nil => x == Value::Nil,
        MsgValue::Boolean(c) => x == Value::Boolean(c),
        MsgValue::Integer(n) => x == Value::Integer(n.value() as i64),
        MsgValue::F32(bits) => x matches Value::Float(w) && widens(bits, w),
        MsgValue::F64(bits) => x == Value::Float(bits),
        MsgValue::String(MsgString::Valid(s)) => x matches Value::String(t) && t@ == s@,
        MsgValue::Array(a) => x matches Value::List(l) && l@.len() == a@.len()
            && forall|i: int| 0 <= i < a@.len() ==> decodes_as(#[trigger] a@[i], l@[i], widens, b),
        MsgValue::Dict(m) => x matches Value::Dict(l) && l@.len() == m@.len()
            && forall|i: int| 0 <= i < m@.len() ==> decodes_as((#[trigger] m@[i]).0, l@[i].0, widens, b)
                && decodes_as(m@[i].1, l@[i].1, widens, b),
        MsgValue::Ext(_, d) => x matches Value::Optional(o) && match msgpack_front(d@) {
            Ok((inner, n)) => if inner is Nil {
                o is None
            } else {
                n < b && (o matches Some(y) && decodes_as(inner, *y, widens, n))
            },
            Err(_) => false,
        },
        _ => false,
    }
}

/// The text of the error for a value `v` that no command value is written
/// as.
pub open spec fn invalid_input_text(v: MsgValue) -> Seq<char> {
    "Invalid command input value: "@ + display_text(v)
}

/// What `widen` may give for a 32-bit float's bits: `widens_by(widen)(bits, w)`
/// where `w` is a result it may return for `bits`.
pub open spec fn widens_by<W: Fn(u32) -> u64>(widen: W) -> spec_fn(u32, u64) -> bool {
    |bits: u32, w: u64| widen.ensures((bits,), w)
}

/// Whether `r` is what reading `v` as a command value gives, where reading
/// it returns: the command value it reads as (32-bit floats widened as
/// `widens` allows), or the error for what first stops it.
pub open spec fn decodes_command(v: MsgValue, r: Result<Value, NeomacsError>, widens: spec_fn(u32, u64) -> bool) -> bool {
    match command_fault(v, ext_bound(v)) {
        None => r matches Ok(x) && decodes_as(v, x, widens, ext_bound(v)),
        Some(ReadFault::Invalid(w)) => r matches Err(NeomacsError::MessagePackParse(m)) && m@ == invalid_input_text(w),
        Some(ReadFault::Unreadable) => r matches Err(NeomacsError::MessagePackDecode(_)),
        Some(ReadFault::Panics) => false,
    }
}

/// The error for a value that no command value is written as.
fn invalid_input(value: &MsgValue) -> (e: NeomacsError)
    ensures
        e matches NeomacsError::MessagePackParse(m) && m@ == invalid_input_text(*value),
{
    let mut text = String::from_str("Invalid command input value: ");
    let shown = value_display(value);
    text.append(shown.as_str());
    NeomacsError::MessagePackParse(text)
}

/// Reads `value` as a command value, with every extension value in it
/// holding fewer than `b` bytes; `None` where the reading would not return.
fn decode_within<W: Fn(u32) -> u64>(value: &MsgValue, widen: &W, Ghost(b): Ghost<nat>) -> (r: Option<Result<Value, NeomacsError>>)
    requires
        ext_below(*value, b),
        forall|bits: u32| widen.requires((bits,)),
    ensures
        match command_fault(*value, b) {
            None => r matches Some(Ok(x)) && decodes_as(*value, x, widens_by(*widen), b),
            Some(ReadFault::Invalid(w)) => r matches Some(Err(NeomacsError::MessagePackParse(m))) && m@ == invalid_input_text(w),
            Some(ReadFault::Unreadable) => r matches Some(Err(NeomacsError::MessagePackDecode(_))),
            Some(ReadFault::Panics) => r is None,
        },
    decreases b, *value,
{
    match value {
        MsgValue::Nil => Some(Ok(Value::Nil)),
        MsgValue::Boolean(c) => Some(Ok(Value::Boolean(*c))),
        MsgValue::Integer(n) => match n.as_i64() {
            Some(i) => Some(Ok(Value::Integer(i))),
            None => None,
        },
        MsgValue::F32(bits) => {
            let w = widen(*bits);
            Some(Ok(Value::Float(w)))
        },
        MsgValue::F64(bits) => Some(Ok(Value::Float(*bits))),
        MsgValue::String(MsgString::Valid(s)) => Some(Ok(Value::String(s.clone()))),
        MsgValue::String(MsgString::Invalid(_)) => None,
        MsgValue::Binary(_) => Some(Err(invalid_input(value))),
        MsgValue::Array(a) => {
            let mut out: Vec<Value> = Vec::new();
            let mut i: usize = 0;
            assert(a@.subrange(0, a@.len() as int) =~= a@);
            while i < a.len()
                invariant
                    *value == MsgValue::Array(*a),
                    ext_below(*value, b),
                    forall|bits: u32| widen.requires((bits,)),
                    i <= a@.len(),
                    out@.len() == i,
                    forall|j: int| 0 <= j < i ==> decodes_as(#[trigger] a@[j], out@[j], widens_by(*widen), b),
                    seq_fault(a@, b) == seq_fault(a@.subrange(i as int, a@.len() as int), b),
                decreases a@.len() - i,
            {
                proof {
                    assert(decreases_to!(*value => (*value)->Array_0));
                    assert(decreases_to!(*a => a@));
                    assert(decreases_to!(a@ => a@[i as int]));
                    let rest = a@.subrange(i as int, a@.len() as int);
                    assert(rest[0] == a@[i as int]);
                    assert(rest.subrange(1, rest.len() as int) =~= a@.subrange(i + 1, a@.len() as int));
                }
                match decode_within(&a[i], widen, Ghost(b)) {
                    None => return None,
                    Some(Err(e)) => return Some(Err(e)),
                    Some(Ok(x)) => out.push(x),
                }
                i += 1;
            }
            Some(Ok(Value::List(out)))
        },
        MsgValue::Dict(m) => {
            let mut out: Vec<(Value, Value)> = Vec::new();
            let mut i: usize = 0;
            assert(m@.subrange(0, m@.len() as int) =~= m@);
            while i < m.len()
                invariant
                    *value == MsgValue::Dict(*m),
                    ext_below(*value, b),
                    forall|bits: u32| widen.requires((bits,)),
                    i <= m@.len(),
                    out@.len() == i,
                    forall|j: int| 0 <= j < i ==> decodes_as((#[trigger] m@[j]).0, out@[j].0, widens_by(*widen), b)
                        && decodes_as(m@[j].1, out@[j].1, widens_by(*widen), b),
                    pairs_fault(m@, b) == pairs_fault(m@.subrange(i as int, m@.len() as int), b),
                decreases m@.len() - i,
            {
                proof {
                    assert(decreases_to!(*value => (*value)->Dict_0));
                    assert(decreases_to!(*m => m@));
                    assert(decreases_to!(m@ => m@[i as int]));
                    assert(decreases_to!(m@[i as int] => m@[i as int].0));
                    assert(decreases_to!(m@[i as int] => m@[i as int].1));
                    let rest = m@.subrange(i as int, m@.len() as int);
                    assert(rest[0] == m@[i as int]);
                    assert(rest.subrange(1, rest.len() as int) =~= m@.subrange(i + 1, m@.len() as int));
                }
                let k = match decode_within(&m[i].0, widen, Ghost(b)) {
                    None => return None,
                    Some(Err(e)) => return Some(Err(e)),
                    Some(Ok(x)) => x,
                };
                let w = match decode_within(&m[i].1, widen, Ghost(b)) {
                    None => return None,
                    Some(Err(e)) => return Some(Err(e)),
                    Some(Ok(x)) => x,
                };
                out.push((k, w));
                i += 1;
            }
            Some(Ok(Value::Dict(out)))
        },
        MsgValue::Ext(t, d) => {
            if *t != EXTENSION_TYPE_OPTIONAL {
                return Some(Err(invalid_input(value)));
            }
            match read_front(d.as_slice()) {
                ReadOutcome::Complete(inner, n) => {
                    if inner.is_nil() {
                        Some(Ok(Value::Optional(None)))
                    } else {
                        match decode_within(&inner, widen, Ghost(n as nat)) {
                            None => None,
                            Some(Err(e)) => Some(Err(e)),
                            Some(Ok(x)) => Some(Ok(Value::Optional(Some(Box::new(x))))),
                        }
                    }
                },
                ReadOutcome::UnexpectedEof(e) => Some(Err(NeomacsError::MessagePackDecode(e))),
                ReadOutcome::Failed(e) => Some(Err(NeomacsError::MessagePackDecode(e))),
            }
        },
    }
}

impl Value {
    /// Reads a command value from a MessagePack value: nil, booleans,
    /// integers, floats (a 32-bit float widened to 64 bits by `widen`) and
    /// strings as themselves, arrays as lists and maps as dictionaries, and
    /// an optional-value extension as an optional value, read from its
    /// bytes. Binary data and other extensions are errors that quote the
    /// value, and bytes that are not MessagePack give rmpv's error; the
    /// first of these met, in order, is returned. An integer above
    /// `i64::MAX` or a string that is not UTF-8 is not read (`requires`).
    pub fn decode_value<W: Fn(u32) -> u64>(value: MsgValue, widen: &W) -> (r: Result<Value, NeomacsError>)
        requires
            forall|bits: u32| widen.requires((bits,)),
            command_fault(value, ext_bound(value)) != Some(ReadFault::Panics),
        ensures
            decodes_command(value, r, widens_by(*widen)),
    {
        proof {
            lemma_ext_bound(value);
        }
        decode_within(&value, widen, Ghost(ext_bound(value))).unwrap()
    }

    /// Reads a command value from a MessagePack value as `decode_value`
    /// does, first finding out whether it can: `None` where the value holds
    /// an integer above `i64::MAX` or a string that is not UTF-8 before
    /// anything that stops the reading.
    pub fn decode_value_checked<W: Fn(u32) -> u64>(value: MsgValue, widen: &W) -> (r: Option<Result<Value, NeomacsError>>)
        requires
            forall|bits: u32| widen.requires((bits,)),
        ensures
            r is None <==> command_fault(value, ext_bound(value)) == Some(ReadFault::Panics),
            r matches Some(d) ==> decodes_command(value, d, widens_by(*widen)),
    {
        proof {
            lemma_ext_bound(value);
        }
        decode_within(&value, widen, Ghost(ext_bound(value)))
    }
}

/// Whether the command values `x` and `y` are the same, strings and lists
/// compared by what they hold.
pub open spec fn same_command_value(x: Value, y: Value) -> bool
    decreases x,
{
    match x {
        Value::Nil => y is Nil,
        Value::Boolean(c) => y == Value::Boolean(c),
        Value::Integer(i) => y == Value::Integer(i),
        Value::Float(bits) => y == Value::Float(bits),
        Value::String(s) => y matches Value::String(t) && t@ == s@,
        Value::Optional(o) => y matches Value::Optional(p) && match o {
            None => p is None,
            Some(a) => p matches Some(c) && same_command_value(*a, *c),
        },
        Value::List(l) => y matches Value::List(k) && k@.len() == l@.len()
            && forall|i: int| 0 <= i < l@.len() ==> same_command_value(#[trigger] l@[i], k@[i]),
        Value::Dict(m) => y matches Value::Dict(k) && k@.len() == m@.len()
            && forall|i: int| 0 <= i < m@.len() ==> same_command_value((#[trigger] m@[i]).0, k@[i].0)
                && same_command_value(m@[i].1, k@[i].1),
    }
}

/// Whether no optional value in `x` holds nil (an optional nil is written
/// as an absent value is, and reads back as one).
pub open spec fn optionals_hold_values(x: Value) -> bool
    decreases x,
{
    match x {
        Value::Optional(Some(b)) => !(*b is Nil) && optionals_hold_values(*b),
        Value::List(l) => forall|i: int| 0 <= i < l@.len() ==> optionals_hold_values(#[trigger] l@[i]),
        Value::Dict(m) => forall|i: int| 0 <= i < m@.len() ==> optionals_hold_values((#[trigger] m@[i]).0)
            && optionals_hold_values(m@[i].1),
        _ => true,
    }
}

/// Whether `v` is how the command value `x` is written (as
/// `value_encodes` says), with the bytes of every optional value in it
/// reading back, whole, as the value written into them.
pub open spec fn encodes_readably(x: Value, v: MsgValue) -> bool
    decreases x,
{
    match x {
        Value::Optional(o) => v matches MsgValue::Ext(t, d) && t == EXTENSION_TYPE_OPTIONAL
            && exists|inner: MsgValue| #![trigger msgpack_bytes(inner)]
                d@ == msgpack_bytes(inner)
                && msgpack_front(d@) == Ok::<(MsgValue, nat), bool>((inner, d@.len()))
                && match o {
                    None => inner == MsgValue::Nil,
                    Some(b) => encodes_readably(*b, inner),
                },
        Value::List(l) => v matches MsgValue::Array(a) && a@.len() == l@.len()
            && forall|i: int| 0 <= i < l@.len() ==> encodes_readably(#[trigger] l@[i], a@[i]),
        Value::Dict(m) => v matches MsgValue::Dict(a) && a@.len() == m@.len()
            && forall|i: int| 0 <= i < m@.len() ==> encodes_readably((#[trigger] m@[i]).0, a@[i].0)
                && encodes_readably(m@[i].1, a@[i].1),
        _ => value_encodes(x, v),
    }
}

proof fn lemma_seq_fault_none(s: Seq<MsgValue>, b: nat)
    requires
        forall|i: int| 0 <= i < s.len() ==> command_fault(#[trigger] s[i], b) is None,
    ensures
        seq_fault(s, b) is None,
    decreases s.len(),
{
    if s.len() > 0 {
        let t = s.subrange(1, s.len() as int);
        assert forall|i: int| 0 <= i < t.len() implies command_fault(#[trigger] t[i], b) is None by {
            assert(t[i] == s[i + 1]);
        }
        lemma_seq_fault_none(t, b);
        assert(command_fault(s[0], b) is None);
    }
}

proof fn lemma_pairs_fault_none(s: Seq<(MsgValue, MsgValue)>, b: nat)
    requires
        forall|i: int| 0 <= i < s.len() ==> command_fault((#[trigger] s[i]).0, b) is None && command_fault(s[i].1, b) is None,
    ensures
        pairs_fault(s, b) is None,
    decreases s.len(),
{
    if s.len() > 0 {
        let t = s.subrange(1, s.len() as int);
        assert forall|i: int| 0 <= i < t.len() implies command_fault((#[trigger] t[i]).0, b) is None && command_fault(t[i].1, b) is None by {
            assert(t[i] == s[i + 1]);
        }
        lemma_pairs_fault_none(t, b);
        assert(command_fault(s[0].0, b) is None);
        assert(command_fault(s[0].1, b) is None);
    }
}

/// Reading back a written command value gives the value again, wherever
/// the bytes of the optional values in it read back as what was written
/// into them and none of them holds nil: nothing stops the reading, and
/// what it reads is the same value (strings and lists compared by what they
/// hold), whatever bound the reading is given and however 32-bit floats
/// widen.
pub proof fn law_command_value_roundtrip(x: Value, v: MsgValue, b: nat, widens: spec_fn(u32, u64) -> bool, y: Value)
    requires
        encodes_readably(x, v),
        optionals_hold_values(x),
    ensures
        command_fault(v, b) is None,
        decodes_as(v, y, widens, b) ==> same_command_value(x, y),
    decreases x,
{
    match x {
        Value::Optional(o) => {
            let d = v->Ext_1;
            let inner = choose|inner: MsgValue| #![trigger msgpack_bytes(inner)]
                d@ == msgpack_bytes(inner)
                && msgpack_front(d@) == Ok::<(MsgValue, nat), bool>((inner, d@.len()))
                && match o {
                    None => inner == MsgValue::Nil,
                    Some(bx) => encodes_readably(*bx, inner),
                };
            match o {
                None => {},
                Some(bx) => {
                    assert(decreases_to!(x => bx));
                    let yi = match y {
                        Value::Optional(Some(c)) => *c,
                        _ => Value::Nil,
                    };
                    law_command_value_roundtrip(*bx, inner, d@.len(), widens, yi);
                },
            }
        },
        Value::List(l) => {
            let a = v->Array_0;
            assert forall|i: int| 0 <= i < a@.len() implies command_fault(#[trigger] a@[i], b) is None by {
                assert(decreases_to!(x => l@[i]));
                law_command_value_roundtrip(l@[i], a@[i], b, widens, Value::Nil);
            }
            lemma_seq_fault_none(a@, b);
            if decodes_as(v, y, widens, b) {
                let k = y->List_0;
                assert forall|i: int| 0 <= i < l@.len() implies same_command_value(#[trigger] l@[i], k@[i]) by {
                    assert(decreases_to!(x => l@[i]));
                    law_command_value_roundtrip(l@[i], a@[i], b, widens, k@[i]);
                }
            }
        },
        Value::Dict(m) => {
            let a = v->Dict_0;
            assert forall|i: int| 0 <= i < a@.len() implies command_fault((#[trigger] a@[i]).0, b) is None
                && command_fault(a@[i].1, b) is None by {
                assert(decreases_to!(x => m@[i].0));
                assert(decreases_to!(x => m@[i].1));
                law_command_value_roundtrip(m@[i].0, a@[i].0, b, widens, Value::Nil);
                law_command_value_roundtrip(m@[i].1, a@[i].1, b, widens, Value::Nil);
            }
            lemma_pairs_fault_none(a@, b);
            if decodes_as(v, y, widens, b) {
                let k = y->Dict_0;
                assert forall|i: int| 0 <= i < m@.len() implies same_command_value((#[trigger] m@[i]).0, k@[i].0)
                    && same_command_value(m@[i].1, k@[i].1) by {
                    assert(decreases_to!(x => m@[i].0));
                    assert(decreases_to!(x => m@[i].1));
                    law_command_value_roundtrip(m@[i].0, a@[i].0, b, widens, k@[i].0);
                    law_command_value_roundtrip(m@[i].1, a@[i].1, b, widens, k@[i].1);
                }
            }
        },
        _ => {},
    }
}

/// How a command value is written, part by part: nil, a boolean, an
/// integer, a float and a string as the MessagePack value holding the same
/// thing; an optional value as the optional-value extension; a list as the
/// array whose element `i` is how element `i` of the list is written; a
/// dictionary as the map whose entry `i` holds how the key and the value of
/// entry `i` are written.
pub proof fn law_command_value_written_in_place(x: Value, v: MsgValue)
    requires
        value_encodes(x, v),
    ensures
        x is Nil ==> v is Nil,
        x matches Value::Boolean(c) ==> v == MsgValue::Boolean(c),
        x matches Value::Integer(i) ==> spec_int(v) == Some(i as int),
        x matches Value::Float(bits) ==> v == MsgValue::F64(bits),
        x matches Value::String(s) ==> spec_as_str(v) == Some(s@),
        x is Optional ==> (v matches MsgValue::Ext(t, _) && t == EXTENSION_TYPE_OPTIONAL),
        x matches Value::List(l) ==> (v matches MsgValue::Array(a) && a@.len() == l@.len()
            && forall|i: int| 0 <= i < l@.len() ==> value_encodes(#[trigger] l@[i], a@[i])),
        x matches Value::Dict(m) ==> (v matches MsgValue::Dict(a) && a@.len() == m@.len()
            && forall|i: int| 0 <= i < m@.len() ==> value_encodes((#[trigger] m@[i]).0, a@[i].0)
                && value_encodes(m@[i].1, a@[i].1)),
{
}

/// The kind of MessagePack value a command value is written as follows its
/// type: integers as integers, floats as 64-bit floats, strings as strings,
/// optional values as extensions, lists as arrays, dictionaries as maps.
pub proof fn law_written_kind_follows_type(x: Value, v: MsgValue)
    requires
        value_encodes(x, v),
    ensures
        x.spec_type() == Type::Nil <==> v is Nil,
        x.spec_type() == Type::Boolean <==> v is Boolean,
        x.spec_type() == Type::Integer <==> v is Integer,
        x.spec_type() == Type::Float <==> v is F64,
        x.spec_type() == Type::String <==> v is String,
        x.spec_type() == Type::Optional <==> v is Ext,
        x.spec_type() == Type::List <==> v is Array,
        x.spec_type() == Type::Dict <==> v is Dict,
{
}

/// How a MessagePack value reads as a command value, part by part: nil, a
/// boolean, an integer, a 64-bit float and a string as the command value
/// holding the same thing; a 32-bit float as a float its widening allows;
/// an extension as an optional value; an array as the list whose element
/// `i` is what element `i` of the array reads as; a map as the dictionary
/// whose entry `i` holds what the key and the value of entry `i` read as.
pub proof fn law_command_value_read_in_place(v: MsgValue, x: Value, widens: spec_fn(u32, u64) -> bool, b: nat)
    requires
        decodes_as(v, x, widens, b),
    ensures
        v is Nil ==> x is Nil,
        v matches MsgValue::Boolean(c) ==> x == Value::Boolean(c),
        v matches MsgValue::Integer(n) ==> (n.value() <= i64::MAX ==> (x matches Value::Integer(k) && k == n.value())),
        v matches MsgValue::F64(bits) ==> x == Value::Float(bits),
        v matches MsgValue::F32(bits) ==> (x matches Value::Float(w) && widens(bits, w)),
        v matches MsgValue::String(s) ==> (x matches Value::String(t) && spec_as_str(v) == Some(t@)),
        v is Ext ==> x is Optional,
        v is Binary ==> false,
        v matches MsgValue::Array(a) ==> (x matches Value::List(l) && l@.len() == a@.len()
            && forall|i: int| 0 <= i < a@.len() ==> decodes_as(#[trigger] a@[i], l@[i], widens, b)),
        v matches MsgValue::Dict(m) ==> (x matches Value::Dict(l) && l@.len() == m@.len()
            && forall|i: int| 0 <= i < m@.len() ==> decodes_as((#[trigger] m@[i]).0, l@[i].0, widens, b)
                && decodes_as(m@[i].1, l@[i].1, widens, b)),
{
}

} // verus!
