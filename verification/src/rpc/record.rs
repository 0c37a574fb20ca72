//! Records sent as MessagePack maps from field names to values: which maps
//! read as a record, and the step by which a reader takes in one entry.
//!
//! A map reads as a record when every key is a string, every entry under a
//! field's name reads as that field's type, and every field has an entry.
//! Where a field's name occurs more than once, the last entry gives its value.

use crate::error::NeomacsError;
use crate::msgpack::{spec_as_str, MsgValue};
use crate::rpc::convert::DecodeValue;
use vstd::prelude::*;

verus! {

/// The last value in `m` under the key `name`, if any.
pub open spec fn last_field(m: Seq<(MsgValue, MsgValue)>, name: Seq<char>) -> Option<MsgValue>
    decreases m.len(),
{
    if m.len() == 0 {
        None
    } else if spec_as_str(m.last().0) == Some(name) {
        Some(m.last().1)
    } else {
        last_field(m.drop_last(), name)
    }
}

/// Every key of `m` is a string.
pub open spec fn keys_are_strings(m: Seq<(MsgValue, MsgValue)>) -> bool {
    forall|i: int| 0 <= i < m.len() ==> spec_as_str(#[trigger] m[i].0) is Some
}

/// Every entry of `m` under the key `name` reads as a `T`.
pub open spec fn field_decodes<T: DecodeValue>(m: Seq<(MsgValue, MsgValue)>, name: Seq<char>) -> bool {
    forall|i: int| 0 <= i < m.len() && spec_as_str(#[trigger] m[i].0) == Some(name) ==> T::decodes(m[i].1)
}

/// The last entry of `m` under the key `name` reads as `x`.
pub open spec fn field_reads<T: DecodeValue>(m: Seq<(MsgValue, MsgValue)>, name: Seq<char>, x: T) -> bool {
    last_field(m, name) matches Some(v) && T::decodes_to(v, x)
}

/// What a reader that has taken in the entries `m` holds for the field
/// `name`: the value of its last entry, or nothing where it has none; and
/// every entry under `name` so far has read.
pub open spec fn slot_holds<T: DecodeValue>(m: Seq<(MsgValue, MsgValue)>, name: Seq<char>, slot: Option<T>) -> bool {
    &&& field_decodes::<T>(m, name)
    &&& match last_field(m, name) {
        Some(v) => slot matches Some(x) && T::decodes_to(v, x),
        None => slot is None,
    }
}

/// Taking in one more entry: the slot of its key takes its value, the
/// other slots stay as they are.
pub proof fn lemma_slot_step<T: DecodeValue>(
    m: Seq<(MsgValue, MsgValue)>,
    e: (MsgValue, MsgValue),
    name: Seq<char>,
    slot: Option<T>,
    next: Option<T>,
)
    requires
        slot_holds(m, name, slot),
        spec_as_str(e.0) == Some(name) ==> T::decodes(e.1) && (next matches Some(x) && T::decodes_to(e.1, x)),
        spec_as_str(e.0) != Some(name) ==> next == slot,
    ensures
        slot_holds(m.push(e), name, next),
{
    let p = m.push(e);
    assert(p.drop_last() =~= m);
    assert(p.last() == e);
    assert forall|i: int| 0 <= i < p.len() && spec_as_str(#[trigger] p[i].0) == Some(name) implies T::decodes(p[i].1) by {
        if i < m.len() {
            assert(p[i] == m[i]);
        }
    }
}

/// The entries of `m` before index `k + 1` are those before `k`, and then
/// the one at `k`.
pub proof fn lemma_prefix_step(m: Seq<(MsgValue, MsgValue)>, k: int)
    requires
        0 <= k < m.len(),
    ensures
        m.subrange(0, k + 1) == m.subrange(0, k).push(m[k]),
        keys_are_strings(m.subrange(0, k)) && spec_as_str(m[k].0) is Some ==> keys_are_strings(m.subrange(0, k + 1)),
{
    assert(m.subrange(0, k + 1) =~= m.subrange(0, k).push(m[k]));
    if keys_are_strings(m.subrange(0, k)) && spec_as_str(m[k].0) is Some {
        assert forall|i: int| 0 <= i < k + 1 implies spec_as_str(#[trigger] m.subrange(0, k + 1)[i].0) is Some by {
            if i < k {
                assert(m.subrange(0, k + 1)[i] == m.subrange(0, k)[i]);
            }
        }
    }
}

/// Reads `value` into `slot`.
pub fn read_slot<T: DecodeValue>(slot: &mut Option<T>, value: MsgValue) -> (r: Result<(), NeomacsError>)
    ensures
        r is Ok <==> T::decodes(value),
        r is Ok ==> (*final(slot) matches Some(x) && T::decodes_to(value, x)),
        r matches Err(e) ==> e is MessagePackParse,
{
    match T::decode_value(value) {
        Ok(x) => {
            *slot = Some(x);
            Ok(())
        },
        Err(e) => Err(e),
    }
}

} // verus!
