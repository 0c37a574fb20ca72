//! The rope that holds a buffer's text (the `ropey` crate), seen as the
//! sequence of chars it holds.

use ropey::{Rope, RopeSlice};
use vstd::prelude::*;
use vstd::utf8::{decode_utf8, valid_utf8};

verus! {

#[verifier::external_type_specification]
#[verifier::external_body]
pub struct ExRope(Rope);

#[verifier::external_type_specification]
#[verifier::external_body]
pub struct ExRopeSlice<'a>(RopeSlice<'a>);

/// `Rope::clone`: a rope holding the same chars (ropey's clones share the
/// text).
pub assume_specification[ <Rope as Clone>::clone ](r: &Rope) -> (res: Rope)
    ensures
        rope_chars(res) == rope_chars(*r),
;

/// The chars that a rope holds.
pub uninterp spec fn rope_chars(r: Rope) -> Seq<char>;

/// The chars that a rope slice holds.
pub uninterp spec fn slice_chars(s: RopeSlice) -> Seq<char>;

/// `s` with `text` put in at char index `at`.
pub open spec fn spec_insert(s: Seq<char>, at: int, text: Seq<char>) -> Seq<char> {
    s.subrange(0, at) + text + s.subrange(at, s.len() as int)
}

/// `s` without the chars from `start` up to (not including) `end`.
pub open spec fn spec_remove(s: Seq<char>, start: int, end: int) -> Seq<char> {
    s.subrange(0, start) + s.subrange(end, s.len() as int)
}

/// Removing the text just inserted gives back the text as it was: after
/// `insert` at a point `p`, the region from `p` to the moved point holds
/// exactly the inserted text, and `remove` takes it out again.
pub proof fn law_insert_then_remove(s: Seq<char>, p: int, t: Seq<char>)
    requires
        0 <= p <= s.len(),
    ensures
        spec_insert(s, p, t).subrange(p, p + t.len()) == t,
        spec_remove(spec_insert(s, p, t), p, p + t.len()) == s,
{
    let ins = spec_insert(s, p, t);
    assert(ins.subrange(p, p + t.len()) =~= t);
    assert(spec_remove(ins, p, p + t.len()) =~= s);
}

/// `Rope::new`: an empty rope.
#[verifier::external_body]
pub(crate) fn rope_new() -> (r: Rope)
    ensures
        rope_chars(r) == Seq::<char>::empty(),
{
    Rope::new()
}

/// `Rope::from_reader` over the bytes `bytes`: a rope holding their text
/// where they are UTF-8, and otherwise the `InvalidData` I/O error that
/// ropey gives for text that is not UTF-8 (reading from memory fails in no
/// other way).
#[verifier::external_body]
pub(crate) fn rope_from_bytes(bytes: Vec<u8>) -> (r: Result<Rope, std::io::Error>)
    ensures
        r is Ok <==> valid_utf8(bytes@),
        r matches Ok(rope) ==> rope_chars(rope) == decode_utf8(bytes@),
{
    Rope::from_reader(std::io::Cursor::new(bytes))
}

/// `Rope::len_chars`: the number of chars in the rope.
#[verifier::external_body]
pub(crate) fn rope_len_chars(r: &Rope) -> (n: usize)
    ensures
        n == rope_chars(*r).len(),
{
    r.len_chars()
}

/// `Rope::insert`: puts `text` in at char index `char_idx`, which ropey
/// requires to be at most the rope's length (it panics otherwise).
#[verifier::external_body]
pub(crate) fn rope_insert(r: &mut Rope, char_idx: usize, text: &str)
    requires
        char_idx <= rope_chars(*old(r)).len(),
    ensures
        rope_chars(*final(r)) == spec_insert(rope_chars(*old(r)), char_idx as int, text@),
{
    r.insert(char_idx, text)
}

/// `Rope::remove`: takes out the chars from `start` up to `end`, which ropey
/// requires to be in order and within the rope (it panics otherwise).
#[verifier::external_body]
pub(crate) fn rope_remove(r: &mut Rope, start: usize, end: usize)
    requires
        start <= end <= rope_chars(*old(r)).len(),
    ensures
        rope_chars(*final(r)) == spec_remove(rope_chars(*old(r)), start as int, end as int),
{
    r.remove(start..end)
}

/// `Rope::slice`: the chars from `start` up to `end`, which ropey requires
/// to be in order and within the rope (it panics otherwise).
#[verifier::external_body]
pub(crate) fn rope_slice<'a>(r: &'a Rope, start: usize, end: usize) -> (s: RopeSlice<'a>)
    requires
        start <= end <= rope_chars(*r).len(),
    ensures
        slice_chars(s) == rope_chars(*r).subrange(start as int, end as int),
{
    r.slice(start..end)
}

} // verus!
