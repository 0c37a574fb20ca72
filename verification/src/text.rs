//! Small facts about text that the rest of the library builds on.

use vstd::prelude::*;
use vstd::string::*;

verus! {

/// Whether two strings hold the same chars.
pub fn str_eq(a: &str, b: &str) -> (r: bool)
    ensures
        r == (a@ == b@),
{
    let sa = String::from_str(a);
    let sb = String::from_str(b);
    sa == sb
}

/// The decimal digit for `d`.
pub open spec fn digit_char(d: nat) -> char {
    if d == 0 { '0' }
    else if d == 1 { '1' }
    else if d == 2 { '2' }
    else if d == 3 { '3' }
    else if d == 4 { '4' }
    else if d == 5 { '5' }
    else if d == 6 { '6' }
    else if d == 7 { '7' }
    else if d == 8 { '8' }
    else { '9' }
}

/// The decimal text of `n`, without leading zeros.
pub open spec fn decimal(n: nat) -> Seq<char>
    decreases n,
{
    if n < 10 {
        seq![digit_char(n)]
    } else {
        decimal(n / 10) + seq![digit_char(n % 10)]
    }
}

fn digit_str(d: u64) -> (r: &'static str)
    requires
        d < 10,
    ensures
        r@ == seq![digit_char(d as nat)],
{
    proof {
        reveal_strlit("0");
        reveal_strlit("1");
        reveal_strlit("2");
        reveal_strlit("3");
        reveal_strlit("4");
        reveal_strlit("5");
        reveal_strlit("6");
        reveal_strlit("7");
        reveal_strlit("8");
        reveal_strlit("9");
    }
    if d == 0 { "0" }
    else if d == 1 { "1" }
    else if d == 2 { "2" }
    else if d == 3 { "3" }
    else if d == 4 { "4" }
    else if d == 5 { "5" }
    else if d == 6 { "6" }
    else if d == 7 { "7" }
    else if d == 8 { "8" }
    else { "9" }
}

/// The decimal text of `n`, as `u64`'s `Display` writes it.
pub fn u64_to_decimal(n: u64) -> (r: String)
    ensures
        r@ == decimal(n as nat),
    decreases n,
{
    if n < 10 {
        String::from_str(digit_str(n))
    } else {
        let mut s = u64_to_decimal(n / 10);
        s.append(digit_str(n % 10));
        s
    }
}

/// Whether `c` is one of the ASCII digits `0` to `9`.
pub open spec fn is_ascii_digit(c: char) -> bool {
    '0' <= c <= '9'
}

/// The number that the ASCII digits `s` spell in base 10 (0 for no
/// digits).
pub open spec fn digits_value(s: Seq<char>) -> int
    decreases s.len(),
{
    if s.len() == 0 {
        0
    } else {
        10 * digits_value(s.drop_last()) + (s.last() as int - '0' as int)
    }
}

/// The decimal text of a number is its base-10 rendering: at least one
/// digit, only ASCII digits, no leading zero (so 0 is written "0"), and
/// read back in base 10 it is the number.
pub proof fn law_decimal_reads_back(n: nat)
    ensures
        decimal(n).len() >= 1,
        forall|i: int| 0 <= i < decimal(n).len() ==> is_ascii_digit(#[trigger] decimal(n)[i]),
        decimal(n).len() > 1 ==> decimal(n)[0] != '0',
        digits_value(decimal(n)) == n,
    decreases n,
{
    if n < 10 {
        let s = decimal(n);
        assert(s.drop_last() =~= Seq::<char>::empty());
        assert(digits_value(s.drop_last()) == 0);
        assert(s.last() == digit_char(n));
        assert(digit_char(n) as int - '0' as int == n);
        assert(digits_value(s) == 10 * digits_value(s.drop_last()) + (s.last() as int - '0' as int));
    } else {
        let q = n / 10;
        let r = n % 10;
        law_decimal_reads_back(q);
        let s = decimal(n);
        assert(s == decimal(q) + seq![digit_char(r)]);
        assert(s.drop_last() =~= decimal(q));
        assert(digit_char(r) as int - '0' as int == r);
        assert(n == 10 * q + r);
        assert(s.last() == digit_char(r));
        assert(digits_value(s) == 10 * digits_value(s.drop_last()) + (s.last() as int - '0' as int));
        assert forall|i: int| 0 <= i < s.len() implies is_ascii_digit(#[trigger] s[i]) by {
            if i < decimal(q).len() {
                assert(s[i] == decimal(q)[i]);
            }
        }
        assert(s[0] == decimal(q)[0]);
        if decimal(q).len() == 1 {
            assert(q < 10) by {
                if q >= 10 {
                    assert(decimal(q) == decimal(q / 10) + seq![digit_char(q % 10)]);
                    law_decimal_reads_back(q / 10);
                }
            }
            assert(q != 0);
        }
    }
}

/// `a` followed by `b`.
pub fn concat_str(a: &str, b: &str) -> (r: String)
    ensures
        r@ == a@ + b@,
{
    let mut s = String::from_str(a);
    s.append(b);
    s
}

/// The text that `Debug` writes for a string: the string in double quotes,
/// with special chars escaped.
pub uninterp spec fn debug_text(s: Seq<char>) -> Seq<char>;

/// The decimals of the bytes `b`, joined by `", "`.
pub open spec fn joined_decimals(b: Seq<u8>) -> Seq<char>
    decreases b.len(),
{
    if b.len() == 0 {
        Seq::empty()
    } else if b.len() == 1 {
        decimal(b[0] as nat)
    } else {
        joined_decimals(b.drop_last()) + ", "@ + decimal(b.last() as nat)
    }
}

/// The text that `Debug` writes for a list of bytes: their decimals,
/// joined by `", "`, in square brackets.
pub open spec fn debug_bytes(b: Seq<u8>) -> Seq<char> {
    "["@ + joined_decimals(b) + "]"@
}

/// `<str as Debug>::fmt`: the quoted, escaped form of `s`.
#[verifier::external_body]
pub(crate) fn str_debug(s: &str) -> (r: String)
    ensures
        r@ == debug_text(s@),
{
    format!("{:?}", s)
}

/// The text that `Debug` writes for a list of bytes.
pub fn bytes_debug(b: &[u8]) -> (r: String)
    ensures
        r@ == debug_bytes(b@),
{
    let mut s = String::from_str("[");
    let mut i: usize = 0;
    while i < b.len()
        invariant
            i <= b@.len(),
            s@ == "["@ + joined_decimals(b@.subrange(0, i as int)),
        decreases b@.len() - i,
    {
        let ghost before = s@;
        let ghost p = b@.subrange(0, i + 1);
        assert(p.drop_last() =~= b@.subrange(0, i as int));
        assert(p.last() == b@[i as int]);
        if i > 0 {
            s.append(", ");
        }
        let d = u64_to_decimal(b[i] as u64);
        s.append(d.as_str());
        proof {
            if i == 0 {
                assert(s@ =~= "["@ + joined_decimals(p));
            } else {
                assert(s@ =~= "["@ + joined_decimals(p));
            }
        }
        i += 1;
    }
    assert(b@.subrange(0, b@.len() as int) =~= b@);
    s.append("]");
    s
}

} // verus!
