//! Text encodings used when building contract-call arguments: decimal
//! strings for unsigned integers and `0x`-prefixed lowercase hex strings
//! for 32-byte values.

use vstd::prelude::*;
use vstd::string::StringExecFns;

verus! {

/// The character for one decimal digit.
pub open spec fn dec_digit(d: nat) -> char {
    if d == 0 { '0' }
    else if d == 1 { '1' }
    else if d == 2 { '2' }
    else if d == 3 { '3' }
    else if d == 4 { '4' }
    else if d == 5 { '5' }
    else if d == 6 { '6' }
    else if d == 7 { '7' }
    else if d == 8 { '8' }
    else { '9' }
}

/// The decimal representation of `n`, most significant digit first,
/// without leading zeros (`0` is written as one digit).
pub open spec fn dec_of(n: nat) -> Seq<char>
    decreases n,
{
    if n < 10 {
        seq![dec_digit(n)]
    } else {
        dec_of(n / 10).push(dec_digit(n % 10))
    }
}

/// One decimal digit as a string slice.
fn dec_digit_str(d: u128) -> (r: &'static str)
    requires
        d < 10,
    ensures
        r@ == seq![dec_digit(d as nat)],
{
    proof {
        reveal_strlit("0");
        reveal_strlit("1");
        reveal_strlit("2");
        reveal_strlit("3");
        reveal_strlit("4");
        reveal_strlit("5");
        reveal_strlit("6");
        reveal_strlit("7");
        reveal_strlit("8");
        reveal_strlit("9");
    }
    if d == 0 { "0" }
    else if d == 1 { "1" }
    else if d == 2 { "2" }
    else if d == 3 { "3" }
    else if d == 4 { "4" }
    else if d == 5 { "5" }
    else if d == 6 { "6" }
    else if d == 7 { "7" }
    else if d == 8 { "8" }
    else { "9" }
}

/// Formats `n` in decimal, as the destination-contract transcoder expects
/// integer arguments.
pub fn u128_to_dec_string(n: u128) -> (r: String)
    ensures
        r@ == dec_of(n as nat),
{
    if n == 0 {
        return String::from_str(dec_digit_str(0));
    }
    let mut s: String = String::new();
    let mut m: u128 = n;
    while m > 0
        invariant
            m == 0 ==> s@ =~= dec_of(n as nat),
            m > 0 ==> dec_of(n as nat) =~= dec_of(m as nat) + s@,
        decreases m,
    {
        let d: u128 = m % 10;
        let rest: u128 = m / 10;
        let digit = dec_digit_str(d);
        let joined = String::from_str(digit).concat(s.as_str());
        proof {
            if rest == 0 {
                assert(dec_of(m as nat) =~= seq![dec_digit(d as nat)]);
                assert(dec_of(n as nat) =~= joined@);
            } else {
                assert(dec_of(m as nat) =~= dec_of(rest as nat) + seq![dec_digit(d as nat)]);
                assert(dec_of(m as nat) + s@ =~= dec_of(rest as nat) + joined@);
            }
        }
        s = joined;
        m = rest;
    }
    assert(s@ =~= dec_of(n as nat));
    s
}

/// The character for one hex digit, lowercase.
pub open spec fn hex_digit(d: nat) -> char {
    if d < 10 {
        dec_digit(d)
    } else if d == 10 { 'a' }
    else if d == 11 { 'b' }
    else if d == 12 { 'c' }
    else if d == 13 { 'd' }
    else if d == 14 { 'e' }
    else { 'f' }
}

/// Lowercase hex encoding: two digits for each byte, high nibble first.
pub open spec fn hex_of(bytes: Seq<u8>) -> Seq<char> {
    Seq::new(
        bytes.len() * 2,
        |i: int| if i % 2 == 0 {
            hex_digit((bytes[i / 2] / 16) as nat)
        } else {
            hex_digit((bytes[i / 2] % 16) as nat)
        },
    )
}

/// A byte string as a `0x`-prefixed lowercase hex string.
pub open spec fn hex0x(bytes: Seq<u8>) -> Seq<char> {
    seq!['0', 'x'] + hex_of(bytes)
}

/// Relies on hex::encode: each input byte becomes two lowercase hex
/// digits, high nibble first, in input order.
#[verifier::external_body]
fn hex_encode(bytes: &[u8]) -> (r: String)
    ensures
        r@ == hex_of(bytes@),
{
    hex::encode(bytes)
}

/// A 32-byte value as the destination-contract transcoder expects it:
/// `"0x"` followed by its lowercase hex digits.
pub fn bytes32_to_str(data: &[u8; 32]) -> (r: String)
    ensures
        r@ == hex0x(data@),
{
    proof {
        reveal_strlit("0x");
    }
    let h = hex_encode(data.as_slice());
    String::from_str("0x").concat(h.as_str())
}

} // verus!
