//! Textual rendering of amounts and addresses: decimal strings for wei
//! amounts and `0x`-prefixed lowercase hex for addresses.

use vstd::prelude::*;

verus! {

/// The decimal digit character for a value below ten.
pub open spec fn dec_digit(d: int) -> char {
    if d == 0 {
        '0'
    } else if d == 1 {
        '1'
    } else if d == 2 {
        '2'
    } else if d == 3 {
        '3'
    } else if d == 4 {
        '4'
    } else if d == 5 {
        '5'
    } else if d == 6 {
        '6'
    } else if d == 7 {
        '7'
    } else if d == 8 {
        '8'
    } else {
        '9'
    }
}

/// The decimal representation of a number, most significant digit first,
/// without leading zeros (zero itself is the single digit `0`).
pub open spec fn dec_str_of(n: nat) -> Seq<char>
    decreases n,
{
    if n < 10 {
        seq![dec_digit(n as int)]
    } else {
        dec_str_of(n / 10) + seq![dec_digit((n % 10) as int)]
    }
}

/// The lowercase hex digit character for a value below sixteen.
pub open spec fn hex_digit(d: int) -> char {
    if d == 0 {
        '0'
    } else if d == 1 {
        '1'
    } else if d == 2 {
        '2'
    } else if d == 3 {
        '3'
    } else if d == 4 {
        '4'
    } else if d == 5 {
        '5'
    } else if d == 6 {
        '6'
    } else if d == 7 {
        '7'
    } else if d == 8 {
        '8'
    } else if d == 9 {
        '9'
    } else if d == 10 {
        'a'
    } else if d == 11 {
        'b'
    } else if d == 12 {
        'c'
    } else if d == 13 {
        'd'
    } else if d == 14 {
        'e'
    } else {
        'f'
    }
}

/// Lowercase hex of a byte string: two digits per byte, high nibble first,
/// bytes in order.
pub open spec fn hex_of(bytes: Seq<u8>) -> Seq<char>
    decreases bytes.len(),
{
    if bytes.len() == 0 {
        Seq::<char>::empty()
    } else {
        seq![
            hex_digit(bytes.first() as int / 16),
            hex_digit(bytes.first() as int % 16),
        ] + hex_of(bytes.drop_first())
    }
}

/// An address rendered as `0x` followed by its lowercase hex digits.
pub open spec fn addr_str_of(bytes: Seq<u8>) -> Seq<char> {
    seq!['0', 'x'] + hex_of(bytes)
}

/// The one-character string for a decimal digit.
fn dec_digit_str(d: u128) -> (r: &'static str)
    requires
        d < 10,
    ensures
        r@ == seq![dec_digit(d as int)],
{
    proof {
        reveal_strlit("0");
        reveal_strlit("1");
        reveal_strlit("2");
        reveal_strlit("3");
        reveal_strlit("4");
        reveal_strlit("5");
        reveal_strlit("6");
        reveal_strlit("7");
        reveal_strlit("8");
        reveal_strlit("9");
    }
    let r = if d == 0 {
        "0"
    } else if d == 1 {
        "1"
    } else if d == 2 {
        "2"
    } else if d == 3 {
        "3"
    } else if d == 4 {
        "4"
    } else if d == 5 {
        "5"
    } else if d == 6 {
        "6"
    } else if d == 7 {
        "7"
    } else if d == 8 {
        "8"
    } else {
        "9"
    };
    proof {
        assert(r@ =~= seq![dec_digit(d as int)]);
    }
    r
}

/// The decimal string of an amount, exactly [`dec_str_of`].
pub fn u128_to_dec_string(n: u128) -> (r: String)
    ensures
        r@ == dec_str_of(n as nat),
    decreases n,
{
    if n < 10 {
        String::from_str(dec_digit_str(n))
    } else {
        let mut s = u128_to_dec_string(n / 10);
        s.append(dec_digit_str(n % 10));
        proof {
            assert(s@ =~= dec_str_of(n as nat));
        }
        s
    }
}

/// Relies on hex::encode: lowercase hex, two digits per byte (high nibble
/// first), bytes in input order.
#[verifier::external_body]
fn hex_encode(bytes: &Vec<u8>) -> (r: String)
    ensures
        r@ == hex_of(bytes@),
{
    hex::encode(bytes.as_slice())
}

/// An address as `0x` followed by its lowercase hex digits.
pub fn format_address(bytes: &Vec<u8>) -> (r: String)
    ensures
        r@ == addr_str_of(bytes@),
{
    proof {
        reveal_strlit("0x");
    }
    let mut s = String::from_str("0x");
    let h = hex_encode(bytes);
    s.append(h.as_str());
    proof {
        assert(s@ =~= addr_str_of(bytes@));
    }
    s
}

} // verus!
