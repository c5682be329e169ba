//! Lower-case hexadecimal rendering of chain values.

use vstd::prelude::*;

verus! {

/// The lower-case hexadecimal digit character for a nibble.
pub open spec fn spec_hex_digit(n: u8) -> char
    recommends
        n < 16,
{
    seq!['0', '1', '2', '3', '4', '5', '6', '7', '8', '9', 'a', 'b', 'c', 'd', 'e', 'f'][n as int]
}

/// Lower-case hexadecimal rendering of a byte sequence: two digits per
/// byte, high nibble first, bytes in order.
pub open spec fn spec_hex(bytes: Seq<u8>) -> Seq<char>
    decreases bytes.len(),
{
    if bytes.len() == 0 {
        Seq::empty()
    } else {
        seq![spec_hex_digit(bytes[0] / 16), spec_hex_digit(bytes[0] % 16)] + spec_hex(
            bytes.drop_first(),
        )
    }
}

/// Relies on `hex::encode`: lower-case hexadecimal, two digits per byte,
/// high nibble first, bytes in input order.
#[verifier::external_body]
pub(crate) fn hex_encode(bytes: &[u8]) -> (r: String)
    ensures
        r@ == spec_hex(bytes@),
{
    hex::encode(bytes)
}

} // verus!
