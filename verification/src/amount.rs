//! Amounts: unsigned 128-bit integers, stored in 16 bytes with the lowest byte first.

use vstd::prelude::*;
use crate::error::Error;

verus! {

/// The number of bytes that hold one amount.
pub const AMOUNT_BYTES: usize = 16;

/// The number that `bytes` spell with the lowest byte first.
pub open spec fn le_value(bytes: Seq<u8>) -> nat
    decreases bytes.len(),
{
    if bytes.len() == 0 {
        0
    } else {
        bytes[0] as nat + 256 * le_value(bytes.skip(1))
    }
}

/// 256 to the power `n`.
pub open spec fn pow256(n: nat) -> nat
    decreases n,
{
    if n == 0 {
        1
    } else {
        256 * pow256((n - 1) as nat)
    }
}

/// A sequence of `n` bytes spells a number below 256 to the power `n`.
pub proof fn le_value_bound(bytes: Seq<u8>)
    ensures
        le_value(bytes) < pow256(bytes.len()),
    decreases bytes.len(),
{
    if bytes.len() > 0 {
        le_value_bound(bytes.skip(1));
    }
}

/// Sixteen bytes always spell a number that fits in 128 bits.
pub proof fn le_value_fits(bytes: Seq<u8>)
    requires
        bytes.len() == AMOUNT_BYTES,
    ensures
        le_value(bytes) <= u128::MAX,
{
    le_value_bound(bytes);
    reveal_with_fuel(pow256, 17);
}

/// Reads the amount that a cell's data holds. The data must be exactly 16
/// bytes long: anything else is an encoding error.
pub fn decode_amount(data: &[u8]) -> (r: Result<u128, Error>)
    ensures
        data@.len() == AMOUNT_BYTES ==> r == Ok::<u128, Error>(le_value(data@) as u128),
        data@.len() == AMOUNT_BYTES ==> le_value(data@) <= u128::MAX,
        data@.len() != AMOUNT_BYTES ==> r == Err::<u128, Error>(Error::Encoding),
{
    if data.len() != AMOUNT_BYTES {
        return Err(Error::Encoding);
    }
    let mut value: u128 = 0;
    let mut i: usize = AMOUNT_BYTES;
    while i > 0
        invariant
            i <= AMOUNT_BYTES,
            data@.len() == AMOUNT_BYTES,
            value == le_value(data@.skip(i as int)),
            value < pow256((AMOUNT_BYTES - i) as nat),
        decreases i,
    {
        proof {
            reveal_with_fuel(pow256, 17);
            assert(data@.skip(i - 1).skip(1) =~= data@.skip(i as int));
        }
        i = i - 1;
        value = value * 256 + data[i] as u128;
    }
    proof {
        assert(data@.skip(0) =~= data@);
        le_value_fits(data@);
    }
    Ok(value)
}

} // verus!
