use vstd::prelude::*;

use crate::error::ParseError;

verus! {

/// 128 raised to the `n`th power.
pub open spec fn pow128(n: int) -> int
    decreases n,
{
    if n <= 0 {
        1
    } else {
        128 * pow128(n - 1)
    }
}

/// The value the first `n` bytes of `s` encode: the sum of each byte's low
/// seven bits weighted by 128 to the byte's index.
pub open spec fn varint_value(s: Seq<u8>, n: int) -> int
    decreases n,
{
    if n <= 0 {
        0
    } else {
        varint_value(s, n - 1) + (s[n - 1] as int % 128) * pow128(n - 1)
    }
}

/// What the variable-length decoder yields once it has skipped the first `i`
/// continuation bytes: the encoded value if a terminator arrives within the
/// four-byte limit, `None` if the sequence ends first, and an error if the
/// fourth byte still continues.
pub open spec fn sp_varint_at(s: Seq<u8>, i: int) -> Result<Option<(int, int)>, ParseError>
    decreases 4 - i,
{
    if i >= 4 {
        Err(ParseError::InvalidLength)
    } else if i >= s.len() {
        Ok(None)
    } else if s[i] < 128 {
        Ok(Some((varint_value(s, i + 1), i + 1)))
    } else {
        sp_varint_at(s, i + 1)
    }
}

/// What the variable-length decoder yields on `s`.
pub open spec fn sp_varint(s: Seq<u8>) -> Result<Option<(int, int)>, ParseError> {
    sp_varint_at(s, 0)
}

/// Decodes MQTT's 1-to-4-byte continuation-bit length encoding from the
/// front of `src`.
///
/// Each byte contributes its low seven bits at a weight of 128 to the power
/// of its index; a clear high bit terminates the encoding.  A complete
/// encoding yields the value and the count of bytes consumed; a sequence
/// that ends while still continuing within the limit is incomplete, not an
/// error.  Over-long encodings of small values are accepted as the protocol
/// writes them.
pub fn decode_variable_length(src: &[u8]) -> (r: Result<Option<(usize, usize)>, ParseError>)
    ensures
        match r {
            Ok(Some((value, consumed))) => {
                &&& sp_varint(src@) == Ok::<Option<(int, int)>, ParseError>(
                    Some((value as int, consumed as int)),
                )
                &&& 1 <= consumed <= 4
                &&& consumed <= src@.len()
                &&& src@[consumed - 1] < 128
                &&& forall|j: int| 0 <= j < consumed - 1 ==> src@[j] >= 128
                &&& value == varint_value(src@, consumed as int)
                &&& value <= 268435455
            },
            Ok(None) => {
                &&& sp_varint(src@) == Ok::<Option<(int, int)>, ParseError>(None)
                &&& src@.len() < 4
                &&& forall|j: int| 0 <= j < src@.len() ==> src@[j] >= 128
            },
            Err(e) => {
                &&& sp_varint(src@) == Err::<Option<(int, int)>, ParseError>(e)
                &&& e == ParseError::InvalidLength
                &&& src@.len() >= 4
                &&& forall|j: int| 0 <= j < 4 ==> src@[j] >= 128
            },
        },
{
    let n = src.len();
    let mut value: usize = 0;
    let mut mult: usize = 1;
    let mut i: usize = 0;
    while i < n && i < 4
        invariant
            n == src@.len(),
            i <= 4,
            i <= n,
            mult == pow128(i as int),
            mult <= 268435456,
            value == varint_value(src@, i as int),
            value < mult,
            forall|j: int| 0 <= j < i ==> src@[j] >= 128,
            sp_varint(src@) == sp_varint_at(src@, i as int),
        decreases 4 - i,
    {
        let b = *vstd::slice::slice_index_get(src, i);
        let low: usize = (b & 0x7f) as usize;
        proof {
            reveal_with_fuel(pow128, 5);
            assert(pow128(0) == 1 && pow128(1) == 128 && pow128(2) == 16384 && pow128(3)
                == 2097152);
            assert(i == 0 || i == 1 || i == 2 || i == 3);
            assert(mult <= 2097152);
            assert(b & 0x7f == b % 128) by (bit_vector);
            assert((b & 0x80 == 0) <==> b < 128) by (bit_vector);
            assert(low <= 127);
            assert(low * mult <= 127 * 2097152) by (nonlinear_arith)
                requires
                    low <= 127,
                    0 <= mult <= 2097152,
            ;
            assert(low * mult <= 127 * mult) by (nonlinear_arith)
                requires
                    low <= 127,
                    0 <= mult,
            ;
        }
        value = value + low * mult;
        if b & 0x80 == 0 {
            proof {
                assert(value == varint_value(src@, i + 1));
                assert(value < 128 * mult);
            }
            return Ok(Some((value, i + 1)));
        }
        proof {
            assert(128 * mult == pow128(i + 1));
        }
        mult = mult * 128;
        i = i + 1;
    }
    if n >= 4 {
        Err(ParseError::InvalidLength)
    } else {
        Ok(None)
    }
}

} // verus!
