use super::error::{DecodeError, DecodeErrorKind};
use super::reader::{fail, failure, reads, Parsed};
use vstd::prelude::*;

verus! {

/// The LEB128 integer at the start of `bytes`, read over at most `limit`
/// bytes: its value and how many bytes it takes. Each byte gives seven bits,
/// the low ones first; the first byte below `0x80` is the last one. There is
/// none where the bytes or the limit end before such a byte.
pub open spec fn leb128_scan(bytes: Seq<u8>, limit: nat) -> Option<(nat, nat)>
    decreases limit,
{
    if limit == 0 || bytes.len() == 0 {
        None
    } else if bytes[0] < 0x80 {
        Some((bytes[0] as nat, 1nat))
    } else {
        match leb128_scan(bytes.skip(1), (limit - 1) as nat) {
            Some((high, len)) => Some(((bytes[0] - 0x80) as nat + 128 * high, len + 1)),
            None => None,
        }
    }
}

/// 128 to the power `n`: one more than the largest value of `n` LEB128 bytes.
pub open spec fn pow128(n: nat) -> nat
    decreases n,
{
    if n == 0 {
        1
    } else {
        128 * pow128((n - 1) as nat)
    }
}

/// A number below 2^32 read as a 32-bit two's complement integer.
pub open spec fn as_signed(bits: nat) -> int {
    if bits >= 0x8000_0000 {
        bits - 0x1_0000_0000
    } else {
        bits as int
    }
}

/// The unsigned 32-bit integer at the start of `bytes` and its length: at most
/// five bytes, of which the bits beyond the 32nd are dropped.
pub open spec fn leb128_u32_value(bytes: Seq<u8>) -> Option<(u32, nat)> {
    match leb128_scan(bytes, 5) {
        Some((value, len)) => Some(((value % 0x1_0000_0000) as u32, len)),
        None => None,
    }
}

/// The signed 32-bit integer at the start of `bytes` and its length: at most
/// five bytes. Under five bytes, the second-highest bit of the last byte is
/// the sign; with five, the low 32 bits are the number in two's complement.
pub open spec fn leb128_i32_value(bytes: Seq<u8>) -> Option<(i32, nat)> {
    match leb128_scan(bytes, 5) {
        Some((value, len)) => Some(
            (
                if len < 5 && 2 * value >= pow128(len) {
                    (value - pow128(len)) as i32
                } else {
                    as_signed(value % 0x1_0000_0000) as i32
                },
                len,
            ),
        ),
        None => None,
    }
}

/// The number that a LEB128 payload of `len` bytes stands for when it is
/// read as signed: bit 6 of the last byte is the sign, and stands for all
/// higher bits.
pub open spec fn signed_payload(value: nat, len: nat) -> int {
    if 2 * value >= pow128(len) {
        value - pow128(len)
    } else {
        value as int
    }
}

/// An unsigned LEB128 integer of 32 bits: at most five bytes, whose value
/// fits 32 bits.
pub open spec fn u32_spec(input: Seq<u8>) -> Parsed<u32> {
    match leb128_scan(input, 5) {
        Some((value, len)) => if value <= u32::MAX {
            Ok((value as u32, input.skip(len as int)))
        } else {
            fail(DecodeErrorKind::IntegerTooLarge, input)
        },
        None => Err(leb128_failure(input)),
    }
}

/// A signed LEB128 integer of 32 bits: at most five bytes, whose value
/// fits 32 bits.
pub open spec fn i32_spec(input: Seq<u8>) -> Parsed<i32> {
    match leb128_scan(input, 5) {
        Some((value, len)) => if i32::MIN <= signed_payload(value, len) <= i32::MAX {
            Ok((signed_payload(value, len) as i32, input.skip(len as int)))
        } else {
            fail(DecodeErrorKind::IntegerTooLarge, input)
        },
        None => Err(leb128_failure(input)),
    }
}

/// Why no LEB128 integer of 32 bits starts `input`: it ends too early, or its
/// fifth byte asks for a sixth.
pub open spec fn leb128_failure(input: Seq<u8>) -> DecodeError {
    DecodeError {
        kind: if input.len() < 5 {
            DecodeErrorKind::UnexpectedEof
        } else {
            DecodeErrorKind::IntegerTooLarge
        },
        remaining: input.len() as usize,
    }
}

/// A LEB128 integer takes at least one byte and no more than there are.
pub proof fn lemma_scan_len(bytes: Seq<u8>, limit: nat)
    ensures
        leb128_scan(bytes, limit) matches Some((value, len)) ==> 1 <= len <= limit && len
            <= bytes.len() && value < pow128(len),
    decreases limit,
{
    if limit == 0 || bytes.len() == 0 {
    } else if bytes[0] < 0x80 {
        reveal_with_fuel(pow128, 2);
    } else {
        lemma_scan_len(bytes.skip(1), (limit - 1) as nat);
    }
}

/// The value of a LEB128 integer is what its last byte gives at the highest
/// place, and less than one unit of that place from the bytes before it.
pub proof fn lemma_scan_last(bytes: Seq<u8>, limit: nat)
    ensures
        leb128_scan(bytes, limit) matches Some((value, len)) ==> {
            &&& bytes[len - 1] < 0x80
            &&& bytes[len - 1] * pow128((len - 1) as nat) <= value
            &&& value < (bytes[len - 1] + 1) * pow128((len - 1) as nat)
        },
    decreases limit,
{
    reveal_with_fuel(pow128, 2);
    if limit == 0 || bytes.len() == 0 {
    } else if bytes[0] < 0x80 {
        let first = bytes[0] as int;
        let one = pow128(0) as int;
        assert(first * one == first && (first + 1) * one == first + 1) by (nonlinear_arith)
            requires
                one == 1,
        ;
    } else {
        lemma_scan_len(bytes.skip(1), (limit - 1) as nat);
        lemma_scan_last(bytes.skip(1), (limit - 1) as nat);
        match leb128_scan(bytes.skip(1), (limit - 1) as nat) {
            Some((high, len)) => {
                let last = bytes.skip(1)[len - 1] as int;
                assert(bytes[len as int] == last);
                let unit = pow128((len - 1) as nat) as int;
                let next = pow128(len) as int;
                assert(next == 128 * unit);
                assert(last * next == 128 * (last * unit) && (last + 1) * next == 128 * ((last
                    + 1) * unit)) by (nonlinear_arith)
                    requires
                        next == 128 * unit,
                ;
                assert(last * unit <= high < (last + 1) * unit);
            },
            None => {},
        }
    }
}

/// The value of a LEB128 integer of at most five bytes: under five bytes it
/// is below 2^28; with five, the fifth byte counts in units of 2^28, and the
/// bytes before it give less than one such unit.
pub proof fn lemma_scan_five(bytes: Seq<u8>)
    ensures
        leb128_scan(bytes, 5) matches Some((value, len)) ==> {
            &&& 1 <= len <= 5
            &&& len <= bytes.len()
            &&& value < pow128(len)
            &&& len < 5 ==> value < 0x1000_0000 && pow128(len) <= 0x1000_0000
            &&& len == 5 ==> bytes[4] < 0x80 && bytes[4] * 0x1000_0000 <= value < (bytes[4] + 1)
                * 0x1000_0000 && pow128(len) == 0x8_0000_0000
        },
{
    lemma_scan_len(bytes, 5);
    lemma_scan_last(bytes, 5);
    reveal_with_fuel(pow128, 6);
    assert(pow128(1) == 0x80);
    assert(pow128(2) == 0x4000);
    assert(pow128(3) == 0x20_0000);
    assert(pow128(4) == 0x1000_0000);
    assert(pow128(5) == 0x8_0000_0000);
    match leb128_scan(bytes, 5) {
        Some((value, len)) => {
            if len == 5 {
                let last = bytes[4] as int;
                let unit = pow128(4) as int;
                assert(last * unit == last * 0x1000_0000 && (last + 1) * unit == (last + 1)
                    * 0x1000_0000) by (nonlinear_arith)
                    requires
                        unit == 0x1000_0000,
                ;
            }
        },
        None => {},
    }
}

/// `nom_leb128::leb128_u32` on a byte slice: the integer that
/// [`leb128_u32_value`] describes and the input after it, or nothing where
/// there is no such integer. The outside function adds each byte's low seven
/// bits at the next higher place, stops at the first byte below `0x80`, and
/// gives up at a fifth byte with the high bit set or at the end of the input.
#[verifier::external_body]
fn leb128_u32<'a>(input: &'a [u8]) -> (r: Option<(&'a [u8], u32)>)
    ensures
        match r {
            Some((rest, value)) => leb128_u32_value(input@) matches Some((v, len)) && v == value
                && rest@ == input@.skip(len as int),
            None => leb128_u32_value(input@) is None,
        },
{
    match nom_leb128::leb128_u32::<&[u8], ()>(input) {
        Ok((rest, value)) => Some((rest, value)),
        Err(_) => None,
    }
}

/// `nom_leb128::leb128_i32` on a byte slice: the integer that
/// [`leb128_i32_value`] describes and the input after it, or nothing where
/// there is no such integer. The outside function reads the bytes as for an
/// unsigned integer and, where fewer than five were read and bit 6 of the
/// last is set, fills the higher bits with ones.
#[verifier::external_body]
fn leb128_i32<'a>(input: &'a [u8]) -> (r: Option<(&'a [u8], i32)>)
    ensures
        match r {
            Some((rest, value)) => leb128_i32_value(input@) matches Some((v, len)) && v == value
                && rest@ == input@.skip(len as int),
            None => leb128_i32_value(input@) is None,
        },
{
    match nom_leb128::leb128_i32::<&[u8], ()>(input) {
        Ok((rest, value)) => Some((rest, value)),
        Err(_) => None,
    }
}

/// Reads an unsigned LEB128 integer of 32 bits. An integer of five bytes
/// whose last byte holds more than the four bits that are left of the 32 is
/// too large.
pub fn decode_u32(input: &[u8]) -> (r: Result<(&[u8], u32), DecodeError>)
    ensures
        reads(input, r, u32_spec(input@)),
        r matches Ok((rest, _)) ==> rest@.len() < input@.len(),
{
    proof {
        lemma_scan_five(input@);
    }
    match leb128_u32(input) {
        Some((rest, value)) => {
            if input.len() - rest.len() == 5 && input[4] > 0x0F {
                Err(failure(DecodeErrorKind::IntegerTooLarge, input))
            } else {
                Ok((rest, value))
            }
        },
        None => {
            let kind = if input.len() < 5 {
                DecodeErrorKind::UnexpectedEof
            } else {
                DecodeErrorKind::IntegerTooLarge
            };
            Err(failure(kind, input))
        },
    }
}

/// Reads a signed LEB128 integer of 32 bits. An integer of five bytes whose
/// last byte holds more than the four bits that are left of the 32, and
/// the sign in the bits above them, is too large.
pub fn decode_i32(input: &[u8]) -> (r: Result<(&[u8], i32), DecodeError>)
    ensures
        reads(input, r, i32_spec(input@)),
        r matches Ok((rest, _)) ==> rest@.len() < input@.len(),
{
    proof {
        lemma_scan_five(input@);
    }
    match leb128_i32(input) {
        Some((rest, value)) => {
            if input.len() - rest.len() == 5 && input[4] > 0x07 && input[4] < 0x78 {
                Err(failure(DecodeErrorKind::IntegerTooLarge, input))
            } else {
                Ok((rest, value))
            }
        },
        None => {
            let kind = if input.len() < 5 {
                DecodeErrorKind::UnexpectedEof
            } else {
                DecodeErrorKind::IntegerTooLarge
            };
            Err(failure(kind, input))
        },
    }
}

} // verus!
