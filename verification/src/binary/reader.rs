use super::error::{DecodeError, DecodeErrorKind};
use super::types::views;
use vstd::prelude::*;
use vstd::slice::slice_subrange;

verus! {

/// What reading one item off the front of a byte sequence gives: the item and
/// the bytes after it, or the failure.
pub type Parsed<T> = Result<(T, Seq<u8>), DecodeError>;

/// The failure of the given kind at the start of `input`.
pub open spec fn fail<T>(kind: DecodeErrorKind, input: Seq<u8>) -> Parsed<T> {
    Err(DecodeError { kind, remaining: input.len() as usize })
}

/// A failure inside a delimited part of the input, seen from the whole input:
/// `after` more bytes follow the part.
pub open spec fn outward(e: DecodeError, after: nat) -> DecodeError {
    DecodeError { kind: e.kind, remaining: (e.remaining + after) as usize }
}

/// An executable reader's result on `input` says what the grammar says, and
/// neither what is left nor the place of a failure lies outside the input.
pub open spec fn reads<T>(
    input: &[u8],
    r: Result<(&[u8], T), DecodeError>,
    expected: Parsed<T>,
) -> bool {
    match r {
        Ok((rest, value)) => expected == Ok::<(T, Seq<u8>), DecodeError>((value, rest@))
            && rest@.len() <= input@.len(),
        Err(e) => expected == Err::<(T, Seq<u8>), DecodeError>(e) && e.remaining
            <= input@.len(),
    }
}

/// As [`reads`], for an item that the grammar describes by its view.
pub open spec fn reads_view<T: View>(
    input: &[u8],
    r: Result<(&[u8], T), DecodeError>,
    expected: Parsed<T::V>,
) -> bool {
    match r {
        Ok((rest, value)) => expected == Ok::<(T::V, Seq<u8>), DecodeError>((value@, rest@))
            && rest@.len() <= input@.len(),
        Err(e) => expected == Err::<(T::V, Seq<u8>), DecodeError>(e) && e.remaining
            <= input@.len(),
    }
}

/// As [`reads`], for a vector of plain items.
pub open spec fn reads_seq<T>(
    input: &[u8],
    r: Result<(&[u8], Vec<T>), DecodeError>,
    expected: Parsed<Seq<T>>,
) -> bool {
    match r {
        Ok((rest, items)) => expected == Ok::<(Seq<T>, Seq<u8>), DecodeError>((items@, rest@))
            && rest@.len() <= input@.len(),
        Err(e) => expected == Err::<(Seq<T>, Seq<u8>), DecodeError>(e) && e.remaining
            <= input@.len(),
    }
}

/// As [`reads`], for a vector of items that the grammar describes by their views.
pub open spec fn reads_views<T: View>(
    input: &[u8],
    r: Result<(&[u8], Vec<T>), DecodeError>,
    expected: Parsed<Seq<T::V>>,
) -> bool {
    match r {
        Ok((rest, items)) => expected == Ok::<(Seq<T::V>, Seq<u8>), DecodeError>(
            (views(items@), rest@),
        ) && rest@.len() <= input@.len(),
        Err(e) => expected == Err::<(Seq<T::V>, Seq<u8>), DecodeError>(e) && e.remaining
            <= input@.len(),
    }
}

/// The views of a sequence grow with it.
pub proof fn lemma_views_push<T: View>(items: Seq<T>, item: T)
    ensures
        views(items.push(item)) == views(items).push(item@),
{
    assert(views(items.push(item)) =~= views(items).push(item@));
}

/// One byte.
pub open spec fn byte_spec(input: Seq<u8>) -> Parsed<u8> {
    if input.len() == 0 {
        fail(DecodeErrorKind::UnexpectedEof, input)
    } else {
        Ok((input[0], input.skip(1)))
    }
}

/// The next `n` bytes.
pub open spec fn take_spec(input: Seq<u8>, n: nat) -> Parsed<Seq<u8>> {
    if input.len() < n {
        fail(DecodeErrorKind::UnexpectedEof, input)
    } else {
        Ok((input.take(n as int), input.skip(n as int)))
    }
}

/// The number that four bytes hold, least significant byte first.
pub open spec fn le_u32_value(b0: u8, b1: u8, b2: u8, b3: u8) -> u32 {
    (b0 as int + 0x100 * (b1 as int) + 0x1_0000 * (b2 as int) + 0x100_0000 * (b3 as int)) as u32
}

/// A 32-bit number in four bytes, least significant byte first.
pub open spec fn le_u32_spec(input: Seq<u8>) -> Parsed<u32> {
    if input.len() < 4 {
        fail(DecodeErrorKind::UnexpectedEof, input)
    } else {
        Ok((le_u32_value(input[0], input[1], input[2], input[3]), input.skip(4)))
    }
}

/// The failure of the given kind at the start of `input`.
pub fn failure(kind: DecodeErrorKind, input: &[u8]) -> (e: DecodeError)
    ensures
        e == (DecodeError { kind, remaining: input@.len() as usize }),
{
    DecodeError { kind, remaining: input.len() }
}

/// Reads one byte.
pub fn byte(input: &[u8]) -> (r: Result<(&[u8], u8), DecodeError>)
    ensures
        reads(input, r, byte_spec(input@)),
{
    if input.len() == 0 {
        Err(failure(DecodeErrorKind::UnexpectedEof, input))
    } else {
        Ok((slice_subrange(input, 1, input.len()), input[0]))
    }
}

/// Splits the next `n` bytes off the input.
pub fn take(input: &[u8], n: u32) -> (r: Result<(&[u8], &[u8]), DecodeError>)
    ensures
        match r {
            Ok((rest, taken)) => take_spec(input@, n as nat) == Ok::<(Seq<u8>, Seq<u8>), DecodeError>(
                (taken@, rest@),
            ) && taken@.len() + rest@.len() == input@.len(),
            Err(e) => take_spec(input@, n as nat) == Err::<(Seq<u8>, Seq<u8>), DecodeError>(e)
                && e.remaining <= input@.len(),
        },
{
    let n = n as usize;
    if input.len() < n {
        Err(failure(DecodeErrorKind::UnexpectedEof, input))
    } else {
        Ok((slice_subrange(input, n, input.len()), slice_subrange(input, 0, n)))
    }
}

/// Reads a 32-bit number stored least significant byte first.
pub fn le_u32(input: &[u8]) -> (r: Result<(&[u8], u32), DecodeError>)
    ensures
        reads(input, r, le_u32_spec(input@)),
{
    if input.len() < 4 {
        Err(failure(DecodeErrorKind::UnexpectedEof, input))
    } else {
        let b0 = input[0] as u32;
        let b1 = input[1] as u32;
        let b2 = input[2] as u32;
        let b3 = input[3] as u32;
        let value = b0 + 0x100 * b1 + 0x1_0000 * b2 + 0x100_0000 * b3;
        Ok((slice_subrange(input, 4, input.len()), value))
    }
}

} // verus!
