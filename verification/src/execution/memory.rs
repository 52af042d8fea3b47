use super::error::Trap;
use crate::binary::leb128::as_signed;
use vstd::prelude::*;

verus! {

/// The four bytes of a 32-bit integer in two's complement, least significant first.
pub open spec fn le_bytes(value: i32) -> Seq<u8> {
    let bits: int = if value < 0 {
        value + 0x1_0000_0000
    } else {
        value as int
    };
    seq![
        (bits % 0x100) as u8,
        (bits / 0x100 % 0x100) as u8,
        (bits / 0x1_0000 % 0x100) as u8,
        (bits / 0x100_0000 % 0x100) as u8,
    ]
}

/// The 32-bit integer that four bytes hold in two's complement, least significant first.
pub open spec fn le_i32(bytes: Seq<u8>) -> i32 {
    as_signed(
        (bytes[0] as int + 0x100 * (bytes[1] as int) + 0x1_0000 * (bytes[2] as int) + 0x100_0000
            * (bytes[3] as int)) as nat,
    ) as i32
}

/// A memory after `data` was written over it from `start` on.
pub open spec fn written(memory: Seq<u8>, start: int, data: Seq<u8>) -> Seq<u8> {
    memory.subrange(0, start) + data + memory.subrange(start + data.len(), memory.len() as int)
}

/// Reading back what [`le_bytes`] wrote gives the integer again.
pub proof fn lemma_le_round_trip(value: i32)
    ensures
        le_bytes(value).len() == 4,
        le_i32(le_bytes(value)) == value,
{
}

/// Writing changes the bytes written over and no others.
pub proof fn lemma_written(memory: Seq<u8>, start: int, data: Seq<u8>)
    requires
        0 <= start,
        start + data.len() <= memory.len(),
    ensures
        written(memory, start, data).len() == memory.len(),
        written(memory, start, data).subrange(start, start + data.len()) == data,
        forall|i: int|
            0 <= i < memory.len() && !(start <= i < start + data.len()) ==> written(
                memory,
                start,
                data,
            )[i] == memory[i],
{
    assert(written(memory, start, data).subrange(start, start + data.len()) =~= data);
}

/// The four bytes of a 32-bit integer, least significant first.
pub fn i32_to_le_bytes(value: i32) -> (bytes: Vec<u8>)
    ensures
        bytes@ == le_bytes(value),
{
    let wide: i64 = value as i64;
    let bits: i64 = if wide < 0 {
        wide + 0x1_0000_0000
    } else {
        wide
    };
    let b0 = (bits % 0x100) as u8;
    let b1 = (bits / 0x100 % 0x100) as u8;
    let b2 = (bits / 0x1_0000 % 0x100) as u8;
    let b3 = (bits / 0x100_0000 % 0x100) as u8;
    let bytes = vec![b0, b1, b2, b3];
    assert(bytes@ =~= le_bytes(value));
    bytes
}

/// Reads the 32-bit integer that starts at `start`, least significant byte
/// first. Fails where four bytes from `start` do not lie within the buffer.
pub fn memory_read(buf: &[u8], start: usize) -> (r: Result<i32, Trap>)
    ensures
        match r {
            Ok(value) => start + 4 <= buf@.len() && value == le_i32(
                buf@.subrange(start as int, start + 4),
            ),
            Err(e) => start + 4 > buf@.len() && e == Trap::MemoryOutOfBounds,
        },
{
    if buf.len() < 4 || start > buf.len() - 4 {
        return Err(Trap::MemoryOutOfBounds);
    }
    let b0 = buf[start] as i64;
    let b1 = buf[start + 1] as i64;
    let b2 = buf[start + 2] as i64;
    let b3 = buf[start + 3] as i64;
    let bits: i64 = b0 + 0x100 * b1 + 0x1_0000 * b2 + 0x100_0000 * b3;
    let value = if bits >= 0x8000_0000 {
        (bits - 0x1_0000_0000) as i32
    } else {
        bits as i32
    };
    Ok(value)
}

/// Writes `data` over the buffer from `start` on. Fails, and leaves the
/// buffer as it is, where the bytes would not lie within it.
pub fn memory_write(buf: &mut Vec<u8>, start: usize, data: &[u8]) -> (r: Result<(), Trap>)
    ensures
        match r {
            Ok(()) => start + data@.len() <= old(buf)@.len() && final(buf)@ == written(
                old(buf)@,
                start as int,
                data@,
            ),
            Err(e) => start + data@.len() > old(buf)@.len() && e == Trap::MemoryOutOfBounds
                && final(buf)@ == old(buf)@,
        },
{
    if data.len() > buf.len() || start > buf.len() - data.len() {
        return Err(Trap::MemoryOutOfBounds);
    }
    let mut i: usize = 0;
    while i < data.len()
        invariant
            i <= data@.len(),
            start + data@.len() <= old(buf)@.len() <= usize::MAX,
            buf@.len() == old(buf)@.len(),
            buf@ == written(old(buf)@, start as int, data@.subrange(0, i as int)),
        decreases data@.len() - i,
    {
        buf[start + i] = data[i];
        i += 1;
        assert(buf@ =~= written(old(buf)@, start as int, data@.subrange(0, i as int)));
    }
    assert(data@.subrange(0, i as int) =~= data@);
    Ok(())
}

} // verus!
