use super::error::WasiError;
use super::import::same_text;
use super::memory::{i32_to_le_bytes, le_bytes, le_i32, memory_read, memory_write, written};
use super::store::{MemoryInstView, Store, StoreView};
use super::value::Value;
use crate::binary::types::views;
use vstd::prelude::*;
use vstd::slice::slice_subrange;

verus! {

/// A file of the host that the shim can write to. `write` takes some of the
/// bytes and says how many it took, or describes why it took none. Nothing
/// is assumed of what a file does.
pub trait FileSink {
    fn write(&mut self, bytes: &[u8]) -> (r: Result<usize, String>);
}

/// The WASI functions of `wasi_snapshot_preview1` that the runtime offers:
/// `fd_write`, over the files that the host has opened. A file descriptor
/// is an index into the table; the host opens stdin, stdout and stderr as
/// 0, 1 and 2.
pub struct WasiSnapshotPreview1<W> {
    pub file_table: Vec<W>,
}

/// The four 32-bit arguments of `fd_write`: the file descriptor, where the
/// iovec records start, how many there are, and where the number of bytes
/// written goes.
pub open spec fn fd_write_args(args: Seq<Value>) -> Option<(i32, i32, i32, i32)> {
    if args.len() < 4 {
        None
    } else {
        match (args[0], args[1], args[2], args[3]) {
            (Value::I32(fd), Value::I32(iovs), Value::I32(iovs_len), Value::I32(rp)) => Some(
                (fd, iovs, iovs_len, rp),
            ),
            _ => None,
        }
    }
}

/// The buffer that the iovec record at `at` names: where it starts and where
/// it ends. The record is two 32-bit integers, the start and the length; the
/// record and the buffer must lie within the memory.
pub open spec fn iovec_spec(memory: Seq<u8>, at: int) -> Result<(int, int), WasiError> {
    if at < 0 || at + 8 > memory.len() {
        Err(WasiError::OutOfBounds)
    } else {
        let start = le_i32(memory.subrange(at, at + 4));
        let len = le_i32(memory.subrange(at + 4, at + 8));
        if start < 0 || len < 0 || start + len > memory.len() {
            Err(WasiError::OutOfBounds)
        } else {
            Ok((start as int, start + len))
        }
    }
}

/// A number of bytes as `fd_write` reports it: its low 32 bits, read in
/// two's complement.
pub open spec fn reported(count: nat) -> i32 {
    crate::binary::leb128::as_signed(count % 0x1_0000_0000) as i32
}

/// The store after `fd_write` has reported `nwritten` at `rp`.
pub open spec fn reported_store(store: StoreView, rp: int, nwritten: nat) -> StoreView {
    StoreView {
        memories: store.memories.update(
            0,
            MemoryInstView {
                data: written(store.memories[0].data, rp, le_bytes(reported(nwritten))),
                max: store.memories[0].max,
            },
        ),
        ..store
    }
}

/// Reads the four arguments of `fd_write`.
pub fn read_fd_write_args(args: &Vec<Value>) -> (r: Option<(i32, i32, i32, i32)>)
    ensures
        r == fd_write_args(args@),
{
    if args.len() < 4 {
        return None;
    }
    match (args[0], args[1], args[2], args[3]) {
        (Value::I32(fd), Value::I32(iovs), Value::I32(iovs_len), Value::I32(rp)) => Some(
            (fd, iovs, iovs_len, rp),
        ),
        _ => None,
    }
}

/// Reads the iovec record at `at`: where its buffer starts and ends.
pub fn read_iovec(memory: &[u8], at: usize) -> (r: Result<(usize, usize), WasiError>)
    ensures
        match r {
            Ok((start, end)) => iovec_spec(memory@, at as int) == Ok::<(int, int), WasiError>(
                (start as int, end as int),
            ) && start <= end <= memory@.len() && at + 8 <= memory@.len(),
            Err(e) => iovec_spec(memory@, at as int) == Err::<(int, int), WasiError>(e),
        },
{
    if memory.len() < 8 || at > memory.len() - 8 {
        return Err(WasiError::OutOfBounds);
    }
    let start = match memory_read(memory, at) {
        Ok(start) => start,
        Err(_) => {
            return Err(WasiError::OutOfBounds);
        },
    };
    let len = match memory_read(memory, at + 4) {
        Ok(len) => len,
        Err(_) => {
            return Err(WasiError::OutOfBounds);
        },
    };
    if start < 0 || len < 0 {
        return Err(WasiError::OutOfBounds);
    }
    let end: u64 = start as u64 + len as u64;
    if end > memory.len() as u64 {
        return Err(WasiError::OutOfBounds);
    }
    Ok((start as usize, end as usize))
}

/// Reads record `k` of the iovec records that start at `iovs`: where its
/// buffer starts and ends.
pub fn record_at(memory: &[u8], iovs: i32, k: i32) -> (r: Result<(usize, usize), WasiError>)
    ensures
        match r {
            Ok((start, end)) => iovec_spec(memory@, iovs + 8 * k) == Ok::<(int, int), WasiError>(
                (start as int, end as int),
            ) && start <= end <= memory@.len() && 0 <= iovs + 8 * k && iovs + 8 * k + 8
                <= memory@.len(),
            Err(e) => iovec_spec(memory@, iovs + 8 * k) == Err::<(int, int), WasiError>(e),
        },
{
    let at: i64 = iovs as i64 + 8 * (k as i64);
    if at < 0 || at as u64 > usize::MAX as u64 {
        assert(memory@.len() == memory.len());
        return Err(WasiError::OutOfBounds);
    }
    read_iovec(memory, at as usize)
}

/// Adds what a file took to the number of bytes written so far.
pub fn add_taken(count: u64, took: usize) -> (sum: u64)
    ensures
        sum == counted(count as nat, took),
{
    ((count % 0x1_0000_0000) + (took as u64 % 0x1_0000_0000)) % 0x1_0000_0000
}

/// The low 32 bits of a number of bytes, read in two's complement.
pub fn report(count: u64) -> (n: i32)
    ensures
        n == reported(count as nat),
{
    let low: u64 = count % 0x1_0000_0000;
    if low >= 0x8000_0000 {
        (low as i64 - 0x1_0000_0000) as i32
    } else {
        low as i32
    }
}

/// Ends an `fd_write`: stores the number of bytes written at `rp` in the
/// first memory, as four bytes, and gives the errno of success. Fails, and
/// leaves the store as it is, where there is no memory or the four bytes do
/// not lie within it.
pub fn finish_fd_write(store: &mut Store, rp: i32, nwritten: u64) -> (r: Result<
    Option<Value>,
    WasiError,
>)
    ensures
        match r {
            Ok(errno) => {
                &&& errno == Some(Value::I32(0))
                &&& old(store)@.memories.len() > 0
                &&& 0 <= rp
                &&& rp + 4 <= old(store)@.memories[0].data.len()
                &&& final(store)@ == reported_store(old(store)@, rp as int, nwritten as nat)
            },
            Err(e) => {
                &&& final(store)@ == old(store)@
                &&& e == if old(store)@.memories.len() == 0 {
                    WasiError::MemoryNotFound
                } else {
                    WasiError::OutOfBounds
                }
                &&& old(store)@.memories.len() > 0 ==> !(0 <= rp && rp + 4
                    <= old(store)@.memories[0].data.len())
            },
        },
{
    if store.memories.len() == 0 {
        return Err(WasiError::MemoryNotFound);
    }
    if rp < 0 {
        return Err(WasiError::OutOfBounds);
    }
    let bytes = i32_to_le_bytes(report(nwritten));
    let ghost before = store.memories@;
    let memory = &mut store.memories[0];
    match memory_write(&mut memory.data, rp as usize, bytes.as_slice()) {
        Ok(()) => {
            assert(views(store.memories@) =~= views(before).update(
                0,
                MemoryInstView {
                    data: written(before[0].data@, rp as int, le_bytes(reported(nwritten as nat))),
                    max: before[0].max,
                },
            ));
            Ok(Some(Value::I32(0)))
        },
        Err(_) => {
            assert(views(store.memories@) =~= views(before));
            Err(WasiError::OutOfBounds)
        },
    }
}

impl<W: FileSink> WasiSnapshotPreview1<W> {
    /// The shim over the three files that every process starts with.
    pub fn new(stdin: W, stdout: W, stderr: W) -> (wasi: Self)
        ensures
            wasi.file_table@ == seq![stdin, stdout, stderr],
    {
        let mut file_table: Vec<W> = Vec::new();
        file_table.push(stdin);
        file_table.push(stdout);
        file_table.push(stderr);
        assert(file_table@ =~= seq![stdin, stdout, stderr]);
        WasiSnapshotPreview1 { file_table }
    }

    /// Calls the function of the shim that has the given name: `fd_write`
    /// is the one function there is.
    pub fn invoke(&mut self, store: &mut Store, func: &str, args: Vec<Value>) -> (r: Result<
        Option<Value>,
        WasiError,
    >)
        ensures
            invoke_ends::<W>(
                old(self).file_table@.len(),
                old(store)@,
                func@,
                args@,
                final(store)@,
                r,
            ),
            func@ != "fd_write"@ ==> final(self).file_table@ == old(self).file_table@,
            files_kept(old(self).file_table@, final(self).file_table@, args@),
    {
        if same_text(func, "fd_write") {
            self.fd_write(store, args)
        } else {
            Err(WasiError::UnknownFunction)
        }
    }

    /// `fd_write(fd, iovs_ptr, iovs_len, nwritten_ptr)`: writes the buffers
    /// that the iovec records name to the file, one after the other, and
    /// stores at `nwritten_ptr` how many bytes the file took in all.
    #[verifier::loop_isolation(false)]
    pub fn fd_write(&mut self, store: &mut Store, args: Vec<Value>) -> (r: Result<
        Option<Value>,
        WasiError,
    >)
        ensures
            fd_write_ends::<W>(
                old(self).file_table@.len(),
                old(store)@,
                args@,
                final(store)@,
                r,
            ),
            files_kept(old(self).file_table@, final(self).file_table@, args@),
    {
        let (fd, iovs, iovs_len, rp) = match read_fd_write_args(&args) {
            Some(numbers) => numbers,
            None => {
                return Err(WasiError::BadArguments);
            },
        };
        if fd < 0 || fd as usize >= self.file_table.len() {
            return Err(WasiError::FdNotFound);
        }
        if store.memories.len() == 0 {
            return Err(WasiError::MemoryNotFound);
        }
        let ghost memory_before = store@.memories[0].data;
        let mut nwritten: u64 = 0;
        let mut i: i32 = 0;
        while i < iovs_len
            invariant
                0 <= i,
                i <= iovs_len || iovs_len < 0,
                0 <= fd < self.file_table@.len(),
                self.file_table@.len() == old(self).file_table@.len(),
                forall|j: int|
                    0 <= j < self.file_table@.len() && j != fd ==> self.file_table@[j]
                        == old(self).file_table@[j],
                store.memories@.len() > 0,
                store@ == old(store)@,
                forall|written: Result<nat, WasiError>| #[trigger]
                    writes_on::<W>(
                        memory_before,
                        iovs as int,
                        i as int,
                        iovs_len as int,
                        nwritten as nat,
                        written,
                    ) ==> writes_on::<W>(
                        memory_before,
                        iovs as int,
                        0,
                        iovs_len as int,
                        0,
                        written,
                    ),
            decreases iovs_len - i,
        {
            let memory = store.memories[0].data.as_slice();
            let (start, end) = match record_at(memory, iovs, i) {
                Ok(bounds) => bounds,
                Err(e) => {
                    assert(writes_on::<W>(
                        memory_before,
                        iovs as int,
                        i as int,
                        iovs_len as int,
                        nwritten as nat,
                        Err(e),
                    ));
                    return Err(e);
                },
            };
            let buffer = slice_subrange(memory, start, end);
            let answer = self.file_table[fd as usize].write(buffer);
            assert(file_answers::<W>(memory_before.subrange(start as int, end as int), answer));
            let took = match answer {
                Ok(took) => took,
                Err(message) => {
                    proof {
                        lemma_writes_fail::<W>(
                            memory_before,
                            iovs as int,
                            i as int,
                            iovs_len as int,
                            nwritten as nat,
                            message,
                        );
                    }
                    return Err(WasiError::Io(message));
                },
            };
            let ghost count = nwritten as nat;
            nwritten = add_taken(nwritten, took);
            assert forall|written: Result<nat, WasiError>| #[trigger]
                writes_on::<W>(
                    memory_before,
                    iovs as int,
                    i + 1,
                    iovs_len as int,
                    nwritten as nat,
                    written,
                ) implies writes_on::<W>(
                memory_before,
                iovs as int,
                0,
                iovs_len as int,
                0,
                written,
            ) by {
                lemma_writes_after_answer::<W>(
                    memory_before,
                    iovs as int,
                    i as int,
                    iovs_len as int,
                    count,
                    took,
                    written,
                );
            }
            i += 1;
        }
        assert(writes_on::<W>(
            memory_before,
            iovs as int,
            i as int,
            iovs_len as int,
            nwritten as nat,
            Ok(nwritten as nat),
        ));
        finish_fd_write(store, rp, nwritten)
    }
}

/// A file whose `write` is that of `W` can answer `answer` to a write of
/// `bytes`.
pub open spec fn file_answers<W: FileSink>(bytes: Seq<u8>, answer: Result<usize, String>) -> bool {
    exists|file: &mut W, buffer: &[u8]|
        buffer@ == bytes && #[trigger] call_ensures(W::write, (file, buffer), answer)
}

/// The number of bytes written after a file took `took` more: the sum, of
/// which `fd_write` keeps the low 32 bits.
pub open spec fn counted(count: nat, took: usize) -> nat {
    ((count + took) % 0x1_0000_0000) as nat
}

/// `fd_write`, from record `k` on and with `count` bytes written so far,
/// can end with `written`: the number of bytes written in all, or an error.
/// The records are read in order, record `k` at `iovs + 8 * k`. A record
/// that cannot be read ends the writing with its error. The buffer of a
/// record that can is handed to the file. Where the file reports an
/// error, that ends the writing; where it says how many bytes it took, they
/// are added to the count, and the writing goes on with the next record.
pub open spec fn writes_on<W: FileSink>(
    memory: Seq<u8>,
    iovs: int,
    k: int,
    n: int,
    count: nat,
    written: Result<nat, WasiError>,
) -> bool
    decreases n - k,
{
    if k >= n {
        written == Ok::<nat, WasiError>(count)
    } else {
        match iovec_spec(memory, iovs + 8 * k) {
            Err(e) => written == Err::<nat, WasiError>(e),
            Ok((start, end)) => exists|answer: Result<usize, String>| #[trigger]
                file_answers::<W>(memory.subrange(start, end), answer) && match answer {
                    Err(message) => written == Err::<nat, WasiError>(WasiError::Io(message)),
                    Ok(took) => writes_on::<W>(memory, iovs, k + 1, n, counted(count, took), written),
                },
        }
    }
}

/// Writing that goes on after the file has taken the buffer of record `k`
/// is writing from record `k` on.
pub proof fn lemma_writes_after_answer<W: FileSink>(
    memory: Seq<u8>,
    iovs: int,
    k: int,
    n: int,
    count: nat,
    took: usize,
    written: Result<nat, WasiError>,
)
    requires
        k < n,
        iovec_spec(memory, iovs + 8 * k) matches Ok((start, end)) && file_answers::<W>(
            memory.subrange(start, end),
            Ok(took),
        ),
        writes_on::<W>(memory, iovs, k + 1, n, counted(count, took), written),
    ensures
        writes_on::<W>(memory, iovs, k, n, count, written),
{
}

/// Writing ends with the error that the file reports for the buffer of
/// record `k`.
pub proof fn lemma_writes_fail<W: FileSink>(
    memory: Seq<u8>,
    iovs: int,
    k: int,
    n: int,
    count: nat,
    message: String,
)
    requires
        k < n,
        iovec_spec(memory, iovs + 8 * k) matches Ok((start, end)) && file_answers::<W>(
            memory.subrange(start, end),
            Err(message),
        ),
    ensures
        writes_on::<W>(memory, iovs, k, n, count, Err(WasiError::Io(message))),
{
}

/// The end of `fd_write` once the writing is over: the count goes into
/// the memory at `rp`, and the errno is that of success; where the four
/// bytes at `rp` do not lie within the memory, it is an error and the store
/// is as before.
pub open spec fn finishes(
    before: StoreView,
    rp: int,
    count: nat,
    after: StoreView,
    r: Result<Option<Value>, WasiError>,
) -> bool {
    if 0 <= rp && rp + 4 <= before.memories[0].data.len() {
        r == Ok::<Option<Value>, WasiError>(Some(Value::I32(0))) && after == reported_store(
            before,
            rp,
            count,
        )
    } else {
        r == Err::<Option<Value>, WasiError>(WasiError::OutOfBounds) && after == before
    }
}

/// What holds at the end of `fd_write`. Without four 32-bit arguments, an
/// open file under the descriptor and a memory, it fails with the error of
/// the first of these that is missing. Else the buffers are written as
/// [`writes_on`] says, from the first record on; an error there is the
/// error of `fd_write`, and the store is as before. After the writing it
/// [`finishes`] with the count. So without records it succeeds wherever
/// the place for the count lies within the memory, and with records the
/// file decides no more than what it answers.
pub open spec fn fd_write_ends<W: FileSink>(
    files: nat,
    before: StoreView,
    args: Seq<Value>,
    after: StoreView,
    r: Result<Option<Value>, WasiError>,
) -> bool {
    match fd_write_args(args) {
        None => r == Err::<Option<Value>, WasiError>(WasiError::BadArguments) && after == before,
        Some((fd, iovs, iovs_len, rp)) => if !(0 <= fd < files) {
            r == Err::<Option<Value>, WasiError>(WasiError::FdNotFound) && after == before
        } else if before.memories.len() == 0 {
            r == Err::<Option<Value>, WasiError>(WasiError::MemoryNotFound) && after == before
        } else {
            exists|written: Result<nat, WasiError>| #[trigger]
                writes_on::<W>(
                    before.memories[0].data,
                    iovs as int,
                    0,
                    iovs_len as int,
                    0,
                    written,
                ) && match written {
                    Err(e) => r == Err::<Option<Value>, WasiError>(e) && after == before,
                    Ok(count) => finishes(before, rp as int, count, after, r),
                }
        },
    }
}

/// The module name under which the WASI shim answers.
pub open spec fn wasi_module() -> Seq<char> {
    "wasi_snapshot_preview1"@
}

/// What holds at the end of a call of the shim's function `func`:
/// `fd_write` ends as [`fd_write_ends`] says; there is no other function,
/// and to call one is an error that leaves the store as it is.
pub open spec fn invoke_ends<W: FileSink>(
    files: nat,
    before: StoreView,
    func: Seq<char>,
    args: Seq<Value>,
    after: StoreView,
    r: Result<Option<Value>, WasiError>,
) -> bool {
    if func == "fd_write"@ {
        fd_write_ends::<W>(files, before, args, after, r)
    } else {
        r == Err::<Option<Value>, WasiError>(WasiError::UnknownFunction) && after == before
    }
}

/// The files of the table are those from before, but for the one that
/// `fd_write` writes to.
pub open spec fn files_kept<W>(before: Seq<W>, after: Seq<W>, args: Seq<Value>) -> bool {
    &&& after.len() == before.len()
    &&& forall|i: int|
        0 <= i < before.len() && !(fd_write_args(args) matches Some((fd, _, _, _)) && i == fd)
            ==> after[i] == before[i]
}

} // verus!
