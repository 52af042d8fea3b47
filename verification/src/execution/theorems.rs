//! What follows from the machine's definition: statements about single
//! instructions that hold in every state.

use super::error::{Error, InstantiationError, Trap, WasiError};
use super::import::ImportFunc;
use super::machine::{
    call_spec, calls, end_address, run_spec, runs_to, scan_end, step_spec, unwound, CallOutcome,
    FrameView, Outcome, State, Step,
};
use super::store::{store_spec, StoreView};
use super::wasi::{
    counted, fd_write_args, fd_write_ends, file_answers, finishes, iovec_spec, writes_on, FileSink,
};
use crate::binary::module::ModuleView;
use crate::binary::types::ExportView;
use super::memory::{le_bytes, lemma_written};
use super::value::{wrapping_difference_i32, wrapping_sum_i32, Value};
use crate::binary::instruction::Instruction;
use vstd::prelude::*;

verus! {

/// The state has a running frame whose next instruction is `inst`.
pub open spec fn about_to_execute(s: State, inst: Instruction) -> bool {
    &&& s.call_stack.len() > 0
    &&& 0 <= s.call_stack.last().pc + 1 < s.call_stack.last().insts.len()
    &&& s.call_stack.last().insts[s.call_stack.last().pc + 1] == inst
}

/// The stack holds `left` and, on top of it, `right`.
pub open spec fn holds_operands(stack: Seq<Value>, left: Value, right: Value) -> bool {
    &&& stack.len() >= 2
    &&& stack[stack.len() - 2] == left
    &&& stack[stack.len() - 1] == right
}

/// `i32.add` takes two 32-bit integers off the stack and leaves their sum;
/// `i32.sub` leaves the difference of the lower one and the upper one. The
/// result is the one 32-bit integer that differs from the exact sum or
/// difference by a multiple of 2^32. Nothing else changes but the program
/// counter, which moves on by one.
pub proof fn add_and_sub_wrap_around(s: State, a: i32, b: i32)
    requires
        about_to_execute(s, Instruction::I32Add) || about_to_execute(s, Instruction::I32Sub),
        holds_operands(s.stack, Value::I32(a), Value::I32(b)),
    ensures
        about_to_execute(s, Instruction::I32Add) ==> (step_spec(s) matches Step::Next(t)
            && t.stack == s.stack.take(s.stack.len() - 2).push(
            Value::I32(wrapping_sum_i32(a, b)),
        )),
        about_to_execute(s, Instruction::I32Sub) ==> (step_spec(s) matches Step::Next(t)
            && t.stack == s.stack.take(s.stack.len() - 2).push(
            Value::I32(wrapping_difference_i32(a, b)),
        )),
        step_spec(s) matches Step::Next(t) && t.store == s.store && t.call_stack
            == s.call_stack.drop_last().push(
            FrameView { pc: s.call_stack.last().pc + 1, ..s.call_stack.last() },
        ),
        (wrapping_sum_i32(a, b) - (a + b)) % 0x1_0000_0000 == 0,
        (wrapping_difference_i32(a, b) - (a - b)) % 0x1_0000_0000 == 0,
{
}

/// `i32.store` with the 32-bit address `addr` below the 32-bit value `v` on
/// the stack, in a store with a memory: where the four bytes from `addr +
/// offset` on lie within the first memory, they become the bytes of `v`,
/// least significant first, and no other byte of that memory and nothing of
/// another memory changes; where they do not, the instruction traps.
pub proof fn store_writes_four_bytes(s: State, align: u32, offset: u32, addr: i32, v: i32)
    requires
        about_to_execute(s, Instruction::I32Store { align, offset }),
        holds_operands(s.stack, Value::I32(addr), Value::I32(v)),
        s.store.memories.len() > 0,
    ensures
        0 <= addr + offset && addr + offset + 4 <= s.store.memories[0].data.len() ==> {
            &&& step_spec(s) matches Step::Next(t)
            &&& t.stack == s.stack.take(s.stack.len() - 2)
            &&& t.store.funcs == s.store.funcs
            &&& t.store.exports == s.store.exports
            &&& t.store.memories.len() == s.store.memories.len()
            &&& t.store.memories[0].max == s.store.memories[0].max
            &&& t.store.memories[0].data.len() == s.store.memories[0].data.len()
            &&& t.store.memories[0].data.subrange(addr + offset, addr + offset + 4) == le_bytes(v)
            &&& forall|i: int|
                0 <= i < s.store.memories[0].data.len() && !(addr + offset <= i < addr + offset
                    + 4) ==> t.store.memories[0].data[i] == s.store.memories[0].data[i]
            &&& forall|m: int|
                0 < m < s.store.memories.len() ==> t.store.memories[m] == s.store.memories[m]
        },
        !(0 <= addr + offset && addr + offset + 4 <= s.store.memories[0].data.len())
            ==> step_spec(s) == Step::Trap(Trap::MemoryOutOfBounds),
{
    if 0 <= addr + offset && addr + offset + 4 <= s.store.memories[0].data.len() {
        lemma_written(s.store.memories[0].data, addr + offset, le_bytes(v));
    }
}

/// What an instruction adds to the depth of nesting: an `if` opens a
/// block, an `end` closes one.
pub open spec fn depth_change(inst: Instruction) -> int {
    match inst {
        Instruction::If(_) => 1,
        Instruction::End => -1,
        _ => 0,
    }
}

/// How many more blocks the instructions from `from` up to, not including,
/// `to` open than they close.
pub open spec fn nesting(insts: Seq<Instruction>, from: int, to: int) -> int
    decreases to - from,
{
    if from >= to {
        0
    } else {
        depth_change(insts[from]) + nesting(insts, from + 1, to)
    }
}

/// The `end` at `at` closes the block that was open `depth` blocks deep at
/// `from`: the instructions between the two close `depth` blocks more than
/// they open, and no `end` between them comes when as many are closed.
pub open spec fn closes(insts: Seq<Instruction>, from: int, depth: nat, at: int) -> bool {
    &&& 0 <= from <= at < insts.len()
    &&& insts[at] is End
    &&& depth + nesting(insts, from, at) == 0
    &&& forall|k: int| from <= k < at && insts[k] is End ==> depth + #[trigger] nesting(insts, from, k) > 0
}

/// The `end` at `at` matches the `if` at `pc`: it is the first `end` after
/// the `if` before which every block opened after the `if` is closed
/// again.
pub open spec fn matching_end(insts: Seq<Instruction>, pc: int, at: int) -> bool {
    closes(insts, pc + 1, 0, at)
}

/// The scan for an `end` finds the place that closes the block, and only it.
pub proof fn lemma_scan_finds_closing_end(insts: Seq<Instruction>, from: int, depth: nat, at: int)
    requires
        0 <= from,
    ensures
        scan_end(insts, from, depth) == Some(at) <==> closes(insts, from, depth, at),
    decreases insts.len() - from,
{
    if from >= insts.len() {
    } else {
        let next_depth: int = match insts[from] {
            Instruction::If(_) => depth as int + 1,
            Instruction::End => depth as int - 1,
            _ => depth as int,
        };
        if insts[from] is End && depth == 0 {
            // The scan stops here.
            if closes(insts, from, depth, at) {
                if at > from {
                    assert(nesting(insts, from, from) == 0);
                    assert(false);
                }
            }
            if at == from {
                assert(nesting(insts, from, from) == 0);
            }
        } else {
            lemma_scan_finds_closing_end(insts, from + 1, next_depth as nat, at);
            if closes(insts, from + 1, next_depth as nat, at) {
                assert(nesting(insts, from, at) == depth_change(insts[from]) + nesting(
                    insts,
                    from + 1,
                    at,
                ));
                assert forall|k: int| from <= k < at && insts[k] is End implies depth
                    + #[trigger] nesting(insts, from, k) > 0 by {
                    if k == from {
                        assert(nesting(insts, from, from) == 0);
                    } else {
                        assert(nesting(insts, from, k) == depth_change(insts[from]) + nesting(
                            insts,
                            from + 1,
                            k,
                        ));
                    }
                }
            }
            if closes(insts, from, depth, at) {
                if at == from {
                    assert(nesting(insts, from, from) == 0);
                    assert(false);
                }
                assert(nesting(insts, from, at) == depth_change(insts[from]) + nesting(
                    insts,
                    from + 1,
                    at,
                ));
                assert forall|k: int| from + 1 <= k < at && insts[k] is End implies next_depth
                    + #[trigger] nesting(insts, from + 1, k) > 0 by {
                    assert(nesting(insts, from, k) == depth_change(insts[from]) + nesting(
                        insts,
                        from + 1,
                        k,
                    ));
                }
            }
        }
    }
}

/// The address that the scan gives for the `if` at `pc` is that of the
/// matching `end`, and there is an address exactly where there is a
/// matching `end`.
pub proof fn end_address_is_the_matching_end(insts: Seq<Instruction>, pc: int, at: int)
    requires
        0 <= pc,
    ensures
        end_address(insts, pc) == Some(at) <==> matching_end(insts, pc, at),
{
    lemma_scan_finds_closing_end(insts, pc + 1, 0, at);
}

/// An `if` whose condition is the 32-bit zero, with its matching `end` at
/// `at`: the step takes the condition off the stack and leaves the program
/// counter at `at`, so that the instruction fetched next is the one after
/// the matching `end`. The frame gets one more label, and nothing else
/// changes.
pub proof fn skipped_if_goes_on_after_its_end(s: State, at: int)
    requires
        s.call_stack.len() > 0,
        0 <= s.call_stack.last().pc + 1 < s.call_stack.last().insts.len(),
        s.call_stack.last().insts[s.call_stack.last().pc + 1] is If,
        s.stack.len() > 0,
        s.stack.last() == Value::I32(0),
        matching_end(s.call_stack.last().insts, s.call_stack.last().pc + 1, at),
    ensures
        step_spec(s) matches Step::Next(t) && {
            &&& t.stack == s.stack.drop_last()
            &&& t.store == s.store
            &&& t.call_stack.len() == s.call_stack.len()
            &&& t.call_stack.drop_last() == s.call_stack.drop_last()
            &&& t.call_stack.last().pc == at
            &&& t.call_stack.last().pc + 1 == at + 1
            &&& t.call_stack.last().labels.len() == s.call_stack.last().labels.len() + 1
            &&& t.call_stack.last().labels.last().pc == at as usize
            &&& t.call_stack.last().locals == s.call_stack.last().locals
        },
{
    let frame = s.call_stack.last();
    end_address_is_the_matching_end(frame.insts, frame.pc + 1, at);
    let t = step_spec(s)->Next_0;
    assert(t.call_stack.drop_last() =~= s.call_stack.drop_last());
}

/// `return` takes the running frame, with every label it holds, off the
/// call stack, and cuts the operand stack back to where the frame found
/// it, keeping the result where the function has one.
pub proof fn return_leaves_the_frame(s: State)
    requires
        about_to_execute(s, Instruction::Return),
    ensures
        match unwound(s.stack, s.call_stack.last().sp, s.call_stack.last().arity) {
            Ok(stack) => step_spec(s) == Step::Next(
                State { store: s.store, stack, call_stack: s.call_stack.drop_last() },
            ),
            Err(trap) => step_spec(s) == Step::Trap(trap),
        },
{
}

/// A run that comes to no call of an imported function has one end: the
/// one that [`run_spec`] computes.
pub proof fn run_without_imports_has_one_end<F: ImportFunc, W: FileSink>(
    s: State,
    fuel: nat,
    names: Seq<(Seq<char>, Seq<char>)>,
    shim: Option<nat>,
    last: State,
    r: Result<(), Error>,
)
    ensures
        match run_spec(s, fuel) {
            Outcome::Finished(end) => runs_to::<F, W>(s, fuel, names, shim, last, r) <==> (r
                is Ok && last == end),
            Outcome::Trapped(store, trap) => runs_to::<F, W>(s, fuel, names, shim, last, r)
                <==> r == Err::<(), Error>(Error::Trap(trap)) && last.store == store,
            Outcome::Host(_, _) => true,
        },
    decreases fuel,
{
    if s.call_stack.len() == 0 || fuel == 0 {
    } else {
        match step_spec(s) {
            Step::Next(next) => {
                run_without_imports_has_one_end::<F, W>(
                    next,
                    (fuel - 1) as nat,
                    names,
                    shim,
                    last,
                    r,
                );
            },
            _ => {},
        }
    }
}

/// `end` in a frame that holds a label takes the last label off: the
/// program counter becomes the one that the label holds, and the stack is
/// cut back to the depth that the label holds, keeping the value on top
/// where the label has an arity. Nothing else changes.
pub proof fn end_takes_the_label_off(s: State)
    requires
        about_to_execute(s, Instruction::End),
        s.call_stack.last().labels.len() > 0,
    ensures
        ({
            let frame = s.call_stack.last();
            let label = frame.labels.last();
            match unwound(s.stack, label.sp as nat, label.arity as nat) {
                Ok(stack) => step_spec(s) == Step::Next(
                    State {
                        store: s.store,
                        stack,
                        call_stack: s.call_stack.drop_last().push(
                            FrameView {
                                pc: label.pc as int,
                                labels: frame.labels.drop_last(),
                                ..frame
                            },
                        ),
                    },
                ),
                Err(trap) => step_spec(s) == Step::Trap(trap),
            }
        }),
{
}

/// A module without an export section exports nothing, whatever else it
/// declares: every call into its store ends with the error that the export
/// was not found, and leaves the store as it is.
pub proof fn nothing_exported_nothing_called<F: ImportFunc, W: FileSink>(
    module: ModuleView,
    s: State,
    name: Seq<char>,
    args: Seq<Value>,
    limit: nat,
    names: Seq<(Seq<char>, Seq<char>)>,
    shim: Option<nat>,
    store: StoreView,
    r: Result<Option<Value>, Error>,
)
    requires
        module.export_section is None,
        store_spec(module) == Ok::<StoreView, InstantiationError>(s.store),
    ensures
        s.store.exports == Map::<Seq<char>, ExportView>::empty(),
        call_spec(s, name, args, limit) == CallOutcome::Failed(s.store, Error::ExportNotFound),
        calls::<F, W>(s, name, args, limit, names, shim, store, r) <==> r == Err::<Option<Value>, Error>(
            Error::ExportNotFound,
        ) && store == s.store,
{
}

/// Every file of the type `W` takes all the bytes of every write.
pub open spec fn takes_all<W: FileSink>() -> bool {
    forall|bytes: Seq<u8>, answer: Result<usize, String>| #[trigger]
        file_answers::<W>(bytes, answer) ==> answer == Ok::<usize, String>(bytes.len() as usize)
}

/// The number of bytes written from record `k` on, with `count` bytes
/// written so far, where the file takes all of every buffer: the count
/// with the length of each buffer added, or the error of the first record
/// that cannot be read.
pub open spec fn total(memory: Seq<u8>, iovs: int, k: int, n: int, count: nat) -> Result<
    nat,
    WasiError,
>
    decreases n - k,
{
    if k >= n {
        Ok(count)
    } else {
        match iovec_spec(memory, iovs + 8 * k) {
            Err(e) => Err(e),
            Ok((start, end)) => total(
                memory,
                iovs,
                k + 1,
                n,
                counted(count, memory.subrange(start, end).len() as usize),
            ),
        }
    }
}

/// Writing to a file that takes all of every buffer has one end: the count
/// is the sum of the lengths of the buffers.
pub proof fn whole_writes_add_up<W: FileSink>(
    memory: Seq<u8>,
    iovs: int,
    k: int,
    n: int,
    count: nat,
    written: Result<nat, WasiError>,
)
    requires
        takes_all::<W>(),
        writes_on::<W>(memory, iovs, k, n, count, written),
    ensures
        written == total(memory, iovs, k, n, count),
    decreases n - k,
{
    if k < n {
        match iovec_spec(memory, iovs + 8 * k) {
            Err(e) => {},
            Ok((start, end)) => {
                let answer = choose|answer: Result<usize, String>| #[trigger]
                    file_answers::<W>(memory.subrange(start, end), answer) && match answer {
                        Err(message) => written == Err::<nat, WasiError>(WasiError::Io(message)),
                        Ok(took) => writes_on::<W>(
                            memory,
                            iovs,
                            k + 1,
                            n,
                            counted(count, took),
                            written,
                        ),
                    };
                let took = memory.subrange(start, end).len() as usize;
                assert(answer == Ok::<usize, String>(took));
                whole_writes_add_up::<W>(memory, iovs, k + 1, n, counted(count, took), written);
            },
        }
    }
}

/// `fd_write` to an open file that takes all of every buffer, in a store
/// with a memory: it fails where a record or its buffer, or the place for
/// the count, lies outside the memory, and leaves the store as it is; else
/// it gives errno 0 and stores the sum of the lengths of the buffers, and
/// nothing else of the store changes.
pub proof fn fd_write_to_a_file_that_takes_all<W: FileSink>(
    files: nat,
    before: StoreView,
    args: Seq<Value>,
    after: StoreView,
    r: Result<Option<Value>, WasiError>,
)
    requires
        takes_all::<W>(),
        fd_write_ends::<W>(files, before, args, after, r),
        fd_write_args(args) matches Some((fd, _, _, _)) && 0 <= fd < files,
        before.memories.len() > 0,
    ensures
        ({
            let (fd, iovs, iovs_len, rp) = fd_write_args(args)->0;
            match total(before.memories[0].data, iovs as int, 0, iovs_len as int, 0) {
                Err(e) => r == Err::<Option<Value>, WasiError>(e) && after == before,
                Ok(count) => finishes(before, rp as int, count, after, r),
            }
        }),
{
    let (fd, iovs, iovs_len, rp) = fd_write_args(args)->0;
    let written = choose|written: Result<nat, WasiError>| #[trigger]
        writes_on::<W>(before.memories[0].data, iovs as int, 0, iovs_len as int, 0, written)
            && match written {
            Err(e) => r == Err::<Option<Value>, WasiError>(e) && after == before,
            Ok(count) => finishes(before, rp as int, count, after, r),
        };
    whole_writes_add_up::<W>(before.memories[0].data, iovs as int, 0, iovs_len as int, 0, written);
}

} // verus!
