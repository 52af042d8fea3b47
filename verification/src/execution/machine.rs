//! What executing instructions means: the machine's state and its steps, as
//! mathematical functions that the runtime's contracts refer to.

use super::error::{Error, Trap, WasiError};
use super::import::{import_answers, linked, ImportFunc};
use super::memory::{le_bytes, written};
use super::store::{
    ExternalFuncInstView, FuncInstView, InternalFuncInstView, MemoryInstView, StoreView,
};
use super::value::{Label, LabelKind, Value};
use super::wasi::{invoke_ends, wasi_module, FileSink};
use crate::binary::instruction::Instruction;
use crate::binary::types::{ExportDesc, ValueType};
use vstd::prelude::*;

verus! {

/// What the contracts say of a frame. The program counter is the index of
/// the instruction that was fetched last, and -1 before the first fetch.
pub struct FrameView {
    pub pc: int,
    pub sp: nat,
    pub insts: Seq<Instruction>,
    pub arity: nat,
    pub labels: Seq<Label>,
    pub locals: Seq<Value>,
}

/// The state of the machine: the store, the operand stack with its top
/// last, and the call stack with the running frame last.
pub struct State {
    pub store: StoreView,
    pub stack: Seq<Value>,
    pub call_stack: Seq<FrameView>,
}

/// What one step of the machine comes to.
pub enum Step {
    /// The step was taken; the machine goes on from the new state.
    Next(State),
    /// There is no frame: nothing is left to execute.
    Done,
    /// The next instruction calls the imported function; the frame has
    /// fetched it, the arguments are still on the stack.
    Host(State, ExternalFuncInstView),
    /// The instruction cannot be executed.
    Trap(Trap),
}

/// The stack cut back to `sp` values, with its top value kept above them
/// where `arity` is not zero.
pub open spec fn unwound(stack: Seq<Value>, sp: nat, arity: nat) -> Result<Seq<Value>, Trap> {
    if arity > 0 {
        if stack.len() == 0 {
            Err(Trap::NoReturnValue)
        } else if sp > stack.len() - 1 {
            Err(Trap::StackUnderflow)
        } else {
            Ok(stack.take(sp as int).push(stack.last()))
        }
    } else {
        if sp > stack.len() {
            Err(Trap::StackUnderflow)
        } else {
            Ok(stack.take(sp as int))
        }
    }
}

/// The position of the first `end` at or after `at` that closes a block
/// opened `depth` blocks deep before `at`: each `if` on the way opens one
/// more, each `end` above depth zero closes one.
pub open spec fn scan_end(insts: Seq<Instruction>, at: int, depth: nat) -> Option<int>
    decreases insts.len() - at,
{
    if at < 0 || at >= insts.len() {
        None
    } else {
        match insts[at] {
            Instruction::If(_) => scan_end(insts, at + 1, depth + 1),
            Instruction::End => if depth == 0 {
                Some(at)
            } else {
                scan_end(insts, at + 1, (depth - 1) as nat)
            },
            _ => scan_end(insts, at + 1, depth),
        }
    }
}

/// The position of the `end` that matches the `if` at `pc`.
pub open spec fn end_address(insts: Seq<Instruction>, pc: int) -> Option<int> {
    scan_end(insts, pc + 1, 0)
}

/// The zero of a value type.
pub open spec fn zero_of(value_type: ValueType) -> Value {
    match value_type {
        ValueType::I32 => Value::I32(0),
        ValueType::I64 => Value::I64(0),
    }
}

/// The zeros of the given types, in order.
pub open spec fn zeros(types: Seq<ValueType>) -> Seq<Value> {
    Seq::new(types.len(), |i: int| zero_of(types[i]))
}

/// Entering a function: its arguments leave the stack and become the first
/// locals, its own locals follow as zeros, and the frame remembers the depth
/// of the stack without the arguments.
pub open spec fn entered(stack: Seq<Value>, func: InternalFuncInstView) -> Result<
    (Seq<Value>, FrameView),
    Trap,
> {
    let n = func.func_type.params.len();
    if stack.len() < n {
        Err(Trap::StackUnderflow)
    } else {
        let bottom = stack.len() - n;
        Ok(
            (
                stack.take(bottom),
                FrameView {
                    pc: -1,
                    sp: bottom as nat,
                    insts: func.code.body,
                    arity: func.func_type.results.len(),
                    labels: Seq::empty(),
                    locals: stack.skip(bottom) + zeros(func.code.locals),
                },
            ),
        )
    }
}

/// The state with the running frame and the stack replaced.
pub open spec fn with_frame(s: State, frame: FrameView, stack: Seq<Value>) -> State {
    State { store: s.store, stack, call_stack: s.call_stack.drop_last().push(frame) }
}

/// Returning from the running frame: the frame leaves the call stack, and
/// the stack is cut back to where the frame found it, with the result on top
/// where the function has one.
pub open spec fn frame_return(s: State) -> Step {
    let frame = s.call_stack.last();
    match unwound(s.stack, frame.sp, frame.arity) {
        Err(trap) => Step::Trap(trap),
        Ok(stack) => Step::Next(
            State { store: s.store, stack, call_stack: s.call_stack.drop_last() },
        ),
    }
}

/// `local.get`: the local goes onto the stack.
pub open spec fn local_get_spec(stack: Seq<Value>, locals: Seq<Value>, idx: u32) -> Result<
    Seq<Value>,
    Trap,
> {
    if idx < locals.len() {
        Ok(stack.push(locals[idx as int]))
    } else {
        Err(Trap::LocalOutOfRange)
    }
}

/// `local.set`: the top of the stack goes into the local.
pub open spec fn local_set_spec(stack: Seq<Value>, locals: Seq<Value>, idx: u32) -> Result<
    (Seq<Value>, Seq<Value>),
    Trap,
> {
    if stack.len() == 0 {
        Err(Trap::StackUnderflow)
    } else if idx >= locals.len() {
        Err(Trap::LocalOutOfRange)
    } else {
        Ok((stack.drop_last(), locals.update(idx as int, stack.last())))
    }
}

/// The three instructions that take two operands and leave one result.
#[derive(Debug, Clone, Copy, PartialEq, Eq, Structural)]
pub enum BinaryOp {
    Add,
    Sub,
    LtS,
}

/// What a binary instruction makes of its operands.
pub open spec fn binary_result(op: BinaryOp, left: Value, right: Value) -> Value {
    match op {
        BinaryOp::Add => left.spec_sum(right),
        BinaryOp::Sub => left.spec_difference(right),
        BinaryOp::LtS => Value::I32(
            if left.spec_less(right) {
                1i32
            } else {
                0i32
            },
        ),
    }
}

/// A binary instruction: the right operand is on top, the left one below
/// it; both leave the stack and the result takes their place.
pub open spec fn binary_spec(stack: Seq<Value>, op: BinaryOp) -> Result<Seq<Value>, Trap> {
    if stack.len() < 2 {
        Err(Trap::StackUnderflow)
    } else {
        let right = stack[stack.len() - 1];
        let left = stack[stack.len() - 2];
        if !left.same_type(right) {
            Err(Trap::TypeMismatch)
        } else {
            Ok(stack.take(stack.len() - 2).push(binary_result(op, left, right)))
        }
    }
}

/// `i32.store`: the value is on top, the address below it; the four bytes of
/// the value go into the first memory at address plus offset.
pub open spec fn i32_store_spec(stack: Seq<Value>, memories: Seq<MemoryInstView>, offset: u32) -> Result<
    (Seq<Value>, Seq<MemoryInstView>),
    Trap,
> {
    if stack.len() < 2 {
        Err(Trap::StackUnderflow)
    } else {
        let value = stack[stack.len() - 1];
        let addr = stack[stack.len() - 2];
        match addr {
            Value::I64(_) => Err(Trap::TypeMismatch),
            Value::I32(addr) => if memories.len() == 0 {
                Err(Trap::MemoryNotFound)
            } else {
                match value {
                    Value::I64(_) => Err(Trap::TypeMismatch),
                    Value::I32(value) => {
                        let at = addr + offset;
                        if at < 0 || at + 4 > memories[0].data.len() {
                            Err(Trap::MemoryOutOfBounds)
                        } else {
                            Ok(
                                (
                                    stack.take(stack.len() - 2),
                                    memories.update(
                                        0,
                                        MemoryInstView {
                                            data: written(memories[0].data, at, le_bytes(value)),
                                            max: memories[0].max,
                                        },
                                    ),
                                ),
                            )
                        }
                    },
                }
            },
        }
    }
}

/// `if`: the condition leaves the stack. Where it is the 32-bit zero, the
/// program counter moves to the matching `end`. Either way the frame gets a
/// label that holds the program counter and the depth of the stack.
pub open spec fn if_spec(stack: Seq<Value>, frame: FrameView, arity: nat) -> Result<
    (Seq<Value>, FrameView),
    Trap,
> {
    if stack.len() == 0 {
        Err(Trap::StackUnderflow)
    } else {
        let rest = stack.drop_last();
        let target = if stack.last() == Value::I32(0) {
            end_address(frame.insts, frame.pc)
        } else {
            Some(frame.pc)
        };
        match target {
            None => Err(Trap::MissingEnd),
            Some(pc) => Ok(
                (
                    rest,
                    FrameView {
                        pc,
                        labels: frame.labels.push(
                            Label {
                                kind: LabelKind::If,
                                pc: pc as usize,
                                sp: rest.len() as usize,
                                arity: arity as usize,
                            },
                        ),
                        ..frame
                    },
                ),
            ),
        }
    }
}

/// `end` in a frame that holds a label: the label leaves the frame, the
/// program counter goes back to where the label says, and the stack is cut
/// back to the depth that the label holds.
pub open spec fn label_unwind_spec(stack: Seq<Value>, frame: FrameView) -> Result<
    (Seq<Value>, FrameView),
    Trap,
> {
    let label = frame.labels.last();
    match unwound(stack, label.sp as nat, label.arity as nat) {
        Err(trap) => Err(trap),
        Ok(stack) => Ok(
            (stack, FrameView { pc: label.pc as int, labels: frame.labels.drop_last(), ..frame }),
        ),
    }
}

/// What executing `inst` comes to, in the state `s` whose running frame is
/// `frame` and has just fetched it.
pub open spec fn execute_spec(s: State, frame: FrameView, inst: Instruction) -> Step {
    match inst {
        Instruction::LocalGet(idx) => match local_get_spec(s.stack, frame.locals, idx) {
            Err(trap) => Step::Trap(trap),
            Ok(stack) => Step::Next(with_frame(s, frame, stack)),
        },
        Instruction::LocalSet(idx) => match local_set_spec(s.stack, frame.locals, idx) {
            Err(trap) => Step::Trap(trap),
            Ok((stack, locals)) => Step::Next(
                with_frame(s, FrameView { locals, ..frame }, stack),
            ),
        },
        Instruction::I32Const(value) => Step::Next(
            with_frame(s, frame, s.stack.push(Value::I32(value))),
        ),
        Instruction::I32Add => match binary_spec(s.stack, BinaryOp::Add) {
            Err(trap) => Step::Trap(trap),
            Ok(stack) => Step::Next(with_frame(s, frame, stack)),
        },
        Instruction::I32Sub => match binary_spec(s.stack, BinaryOp::Sub) {
            Err(trap) => Step::Trap(trap),
            Ok(stack) => Step::Next(with_frame(s, frame, stack)),
        },
        Instruction::I32Lts => match binary_spec(s.stack, BinaryOp::LtS) {
            Err(trap) => Step::Trap(trap),
            Ok(stack) => Step::Next(with_frame(s, frame, stack)),
        },
        Instruction::I32Store { align, offset } => match i32_store_spec(
            s.stack,
            s.store.memories,
            offset,
        ) {
            Err(trap) => Step::Trap(trap),
            Ok((stack, memories)) => Step::Next(
                State {
                    store: StoreView { memories, ..s.store },
                    stack,
                    call_stack: s.call_stack.drop_last().push(frame),
                },
            ),
        },
        Instruction::If(block) => match if_spec(
            s.stack,
            frame,
            block.block_type.spec_result_count(),
        ) {
            Err(trap) => Step::Trap(trap),
            Ok((stack, frame)) => Step::Next(with_frame(s, frame, stack)),
        },
        Instruction::End => if frame.labels.len() > 0 {
            match label_unwind_spec(s.stack, frame) {
                Err(trap) => Step::Trap(trap),
                Ok((stack, frame)) => Step::Next(with_frame(s, frame, stack)),
            }
        } else {
            frame_return(s)
        },
        Instruction::Return => frame_return(s),
        Instruction::Call(idx) => if idx >= s.store.funcs.len() {
            Step::Trap(Trap::FunctionNotFound)
        } else {
            match s.store.funcs[idx as int] {
                FuncInstView::Internal(func) => match entered(s.stack, func) {
                    Err(trap) => Step::Trap(trap),
                    Ok((stack, callee)) => Step::Next(
                        State {
                            store: s.store,
                            stack,
                            call_stack: s.call_stack.drop_last().push(frame).push(callee),
                        },
                    ),
                },
                FuncInstView::External(func) => Step::Host(with_frame(s, frame, s.stack), func),
            }
        },
    }
}

/// One step of the machine: the running frame moves its program counter on
/// by one and executes the instruction there; past the last instruction, it
/// returns.
pub open spec fn step_spec(s: State) -> Step {
    if s.call_stack.len() == 0 {
        Step::Done
    } else {
        let frame = s.call_stack.last();
        let pc = frame.pc + 1;
        if 0 <= pc < frame.insts.len() {
            execute_spec(s, FrameView { pc, ..frame }, frame.insts[pc])
        } else {
            frame_return(s)
        }
    }
}

/// The two stores have the same functions and exports, and as many
/// memories with the same limits: they differ at most in the bytes that
/// the memories hold.
pub open spec fn same_but_memory(before: StoreView, after: StoreView) -> bool {
    &&& after.funcs == before.funcs
    &&& after.exports == before.exports
    &&& after.memories.len() == before.memories.len()
    &&& forall|m: int|
        0 <= m < before.memories.len() ==> after.memories[m].max == before.memories[m].max
            && after.memories[m].data.len() == before.memories[m].data.len()
}

/// A step changes nothing of the store but bytes of the first memory.
pub proof fn lemma_step_keeps_functions(s: State)
    ensures
        step_spec(s) matches Step::Next(next) ==> same_but_memory(s.store, next.store),
        step_spec(s) matches Step::Host(called, _) ==> called.store == s.store,
{
    if s.call_stack.len() > 0 {
        let frame = s.call_stack.last();
        let pc = frame.pc + 1;
        if 0 <= pc < frame.insts.len() {
            match frame.insts[pc] {
                Instruction::I32Store { align, offset } => {
                    match i32_store_spec(s.stack, s.store.memories, offset) {
                        Ok((_, memories)) => {
                            let at = (s.stack[s.stack.len() - 2]->I32_0) + offset;
                            let value = s.stack[s.stack.len() - 1]->I32_0;
                            super::memory::lemma_written(
                                s.store.memories[0].data,
                                at,
                                le_bytes(value),
                            );
                        },
                        Err(_) => {},
                    }
                },
                _ => {},
            }
        }
    }
}

/// A run that comes to no call of an imported function changes nothing of
/// the store but bytes of the first memory.
pub proof fn lemma_run_keeps_functions(s: State, fuel: nat)
    ensures
        match run_spec(s, fuel) {
            Outcome::Finished(last) => same_but_memory(s.store, last.store),
            Outcome::Trapped(store, _) => same_but_memory(s.store, store),
            Outcome::Host(called, _) => same_but_memory(s.store, called.store),
        },
    decreases fuel,
{
    if s.call_stack.len() == 0 || fuel == 0 {
    } else {
        lemma_step_keeps_functions(s);
        match step_spec(s) {
            Step::Next(next) => {
                lemma_run_keeps_functions(next, (fuel - 1) as nat);
            },
            _ => {},
        }
    }
}

/// How a run of the machine ends.
pub enum Outcome {
    /// The call stack ran empty; the state is the last one.
    Finished(State),
    /// An instruction trapped, or the run took more steps than allowed; the
    /// store is the one in which that happened.
    Trapped(StoreView, Trap),
    /// The run came to a call of an imported function: from there on the
    /// host decides.
    Host(State, ExternalFuncInstView),
}

/// The run of the machine from `s` over at most `fuel` steps, up to the
/// first call of an imported function.
pub open spec fn run_spec(s: State, fuel: nat) -> Outcome
    decreases fuel,
{
    if s.call_stack.len() == 0 {
        Outcome::Finished(s)
    } else if fuel == 0 {
        Outcome::Trapped(s.store, Trap::StepLimit)
    } else {
        match step_spec(s) {
            Step::Done => Outcome::Finished(s),
            Step::Trap(trap) => Outcome::Trapped(s.store, trap),
            Step::Host(state, func) => Outcome::Host(state, func),
            Step::Next(state) => run_spec(state, (fuel - 1) as nat),
        }
    }
}

/// The arguments of a call of an imported function with `n` parameters:
/// the top `n` values of the stack, the first argument lowest. They leave
/// the stack.
pub open spec fn arguments_spec(stack: Seq<Value>, n: nat) -> Result<
    (Seq<Value>, Seq<Value>),
    Trap,
> {
    if stack.len() < n {
        Err(Trap::StackUnderflow)
    } else {
        Ok((stack.take(stack.len() - n), stack.skip(stack.len() - n)))
    }
}

/// The stack after an imported function has answered: its result, if it
/// gives one, is on top.
pub open spec fn answered(stack: Seq<Value>, answer: Option<Value>) -> Seq<Value> {
    match answer {
        Some(value) => stack.push(value),
        None => stack,
    }
}

/// The error says that nothing is registered under an imported function's
/// names.
pub open spec fn unlinked(e: Error) -> bool {
    e is ImportModuleNotFound || e is ImportFunctionNotFound
}

/// The error is one that comes from the registry's side of a call of an
/// imported function: nothing is registered under the function's names, or
/// the function that is reports an error.
pub open spec fn from_registry(e: Error) -> bool {
    unlinked(e) || e is Host
}

/// The error is one that comes from the host's side of a call of an
/// imported function: from the registry's side, or from the WASI shim.
pub open spec fn from_host(e: Error) -> bool {
    from_registry(e) || e is Wasi
}

/// The answer of the WASI shim that a result of the runtime carries, if it
/// carries one: a value, or an error of the shim.
pub open spec fn from_wasi(r: Result<Option<Value>, Error>) -> Option<
    Result<Option<Value>, WasiError>,
> {
    match r {
        Ok(value) => Some(Ok(value)),
        Err(Error::Wasi(e)) => Some(Err(e)),
        Err(_) => None,
    }
}

/// The call of the imported function goes to the WASI shim: the function
/// is of the shim's module, and the runtime has a shim. `shim` is the number
/// of files of the shim, if there is one.
pub open spec fn goes_to_shim(func: ExternalFuncInstView, shim: Option<nat>) -> bool {
    func.module == wasi_module() && shim is Some
}

/// The state `next` is one in which the machine may go on after a
/// function that the host has registered has answered: the host may have
/// changed the store in any way; the arguments have left the stack, which
/// was `rest` without them, and the result, if the function gave one, is on
/// top; the call stack is as it was.
pub open spec fn resumes(
    call_stack: Seq<FrameView>,
    rest: Seq<Value>,
    answer: Option<Value>,
    next: State,
) -> bool {
    next.call_stack == call_stack && next.stack == answered(rest, answer)
}

/// The machine, started in `s` with `fuel` steps to go, can end with the
/// result `r` in the state `last`. Where the run ends in an error, only the
/// store of `last` is told: it is the store in which the error happened.
/// The steps are those of [`step_spec`]. A call of an imported function
/// that goes to the WASI shim ends as [`invoke_ends`] says, for files of the
/// type `W`: an error of the shim ends the run, a result goes onto the stack.
/// Any other call of an imported function goes to the function that is
/// registered under its names; `names` are the names under which functions
/// are registered. Where none is ([`linked`]), that error ends the run, in
/// the store of before. Else a function of the type `F` answers
/// ([`import_answers`]): its error ends the run, and after its result the
/// machine goes on in a state that [`resumes`] allows. So a run without
/// calls of imported functions has one end, and a run with such calls has
/// one end for all that the host and its files may answer.
pub open spec fn runs_to<F: ImportFunc, W: FileSink>(
    s: State,
    fuel: nat,
    names: Seq<(Seq<char>, Seq<char>)>,
    shim: Option<nat>,
    last: State,
    r: Result<(), Error>,
) -> bool
    decreases fuel,
{
    if s.call_stack.len() == 0 {
        r is Ok && last == s
    } else if fuel == 0 {
        r == Err::<(), Error>(Error::Trap(Trap::StepLimit)) && last.store == s.store
    } else {
        match step_spec(s) {
            Step::Done => r is Ok && last == s,
            Step::Trap(trap) => r == Err::<(), Error>(Error::Trap(trap)) && last.store == s.store,
            Step::Next(next) => runs_to::<F, W>(next, (fuel - 1) as nat, names, shim, last, r),
            Step::Host(called, func) => match arguments_spec(
                called.stack,
                func.func_type.params.len(),
            ) {
                Err(trap) => r == Err::<(), Error>(Error::Trap(trap)) && last.store
                    == called.store,
                Ok((rest, args)) => if goes_to_shim(func, shim) {
                    exists|store: StoreView, answer: Result<Option<Value>, WasiError>| #[trigger]
                        invoke_ends::<W>(shim->0, called.store, func.field, args, store, answer)
                            && match answer {
                            Err(e) => r == Err::<(), Error>(Error::Wasi(e)) && last.store
                                == store,
                            Ok(value) => runs_to::<F, W>(
                                State {
                                    store,
                                    stack: answered(rest, value),
                                    call_stack: called.call_stack,
                                },
                                (fuel - 1) as nat,
                                names,
                                shim,
                                last,
                                r,
                            ),
                        }
                } else {
                    match linked(names, func.module, func.field) {
                        Err(e) => r == Err::<(), Error>(e) && last.store == called.store,
                        Ok(_) => exists|answer: Result<Option<Value>, String>| #[trigger]
                            import_answers::<F>(called.store, args, answer) && match answer {
                                Err(message) => r == Err::<(), Error>(Error::Host(message)),
                                Ok(value) => exists|next: State|
                                    #[trigger] resumes(called.call_stack, rest, value, next)
                                        && runs_to::<F, W>(
                                        next,
                                        (fuel - 1) as nat,
                                        names,
                                        shim,
                                        last,
                                        r,
                                    ),
                            },
                    }
                },
            },
        }
    }
}

/// A run that goes on after a step is a run from before the step.
pub proof fn lemma_runs_after_step<F: ImportFunc, W: FileSink>(
    s: State,
    fuel: nat,
    names: Seq<(Seq<char>, Seq<char>)>,
    shim: Option<nat>,
    next: State,
    last: State,
    r: Result<(), Error>,
)
    requires
        s.call_stack.len() > 0,
        fuel > 0,
        step_spec(s) == Step::Next(next),
        runs_to::<F, W>(next, (fuel - 1) as nat, names, shim, last, r),
    ensures
        runs_to::<F, W>(s, fuel, names, shim, last, r),
{
}

/// A run that goes on after a registered function has given a result is
/// a run from before the call.
pub proof fn lemma_runs_after_answer<F: ImportFunc, W: FileSink>(
    s: State,
    fuel: nat,
    names: Seq<(Seq<char>, Seq<char>)>,
    shim: Option<nat>,
    called: State,
    func: ExternalFuncInstView,
    value: Option<Value>,
    next: State,
    last: State,
    r: Result<(), Error>,
)
    requires
        s.call_stack.len() > 0,
        fuel > 0,
        step_spec(s) == Step::Host(called, func),
        !goes_to_shim(func, shim),
        linked(names, func.module, func.field) is Ok,
        arguments_spec(called.stack, func.func_type.params.len()) matches Ok((rest, args))
            && import_answers::<F>(called.store, args, Ok(value)) && resumes(
            called.call_stack,
            rest,
            value,
            next,
        ),
        runs_to::<F, W>(next, (fuel - 1) as nat, names, shim, last, r),
    ensures
        runs_to::<F, W>(s, fuel, names, shim, last, r),
{
    let (rest, args) = arguments_spec(called.stack, func.func_type.params.len())->Ok_0;
    assert(resumes(called.call_stack, rest, value, next) && runs_to::<F, W>(
        next,
        (fuel - 1) as nat,
        names,
        shim,
        last,
        r,
    ));
}

/// A run ends with the error that a registered function reports.
pub proof fn lemma_runs_fail_in_host<F: ImportFunc, W: FileSink>(
    s: State,
    fuel: nat,
    names: Seq<(Seq<char>, Seq<char>)>,
    shim: Option<nat>,
    called: State,
    func: ExternalFuncInstView,
    message: String,
    last: State,
)
    requires
        s.call_stack.len() > 0,
        fuel > 0,
        step_spec(s) == Step::Host(called, func),
        !goes_to_shim(func, shim),
        linked(names, func.module, func.field) is Ok,
        arguments_spec(called.stack, func.func_type.params.len()) matches Ok((rest, args))
            && import_answers::<F>(called.store, args, Err(message)),
    ensures
        runs_to::<F, W>(s, fuel, names, shim, last, Err(Error::Host(message))),
{
}

/// A run that goes on after the shim has given a result is a run from
/// before the call.
pub proof fn lemma_runs_after_shim<F: ImportFunc, W: FileSink>(
    s: State,
    fuel: nat,
    names: Seq<(Seq<char>, Seq<char>)>,
    shim: Option<nat>,
    called: State,
    func: ExternalFuncInstView,
    store: StoreView,
    value: Option<Value>,
    last: State,
    r: Result<(), Error>,
)
    requires
        s.call_stack.len() > 0,
        fuel > 0,
        step_spec(s) == Step::Host(called, func),
        goes_to_shim(func, shim),
        arguments_spec(called.stack, func.func_type.params.len()) matches Ok((rest, args))
            && invoke_ends::<W>(shim->0, called.store, func.field, args, store, Ok(value))
            && runs_to::<F, W>(
            State { store, stack: answered(rest, value), call_stack: called.call_stack },
            (fuel - 1) as nat,
            names,
            shim,
            last,
            r,
        ),
    ensures
        runs_to::<F, W>(s, fuel, names, shim, last, r),
{
}

/// A run ends with the error that the shim gives.
pub proof fn lemma_runs_fail_in_shim<F: ImportFunc, W: FileSink>(
    s: State,
    fuel: nat,
    names: Seq<(Seq<char>, Seq<char>)>,
    shim: Option<nat>,
    called: State,
    func: ExternalFuncInstView,
    e: WasiError,
    last: State,
)
    requires
        s.call_stack.len() > 0,
        fuel > 0,
        step_spec(s) == Step::Host(called, func),
        goes_to_shim(func, shim),
        arguments_spec(called.stack, func.func_type.params.len()) matches Ok((rest, args))
            && invoke_ends::<W>(shim->0, called.store, func.field, args, last.store, Err(e)),
    ensures
        runs_to::<F, W>(s, fuel, names, shim, last, Err(Error::Wasi(e))),
{
}

/// How a call of an exported function ends, as far as the machine decides it.
pub enum CallOutcome {
    /// The function returned: the store after the call, and the result.
    Returned(StoreView, Option<Value>),
    /// The call failed with this error, and left this store.
    Failed(StoreView, Error),
    /// The call came to an imported function: from there on the host decides.
    Host,
}

/// Calling a function that the module defines, in the state `s` with the
/// arguments on the stack: the function is entered and the machine runs
/// until the call stack is empty. A function with results gives the value
/// that is then on top of the stack.
pub open spec fn invoke_internal_spec(s: State, func: InternalFuncInstView, limit: nat) -> CallOutcome {
    match entered(s.stack, func) {
        Err(trap) => CallOutcome::Failed(s.store, Error::Trap(trap)),
        Ok((stack, frame)) => match run_spec(
            State { store: s.store, stack, call_stack: s.call_stack.push(frame) },
            limit,
        ) {
            Outcome::Trapped(store, trap) => CallOutcome::Failed(store, Error::Trap(trap)),
            Outcome::Host(_, _) => CallOutcome::Host,
            Outcome::Finished(last) => if func.func_type.results.len() > 0 {
                if last.stack.len() == 0 {
                    CallOutcome::Failed(last.store, Error::Trap(Trap::NoReturnValue))
                } else {
                    CallOutcome::Returned(last.store, Some(last.stack.last()))
                }
            } else {
                CallOutcome::Returned(last.store, None)
            },
        },
    }
}

/// Calling the export `name` with `args`, in the state `s`: the export
/// names a function of the store; the arguments go onto the stack, the first
/// one lowest; then the function is called.
pub open spec fn call_spec(s: State, name: Seq<char>, args: Seq<Value>, limit: nat) -> CallOutcome {
    if !s.store.exports.contains_key(name) {
        CallOutcome::Failed(s.store, Error::ExportNotFound)
    } else {
        match s.store.exports[name].desc {
            ExportDesc::Func(idx) => if idx >= s.store.funcs.len() {
                CallOutcome::Failed(s.store, Error::Trap(Trap::FunctionNotFound))
            } else {
                match s.store.funcs[idx as int] {
                    FuncInstView::Internal(func) => invoke_internal_spec(
                        State { stack: s.stack + args, ..s },
                        func,
                        limit,
                    ),
                    FuncInstView::External(func) => if s.stack.len() + args.len()
                        < func.func_type.params.len() {
                        CallOutcome::Failed(s.store, Error::Trap(Trap::StackUnderflow))
                    } else {
                        CallOutcome::Host
                    },
                }
            },
        }
    }
}

/// What a function that was entered and run gives: the store in which the
/// run ended, and the error of the run, or the value on top of the stack
/// where the function has results.
pub open spec fn gives_back(
    func: InternalFuncInstView,
    last: State,
    run: Result<(), Error>,
    store: StoreView,
    r: Result<Option<Value>, Error>,
) -> bool {
    &&& store == last.store
    &&& match run {
        Err(e) => r == Err::<Option<Value>, Error>(e),
        Ok(()) => if func.func_type.results.len() > 0 {
            if last.stack.len() == 0 {
                r == Err::<Option<Value>, Error>(Error::Trap(Trap::NoReturnValue))
            } else {
                r == Ok::<Option<Value>, Error>(Some(last.stack.last()))
            }
        } else {
            r == Ok::<Option<Value>, Error>(None)
        },
    }
}

/// Calling a function that the module defines, in the state `s` with the
/// arguments on the stack, can end with the result `r` and the store
/// `store`: the function is entered, the machine runs as [`runs_to`] allows,
/// and the function [`gives_back`] its result.
pub open spec fn invokes<F: ImportFunc, W: FileSink>(
    s: State,
    func: InternalFuncInstView,
    limit: nat,
    names: Seq<(Seq<char>, Seq<char>)>,
    shim: Option<nat>,
    store: StoreView,
    r: Result<Option<Value>, Error>,
) -> bool {
    match entered(s.stack, func) {
        Err(trap) => r == Err::<Option<Value>, Error>(Error::Trap(trap)) && store == s.store,
        Ok((stack, frame)) => exists|last: State, run: Result<(), Error>|
            runs_to::<F, W>(
                State { store: s.store, stack, call_stack: s.call_stack.push(frame) },
                limit,
                names,
                shim,
                last,
                run,
            ) && #[trigger] gives_back(func, last, run, store, r),
    }
}

/// Calling the export `name` with `args`, in the state `s`, can end with
/// the result `r` and the store `store`. The
/// export names a function of the store; the arguments go onto the stack,
/// the first one lowest. A function that the module defines is called as
/// [`invokes`] says. An imported function gets its arguments; where the
/// call goes to the WASI shim it ends as [`invoke_ends`] says, and else the
/// host decides on the result, or on an error from the registry's side.
pub open spec fn calls<F: ImportFunc, W: FileSink>(
    s: State,
    name: Seq<char>,
    args: Seq<Value>,
    limit: nat,
    names: Seq<(Seq<char>, Seq<char>)>,
    shim: Option<nat>,
    store: StoreView,
    r: Result<Option<Value>, Error>,
) -> bool {
    if !s.store.exports.contains_key(name) {
        r == Err::<Option<Value>, Error>(Error::ExportNotFound) && store == s.store
    } else {
        match s.store.exports[name].desc {
            ExportDesc::Func(idx) => if idx >= s.store.funcs.len() {
                r == Err::<Option<Value>, Error>(Error::Trap(Trap::FunctionNotFound)) && store
                    == s.store
            } else {
                match s.store.funcs[idx as int] {
                    FuncInstView::Internal(func) => invokes::<F, W>(
                        State { stack: s.stack + args, ..s },
                        func,
                        limit,
                        names,
                        shim,
                        store,
                        r,
                    ),
                    FuncInstView::External(func) => match arguments_spec(
                        s.stack + args,
                        func.func_type.params.len(),
                    ) {
                        Err(trap) => r == Err::<Option<Value>, Error>(Error::Trap(trap)) && store
                            == s.store,
                        Ok((_, taken)) => if goes_to_shim(func, shim) {
                            from_wasi(r) matches Some(answer) && invoke_ends::<W>(
                                shim->0,
                                s.store,
                                func.field,
                                taken,
                                store,
                                answer,
                            )
                        } else {
                            match linked(names, func.module, func.field) {
                                Err(e) => r == Err::<Option<Value>, Error>(e) && store == s.store,
                                Ok(_) => exists|answer: Result<Option<Value>, String>| #[trigger]
                                    import_answers::<F>(s.store, taken, answer) && r == (
                                    match answer {
                                        Ok(value) => Ok::<Option<Value>, Error>(value),
                                        Err(message) => Err::<Option<Value>, Error>(
                                            Error::Host(message),
                                        ),
                                    }),
                            }
                        },
                    },
                }
            },
        }
    }
}

} // verus!
