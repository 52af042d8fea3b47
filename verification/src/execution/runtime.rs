use super::error::{Error, Trap};
use super::import::{
    distinct, find_spec, import_answers, lemma_find_is_linked, registered, same_text, Import,
    ImportEntry, ImportFunc,
};
use super::machine::{
    answered, arguments_spec, binary_spec, call_spec, calls, end_address, entered, execute_spec,
    frame_return, from_host, from_wasi, gives_back, goes_to_shim, i32_store_spec, if_spec,
    invoke_internal_spec, invokes, label_unwind_spec, lemma_run_keeps_functions,
    lemma_runs_after_answer, lemma_runs_after_shim, lemma_runs_after_step, lemma_runs_fail_in_host,
    lemma_runs_fail_in_shim, local_get_spec, local_set_spec, resumes, run_spec, runs_to,
    same_but_memory, scan_end, step_spec, unwound, zeros, BinaryOp, CallOutcome, FrameView,
    Outcome, State, Step,
};
use super::memory::{i32_to_le_bytes, le_bytes, memory_write, written};
use super::store::{
    copy_vec, empty_store, store_spec, ExternalFuncInst, Func, FuncInst, InternalFuncInst, MemoryInst,
    MemoryInstView, Store, StoreView,
};
use super::value::{Label, LabelKind, Value};
use super::wasi::{invoke_ends, FileSink, WasiSnapshotPreview1};
use crate::binary::instruction::Instruction;
use crate::binary::module::{module_spec, Module};
use crate::binary::reader::lemma_views_push;
use crate::binary::types::{views, ExportDesc, ValueType};
use vstd::prelude::*;

verus! {

/// The activation record of one call of a function that the module defines.
/// The program counter is the index of the instruction that was fetched
/// last; before the first fetch there is none.
pub struct Frame {
    pub pc: Option<usize>,
    pub sp: usize,
    pub insts: Vec<Instruction>,
    pub arity: usize,
    pub labels: Vec<Label>,
    pub locals: Vec<Value>,
}

impl View for Frame {
    type V = FrameView;

    open spec fn view(&self) -> FrameView {
        FrameView {
            pc: match self.pc {
                Some(pc) => pc as int,
                None => -1,
            },
            sp: self.sp as nat,
            insts: self.insts@,
            arity: self.arity as nat,
            labels: self.labels@,
            locals: self.locals@,
        }
    }
}

impl Default for Frame {
    /// The frame of an empty function without parameters and results, at
    /// its first instruction.
    fn default() -> (frame: Frame)
        ensures
            frame@ == (FrameView {
                pc: 0,
                sp: 0,
                insts: Seq::empty(),
                arity: 0,
                labels: Seq::empty(),
                locals: Seq::empty(),
            }),
    {
        let frame = Frame {
            pc: Some(0),
            sp: 0,
            insts: Vec::new(),
            arity: 0,
            labels: Vec::new(),
            locals: Vec::new(),
        };
        assert(frame@.insts =~= Seq::<Instruction>::empty());
        assert(frame@.labels =~= Seq::<Label>::empty());
        assert(frame@.locals =~= Seq::<Value>::empty());
        frame
    }
}

/// What the machine asks of its driver after a step.
pub enum Signal {
    /// Go on with the next step.
    Next,
    /// There is no frame to run.
    Done,
    /// Call this imported function: its arguments are on the stack.
    Host(ExternalFuncInst),
}

/// The machine's state that a store, an operand stack and a call stack make up.
pub open spec fn state_of(store: Store, stack: Vec<Value>, call_stack: Vec<Frame>) -> State {
    State { store: store@, stack: stack@, call_stack: views(call_stack@) }
}

/// The views of a sequence whose last item is taken off or replaced.
pub proof fn lemma_views_last<T: View>(items: Seq<T>, item: T)
    requires
        items.len() > 0,
    ensures
        views(items).last() == items.last()@,
        views(items.drop_last()) == views(items).drop_last(),
        views(items.drop_last().push(item)) == views(items).drop_last().push(item@),
        views(items.push(item)) == views(items).push(item@),
{
    assert(views(items.drop_last()) =~= views(items).drop_last());
    assert(views(items.drop_last().push(item)) =~= views(items).drop_last().push(item@));
    assert(views(items.push(item)) =~= views(items).push(item@));
}

/// Finds the `end` that matches the `if` at `pc`: scans forward from the
/// instruction after it, one block deeper at each `if`, one less deep at
/// each `end`, up to the first `end` met at depth zero. Fails where the
/// instructions end before that.
pub fn get_end_address(insts: &[Instruction], pc: usize) -> (r: Result<usize, Trap>)
    ensures
        match r {
            Ok(at) => end_address(insts@, pc as int) == Some(at as int) && pc < at < insts@.len(),
            Err(e) => end_address(insts@, pc as int) is None && e == Trap::MissingEnd,
        },
{
    if pc >= insts.len() {
        return Err(Trap::MissingEnd);
    }
    let mut at: usize = pc + 1;
    let mut depth: usize = 0;
    while at < insts.len()
        invariant
            pc < at <= insts@.len(),
            depth <= at,
            end_address(insts@, pc as int) == scan_end(insts@, at as int, depth as nat),
        decreases insts@.len() - at,
    {
        match insts[at] {
            Instruction::If(_) => {
                depth += 1;
            },
            Instruction::End => {
                if depth == 0 {
                    return Ok(at);
                } else {
                    depth -= 1;
                }
            },
            _ => {},
        }
        at += 1;
    }
    Err(Trap::MissingEnd)
}

/// Cuts the stack back to `sp` values; where `arity` is not zero, the value
/// on top is kept above them. Fails where the stack holds no value to keep,
/// or fewer than `sp` values.
pub fn stack_unwind(stack: &mut Vec<Value>, sp: usize, arity: usize) -> (r: Result<(), Trap>)
    ensures
        match unwound(old(stack)@, sp as nat, arity as nat) {
            Ok(cut) => r is Ok && final(stack)@ == cut,
            Err(trap) => r == Err::<(), Trap>(trap) && final(stack)@ == old(stack)@,
        },
{
    if arity > 0 {
        if stack.len() == 0 {
            return Err(Trap::NoReturnValue);
        }
        if sp > stack.len() - 1 {
            return Err(Trap::StackUnderflow);
        }
        let value = stack[stack.len() - 1];
        stack.truncate(sp);
        stack.push(value);
        assert(stack@ =~= old(stack)@.take(sp as int).push(old(stack)@.last()));
    } else {
        if sp > stack.len() {
            return Err(Trap::StackUnderflow);
        }
        stack.truncate(sp);
        assert(stack@ =~= old(stack)@.take(sp as int));
    }
    Ok(())
}

/// Makes the frame for a call of `func`: takes the arguments off the stack
/// into the first locals and adds a zero for each local of the function.
/// Fails where the stack holds fewer values than the function has parameters.
pub fn new_frame(stack: &mut Vec<Value>, func: &InternalFuncInst) -> (r: Result<Frame, Trap>)
    ensures
        match entered(old(stack)@, func@) {
            Ok((rest, frame)) => r matches Ok(made) && made@ == frame && final(stack)@ == rest,
            Err(trap) => r matches Err(e) && e == trap && final(stack)@ == old(stack)@,
        },
{
    let n = func.func_type.params.len();
    if stack.len() < n {
        return Err(Trap::StackUnderflow);
    }
    let bottom = stack.len() - n;
    let mut locals = stack.split_off(bottom);
    let ghost arguments = locals@;
    let mut i: usize = 0;
    while i < func.code.locals.len()
        invariant
            i <= func.code.locals@.len(),
            locals@ == arguments + zeros(func.code.locals@.subrange(0, i as int)),
        decreases func.code.locals@.len() - i,
    {
        let zero = match func.code.locals[i] {
            ValueType::I32 => Value::I32(0),
            ValueType::I64 => Value::I64(0),
        };
        locals.push(zero);
        i += 1;
        assert(locals@ =~= arguments + zeros(func.code.locals@.subrange(0, i as int)));
    }
    assert(func.code.locals@.subrange(0, i as int) =~= func.code.locals@);
    let frame = Frame {
        pc: None,
        sp: stack.len(),
        insts: copy_vec(&func.code.body),
        arity: func.func_type.results.len(),
        locals,
        labels: Vec::new(),
    };
    assert(frame@.labels =~= Seq::<Label>::empty());
    Ok(frame)
}

/// `local.get`.
pub fn local_get(stack: &mut Vec<Value>, locals: &Vec<Value>, idx: u32) -> (r: Result<(), Trap>)
    ensures
        match local_get_spec(old(stack)@, locals@, idx) {
            Ok(after) => r is Ok && final(stack)@ == after,
            Err(trap) => r == Err::<(), Trap>(trap) && final(stack)@ == old(stack)@,
        },
{
    let idx = idx as usize;
    if idx >= locals.len() {
        return Err(Trap::LocalOutOfRange);
    }
    stack.push(locals[idx]);
    Ok(())
}

/// `local.set`.
pub fn local_set(stack: &mut Vec<Value>, locals: &mut Vec<Value>, idx: u32) -> (r: Result<
    (),
    Trap,
>)
    ensures
        match local_set_spec(old(stack)@, old(locals)@, idx) {
            Ok((after, set)) => r is Ok && final(stack)@ == after && final(locals)@ == set,
            Err(trap) => r == Err::<(), Trap>(trap) && final(stack)@ == old(stack)@
                && final(locals)@ == old(locals)@,
        },
{
    if stack.len() == 0 {
        return Err(Trap::StackUnderflow);
    }
    let idx = idx as usize;
    if idx >= locals.len() {
        return Err(Trap::LocalOutOfRange);
    }
    let value = stack[stack.len() - 1];
    stack.truncate(stack.len() - 1);
    locals[idx] = value;
    assert(stack@ =~= old(stack)@.drop_last());
    Ok(())
}

/// `i32.add`, `i32.sub` and `i32.lt_s`.
pub fn binary(stack: &mut Vec<Value>, op: BinaryOp) -> (r: Result<(), Trap>)
    ensures
        match binary_spec(old(stack)@, op) {
            Ok(after) => r is Ok && final(stack)@ == after,
            Err(trap) => r == Err::<(), Trap>(trap) && final(stack)@ == old(stack)@,
        },
{
    if stack.len() < 2 {
        return Err(Trap::StackUnderflow);
    }
    let right = stack[stack.len() - 1];
    let left = stack[stack.len() - 2];
    let same = match (left, right) {
        (Value::I32(_), Value::I32(_)) => true,
        (Value::I64(_), Value::I64(_)) => true,
        _ => false,
    };
    if !same {
        return Err(Trap::TypeMismatch);
    }
    let result = match op {
        BinaryOp::Add => left + right,
        BinaryOp::Sub => left - right,
        BinaryOp::LtS => Value::from(left < right),
    };
    stack.truncate(stack.len() - 2);
    stack.push(result);
    assert(stack@ =~= old(stack)@.take(old(stack)@.len() - 2).push(result));
    Ok(())
}

/// `i32.store`.
pub fn i32_store(stack: &mut Vec<Value>, memories: &mut Vec<MemoryInst>, offset: u32) -> (r:
    Result<(), Trap>)
    ensures
        match i32_store_spec(old(stack)@, views(old(memories)@), offset) {
            Ok((after, stored)) => r is Ok && final(stack)@ == after && views(final(memories)@)
                == stored,
            Err(trap) => r == Err::<(), Trap>(trap) && final(stack)@ == old(stack)@ && views(
                final(memories)@,
            ) == views(old(memories)@),
        },
{
    if stack.len() < 2 {
        return Err(Trap::StackUnderflow);
    }
    let value = stack[stack.len() - 1];
    let addr = stack[stack.len() - 2];
    let addr = match addr {
        Value::I32(addr) => addr,
        Value::I64(_) => {
            return Err(Trap::TypeMismatch);
        },
    };
    if memories.len() == 0 {
        return Err(Trap::MemoryNotFound);
    }
    let value = match value {
        Value::I32(value) => value,
        Value::I64(_) => {
            return Err(Trap::TypeMismatch);
        },
    };
    let at: i64 = addr as i64 + offset as i64;
    if at < 0 || at as u64 > usize::MAX as u64 {
        assert(memories@[0]@.data.len() <= usize::MAX) by {
            assert(memories@[0].data@.len() == memories@[0].data.len());
        }
        return Err(Trap::MemoryOutOfBounds);
    }
    let bytes = i32_to_le_bytes(value);
    let ghost before = memories@;
    let memory = &mut memories[0];
    if memory_write(&mut memory.data, at as usize, bytes.as_slice()).is_err() {
        assert(views(memories@) =~= views(before));
        return Err(Trap::MemoryOutOfBounds);
    }
    stack.truncate(stack.len() - 2);
    assert(stack@ =~= old(stack)@.take(old(stack)@.len() - 2));
    assert(views(memories@) =~= views(before).update(
        0,
        MemoryInstView {
            data: written(before[0].data@, at as int, le_bytes(value)),
            max: before[0].max,
        },
    ));
    Ok(())
}

/// `if`, in the frame that has just fetched it.
fn enter_if(stack: &mut Vec<Value>, frame: &mut Frame, arity: usize) -> (r: Result<(), Trap>)
    requires
        old(frame).pc is Some,
    ensures
        match if_spec(old(stack)@, old(frame)@, arity as nat) {
            Ok((after, entered)) => r is Ok && final(stack)@ == after && final(frame)@
                == entered,
            Err(trap) => r == Err::<(), Trap>(trap),
        },
{
    let cond = match stack.pop() {
        Some(cond) => cond,
        None => {
            return Err(Trap::StackUnderflow);
        },
    };
    assert(stack@ =~= old(stack)@.drop_last());
    let pc = match frame.pc {
        Some(pc) => pc,
        None => 0,
    };
    let target = if cond == Value::I32(0) {
        get_end_address(frame.insts.as_slice(), pc)?
    } else {
        pc
    };
    frame.pc = Some(target);
    let label = Label { kind: LabelKind::If, pc: target, sp: stack.len(), arity };
    frame.labels.push(label);
    Ok(())
}

/// `end`, in a frame that holds a label.
fn label_unwind(stack: &mut Vec<Value>, frame: &mut Frame) -> (r: Result<(), Trap>)
    requires
        old(frame).labels@.len() > 0,
    ensures
        match label_unwind_spec(old(stack)@, old(frame)@) {
            Ok((after, left)) => r is Ok && final(stack)@ == after && final(frame)@ == left,
            Err(trap) => r == Err::<(), Trap>(trap),
        },
{
    let label = match frame.labels.pop() {
        Some(label) => label,
        None => {
            return Err(Trap::StackUnderflow);
        },
    };
    assert(frame.labels@ =~= old(frame).labels@.drop_last());
    let Label { pc, sp, arity, .. } = label;
    frame.pc = Some(pc);
    stack_unwind(stack, sp, arity)
}

/// Takes the arguments of a call of an imported function with `n`
/// parameters off the stack.
pub fn take_arguments(stack: &mut Vec<Value>, n: usize) -> (r: Result<Vec<Value>, Trap>)
    ensures
        match arguments_spec(old(stack)@, n as nat) {
            Ok((rest, args)) => r matches Ok(taken) && taken@ == args && final(stack)@ == rest,
            Err(trap) => r matches Err(e) && e == trap && final(stack)@ == old(stack)@,
        },
{
    if stack.len() < n {
        return Err(Trap::StackUnderflow);
    }
    let bottom = stack.len() - n;
    Ok(stack.split_off(bottom))
}

/// Puts the result of an imported function, if it gives one, onto the stack.
pub fn accept_answer(stack: &mut Vec<Value>, answer: Option<Value>)
    ensures
        final(stack)@ == answered(old(stack)@, answer),
{
    if let Some(value) = answer {
        stack.push(value);
    }
}

/// A copy of an imported function's description.
pub fn copy_external(func: &ExternalFuncInst) -> (copy: ExternalFuncInst)
    ensures
        copy@ == func@,
{
    ExternalFuncInst {
        module: func.module.clone(),
        func: func.func.clone(),
        func_type: func.func_type.copy(),
    }
}

/// A copy of a defined function.
pub fn copy_internal(func: &InternalFuncInst) -> (copy: InternalFuncInst)
    ensures
        copy@ == func@,
{
    InternalFuncInst {
        func_type: func.func_type.copy(),
        code: Func { locals: copy_vec(&func.code.locals), body: copy_vec(&func.code.body) },
    }
}

/// Executes `inst` in the frame that has just fetched it: `frame` is the
/// running frame, taken off the call stack.
fn execute_instruction(
    store: &mut Store,
    stack: &mut Vec<Value>,
    call_stack: &mut Vec<Frame>,
    frame: Frame,
    inst: Instruction,
    Ghost(s): Ghost<State>,
) -> (r: Result<Signal, Trap>)
    requires
        s.call_stack.len() > 0,
        s.store == old(store)@,
        s.stack == old(stack)@,
        s.call_stack.drop_last() == views(old(call_stack)@),
        s.call_stack.last().sp == frame@.sp,
        s.call_stack.last().arity == frame@.arity,
        frame.pc is Some,
    ensures
        agrees(
            s,
            execute_spec(s, frame@, inst),
            r,
            state_of(*final(store), *final(stack), *final(call_stack)),
        ),
{
    let mut frame = frame;
    match inst {
        Instruction::LocalGet(idx) => {
            local_get(stack, &frame.locals, idx)?;
            proof {
                lemma_views_push(call_stack@, frame);
            }
            call_stack.push(frame);
            Ok(Signal::Next)
        },
        Instruction::LocalSet(idx) => {
            local_set(stack, &mut frame.locals, idx)?;
            proof {
                lemma_views_push(call_stack@, frame);
            }
            call_stack.push(frame);
            Ok(Signal::Next)
        },
        Instruction::I32Const(value) => {
            stack.push(Value::I32(value));
            proof {
                lemma_views_push(call_stack@, frame);
            }
            call_stack.push(frame);
            Ok(Signal::Next)
        },
        Instruction::I32Add => {
            binary(stack, BinaryOp::Add)?;
            proof {
                lemma_views_push(call_stack@, frame);
            }
            call_stack.push(frame);
            Ok(Signal::Next)
        },
        Instruction::I32Sub => {
            binary(stack, BinaryOp::Sub)?;
            proof {
                lemma_views_push(call_stack@, frame);
            }
            call_stack.push(frame);
            Ok(Signal::Next)
        },
        Instruction::I32Lts => {
            binary(stack, BinaryOp::LtS)?;
            proof {
                lemma_views_push(call_stack@, frame);
            }
            call_stack.push(frame);
            Ok(Signal::Next)
        },
        Instruction::I32Store { align: _, offset } => {
            i32_store(stack, &mut store.memories, offset)?;
            proof {
                lemma_views_push(call_stack@, frame);
            }
            call_stack.push(frame);
            Ok(Signal::Next)
        },
        Instruction::If(block) => {
            enter_if(stack, &mut frame, block.block_type.result_count())?;
            proof {
                lemma_views_push(call_stack@, frame);
            }
            call_stack.push(frame);
            Ok(Signal::Next)
        },
        Instruction::End => {
            if frame.labels.len() > 0 {
                label_unwind(stack, &mut frame)?;
                proof {
                    lemma_views_push(call_stack@, frame);
                }
                call_stack.push(frame);
                Ok(Signal::Next)
            } else {
                let Frame { sp, arity, .. } = frame;
                stack_unwind(stack, sp, arity)?;
                Ok(Signal::Next)
            }
        },
        Instruction::Return => {
            let Frame { sp, arity, .. } = frame;
            stack_unwind(stack, sp, arity)?;
            Ok(Signal::Next)
        },
        Instruction::Call(idx) => {
            let idx = idx as usize;
            if idx >= store.funcs.len() {
                return Err(Trap::FunctionNotFound);
            }
            match &store.funcs[idx] {
                FuncInst::Internal(func) => {
                    let callee = new_frame(stack, func)?;
                    proof {
                        lemma_views_push(call_stack@, frame);
                        lemma_views_push(call_stack@.push(frame), callee);
                    }
                    call_stack.push(frame);
                    call_stack.push(callee);
                    Ok(Signal::Next)
                },
                FuncInst::External(func) => {
                    let func = copy_external(func);
                    proof {
                        lemma_views_push(call_stack@, frame);
                    }
                    call_stack.push(frame);
                    Ok(Signal::Host(func))
                },
            }
        },
    }
}

/// The executable step's signal and state are those of the mathematical
/// step; a step that traps leaves the store as it was before.
pub open spec fn agrees(before: State, step: Step, r: Result<Signal, Trap>, after: State) -> bool {
    match step {
        Step::Next(next) => r matches Ok(Signal::Next) && after == next,
        Step::Done => r matches Ok(Signal::Done) && after == before,
        Step::Host(next, called) => r matches Ok(Signal::Host(func)) && func@ == called && after
            == next,
        Step::Trap(trap) => r matches Err(e) && e == trap && after.store == before.store,
    }
}

/// One step of the machine: the running frame fetches its next instruction
/// and executes it; past its last instruction it returns.
pub fn step(store: &mut Store, stack: &mut Vec<Value>, call_stack: &mut Vec<Frame>) -> (r: Result<
    Signal,
    Trap,
>)
    ensures
        agrees(
            state_of(*old(store), *old(stack), *old(call_stack)),
            step_spec(state_of(*old(store), *old(stack), *old(call_stack))),
            r,
            state_of(*final(store), *final(stack), *final(call_stack)),
        ),
{
    let ghost s = state_of(*store, *stack, *call_stack);
    let mut frame = match call_stack.pop() {
        Some(frame) => frame,
        None => {
            return Ok(Signal::Done);
        },
    };
    proof {
        lemma_views_last(old(call_stack)@, frame);
        assert(call_stack@ =~= old(call_stack)@.drop_last());
        assert(frame == old(call_stack)@.last());
        assert(s.call_stack.last() == frame@);
        assert(views(call_stack@) == s.call_stack.drop_last());
        assert(frame.insts@.len() == frame.insts.len());
    }
    let ghost running = frame@;
    let next: Option<usize> = match frame.pc {
        None => Some(0),
        Some(pc) => if pc < usize::MAX {
            Some(pc + 1)
        } else {
            None
        },
    };
    let fetched: Option<usize> = match next {
        Some(pc) => if pc < frame.insts.len() {
            Some(pc)
        } else {
            None
        },
        None => None,
    };
    match fetched {
        None => {
            assert(!(0 <= running.pc + 1 < running.insts.len()));
            assert(step_spec(s) == frame_return(s));
            let Frame { sp, arity, .. } = frame;
            stack_unwind(stack, sp, arity)?;
            Ok(Signal::Next)
        },
        Some(pc) => {
            frame.pc = Some(pc);
            let inst = frame.insts[pc];
            assert(pc == running.pc + 1);
            assert(frame@ == (FrameView { pc: running.pc + 1, ..running }));
            assert(step_spec(s) == execute_spec(s, frame@, inst));
            execute_instruction(store, stack, call_stack, frame, inst, Ghost(s))
        },
    }
}

/// The result of the runtime that the answer of a registered function
/// comes to: its value, or the error with its description.
pub open spec fn host_result(answer: Result<Option<Value>, String>) -> Result<
    Option<Value>,
    Error,
> {
    match answer {
        Ok(value) => Ok(value),
        Err(message) => Err(Error::Host(message)),
    }
}

/// A runtime: an instantiated module, the operand stack and the call stack
/// of the call that is running, the functions that the host has registered,
/// and the WASI shim if the host gave one. `step_limit` is the number of
/// instructions that one call may execute.
pub struct Runtime<F, W> {
    pub store: Store,
    pub stack: Vec<Value>,
    pub call_stack: Vec<Frame>,
    pub import: Import<F>,
    pub wasi: Option<WasiSnapshotPreview1<W>>,
    pub step_limit: u64,
}

impl<F, W> View for Runtime<F, W> {
    type V = State;

    open spec fn view(&self) -> State {
        State { store: self.store@, stack: self.stack@, call_stack: views(self.call_stack@) }
    }
}

/// What instantiating a byte image comes to: the store of the module that
/// the image holds, or the error of decoding or of instantiation.
pub open spec fn instantiate_spec(wasm: Seq<u8>) -> Result<StoreView, Error> {
    match module_spec(wasm) {
        Err(e) => Err(Error::Decode(e)),
        Ok(module) => match store_spec(module) {
            Err(e) => Err(Error::Instantiation(e)),
            Ok(store) => Ok(store),
        },
    }
}

impl<F: ImportFunc, W: FileSink> Default for Runtime<F, W> {
    /// The runtime of the module without sections, without a shim.
    fn default() -> (runtime: Self)
        ensures
            runtime.store@ == empty_store(),
            runtime.fresh(),
            runtime.wasi is None,
    {
        Runtime {
            store: Store::default(),
            stack: Vec::new(),
            call_stack: Vec::new(),
            import: Import::new(),
            wasi: None,
            step_limit: u64::MAX,
        }
    }
}

impl<F: ImportFunc, W: FileSink> Runtime<F, W> {
    /// What a call leaves of the host's side of the runtime. The functions
    /// are registered under the names and in the order of before, the shim
    /// is there if it was and has as many files, and the step limit is the
    /// same. The functions themselves, and the files, are the host's to
    /// change.
    pub open spec fn host_kept(&self, after: &Self) -> bool {
        &&& registered(after.import.entries@) == registered(self.import.entries@)
        &&& after.wasi is Some <==> self.wasi is Some
        &&& self.wasi is Some ==> after.wasi->0.file_table@.len()
            == self.wasi->0.file_table@.len()
        &&& after.step_limit == self.step_limit
    }

    /// A runtime is fresh when no call is running and nothing is registered.
    pub open spec fn fresh(&self) -> bool {
        &&& self.stack@.len() == 0
        &&& self.call_stack@.len() == 0
        &&& self.import.entries@.len() == 0
        &&& distinct(self.import.entries@)
        &&& self.step_limit == u64::MAX
    }

    /// Decodes a module image and instantiates the module.
    pub fn instantiate(wasm: &[u8]) -> (r: Result<Self, Error>)
        ensures
            match r {
                Ok(runtime) => instantiate_spec(wasm@) == Ok::<StoreView, Error>(runtime.store@)
                    && runtime.fresh() && runtime.wasi is None,
                Err(e) => instantiate_spec(wasm@) == Err::<StoreView, Error>(e),
            },
    {
        let module = match Module::new(wasm) {
            Ok(module) => module,
            Err(e) => {
                return Err(Error::Decode(e));
            },
        };
        let store = match Store::new(module) {
            Ok(store) => store,
            Err(e) => {
                return Err(Error::Instantiation(e));
            },
        };
        Ok(
            Runtime {
                store,
                stack: Vec::new(),
                call_stack: Vec::new(),
                import: Import::new(),
                wasi: None,
                step_limit: u64::MAX,
            },
        )
    }

    /// Decodes a module image and instantiates the module, with a WASI shim
    /// to answer its calls into `wasi_snapshot_preview1`.
    pub fn instantiate_with_wasi(wasm: &[u8], wasi: WasiSnapshotPreview1<W>) -> (r: Result<
        Self,
        Error,
    >)
        ensures
            match r {
                Ok(runtime) => instantiate_spec(wasm@) == Ok::<StoreView, Error>(runtime.store@)
                    && runtime.fresh() && runtime.wasi == Some(wasi),
                Err(e) => instantiate_spec(wasm@) == Err::<StoreView, Error>(e),
            },
    {
        let module = match Module::new(wasm) {
            Ok(module) => module,
            Err(e) => {
                return Err(Error::Decode(e));
            },
        };
        let store = match Store::new(module) {
            Ok(store) => store,
            Err(e) => {
                return Err(Error::Instantiation(e));
            },
        };
        Ok(
            Runtime {
                store,
                stack: Vec::new(),
                call_stack: Vec::new(),
                import: Import::new(),
                wasi: Some(wasi),
                step_limit: u64::MAX,
            },
        )
    }

    /// Registers a function of the host under a module name and a field
    /// name. An imported function is looked up when it is called, so a
    /// function can be registered after the module was instantiated.
    pub fn add_import(&mut self, module_name: &str, func_name: &str, func: F) -> (r: Result<
        (),
        Error,
    >)
        ensures
            r is Ok,
            find_spec(final(self).import.entries@, module_name@, func_name@) matches Ok(at)
                && final(self).import.entries@[at].func == func,
            match find_spec(old(self).import.entries@, module_name@, func_name@) {
                Ok(at) => final(self).import.entries@ == old(self).import.entries@.update(
                    at,
                    ImportEntry {
                        module: old(self).import.entries@[at].module,
                        field: old(self).import.entries@[at].field,
                        func,
                    },
                ),
                Err(_) => final(self).import.entries@.drop_last() == old(self).import.entries@
                    && final(self).import.entries@.len() == old(self).import.entries@.len() + 1,
            },
            distinct(old(self).import.entries@) ==> distinct(final(self).import.entries@),
            final(self)@ == old(self)@,
            final(self).step_limit == old(self).step_limit,
            final(self).wasi == old(self).wasi,
    {
        proof {
            super::import::lemma_position(self.import.entries@, module_name@, func_name@, 0);
        }
        self.import.insert(module_name, func_name, func);
        proof {
            super::import::lemma_position(self.import.entries@, module_name@, func_name@, 0);
        }
        Ok(())
    }

    /// Empties the operand stack and the call stack.
    pub fn cleanup(&mut self)
        ensures
            final(self).stack@.len() == 0,
            final(self).call_stack@.len() == 0,
            final(self).store == old(self).store,
            final(self).import == old(self).import,
            final(self).wasi == old(self).wasi,
            final(self).step_limit == old(self).step_limit,
    {
        self.stack = Vec::new();
        self.call_stack = Vec::new();
    }

    /// Enters a function that the module defines: its frame goes onto the
    /// call stack.
    pub fn push_frame(&mut self, func: &InternalFuncInst) -> (r: Result<(), Trap>)
        ensures
            match entered(old(self).stack@, func@) {
                Ok((rest, frame)) => r is Ok && final(self)@ == (State {
                    store: old(self)@.store,
                    stack: rest,
                    call_stack: old(self)@.call_stack.push(frame),
                }),
                Err(trap) => r == Err::<(), Trap>(trap) && final(self)@ == old(self)@,
            },
            final(self).import == old(self).import,
            final(self).wasi == old(self).wasi,
            final(self).step_limit == old(self).step_limit,
    {
        let frame = new_frame(&mut self.stack, func)?;
        proof {
            lemma_views_push(self.call_stack@, frame);
        }
        self.call_stack.push(frame);
        Ok(())
    }

    /// The names under which the host's functions are registered.
    pub open spec fn names(&self) -> Seq<(Seq<char>, Seq<char>)> {
        registered(self.import.entries@)
    }

    /// The number of files of the WASI shim, if the runtime has one.
    pub open spec fn shim(&self) -> Option<nat> {
        match self.wasi {
            Some(wasi) => Some(wasi.file_table@.len()),
            None => None,
        }
    }

    /// The call of the imported function goes to the WASI shim.
    pub open spec fn goes_to_wasi(&self, func: ExternalFuncInst) -> bool {
        goes_to_shim(func@, self.shim())
    }

    /// Calls an imported function: takes its arguments off the stack and
    /// hands them to the WASI shim, where the function is of the module
    /// `wasi_snapshot_preview1` and the runtime has a shim, and else to the
    /// function that the host has registered under the names.
    pub fn invoke_external(&mut self, func: ExternalFuncInst) -> (r: Result<Option<Value>, Error>)
        ensures
            final(self).call_stack == old(self).call_stack,
            old(self).host_kept(final(self)),
            old(self).goes_to_wasi(func) ==> final(self).import == old(self).import,
            !old(self).goes_to_wasi(func) ==> final(self).wasi == old(self).wasi,
            match arguments_spec(old(self).stack@, func@.func_type.params.len()) {
                Err(trap) => r == Err::<Option<Value>, Error>(Error::Trap(trap)) && final(self)@
                    == old(self)@ && final(self).import == old(self).import && final(self).wasi
                    == old(self).wasi,
                Ok((rest, args)) => {
                    &&& final(self).stack@ == rest
                    &&& r matches Err(e) ==> from_host(e)
                    &&& if old(self).goes_to_wasi(func) {
                        from_wasi(r) matches Some(answer) && invoke_ends::<W>(
                            old(self).shim()->0,
                            old(self).store@,
                            func.func@,
                            args,
                            final(self).store@,
                            answer,
                        )
                    } else {
                        match find_spec(old(self).import.entries@, func.module@, func.func@) {
                            Err(e) => r == Err::<Option<Value>, Error>(e) && final(self).store@
                                == old(self).store@,
                            Ok(_) => exists|answer: Result<Option<Value>, String>| #[trigger]
                                import_answers::<F>(old(self).store@, args, answer) && r
                                    == host_result(answer),
                        }
                    }
                },
            },
    {
        let args = match take_arguments(&mut self.stack, func.func_type.params.len()) {
            Ok(args) => args,
            Err(trap) => {
                return Err(Error::Trap(trap));
            },
        };

        if same_text(func.module.as_str(), "wasi_snapshot_preview1") {
            if let Some(wasi) = &mut self.wasi {
                return match wasi.invoke(&mut self.store, func.func.as_str(), args) {
                    Ok(value) => Ok(value),
                    Err(e) => Err(Error::Wasi(e)),
                };
            }
        }
        let at = match self.import.find(func.module.as_str(), func.func.as_str()) {
            Ok(at) => at,
            Err(e) => {
                return Err(e);
            },
        };
        let ghost before = self.import.entries@;
        let ghost store_before = self.store@;
        let ghost given = args@;
        let answer = self.import.entries[at].func.call(&mut self.store, args);
        assert(registered(self.import.entries@) =~= registered(before));
        assert(import_answers::<F>(store_before, given, answer));
        match answer {
            Ok(value) => Ok(value),
            Err(message) => Err(Error::Host(message)),
        }
    }

    /// Runs the machine until the call stack is empty. Calls of imported
    /// functions go to the host, and what they return goes onto the stack.
    /// The run is one of those that [`runs_to`] allows; up to the first call
    /// of an imported function it is that of [`run_spec`].
    pub fn execute(&mut self) -> (r: Result<(), Error>)
        ensures
            r is Ok ==> final(self).call_stack@.len() == 0,
            runs_to::<F, W>(
                old(self)@,
                old(self).step_limit as nat,
                old(self).names(),
                old(self).shim(),
                final(self)@,
                r,
            ),
            match run_spec(old(self)@, old(self).step_limit as nat) {
                Outcome::Finished(last) => r is Ok && final(self)@ == last,
                Outcome::Trapped(store, trap) => r == Err::<(), Error>(Error::Trap(trap))
                    && final(self).store@ == store,
                Outcome::Host(_, _) => true,
            },
            !(run_spec(old(self)@, old(self).step_limit as nat) is Host) ==> same_but_memory(
                old(self).store@,
                final(self).store@,
            ) && final(self).import == old(self).import && final(self).wasi == old(self).wasi,
            old(self).host_kept(final(self)),
    {
        proof {
            lemma_run_keeps_functions(self@, self.step_limit as nat);
        }
        let mut fuel = self.step_limit;
        let ghost limit = self.step_limit as nat;
        let ghost shim = self.shim();
        let ghost names = self.names();
        let ghost mut hosted = false;
        while self.call_stack.len() > 0
            invariant
                self.step_limit == old(self).step_limit,
                limit == old(self).step_limit as nat,
                shim == old(self).shim(),
                shim == self.shim(),
                names == old(self).names(),
                names == self.names(),
                old(self).host_kept(self),
                !hosted ==> self.import == old(self).import && self.wasi == old(self).wasi,
                hosted ==> run_spec(old(self)@, limit) is Host,
                match run_spec(old(self)@, limit) {
                    Outcome::Finished(last) => same_but_memory(old(self).store@, last.store),
                    Outcome::Trapped(store, _) => same_but_memory(old(self).store@, store),
                    Outcome::Host(_, _) => true,
                },
                !hosted ==> run_spec(old(self)@, limit) == run_spec(self@, fuel as nat),
                forall|last: State, r: Result<(), Error>| #[trigger]
                    runs_to::<F, W>(self@, fuel as nat, names, shim, last, r) ==> runs_to::<F, W>(
                        old(self)@,
                        limit,
                        names,
                        shim,
                        last,
                        r,
                    ),
            decreases fuel,
        {
            let ghost before = self@;
            let ghost fuel_before = fuel as nat;
            if fuel == 0 {
                assert(runs_to::<F, W>(
                    before,
                    fuel_before,
                    names,
                    shim,
                    self@,
                    Err(Error::Trap(Trap::StepLimit)),
                ));
                return Err(Error::Trap(Trap::StepLimit));
            }
            fuel -= 1;
            match step(&mut self.store, &mut self.stack, &mut self.call_stack) {
                Err(trap) => {
                    assert(runs_to::<F, W>(before, fuel_before, names, shim, self@, Err(Error::Trap(trap))));
                    return Err(Error::Trap(trap));
                },
                Ok(Signal::Next) => {
                    assert forall|last: State, r: Result<(), Error>| #[trigger]
                        runs_to::<F, W>(self@, fuel as nat, names, shim, last, r) implies runs_to::<F, W>(
                        old(self)@,
                        limit,
                        names,
                        shim,
                        last,
                        r,
                    ) by {
                        lemma_runs_after_step::<F, W>(
                            before,
                            fuel_before,
                            names,
                            shim,
                            self@,
                            last,
                            r,
                        );
                    }
                },
                Ok(Signal::Done) => {},
                Ok(Signal::Host(func)) => {
                    proof {
                        hosted = true;
                    }
                    let ghost called = self@;
                    let ghost imported = func@;
                    let ghost n = func@.func_type.params.len();
                    let ghost to_shim = self.goes_to_wasi(func);
                    let ghost found = find_spec(self.import.entries@, func.module@, func.func@);
                    proof {
                        lemma_find_is_linked(self.import.entries@, func.module@, func.func@, 0);
                    }
                    assert(step_spec(before) == Step::Host(called, imported));
                    let ghost taken = arguments_spec(called.stack, n);
                    match self.invoke_external(func) {
                        Err(e) => {
                            proof {
                                if taken is Ok {
                                    if to_shim {
                                        lemma_runs_fail_in_shim::<F, W>(
                                            before,
                                            fuel_before,
                                            names,
                                            shim,
                                            called,
                                            imported,
                                            e->Wasi_0,
                                            self@,
                                        );
                                    } else if found is Ok {
                                        lemma_runs_fail_in_host::<F, W>(
                                            before,
                                            fuel_before,
                                            names,
                                            shim,
                                            called,
                                            imported,
                                            e->Host_0,
                                            self@,
                                        );
                                    }
                                }
                            }
                            assert(runs_to::<F, W>(before, fuel_before, names, shim, self@, Err(e)));
                            return Err(e);
                        },
                        Ok(answer) => {
                            let ghost answered_store = self.store@;
                            accept_answer(&mut self.stack, answer);
                            let ghost rest = taken->Ok_0.0;
                            assert(self@ == (State {
                                store: answered_store,
                                stack: answered(rest, answer),
                                call_stack: called.call_stack,
                            }));
                            assert(resumes(called.call_stack, rest, answer, self@));
                            assert forall|last: State, r: Result<(), Error>| #[trigger]
                                runs_to::<F, W>(
                                    self@,
                                    fuel as nat,
                                    names,
                                    shim,
                                    last,
                                    r,
                                ) implies runs_to::<F, W>(old(self)@, limit, names, shim, last, r) by {
                                if to_shim {
                                    lemma_runs_after_shim::<F, W>(
                                        before,
                                        fuel_before,
                                        names,
                                        shim,
                                        called,
                                        imported,
                                        answered_store,
                                        answer,
                                        last,
                                        r,
                                    );
                                } else {
                                    lemma_runs_after_answer::<F, W>(
                                        before,
                                        fuel_before,
                                        names,
                                        shim,
                                        called,
                                        imported,
                                        answer,
                                        self@,
                                        last,
                                        r,
                                    );
                                }
                            }
                        },
                    }
                },
            }
        }
        assert(runs_to::<F, W>(self@, fuel as nat, names, shim, self@, Ok(())));
        Ok(())
    }

    /// Calls a function that the module defines, with its arguments on the
    /// stack. When the call fails, the operand stack and the call stack are
    /// emptied.
    pub fn invoke_internal(&mut self, func: InternalFuncInst) -> (r: Result<Option<Value>, Error>)
        ensures
            invokes::<F, W>(
                old(self)@,
                func@,
                old(self).step_limit as nat,
                old(self).names(),
                old(self).shim(),
                final(self).store@,
                r,
            ),
            match invoke_internal_spec(old(self)@, func@, old(self).step_limit as nat) {
                CallOutcome::Returned(store, value) => r == Ok::<Option<Value>, Error>(value)
                    && final(self).store@ == store,
                CallOutcome::Failed(store, e) => r == Err::<Option<Value>, Error>(e)
                    && final(self).store@ == store,
                CallOutcome::Host => true,
            },
            !(invoke_internal_spec(old(self)@, func@, old(self).step_limit as nat) is Host)
                ==> same_but_memory(old(self).store@, final(self).store@) && final(self).import
                == old(self).import && final(self).wasi == old(self).wasi,
            old(self).host_kept(final(self)),
            r is Err ==> final(self).stack@.len() == 0 && final(self).call_stack@.len() == 0,
            r is Ok ==> final(self).call_stack@.len() == 0,
            final(self).step_limit == old(self).step_limit,
    {
        let arity = func.func_type.results.len();

        if let Err(trap) = self.push_frame(&func) {
            self.cleanup();
            return Err(Error::Trap(trap));
        }
        let ghost start = self@;
        let run = self.execute();
        let ghost last = self@;
        if let Err(e) = run {
            self.cleanup();
            assert(gives_back(func@, last, run, self.store@, Err(e)));
            return Err(e);
        }
        if arity > 0 {
            let value = match self.stack.pop() {
                Some(value) => value,
                None => {
                    self.cleanup();
                    assert(gives_back(
                        func@,
                        last,
                        run,
                        self.store@,
                        Err(Error::Trap(Trap::NoReturnValue)),
                    ));
                    return Err(Error::Trap(Trap::NoReturnValue));
                },
            };
            assert(gives_back(func@, last, run, self.store@, Ok(Some(value))));
            return Ok(Some(value));
        }
        assert(gives_back(func@, last, run, self.store@, Ok(None)));
        Ok(None)
    }

    /// Calls the function that the module exports under `name`: puts the
    /// arguments onto the operand stack, the first one lowest, and runs the
    /// function to its end. The operand stack and the call stack are empty
    /// afterwards, however the call ends. As long as the call does not come
    /// to an imported function, its result is that of [`call_spec`].
    pub fn call(&mut self, name: &str, args: Vec<Value>) -> (r: Result<Option<Value>, Error>)
        ensures
            final(self).stack@.len() == 0,
            final(self).call_stack@.len() == 0,
            final(self).step_limit == old(self).step_limit,
            calls::<F, W>(
                old(self)@,
                name@,
                args@,
                old(self).step_limit as nat,
                old(self).names(),
                old(self).shim(),
                final(self).store@,
                r,
            ),
            match call_spec(old(self)@, name@, args@, old(self).step_limit as nat) {
                CallOutcome::Returned(store, value) => r == Ok::<Option<Value>, Error>(value)
                    && final(self).store@ == store,
                CallOutcome::Failed(store, e) => r == Err::<Option<Value>, Error>(e)
                    && final(self).store@ == store,
                CallOutcome::Host => true,
            },
            !(call_spec(old(self)@, name@, args@, old(self).step_limit as nat) is Host)
                ==> same_but_memory(old(self).store@, final(self).store@) && final(self).import
                == old(self).import && final(self).wasi == old(self).wasi,
            old(self).host_kept(final(self)),
    {
        let idx = match self.store.module.exports.get(name) {
            None => {
                self.cleanup();
                return Err(Error::ExportNotFound);
            },
            Some(export) => match export.desc {
                ExportDesc::Func(idx) => idx as usize,
            },
        };
        if idx >= self.store.funcs.len() {
            self.cleanup();
            return Err(Error::Trap(Trap::FunctionNotFound));
        }
        let mut args = args;
        self.stack.append(&mut args);
        let result = match &self.store.funcs[idx] {
            FuncInst::Internal(func) => {
                let func = copy_internal(func);
                self.invoke_internal(func)
            },
            FuncInst::External(func) => {
                let func = copy_external(func);
                proof {
                    lemma_find_is_linked(self.import.entries@, func.module@, func.func@, 0);
                }
                self.invoke_external(func)
            },
        };
        self.cleanup();
        result
    }
}

} // verus!
