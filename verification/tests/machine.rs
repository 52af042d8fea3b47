use tinywasm::binary::instruction::Instruction;
use tinywasm::binary::module::Module;
use tinywasm::binary::section::Function;
use tinywasm::binary::types::{
    Block, BlockType, Export, ExportDesc, FuncType, FunctionLocal, Limits, Memory, ValueType,
};
use tinywasm::execution::error::{Error, Trap};
use tinywasm::execution::import::{Import, ImportFunc};
use tinywasm::execution::runtime::{
    get_end_address, new_frame, stack_unwind, step, Frame, Runtime, Signal,
};
use tinywasm::execution::store::{ExternalValue, Func, InternalFuncInst, Store};
use tinywasm::execution::value::{Label, LabelKind, Value};
use tinywasm::execution::wasi::FileSink;

struct HostFn(Box<dyn FnMut(&mut Store, Vec<Value>) -> Result<Option<Value>, String>>);

impl ImportFunc for HostFn {
    fn call(&mut self, store: &mut Store, args: Vec<Value>) -> Result<Option<Value>, String> {
        (self.0)(store, args)
    }
}

struct NoFile;

impl FileSink for NoFile {
    fn write(&mut self, _bytes: &[u8]) -> Result<usize, String> {
        Err("closed".to_string())
    }
}

type Rt = Runtime<HostFn, NoFile>;

fn if_block() -> Instruction {
    Instruction::If(Block {
        block_type: BlockType::Empty,
    })
}

/// A runtime over a module with one memory page and one exported function
/// `f` whose type and body are given.
fn runtime_of(params: Vec<ValueType>, results: Vec<ValueType>, code: Vec<Instruction>) -> Rt {
    let module = Module {
        type_section: Some(vec![FuncType { params, results }]),
        function_section: Some(vec![0]),
        memory_section: Some(vec![Memory {
            limits: Limits { min: 1, max: None },
        }]),
        export_section: Some(vec![Export {
            name: "f".into(),
            desc: ExportDesc::Func(0),
        }]),
        code_section: Some(vec![Function {
            locals: vec![],
            code,
        }]),
        ..Default::default()
    };
    over(Store::new(module).unwrap())
}

fn over(store: Store) -> Rt {
    Runtime {
        store,
        stack: vec![],
        call_stack: vec![],
        import: Import::new(),
        wasi: None,
        step_limit: u64::MAX,
    }
}

fn i32s(values: &[i32]) -> Vec<Value> {
    values.iter().map(|v| Value::I32(*v)).collect()
}

#[test]
fn empty_module_exports_nothing() {
    let wasm = wat::parse_str("(module)").unwrap();
    let module = Module::new(&wasm).unwrap();
    assert_eq!(module, Module::default());
    let mut runtime = Rt::instantiate(&wasm).unwrap();
    assert!(runtime.store.funcs.is_empty());
    assert!(runtime.store.memories.is_empty());
    let result = runtime.call("anything", vec![]);
    assert_eq!(result, Err(Error::ExportNotFound));
    assert!(result.unwrap_err().is_link_error());
}

#[test]
fn memory_without_code_exports_nothing() {
    let wasm = wat::parse_str("(module (memory 1))").unwrap();
    let mut runtime = Rt::instantiate(&wasm).unwrap();
    assert_eq!(runtime.store.memories.len(), 1);
    for name in ["_start", "memory", ""] {
        let result = runtime.call(name, vec![Value::I32(1)]);
        assert_eq!(result, Err(Error::ExportNotFound));
        assert!(result.unwrap_err().is_link_error());
    }
}

#[test]
fn instantiate_reports_decoding_and_instantiation() {
    let result = Rt::instantiate(&[0, 1, 2, 3]);
    assert!(matches!(result, Err(Error::Decode(_))));
    let wasm = wat::parse_str("(module (memory 1) (data (i32.const 65535) \"ab\"))").unwrap();
    let result = Rt::instantiate(&wasm);
    assert!(matches!(result, Err(Error::Instantiation(_))));
    assert!(!Error::Trap(Trap::StackUnderflow).is_link_error());
}

#[test]
fn stacks_are_empty_after_a_call_that_succeeds() {
    let mut runtime = runtime_of(
        vec![ValueType::I32, ValueType::I32],
        vec![ValueType::I32],
        vec![
            Instruction::LocalGet(0),
            Instruction::LocalGet(1),
            Instruction::I32Add,
            Instruction::End,
        ],
    );
    assert_eq!(runtime.call("f", i32s(&[2, 3])), Ok(Some(Value::I32(5))));
    assert!(runtime.stack.is_empty());
    assert!(runtime.call_stack.is_empty());
    // More arguments than parameters: the ones too many are dropped with the call.
    assert_eq!(
        runtime.call("f", i32s(&[9, 2, 3])),
        Ok(Some(Value::I32(5)))
    );
    assert!(runtime.stack.is_empty());
    assert!(runtime.call_stack.is_empty());
}

#[test]
fn stacks_are_empty_after_a_call_that_fails() {
    let mut runtime = runtime_of(
        vec![],
        vec![ValueType::I32],
        vec![
            Instruction::I32Const(1),
            Instruction::I32Const(2),
            Instruction::I32Const(3),
            Instruction::LocalGet(7),
            Instruction::End,
        ],
    );
    assert_eq!(
        runtime.call("f", vec![]),
        Err(Error::Trap(Trap::LocalOutOfRange))
    );
    assert!(runtime.stack.is_empty());
    assert!(runtime.call_stack.is_empty());
    assert_eq!(runtime.call("g", i32s(&[1])), Err(Error::ExportNotFound));
    assert!(runtime.stack.is_empty());
    assert!(runtime.call_stack.is_empty());
}

#[test]
fn addition_and_subtraction_wrap_around() {
    let mut add = runtime_of(
        vec![ValueType::I32, ValueType::I32],
        vec![ValueType::I32],
        vec![
            Instruction::LocalGet(0),
            Instruction::LocalGet(1),
            Instruction::I32Add,
            Instruction::End,
        ],
    );
    assert_eq!(
        add.call("f", i32s(&[i32::MAX, 1])),
        Ok(Some(Value::I32(i32::MIN)))
    );
    assert_eq!(
        add.call("f", i32s(&[i32::MIN, -1])),
        Ok(Some(Value::I32(i32::MAX)))
    );
    assert_eq!(add.call("f", i32s(&[-5, 3])), Ok(Some(Value::I32(-2))));
    let mut sub = runtime_of(
        vec![ValueType::I32, ValueType::I32],
        vec![ValueType::I32],
        vec![
            Instruction::LocalGet(0),
            Instruction::LocalGet(1),
            Instruction::I32Sub,
            Instruction::End,
        ],
    );
    assert_eq!(
        sub.call("f", i32s(&[i32::MIN, 1])),
        Ok(Some(Value::I32(i32::MAX)))
    );
    assert_eq!(
        sub.call("f", i32s(&[i32::MAX, -1])),
        Ok(Some(Value::I32(i32::MIN)))
    );
    assert_eq!(sub.call("f", i32s(&[3, 10])), Ok(Some(Value::I32(-7))));
}

#[test]
fn less_than_is_signed() {
    let mut lts = runtime_of(
        vec![ValueType::I32, ValueType::I32],
        vec![ValueType::I32],
        vec![
            Instruction::LocalGet(0),
            Instruction::LocalGet(1),
            Instruction::I32Lts,
            Instruction::End,
        ],
    );
    assert_eq!(lts.call("f", i32s(&[-1, 0])), Ok(Some(Value::I32(1))));
    assert_eq!(lts.call("f", i32s(&[0, -1])), Ok(Some(Value::I32(0))));
    assert_eq!(lts.call("f", i32s(&[4, 4])), Ok(Some(Value::I32(0))));
    assert_eq!(
        lts.call("f", i32s(&[i32::MIN, i32::MAX])),
        Ok(Some(Value::I32(1)))
    );
}

fn storing(offset: u32) -> Rt {
    runtime_of(
        vec![ValueType::I32, ValueType::I32],
        vec![],
        vec![
            Instruction::LocalGet(0),
            Instruction::LocalGet(1),
            Instruction::I32Store { align: 2, offset },
            Instruction::End,
        ],
    )
}

#[test]
fn store_writes_four_bytes_and_no_others() {
    let mut runtime = storing(3);
    assert_eq!(runtime.call("f", i32s(&[5, 0x11223344])), Ok(None));
    let memory = &runtime.store.memories[0].data;
    assert_eq!(memory.len(), 65536);
    assert_eq!(&memory[8..12], &[0x44, 0x33, 0x22, 0x11]);
    assert!(memory[..8].iter().all(|b| *b == 0));
    assert!(memory[12..].iter().all(|b| *b == 0));
    assert_eq!(runtime.call("f", i32s(&[6, -2])), Ok(None));
    let memory = &runtime.store.memories[0].data;
    assert_eq!(&memory[8..13], &[0x44, 0xfe, 0xff, 0xff, 0xff]);
    assert!(memory[13..].iter().all(|b| *b == 0));
}

#[test]
fn store_at_the_end_of_memory() {
    let mut runtime = storing(4);
    assert_eq!(runtime.call("f", i32s(&[65528, -1])), Ok(None));
    assert_eq!(
        &runtime.store.memories[0].data[65532..],
        &[0xff, 0xff, 0xff, 0xff]
    );
    assert_eq!(
        runtime.call("f", i32s(&[65529, 7])),
        Err(Error::Trap(Trap::MemoryOutOfBounds))
    );
    assert_eq!(
        &runtime.store.memories[0].data[65528..],
        &[0, 0, 0, 0, 0xff, 0xff, 0xff, 0xff]
    );
}

#[test]
fn store_address_is_the_sum_of_address_and_offset() {
    let mut runtime = storing(10);
    assert_eq!(runtime.call("f", i32s(&[-10, 1])), Ok(None));
    assert_eq!(&runtime.store.memories[0].data[..5], &[1, 0, 0, 0, 0]);
    assert_eq!(
        runtime.call("f", i32s(&[-11, 1])),
        Err(Error::Trap(Trap::MemoryOutOfBounds))
    );
    let mut far = storing(u32::MAX);
    assert_eq!(
        far.call("f", i32s(&[i32::MAX, 1])),
        Err(Error::Trap(Trap::MemoryOutOfBounds))
    );
}

#[test]
fn store_without_memory() {
    let module = Module {
        type_section: Some(vec![FuncType::default()]),
        function_section: Some(vec![0]),
        export_section: Some(vec![Export {
            name: "f".into(),
            desc: ExportDesc::Func(0),
        }]),
        code_section: Some(vec![Function {
            locals: vec![],
            code: vec![
                Instruction::I32Const(0),
                Instruction::I32Const(1),
                Instruction::I32Store {
                    align: 2,
                    offset: 0,
                },
                Instruction::End,
            ],
        }]),
        ..Default::default()
    };
    let mut runtime = over(Store::new(module).unwrap());
    assert_eq!(
        runtime.call("f", vec![]),
        Err(Error::Trap(Trap::MemoryNotFound))
    );
}

#[test]
fn traps() {
    let cases: Vec<(Vec<Instruction>, Vec<Value>, Trap)> = vec![
        (
            vec![Instruction::I32Add, Instruction::End],
            vec![],
            Trap::StackUnderflow,
        ),
        (
            vec![Instruction::LocalSet(0), Instruction::End],
            vec![],
            Trap::StackUnderflow,
        ),
        (
            vec![if_block(), Instruction::End],
            vec![],
            Trap::StackUnderflow,
        ),
        (
            vec![
                Instruction::I32Const(1),
                Instruction::I32Store {
                    align: 2,
                    offset: 0,
                },
                Instruction::End,
            ],
            vec![],
            Trap::StackUnderflow,
        ),
        (vec![Instruction::End], vec![], Trap::NoReturnValue),
        (
            vec![Instruction::LocalGet(0), Instruction::End],
            vec![],
            Trap::LocalOutOfRange,
        ),
        (
            vec![
                Instruction::I32Const(1),
                Instruction::LocalSet(0),
                Instruction::End,
            ],
            vec![],
            Trap::LocalOutOfRange,
        ),
        (
            vec![
                Instruction::I32Const(0),
                if_block(),
                Instruction::I32Const(1),
            ],
            vec![],
            Trap::MissingEnd,
        ),
        (
            vec![Instruction::Call(9), Instruction::End],
            vec![],
            Trap::FunctionNotFound,
        ),
    ];
    for (code, args, trap) in cases {
        let mut runtime = runtime_of(vec![], vec![ValueType::I32], code);
        assert_eq!(runtime.call("f", args), Err(Error::Trap(trap)));
        assert!(runtime.stack.is_empty());
        assert!(runtime.call_stack.is_empty());
    }
}

#[test]
fn operands_of_different_types_trap() {
    let mut runtime = runtime_of(
        vec![ValueType::I32, ValueType::I32],
        vec![ValueType::I32],
        vec![
            Instruction::LocalGet(0),
            Instruction::LocalGet(1),
            Instruction::I32Add,
            Instruction::End,
        ],
    );
    assert_eq!(
        runtime.call("f", vec![Value::I64(1), Value::I32(2)]),
        Err(Error::Trap(Trap::TypeMismatch))
    );
    let mut store = storing(0);
    assert_eq!(
        store.call("f", vec![Value::I64(1), Value::I32(2)]),
        Err(Error::Trap(Trap::TypeMismatch))
    );
    assert_eq!(
        store.call("f", vec![Value::I32(1), Value::I64(2)]),
        Err(Error::Trap(Trap::TypeMismatch))
    );
}

#[test]
fn too_few_arguments_trap() {
    let mut runtime = runtime_of(
        vec![ValueType::I32, ValueType::I32],
        vec![ValueType::I32],
        vec![Instruction::LocalGet(0), Instruction::End],
    );
    assert_eq!(
        runtime.call("f", i32s(&[1])),
        Err(Error::Trap(Trap::StackUnderflow))
    );
}

#[test]
fn an_export_of_no_function_traps() {
    let module = Module {
        export_section: Some(vec![Export {
            name: "f".into(),
            desc: ExportDesc::Func(3),
        }]),
        ..Default::default()
    };
    let mut runtime = over(Store::new(module).unwrap());
    assert_eq!(
        runtime.call("f", vec![]),
        Err(Error::Trap(Trap::FunctionNotFound))
    );
}

#[test]
fn endless_recursion_runs_into_the_step_limit() {
    let wasm = wat::parse_str("(module (func $f (export \"f\") (call $f)))").unwrap();
    let mut runtime = Rt::instantiate(&wasm).unwrap();
    assert_eq!(runtime.step_limit, u64::MAX);
    runtime.step_limit = 1000;
    assert_eq!(runtime.call("f", vec![]), Err(Error::Trap(Trap::StepLimit)));
    assert!(runtime.stack.is_empty());
    assert!(runtime.call_stack.is_empty());
    assert_eq!(runtime.step_limit, 1000);
}

#[test]
fn the_step_limit_counts_instructions() {
    let code = vec![
        Instruction::I32Const(1),
        Instruction::I32Const(2),
        Instruction::I32Add,
        Instruction::End,
    ];
    let mut runtime = runtime_of(vec![], vec![ValueType::I32], code);
    runtime.step_limit = 4;
    assert_eq!(runtime.call("f", vec![]), Ok(Some(Value::I32(3))));
    runtime.step_limit = 3;
    assert_eq!(runtime.call("f", vec![]), Err(Error::Trap(Trap::StepLimit)));
}

#[test]
fn a_body_without_end_returns_at_its_last_instruction() {
    let mut runtime = runtime_of(vec![], vec![ValueType::I32], vec![Instruction::I32Const(8)]);
    assert_eq!(runtime.call("f", vec![]), Ok(Some(Value::I32(8))));
}

#[test]
fn locals_start_at_zero() {
    let module = Module {
        type_section: Some(vec![FuncType {
            params: vec![ValueType::I32],
            results: vec![ValueType::I32],
        }]),
        function_section: Some(vec![0]),
        export_section: Some(vec![Export {
            name: "f".into(),
            desc: ExportDesc::Func(0),
        }]),
        code_section: Some(vec![Function {
            locals: vec![
                FunctionLocal {
                    type_count: 2,
                    value_type: ValueType::I32,
                },
                FunctionLocal {
                    type_count: 1,
                    value_type: ValueType::I64,
                },
            ],
            code: vec![
                Instruction::LocalGet(2),
                Instruction::LocalGet(0),
                Instruction::I32Add,
                Instruction::End,
            ],
        }]),
        ..Default::default()
    };
    let store = Store::new(module).unwrap();
    let mut stack = i32s(&[5, 6]);
    let frame = match &store.funcs[0] {
        tinywasm::execution::store::FuncInst::Internal(func) => {
            new_frame(&mut stack, func).unwrap()
        }
        _ => unreachable!(),
    };
    assert_eq!(stack, i32s(&[5]));
    assert_eq!(frame.pc, None);
    assert_eq!(frame.sp, 1);
    assert_eq!(frame.arity, 1);
    assert!(frame.labels.is_empty());
    assert_eq!(
        frame.locals,
        vec![
            Value::I32(6),
            Value::I32(0),
            Value::I32(0),
            Value::I64(0)
        ]
    );
    let mut runtime = over(store);
    assert_eq!(runtime.call("f", i32s(&[6])), Ok(Some(Value::I32(6))));
}

#[test]
fn push_frame_takes_the_arguments() {
    let mut runtime = runtime_of(vec![], vec![], vec![Instruction::End]);
    let func = InternalFuncInst {
        func_type: FuncType {
            params: vec![ValueType::I32, ValueType::I32],
            results: vec![ValueType::I32, ValueType::I32],
        },
        code: Func {
            locals: vec![ValueType::I64],
            body: vec![Instruction::Return],
        },
    };
    runtime.stack = i32s(&[1, 2, 3]);
    assert_eq!(runtime.push_frame(&func), Ok(()));
    assert_eq!(runtime.stack, i32s(&[1]));
    assert_eq!(runtime.call_stack.len(), 1);
    assert_eq!(runtime.call_stack[0].sp, 1);
    assert_eq!(runtime.call_stack[0].arity, 2);
    assert_eq!(runtime.call_stack[0].insts, vec![Instruction::Return]);
    assert_eq!(
        runtime.call_stack[0].locals,
        vec![Value::I32(2), Value::I32(3), Value::I64(0)]
    );
    runtime.stack = i32s(&[1]);
    assert_eq!(runtime.push_frame(&func), Err(Trap::StackUnderflow));
    assert_eq!(runtime.stack, i32s(&[1]));
    assert_eq!(runtime.call_stack.len(), 1);
    runtime.cleanup();
    assert!(runtime.stack.is_empty());
    assert!(runtime.call_stack.is_empty());
}

#[test]
fn end_address_of_nested_blocks() {
    let insts = vec![
        if_block(),               // 0
        Instruction::I32Const(1), // 1
        if_block(),               // 2
        if_block(),               // 3
        Instruction::End,         // 4
        Instruction::End,         // 5
        Instruction::Return,      // 6
        Instruction::End,         // 7
        Instruction::End,         // 8
    ];
    assert_eq!(get_end_address(&insts, 0), Ok(7));
    assert_eq!(get_end_address(&insts, 2), Ok(5));
    assert_eq!(get_end_address(&insts, 3), Ok(4));
    assert_eq!(get_end_address(&insts, 4), Ok(5));
    assert_eq!(get_end_address(&insts, 7), Ok(8));
    assert_eq!(get_end_address(&insts, 8), Err(Trap::MissingEnd));
    assert_eq!(get_end_address(&insts, 9), Err(Trap::MissingEnd));
    assert_eq!(get_end_address(&insts, usize::MAX), Err(Trap::MissingEnd));
    let open = vec![if_block(), if_block(), Instruction::End];
    assert_eq!(get_end_address(&open, 0), Err(Trap::MissingEnd));
    assert_eq!(get_end_address(&open, 1), Ok(2));
    assert_eq!(get_end_address(&[], 0), Err(Trap::MissingEnd));
}

#[test]
fn unwinding_the_stack() {
    let mut stack = i32s(&[1, 2, 3, 4]);
    assert_eq!(stack_unwind(&mut stack, 1, 1), Ok(()));
    assert_eq!(stack, i32s(&[1, 4]));
    let mut stack = i32s(&[1, 2, 3, 4]);
    assert_eq!(stack_unwind(&mut stack, 1, 0), Ok(()));
    assert_eq!(stack, i32s(&[1]));
    let mut stack = i32s(&[1, 2, 3, 4]);
    assert_eq!(stack_unwind(&mut stack, 4, 0), Ok(()));
    assert_eq!(stack, i32s(&[1, 2, 3, 4]));
    let mut stack = i32s(&[1, 2, 3, 4]);
    assert_eq!(stack_unwind(&mut stack, 3, 2), Ok(()));
    assert_eq!(stack, i32s(&[1, 2, 3, 4]));
    let mut stack = i32s(&[1, 2, 3, 4]);
    assert_eq!(stack_unwind(&mut stack, 0, 7), Ok(()));
    assert_eq!(stack, i32s(&[4]));
    let mut stack = i32s(&[1, 2]);
    assert_eq!(stack_unwind(&mut stack, 3, 0), Err(Trap::StackUnderflow));
    assert_eq!(stack, i32s(&[1, 2]));
    assert_eq!(stack_unwind(&mut stack, 2, 1), Err(Trap::StackUnderflow));
    assert_eq!(stack, i32s(&[1, 2]));
    let mut stack: Vec<Value> = vec![];
    assert_eq!(stack_unwind(&mut stack, 0, 1), Err(Trap::NoReturnValue));
    let mut stack: Vec<Value> = vec![];
    assert_eq!(stack_unwind(&mut stack, 0, 0), Ok(()));
    assert!(stack.is_empty());
}

fn frame_of(insts: Vec<Instruction>, locals: Vec<Value>, arity: usize) -> Frame {
    Frame {
        pc: None,
        sp: 0,
        insts,
        arity,
        labels: vec![],
        locals,
    }
}

#[test]
fn if_with_zero_condition_skips_to_its_end() {
    let insts = vec![
        Instruction::LocalGet(0), // 0
        if_block(),               // 1
        Instruction::I32Const(7), // 2
        Instruction::Return,      // 3
        Instruction::End,         // 4
        Instruction::I32Const(9), // 5
        Instruction::End,         // 6
    ];
    let mut store = Store::default();
    let mut stack: Vec<Value> = vec![];
    let mut call_stack = vec![frame_of(insts, i32s(&[0]), 1)];

    assert!(matches!(
        step(&mut store, &mut stack, &mut call_stack),
        Ok(Signal::Next)
    ));
    assert_eq!(stack, i32s(&[0]));
    assert_eq!(call_stack[0].pc, Some(0));

    // The `if` takes the condition and moves to the matching `end`.
    assert!(matches!(
        step(&mut store, &mut stack, &mut call_stack),
        Ok(Signal::Next)
    ));
    assert!(stack.is_empty());
    assert_eq!(call_stack[0].pc, Some(4));
    assert_eq!(call_stack[0].labels.len(), 1);
    let Label {
        kind,
        pc,
        sp,
        arity,
    } = call_stack[0].labels[0];
    assert_eq!(kind, LabelKind::If);
    assert_eq!((pc, sp, arity), (4, 0, 0));

    // The instruction after the `end` is the next one.
    assert!(matches!(
        step(&mut store, &mut stack, &mut call_stack),
        Ok(Signal::Next)
    ));
    assert_eq!(call_stack[0].pc, Some(5));
    assert_eq!(stack, i32s(&[9]));

    // The next `end` takes the label off and restores its program counter
    // and its stack depth.
    assert!(matches!(
        step(&mut store, &mut stack, &mut call_stack),
        Ok(Signal::Next)
    ));
    assert_eq!(call_stack[0].pc, Some(4));
    assert!(call_stack[0].labels.is_empty());
    assert!(stack.is_empty());
}

#[test]
fn if_with_zero_condition_in_a_call() {
    let code = vec![
        Instruction::LocalGet(0),
        if_block(),
        Instruction::I32Const(7),
        Instruction::Return,
        Instruction::End,
        Instruction::I32Const(9),
        Instruction::End,
    ];
    let mut runtime = runtime_of(vec![ValueType::I32], vec![ValueType::I32], code);
    assert_eq!(runtime.call("f", i32s(&[0])), Ok(Some(Value::I32(9))));
    assert_eq!(runtime.call("f", i32s(&[1])), Ok(Some(Value::I32(7))));
    assert_eq!(runtime.call("f", i32s(&[-3])), Ok(Some(Value::I32(7))));
    assert_eq!(
        runtime.call("f", vec![Value::I64(0)]),
        Ok(Some(Value::I32(7)))
    );
}

#[test]
fn if_with_other_condition_enters_the_block() {
    let insts = vec![
        if_block(),               // 0
        Instruction::I32Const(7), // 1
        Instruction::End,         // 2
    ];
    let mut store = Store::default();
    let mut stack = i32s(&[5, 1]);
    let mut call_stack = vec![frame_of(insts, vec![], 0)];
    assert!(matches!(
        step(&mut store, &mut stack, &mut call_stack),
        Ok(Signal::Next)
    ));
    assert_eq!(stack, i32s(&[5]));
    assert_eq!(call_stack[0].pc, Some(0));
    assert_eq!(call_stack[0].labels.len(), 1);
    assert_eq!(call_stack[0].labels[0].pc, 0);
    assert_eq!(call_stack[0].labels[0].sp, 1);
    assert!(matches!(
        step(&mut store, &mut stack, &mut call_stack),
        Ok(Signal::Next)
    ));
    assert_eq!(stack, i32s(&[5, 7]));
    assert_eq!(call_stack[0].pc, Some(1));
}

#[test]
fn return_in_nested_ifs_leaves_the_frame_with_its_labels() {
    let insts = vec![
        if_block(),                // 0
        Instruction::I32Const(1),  // 1
        if_block(),                // 2
        Instruction::I32Const(42), // 3
        Instruction::Return,       // 4
        Instruction::End,          // 5
        Instruction::End,          // 6
        Instruction::End,          // 7
    ];
    let mut store = Store::default();
    let mut stack = i32s(&[100, 1]);
    let caller = Frame {
        pc: Some(3),
        sp: 0,
        insts: vec![Instruction::End],
        arity: 0,
        labels: vec![],
        locals: vec![],
    };
    let mut callee = frame_of(insts, vec![], 1);
    callee.sp = 1;
    let mut call_stack = vec![caller, callee];
    for _ in 0..4 {
        assert!(matches!(
            step(&mut store, &mut stack, &mut call_stack),
            Ok(Signal::Next)
        ));
    }
    assert_eq!(call_stack.len(), 2);
    assert_eq!(call_stack[1].labels.len(), 2);
    assert_eq!(call_stack[1].pc, Some(3));
    assert_eq!(stack, i32s(&[100, 42]));
    stack.push(Value::I32(43));
    stack.push(Value::I32(44));
    assert!(matches!(
        step(&mut store, &mut stack, &mut call_stack),
        Ok(Signal::Next)
    ));
    assert_eq!(call_stack.len(), 1);
    assert_eq!(call_stack[0].pc, Some(3));
    assert!(call_stack[0].labels.is_empty());
    assert_eq!(stack, i32s(&[100, 44]));
}

#[test]
fn return_in_nested_ifs_in_a_call() {
    let wasm = wat::parse_str(
        "(module
          (func (export \"f\") (param i32 i32) (result i32)
            (if (local.get 0)
              (then
                (if (local.get 1)
                  (then (return (i32.const 11))))
                (return (i32.const 10))))
            (i32.const 0)))",
    )
    .unwrap();
    let mut runtime = Rt::instantiate(&wasm).unwrap();
    assert_eq!(runtime.call("f", i32s(&[1, 1])), Ok(Some(Value::I32(11))));
    assert!(runtime.stack.is_empty());
    assert!(runtime.call_stack.is_empty());
    assert_eq!(runtime.call("f", i32s(&[0, 1])), Ok(Some(Value::I32(0))));
}

#[test]
fn step_without_a_frame_is_done() {
    let mut store = Store::default();
    let mut stack = i32s(&[1]);
    let mut call_stack: Vec<Frame> = vec![];
    assert!(matches!(
        step(&mut store, &mut stack, &mut call_stack),
        Ok(Signal::Done)
    ));
    assert_eq!(stack, i32s(&[1]));
}

#[test]
fn a_call_of_an_import_is_handed_to_the_driver() {
    let wasm = wat::parse_str(
        "(module
          (func $add (import \"env\" \"add\") (param i32) (result i32))
          (func (export \"call_add\") (param i32) (result i32)
            (local.get 0)
            (call $add)))",
    )
    .unwrap();
    let mut runtime = Rt::instantiate(&wasm).unwrap();
    runtime.stack = i32s(&[3]);
    runtime.call_stack = vec![frame_of(
        vec![
            Instruction::LocalGet(0),
            Instruction::Call(0),
            Instruction::End,
        ],
        i32s(&[3]),
        1,
    )];
    runtime.stack.clear();
    assert!(matches!(
        step(
            &mut runtime.store,
            &mut runtime.stack,
            &mut runtime.call_stack
        ),
        Ok(Signal::Next)
    ));
    match step(
        &mut runtime.store,
        &mut runtime.stack,
        &mut runtime.call_stack,
    ) {
        Ok(Signal::Host(func)) => {
            assert_eq!(func.module, "env");
            assert_eq!(func.func, "add");
            assert_eq!(func.func_type.params, vec![ValueType::I32]);
        }
        _ => panic!("no call of the import"),
    }
    assert_eq!(runtime.stack, i32s(&[3]));
    assert_eq!(runtime.call_stack[0].pc, Some(1));
}

#[test]
fn imports_are_found_by_both_names() {
    let wasm = wat::parse_str(
        "(module
          (func $a (import \"env\" \"a\") (param i32) (result i32))
          (func $b (import \"other\" \"a\") (param i32) (result i32))
          (func (export \"env_a\") (param i32) (result i32)
            (call $a (local.get 0)))
          (func (export \"other_a\") (param i32) (result i32)
            (call $b (local.get 0)))
          (export \"direct\" (func $a)))",
    )
    .unwrap();
    let mut runtime = Rt::instantiate(&wasm).unwrap();
    assert_eq!(
        runtime.call("env_a", i32s(&[1])),
        Err(Error::ImportModuleNotFound)
    );
    assert!(Error::ImportModuleNotFound.is_link_error());
    runtime
        .add_import("env", "b", HostFn(Box::new(|_, _| Ok(None))))
        .unwrap();
    assert_eq!(
        runtime.call("env_a", i32s(&[1])),
        Err(Error::ImportFunctionNotFound)
    );
    assert!(Error::ImportFunctionNotFound.is_link_error());
    runtime
        .add_import(
            "env",
            "a",
            HostFn(Box::new(|_, args| Ok(Some(args[0] + Value::I32(1))))),
        )
        .unwrap();
    runtime
        .add_import(
            "other",
            "a",
            HostFn(Box::new(|_, args| Ok(Some(args[0] + Value::I32(100))))),
        )
        .unwrap();
    assert_eq!(runtime.call("env_a", i32s(&[1])), Ok(Some(Value::I32(2))));
    assert_eq!(
        runtime.call("other_a", i32s(&[1])),
        Ok(Some(Value::I32(101)))
    );
    assert_eq!(runtime.call("direct", i32s(&[5])), Ok(Some(Value::I32(6))));
    assert_eq!(
        runtime.call("direct", vec![]),
        Err(Error::Trap(Trap::StackUnderflow))
    );
    assert_eq!(runtime.import.entries.len(), 3);
    // A second registration under the same names takes the place of the first.
    runtime
        .add_import("env", "a", HostFn(Box::new(|_, _| Ok(Some(Value::I32(0))))))
        .unwrap();
    assert_eq!(runtime.import.entries.len(), 3);
    assert_eq!(runtime.call("env_a", i32s(&[1])), Ok(Some(Value::I32(0))));
    assert_eq!(runtime.import.find("env", "a"), Ok(1));
    assert_eq!(runtime.import.find("env", "b"), Ok(0));
    assert_eq!(
        runtime.import.find("env", "c"),
        Err(Error::ImportFunctionNotFound)
    );
    assert_eq!(
        runtime.import.find("a", "env"),
        Err(Error::ImportModuleNotFound)
    );
}

#[test]
fn an_error_of_the_host_ends_the_call() {
    let wasm = wat::parse_str(
        "(module
          (func $fail (import \"env\" \"fail\"))
          (func (export \"f\") (result i32)
            (i32.const 1)
            (call $fail)))",
    )
    .unwrap();
    let mut runtime = Rt::instantiate(&wasm).unwrap();
    runtime
        .add_import(
            "env",
            "fail",
            HostFn(Box::new(|_, _| Err("boom".to_string()))),
        )
        .unwrap();
    assert_eq!(
        runtime.call("f", vec![]),
        Err(Error::Host("boom".to_string()))
    );
    assert!(runtime.stack.is_empty());
    assert!(runtime.call_stack.is_empty());
    assert!(!Error::Host("boom".to_string()).is_link_error());
}

#[test]
fn the_host_sees_and_changes_the_memory() {
    let wasm = wat::parse_str(
        "(module
          (func $poke (import \"env\" \"poke\") (param i32))
          (memory 1)
          (func (export \"f\") (param i32) (result i32)
            (i32.store (i32.const 4) (local.get 0))
            (call $poke (i32.const 4))
            (i32.const 3)))",
    )
    .unwrap();
    let mut runtime = Rt::instantiate(&wasm).unwrap();
    runtime
        .add_import(
            "env",
            "poke",
            HostFn(Box::new(|store, args| {
                assert_eq!(args, vec![Value::I32(4)]);
                let memory = &mut store.memories[0].data;
                assert_eq!(&memory[4..8], &[0x78, 0x56, 0x34, 0x12]);
                memory[0] = 0xee;
                Ok(None)
            })),
        )
        .unwrap();
    assert_eq!(
        runtime.call("f", i32s(&[0x12345678])),
        Ok(Some(Value::I32(3)))
    );
    assert_eq!(runtime.store.memories[0].data[0], 0xee);
}

#[test]
fn fib_of_larger_arguments() {
    let wasm = wat::parse_str(
        "(module
          (func $fib (export \"fib\") (param $n i32) (result i32)
            (if
              (i32.lt_s (local.get $n) (i32.const 2))
              (then (return (i32.const 1))))
            (return
              (i32.add
                (call $fib (i32.sub (local.get $n) (i32.const 2)))
                (call $fib (i32.sub (local.get $n) (i32.const 1)))))))",
    )
    .unwrap();
    let mut runtime = Rt::instantiate(&wasm).unwrap();
    assert_eq!(runtime.call("fib", i32s(&[0])), Ok(Some(Value::I32(1))));
    assert_eq!(runtime.call("fib", i32s(&[-4])), Ok(Some(Value::I32(1))));
    assert_eq!(
        runtime.call("fib", i32s(&[20])),
        Ok(Some(Value::I32(10946)))
    );
}

#[test]
fn defaults() {
    let frame = Frame::default();
    assert_eq!(frame.pc, Some(0));
    assert_eq!(frame.sp, 0);
    assert_eq!(frame.arity, 0);
    assert!(frame.insts.is_empty());
    assert!(frame.labels.is_empty());
    assert!(frame.locals.is_empty());
    let mut runtime = Rt::default();
    assert!(runtime.store.funcs.is_empty());
    assert!(runtime.store.memories.is_empty());
    assert!(runtime.stack.is_empty());
    assert!(runtime.call_stack.is_empty());
    assert!(runtime.import.entries.is_empty());
    assert!(runtime.wasi.is_none());
    assert_eq!(runtime.call("f", vec![]), Err(Error::ExportNotFound));
    assert_eq!(ExternalValue::Func(1), ExternalValue::Func(1));
    assert_ne!(ExternalValue::Func(1), ExternalValue::Memory(1));
}

#[test]
fn a_trap_leaves_the_memory_as_it_is() {
    let mut runtime = runtime_of(
        vec![],
        vec![],
        vec![
            Instruction::I32Const(8),
            Instruction::I32Const(0x01020304),
            Instruction::I32Store {
                align: 2,
                offset: 0,
            },
            Instruction::I32Const(65533),
            Instruction::I32Const(-1),
            Instruction::I32Store {
                align: 2,
                offset: 0,
            },
            Instruction::End,
        ],
    );
    assert_eq!(
        runtime.call("f", vec![]),
        Err(Error::Trap(Trap::MemoryOutOfBounds))
    );
    let memory = &runtime.store.memories[0].data;
    assert_eq!(memory.len(), 65536);
    assert_eq!(&memory[8..12], &[4, 3, 2, 1]);
    assert!(memory[..8].iter().all(|b| *b == 0));
    assert!(memory[12..].iter().all(|b| *b == 0));
    assert_eq!(runtime.store.funcs.len(), 1);
    assert_eq!(runtime.store.module.exports.len(), 1);
}

#[test]
fn a_call_keeps_functions_and_exports() {
    let mut runtime = storing(0);
    assert_eq!(runtime.call("f", i32s(&[0, 7])), Ok(None));
    assert_eq!(runtime.store.funcs.len(), 1);
    assert_eq!(runtime.store.module.exports.len(), 1);
    assert!(runtime.store.module.exports.get("f").is_some());
    assert_eq!(runtime.store.memories.len(), 1);
    assert_eq!(runtime.store.memories[0].data.len(), 65536);
    assert_eq!(runtime.store.memories[0].max, None);
}
