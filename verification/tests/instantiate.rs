use tinywasm::binary::instruction::Instruction;
use tinywasm::binary::module::Module;
use tinywasm::binary::section::Function;
use tinywasm::binary::types::{
    Data, Export, ExportDesc, FuncType, FunctionLocal, Import, ImportDesc, Limits, Memory,
    ValueType,
};
use tinywasm::execution::error::InstantiationError;
use tinywasm::execution::store::{
    allocate_memory, copy_vec, flatten_locals, resolve_func_type, FuncInst, ModuleInst, Store,
    PAGE_SIZE,
};

fn failure(module: Module) -> InstantiationError {
    match Store::new(module) {
        Ok(_) => panic!("instantiated"),
        Err(e) => e,
    }
}

fn unary() -> FuncType {
    FuncType {
        params: vec![ValueType::I32],
        results: vec![ValueType::I32],
    }
}

fn body(code: Vec<Instruction>) -> Function {
    Function {
        locals: vec![],
        code,
    }
}

#[test]
fn imported_functions_come_first() {
    let module = Module {
        type_section: Some(vec![FuncType::default(), unary()]),
        import_section: Some(vec![
            Import {
                module: "env".into(),
                field: "a".into(),
                desc: ImportDesc::Func(1),
            },
            Import {
                module: "env".into(),
                field: "b".into(),
                desc: ImportDesc::Func(0),
            },
        ]),
        function_section: Some(vec![1, 0]),
        code_section: Some(vec![
            Function {
                locals: vec![
                    FunctionLocal {
                        type_count: 2,
                        value_type: ValueType::I64,
                    },
                    FunctionLocal {
                        type_count: 0,
                        value_type: ValueType::I32,
                    },
                    FunctionLocal {
                        type_count: 1,
                        value_type: ValueType::I32,
                    },
                ],
                code: vec![Instruction::LocalGet(0), Instruction::End],
            },
            body(vec![Instruction::End]),
        ]),
        ..Default::default()
    };
    let store = Store::new(module).unwrap();
    assert_eq!(store.funcs.len(), 4);
    match &store.funcs[0] {
        FuncInst::External(func) => {
            assert_eq!(func.module, "env");
            assert_eq!(func.func, "a");
            assert_eq!(func.func_type, unary());
        }
        _ => panic!("not an import"),
    }
    match &store.funcs[1] {
        FuncInst::External(func) => {
            assert_eq!(func.func, "b");
            assert_eq!(func.func_type, FuncType::default());
        }
        _ => panic!("not an import"),
    }
    match &store.funcs[2] {
        FuncInst::Internal(func) => {
            assert_eq!(func.func_type, unary());
            assert_eq!(
                func.code.locals,
                vec![ValueType::I64, ValueType::I64, ValueType::I32]
            );
            assert_eq!(
                func.code.body,
                vec![Instruction::LocalGet(0), Instruction::End]
            );
        }
        _ => panic!("not a defined function"),
    }
    match &store.funcs[3] {
        FuncInst::Internal(func) => {
            assert_eq!(func.func_type, FuncType::default());
            assert!(func.code.locals.is_empty());
        }
        _ => panic!("not a defined function"),
    }
    assert!(store.memories.is_empty());
    assert_eq!(store.module.exports.len(), 0);
}

#[test]
fn bodies_and_types_are_paired_as_far_as_both_go() {
    let module = Module {
        type_section: Some(vec![FuncType::default()]),
        function_section: Some(vec![0]),
        code_section: Some(vec![
            body(vec![Instruction::End]),
            body(vec![Instruction::Return]),
        ]),
        ..Default::default()
    };
    assert_eq!(Store::new(module).unwrap().funcs.len(), 1);
    let module = Module {
        type_section: Some(vec![FuncType::default()]),
        function_section: Some(vec![0, 0, 7]),
        code_section: Some(vec![body(vec![Instruction::End])]),
        ..Default::default()
    };
    assert_eq!(Store::new(module).unwrap().funcs.len(), 1);
    let module = Module {
        code_section: Some(vec![body(vec![Instruction::End])]),
        ..Default::default()
    };
    assert_eq!(Store::new(module).unwrap().funcs.len(), 0);
}

#[test]
fn missing_type_section() {
    let module = Module {
        import_section: Some(vec![Import {
            module: "env".into(),
            field: "a".into(),
            desc: ImportDesc::Func(0),
        }]),
        ..Default::default()
    };
    assert_eq!(failure(module), InstantiationError::MissingTypeSection);
    let module = Module {
        function_section: Some(vec![0]),
        code_section: Some(vec![body(vec![Instruction::End])]),
        ..Default::default()
    };
    assert_eq!(failure(module), InstantiationError::MissingTypeSection);
}

#[test]
fn unknown_func_type() {
    let module = Module {
        type_section: Some(vec![unary()]),
        import_section: Some(vec![Import {
            module: "env".into(),
            field: "a".into(),
            desc: ImportDesc::Func(1),
        }]),
        ..Default::default()
    };
    assert_eq!(failure(module), InstantiationError::UnknownFuncType(1));
    let module = Module {
        type_section: Some(vec![unary()]),
        function_section: Some(vec![0, 5]),
        code_section: Some(vec![
            body(vec![Instruction::End]),
            body(vec![Instruction::End]),
        ]),
        ..Default::default()
    };
    assert_eq!(failure(module), InstantiationError::UnknownFuncType(5));
}

#[test]
fn a_later_export_takes_the_place_of_an_earlier_one() {
    let module = Module {
        export_section: Some(vec![
            Export {
                name: "f".into(),
                desc: ExportDesc::Func(0),
            },
            Export {
                name: "g".into(),
                desc: ExportDesc::Func(1),
            },
            Export {
                name: "f".into(),
                desc: ExportDesc::Func(2),
            },
        ]),
        ..Default::default()
    };
    let store = Store::new(module).unwrap();
    assert_eq!(store.module.exports.len(), 2);
    let f = store.module.exports.get("f").unwrap();
    assert_eq!(f.name, "f");
    assert_eq!(f.desc, ExportDesc::Func(2));
    let g = store.module.exports.get("g").unwrap();
    assert_eq!(g.name, "g");
    assert_eq!(g.desc, ExportDesc::Func(1));
    assert!(store.module.exports.get("h").is_none());
    assert_eq!(ModuleInst::default().exports.len(), 0);
}

fn memory(min: u32, max: Option<u32>) -> Memory {
    Memory {
        limits: Limits { min, max },
    }
}

fn segment(memory_index: u32, offset: i32, init: &[u8]) -> Data {
    Data {
        memory_index,
        offset,
        init: init.to_vec(),
    }
}

#[test]
fn memory_is_as_large_as_its_least_size_and_zero() {
    assert_eq!(PAGE_SIZE, 65536);
    let module = Module {
        memory_section: Some(vec![memory(2, Some(5))]),
        ..Default::default()
    };
    let store = Store::new(module).unwrap();
    assert_eq!(store.memories.len(), 1);
    assert_eq!(store.memories[0].data.len(), 131072);
    assert!(store.memories[0].data.iter().all(|b| *b == 0));
    assert_eq!(store.memories[0].max, Some(5));
    let empty = allocate_memory(&memory(0, None)).unwrap();
    assert!(empty.data.is_empty());
    assert_eq!(empty.max, None);
}

#[test]
fn data_segments_are_copied_in_order() {
    let module = Module {
        memory_section: Some(vec![memory(1, None)]),
        data_section: Some(vec![
            segment(0, 3, b"abcdef"),
            segment(0, 5, b"XY"),
            segment(0, 65536, b""),
            segment(0, 65534, &[1, 2]),
        ]),
        ..Default::default()
    };
    let store = Store::new(module).unwrap();
    let data = &store.memories[0].data;
    assert_eq!(data.len(), 65536);
    assert_eq!(&data[..10], &[0, 0, 0, b'a', b'b', b'X', b'Y', b'e', b'f', 0]);
    assert_eq!(&data[65533..], &[0, 1, 2]);
}

#[test]
fn data_that_does_not_fit() {
    let module = Module {
        memory_section: Some(vec![memory(1, None)]),
        data_section: Some(vec![segment(0, 65534, &[1, 2, 3])]),
        ..Default::default()
    };
    assert_eq!(failure(module), InstantiationError::DataTooLarge);
    let module = Module {
        memory_section: Some(vec![memory(1, None)]),
        data_section: Some(vec![segment(0, -1, &[])]),
        ..Default::default()
    };
    assert_eq!(failure(module), InstantiationError::DataTooLarge);
    let module = Module {
        memory_section: Some(vec![memory(0, None)]),
        data_section: Some(vec![segment(0, 0, &[7])]),
        ..Default::default()
    };
    assert_eq!(failure(module), InstantiationError::DataTooLarge);
}

#[test]
fn data_for_a_memory_that_is_not_there() {
    let module = Module {
        data_section: Some(vec![segment(0, 0, &[])]),
        ..Default::default()
    };
    assert_eq!(failure(module), InstantiationError::MemoryNotFound(0));
    let module = Module {
        memory_section: Some(vec![memory(1, None)]),
        data_section: Some(vec![segment(0, 0, &[1]), segment(1, 0, &[1])]),
        ..Default::default()
    };
    assert_eq!(failure(module), InstantiationError::MemoryNotFound(1));
}

#[test]
fn functions_are_resolved_before_memories() {
    let module = Module {
        import_section: Some(vec![Import {
            module: "env".into(),
            field: "a".into(),
            desc: ImportDesc::Func(0),
        }]),
        data_section: Some(vec![segment(0, 0, &[])]),
        ..Default::default()
    };
    assert_eq!(failure(module), InstantiationError::MissingTypeSection);
}

#[test]
fn helpers_of_instantiation() {
    let locals = vec![
        FunctionLocal {
            type_count: 1,
            value_type: ValueType::I32,
        },
        FunctionLocal {
            type_count: 3,
            value_type: ValueType::I64,
        },
    ];
    assert_eq!(
        flatten_locals(&locals),
        vec![
            ValueType::I32,
            ValueType::I64,
            ValueType::I64,
            ValueType::I64
        ]
    );
    assert_eq!(flatten_locals(&vec![]), vec![]);
    assert_eq!(copy_vec(&vec![3u8, 1, 2]), vec![3, 1, 2]);
    assert_eq!(unary().copy(), unary());
    let types = Some(vec![FuncType::default(), unary()]);
    assert_eq!(resolve_func_type(&types, 1), Ok(unary()));
    assert_eq!(
        resolve_func_type(&types, 2),
        Err(InstantiationError::UnknownFuncType(2))
    );
    assert_eq!(
        resolve_func_type(&None, 0),
        Err(InstantiationError::MissingTypeSection)
    );
    let store = Store::default();
    assert!(store.funcs.is_empty());
    assert!(store.memories.is_empty());
}
