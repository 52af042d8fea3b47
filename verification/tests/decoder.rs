use tinywasm::binary::instruction::Instruction;
use tinywasm::binary::module::Module;
use tinywasm::binary::section::Function;
use tinywasm::binary::types::{
    Data, Export, ExportDesc, FuncType, FunctionLocal, Import, ImportDesc, Limits, Memory,
    ValueType,
};

const FUNC_LOCAL: &str = "(module
  (func
    (local i32)
    (local i64 i64)
  )
)";

const FUNC_ADD: &str = "(module
  (func (export \"add\") (param i32 i32) (result i32)
    (local.get 0)
    (local.get 1)
    i32.add
  )
)";

const FUNC_CALL: &str = "(module
  (func (export \"call_doubler\") (param i32) (result i32)
    (local.get 0)
    (call $double)
  )
  (func $double (param i32) (result i32)
    (local.get 0)
    (local.get 0)
    i32.add
  )
)";

const IMPORT: &str = "(module
  (func $add (import \"env\" \"add\") (param i32) (result i32))
  (func (export \"call_add\") (param i32) (result i32)
    (local.get 0)
    (call $add)
  )
)";

#[test]
fn decode_simplest_module() {
    let wasm = wat::parse_str("(module)").unwrap();
    let module = Module::new(&wasm).unwrap();
    assert_eq!(module, Module::default());
}

#[test]
fn decode_simplest_func() {
    let wasm = wat::parse_str("(module (func))").unwrap();
    let module = Module::new(&wasm).unwrap();
    assert_eq!(
        module,
        Module {
            type_section: Some(vec![FuncType::default()]),
            function_section: Some(vec![0]),
            code_section: Some(vec![Function {
                locals: vec![],
                code: vec![Instruction::End],
            }]),
            ..Default::default()
        }
    );
}

#[test]
fn decode_func_param() {
    let wasm = wat::parse_str("(module (func (param i32 i64)))").unwrap();
    let module = Module::new(&wasm).unwrap();
    assert_eq!(
        module,
        Module {
            type_section: Some(vec![FuncType {
                params: vec![ValueType::I32, ValueType::I64],
                results: vec![],
            }]),
            function_section: Some(vec![0]),
            code_section: Some(vec![Function {
                locals: vec![],
                code: vec![Instruction::End],
            }]),
            ..Default::default()
        }
    );
}

#[test]
fn decode_func_local() {
    let wasm = wat::parse_str(FUNC_LOCAL).unwrap();
    let module = Module::new(&wasm).unwrap();
    assert_eq!(
        module,
        Module {
            type_section: Some(vec![FuncType::default()]),
            function_section: Some(vec![0]),
            code_section: Some(vec![Function {
                locals: vec![
                    FunctionLocal {
                        type_count: 1,
                        value_type: ValueType::I32,
                    },
                    FunctionLocal {
                        type_count: 2,
                        value_type: ValueType::I64,
                    },
                ],
                code: vec![Instruction::End],
            }]),
            ..Default::default()
        }
    );
}

#[test]
fn decode_func_add() {
    let wasm = wat::parse_str(FUNC_ADD).unwrap();
    let module = Module::new(&wasm).unwrap();
    assert_eq!(
        module,
        Module {
            type_section: Some(vec![FuncType {
                params: vec![ValueType::I32, ValueType::I32],
                results: vec![ValueType::I32],
            }]),
            function_section: Some(vec![0]),
            code_section: Some(vec![Function {
                locals: vec![],
                code: vec![
                    Instruction::LocalGet(0),
                    Instruction::LocalGet(1),
                    Instruction::I32Add,
                    Instruction::End
                ],
            }]),
            export_section: Some(vec![Export {
                name: "add".into(),
                desc: ExportDesc::Func(0),
            }]),
            ..Default::default()
        }
    );
}

#[test]
fn decode_func_call() {
    let wasm = wat::parse_str(FUNC_CALL).unwrap();
    let module = Module::new(&wasm).unwrap();
    assert_eq!(
        module,
        Module {
            type_section: Some(vec![FuncType {
                params: vec![ValueType::I32],
                results: vec![ValueType::I32],
            },]),
            function_section: Some(vec![0, 0]),
            code_section: Some(vec![
                Function {
                    locals: vec![],
                    code: vec![
                        Instruction::LocalGet(0),
                        Instruction::Call(1),
                        Instruction::End
                    ],
                },
                Function {
                    locals: vec![],
                    code: vec![
                        Instruction::LocalGet(0),
                        Instruction::LocalGet(0),
                        Instruction::I32Add,
                        Instruction::End
                    ],
                }
            ]),
            export_section: Some(vec![Export {
                name: "call_doubler".into(),
                desc: ExportDesc::Func(0),
            }]),
            ..Default::default()
        }
    );
}

#[test]
fn decode_import() {
    let wasm = wat::parse_str(IMPORT).unwrap();
    let module = Module::new(&wasm).unwrap();
    assert_eq!(
        module,
        Module {
            type_section: Some(vec![FuncType {
                params: vec![ValueType::I32],
                results: vec![ValueType::I32],
            }]),
            import_section: Some(vec![Import {
                module: "env".into(),
                field: "add".into(),
                desc: ImportDesc::Func(0),
            }]),
            export_section: Some(vec![Export {
                name: "call_add".into(),
                desc: ExportDesc::Func(1),
            }]),
            function_section: Some(vec![0]),
            code_section: Some(vec![Function {
                locals: vec![],
                code: vec![
                    Instruction::LocalGet(0),
                    Instruction::Call(0),
                    Instruction::End
                ],
            }]),
            ..Default::default()
        }
    );
}

#[test]
fn decode_memory() {
    let tests = vec![
        ("(module (memory 1))", Limits { min: 1, max: None }),
        (
            "(module (memory 1 2))",
            Limits {
                min: 1,
                max: Some(2),
            },
        ),
    ];
    for (wasm, limits) in tests {
        let module = Module::new(&wat::parse_str(wasm).unwrap()).unwrap();
        assert_eq!(
            module,
            Module {
                memory_section: Some(vec![Memory { limits }]),
                ..Default::default()
            }
        );
    }
}

#[test]
fn decode_data() {
    let tests = vec![
        (
            "(module (memory 1) (data (i32.const 0) \"hello\"))",
            vec![Data {
                memory_index: 0,
                offset: 0,
                init: "hello".as_bytes().to_vec(),
            }],
        ),
        (
            "(module (memory 1) (data (i32.const 0) \"hello\") (data (i32.const 5) \"world\"))",
            vec![
                Data {
                    memory_index: 0,
                    offset: 0,
                    init: b"hello".into(),
                },
                Data {
                    memory_index: 0,
                    offset: 5,
                    init: b"world".into(),
                },
            ],
        ),
    ];

    for (wasm, data) in tests {
        let module = Module::new(&wat::parse_str(wasm).unwrap()).unwrap();
        assert_eq!(
            module,
            Module {
                memory_section: Some(vec![Memory {
                    limits: Limits { min: 1, max: None }
                }]),
                data_section: Some(data),
                ..Default::default()
            }
        );
    }
}

#[test]
fn decode_i32_store() {
    let wasm = wat::parse_str("(module (func (i32.store offset=4 (i32.const 4))))").unwrap();
    let module = Module::new(&wasm).unwrap();
    assert_eq!(
        module,
        Module {
            type_section: Some(vec![FuncType {
                params: vec![],
                results: vec![],
            }]),
            function_section: Some(vec![0]),
            code_section: Some(vec![Function {
                locals: vec![],
                code: vec![
                    Instruction::I32Const(4),
                    Instruction::I32Store {
                        align: 2,
                        offset: 4
                    },
                    Instruction::End
                ],
            }]),
            ..Default::default()
        }
    );
}
