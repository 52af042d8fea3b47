use tinywasm::binary::error::{DecodeError, DecodeErrorKind};
use tinywasm::binary::instruction::Instruction;
use tinywasm::binary::leb128::{decode_i32, decode_u32};
use tinywasm::binary::module::{
    decode_expr, decode_instructions, decode_limits, decode_name, decode_section_header, Module,
};
use tinywasm::binary::opcode::Opcode;
use tinywasm::binary::reader::{byte, le_u32, take};
use tinywasm::binary::section::{Function, SectionCode};
use tinywasm::binary::types::{
    Block, BlockType, Data, Export, ExportDesc, FuncType, FunctionLocal, Import, ImportDesc,
    Limits, Memory, ValueType,
};

const HEADER: [u8; 8] = [0x00, 0x61, 0x73, 0x6d, 0x01, 0x00, 0x00, 0x00];

fn image(sections: &[&[u8]]) -> Vec<u8> {
    let mut bytes = HEADER.to_vec();
    for section in sections {
        bytes.extend_from_slice(section);
    }
    bytes
}

fn failure(bytes: &[u8]) -> DecodeError {
    match Module::new(bytes) {
        Ok(module) => panic!("decoded {:?}", module),
        Err(e) => e,
    }
}

fn leb_u(mut n: u32) -> Vec<u8> {
    let mut out = vec![];
    loop {
        let b = (n & 0x7f) as u8;
        n >>= 7;
        if n == 0 {
            out.push(b);
            return out;
        }
        out.push(b | 0x80);
    }
}

fn leb_s(mut n: i32) -> Vec<u8> {
    let mut out = vec![];
    loop {
        let b = (n & 0x7f) as u8;
        n >>= 7;
        if (n == 0 && b & 0x40 == 0) || (n == -1 && b & 0x40 != 0) {
            out.push(b);
            return out;
        }
        out.push(b | 0x80);
    }
}

fn name(text: &str) -> Vec<u8> {
    let mut out = leb_u(text.len() as u32);
    out.extend_from_slice(text.as_bytes());
    out
}

fn value_type(t: &ValueType) -> u8 {
    match t {
        ValueType::I32 => 0x7f,
        ValueType::I64 => 0x7e,
    }
}

fn instruction(inst: &Instruction) -> Vec<u8> {
    match inst {
        Instruction::If(_) => vec![0x04, 0x40],
        Instruction::End => vec![0x0b],
        Instruction::Return => vec![0x0f],
        Instruction::LocalGet(i) => [vec![0x20], leb_u(*i)].concat(),
        Instruction::LocalSet(i) => [vec![0x21], leb_u(*i)].concat(),
        Instruction::I32Store { align, offset } => {
            [vec![0x36], leb_u(*align), leb_u(*offset)].concat()
        }
        Instruction::I32Const(v) => [vec![0x41], leb_s(*v)].concat(),
        Instruction::I32Lts => vec![0x48],
        Instruction::I32Add => vec![0x6a],
        Instruction::I32Sub => vec![0x6b],
        Instruction::Call(i) => [vec![0x10], leb_u(*i)].concat(),
    }
}

fn section_body(module: &Module, id: u8) -> Option<Vec<u8>> {
    match id {
        1 => module.type_section.as_ref().map(|types| {
            let mut out = leb_u(types.len() as u32);
            for t in types {
                out.push(0x60);
                out.extend(leb_u(t.params.len() as u32));
                out.extend(t.params.iter().map(value_type));
                out.extend(leb_u(t.results.len() as u32));
                out.extend(t.results.iter().map(value_type));
            }
            out
        }),
        2 => module.import_section.as_ref().map(|imports| {
            let mut out = leb_u(imports.len() as u32);
            for i in imports {
                out.extend(name(&i.module));
                out.extend(name(&i.field));
                out.push(0x00);
                let ImportDesc::Func(idx) = i.desc;
                out.extend(leb_u(idx));
            }
            out
        }),
        3 => module.function_section.as_ref().map(|indices| {
            let mut out = leb_u(indices.len() as u32);
            for i in indices {
                out.extend(leb_u(*i));
            }
            out
        }),
        5 => module.memory_section.as_ref().map(|memories| {
            let mut out = leb_u(1);
            match memories[0].limits.max {
                None => {
                    out.push(0);
                    out.extend(leb_u(memories[0].limits.min));
                }
                Some(max) => {
                    out.push(1);
                    out.extend(leb_u(memories[0].limits.min));
                    out.extend(leb_u(max));
                }
            }
            out
        }),
        7 => module.export_section.as_ref().map(|exports| {
            let mut out = leb_u(exports.len() as u32);
            for e in exports {
                out.extend(name(&e.name));
                out.push(0x00);
                let ExportDesc::Func(idx) = e.desc;
                out.extend(leb_u(idx));
            }
            out
        }),
        10 => module.code_section.as_ref().map(|functions| {
            let mut out = leb_u(functions.len() as u32);
            for f in functions {
                let mut body = leb_u(f.locals.len() as u32);
                for l in &f.locals {
                    body.extend(leb_u(l.type_count));
                    body.push(value_type(&l.value_type));
                }
                for i in &f.code {
                    body.extend(instruction(i));
                }
                out.extend(leb_u(body.len() as u32));
                out.extend(body);
            }
            out
        }),
        11 => module.data_section.as_ref().map(|segments| {
            let mut out = leb_u(segments.len() as u32);
            for d in segments {
                out.extend(leb_u(d.memory_index));
                out.push(0x41);
                out.extend(leb_s(d.offset));
                out.push(0x0b);
                out.extend(leb_u(d.init.len() as u32));
                out.extend(d.init.iter());
            }
            out
        }),
        _ => None,
    }
}

fn encode(module: &Module, order: &[u8]) -> Vec<u8> {
    let mut out = vec![0x00, 0x61, 0x73, 0x6d];
    out.extend(module.version.to_le_bytes());
    for id in order {
        if let Some(body) = section_body(module, *id) {
            out.push(*id);
            out.extend(leb_u(body.len() as u32));
            out.extend(body);
        }
    }
    out
}

fn sample() -> Module {
    Module {
        type_section: Some(vec![
            FuncType {
                params: vec![ValueType::I32, ValueType::I64],
                results: vec![ValueType::I32],
            },
            FuncType::default(),
        ]),
        import_section: Some(vec![Import {
            module: "env".into(),
            field: "na\u{ef}ve".into(),
            desc: ImportDesc::Func(1),
        }]),
        function_section: Some(vec![0, 1]),
        memory_section: Some(vec![Memory {
            limits: Limits {
                min: 2,
                max: Some(300),
            },
        }]),
        export_section: Some(vec![Export {
            name: "run".into(),
            desc: ExportDesc::Func(1),
        }]),
        code_section: Some(vec![
            Function {
                locals: vec![FunctionLocal {
                    type_count: 200,
                    value_type: ValueType::I64,
                }],
                code: vec![
                    Instruction::LocalGet(0),
                    Instruction::If(Block {
                        block_type: BlockType::Empty,
                    }),
                    Instruction::I32Const(-1),
                    Instruction::Return,
                    Instruction::End,
                    Instruction::I32Const(i32::MIN),
                    Instruction::I32Const(i32::MAX),
                    Instruction::I32Lts,
                    Instruction::LocalSet(129),
                    Instruction::I32Const(64),
                    Instruction::I32Const(-65),
                    Instruction::I32Sub,
                    Instruction::I32Store {
                        align: 2,
                        offset: 70000,
                    },
                    Instruction::Call(1),
                    Instruction::I32Add,
                    Instruction::End,
                ],
            },
            Function {
                locals: vec![],
                code: vec![Instruction::End],
            },
        ]),
        data_section: Some(vec![
            Data {
                memory_index: 0,
                offset: 1000,
                init: (0..=255).collect(),
            },
            Data {
                memory_index: 0,
                offset: -1,
                init: vec![],
            },
        ]),
        ..Default::default()
    }
}

#[test]
fn decoding_gives_back_what_was_encoded() {
    let module = sample();
    let bytes = encode(&module, &[1, 2, 3, 5, 7, 10, 11]);
    assert_eq!(Module::new(&bytes).unwrap(), module);
}

#[test]
fn the_order_of_sections_does_not_matter() {
    let module = sample();
    let one = encode(&module, &[1, 2, 3, 5, 7, 10, 11]);
    let other = encode(&module, &[11, 10, 7, 5, 3, 2, 1]);
    assert_ne!(one, other);
    let decoded = Module::new(&other).unwrap();
    assert_eq!(decoded, module);
    assert_eq!(encode(&decoded, &[1, 2, 3, 5, 7, 10, 11]), one);
}

#[test]
fn a_module_with_few_sections_round_trips() {
    let module = Module {
        version: 7,
        memory_section: Some(vec![Memory {
            limits: Limits { min: 0, max: None },
        }]),
        ..Default::default()
    };
    let bytes = encode(&module, &[5]);
    assert_eq!(bytes, [0x00, 0x61, 0x73, 0x6d, 7, 0, 0, 0, 5, 3, 1, 0, 0]);
    assert_eq!(Module::new(&bytes).unwrap(), module);
}

#[test]
fn header_alone_is_the_empty_module() {
    let module = Module::new(&HEADER).unwrap();
    assert_eq!(module, Module::default());
    assert_eq!(module.magic, "\0asm");
    assert_eq!(module.version, 1);
    assert_eq!(Module::decode(&HEADER).unwrap(), Module::default());
}

#[test]
fn version_is_read_and_not_checked() {
    let module = Module::new(&[0x00, 0x61, 0x73, 0x6d, 0x02, 0x01, 0x00, 0x00]).unwrap();
    assert_eq!(module.version, 258);
}

#[test]
fn bad_magic() {
    let e = failure(&[0x00, 0x61, 0x73, 0x6e, 0x01, 0x00, 0x00, 0x00]);
    assert_eq!(
        e,
        DecodeError {
            kind: DecodeErrorKind::BadMagic,
            remaining: 8
        }
    );
    assert_eq!(failure(&[]).kind, DecodeErrorKind::BadMagic);
    assert_eq!(failure(&[0x00, 0x61, 0x73]).kind, DecodeErrorKind::BadMagic);
}

#[test]
fn truncated_version() {
    let e = failure(&[0x00, 0x61, 0x73, 0x6d, 0x01]);
    assert_eq!(
        e,
        DecodeError {
            kind: DecodeErrorKind::UnexpectedEof,
            remaining: 1
        }
    );
}

#[test]
fn truncated_section() {
    let e = failure(&image(&[&[1, 5, 0, 0]]));
    assert_eq!(
        e,
        DecodeError {
            kind: DecodeErrorKind::UnexpectedEof,
            remaining: 2
        }
    );
    let e = failure(&image(&[&[1]]));
    assert_eq!(
        e,
        DecodeError {
            kind: DecodeErrorKind::UnexpectedEof,
            remaining: 0
        }
    );
}

#[test]
fn section_size_of_six_bytes_is_too_large() {
    let e = failure(&image(&[&[1, 0x80, 0x80, 0x80, 0x80, 0x80, 0x00]]));
    assert_eq!(
        e,
        DecodeError {
            kind: DecodeErrorKind::IntegerTooLarge,
            remaining: 6
        }
    );
}

#[test]
fn unknown_section() {
    let e = failure(&image(&[&[12, 0]]));
    assert_eq!(
        e,
        DecodeError {
            kind: DecodeErrorKind::UnknownSection(12),
            remaining: 2
        }
    );
}

#[test]
fn sections_that_are_not_read_are_skipped() {
    let table = [4, 2, 1, 2];
    let custom = [0, 3, 1, b'x', 9];
    let global = [6, 0];
    let start = [8, 1, 0];
    let element = [9, 1, 0];
    let memory = [5, 3, 1, 0, 1];
    let module =
        Module::new(&image(&[&table, &custom, &global, &memory, &start, &element])).unwrap();
    assert_eq!(
        module,
        Module {
            memory_section: Some(vec![Memory {
                limits: Limits { min: 1, max: None }
            }]),
            ..Default::default()
        }
    );
}

#[test]
fn a_later_section_takes_the_place_of_an_earlier_one() {
    let module = Module::new(&image(&[&[5, 3, 1, 0, 1], &[5, 3, 1, 0, 2]])).unwrap();
    assert_eq!(
        module.memory_section,
        Some(vec![Memory {
            limits: Limits { min: 2, max: None }
        }])
    );
}

#[test]
fn invalid_type_tag() {
    let e = failure(&image(&[&[1, 4, 1, 0x61, 0, 0]]));
    assert_eq!(
        e,
        DecodeError {
            kind: DecodeErrorKind::InvalidTypeTag(0x61),
            remaining: 3
        }
    );
}

#[test]
fn a_failure_in_a_section_counts_the_bytes_after_the_section() {
    let e = failure(&image(&[&[1, 4, 1, 0x61, 0, 0], &[0, 1, 0]]));
    assert_eq!(
        e,
        DecodeError {
            kind: DecodeErrorKind::InvalidTypeTag(0x61),
            remaining: 6
        }
    );
    assert_eq!(e.position(17), 11);
    assert_eq!(e.position(3), 0);
}

#[test]
fn invalid_value_type() {
    let e = failure(&image(&[&[1, 5, 1, 0x60, 1, 0x7d, 0]]));
    assert_eq!(
        e,
        DecodeError {
            kind: DecodeErrorKind::InvalidValueType(0x7d),
            remaining: 2
        }
    );
}

#[test]
fn unsupported_import_kind() {
    let e = failure(&image(&[&[2, 7, 1, 1, b'a', 1, b'b', 1, 0]]));
    assert_eq!(
        e,
        DecodeError {
            kind: DecodeErrorKind::UnsupportedImportKind(1),
            remaining: 2
        }
    );
}

#[test]
fn unsupported_export_kind() {
    let e = failure(&image(&[&[7, 5, 1, 1, b'a', 2, 0]]));
    assert_eq!(
        e,
        DecodeError {
            kind: DecodeErrorKind::UnsupportedExportKind(2),
            remaining: 2
        }
    );
}

#[test]
fn invalid_const_expr() {
    let e = failure(&image(&[&[11, 6, 1, 0, 0x23, 0, 0x0b, 0]]));
    assert_eq!(
        e,
        DecodeError {
            kind: DecodeErrorKind::InvalidConstExpr,
            remaining: 4
        }
    );
    let e = failure(&image(&[&[11, 6, 1, 0, 0x41, 0, 0x05, 0]]));
    assert_eq!(
        e,
        DecodeError {
            kind: DecodeErrorKind::InvalidConstExpr,
            remaining: 2
        }
    );
    assert_eq!(decode_expr(&[0x41, 0x7f, 0x0b, 9]), Ok((&[9u8][..], -1)));
}

#[test]
fn unknown_opcode() {
    let e = failure(&image(&[&[10, 5, 1, 3, 0, 0x01, 0x0b]]));
    assert_eq!(
        e,
        DecodeError {
            kind: DecodeErrorKind::UnknownOpcode(0x01),
            remaining: 2
        }
    );
}

#[test]
fn unsupported_block_type() {
    let e = failure(&image(&[&[10, 7, 1, 5, 0, 0x04, 0x7f, 0x0b, 0x0b]]));
    assert_eq!(
        e,
        DecodeError {
            kind: DecodeErrorKind::UnsupportedBlockType(0x7f),
            remaining: 3
        }
    );
}

#[test]
fn every_instruction_is_decoded() {
    let cases: Vec<(Vec<u8>, Instruction)> = vec![
        (
            vec![0x04, 0x40],
            Instruction::If(Block {
                block_type: BlockType::Empty,
            }),
        ),
        (vec![0x0b], Instruction::End),
        (vec![0x0f], Instruction::Return),
        (vec![0x10, 0x80, 0x01], Instruction::Call(128)),
        (vec![0x20, 0x03], Instruction::LocalGet(3)),
        (vec![0x21, 0x7f], Instruction::LocalSet(127)),
        (
            vec![0x36, 0x02, 0xe4, 0x00],
            Instruction::I32Store {
                align: 2,
                offset: 100,
            },
        ),
        (vec![0x41, 0x7e], Instruction::I32Const(-2)),
        (vec![0x48], Instruction::I32Lts),
        (vec![0x6a], Instruction::I32Add),
        (vec![0x6b], Instruction::I32Sub),
    ];
    for (bytes, want) in cases {
        let mut input = bytes.clone();
        input.push(0xaa);
        assert_eq!(decode_instructions(&input), Ok((&[0xaau8][..], want)));
    }
}

#[test]
fn opcodes_and_section_codes_by_byte() {
    assert_eq!(Opcode::from_u8(0x04), Some(Opcode::If));
    assert_eq!(Opcode::from_u8(0x0b), Some(Opcode::End));
    assert_eq!(Opcode::from_u8(0x0f), Some(Opcode::Return));
    assert_eq!(Opcode::from_u8(0x10), Some(Opcode::Call));
    assert_eq!(Opcode::from_u8(0x20), Some(Opcode::LocalGet));
    assert_eq!(Opcode::from_u8(0x21), Some(Opcode::LocalSet));
    assert_eq!(Opcode::from_u8(0x36), Some(Opcode::I32Store));
    assert_eq!(Opcode::from_u8(0x41), Some(Opcode::I32Const));
    assert_eq!(Opcode::from_u8(0x48), Some(Opcode::I32LtS));
    assert_eq!(Opcode::from_u8(0x6a), Some(Opcode::I32Add));
    assert_eq!(Opcode::from_u8(0x6b), Some(Opcode::I32Sub));
    assert_eq!(Opcode::from_u8(0x00), None);
    assert_eq!(SectionCode::from_u8(0), Some(SectionCode::Custom));
    assert_eq!(SectionCode::from_u8(1), Some(SectionCode::Type));
    assert_eq!(SectionCode::from_u8(2), Some(SectionCode::Import));
    assert_eq!(SectionCode::from_u8(3), Some(SectionCode::Function));
    assert_eq!(SectionCode::from_u8(5), Some(SectionCode::Memory));
    assert_eq!(SectionCode::from_u8(7), Some(SectionCode::Export));
    assert_eq!(SectionCode::from_u8(10), Some(SectionCode::Code));
    assert_eq!(SectionCode::from_u8(11), Some(SectionCode::Data));
    assert_eq!(SectionCode::from_u8(4), None);
    assert_eq!(ValueType::from_u8(0x7f), Some(ValueType::I32));
    assert_eq!(ValueType::from_u8(0x7e), Some(ValueType::I64));
    assert_eq!(ValueType::from_u8(0x7d), None);
    assert_eq!(BlockType::Empty.result_count(), 0);
}

#[test]
fn section_header() {
    assert_eq!(
        decode_section_header(&[10, 0x80, 0x01, 7]),
        Ok((&[7u8][..], (Some(SectionCode::Code), 128)))
    );
    assert_eq!(
        decode_section_header(&[4, 0]),
        Ok((&[][..], (None, 0)))
    );
    assert_eq!(
        decode_section_header(&[12, 0]),
        Err(DecodeError {
            kind: DecodeErrorKind::UnknownSection(12),
            remaining: 2
        })
    );
}

#[test]
fn unsigned_leb128() {
    assert_eq!(decode_u32(&[0x00]), Ok((&[][..], 0)));
    assert_eq!(decode_u32(&[0x7f, 0x01]), Ok((&[1u8][..], 127)));
    assert_eq!(decode_u32(&[0xe5, 0x8e, 0x26, 0xff]), Ok((&[0xffu8][..], 624485)));
    assert_eq!(
        decode_u32(&[0xff, 0xff, 0xff, 0xff, 0x0f]),
        Ok((&[][..], u32::MAX))
    );
    assert_eq!(decode_u32(&[0x80, 0x00]), Ok((&[][..], 0)));
}

#[test]
fn unsigned_leb128_that_does_not_fit() {
    assert_eq!(
        decode_u32(&[0xff, 0xff, 0xff, 0xff, 0x1f]),
        Err(DecodeError {
            kind: DecodeErrorKind::IntegerTooLarge,
            remaining: 5
        })
    );
    assert_eq!(
        decode_u32(&[0x80, 0x80, 0x80, 0x80, 0x80, 0x00]),
        Err(DecodeError {
            kind: DecodeErrorKind::IntegerTooLarge,
            remaining: 6
        })
    );
    assert_eq!(
        decode_u32(&[0x80, 0x80]),
        Err(DecodeError {
            kind: DecodeErrorKind::UnexpectedEof,
            remaining: 2
        })
    );
    assert_eq!(
        decode_u32(&[]),
        Err(DecodeError {
            kind: DecodeErrorKind::UnexpectedEof,
            remaining: 0
        })
    );
}

#[test]
fn signed_leb128() {
    assert_eq!(decode_i32(&[0x00]), Ok((&[][..], 0)));
    assert_eq!(decode_i32(&[0x3f]), Ok((&[][..], 63)));
    assert_eq!(decode_i32(&[0x40]), Ok((&[][..], -64)));
    assert_eq!(decode_i32(&[0x7f, 0x00]), Ok((&[0u8][..], -1)));
    assert_eq!(decode_i32(&[0xc0, 0x00]), Ok((&[][..], 64)));
    assert_eq!(decode_i32(&[0xc0, 0xbb, 0x78]), Ok((&[][..], -123456)));
    assert_eq!(
        decode_i32(&[0xff, 0xff, 0xff, 0xff, 0x07]),
        Ok((&[][..], i32::MAX))
    );
    assert_eq!(
        decode_i32(&[0x80, 0x80, 0x80, 0x80, 0x78]),
        Ok((&[][..], i32::MIN))
    );
    assert_eq!(
        decode_i32(&[0xff, 0xff, 0xff, 0xff, 0x7f]),
        Ok((&[][..], -1))
    );
}

#[test]
fn signed_leb128_that_does_not_fit() {
    assert_eq!(
        decode_i32(&[0x80, 0x80, 0x80, 0x80, 0x08]),
        Err(DecodeError {
            kind: DecodeErrorKind::IntegerTooLarge,
            remaining: 5
        })
    );
    assert_eq!(
        decode_i32(&[0xff, 0xff, 0xff, 0xff, 0x77]),
        Err(DecodeError {
            kind: DecodeErrorKind::IntegerTooLarge,
            remaining: 5
        })
    );
    assert_eq!(
        decode_i32(&[0xff, 0xff, 0xff, 0xff, 0xff, 0x00]),
        Err(DecodeError {
            kind: DecodeErrorKind::IntegerTooLarge,
            remaining: 6
        })
    );
    assert_eq!(
        decode_i32(&[0xff]),
        Err(DecodeError {
            kind: DecodeErrorKind::UnexpectedEof,
            remaining: 1
        })
    );
}

#[test]
fn names() {
    assert_eq!(
        decode_name(&[3, b'a', b'd', b'd', 1]),
        Ok((&[1u8][..], "add".to_string()))
    );
    assert_eq!(
        decode_name(&[3, 0xc3, 0xa9, b'!']),
        Ok((&[][..], "\u{e9}!".to_string()))
    );
    assert_eq!(decode_name(&[0]), Ok((&[][..], String::new())));
    assert_eq!(
        decode_name(&[2, b'a']),
        Err(DecodeError {
            kind: DecodeErrorKind::UnexpectedEof,
            remaining: 1
        })
    );
}

#[test]
fn names_that_are_not_utf8_are_read_lossily() {
    assert_eq!(
        decode_name(&[2, 0xff, b'A']),
        Ok((&[][..], "\u{fffd}A".to_string()))
    );
}

#[test]
fn limits() {
    assert_eq!(
        decode_limits(&[0, 3]),
        Ok((&[][..], Limits { min: 3, max: None }))
    );
    assert_eq!(
        decode_limits(&[1, 3, 4, 5]),
        Ok((
            &[5u8][..],
            Limits {
                min: 3,
                max: Some(4)
            }
        ))
    );
    assert_eq!(
        decode_limits(&[2, 3, 4]),
        Ok((
            &[][..],
            Limits {
                min: 3,
                max: Some(4)
            }
        ))
    );
}

#[test]
fn bytes_left_over_in_a_section_are_ignored() {
    let module = Module::new(&image(&[&[3, 3, 1, 0, 0xff]])).unwrap();
    assert_eq!(module.function_section, Some(vec![0]));
}

#[test]
fn counts_need_not_be_in_their_shortest_form() {
    let module = Module::new(&image(&[&[3, 3, 0x81, 0x00, 5]])).unwrap();
    assert_eq!(module.function_section, Some(vec![5]));
}

#[test]
fn reading_bytes() {
    assert_eq!(byte(&[7, 8]), Ok((&[8u8][..], 7)));
    assert_eq!(
        byte(&[]),
        Err(DecodeError {
            kind: DecodeErrorKind::UnexpectedEof,
            remaining: 0
        })
    );
    assert_eq!(take(&[1, 2, 3], 2), Ok((&[3u8][..], &[1u8, 2][..])));
    assert_eq!(take(&[1, 2, 3], 0), Ok((&[1u8, 2, 3][..], &[][..])));
    assert_eq!(
        take(&[1, 2, 3], 4),
        Err(DecodeError {
            kind: DecodeErrorKind::UnexpectedEof,
            remaining: 3
        })
    );
    assert_eq!(
        le_u32(&[0x78, 0x56, 0x34, 0x12, 9]),
        Ok((&[9u8][..], 0x12345678))
    );
    assert_eq!(
        le_u32(&[1, 2, 3]),
        Err(DecodeError {
            kind: DecodeErrorKind::UnexpectedEof,
            remaining: 3
        })
    );
}

#[test]
fn messages() {
    let e = DecodeError {
        kind: DecodeErrorKind::UnknownOpcode(1),
        remaining: 0,
    };
    assert_eq!(e.message(), "failed to parse wasm: invalid opcode");
    let e = DecodeError {
        kind: DecodeErrorKind::BadMagic,
        remaining: 0,
    };
    assert_eq!(e.message(), "failed to parse wasm: bad magic");
}
