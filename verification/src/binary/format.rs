//! The grammar of the binary format, as functions from bytes to what they hold.

use super::error::{DecodeError, DecodeErrorKind};
use super::instruction::Instruction;
use super::leb128::{i32_spec, lemma_scan_len, u32_spec};
use super::opcode::Opcode;
use super::reader::{byte_spec, fail, outward, take_spec, Parsed};
use super::section::{FunctionView, SectionCode};
use super::types::{
    Block, BlockType, DataView, ExportDesc, ExportView, FuncTypeView, FunctionLocal, ImportDesc,
    ImportView, Limits, Memory, ValueType,
};
use vstd::prelude::*;
use vstd::utf8::{decode_utf8, valid_utf8};

verus! {

/// The characters that bytes which are not UTF-8 are read as: those that
/// `String::from_utf8_lossy` gives, with U+FFFD in place of what is ill-formed.
pub uninterp spec fn lossy_utf8(bytes: Seq<u8>) -> Seq<char>;

/// The characters of a name's bytes.
pub open spec fn name_chars(bytes: Seq<u8>) -> Seq<char> {
    if valid_utf8(bytes) {
        decode_utf8(bytes)
    } else {
        lossy_utf8(bytes)
    }
}

/// A name: its length in bytes, then the bytes.
pub open spec fn name_spec(input: Seq<u8>) -> Parsed<Seq<char>> {
    match u32_spec(input) {
        Err(e) => Err(e),
        Ok((size, rest)) => match take_spec(rest, size as nat) {
            Err(e) => Err(e),
            Ok((bytes, rest)) => Ok((name_chars(bytes), rest)),
        },
    }
}

/// A value type in one byte.
pub open spec fn value_type_spec(input: Seq<u8>) -> Parsed<ValueType> {
    match byte_spec(input) {
        Err(e) => Err(e),
        Ok((b, rest)) => match ValueType::spec_from_u8(b) {
            Some(value_type) => Ok((value_type, rest)),
            None => fail(DecodeErrorKind::InvalidValueType(b), input),
        },
    }
}

/// `n` value types, appended to `acc`.
pub open spec fn value_types_spec(input: Seq<u8>, n: nat, acc: Seq<ValueType>) -> Parsed<
    Seq<ValueType>,
>
    decreases n,
{
    if n == 0 {
        Ok((acc, input))
    } else {
        match value_type_spec(input) {
            Err(e) => Err(e),
            Ok((value_type, rest)) => value_types_spec(rest, (n - 1) as nat, acc.push(value_type)),
        }
    }
}

/// A vector of value types: their number, then one byte each.
pub open spec fn value_type_vec_spec(input: Seq<u8>) -> Parsed<Seq<ValueType>> {
    match u32_spec(input) {
        Err(e) => Err(e),
        Ok((count, rest)) => value_types_spec(rest, count as nat, Seq::empty()),
    }
}

/// A function type: the byte `0x60`, the parameter types, the result types.
pub open spec fn func_type_spec(input: Seq<u8>) -> Parsed<FuncTypeView> {
    match byte_spec(input) {
        Err(e) => Err(e),
        Ok((tag, rest)) => if tag != 0x60 {
            fail(DecodeErrorKind::InvalidTypeTag(tag), input)
        } else {
            match value_type_vec_spec(rest) {
                Err(e) => Err(e),
                Ok((params, rest)) => match value_type_vec_spec(rest) {
                    Err(e) => Err(e),
                    Ok((results, rest)) => Ok((FuncTypeView { params, results }, rest)),
                },
            }
        },
    }
}

/// `n` function types, appended to `acc`.
pub open spec fn func_types_spec(input: Seq<u8>, n: nat, acc: Seq<FuncTypeView>) -> Parsed<
    Seq<FuncTypeView>,
>
    decreases n,
{
    if n == 0 {
        Ok((acc, input))
    } else {
        match func_type_spec(input) {
            Err(e) => Err(e),
            Ok((func_type, rest)) => func_types_spec(rest, (n - 1) as nat, acc.push(func_type)),
        }
    }
}

/// The type section: the number of function types, then each.
pub open spec fn type_section_spec(input: Seq<u8>) -> Parsed<Seq<FuncTypeView>> {
    match u32_spec(input) {
        Err(e) => Err(e),
        Ok((count, rest)) => func_types_spec(rest, count as nat, Seq::empty()),
    }
}

/// `n` indices, appended to `acc`.
pub open spec fn indices_spec(input: Seq<u8>, n: nat, acc: Seq<u32>) -> Parsed<Seq<u32>>
    decreases n,
{
    if n == 0 {
        Ok((acc, input))
    } else {
        match u32_spec(input) {
            Err(e) => Err(e),
            Ok((index, rest)) => indices_spec(rest, (n - 1) as nat, acc.push(index)),
        }
    }
}

/// The function section: the number of functions, then the type index of each.
pub open spec fn function_section_spec(input: Seq<u8>) -> Parsed<Seq<u32>> {
    match u32_spec(input) {
        Err(e) => Err(e),
        Ok((count, rest)) => indices_spec(rest, count as nat, Seq::empty()),
    }
}

/// The block type of an `if`: only the empty one, `0x40`.
pub open spec fn block_spec(input: Seq<u8>) -> Parsed<Block> {
    match byte_spec(input) {
        Err(e) => Err(e),
        Ok((b, rest)) => if b == 0x40 {
            Ok((Block { block_type: BlockType::Empty }, rest))
        } else {
            fail(DecodeErrorKind::UnsupportedBlockType(b), input)
        },
    }
}

/// One instruction: the opcode byte, then the operands that the opcode takes.
pub open spec fn instruction_spec(input: Seq<u8>) -> Parsed<Instruction> {
    match byte_spec(input) {
        Err(e) => Err(e),
        Ok((b, rest)) => match Opcode::spec_from_u8(b) {
            None => fail(DecodeErrorKind::UnknownOpcode(b), input),
            Some(Opcode::If) => match block_spec(rest) {
                Err(e) => Err(e),
                Ok((block, rest)) => Ok((Instruction::If(block), rest)),
            },
            Some(Opcode::End) => Ok((Instruction::End, rest)),
            Some(Opcode::Return) => Ok((Instruction::Return, rest)),
            Some(Opcode::LocalGet) => match u32_spec(rest) {
                Err(e) => Err(e),
                Ok((idx, rest)) => Ok((Instruction::LocalGet(idx), rest)),
            },
            Some(Opcode::LocalSet) => match u32_spec(rest) {
                Err(e) => Err(e),
                Ok((idx, rest)) => Ok((Instruction::LocalSet(idx), rest)),
            },
            Some(Opcode::I32Store) => match u32_spec(rest) {
                Err(e) => Err(e),
                Ok((align, rest)) => match u32_spec(rest) {
                    Err(e) => Err(e),
                    Ok((offset, rest)) => Ok((Instruction::I32Store { align, offset }, rest)),
                },
            },
            Some(Opcode::I32Const) => match i32_spec(rest) {
                Err(e) => Err(e),
                Ok((value, rest)) => Ok((Instruction::I32Const(value), rest)),
            },
            Some(Opcode::I32LtS) => Ok((Instruction::I32Lts, rest)),
            Some(Opcode::I32Add) => Ok((Instruction::I32Add, rest)),
            Some(Opcode::I32Sub) => Ok((Instruction::I32Sub, rest)),
            Some(Opcode::Call) => match u32_spec(rest) {
                Err(e) => Err(e),
                Ok((idx, rest)) => Ok((Instruction::Call(idx), rest)),
            },
        },
    }
}

/// An instruction takes at least its opcode byte.
pub proof fn lemma_instruction_advances(input: Seq<u8>)
    ensures
        instruction_spec(input) matches Ok((_, rest)) ==> rest.len() < input.len(),
{
    if input.len() > 0 {
        let rest = input.skip(1);
        lemma_scan_len(rest, 5);
        match u32_spec(rest) {
            Ok((_, rest2)) => {
                lemma_scan_len(rest2, 5);
            },
            Err(_) => {},
        }
    }
}

/// The instructions that fill `input` to its end, appended to `acc`.
pub open spec fn instructions_spec(input: Seq<u8>, acc: Seq<Instruction>) -> Result<
    Seq<Instruction>,
    DecodeError,
>
    decreases input.len(),
{
    if input.len() == 0 {
        Ok(acc)
    } else {
        match instruction_spec(input) {
            Err(e) => Err(e),
            Ok((inst, rest)) => {
                proof {
                    lemma_instruction_advances(input);
                }
                instructions_spec(rest, acc.push(inst))
            },
        }
    }
}

/// A run of locals: how many, then their type.
pub open spec fn local_spec(input: Seq<u8>) -> Parsed<FunctionLocal> {
    match u32_spec(input) {
        Err(e) => Err(e),
        Ok((type_count, rest)) => match value_type_spec(rest) {
            Err(e) => Err(e),
            Ok((value_type, rest)) => Ok((FunctionLocal { type_count, value_type }, rest)),
        },
    }
}

/// `n` runs of locals, appended to `acc`.
pub open spec fn locals_spec(input: Seq<u8>, n: nat, acc: Seq<FunctionLocal>) -> Parsed<
    Seq<FunctionLocal>,
>
    decreases n,
{
    if n == 0 {
        Ok((acc, input))
    } else {
        match local_spec(input) {
            Err(e) => Err(e),
            Ok((local, rest)) => locals_spec(rest, (n - 1) as nat, acc.push(local)),
        }
    }
}

/// A function body: the number of runs of locals, the runs, then instructions
/// to the end of the input.
pub open spec fn function_body_spec(input: Seq<u8>) -> Result<FunctionView, DecodeError> {
    match u32_spec(input) {
        Err(e) => Err(e),
        Ok((count, rest)) => match locals_spec(rest, count as nat, Seq::empty()) {
            Err(e) => Err(e),
            Ok((locals, rest)) => match instructions_spec(rest, Seq::empty()) {
                Err(e) => Err(e),
                Ok(code) => Ok(FunctionView { locals, code }),
            },
        },
    }
}

/// One entry of the code section: the size of a function body, then the body.
pub open spec fn code_entry_spec(input: Seq<u8>) -> Parsed<FunctionView> {
    match u32_spec(input) {
        Err(e) => Err(e),
        Ok((size, rest)) => match take_spec(rest, size as nat) {
            Err(e) => Err(e),
            Ok((body, rest)) => match function_body_spec(body) {
                Err(e) => Err(outward(e, rest.len())),
                Ok(function) => Ok((function, rest)),
            },
        },
    }
}

/// `n` entries of the code section, appended to `acc`.
pub open spec fn code_entries_spec(input: Seq<u8>, n: nat, acc: Seq<FunctionView>) -> Parsed<
    Seq<FunctionView>,
>
    decreases n,
{
    if n == 0 {
        Ok((acc, input))
    } else {
        match code_entry_spec(input) {
            Err(e) => Err(e),
            Ok((function, rest)) => code_entries_spec(rest, (n - 1) as nat, acc.push(function)),
        }
    }
}

/// The code section: the number of function bodies, then each with its size.
pub open spec fn code_section_spec(input: Seq<u8>) -> Parsed<Seq<FunctionView>> {
    match u32_spec(input) {
        Err(e) => Err(e),
        Ok((count, rest)) => code_entries_spec(rest, count as nat, Seq::empty()),
    }
}

/// One export: its name, the kind byte of a function, the function's index.
pub open spec fn export_spec(input: Seq<u8>) -> Parsed<ExportView> {
    match name_spec(input) {
        Err(e) => Err(e),
        Ok((name, rest)) => match byte_spec(rest) {
            Err(e) => Err(e),
            Ok((kind, after_kind)) => if kind != 0x00 {
                fail(DecodeErrorKind::UnsupportedExportKind(kind), rest)
            } else {
                match u32_spec(after_kind) {
                    Err(e) => Err(e),
                    Ok((idx, rest)) => Ok((ExportView { name, desc: ExportDesc::Func(idx) }, rest)),
                }
            },
        },
    }
}

/// `n` exports, appended to `acc`.
pub open spec fn exports_spec(input: Seq<u8>, n: nat, acc: Seq<ExportView>) -> Parsed<
    Seq<ExportView>,
>
    decreases n,
{
    if n == 0 {
        Ok((acc, input))
    } else {
        match export_spec(input) {
            Err(e) => Err(e),
            Ok((export, rest)) => exports_spec(rest, (n - 1) as nat, acc.push(export)),
        }
    }
}

/// The export section: the number of exports, then each.
pub open spec fn export_section_spec(input: Seq<u8>) -> Parsed<Seq<ExportView>> {
    match u32_spec(input) {
        Err(e) => Err(e),
        Ok((count, rest)) => exports_spec(rest, count as nat, Seq::empty()),
    }
}

/// One import: module name, field name, the kind byte of a function, the
/// function's type index.
pub open spec fn import_spec(input: Seq<u8>) -> Parsed<ImportView> {
    match name_spec(input) {
        Err(e) => Err(e),
        Ok((module, rest)) => match name_spec(rest) {
            Err(e) => Err(e),
            Ok((field, rest)) => match byte_spec(rest) {
                Err(e) => Err(e),
                Ok((kind, after_kind)) => if kind != 0x00 {
                    fail(DecodeErrorKind::UnsupportedImportKind(kind), rest)
                } else {
                    match u32_spec(after_kind) {
                        Err(e) => Err(e),
                        Ok((idx, rest)) => Ok(
                            (ImportView { module, field, desc: ImportDesc::Func(idx) }, rest),
                        ),
                    }
                },
            },
        },
    }
}

/// `n` imports, appended to `acc`.
pub open spec fn imports_spec(input: Seq<u8>, n: nat, acc: Seq<ImportView>) -> Parsed<
    Seq<ImportView>,
>
    decreases n,
{
    if n == 0 {
        Ok((acc, input))
    } else {
        match import_spec(input) {
            Err(e) => Err(e),
            Ok((import, rest)) => imports_spec(rest, (n - 1) as nat, acc.push(import)),
        }
    }
}

/// The import section: the number of imports, then each.
pub open spec fn import_section_spec(input: Seq<u8>) -> Parsed<Seq<ImportView>> {
    match u32_spec(input) {
        Err(e) => Err(e),
        Ok((count, rest)) => imports_spec(rest, count as nat, Seq::empty()),
    }
}

/// Limits: a flag, the minimum, and the maximum where the flag is not zero.
pub open spec fn limits_spec(input: Seq<u8>) -> Parsed<Limits> {
    match u32_spec(input) {
        Err(e) => Err(e),
        Ok((flags, rest)) => match u32_spec(rest) {
            Err(e) => Err(e),
            Ok((min, rest)) => if flags == 0 {
                Ok((Limits { min, max: None }, rest))
            } else {
                match u32_spec(rest) {
                    Err(e) => Err(e),
                    Ok((max, rest)) => Ok((Limits { min, max: Some(max) }, rest)),
                }
            },
        },
    }
}

/// The memory section: a count, which is not looked at, and the limits of
/// the one memory.
pub open spec fn memory_section_spec(input: Seq<u8>) -> Parsed<Memory> {
    match u32_spec(input) {
        Err(e) => Err(e),
        Ok((_, rest)) => match limits_spec(rest) {
            Err(e) => Err(e),
            Ok((limits, rest)) => Ok((Memory { limits }, rest)),
        },
    }
}

/// The offset of a data segment: `i32.const k` and `end`; it gives `k`.
pub open spec fn expr_spec(input: Seq<u8>) -> Parsed<i32> {
    match byte_spec(input) {
        Err(e) => Err(e),
        Ok((op, rest)) => if op != 0x41 {
            fail(DecodeErrorKind::InvalidConstExpr, input)
        } else {
            match i32_spec(rest) {
                Err(e) => Err(e),
                Ok((k, rest)) => match byte_spec(rest) {
                    Err(e) => Err(e),
                    Ok((end, after_end)) => if end != 0x0B {
                        fail(DecodeErrorKind::InvalidConstExpr, rest)
                    } else {
                        Ok((k, after_end))
                    },
                },
            }
        },
    }
}

/// One data segment: memory index, offset expression, byte count, bytes.
pub open spec fn data_spec(input: Seq<u8>) -> Parsed<DataView> {
    match u32_spec(input) {
        Err(e) => Err(e),
        Ok((memory_index, rest)) => match expr_spec(rest) {
            Err(e) => Err(e),
            Ok((offset, rest)) => match u32_spec(rest) {
                Err(e) => Err(e),
                Ok((size, rest)) => match take_spec(rest, size as nat) {
                    Err(e) => Err(e),
                    Ok((init, rest)) => Ok((DataView { memory_index, offset, init }, rest)),
                },
            },
        },
    }
}

/// `n` data segments, appended to `acc`.
pub open spec fn datas_spec(input: Seq<u8>, n: nat, acc: Seq<DataView>) -> Parsed<Seq<DataView>>
    decreases n,
{
    if n == 0 {
        Ok((acc, input))
    } else {
        match data_spec(input) {
            Err(e) => Err(e),
            Ok((data, rest)) => datas_spec(rest, (n - 1) as nat, acc.push(data)),
        }
    }
}

/// The data section: the number of segments, then each.
pub open spec fn data_section_spec(input: Seq<u8>) -> Parsed<Seq<DataView>> {
    match u32_spec(input) {
        Err(e) => Err(e),
        Ok((count, rest)) => datas_spec(rest, count as nat, Seq::empty()),
    }
}

/// The header of a section: its id and the size of its body. An id up to 11
/// that names no section the decoder reads comes back as `None`; a higher one
/// is refused.
pub open spec fn section_header_spec(input: Seq<u8>) -> Parsed<(Option<SectionCode>, u32)> {
    match byte_spec(input) {
        Err(e) => Err(e),
        Ok((id, rest)) => if id > 0x0b {
            fail(DecodeErrorKind::UnknownSection(id), input)
        } else {
            match u32_spec(rest) {
                Err(e) => Err(e),
                Ok((size, rest)) => Ok(((SectionCode::spec_from_u8(id), size), rest)),
            }
        },
    }
}

} // verus!
