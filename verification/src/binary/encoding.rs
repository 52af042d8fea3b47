//! The encoding that the decoder inverts: for each item of the format, the
//! bytes that stand for it, and the proof that decoding them gives the item
//! back.

use super::error::DecodeError;
use super::format::{
    code_entries_spec, code_entry_spec, code_section_spec, data_section_spec, data_spec,
    datas_spec, export_section_spec, export_spec, exports_spec, expr_spec, func_type_spec,
    func_types_spec, function_body_spec, function_section_spec, import_section_spec, import_spec,
    imports_spec, indices_spec, instruction_spec, instructions_spec, limits_spec, local_spec,
    locals_spec, memory_section_spec, name_spec, type_section_spec, value_type_vec_spec,
    value_types_spec,
};
use super::instruction::Instruction;
use super::leb128::{i32_spec, leb128_scan, pow128, u32_spec};
use super::reader::{byte_spec, take_spec};
use super::module::{
    empty_module, magic_bytes, module_spec, next_section_spec, sections_spec, ModuleView,
};
use super::reader::{le_u32_spec, le_u32_value};
use super::section::{FunctionView, SectionCode};
use super::types::{
    Block, BlockType, DataView, ExportDesc, ExportView, FuncTypeView, FunctionLocal, ImportDesc,
    ImportView, Limits, Memory, ValueType,
};
use vstd::prelude::*;
use vstd::utf8::{encode_utf8, encode_utf8_decode_utf8, encode_utf8_valid_utf8};

verus! {

/// The shortest unsigned LEB128 encoding of a number: seven bits to a byte,
/// the low ones first, and the high bit set on every byte but the last.
pub open spec fn encode_unsigned(value: nat) -> Seq<u8>
    decreases value,
{
    if value < 128 {
        seq![value as u8]
    } else {
        seq![(value % 128 + 128) as u8] + encode_unsigned(value / 128)
    }
}

/// The shortest signed LEB128 encoding of a number: as the unsigned one,
/// over the number in two's complement, ending with the first byte whose
/// bit 6 is the sign of all that is left.
pub open spec fn encode_signed(value: int) -> Seq<u8>
    decreases
            if value >= 0 {
                value
            } else {
                -value
            },
{
    if -64 <= value < 64 {
        seq![(value % 128) as u8]
    } else {
        seq![(value % 128 + 128) as u8] + encode_signed(value / 128)
    }
}

/// The encoding of a 32-bit unsigned integer.
pub open spec fn encode_u32(value: u32) -> Seq<u8> {
    encode_unsigned(value as nat)
}

/// The encoding of a 32-bit signed integer.
pub open spec fn encode_i32(value: i32) -> Seq<u8> {
    encode_signed(value as int)
}

/// Scanning the encoding of a number that fits `limit` bytes gives the
/// number and the length of the encoding, whatever follows it.
pub proof fn lemma_scan_unsigned(value: nat, tail: Seq<u8>, limit: nat)
    requires
        limit >= 1,
        value < pow128(limit),
    ensures
        leb128_scan(encode_unsigned(value) + tail, limit) == Some(
            (value, encode_unsigned(value).len()),
        ),
        1 <= encode_unsigned(value).len() <= limit,
    decreases limit,
{
    let bytes = encode_unsigned(value) + tail;
    reveal_with_fuel(pow128, 2);
    if value < 128 {
        assert(bytes[0] == value as u8);
    } else {
        assert(bytes[0] == (value % 128 + 128) as u8);
        assert(bytes.skip(1) =~= encode_unsigned(value / 128) + tail);
        lemma_scan_unsigned(value / 128, tail, (limit - 1) as nat);
    }
}

/// The payload of the signed encoding of a number that fits `limit` bytes:
/// the number itself, or, for a negative one, the number above the next
/// power of 128.
pub proof fn lemma_scan_signed(value: int, tail: Seq<u8>, limit: nat)
    requires
        limit >= 1,
        -pow128(limit) <= 2 * value < pow128(limit),
    ensures
        leb128_scan(encode_signed(value) + tail, limit) == Some(
            (
                (if value >= 0 {
                    value
                } else {
                    value + pow128(encode_signed(value).len())
                }) as nat,
                encode_signed(value).len(),
            ),
        ),
        1 <= encode_signed(value).len() <= limit,
        -pow128(encode_signed(value).len()) <= 2 * value < pow128(encode_signed(value).len()),
    decreases limit,
{
    let bytes = encode_signed(value) + tail;
    reveal_with_fuel(pow128, 2);
    if -64 <= value < 64 {
        assert(bytes[0] == (value % 128) as u8);
        assert(encode_signed(value).len() == 1);
    } else {
        assert(bytes[0] == (value % 128 + 128) as u8);
        assert(bytes.skip(1) =~= encode_signed(value / 128) + tail);
        assert(limit >= 2);
        lemma_scan_signed(value / 128, tail, (limit - 1) as nat);
    }
}

/// Decoding the encoding of a 32-bit unsigned integer gives the integer,
/// and leaves what follows the encoding.
pub proof fn lemma_u32_round_trip(value: u32, tail: Seq<u8>)
    ensures
        u32_spec(encode_u32(value) + tail) == Ok::<(u32, Seq<u8>), DecodeError>((value, tail)),
        1 <= encode_u32(value).len() <= 5,
{
    reveal_with_fuel(pow128, 6);
    lemma_scan_unsigned(value as nat, tail, 5);
    let bytes = encode_u32(value) + tail;
    assert(bytes.skip(encode_u32(value).len() as int) =~= tail);
}

/// Decoding the encoding of a 32-bit signed integer gives the integer, and
/// leaves what follows the encoding.
pub proof fn lemma_i32_round_trip(value: i32, tail: Seq<u8>)
    ensures
        i32_spec(encode_i32(value) + tail) == Ok::<(i32, Seq<u8>), DecodeError>((value, tail)),
        1 <= encode_i32(value).len() <= 5,
{
    reveal_with_fuel(pow128, 6);
    lemma_scan_signed(value as int, tail, 5);
    let bytes = encode_i32(value) + tail;
    let len = encode_i32(value).len();
    assert(bytes.skip(len as int) =~= tail);
    if len == 1 {
    } else if len == 2 {
    } else if len == 3 {
    } else if len == 4 {
    } else {
    }
}

/// A byte in front of other bytes is read as that byte.
pub proof fn lemma_byte(b: u8, tail: Seq<u8>)
    ensures
        byte_spec(seq![b] + tail) == Ok::<(u8, Seq<u8>), DecodeError>((b, tail)),
{
    assert((seq![b] + tail).skip(1) =~= tail);
}

/// Bytes in front of other bytes are taken as those bytes.
pub proof fn lemma_take(bytes: Seq<u8>, tail: Seq<u8>)
    ensures
        take_spec(bytes + tail, bytes.len()) == Ok::<(Seq<u8>, Seq<u8>), DecodeError>(
            (bytes, tail),
        ),
{
    assert((bytes + tail).take(bytes.len() as int) =~= bytes);
    assert((bytes + tail).skip(bytes.len() as int) =~= tail);
}

/// A length that the format can hold.
pub open spec fn fits_u32(len: nat) -> bool {
    len <= u32::MAX
}

/// The encoding of a name: the length of its UTF-8 bytes, then the bytes.
pub open spec fn encode_name(name: Seq<char>) -> Seq<u8> {
    encode_u32(encode_utf8(name).len() as u32) + encode_utf8(name)
}

/// Decoding the encoding of a name gives the name.
pub proof fn lemma_name_round_trip(name: Seq<char>, tail: Seq<u8>)
    requires
        fits_u32(encode_utf8(name).len()),
    ensures
        name_spec(encode_name(name) + tail) == Ok::<(Seq<char>, Seq<u8>), DecodeError>(
            (name, tail),
        ),
{
    let bytes = encode_utf8(name);
    assert(encode_name(name) + tail =~= encode_u32(bytes.len() as u32) + (bytes + tail));
    lemma_u32_round_trip(bytes.len() as u32, bytes + tail);
    lemma_take(bytes, tail);
    encode_utf8_valid_utf8(name);
    encode_utf8_decode_utf8(name);
}

/// The encoding of value types, one byte each.
pub open spec fn encode_value_types(types: Seq<ValueType>) -> Seq<u8>
    decreases types.len(),
{
    if types.len() == 0 {
        Seq::empty()
    } else {
        seq![types[0].spec_byte()] + encode_value_types(types.drop_first())
    }
}

/// Decoding the encoding of value types gives them, after what was read before.
pub proof fn lemma_value_types_round_trip(types: Seq<ValueType>, tail: Seq<u8>, acc: Seq<ValueType>)
    ensures
        value_types_spec(encode_value_types(types) + tail, types.len(), acc) == Ok::<
            (Seq<ValueType>, Seq<u8>),
            DecodeError,
        >((acc + types, tail)),
    decreases types.len(),
{
    if types.len() == 0 {
        assert(encode_value_types(types) + tail =~= tail);
        assert(acc + types =~= acc);
    } else {
        let rest = types.drop_first();
        assert(encode_value_types(types) + tail =~= seq![types[0].spec_byte()] + (
        encode_value_types(rest) + tail));
        lemma_byte(types[0].spec_byte(), encode_value_types(rest) + tail);
        lemma_value_types_round_trip(rest, tail, acc.push(types[0]));
        assert(acc.push(types[0]) + rest =~= acc + types);
    }
}

/// The encoding of a vector of value types: their number, then one byte each.
pub open spec fn encode_value_type_vec(types: Seq<ValueType>) -> Seq<u8> {
    encode_u32(types.len() as u32) + encode_value_types(types)
}

/// Decoding the encoding of a vector of value types gives the vector.
pub proof fn lemma_value_type_vec_round_trip(types: Seq<ValueType>, tail: Seq<u8>)
    requires
        fits_u32(types.len()),
    ensures
        value_type_vec_spec(encode_value_type_vec(types) + tail) == Ok::<
            (Seq<ValueType>, Seq<u8>),
            DecodeError,
        >((types, tail)),
{
    assert(encode_value_type_vec(types) + tail =~= encode_u32(types.len() as u32) + (
    encode_value_types(types) + tail));
    lemma_u32_round_trip(types.len() as u32, encode_value_types(types) + tail);
    lemma_value_types_round_trip(types, tail, Seq::empty());
    assert(Seq::<ValueType>::empty() + types =~= types);
}

/// A function type whose vectors the format can hold.
pub open spec fn encodable_func_type(func_type: FuncTypeView) -> bool {
    fits_u32(func_type.params.len()) && fits_u32(func_type.results.len())
}

/// The encoding of a function type.
pub open spec fn encode_func_type(func_type: FuncTypeView) -> Seq<u8> {
    seq![0x60u8] + encode_value_type_vec(func_type.params) + encode_value_type_vec(
        func_type.results,
    )
}

/// Decoding the encoding of a function type gives the function type.
pub proof fn lemma_func_type_round_trip(func_type: FuncTypeView, tail: Seq<u8>)
    requires
        encodable_func_type(func_type),
    ensures
        func_type_spec(encode_func_type(func_type) + tail) == Ok::<
            (FuncTypeView, Seq<u8>),
            DecodeError,
        >((func_type, tail)),
{
    let params = encode_value_type_vec(func_type.params);
    let results = encode_value_type_vec(func_type.results);
    assert(encode_func_type(func_type) + tail =~= seq![0x60u8] + (params + (results + tail)));
    lemma_byte(0x60u8, params + (results + tail));
    lemma_value_type_vec_round_trip(func_type.params, results + tail);
    lemma_value_type_vec_round_trip(func_type.results, tail);
}

/// The encoding of function types, one after the other.
pub open spec fn encode_func_types(types: Seq<FuncTypeView>) -> Seq<u8>
    decreases types.len(),
{
    if types.len() == 0 {
        Seq::empty()
    } else {
        encode_func_type(types[0]) + encode_func_types(types.drop_first())
    }
}

/// Decoding the encoding of function types gives them, after what was read before.
pub proof fn lemma_func_types_round_trip(
    types: Seq<FuncTypeView>,
    tail: Seq<u8>,
    acc: Seq<FuncTypeView>,
)
    requires
        forall|i: int| 0 <= i < types.len() ==> encodable_func_type(types[i]),
    ensures
        func_types_spec(encode_func_types(types) + tail, types.len(), acc) == Ok::<
            (Seq<FuncTypeView>, Seq<u8>),
            DecodeError,
        >((acc + types, tail)),
    decreases types.len(),
{
    if types.len() == 0 {
        assert(encode_func_types(types) + tail =~= tail);
        assert(acc + types =~= acc);
    } else {
        let rest = types.drop_first();
        assert(encode_func_types(types) + tail =~= encode_func_type(types[0]) + (
        encode_func_types(rest) + tail));
        lemma_func_type_round_trip(types[0], encode_func_types(rest) + tail);
        lemma_func_types_round_trip(rest, tail, acc.push(types[0]));
        assert(acc.push(types[0]) + rest =~= acc + types);
    }
}

/// A type section that the format can hold.
pub open spec fn encodable_type_section(types: Seq<FuncTypeView>) -> bool {
    fits_u32(types.len()) && forall|i: int| 0 <= i < types.len() ==> encodable_func_type(types[i])
}

/// The encoding of the type section.
pub open spec fn encode_type_section(types: Seq<FuncTypeView>) -> Seq<u8> {
    encode_u32(types.len() as u32) + encode_func_types(types)
}

/// Decoding the encoding of a type section gives the section.
pub proof fn lemma_type_section_round_trip(types: Seq<FuncTypeView>, tail: Seq<u8>)
    requires
        encodable_type_section(types),
    ensures
        type_section_spec(encode_type_section(types) + tail) == Ok::<
            (Seq<FuncTypeView>, Seq<u8>),
            DecodeError,
        >((types, tail)),
{
    assert(encode_type_section(types) + tail =~= encode_u32(types.len() as u32) + (
    encode_func_types(types) + tail));
    lemma_u32_round_trip(types.len() as u32, encode_func_types(types) + tail);
    lemma_func_types_round_trip(types, tail, Seq::empty());
    assert(Seq::<FuncTypeView>::empty() + types =~= types);
}

/// The encoding of indices, one after the other.
pub open spec fn encode_indices(indices: Seq<u32>) -> Seq<u8>
    decreases indices.len(),
{
    if indices.len() == 0 {
        Seq::empty()
    } else {
        encode_u32(indices[0]) + encode_indices(indices.drop_first())
    }
}

/// Decoding the encoding of indices gives them, after what was read before.
pub proof fn lemma_indices_round_trip(indices: Seq<u32>, tail: Seq<u8>, acc: Seq<u32>)
    ensures
        indices_spec(encode_indices(indices) + tail, indices.len(), acc) == Ok::<
            (Seq<u32>, Seq<u8>),
            DecodeError,
        >((acc + indices, tail)),
    decreases indices.len(),
{
    if indices.len() == 0 {
        assert(encode_indices(indices) + tail =~= tail);
        assert(acc + indices =~= acc);
    } else {
        let rest = indices.drop_first();
        assert(encode_indices(indices) + tail =~= encode_u32(indices[0]) + (encode_indices(rest)
            + tail));
        lemma_u32_round_trip(indices[0], encode_indices(rest) + tail);
        lemma_indices_round_trip(rest, tail, acc.push(indices[0]));
        assert(acc.push(indices[0]) + rest =~= acc + indices);
    }
}

/// The encoding of the function section.
pub open spec fn encode_function_section(indices: Seq<u32>) -> Seq<u8> {
    encode_u32(indices.len() as u32) + encode_indices(indices)
}

/// Decoding the encoding of a function section gives the section.
pub proof fn lemma_function_section_round_trip(indices: Seq<u32>, tail: Seq<u8>)
    requires
        fits_u32(indices.len()),
    ensures
        function_section_spec(encode_function_section(indices) + tail) == Ok::<
            (Seq<u32>, Seq<u8>),
            DecodeError,
        >((indices, tail)),
{
    assert(encode_function_section(indices) + tail =~= encode_u32(indices.len() as u32) + (
    encode_indices(indices) + tail));
    lemma_u32_round_trip(indices.len() as u32, encode_indices(indices) + tail);
    lemma_indices_round_trip(indices, tail, Seq::empty());
    assert(Seq::<u32>::empty() + indices =~= indices);
}

/// The encoding of an instruction: its opcode, then its operands.
pub open spec fn encode_instruction(inst: Instruction) -> Seq<u8> {
    match inst {
        Instruction::If(_) => seq![0x04u8, 0x40u8],
        Instruction::End => seq![0x0Bu8],
        Instruction::Return => seq![0x0Fu8],
        Instruction::LocalGet(idx) => seq![0x20u8] + encode_u32(idx),
        Instruction::LocalSet(idx) => seq![0x21u8] + encode_u32(idx),
        Instruction::I32Store { align, offset } => seq![0x36u8] + encode_u32(align) + encode_u32(
            offset,
        ),
        Instruction::I32Const(value) => seq![0x41u8] + encode_i32(value),
        Instruction::I32Lts => seq![0x48u8],
        Instruction::I32Add => seq![0x6Au8],
        Instruction::I32Sub => seq![0x6Bu8],
        Instruction::Call(idx) => seq![0x10u8] + encode_u32(idx),
    }
}

/// Decoding the encoding of an instruction gives the instruction.
pub proof fn lemma_instruction_round_trip(inst: Instruction, tail: Seq<u8>)
    ensures
        instruction_spec(encode_instruction(inst) + tail) == Ok::<
            (Instruction, Seq<u8>),
            DecodeError,
        >((inst, tail)),
        encode_instruction(inst).len() >= 1,
{
    match inst {
        Instruction::If(block) => {
            assert(encode_instruction(inst) + tail =~= seq![0x04u8] + (seq![0x40u8] + tail));
            lemma_byte(0x04u8, seq![0x40u8] + tail);
            lemma_byte(0x40u8, tail);
            assert(block == Block { block_type: BlockType::Empty });
        },
        Instruction::End => {
            lemma_byte(0x0Bu8, tail);
        },
        Instruction::Return => {
            lemma_byte(0x0Fu8, tail);
        },
        Instruction::LocalGet(idx) => {
            assert(encode_instruction(inst) + tail =~= seq![0x20u8] + (encode_u32(idx) + tail));
            lemma_byte(0x20u8, encode_u32(idx) + tail);
            lemma_u32_round_trip(idx, tail);
        },
        Instruction::LocalSet(idx) => {
            assert(encode_instruction(inst) + tail =~= seq![0x21u8] + (encode_u32(idx) + tail));
            lemma_byte(0x21u8, encode_u32(idx) + tail);
            lemma_u32_round_trip(idx, tail);
        },
        Instruction::I32Store { align, offset } => {
            assert(encode_instruction(inst) + tail =~= seq![0x36u8] + (encode_u32(align) + (
            encode_u32(offset) + tail)));
            lemma_byte(0x36u8, encode_u32(align) + (encode_u32(offset) + tail));
            lemma_u32_round_trip(align, encode_u32(offset) + tail);
            lemma_u32_round_trip(offset, tail);
        },
        Instruction::I32Const(value) => {
            assert(encode_instruction(inst) + tail =~= seq![0x41u8] + (encode_i32(value) + tail));
            lemma_byte(0x41u8, encode_i32(value) + tail);
            lemma_i32_round_trip(value, tail);
        },
        Instruction::I32Lts => {
            lemma_byte(0x48u8, tail);
        },
        Instruction::I32Add => {
            lemma_byte(0x6Au8, tail);
        },
        Instruction::I32Sub => {
            lemma_byte(0x6Bu8, tail);
        },
        Instruction::Call(idx) => {
            assert(encode_instruction(inst) + tail =~= seq![0x10u8] + (encode_u32(idx) + tail));
            lemma_byte(0x10u8, encode_u32(idx) + tail);
            lemma_u32_round_trip(idx, tail);
        },
    }
}

/// The encoding of instructions, one after the other.
pub open spec fn encode_instructions(code: Seq<Instruction>) -> Seq<u8>
    decreases code.len(),
{
    if code.len() == 0 {
        Seq::empty()
    } else {
        encode_instruction(code[0]) + encode_instructions(code.drop_first())
    }
}

/// Decoding the encoding of instructions, with nothing after it, gives
/// them, after what was read before.
pub proof fn lemma_instructions_round_trip(code: Seq<Instruction>, acc: Seq<Instruction>)
    ensures
        instructions_spec(encode_instructions(code), acc) == Ok::<Seq<Instruction>, DecodeError>(
            acc + code,
        ),
    decreases code.len(),
{
    if code.len() == 0 {
        assert(acc + code =~= acc);
    } else {
        let rest = code.drop_first();
        lemma_instruction_round_trip(code[0], encode_instructions(rest));
        lemma_instructions_round_trip(rest, acc.push(code[0]));
        assert(acc.push(code[0]) + rest =~= acc + code);
    }
}

/// The encoding of a run of locals: how many, then their type.
pub open spec fn encode_local(local: FunctionLocal) -> Seq<u8> {
    encode_u32(local.type_count) + seq![local.value_type.spec_byte()]
}

/// Decoding the encoding of a run of locals gives the run.
pub proof fn lemma_local_round_trip(local: FunctionLocal, tail: Seq<u8>)
    ensures
        local_spec(encode_local(local) + tail) == Ok::<(FunctionLocal, Seq<u8>), DecodeError>(
            (local, tail),
        ),
{
    assert(encode_local(local) + tail =~= encode_u32(local.type_count) + (
    seq![local.value_type.spec_byte()] + tail));
    lemma_u32_round_trip(local.type_count, seq![local.value_type.spec_byte()] + tail);
    lemma_byte(local.value_type.spec_byte(), tail);
}

/// The encoding of runs of locals, one after the other.
pub open spec fn encode_locals(locals: Seq<FunctionLocal>) -> Seq<u8>
    decreases locals.len(),
{
    if locals.len() == 0 {
        Seq::empty()
    } else {
        encode_local(locals[0]) + encode_locals(locals.drop_first())
    }
}

/// Decoding the encoding of runs of locals gives them, after what was read before.
pub proof fn lemma_locals_round_trip(
    locals: Seq<FunctionLocal>,
    tail: Seq<u8>,
    acc: Seq<FunctionLocal>,
)
    ensures
        locals_spec(encode_locals(locals) + tail, locals.len(), acc) == Ok::<
            (Seq<FunctionLocal>, Seq<u8>),
            DecodeError,
        >((acc + locals, tail)),
    decreases locals.len(),
{
    if locals.len() == 0 {
        assert(encode_locals(locals) + tail =~= tail);
        assert(acc + locals =~= acc);
    } else {
        let rest = locals.drop_first();
        assert(encode_locals(locals) + tail =~= encode_local(locals[0]) + (encode_locals(rest)
            + tail));
        lemma_local_round_trip(locals[0], encode_locals(rest) + tail);
        lemma_locals_round_trip(rest, tail, acc.push(locals[0]));
        assert(acc.push(locals[0]) + rest =~= acc + locals);
    }
}

/// The encoding of a function body: the runs of locals, then the instructions.
pub open spec fn encode_function_body(function: FunctionView) -> Seq<u8> {
    encode_u32(function.locals.len() as u32) + encode_locals(function.locals)
        + encode_instructions(function.code)
}

/// A function body that the format can hold.
pub open spec fn encodable_function(function: FunctionView) -> bool {
    fits_u32(function.locals.len()) && fits_u32(encode_function_body(function).len())
}

/// Decoding the encoding of a function body gives the body.
pub proof fn lemma_function_body_round_trip(function: FunctionView)
    requires
        fits_u32(function.locals.len()),
    ensures
        function_body_spec(encode_function_body(function)) == Ok::<FunctionView, DecodeError>(
            function,
        ),
{
    let locals = encode_locals(function.locals);
    let code = encode_instructions(function.code);
    assert(encode_function_body(function) =~= encode_u32(function.locals.len() as u32) + (locals
        + code));
    lemma_u32_round_trip(function.locals.len() as u32, locals + code);
    lemma_locals_round_trip(function.locals, code, Seq::empty());
    assert(Seq::<FunctionLocal>::empty() + function.locals =~= function.locals);
    lemma_instructions_round_trip(function.code, Seq::empty());
    assert(Seq::<Instruction>::empty() + function.code =~= function.code);
}

/// The encoding of an entry of the code section: the size of the function
/// body, then the body.
pub open spec fn encode_code_entry(function: FunctionView) -> Seq<u8> {
    encode_u32(encode_function_body(function).len() as u32) + encode_function_body(function)
}

/// Decoding the encoding of an entry of the code section gives the function.
pub proof fn lemma_code_entry_round_trip(function: FunctionView, tail: Seq<u8>)
    requires
        encodable_function(function),
    ensures
        code_entry_spec(encode_code_entry(function) + tail) == Ok::<
            (FunctionView, Seq<u8>),
            DecodeError,
        >((function, tail)),
{
    let body = encode_function_body(function);
    assert(encode_code_entry(function) + tail =~= encode_u32(body.len() as u32) + (body + tail));
    lemma_u32_round_trip(body.len() as u32, body + tail);
    lemma_take(body, tail);
    lemma_function_body_round_trip(function);
}

/// The encoding of entries of the code section, one after the other.
pub open spec fn encode_code_entries(functions: Seq<FunctionView>) -> Seq<u8>
    decreases functions.len(),
{
    if functions.len() == 0 {
        Seq::empty()
    } else {
        encode_code_entry(functions[0]) + encode_code_entries(functions.drop_first())
    }
}

/// Decoding the encoding of entries of the code section gives the
/// functions, after what was read before.
pub proof fn lemma_code_entries_round_trip(
    functions: Seq<FunctionView>,
    tail: Seq<u8>,
    acc: Seq<FunctionView>,
)
    requires
        forall|i: int| 0 <= i < functions.len() ==> encodable_function(functions[i]),
    ensures
        code_entries_spec(encode_code_entries(functions) + tail, functions.len(), acc) == Ok::<
            (Seq<FunctionView>, Seq<u8>),
            DecodeError,
        >((acc + functions, tail)),
    decreases functions.len(),
{
    if functions.len() == 0 {
        assert(encode_code_entries(functions) + tail =~= tail);
        assert(acc + functions =~= acc);
    } else {
        let rest = functions.drop_first();
        assert(encode_code_entries(functions) + tail =~= encode_code_entry(functions[0]) + (
        encode_code_entries(rest) + tail));
        lemma_code_entry_round_trip(functions[0], encode_code_entries(rest) + tail);
        lemma_code_entries_round_trip(rest, tail, acc.push(functions[0]));
        assert(acc.push(functions[0]) + rest =~= acc + functions);
    }
}

/// A code section that the format can hold.
pub open spec fn encodable_code_section(functions: Seq<FunctionView>) -> bool {
    fits_u32(functions.len()) && forall|i: int|
        0 <= i < functions.len() ==> encodable_function(functions[i])
}

/// The encoding of the code section.
pub open spec fn encode_code_section(functions: Seq<FunctionView>) -> Seq<u8> {
    encode_u32(functions.len() as u32) + encode_code_entries(functions)
}

/// Decoding the encoding of a code section gives the section.
pub proof fn lemma_code_section_round_trip(functions: Seq<FunctionView>, tail: Seq<u8>)
    requires
        encodable_code_section(functions),
    ensures
        code_section_spec(encode_code_section(functions) + tail) == Ok::<
            (Seq<FunctionView>, Seq<u8>),
            DecodeError,
        >((functions, tail)),
{
    assert(encode_code_section(functions) + tail =~= encode_u32(functions.len() as u32) + (
    encode_code_entries(functions) + tail));
    lemma_u32_round_trip(functions.len() as u32, encode_code_entries(functions) + tail);
    lemma_code_entries_round_trip(functions, tail, Seq::empty());
    assert(Seq::<FunctionView>::empty() + functions =~= functions);
}

/// An export whose name the format can hold.
pub open spec fn encodable_export(export: ExportView) -> bool {
    fits_u32(encode_utf8(export.name).len())
}

/// The index of the function that an export names.
pub open spec fn export_index(desc: ExportDesc) -> u32 {
    match desc {
        ExportDesc::Func(idx) => idx,
    }
}

/// The encoding of an export: its name, the kind of a function, the index.
pub open spec fn encode_export(export: ExportView) -> Seq<u8> {
    encode_name(export.name) + seq![0x00u8] + encode_u32(export_index(export.desc))
}

/// Decoding the encoding of an export gives the export.
pub proof fn lemma_export_round_trip(export: ExportView, tail: Seq<u8>)
    requires
        encodable_export(export),
    ensures
        export_spec(encode_export(export) + tail) == Ok::<(ExportView, Seq<u8>), DecodeError>(
            (export, tail),
        ),
{
    let idx = encode_u32(export_index(export.desc));
    assert(encode_export(export) + tail =~= encode_name(export.name) + (seq![0x00u8] + (idx
        + tail)));
    lemma_name_round_trip(export.name, seq![0x00u8] + (idx + tail));
    lemma_byte(0x00u8, idx + tail);
    lemma_u32_round_trip(export_index(export.desc), tail);
}

/// The encoding of exports, one after the other.
pub open spec fn encode_exports(exports: Seq<ExportView>) -> Seq<u8>
    decreases exports.len(),
{
    if exports.len() == 0 {
        Seq::empty()
    } else {
        encode_export(exports[0]) + encode_exports(exports.drop_first())
    }
}

/// Decoding the encoding of exports gives them, after what was read before.
pub proof fn lemma_exports_round_trip(exports: Seq<ExportView>, tail: Seq<u8>, acc: Seq<ExportView>)
    requires
        forall|i: int| 0 <= i < exports.len() ==> encodable_export(exports[i]),
    ensures
        exports_spec(encode_exports(exports) + tail, exports.len(), acc) == Ok::<
            (Seq<ExportView>, Seq<u8>),
            DecodeError,
        >((acc + exports, tail)),
    decreases exports.len(),
{
    if exports.len() == 0 {
        assert(encode_exports(exports) + tail =~= tail);
        assert(acc + exports =~= acc);
    } else {
        let rest = exports.drop_first();
        assert(encode_exports(exports) + tail =~= encode_export(exports[0]) + (encode_exports(rest)
            + tail));
        lemma_export_round_trip(exports[0], encode_exports(rest) + tail);
        lemma_exports_round_trip(rest, tail, acc.push(exports[0]));
        assert(acc.push(exports[0]) + rest =~= acc + exports);
    }
}

/// An export section that the format can hold.
pub open spec fn encodable_export_section(exports: Seq<ExportView>) -> bool {
    fits_u32(exports.len()) && forall|i: int|
        0 <= i < exports.len() ==> encodable_export(exports[i])
}

/// The encoding of the export section.
pub open spec fn encode_export_section(exports: Seq<ExportView>) -> Seq<u8> {
    encode_u32(exports.len() as u32) + encode_exports(exports)
}

/// Decoding the encoding of an export section gives the section.
pub proof fn lemma_export_section_round_trip(exports: Seq<ExportView>, tail: Seq<u8>)
    requires
        encodable_export_section(exports),
    ensures
        export_section_spec(encode_export_section(exports) + tail) == Ok::<
            (Seq<ExportView>, Seq<u8>),
            DecodeError,
        >((exports, tail)),
{
    assert(encode_export_section(exports) + tail =~= encode_u32(exports.len() as u32) + (
    encode_exports(exports) + tail));
    lemma_u32_round_trip(exports.len() as u32, encode_exports(exports) + tail);
    lemma_exports_round_trip(exports, tail, Seq::empty());
    assert(Seq::<ExportView>::empty() + exports =~= exports);
}

/// An import whose names the format can hold.
pub open spec fn encodable_import(import: ImportView) -> bool {
    fits_u32(encode_utf8(import.module).len()) && fits_u32(encode_utf8(import.field).len())
}

/// The index of the type of the function that an import asks for.
pub open spec fn import_index(desc: ImportDesc) -> u32 {
    match desc {
        ImportDesc::Func(idx) => idx,
    }
}

/// The encoding of an import: its two names, the kind of a function, the
/// type index.
pub open spec fn encode_import(import: ImportView) -> Seq<u8> {
    encode_name(import.module) + encode_name(import.field) + seq![0x00u8] + encode_u32(
        import_index(import.desc),
    )
}

/// Decoding the encoding of an import gives the import.
pub proof fn lemma_import_round_trip(import: ImportView, tail: Seq<u8>)
    requires
        encodable_import(import),
    ensures
        import_spec(encode_import(import) + tail) == Ok::<(ImportView, Seq<u8>), DecodeError>(
            (import, tail),
        ),
{
    let idx = encode_u32(import_index(import.desc));
    let field = encode_name(import.field);
    assert(encode_import(import) + tail =~= encode_name(import.module) + (field + (seq![0x00u8]
        + (idx + tail))));
    lemma_name_round_trip(import.module, field + (seq![0x00u8] + (idx + tail)));
    lemma_name_round_trip(import.field, seq![0x00u8] + (idx + tail));
    lemma_byte(0x00u8, idx + tail);
    lemma_u32_round_trip(import_index(import.desc), tail);
}

/// The encoding of imports, one after the other.
pub open spec fn encode_imports(imports: Seq<ImportView>) -> Seq<u8>
    decreases imports.len(),
{
    if imports.len() == 0 {
        Seq::empty()
    } else {
        encode_import(imports[0]) + encode_imports(imports.drop_first())
    }
}

/// Decoding the encoding of imports gives them, after what was read before.
pub proof fn lemma_imports_round_trip(imports: Seq<ImportView>, tail: Seq<u8>, acc: Seq<ImportView>)
    requires
        forall|i: int| 0 <= i < imports.len() ==> encodable_import(imports[i]),
    ensures
        imports_spec(encode_imports(imports) + tail, imports.len(), acc) == Ok::<
            (Seq<ImportView>, Seq<u8>),
            DecodeError,
        >((acc + imports, tail)),
    decreases imports.len(),
{
    if imports.len() == 0 {
        assert(encode_imports(imports) + tail =~= tail);
        assert(acc + imports =~= acc);
    } else {
        let rest = imports.drop_first();
        assert(encode_imports(imports) + tail =~= encode_import(imports[0]) + (encode_imports(rest)
            + tail));
        lemma_import_round_trip(imports[0], encode_imports(rest) + tail);
        lemma_imports_round_trip(rest, tail, acc.push(imports[0]));
        assert(acc.push(imports[0]) + rest =~= acc + imports);
    }
}

/// An import section that the format can hold.
pub open spec fn encodable_import_section(imports: Seq<ImportView>) -> bool {
    fits_u32(imports.len()) && forall|i: int|
        0 <= i < imports.len() ==> encodable_import(imports[i])
}

/// The encoding of the import section.
pub open spec fn encode_import_section(imports: Seq<ImportView>) -> Seq<u8> {
    encode_u32(imports.len() as u32) + encode_imports(imports)
}

/// Decoding the encoding of an import section gives the section.
pub proof fn lemma_import_section_round_trip(imports: Seq<ImportView>, tail: Seq<u8>)
    requires
        encodable_import_section(imports),
    ensures
        import_section_spec(encode_import_section(imports) + tail) == Ok::<
            (Seq<ImportView>, Seq<u8>),
            DecodeError,
        >((imports, tail)),
{
    assert(encode_import_section(imports) + tail =~= encode_u32(imports.len() as u32) + (
    encode_imports(imports) + tail));
    lemma_u32_round_trip(imports.len() as u32, encode_imports(imports) + tail);
    lemma_imports_round_trip(imports, tail, Seq::empty());
    assert(Seq::<ImportView>::empty() + imports =~= imports);
}

/// The encoding of limits: the flag 0 and the minimum, or the flag 1, the
/// minimum and the maximum.
pub open spec fn encode_limits(limits: Limits) -> Seq<u8> {
    match limits.max {
        None => encode_u32(0) + encode_u32(limits.min),
        Some(max) => encode_u32(1) + encode_u32(limits.min) + encode_u32(max),
    }
}

/// Decoding the encoding of limits gives the limits.
pub proof fn lemma_limits_round_trip(limits: Limits, tail: Seq<u8>)
    ensures
        limits_spec(encode_limits(limits) + tail) == Ok::<(Limits, Seq<u8>), DecodeError>(
            (limits, tail),
        ),
{
    match limits.max {
        None => {
            assert(encode_limits(limits) + tail =~= encode_u32(0) + (encode_u32(limits.min)
                + tail));
            lemma_u32_round_trip(0, encode_u32(limits.min) + tail);
            lemma_u32_round_trip(limits.min, tail);
        },
        Some(max) => {
            assert(encode_limits(limits) + tail =~= encode_u32(1) + (encode_u32(limits.min) + (
            encode_u32(max) + tail)));
            lemma_u32_round_trip(1, encode_u32(limits.min) + (encode_u32(max) + tail));
            lemma_u32_round_trip(limits.min, encode_u32(max) + tail);
            lemma_u32_round_trip(max, tail);
        },
    }
}

/// The encoding of the memory section of one memory.
pub open spec fn encode_memory_section(memory: Memory) -> Seq<u8> {
    encode_u32(1) + encode_limits(memory.limits)
}

/// Decoding the encoding of a memory section gives the memory.
pub proof fn lemma_memory_section_round_trip(memory: Memory, tail: Seq<u8>)
    ensures
        memory_section_spec(encode_memory_section(memory) + tail) == Ok::<
            (Memory, Seq<u8>),
            DecodeError,
        >((memory, tail)),
{
    assert(encode_memory_section(memory) + tail =~= encode_u32(1) + (encode_limits(memory.limits)
        + tail));
    lemma_u32_round_trip(1, encode_limits(memory.limits) + tail);
    lemma_limits_round_trip(memory.limits, tail);
}

/// The encoding of the offset of a data segment: `i32.const`, the offset, `end`.
pub open spec fn encode_expr(offset: i32) -> Seq<u8> {
    seq![0x41u8] + encode_i32(offset) + seq![0x0Bu8]
}

/// Decoding the encoding of an offset gives the offset.
pub proof fn lemma_expr_round_trip(offset: i32, tail: Seq<u8>)
    ensures
        expr_spec(encode_expr(offset) + tail) == Ok::<(i32, Seq<u8>), DecodeError>((offset, tail)),
{
    assert(encode_expr(offset) + tail =~= seq![0x41u8] + (encode_i32(offset) + (seq![0x0Bu8]
        + tail)));
    lemma_byte(0x41u8, encode_i32(offset) + (seq![0x0Bu8] + tail));
    lemma_i32_round_trip(offset, seq![0x0Bu8] + tail);
    lemma_byte(0x0Bu8, tail);
}

/// A data segment whose bytes the format can hold.
pub open spec fn encodable_data(data: DataView) -> bool {
    fits_u32(data.init.len())
}

/// The encoding of a data segment: the memory index, the offset, the number
/// of bytes, the bytes.
pub open spec fn encode_data(data: DataView) -> Seq<u8> {
    encode_u32(data.memory_index) + encode_expr(data.offset) + encode_u32(data.init.len() as u32)
        + data.init
}

/// Decoding the encoding of a data segment gives the segment.
pub proof fn lemma_data_round_trip(data: DataView, tail: Seq<u8>)
    requires
        encodable_data(data),
    ensures
        data_spec(encode_data(data) + tail) == Ok::<(DataView, Seq<u8>), DecodeError>(
            (data, tail),
        ),
{
    let size = encode_u32(data.init.len() as u32);
    let expr = encode_expr(data.offset);
    assert(encode_data(data) + tail =~= encode_u32(data.memory_index) + (expr + (size + (data.init
        + tail))));
    lemma_u32_round_trip(data.memory_index, expr + (size + (data.init + tail)));
    lemma_expr_round_trip(data.offset, size + (data.init + tail));
    lemma_u32_round_trip(data.init.len() as u32, data.init + tail);
    lemma_take(data.init, tail);
}

/// The encoding of data segments, one after the other.
pub open spec fn encode_datas(segments: Seq<DataView>) -> Seq<u8>
    decreases segments.len(),
{
    if segments.len() == 0 {
        Seq::empty()
    } else {
        encode_data(segments[0]) + encode_datas(segments.drop_first())
    }
}

/// Decoding the encoding of data segments gives them, after what was read before.
#[verifier::rlimit(40)]
pub proof fn lemma_datas_round_trip(segments: Seq<DataView>, tail: Seq<u8>, acc: Seq<DataView>)
    requires
        forall|i: int| 0 <= i < segments.len() ==> encodable_data(segments[i]),
    ensures
        datas_spec(encode_datas(segments) + tail, segments.len(), acc) == Ok::<
            (Seq<DataView>, Seq<u8>),
            DecodeError,
        >((acc + segments, tail)),
    decreases segments.len(),
{
    if segments.len() == 0 {
        assert(encode_datas(segments) + tail =~= tail);
        assert(acc + segments =~= acc);
    } else {
        let rest = segments.drop_first();
        assert(encode_datas(segments) + tail =~= encode_data(segments[0]) + (encode_datas(rest)
            + tail));
        lemma_data_round_trip(segments[0], encode_datas(rest) + tail);
        lemma_datas_round_trip(rest, tail, acc.push(segments[0]));
        assert(acc.push(segments[0]) + rest =~= acc + segments);
    }
}

/// A data section that the format can hold.
pub open spec fn encodable_data_section(segments: Seq<DataView>) -> bool {
    fits_u32(segments.len()) && forall|i: int|
        0 <= i < segments.len() ==> encodable_data(segments[i])
}

/// The encoding of the data section.
pub open spec fn encode_data_section(segments: Seq<DataView>) -> Seq<u8> {
    encode_u32(segments.len() as u32) + encode_datas(segments)
}

/// Decoding the encoding of a data section gives the section.
pub proof fn lemma_data_section_round_trip(segments: Seq<DataView>, tail: Seq<u8>)
    requires
        encodable_data_section(segments),
    ensures
        data_section_spec(encode_data_section(segments) + tail) == Ok::<
            (Seq<DataView>, Seq<u8>),
            DecodeError,
        >((segments, tail)),
{
    assert(encode_data_section(segments) + tail =~= encode_u32(segments.len() as u32) + (
    encode_datas(segments) + tail));
    lemma_u32_round_trip(segments.len() as u32, encode_datas(segments) + tail);
    lemma_datas_round_trip(segments, tail, Seq::empty());
    assert(Seq::<DataView>::empty() + segments =~= segments);
}

/// The module has the section of the given kind.
pub open spec fn has_section(module: ModuleView, code: SectionCode) -> bool {
    match code {
        SectionCode::Custom => false,
        SectionCode::Type => module.type_section is Some,
        SectionCode::Import => module.import_section is Some,
        SectionCode::Function => module.function_section is Some,
        SectionCode::Memory => module.memory_section is Some,
        SectionCode::Export => module.export_section is Some,
        SectionCode::Code => module.code_section is Some,
        SectionCode::Data => module.data_section is Some,
    }
}

/// The encoding of the body of the module's section of the given kind.
pub open spec fn encode_section_body(module: ModuleView, code: SectionCode) -> Seq<u8> {
    match code {
        SectionCode::Custom => Seq::empty(),
        SectionCode::Type => encode_type_section(module.type_section->0),
        SectionCode::Import => encode_import_section(module.import_section->0),
        SectionCode::Function => encode_function_section(module.function_section->0),
        SectionCode::Memory => encode_memory_section(module.memory_section->0[0]),
        SectionCode::Export => encode_export_section(module.export_section->0),
        SectionCode::Code => encode_code_section(module.code_section->0),
        SectionCode::Data => encode_data_section(module.data_section->0),
    }
}

/// The format can hold the module's section of the given kind: its vectors
/// and names, and the body as a whole, are of lengths that fit 32 bits, and
/// a memory section declares one memory.
pub open spec fn encodable_section(module: ModuleView, code: SectionCode) -> bool {
    &&& fits_u32(encode_section_body(module, code).len())
    &&& match code {
        SectionCode::Custom => true,
        SectionCode::Type => encodable_type_section(module.type_section->0),
        SectionCode::Import => encodable_import_section(module.import_section->0),
        SectionCode::Function => fits_u32(module.function_section->0.len()),
        SectionCode::Memory => module.memory_section->0.len() == 1,
        SectionCode::Export => encodable_export_section(module.export_section->0),
        SectionCode::Code => encodable_code_section(module.code_section->0),
        SectionCode::Data => encodable_data_section(module.data_section->0),
    }
}

/// The encoding of the module's section of the given kind: the id, the
/// size of the body, the body.
pub open spec fn encode_section(module: ModuleView, code: SectionCode) -> Seq<u8> {
    seq![code.spec_id()] + encode_u32(encode_section_body(module, code).len() as u32)
        + encode_section_body(module, code)
}

/// The encoding of the module's sections of the given kinds, in that order.
pub open spec fn encode_sections(module: ModuleView, order: Seq<SectionCode>) -> Seq<u8>
    decreases order.len(),
{
    if order.len() == 0 {
        Seq::empty()
    } else {
        encode_section(module, order[0]) + encode_sections(module, order.drop_first())
    }
}

/// A 32-bit number in four bytes, least significant first.
pub open spec fn encode_le_u32(value: u32) -> Seq<u8> {
    seq![
        (value % 0x100) as u8,
        (value / 0x100 % 0x100) as u8,
        (value / 0x1_0000 % 0x100) as u8,
        (value / 0x100_0000 % 0x100) as u8,
    ]
}

/// The image of a module whose sections stand in the given order: the
/// magic bytes, the version, the sections.
pub open spec fn encode_module(module: ModuleView, order: Seq<SectionCode>) -> Seq<u8> {
    magic_bytes() + encode_le_u32(module.version) + encode_sections(module, order)
}

/// The one module with the section of the given kind taken from the other.
pub open spec fn with_section(module: ModuleView, from: ModuleView, code: SectionCode) -> ModuleView {
    match code {
        SectionCode::Custom => module,
        SectionCode::Type => ModuleView { type_section: from.type_section, ..module },
        SectionCode::Import => ModuleView { import_section: from.import_section, ..module },
        SectionCode::Function => ModuleView { function_section: from.function_section, ..module },
        SectionCode::Memory => ModuleView { memory_section: from.memory_section, ..module },
        SectionCode::Export => ModuleView { export_section: from.export_section, ..module },
        SectionCode::Code => ModuleView { code_section: from.code_section, ..module },
        SectionCode::Data => ModuleView { data_section: from.data_section, ..module },
    }
}

/// The one module with the sections of the given kinds taken from the
/// other, one after the other.
pub open spec fn with_sections(module: ModuleView, from: ModuleView, order: Seq<SectionCode>) -> ModuleView
    decreases order.len(),
{
    if order.len() == 0 {
        module
    } else {
        with_sections(with_section(module, from, order[0]), from, order.drop_first())
    }
}

/// The order names sections that the module has and the format can hold.
pub open spec fn encodable_in(module: ModuleView, order: Seq<SectionCode>) -> bool {
    forall|i: int|
        0 <= i < order.len() ==> has_section(module, #[trigger] order[i]) && encodable_section(
            module,
            order[i],
        )
}

/// The order names every section that the module has, and no other.
pub open spec fn lists_sections(module: ModuleView, order: Seq<SectionCode>) -> bool {
    forall|code: SectionCode| #[trigger] order.contains(code) <==> has_section(module, code)
}

/// Reading the encoding of one section of a module into another module
/// gives that module with the section of the first.
pub proof fn lemma_section_round_trip(
    module: ModuleView,
    code: SectionCode,
    tail: Seq<u8>,
    into: ModuleView,
)
    requires
        has_section(module, code),
        encodable_section(module, code),
    ensures
        next_section_spec(encode_section(module, code) + tail, into) == Ok::<
            (ModuleView, Seq<u8>),
            DecodeError,
        >((with_section(into, module, code), tail)),
{
    let body = encode_section_body(module, code);
    let size = encode_u32(body.len() as u32);
    assert(encode_section(module, code) + tail =~= seq![code.spec_id()] + (size + (body + tail)));
    lemma_byte(code.spec_id(), size + (body + tail));
    lemma_u32_round_trip(body.len() as u32, body + tail);
    lemma_take(body, tail);
    assert(body + Seq::<u8>::empty() =~= body);
    match code {
        SectionCode::Custom => {},
        SectionCode::Type => {
            lemma_type_section_round_trip(module.type_section->0, Seq::empty());
        },
        SectionCode::Import => {
            lemma_import_section_round_trip(module.import_section->0, Seq::empty());
        },
        SectionCode::Function => {
            lemma_function_section_round_trip(module.function_section->0, Seq::empty());
        },
        SectionCode::Memory => {
            lemma_memory_section_round_trip(module.memory_section->0[0], Seq::empty());
            assert(module.memory_section->0 =~= seq![module.memory_section->0[0]]);
        },
        SectionCode::Export => {
            lemma_export_section_round_trip(module.export_section->0, Seq::empty());
        },
        SectionCode::Code => {
            lemma_code_section_round_trip(module.code_section->0, Seq::empty());
        },
        SectionCode::Data => {
            lemma_data_section_round_trip(module.data_section->0, Seq::empty());
        },
    }
}

/// Reading the encoding of sections of a module into another module gives
/// that module with those sections of the first.
pub proof fn lemma_sections_round_trip(
    module: ModuleView,
    order: Seq<SectionCode>,
    into: ModuleView,
)
    requires
        encodable_in(module, order),
    ensures
        sections_spec(encode_sections(module, order), into) == Ok::<ModuleView, DecodeError>(
            with_sections(into, module, order),
        ),
    decreases order.len(),
{
    if order.len() == 0 {
    } else {
        let rest = order.drop_first();
        assert(has_section(module, order[0]) && encodable_section(module, order[0]));
        assert forall|i: int| 0 <= i < rest.len() implies has_section(module, #[trigger] rest[i])
            && encodable_section(module, rest[i]) by {
            assert(rest[i] == order[i + 1]);
        }
        lemma_section_round_trip(module, order[0], encode_sections(module, rest), into);
        lemma_sections_round_trip(module, rest, with_section(into, module, order[0]));
        assert(encode_section(module, order[0]).len() >= 1);
    }
}

/// Taking the sections named in an order from a module leaves the other
/// sections, the magic bytes and the version as they were.
pub proof fn lemma_with_sections(module: ModuleView, from: ModuleView, order: Seq<SectionCode>)
    ensures
        ({
            let merged = with_sections(module, from, order);
            &&& merged.magic == module.magic
            &&& merged.version == module.version
            &&& merged.type_section == if order.contains(SectionCode::Type) {
                from.type_section
            } else {
                module.type_section
            }
            &&& merged.import_section == if order.contains(SectionCode::Import) {
                from.import_section
            } else {
                module.import_section
            }
            &&& merged.function_section == if order.contains(SectionCode::Function) {
                from.function_section
            } else {
                module.function_section
            }
            &&& merged.memory_section == if order.contains(SectionCode::Memory) {
                from.memory_section
            } else {
                module.memory_section
            }
            &&& merged.export_section == if order.contains(SectionCode::Export) {
                from.export_section
            } else {
                module.export_section
            }
            &&& merged.code_section == if order.contains(SectionCode::Code) {
                from.code_section
            } else {
                module.code_section
            }
            &&& merged.data_section == if order.contains(SectionCode::Data) {
                from.data_section
            } else {
                module.data_section
            }
        }),
    decreases order.len(),
{
    if order.len() == 0 {
    } else {
        let rest = order.drop_first();
        lemma_with_sections(with_section(module, from, order[0]), from, rest);
        assert forall|code: SectionCode| order.contains(code) <==> (code == order[0]
            || rest.contains(code)) by {
            if order.contains(code) {
                let i = choose|i: int| 0 <= i < order.len() && order[i] == code;
                if i > 0 {
                    assert(rest[i - 1] == code);
                }
            }
            if rest.contains(code) {
                let i = choose|i: int| 0 <= i < rest.len() && rest[i] == code;
                assert(order[i + 1] == code);
            }
            if code == order[0] {
                assert(order[0] == code);
            }
        }
    }
}

/// An image is read as its version and its sections.
pub proof fn lemma_image_round_trip(version: u32, sections: Seq<u8>)
    ensures
        module_spec(magic_bytes() + encode_le_u32(version) + sections) == sections_spec(
            sections,
            empty_module(version),
        ),
{
    let image = magic_bytes() + encode_le_u32(version) + sections;
    let bytes = encode_le_u32(version);
    assert(image.take(4) =~= magic_bytes());
    assert(image.skip(4) =~= bytes + sections);
    lemma_le_u32_round_trip(version, sections);
}

/// Four bytes, least significant first, are read as the number they encode.
pub proof fn lemma_le_u32_round_trip(value: u32, tail: Seq<u8>)
    ensures
        le_u32_spec(encode_le_u32(value) + tail) == Ok::<(u32, Seq<u8>), DecodeError>(
            (value, tail),
        ),
{
    let bytes = encode_le_u32(value);
    assert((bytes + tail).skip(4) =~= tail);
    assert(le_u32_value(bytes[0], bytes[1], bytes[2], bytes[3]) == value);
}

/// The module without sections, with every section of a module taken from
/// it, is that module.
pub proof fn lemma_all_sections_taken(module: ModuleView, order: Seq<SectionCode>)
    requires
        module.magic == "\0asm"@,
        lists_sections(module, order),
    ensures
        with_sections(empty_module(module.version), module, order) == module,
{
    lemma_with_sections(empty_module(module.version), module, order);
    assert(order.contains(SectionCode::Type) <==> has_section(module, SectionCode::Type));
    assert(order.contains(SectionCode::Import) <==> has_section(module, SectionCode::Import));
    assert(order.contains(SectionCode::Function) <==> has_section(module, SectionCode::Function));
    assert(order.contains(SectionCode::Memory) <==> has_section(module, SectionCode::Memory));
    assert(order.contains(SectionCode::Export) <==> has_section(module, SectionCode::Export));
    assert(order.contains(SectionCode::Code) <==> has_section(module, SectionCode::Code));
    assert(order.contains(SectionCode::Data) <==> has_section(module, SectionCode::Data));
}

/// Decoding gives back every module that the format can hold, from its
/// image, in whatever order the sections stand there: the image is the
/// magic bytes, the version and, for each section that the module has, its
/// id, the size of its body and the body, with every integer in its
/// shortest encoding. So the image of the decoded module is the image that
/// was decoded, and two images of one module differ in the order of their
/// sections alone.
pub proof fn decoding_inverts_encoding(module: ModuleView, order: Seq<SectionCode>)
    requires
        module.magic == "\0asm"@,
        lists_sections(module, order),
        encodable_in(module, order),
    ensures
        module_spec(encode_module(module, order)) == Ok::<ModuleView, DecodeError>(module),
{
    lemma_image_round_trip(module.version, encode_sections(module, order));
    lemma_sections_round_trip(module, order, empty_module(module.version));
    lemma_all_sections_taken(module, order);
}

/// An image that is the encoding of a module: decoding it and encoding
/// what was decoded, with the sections in the order in which they stand in
/// the image, gives the image again, byte for byte. With the sections in
/// another order it gives an image of the same module.
pub proof fn encoding_inverts_decoding(
    image: Seq<u8>,
    module: ModuleView,
    order: Seq<SectionCode>,
    other: Seq<SectionCode>,
)
    requires
        image == encode_module(module, order),
        module.magic == "\0asm"@,
        lists_sections(module, order),
        encodable_in(module, order),
        lists_sections(module, other),
        encodable_in(module, other),
    ensures
        module_spec(image) matches Ok(decoded) && encode_module(decoded, order) == image
            && module_spec(encode_module(decoded, other)) == Ok::<ModuleView, DecodeError>(
            decoded,
        ),
{
    decoding_inverts_encoding(module, order);
    decoding_inverts_encoding(module, other);
}

} // verus!
