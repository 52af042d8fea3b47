use super::error::{DecodeError, DecodeErrorKind};
use super::format::{
    block_spec, code_entries_spec, code_entry_spec, code_section_spec, data_section_spec,
    data_spec, datas_spec, export_section_spec, export_spec, exports_spec, expr_spec,
    func_type_spec, func_types_spec, function_body_spec, function_section_spec,
    import_section_spec, import_spec, imports_spec, indices_spec, instruction_spec,
    instructions_spec, lemma_instruction_advances, limits_spec, local_spec, locals_spec,
    lossy_utf8, memory_section_spec, name_spec, section_header_spec, type_section_spec,
    value_type_spec, value_type_vec_spec, value_types_spec,
};
use super::instruction::Instruction;
use super::leb128::{decode_i32, decode_u32};
use super::opcode::Opcode;
use super::reader::{
    byte, failure, le_u32, le_u32_spec, lemma_views_push, outward, reads, reads_seq, reads_view,
    reads_views, take, take_spec,
};
use super::section::{Function, FunctionView, SectionCode};
use super::types::{
    views, Block, BlockType, Data, DataView, Export, ExportDesc, ExportView, FuncType,
    FuncTypeView, FunctionLocal, Import, ImportDesc, ImportView, Limits, Memory, ValueType,
};
use vstd::prelude::*;
use vstd::slice::{slice_subrange, slice_to_vec};
use vstd::utf8::{decode_utf8, valid_utf8};

verus! {

/// A decoded module: the sections that were present, each as it was read.
#[derive(Debug, PartialEq, Eq)]
pub struct Module {
    pub magic: String,
    pub version: u32,
    pub memory_section: Option<Vec<Memory>>,
    pub data_section: Option<Vec<Data>>,
    pub type_section: Option<Vec<FuncType>>,
    pub function_section: Option<Vec<u32>>,
    pub code_section: Option<Vec<Function>>,
    pub export_section: Option<Vec<Export>>,
    pub import_section: Option<Vec<Import>>,
}

/// What the contracts say of a [`Module`].
pub struct ModuleView {
    pub magic: Seq<char>,
    pub version: u32,
    pub memory_section: Option<Seq<Memory>>,
    pub data_section: Option<Seq<DataView>>,
    pub type_section: Option<Seq<FuncTypeView>>,
    pub function_section: Option<Seq<u32>>,
    pub code_section: Option<Seq<FunctionView>>,
    pub export_section: Option<Seq<ExportView>>,
    pub import_section: Option<Seq<ImportView>>,
}

/// The items of an optional vector.
pub open spec fn opt_seq<T>(section: Option<Vec<T>>) -> Option<Seq<T>> {
    match section {
        Some(items) => Some(items@),
        None => None,
    }
}

/// The views of the items of an optional vector.
pub open spec fn opt_views<T: View>(section: Option<Vec<T>>) -> Option<Seq<T::V>> {
    match section {
        Some(items) => Some(views(items@)),
        None => None,
    }
}

impl View for Module {
    type V = ModuleView;

    open spec fn view(&self) -> ModuleView {
        ModuleView {
            magic: self.magic@,
            version: self.version,
            memory_section: opt_seq(self.memory_section),
            data_section: opt_views(self.data_section),
            type_section: opt_views(self.type_section),
            function_section: opt_seq(self.function_section),
            code_section: opt_views(self.code_section),
            export_section: opt_views(self.export_section),
            import_section: opt_views(self.import_section),
        }
    }
}

/// The module without sections, of the given version.
pub open spec fn empty_module(version: u32) -> ModuleView {
    ModuleView {
        magic: "\0asm"@,
        version,
        memory_section: None,
        data_section: None,
        type_section: None,
        function_section: None,
        code_section: None,
        export_section: None,
        import_section: None,
    }
}

impl Default for Module {
    /// The module without sections, of version 1.
    fn default() -> (module: Module)
        ensures
            module@ == empty_module(1),
    {
        Module {
            magic: String::from_str("\0asm"),
            version: 1,
            memory_section: None,
            data_section: None,
            type_section: None,
            function_section: None,
            code_section: None,
            export_section: None,
            import_section: None,
        }
    }
}

/// The four bytes that start every module.
pub open spec fn magic_bytes() -> Seq<u8> {
    seq![0x00u8, 0x61u8, 0x73u8, 0x6du8]
}

/// The module after one more section: the section read from `body` takes the
/// place of an earlier one of the same kind. A custom section, and one that
/// the decoder does not read, leave the module as it is.
pub open spec fn section_spec(code: Option<SectionCode>, body: Seq<u8>, module: ModuleView) -> Result<
    ModuleView,
    DecodeError,
> {
    match code {
        None => Ok(module),
        Some(SectionCode::Custom) => Ok(module),
        Some(SectionCode::Memory) => match memory_section_spec(body) {
            Err(e) => Err(e),
            Ok((memory, _)) => Ok(ModuleView { memory_section: Some(seq![memory]), ..module }),
        },
        Some(SectionCode::Data) => match data_section_spec(body) {
            Err(e) => Err(e),
            Ok((data, _)) => Ok(ModuleView { data_section: Some(data), ..module }),
        },
        Some(SectionCode::Type) => match type_section_spec(body) {
            Err(e) => Err(e),
            Ok((types, _)) => Ok(ModuleView { type_section: Some(types), ..module }),
        },
        Some(SectionCode::Function) => match function_section_spec(body) {
            Err(e) => Err(e),
            Ok((indices, _)) => Ok(ModuleView { function_section: Some(indices), ..module }),
        },
        Some(SectionCode::Code) => match code_section_spec(body) {
            Err(e) => Err(e),
            Ok((functions, _)) => Ok(ModuleView { code_section: Some(functions), ..module }),
        },
        Some(SectionCode::Export) => match export_section_spec(body) {
            Err(e) => Err(e),
            Ok((exports, _)) => Ok(ModuleView { export_section: Some(exports), ..module }),
        },
        Some(SectionCode::Import) => match import_section_spec(body) {
            Err(e) => Err(e),
            Ok((imports, _)) => Ok(ModuleView { import_section: Some(imports), ..module }),
        },
    }
}

/// One section off the front of `input`, read into `module`: the header, then
/// exactly as many bytes of body as the header says.
pub open spec fn next_section_spec(input: Seq<u8>, module: ModuleView) -> Result<
    (ModuleView, Seq<u8>),
    DecodeError,
> {
    match section_header_spec(input) {
        Err(e) => Err(e),
        Ok(((code, size), rest)) => match take_spec(rest, size as nat) {
            Err(e) => Err(e),
            Ok((body, rest)) => match section_spec(code, body, module) {
                Err(e) => Err(outward(e, rest.len())),
                Ok(module) => Ok((module, rest)),
            },
        },
    }
}

/// A section takes at least the two bytes of its header.
pub proof fn lemma_section_advances(input: Seq<u8>, module: ModuleView)
    ensures
        next_section_spec(input, module) matches Ok((_, rest)) ==> rest.len() < input.len(),
{
    if input.len() > 0 {
        super::leb128::lemma_scan_len(input.skip(1), 5);
    }
}

/// The sections that fill `input` to its end, read into `module` one after
/// the other.
pub open spec fn sections_spec(input: Seq<u8>, module: ModuleView) -> Result<
    ModuleView,
    DecodeError,
>
    decreases input.len(),
{
    if input.len() == 0 {
        Ok(module)
    } else {
        match next_section_spec(input, module) {
            Err(e) => Err(e),
            Ok((module, rest)) => {
                proof {
                    lemma_section_advances(input, module);
                }
                sections_spec(rest, module)
            },
        }
    }
}

/// A whole module image: the magic bytes, the version in four bytes, and
/// sections to the end.
pub open spec fn module_spec(input: Seq<u8>) -> Result<ModuleView, DecodeError> {
    if !(input.len() >= 4 && input.take(4) == magic_bytes()) {
        Err(DecodeError { kind: DecodeErrorKind::BadMagic, remaining: input.len() as usize })
    } else {
        match le_u32_spec(input.skip(4)) {
            Err(e) => Err(e),
            Ok((version, rest)) => sections_spec(rest, empty_module(version)),
        }
    }
}

impl Module {
    /// Decodes a module image.
    pub fn new(input: &[u8]) -> (r: Result<Module, DecodeError>)
        ensures
            match r {
                Ok(module) => module_spec(input@) == Ok::<ModuleView, DecodeError>(module@),
                Err(e) => module_spec(input@) == Err::<ModuleView, DecodeError>(e),
            },
    {
        Module::decode(input)
    }

    /// Decodes a module image: checks the magic bytes, reads the version, then
    /// reads section after section until the input ends.
    pub fn decode(input: &[u8]) -> (r: Result<Module, DecodeError>)
        ensures
            match r {
                Ok(module) => module_spec(input@) == Ok::<ModuleView, DecodeError>(module@),
                Err(e) => module_spec(input@) == Err::<ModuleView, DecodeError>(e),
            },
    {
        if !(input.len() >= 4 && input[0] == 0x00 && input[1] == 0x61 && input[2] == 0x73
            && input[3] == 0x6d) {
            assert(input@.len() >= 4 ==> input@.take(4)[0] == input@[0] && input@.take(4)[1]
                == input@[1] && input@.take(4)[2] == input@[2] && input@.take(4)[3] == input@[3]);
            return Err(failure(DecodeErrorKind::BadMagic, input));
        }
        assert(input@.take(4) =~= magic_bytes());
        let after_magic = slice_subrange(input, 4, input.len());
        let (after_version, version) = le_u32(after_magic)?;

        let module = Module {
            magic: String::from_str("\0asm"),
            version,
            memory_section: None,
            data_section: None,
            type_section: None,
            function_section: None,
            code_section: None,
            export_section: None,
            import_section: None,
        };
        decode_sections(after_version, module)
    }
}

/// Reads sections into the module until the input ends.
pub fn decode_sections(input: &[u8], module: Module) -> (r: Result<Module, DecodeError>)
    ensures
        match r {
            Ok(last) => sections_spec(input@, module@) == Ok::<ModuleView, DecodeError>(last@),
            Err(e) => sections_spec(input@, module@) == Err::<ModuleView, DecodeError>(e)
                && e.remaining <= input@.len(),
        },
{
    let mut current = module;
    let mut remaining = input;
    while remaining.len() > 0
        invariant
            remaining@.len() <= input@.len(),
            sections_spec(input@, module@) == sections_spec(remaining@, current@),
        decreases remaining@.len(),
    {
        proof {
            lemma_section_advances(remaining@, current@);
        }
        let (rest, next) = decode_next_section(remaining, current)?;
        current = next;
        remaining = rest;
    }
    Ok(current)
}

/// Reads one section off the front of the input into the module.
pub fn decode_next_section(input: &[u8], module: Module) -> (r: Result<
    (&[u8], Module),
    DecodeError,
>)
    ensures
        match r {
            Ok((rest, next)) => next_section_spec(input@, module@) == Ok::<
                (ModuleView, Seq<u8>),
                DecodeError,
            >((next@, rest@)) && rest@.len() <= input@.len(),
            Err(e) => next_section_spec(input@, module@) == Err::<
                (ModuleView, Seq<u8>),
                DecodeError,
            >(e) && e.remaining <= input@.len(),
        },
{
    let (after_header, (code, size)) = decode_section_header(input)?;
    let (rest, section_contents) = take(after_header, size)?;
    match decode_section(code, section_contents, module) {
        Ok(next) => Ok((rest, next)),
        Err(e) => {
            assert(after_header@.len() == after_header.len());
            Err(carry_outward(e, rest))
        },
    }
}

/// Reads the body of one section into the module.
pub fn decode_section(code: Option<SectionCode>, section_contents: &[u8], module: Module) -> (r:
    Result<Module, DecodeError>)
    ensures
        match r {
            Ok(next) => section_spec(code, section_contents@, module@) == Ok::<
                ModuleView,
                DecodeError,
            >(next@),
            Err(e) => section_spec(code, section_contents@, module@) == Err::<
                ModuleView,
                DecodeError,
            >(e) && e.remaining <= section_contents@.len(),
        },
{
    let mut module = module;
    match code {
        None => {},
        Some(SectionCode::Custom) => {},
        Some(SectionCode::Memory) => {
            let (_, memory) = decode_memory_section(section_contents)?;
            let memories = vec![memory];
            assert(memories@ =~= seq![memory]);
            module.memory_section = Some(memories);
        },
        Some(SectionCode::Data) => {
            let (_, data) = decode_data_section(section_contents)?;
            module.data_section = Some(data);
        },
        Some(SectionCode::Type) => {
            let (_, types) = decode_type_section(section_contents)?;
            module.type_section = Some(types);
        },
        Some(SectionCode::Function) => {
            let (_, func_idx_list) = decode_function_section(section_contents)?;
            module.function_section = Some(func_idx_list);
        },
        Some(SectionCode::Code) => {
            let (_, funcs) = decode_code_section(section_contents)?;
            module.code_section = Some(funcs);
        },
        Some(SectionCode::Export) => {
            let (_, exports) = decode_export_section(section_contents)?;
            module.export_section = Some(exports);
        },
        Some(SectionCode::Import) => {
            let (_, imports) = decode_import_section(section_contents)?;
            module.import_section = Some(imports);
        },
    };
    Ok(module)
}

/// A failure inside a delimited part of the input, carried out to the whole
/// input: `rest` is what follows the part.
fn carry_outward(e: DecodeError, rest: &[u8]) -> (out: DecodeError)
    requires
        e.remaining + rest@.len() <= usize::MAX,
    ensures
        out == outward(e, rest@.len()),
{
    DecodeError { kind: e.kind, remaining: e.remaining + rest.len() }
}

/// Reads the header of a section: its id and the size of its body.
pub fn decode_section_header(input: &[u8]) -> (r: Result<
    (&[u8], (Option<SectionCode>, u32)),
    DecodeError,
>)
    ensures
        reads(input, r, section_header_spec(input@)),
{
    let (rest, id) = byte(input)?;
    if id > 0x0b {
        return Err(failure(DecodeErrorKind::UnknownSection(id), input));
    }
    let (rest, size) = decode_u32(rest)?;
    Ok((rest, (SectionCode::from_u8(id), size)))
}

/// Reads a value type.
pub fn decode_value_type(input: &[u8]) -> (r: Result<(&[u8], ValueType), DecodeError>)
    ensures
        reads(input, r, value_type_spec(input@)),
{
    let (rest, b) = byte(input)?;
    match ValueType::from_u8(b) {
        Some(value_type) => Ok((rest, value_type)),
        None => Err(failure(DecodeErrorKind::InvalidValueType(b), input)),
    }
}

/// Reads a vector of value types.
#[verifier::loop_isolation(false)]
pub fn decode_value_types(input: &[u8]) -> (r: Result<(&[u8], Vec<ValueType>), DecodeError>)
    ensures
        reads_seq(input, r, value_type_vec_spec(input@)),
{
    let (first, count) = decode_u32(input)?;
    let mut types: Vec<ValueType> = Vec::new();
    let mut cur = first;
    let mut i: u32 = 0;
    while i < count
        invariant
            i <= count,
            cur@.len() <= input@.len(),
            value_types_spec(first@, count as nat, Seq::empty()) == value_types_spec(
                cur@,
                (count - i) as nat,
                types@,
            ),
        decreases count - i,
    {
        let (rest, value_type) = decode_value_type(cur)?;
        types.push(value_type);
        cur = rest;
        i += 1;
    }
    Ok((cur, types))
}

/// Reads a function type.
pub fn decode_func_type(input: &[u8]) -> (r: Result<(&[u8], FuncType), DecodeError>)
    ensures
        reads_view(input, r, func_type_spec(input@)),
{
    let (rest, tag) = byte(input)?;
    if tag != 0x60 {
        return Err(failure(DecodeErrorKind::InvalidTypeTag(tag), input));
    }
    let (rest, params) = decode_value_types(rest)?;
    let (rest, results) = decode_value_types(rest)?;
    Ok((rest, FuncType { params, results }))
}

/// Reads the type section.
#[verifier::loop_isolation(false)]
pub fn decode_type_section(input: &[u8]) -> (r: Result<(&[u8], Vec<FuncType>), DecodeError>)
    ensures
        reads_views(input, r, type_section_spec(input@)),
{
    let (first, count) = decode_u32(input)?;
    let mut func_types: Vec<FuncType> = Vec::new();
    let mut cur = first;
    let mut i: u32 = 0;
    assert(views(func_types@) =~= Seq::<FuncTypeView>::empty());
    while i < count
        invariant
            i <= count,
            cur@.len() <= input@.len(),
            func_types_spec(first@, count as nat, Seq::empty()) == func_types_spec(
                cur@,
                (count - i) as nat,
                views(func_types@),
            ),
        decreases count - i,
    {
        let (rest, func) = decode_func_type(cur)?;
        proof {
            lemma_views_push(func_types@, func);
        }
        func_types.push(func);
        cur = rest;
        i += 1;
    }
    Ok((cur, func_types))
}

/// Reads the function section.
#[verifier::loop_isolation(false)]
pub fn decode_function_section(input: &[u8]) -> (r: Result<(&[u8], Vec<u32>), DecodeError>)
    ensures
        reads_seq(input, r, function_section_spec(input@)),
{
    let (first, count) = decode_u32(input)?;
    let mut func_idx_list: Vec<u32> = Vec::new();
    let mut cur = first;
    let mut i: u32 = 0;
    while i < count
        invariant
            i <= count,
            cur@.len() <= input@.len(),
            indices_spec(first@, count as nat, Seq::empty()) == indices_spec(
                cur@,
                (count - i) as nat,
                func_idx_list@,
            ),
        decreases count - i,
    {
        let (rest, idx) = decode_u32(cur)?;
        func_idx_list.push(idx);
        cur = rest;
        i += 1;
    }
    Ok((cur, func_idx_list))
}

/// Reads one entry of the code section: a function body with its size.
pub fn decode_code_entry(input: &[u8]) -> (r: Result<(&[u8], Function), DecodeError>)
    ensures
        reads_view(input, r, code_entry_spec(input@)),
{
    let (after_size, size) = decode_u32(input)?;
    let (rest, body) = take(after_size, size)?;
    match decode_function_body(body) {
        Ok(function) => Ok((rest, function)),
        Err(e) => {
            assert(after_size@.len() == after_size.len());
            Err(carry_outward(e, rest))
        },
    }
}

/// Reads the code section.
#[verifier::loop_isolation(false)]
pub fn decode_code_section(input: &[u8]) -> (r: Result<(&[u8], Vec<Function>), DecodeError>)
    ensures
        reads_views(input, r, code_section_spec(input@)),
{
    let (first, count) = decode_u32(input)?;
    let mut functions: Vec<Function> = Vec::new();
    let mut cur = first;
    let mut i: u32 = 0;
    assert(views(functions@) =~= Seq::<FunctionView>::empty());
    while i < count
        invariant
            i <= count,
            cur@.len() <= input@.len(),
            code_entries_spec(first@, count as nat, Seq::empty()) == code_entries_spec(
                cur@,
                (count - i) as nat,
                views(functions@),
            ),
        decreases count - i,
    {
        let (rest, body) = decode_code_entry(cur)?;
        proof {
            lemma_views_push(functions@, body);
        }
        functions.push(body);
        cur = rest;
        i += 1;
    }
    Ok((cur, functions))
}

/// Reads a run of locals.
pub fn decode_local(input: &[u8]) -> (r: Result<(&[u8], FunctionLocal), DecodeError>)
    ensures
        reads(input, r, local_spec(input@)),
{
    let (rest, type_count) = decode_u32(input)?;
    let (rest, value_type) = decode_value_type(rest)?;
    Ok((rest, FunctionLocal { type_count, value_type }))
}

/// Reads a function body that fills the input: its locals and instructions.
#[verifier::loop_isolation(false)]
pub fn decode_function_body(input: &[u8]) -> (r: Result<Function, DecodeError>)
    ensures
        match r {
            Ok(function) => function_body_spec(input@) == Ok::<FunctionView, DecodeError>(
                function@,
            ),
            Err(e) => function_body_spec(input@) == Err::<FunctionView, DecodeError>(e)
                && e.remaining <= input@.len(),
        },
{
    let (first, count) = decode_u32(input)?;
    let mut locals: Vec<FunctionLocal> = Vec::new();
    let mut cur = first;
    let mut i: u32 = 0;
    while i < count
        invariant
            i <= count,
            cur@.len() <= input@.len(),
            locals_spec(first@, count as nat, Seq::empty()) == locals_spec(
                cur@,
                (count - i) as nat,
                locals@,
            ),
        decreases count - i,
    {
        let (rest, local) = decode_local(cur)?;
        locals.push(local);
        cur = rest;
        i += 1;
    }

    let after_locals = cur;
    let mut remaining = cur;
    let mut code: Vec<Instruction> = Vec::new();

    while remaining.len() > 0
        invariant
            remaining@.len() <= input@.len(),
            instructions_spec(after_locals@, Seq::empty()) == instructions_spec(
                remaining@,
                code@,
            ),
        decreases remaining@.len(),
    {
        proof {
            lemma_instruction_advances(remaining@);
        }
        let (rest, inst) = decode_instructions(remaining)?;
        code.push(inst);
        remaining = rest;
    }

    Ok(Function { locals, code })
}

/// Reads the block type of an `if`.
pub fn decode_block(input: &[u8]) -> (r: Result<(&[u8], Block), DecodeError>)
    ensures
        reads(input, r, block_spec(input@)),
{
    let (rest, b) = byte(input)?;
    if b == 0x40 {
        Ok((rest, Block { block_type: BlockType::Empty }))
    } else {
        Err(failure(DecodeErrorKind::UnsupportedBlockType(b), input))
    }
}

/// Reads one instruction with its operands.
pub fn decode_instructions(input: &[u8]) -> (r: Result<(&[u8], Instruction), DecodeError>)
    ensures
        reads(input, r, instruction_spec(input@)),
{
    let (input1, b) = byte(input)?;
    let op = match Opcode::from_u8(b) {
        Some(op) => op,
        None => {
            return Err(failure(DecodeErrorKind::UnknownOpcode(b), input));
        },
    };
    let (rest, inst) = match op {
        Opcode::If => {
            let (rest, block) = decode_block(input1)?;
            (rest, Instruction::If(block))
        },
        Opcode::End => (input1, Instruction::End),
        Opcode::Return => (input1, Instruction::Return),
        Opcode::LocalGet => {
            let (rest, idx) = decode_u32(input1)?;
            (rest, Instruction::LocalGet(idx))
        },
        Opcode::LocalSet => {
            let (rest, idx) = decode_u32(input1)?;
            (rest, Instruction::LocalSet(idx))
        },
        Opcode::I32Store => {
            let (rest, align) = decode_u32(input1)?;
            let (rest, offset) = decode_u32(rest)?;
            (rest, Instruction::I32Store { align, offset })
        },
        Opcode::I32Const => {
            let (rest, value) = decode_i32(input1)?;
            (rest, Instruction::I32Const(value))
        },
        Opcode::I32LtS => (input1, Instruction::I32Lts),
        Opcode::I32Add => (input1, Instruction::I32Add),
        Opcode::I32Sub => (input1, Instruction::I32Sub),
        Opcode::Call => {
            let (rest, idx) = decode_u32(input1)?;
            (rest, Instruction::Call(idx))
        },
    };
    Ok((rest, inst))
}

/// Reads one export.
pub fn decode_export(input: &[u8]) -> (r: Result<(&[u8], Export), DecodeError>)
    ensures
        reads_view(input, r, export_spec(input@)),
{
    let (rest, name) = decode_name(input)?;
    let (after_kind, export_kind) = byte(rest)?;
    if export_kind != 0x00 {
        return Err(failure(DecodeErrorKind::UnsupportedExportKind(export_kind), rest));
    }
    let (rest, idx) = decode_u32(after_kind)?;
    Ok((rest, Export { name, desc: ExportDesc::Func(idx) }))
}

/// Reads the export section.
#[verifier::loop_isolation(false)]
pub fn decode_export_section(input: &[u8]) -> (r: Result<(&[u8], Vec<Export>), DecodeError>)
    ensures
        reads_views(input, r, export_section_spec(input@)),
{
    let (first, count) = decode_u32(input)?;
    let mut exports: Vec<Export> = Vec::new();
    let mut cur = first;
    let mut i: u32 = 0;
    assert(views(exports@) =~= Seq::<ExportView>::empty());
    while i < count
        invariant
            i <= count,
            cur@.len() <= input@.len(),
            exports_spec(first@, count as nat, Seq::empty()) == exports_spec(
                cur@,
                (count - i) as nat,
                views(exports@),
            ),
        decreases count - i,
    {
        let (rest, export) = decode_export(cur)?;
        proof {
            lemma_views_push(exports@, export);
        }
        exports.push(export);
        cur = rest;
        i += 1;
    }
    Ok((cur, exports))
}

/// Reads one import.
pub fn decode_import(input: &[u8]) -> (r: Result<(&[u8], Import), DecodeError>)
    ensures
        reads_view(input, r, import_spec(input@)),
{
    let (rest, module) = decode_name(input)?;
    let (rest, field) = decode_name(rest)?;
    let (after_kind, import_kind) = byte(rest)?;
    if import_kind != 0x00 {
        return Err(failure(DecodeErrorKind::UnsupportedImportKind(import_kind), rest));
    }
    let (rest, idx) = decode_u32(after_kind)?;
    Ok((rest, Import { module, field, desc: ImportDesc::Func(idx) }))
}

/// Reads the import section.
#[verifier::loop_isolation(false)]
pub fn decode_import_section(input: &[u8]) -> (r: Result<(&[u8], Vec<Import>), DecodeError>)
    ensures
        reads_views(input, r, import_section_spec(input@)),
{
    let (first, count) = decode_u32(input)?;
    let mut imports: Vec<Import> = Vec::new();
    let mut cur = first;
    let mut i: u32 = 0;
    assert(views(imports@) =~= Seq::<ImportView>::empty());
    while i < count
        invariant
            i <= count,
            cur@.len() <= input@.len(),
            imports_spec(first@, count as nat, Seq::empty()) == imports_spec(
                cur@,
                (count - i) as nat,
                views(imports@),
            ),
        decreases count - i,
    {
        let (rest, import) = decode_import(cur)?;
        proof {
            lemma_views_push(imports@, import);
        }
        imports.push(import);
        cur = rest;
        i += 1;
    }
    Ok((cur, imports))
}

/// Reads the memory section.
pub fn decode_memory_section(input: &[u8]) -> (r: Result<(&[u8], Memory), DecodeError>)
    ensures
        reads(input, r, memory_section_spec(input@)),
{
    let (rest, _) = decode_u32(input)?;
    let (rest, limits) = decode_limits(rest)?;
    Ok((rest, Memory { limits }))
}

/// Reads the limits of a memory.
pub fn decode_limits(input: &[u8]) -> (r: Result<(&[u8], Limits), DecodeError>)
    ensures
        reads(input, r, limits_spec(input@)),
{
    let (rest, flags) = decode_u32(input)?;
    let (rest, min) = decode_u32(rest)?;
    if flags == 0 {
        Ok((rest, Limits { min, max: None }))
    } else {
        let (rest, max) = decode_u32(rest)?;
        Ok((rest, Limits { min, max: Some(max) }))
    }
}

/// Reads the offset expression of a data segment.
pub fn decode_expr(input: &[u8]) -> (r: Result<(&[u8], i32), DecodeError>)
    ensures
        reads(input, r, expr_spec(input@)),
{
    let (rest, op) = byte(input)?;
    if op != 0x41 {
        return Err(failure(DecodeErrorKind::InvalidConstExpr, input));
    }
    let (rest, offset) = decode_i32(rest)?;
    let (after_end, end) = byte(rest)?;
    if end != 0x0B {
        return Err(failure(DecodeErrorKind::InvalidConstExpr, rest));
    }
    Ok((after_end, offset))
}

/// Reads one data segment.
pub fn decode_data(input: &[u8]) -> (r: Result<(&[u8], Data), DecodeError>)
    ensures
        reads_view(input, r, data_spec(input@)),
{
    let (rest, memory_index) = decode_u32(input)?;
    let (rest, offset) = decode_expr(rest)?;
    let (rest, size) = decode_u32(rest)?;
    let (rest, init) = take(rest, size)?;
    Ok((rest, Data { memory_index, offset, init: slice_to_vec(init) }))
}

/// Reads the data section.
#[verifier::loop_isolation(false)]
pub fn decode_data_section(input: &[u8]) -> (r: Result<(&[u8], Vec<Data>), DecodeError>)
    ensures
        reads_views(input, r, data_section_spec(input@)),
{
    let (first, count) = decode_u32(input)?;
    let mut data: Vec<Data> = Vec::new();
    let mut cur = first;
    let mut i: u32 = 0;
    assert(views(data@) =~= Seq::<DataView>::empty());
    while i < count
        invariant
            i <= count,
            cur@.len() <= input@.len(),
            datas_spec(first@, count as nat, Seq::empty()) == datas_spec(
                cur@,
                (count - i) as nat,
                views(data@),
            ),
        decreases count - i,
    {
        let (rest, segment) = decode_data(cur)?;
        proof {
            lemma_views_push(data@, segment);
        }
        data.push(segment);
        cur = rest;
        i += 1;
    }
    Ok((cur, data))
}

/// `String::from_utf8_lossy` on the bytes of a name: where they are UTF-8, the
/// characters they encode; where they are not, the characters that the
/// standard library puts in their place.
#[verifier::external_body]
fn utf8_lossy(bytes: &[u8]) -> (name: String)
    ensures
        valid_utf8(bytes@) ==> name@ == decode_utf8(bytes@),
        !valid_utf8(bytes@) ==> name@ == lossy_utf8(bytes@),
{
    String::from_utf8_lossy(bytes).into_owned()
}

/// Reads a name.
pub fn decode_name(input: &[u8]) -> (r: Result<(&[u8], String), DecodeError>)
    ensures
        reads_view(input, r, name_spec(input@)),
{
    let (rest, size) = decode_u32(input)?;
    let (rest, name) = take(rest, size)?;
    Ok((rest, utf8_lossy(name)))
}

} // verus!
