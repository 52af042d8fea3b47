use super::error::InstantiationError;
use super::memory::{memory_write, written};
use crate::binary::instruction::Instruction;
use crate::binary::module::{Module, ModuleView};
use crate::binary::section::FunctionView;
use crate::binary::types::{
    views, DataView, ExportDesc, ExportView, FuncType, FuncTypeView, FunctionLocal, ImportDesc,
    ImportView, Memory, ValueType,
};
use vstd::hash_map::StringHashMap;
use vstd::prelude::*;

verus! {

/// The number of bytes in a page of linear memory: 64 KiB.
pub const PAGE_SIZE: u32 = 65536;

/// The code of a function: the types of its own locals, one entry each, and its body.
pub struct Func {
    pub locals: Vec<ValueType>,
    pub body: Vec<Instruction>,
}

/// What the contracts say of a [`Func`].
pub struct FuncView {
    pub locals: Seq<ValueType>,
    pub body: Seq<Instruction>,
}

impl View for Func {
    type V = FuncView;

    open spec fn view(&self) -> FuncView {
        FuncView { locals: self.locals@, body: self.body@ }
    }
}

/// A function that the module defines.
pub struct InternalFuncInst {
    pub func_type: FuncType,
    pub code: Func,
}

/// What the contracts say of an [`InternalFuncInst`].
pub struct InternalFuncInstView {
    pub func_type: FuncTypeView,
    pub code: FuncView,
}

impl View for InternalFuncInst {
    type V = InternalFuncInstView;

    open spec fn view(&self) -> InternalFuncInstView {
        InternalFuncInstView { func_type: self.func_type@, code: self.code@ }
    }
}

/// A function that the module imports from the host.
#[derive(Debug)]
pub struct ExternalFuncInst {
    pub module: String,
    pub func: String,
    pub func_type: FuncType,
}

/// What the contracts say of an [`ExternalFuncInst`].
pub struct ExternalFuncInstView {
    pub module: Seq<char>,
    pub field: Seq<char>,
    pub func_type: FuncTypeView,
}

impl View for ExternalFuncInst {
    type V = ExternalFuncInstView;

    open spec fn view(&self) -> ExternalFuncInstView {
        ExternalFuncInstView {
            module: self.module@,
            field: self.func@,
            func_type: self.func_type@,
        }
    }
}

/// A function of the store.
pub enum FuncInst {
    Internal(InternalFuncInst),
    External(ExternalFuncInst),
}

/// What the contracts say of a [`FuncInst`].
pub enum FuncInstView {
    Internal(InternalFuncInstView),
    External(ExternalFuncInstView),
}

impl View for FuncInst {
    type V = FuncInstView;

    open spec fn view(&self) -> FuncInstView {
        match self {
            FuncInst::Internal(func) => FuncInstView::Internal(func@),
            FuncInst::External(func) => FuncInstView::External(func@),
        }
    }
}

/// What a module can hand out by index: a function or a memory.
#[derive(Debug, Clone, Copy, PartialEq, Eq, Structural)]
pub enum ExternalValue {
    Func(u32),
    Memory(u32),
}

/// An export of the instantiated module.
pub struct ExportInst {
    pub name: String,
    pub desc: ExportDesc,
}

impl View for ExportInst {
    type V = ExportView;

    open spec fn view(&self) -> ExportView {
        ExportView { name: self.name@, desc: self.desc }
    }
}

/// What the instantiated module offers by name: for each export name, the
/// last export of that name.
pub struct ModuleInst {
    pub exports: StringHashMap<ExportInst>,
}

impl View for ModuleInst {
    type V = Map<Seq<char>, ExportView>;

    open spec fn view(&self) -> Map<Seq<char>, ExportView> {
        self.exports@.map_values(|export: ExportInst| export@)
    }
}

impl Default for ModuleInst {
    fn default() -> (module: ModuleInst)
        ensures
            module@ == Map::<Seq<char>, ExportView>::empty(),
    {
        let module = ModuleInst { exports: StringHashMap::new() };
        assert(module@ =~= Map::<Seq<char>, ExportView>::empty());
        module
    }
}

/// A linear memory: its bytes and the most pages it may have.
#[derive(Default, Debug, Clone)]
pub struct MemoryInst {
    pub data: Vec<u8>,
    pub max: Option<u32>,
}

/// What the contracts say of a [`MemoryInst`].
pub struct MemoryInstView {
    pub data: Seq<u8>,
    pub max: Option<u32>,
}

impl View for MemoryInst {
    type V = MemoryInstView;

    open spec fn view(&self) -> MemoryInstView {
        MemoryInstView { data: self.data@, max: self.max }
    }
}

/// The instantiated image of a module: its functions, imported ones first,
/// its exports by name, and its memories.
pub struct Store {
    pub funcs: Vec<FuncInst>,
    pub module: ModuleInst,
    pub memories: Vec<MemoryInst>,
}

/// What the contracts say of a [`Store`].
pub struct StoreView {
    pub funcs: Seq<FuncInstView>,
    pub exports: Map<Seq<char>, ExportView>,
    pub memories: Seq<MemoryInstView>,
}

impl View for Store {
    type V = StoreView;

    open spec fn view(&self) -> StoreView {
        StoreView {
            funcs: views(self.funcs@),
            exports: self.module@,
            memories: views(self.memories@),
        }
    }
}

impl Default for Store {
    /// The store of the module without sections.
    fn default() -> (store: Store)
        ensures
            store@ == empty_store(),
    {
        let store = Store {
            funcs: Vec::new(),
            module: ModuleInst::default(),
            memories: Vec::new(),
        };
        assert(store@.funcs =~= Seq::<FuncInstView>::empty());
        assert(store@.memories =~= Seq::<MemoryInstView>::empty());
        store
    }
}

/// The store without functions, exports and memories.
pub open spec fn empty_store() -> StoreView {
    StoreView { funcs: Seq::empty(), exports: Map::empty(), memories: Seq::empty() }
}

/// The items of a section, none where the module does not have it.
pub open spec fn section_items<T>(section: Option<Seq<T>>) -> Seq<T> {
    match section {
        Some(items) => items,
        None => Seq::empty(),
    }
}

/// The function type that a type index names.
pub open spec fn func_type_spec(types: Option<Seq<FuncTypeView>>, type_idx: u32) -> Result<
    FuncTypeView,
    InstantiationError,
> {
    match types {
        None => Err(InstantiationError::MissingTypeSection),
        Some(types) => if type_idx < types.len() {
            Ok(types[type_idx as int])
        } else {
            Err(InstantiationError::UnknownFuncType(type_idx))
        },
    }
}

/// The imported functions from import `from` on, appended to `acc`.
pub open spec fn external_funcs_spec(
    types: Option<Seq<FuncTypeView>>,
    imports: Seq<ImportView>,
    from: nat,
    acc: Seq<FuncInstView>,
) -> Result<Seq<FuncInstView>, InstantiationError>
    decreases imports.len() - from,
{
    if from >= imports.len() {
        Ok(acc)
    } else {
        let import = imports[from as int];
        match import.desc {
            ImportDesc::Func(type_idx) => match func_type_spec(types, type_idx) {
                Err(e) => Err(e),
                Ok(func_type) => external_funcs_spec(
                    types,
                    imports,
                    from + 1,
                    acc.push(
                        FuncInstView::External(
                            ExternalFuncInstView {
                                module: import.module,
                                field: import.field,
                                func_type,
                            },
                        ),
                    ),
                ),
            },
        }
    }
}

/// The types of `count` locals of one type.
pub open spec fn run_of_locals(local: FunctionLocal) -> Seq<ValueType> {
    Seq::new(local.type_count as nat, |i: int| local.value_type)
}

/// The types of the locals of a function body, one entry for each local: each
/// run of locals repeats its type as often as it counts.
pub open spec fn flat_locals(locals: Seq<FunctionLocal>) -> Seq<ValueType>
    decreases locals.len(),
{
    if locals.len() == 0 {
        Seq::empty()
    } else {
        flat_locals(locals.drop_last()) + run_of_locals(locals.last())
    }
}

/// The functions that the module defines from body `from` on, appended to
/// `acc`: the bodies of the code section, each with the type that the
/// function section gives at the same place, as far as both sections go.
pub open spec fn internal_funcs_spec(
    types: Option<Seq<FuncTypeView>>,
    bodies: Seq<FunctionView>,
    type_idxs: Seq<u32>,
    from: nat,
    acc: Seq<FuncInstView>,
) -> Result<Seq<FuncInstView>, InstantiationError>
    decreases bodies.len() - from,
{
    if from >= bodies.len() || from >= type_idxs.len() {
        Ok(acc)
    } else {
        match func_type_spec(types, type_idxs[from as int]) {
            Err(e) => Err(e),
            Ok(func_type) => internal_funcs_spec(
                types,
                bodies,
                type_idxs,
                from + 1,
                acc.push(
                    FuncInstView::Internal(
                        InternalFuncInstView {
                            func_type,
                            code: FuncView {
                                locals: flat_locals(bodies[from as int].locals),
                                body: bodies[from as int].code,
                            },
                        },
                    ),
                ),
            ),
        }
    }
}

/// The exports by name, from export `from` on, added to `acc`: a later
/// export takes the place of an earlier one of the same name.
pub open spec fn exports_spec(exports: Seq<ExportView>, from: nat, acc: Map<
    Seq<char>,
    ExportView,
>) -> Map<Seq<char>, ExportView>
    decreases exports.len() - from,
{
    if from >= exports.len() {
        acc
    } else {
        exports_spec(exports, from + 1, acc.insert(exports[from as int].name, exports[from as int]))
    }
}

/// The memory that a declaration asks for: its least size, all zero.
pub open spec fn fresh_memory(memory: Memory) -> MemoryInstView {
    MemoryInstView {
        data: Seq::new((memory.limits.min * PAGE_SIZE) as nat, |i: int| 0u8),
        max: memory.limits.max,
    }
}

/// The memories from declaration `from` on, appended to `acc`.
pub open spec fn memories_spec(memories: Seq<Memory>, from: nat, acc: Seq<MemoryInstView>) -> Result<
    Seq<MemoryInstView>,
    InstantiationError,
>
    decreases memories.len() - from,
{
    if from >= memories.len() {
        Ok(acc)
    } else if memories[from as int].limits.min * PAGE_SIZE > usize::MAX {
        Err(InstantiationError::MemoryTooLarge)
    } else {
        memories_spec(memories, from + 1, acc.push(fresh_memory(memories[from as int])))
    }
}

/// The memories after the data segments from `from` on were copied into them.
pub open spec fn data_spec(memories: Seq<MemoryInstView>, segments: Seq<DataView>, from: nat) -> Result<
    Seq<MemoryInstView>,
    InstantiationError,
>
    decreases segments.len() - from,
{
    if from >= segments.len() {
        Ok(memories)
    } else {
        let segment = segments[from as int];
        if segment.memory_index >= memories.len() {
            Err(InstantiationError::MemoryNotFound(segment.memory_index))
        } else {
            let memory = memories[segment.memory_index as int];
            if segment.offset < 0 || segment.offset + segment.init.len() > memory.data.len() {
                Err(InstantiationError::DataTooLarge)
            } else {
                data_spec(
                    memories.update(
                        segment.memory_index as int,
                        MemoryInstView {
                            data: written(memory.data, segment.offset as int, segment.init),
                            max: memory.max,
                        },
                    ),
                    segments,
                    from + 1,
                )
            }
        }
    }
}

/// The store of a module: the imported functions, then the defined ones;
/// the exports by name; the memories with the data segments copied in.
pub open spec fn store_spec(module: ModuleView) -> Result<StoreView, InstantiationError> {
    match external_funcs_spec(
        module.type_section,
        section_items(module.import_section),
        0,
        Seq::empty(),
    ) {
        Err(e) => Err(e),
        Ok(externals) => match internal_funcs_spec(
            module.type_section,
            section_items(module.code_section),
            section_items(module.function_section),
            0,
            externals,
        ) {
            Err(e) => Err(e),
            Ok(funcs) => match memories_spec(
                section_items(module.memory_section),
                0,
                Seq::empty(),
            ) {
                Err(e) => Err(e),
                Ok(memories) => match data_spec(
                    memories,
                    section_items(module.data_section),
                    0,
                ) {
                    Err(e) => Err(e),
                    Ok(memories) => Ok(
                        StoreView {
                            funcs,
                            exports: exports_spec(
                                section_items(module.export_section),
                                0,
                                Map::empty(),
                            ),
                            memories,
                        },
                    ),
                },
            },
        },
    }
}

/// A copy of a vector of plain items.
pub fn copy_vec<T: Copy>(items: &Vec<T>) -> (copy: Vec<T>)
    ensures
        copy@ == items@,
{
    let mut copy: Vec<T> = Vec::new();
    let mut i: usize = 0;
    while i < items.len()
        invariant
            i <= items@.len(),
            copy@ == items@.subrange(0, i as int),
        decreases items@.len() - i,
    {
        copy.push(items[i]);
        i += 1;
        assert(copy@ =~= items@.subrange(0, i as int));
    }
    assert(items@.subrange(0, i as int) =~= items@);
    copy
}

impl FuncType {
    /// A copy of the function type.
    pub fn copy(&self) -> (copy: FuncType)
        ensures
            copy@ == self@,
    {
        FuncType { params: copy_vec(&self.params), results: copy_vec(&self.results) }
    }
}

/// Looks a function type up by its index in the type section.
pub fn resolve_func_type(types: &Option<Vec<FuncType>>, type_idx: u32) -> (r: Result<
    FuncType,
    InstantiationError,
>)
    ensures
        match r {
            Ok(func_type) => func_type_spec(opt_func_types(*types), type_idx) == Ok::<
                FuncTypeView,
                InstantiationError,
            >(func_type@),
            Err(e) => func_type_spec(opt_func_types(*types), type_idx) == Err::<
                FuncTypeView,
                InstantiationError,
            >(e),
        },
{
    match types {
        None => Err(InstantiationError::MissingTypeSection),
        Some(func_types) => {
            if (type_idx as usize) < func_types.len() {
                Ok(func_types[type_idx as usize].copy())
            } else {
                Err(InstantiationError::UnknownFuncType(type_idx))
            }
        },
    }
}

/// The views of the function types of an optional type section.
pub open spec fn opt_func_types(types: Option<Vec<FuncType>>) -> Option<Seq<FuncTypeView>> {
    match types {
        Some(items) => Some(views(items@)),
        None => None,
    }
}

/// The types of the locals of a function body, one entry for each local.
pub fn flatten_locals(locals: &Vec<FunctionLocal>) -> (flat: Vec<ValueType>)
    ensures
        flat@ == flat_locals(locals@),
{
    let mut flat: Vec<ValueType> = Vec::new();
    let mut i: usize = 0;
    while i < locals.len()
        invariant
            i <= locals@.len(),
            flat@ == flat_locals(locals@.subrange(0, i as int)),
        decreases locals@.len() - i,
    {
        let local = locals[i];
        let ghost before = flat@;
        let mut j: u32 = 0;
        while j < local.type_count
            invariant
                j <= local.type_count,
                flat@ == before + Seq::new(j as nat, |k: int| local.value_type),
            decreases local.type_count - j,
        {
            flat.push(local.value_type);
            j += 1;
            assert(flat@ =~= before + Seq::new(j as nat, |k: int| local.value_type));
        }
        i += 1;
        assert(locals@.subrange(0, i as int).drop_last() =~= locals@.subrange(0, i - 1));
        assert(locals@.subrange(0, i as int).last() == local);
        assert(Seq::new(local.type_count as nat, |k: int| local.value_type) =~= run_of_locals(
            local,
        ));
    }
    assert(locals@.subrange(0, i as int) =~= locals@);
    flat
}

/// A memory of the least size that its declaration asks for, all zero.
/// There is none where that many bytes cannot be addressed.
pub fn allocate_memory(memory: &Memory) -> (r: Option<MemoryInst>)
    ensures
        match r {
            Some(inst) => memory.limits.min * PAGE_SIZE <= usize::MAX && inst@ == fresh_memory(
                *memory,
            ),
            None => memory.limits.min * PAGE_SIZE > usize::MAX,
        },
{
    let size: u64 = (memory.limits.min as u64) * (PAGE_SIZE as u64);
    if size > usize::MAX as u64 {
        return None;
    }
    let data: Vec<u8> = vec![0u8; size as usize];
    assert(data@ =~= fresh_memory(*memory).data);
    Some(MemoryInst { data, max: memory.limits.max })
}

impl Store {
    /// Instantiates a module: builds the function table, the exports, the
    /// memories, and copies the data segments into the memories.
    #[verifier::loop_isolation(false)]
    pub fn new(module: Module) -> (r: Result<Store, InstantiationError>)
        ensures
            match r {
                Ok(store) => store_spec(module@) == Ok::<StoreView, InstantiationError>(store@),
                Err(e) => store_spec(module@) == Err::<StoreView, InstantiationError>(e),
            },
    {
        let mut funcs: Vec<FuncInst> = Vec::new();
        let mut memories: Vec<MemoryInst> = Vec::new();
        assert(views(funcs@) =~= Seq::<FuncInstView>::empty());
        assert(views(memories@) =~= Seq::<MemoryInstView>::empty());

        if let Some(ref import_section) = module.import_section {
            let mut i: usize = 0;
            while i < import_section.len()
                invariant
                    i <= import_section@.len(),
                    external_funcs_spec(
                        module@.type_section,
                        views(import_section@),
                        0,
                        Seq::empty(),
                    ) == external_funcs_spec(
                        module@.type_section,
                        views(import_section@),
                        i as nat,
                        views(funcs@),
                    ),
                decreases import_section@.len() - i,
            {
                let import = &import_section[i];
                let module_name = import.module.clone();
                let field = import.field.clone();
                let func_type = match import.desc {
                    ImportDesc::Func(type_idx) => resolve_func_type(&module.type_section, type_idx)?,
                };
                let func = FuncInst::External(
                    ExternalFuncInst { module: module_name, func: field, func_type },
                );
                proof {
                    crate::binary::reader::lemma_views_push(funcs@, func);
                }
                funcs.push(func);
                i += 1;
            }
        }
        let ghost externals = views(funcs@);

        if let Some(ref code_section) = module.code_section {
            if let Some(ref func_type_idxs) = module.function_section {
                let mut i: usize = 0;
                while i < code_section.len() && i < func_type_idxs.len()
                    invariant
                        i <= code_section@.len(),
                        i <= func_type_idxs@.len(),
                        internal_funcs_spec(
                            module@.type_section,
                            views(code_section@),
                            func_type_idxs@,
                            0,
                            externals,
                        ) == internal_funcs_spec(
                            module@.type_section,
                            views(code_section@),
                            func_type_idxs@,
                            i as nat,
                            views(funcs@),
                        ),
                    decreases code_section@.len() - i,
                {
                    let func_body = &code_section[i];
                    let func_type = resolve_func_type(&module.type_section, func_type_idxs[i])?;
                    let locals = flatten_locals(&func_body.locals);
                    let func = FuncInst::Internal(
                        InternalFuncInst {
                            func_type,
                            code: Func { locals, body: copy_vec(&func_body.code) },
                        },
                    );
                    proof {
                        crate::binary::reader::lemma_views_push(funcs@, func);
                    }
                    funcs.push(func);
                    i += 1;
                }
            }
        }

        let mut exports: StringHashMap<ExportInst> = StringHashMap::new();
        assert(exports@.map_values(|export: ExportInst| export@) =~= Map::<
            Seq<char>,
            ExportView,
        >::empty());
        if let Some(ref sections) = module.export_section {
            let mut i: usize = 0;
            while i < sections.len()
                invariant
                    i <= sections@.len(),
                    exports_spec(views(sections@), 0, Map::empty()) == exports_spec(
                        views(sections@),
                        i as nat,
                        exports@.map_values(|export: ExportInst| export@),
                    ),
                decreases sections@.len() - i,
            {
                let export = &sections[i];
                let name = export.name.clone();
                let export_inst = ExportInst { name: name.clone(), desc: export.desc };
                let ghost before = exports@;
                exports.insert(name, export_inst);
                assert(exports@.map_values(|export: ExportInst| export@) =~= before.map_values(
                    |export: ExportInst| export@,
                ).insert(export@.name, export@));
                i += 1;
            }
        }
        let module_inst = ModuleInst { exports };

        if let Some(ref sections) = module.memory_section {
            let mut i: usize = 0;
            while i < sections.len()
                invariant
                    i <= sections@.len(),
                    memories_spec(sections@, 0, Seq::empty()) == memories_spec(
                        sections@,
                        i as nat,
                        views(memories@),
                    ),
                decreases sections@.len() - i,
            {
                let memory = match allocate_memory(&sections[i]) {
                    Some(memory) => memory,
                    None => {
                        return Err(InstantiationError::MemoryTooLarge);
                    },
                };
                proof {
                    crate::binary::reader::lemma_views_push(memories@, memory);
                }
                memories.push(memory);
                i += 1;
            }
        }
        let ghost fresh = views(memories@);

        if let Some(ref sections) = module.data_section {
            let mut i: usize = 0;
            while i < sections.len()
                invariant
                    i <= sections@.len(),
                    data_spec(fresh, views(sections@), 0) == data_spec(
                        views(memories@),
                        views(sections@),
                        i as nat,
                    ),
                decreases sections@.len() - i,
            {
                let data = &sections[i];
                let index = data.memory_index as usize;
                if index >= memories.len() {
                    return Err(InstantiationError::MemoryNotFound(data.memory_index));
                }
                if data.offset < 0 {
                    return Err(InstantiationError::DataTooLarge);
                }
                let offset = data.offset as usize;
                let ghost before = memories@;
                let memory = &mut memories[index];
                if memory_write(&mut memory.data, offset, data.init.as_slice()).is_err() {
                    return Err(InstantiationError::DataTooLarge);
                }
                assert(views(memories@) =~= views(before).update(
                    index as int,
                    MemoryInstView {
                        data: written(before[index as int].data@, offset as int, data.init@),
                        max: before[index as int].max,
                    },
                ));
                i += 1;
            }
        }

        Ok(Store { funcs, memories, module: module_inst })
    }
}

} // verus!
