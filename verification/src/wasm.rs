//! The sandbox boundary: fuel- and memory-bounded execution of WASM tool
//! modules. A module must export `memory`, `alloc` and `run`, and may
//! export `output_size`; execution past the fuel budget stops with
//! `FuelExhausted` and produces no output.
//!
//! The WASM engine itself is an outside collaborator; each call into it
//! stands behind a declared, trusted boundary, and everything around the
//! calls — limits, orchestration, error classification — is verified.

use vstd::prelude::*;
use vstd::string::StrSliceExecFns;

verus! {

/// Resource limits for sandboxed execution.
#[derive(Clone, Copy, Debug, PartialEq, Eq, Structural)]
pub struct ResourceLimits {
    /// The instruction budget.
    pub max_fuel: u64,
    /// The memory ceiling, in 64 KiB pages.
    pub max_memory_pages: u32,
    /// The table element ceiling.
    pub max_table_elements: u32,
    /// The time ceiling in milliseconds.
    pub timeout_ms: u64,
    /// The output ceiling in bytes.
    pub max_output_bytes: usize,
}

impl ResourceLimits {
    /// Limits with the given fuel, pages and timeout; tables and output
    /// get fixed defaults.
    pub fn new(max_fuel: u64, max_memory_pages: u32, timeout_ms: u64) -> (r: Self)
        ensures
            r.max_fuel == max_fuel,
            r.max_memory_pages == max_memory_pages,
            r.max_table_elements == 1024,
            r.timeout_ms == timeout_ms,
            r.max_output_bytes == 1048576usize,
    {
        ResourceLimits {
            max_fuel,
            max_memory_pages,
            max_table_elements: 1024,
            timeout_ms,
            max_output_bytes: 1048576,
        }
    }

    /// Small limits for tests.
    pub fn minimal() -> (r: Self)
        ensures
            r.max_fuel == 10000,
            r.max_memory_pages == 1,
            r.max_table_elements == 10,
            r.timeout_ms == 100,
            r.max_output_bytes == 1024usize,
    {
        ResourceLimits {
            max_fuel: 10000,
            max_memory_pages: 1,
            max_table_elements: 10,
            timeout_ms: 100,
            max_output_bytes: 1024,
        }
    }

    /// Roomy limits.
    pub fn generous() -> (r: Self)
        ensures
            r.max_fuel == 10000000,
            r.max_memory_pages == 64,
            r.max_table_elements == 4096,
            r.timeout_ms == 30000,
            r.max_output_bytes == 10485760usize,
    {
        ResourceLimits {
            max_fuel: 10000000,
            max_memory_pages: 64,
            max_table_elements: 4096,
            timeout_ms: 30000,
            max_output_bytes: 10485760,
        }
    }

    /// The memory ceiling in bytes.
    pub fn max_memory_bytes(&self) -> (r: usize)
        requires
            self.max_memory_pages * 65536 <= usize::MAX,
        ensures
            r == self.max_memory_pages * 65536,
    {
        (self.max_memory_pages as usize) * 65536
    }
}

impl Default for ResourceLimits {
    /// The default limits: a million fuel, sixteen pages, five seconds.
    fn default() -> (r: Self)
        ensures
            r.max_fuel == 1000000,
            r.max_memory_pages == 16,
            r.timeout_ms == 5000,
    {
        ResourceLimits {
            max_fuel: 1000000,
            max_memory_pages: 16,
            max_table_elements: 1024,
            timeout_ms: 5000,
            max_output_bytes: 1048576,
        }
    }
}

/// Abstract fuel costs per operation class.
#[derive(Clone, Copy, Debug, PartialEq, Eq, Structural)]
pub struct FuelCosts {
    /// The cost of a plain instruction.
    pub base_opcost: u64,
    /// The cost of a memory operation.
    pub memory_opcost: u64,
    /// The cost of a table operation.
    pub table_opcost: u64,
    /// The cost of a host call.
    pub host_call_cost: u64,
}

impl FuelCosts {
    /// The engine's standard costs.
    pub fn standard() -> (r: Self)
        ensures
            r.base_opcost == 1,
            r.memory_opcost == 10,
            r.table_opcost == 10,
            r.host_call_cost == 100,
    {
        FuelCosts { base_opcost: 1, memory_opcost: 10, table_opcost: 10, host_call_cost: 100 }
    }

    /// Doubled costs, for a safety margin.
    pub fn conservative() -> (r: Self)
        ensures
            r.base_opcost == 2,
            r.memory_opcost == 20,
            r.table_opcost == 20,
            r.host_call_cost == 200,
    {
        FuelCosts { base_opcost: 2, memory_opcost: 20, table_opcost: 20, host_call_cost: 200 }
    }
}

impl Default for FuelCosts {
    /// The standard costs.
    fn default() -> (r: Self)
        ensures
            r.base_opcost == 1,
            r.host_call_cost == 100,
    {
        FuelCosts { base_opcost: 1, memory_opcost: 10, table_opcost: 10, host_call_cost: 100 }
    }
}

#[verifier::external_type_specification]
#[verifier::external_body]
pub struct ExEngine(wasmi::Engine);

#[verifier::external_type_specification]
#[verifier::external_body]
pub struct ExModule(wasmi::Module);

#[verifier::external_type_specification]
#[verifier::external_body]
#[verifier::reject_recursive_types(T)]
pub struct ExStore<T>(wasmi::Store<T>);

#[verifier::external_type_specification]
#[verifier::external_body]
pub struct ExInstancePre(wasmi::InstancePre);

#[verifier::external_type_specification]
#[verifier::external_body]
pub struct ExInstance(wasmi::Instance);

#[verifier::external_type_specification]
#[verifier::external_body]
pub struct ExMemory(wasmi::Memory);

#[verifier::external_type_specification]
#[verifier::external_body]
#[verifier::reject_recursive_types(Params)]
#[verifier::reject_recursive_types(Results)]
pub struct ExTypedFunc<Params, Results>(wasmi::TypedFunc<Params, Results>);

/// Whether wasmi accepts the bytes as a well-formed module: what
/// `wasmi::Module::new` decides, a function of the bytes alone.
pub uninterp spec fn wasm_ok(bytes: Seq<u8>) -> bool;

/// Whether the module exports a linear memory named `memory`: what
/// `wasmi::Instance::get_memory` finds, a function of the bytes alone.
pub uninterp spec fn wasm_has_memory(bytes: Seq<u8>) -> bool;

/// Whether the module exports a function of the given name with type
/// `i32 -> i32`: what `wasmi::Instance::get_typed_func` finds, a function
/// of the bytes and the name alone.
pub uninterp spec fn wasm_has_func1(bytes: Seq<u8>, name: Seq<char>) -> bool;

/// Whether the module exports a function of the given name with type
/// `(i32, i32) -> i32`: what `wasmi::Instance::get_typed_func` finds, a
/// function of the bytes and the name alone.
pub uninterp spec fn wasm_has_func2(bytes: Seq<u8>, name: Seq<char>) -> bool;

/// The export names of the module, in declaration order: what
/// `wasmi::Module::exports` lists, a function of the bytes alone.
pub uninterp spec fn wasm_export_names(bytes: Seq<u8>) -> Seq<Seq<char>>;

/// Each import's module, name and type text, in declaration order: what
/// `wasmi::Module::imports` lists, a function of the bytes alone.
pub uninterp spec fn wasm_import_list(bytes: Seq<u8>) -> Seq<(Seq<char>, Seq<char>, Seq<char>)>;

/// An unconstrained ghost value, for the trusted constructors below to
/// fill their ghost fields with.
fn fresh_ghost<A>() -> Ghost<A> {
    Ghost(arbitrary())
}

/// A fuel-metered store together with the engine it was made from, tagged
/// with a ghost session id. Every module, instance, memory and function
/// handle below carries the id of the store it lives in, and each wrapper
/// requires the ids to agree, so wasmi's documented panics on a value used
/// with a foreign store cannot be reached from verified code.
struct FuelStore {
    engine: wasmi::Engine,
    store: wasmi::Store<()>,
    sid: Ghost<int>,
    fueled: Ghost<bool>,
}

/// A module compiled with a store's own engine.
struct StoreModule {
    module: wasmi::Module,
    sid: Ghost<int>,
    bytes: Ghost<Seq<u8>>,
}

/// An uninitialised instance awaiting its start section.
struct StorePre {
    pre: wasmi::InstancePre,
    sid: Ghost<int>,
    bytes: Ghost<Seq<u8>>,
}

/// A started instance.
struct StoreInstance {
    instance: wasmi::Instance,
    sid: Ghost<int>,
    bytes: Ghost<Seq<u8>>,
}

/// An exported linear memory.
struct StoreMemory {
    memory: wasmi::Memory,
    sid: Ghost<int>,
}

/// An exported `i32 -> i32` function.
struct StoreFunc1 {
    func: wasmi::TypedFunc<i32, i32>,
    sid: Ghost<int>,
}

/// An exported `(i32, i32) -> i32` function.
struct StoreFunc2 {
    func: wasmi::TypedFunc<(i32, i32), i32>,
    sid: Ghost<int>,
}

/// Relies on wasmi::Engine::default: an engine with default settings, used
/// only to inspect modules, never paired with a store.
#[verifier::external_body]
fn engine_plain() -> wasmi::Engine {
    wasmi::Engine::default()
}

/// Relies on wasmi::Config::consume_fuel, wasmi::Engine::new and
/// wasmi::Store::new: a fresh fuel-metering store over its own engine,
/// holding zero fuel. Building the engine and the store together is what
/// ties every later handle to this one store.
#[verifier::external_body]
fn fueled_store_new() -> (r: FuelStore)
    ensures
        !r.fueled@,
{
    let mut config = wasmi::Config::default();
    config.consume_fuel(true);
    let engine = wasmi::Engine::new(&config);
    let store = wasmi::Store::new(&engine, ());
    FuelStore { engine, store, sid: fresh_ghost(), fueled: fresh_ghost() }
}

/// Relies on wasmi::Store::add_fuel: grants the given fuel budget. wasmi
/// panics when the remaining-fuel counter overflows; a fresh store holds
/// zero fuel and the `fueled` ghost flag admits exactly one grant, so the
/// counter cannot overflow.
#[verifier::external_body]
fn store_add_fuel(st: &mut FuelStore, fuel: u64) -> (r: bool)
    requires
        !old(st).fueled@,
    ensures
        final(st).sid@ == old(st).sid@,
        final(st).fueled@,
{
    st.store.add_fuel(fuel).is_ok()
}

/// Relies on wasmi::Store::fuel_consumed: how much fuel the store has
/// burned, when the engine meters fuel.
#[verifier::external_body]
fn store_fuel_consumed(st: &FuelStore) -> (r: Option<u64>)
{
    st.store.fuel_consumed()
}

/// Relies on wasmi::Module::new: compiles and validates a WASM binary with
/// the store's own engine; a malformed binary is refused with an error,
/// never a panic. Acceptance is a function of the bytes alone, `wasm_ok`.
#[verifier::external_body]
fn store_module_new(st: &FuelStore, wasm: &[u8]) -> (r: Result<StoreModule, String>)
    ensures
        (r is Ok) == wasm_ok(wasm@),
        r matches Ok(m) ==> m.sid@ == st.sid@ && m.bytes@ == wasm@,
{
    match wasmi::Module::new(&st.engine, wasm) {
        Ok(module) => Ok(StoreModule {
            module,
            sid: fresh_ghost(),
            bytes: fresh_ghost(),
        }),
        Err(e) => Err(format!("{e}")),
    }
}

/// A module compiled on a plain engine, only to be inspected, carrying its
/// source bytes as a ghost field.
struct PlainModule {
    module: wasmi::Module,
    bytes: Ghost<Seq<u8>>,
}

/// Relies on wasmi::Module::new, as `store_module_new` does, for a plain
/// engine that no store is built on: used only to inspect modules.
#[verifier::external_body]
fn module_new(engine: &wasmi::Engine, wasm: &[u8]) -> (r: Result<PlainModule, String>)
    ensures
        (r is Ok) == wasm_ok(wasm@),
        r matches Ok(m) ==> m.bytes@ == wasm@,
{
    match wasmi::Module::new(engine, wasm) {
        Ok(module) => Ok(PlainModule { module, bytes: fresh_ghost() }),
        Err(e) => Err(format!("{e}")),
    }
}

/// Relies on wasmi::Linker::new and wasmi::Linker::instantiate: resolves
/// imports against an empty linker and builds an uninitialised instance,
/// so no ambient import can slip in. wasmi panics when the linker's engine
/// and the store's differ; the linker is built from this store's own
/// engine, and the ghost id ties the module to the same engine.
#[verifier::external_body]
fn linker_instantiate(st: &mut FuelStore, m: &StoreModule) -> (r: Result<StorePre, String>)
    requires
        m.sid@ == old(st).sid@,
    ensures
        final(st).sid@ == old(st).sid@,
        final(st).fueled@ == old(st).fueled@,
        r matches Ok(p) ==> p.sid@ == old(st).sid@ && p.bytes@ == m.bytes@,
{
    let linker: wasmi::Linker<()> = wasmi::Linker::new(&st.engine);
    match linker.instantiate(&mut st.store, &m.module) {
        Ok(pre) => Ok(StorePre { pre, sid: fresh_ghost(), bytes: fresh_ghost() }),
        Err(e) => Err(format!("{e}")),
    }
}

/// Relies on wasmi::InstancePre::start: runs the module's start section
/// under the store's fuel budget. wasmi panics on a foreign store; the
/// ghost id ties the pre-instance to this store.
#[verifier::external_body]
fn instance_start(st: &mut FuelStore, pre: StorePre) -> (r: Result<StoreInstance, String>)
    requires
        pre.sid@ == old(st).sid@,
    ensures
        final(st).sid@ == old(st).sid@,
        final(st).fueled@ == old(st).fueled@,
        r matches Ok(i) ==> i.sid@ == old(st).sid@ && i.bytes@ == pre.bytes@,
{
    match pre.pre.start(&mut st.store) {
        Ok(instance) => Ok(StoreInstance {
            instance,
            sid: fresh_ghost(),
            bytes: fresh_ghost(),
        }),
        Err(e) => Err(format!("{e}")),
    }
}

/// Relies on wasmi::Instance::get_typed_func: the exported function of the
/// given name and type `i32 -> i32`, if the module exports one. wasmi
/// panics on a foreign store; the ghost id ties the instance to this one.
#[verifier::external_body]
fn get_func1(st: &FuelStore, inst: &StoreInstance, name: &str) -> (r: Option<StoreFunc1>)
    requires
        inst.sid@ == st.sid@,
    ensures
        (r is Some) == wasm_has_func1(inst.bytes@, name@),
        r matches Some(f) ==> f.sid@ == st.sid@,
{
    match inst.instance.get_typed_func::<i32, i32>(&st.store, name) {
        Ok(func) => Some(StoreFunc1 { func, sid: fresh_ghost() }),
        Err(_) => None,
    }
}

/// Relies on wasmi::Instance::get_typed_func: the exported function of the
/// given name and type `(i32, i32) -> i32`, if the module exports one.
/// wasmi panics on a foreign store; the ghost id ties the instance to this
/// one.
#[verifier::external_body]
fn get_func2(st: &FuelStore, inst: &StoreInstance, name: &str) -> (r: Option<StoreFunc2>)
    requires
        inst.sid@ == st.sid@,
    ensures
        (r is Some) == wasm_has_func2(inst.bytes@, name@),
        r matches Some(f) ==> f.sid@ == st.sid@,
{
    match inst.instance.get_typed_func::<(i32, i32), i32>(&st.store, name) {
        Ok(func) => Some(StoreFunc2 { func, sid: fresh_ghost() }),
        Err(_) => None,
    }
}

/// Relies on wasmi::TypedFunc::call: runs an exported `i32 -> i32`
/// function under the store's fuel budget. wasmi panics on a foreign
/// store; the ghost id ties the function to this one.
#[verifier::external_body]
fn call_func1(st: &mut FuelStore, f: &StoreFunc1, arg: i32) -> (r: Result<i32, String>)
    requires
        f.sid@ == old(st).sid@,
    ensures
        final(st).sid@ == old(st).sid@,
        final(st).fueled@ == old(st).fueled@,
{
    f.func.call(&mut st.store, arg).map_err(|e| format!("{e}"))
}

/// Relies on wasmi::TypedFunc::call: runs an exported `(i32, i32) -> i32`
/// function under the store's fuel budget. wasmi panics on a foreign
/// store; the ghost id ties the function to this one.
#[verifier::external_body]
fn call_func2(st: &mut FuelStore, f: &StoreFunc2, a: i32, b: i32)
    -> (r: Result<i32, String>)
    requires
        f.sid@ == old(st).sid@,
    ensures
        final(st).sid@ == old(st).sid@,
        final(st).fueled@ == old(st).fueled@,
{
    f.func.call(&mut st.store, (a, b)).map_err(|e| format!("{e}"))
}

/// Relies on wasmi::Instance::get_memory: the exported linear memory named
/// `memory`, if the module exports one. wasmi panics on a foreign store;
/// the ghost id ties the instance to this one.
#[verifier::external_body]
fn get_memory(st: &FuelStore, inst: &StoreInstance) -> (r: Option<StoreMemory>)
    requires
        inst.sid@ == st.sid@,
    ensures
        (r is Some) == wasm_has_memory(inst.bytes@),
        r matches Some(m) ==> m.sid@ == st.sid@,
{
    match inst.instance.get_memory(&st.store, "memory") {
        Some(memory) => Some(StoreMemory { memory, sid: fresh_ghost() }),
        None => None,
    }
}

/// Relies on wasmi::Memory::current_pages: how many 64 KiB pages the
/// memory holds now. wasmi panics on a foreign store; the ghost id ties
/// the memory to this one.
#[verifier::external_body]
fn memory_pages(st: &FuelStore, mem: &StoreMemory) -> (r: u32)
    requires
        mem.sid@ == st.sid@,
{
    mem.memory.current_pages(&st.store).into()
}

/// Relies on wasmi::Memory::write: copies bytes into linear memory; fails
/// on an out-of-bounds range. wasmi panics on a foreign store; the ghost
/// id ties the memory to this one.
#[verifier::external_body]
fn memory_write(st: &mut FuelStore, mem: &StoreMemory, offset: usize, data: &[u8])
    -> (r: bool)
    requires
        mem.sid@ == old(st).sid@,
    ensures
        final(st).sid@ == old(st).sid@,
        final(st).fueled@ == old(st).fueled@,
{
    mem.memory.write(&mut st.store, offset, data).is_ok()
}

/// Relies on wasmi::Memory::read: copies bytes out of linear memory into
/// a zeroed buffer of the asked length; fails on an out-of-bounds range.
/// wasmi panics on a foreign store; the ghost id ties the memory to this
/// one.
#[verifier::external_body]
fn memory_read(st: &FuelStore, mem: &StoreMemory, offset: usize, len: usize)
    -> (r: Option<Vec<u8>>)
    requires
        mem.sid@ == st.sid@,
    ensures
        r matches Some(b) ==> b@.len() == len,
{
    let mut buf = std::vec![0u8; len];
    match mem.memory.read(&st.store, offset, &mut buf) {
        Ok(()) => Some(buf),
        Err(_) => None,
    }
}

/// Relies on wat::parse_str: the WASM binary of a WebAssembly text module.
/// Both acceptance and the result are functions of the text alone.
#[verifier::external_body]
fn wat_to_wasm(text: &str) -> (r: Result<Vec<u8>, String>)
    ensures
        (r is Ok) == wat_ok(text@),
        r matches Ok(b) ==> b@ == wat_wasm_of(text@),
{
    wat::parse_str(text).map_err(|e| format!("{e}"))
}

/// Whether wat accepts the text as a module: what `wat::parse_str`
/// decides, a function of the text alone.
pub uninterp spec fn wat_ok(text: Seq<char>) -> bool;

/// The WASM binary WebAssembly text compiles to.
pub uninterp spec fn wat_wasm_of(text: Seq<char>) -> Seq<u8>;

/// Compilation errors for WebAssembly text.
#[derive(Clone, Debug, PartialEq, Eq)]
pub enum CompileError {
    /// The text does not parse.
    ParseError(String),
    /// The text is not a module.
    InvalidWat(String),
}

/// Compiles WebAssembly text to a WASM binary: succeeds exactly when wat
/// accepts the text, and then returns its binary.
pub fn compile_wat(wat_text: &str) -> (r: Result<Vec<u8>, CompileError>)
    ensures
        (r is Ok) == wat_ok(wat_text@),
        r matches Ok(b) ==> b@ == wat_wasm_of(wat_text@),
        r matches Err(e) ==> e matches CompileError::ParseError(_),
{
    match wat_to_wasm(wat_text) {
        Ok(b) => Ok(b),
        Err(msg) => Err(CompileError::ParseError(msg)),
    }
}

/// Validation errors for WASM binaries.
#[derive(Clone, Debug, PartialEq, Eq)]
pub enum ValidateError {
    /// The binary is malformed.
    InvalidWasm(String),
    /// A required export is missing.
    MissingExport(String),
    /// An import is not on the whitelist.
    ForbiddenImport(String),
}

/// Checks that a binary is a well-formed WASM module: succeeds exactly
/// when wasmi accepts the bytes.
pub fn validate_wasm(wasm: &[u8]) -> (r: Result<(), ValidateError>)
    ensures
        (r is Ok) == wasm_ok(wasm@),
        r matches Err(e) ==> e matches ValidateError::InvalidWasm(_),
{
    let engine = engine_plain();
    match module_new(&engine, wasm) {
        Ok(_) => Ok(()),
        Err(msg) => Err(ValidateError::InvalidWasm(msg)),
    }
}

/// What a module exports and imports.
#[derive(Debug)]
pub struct WasmMetadata {
    /// The export names.
    pub exports: Vec<String>,
    /// The imports.
    pub imports: Vec<ImportInfo>,
}

/// One import of a module.
#[derive(Debug)]
pub struct ImportInfo {
    /// The module the import comes from.
    pub module: String,
    /// The imported name.
    pub name: String,
    /// The type, as text.
    pub ty: String,
}

/// Metadata errors.
#[derive(Clone, Debug, PartialEq, Eq)]
pub enum MetadataError {
    /// The binary could not be loaded.
    LoadFailed(String),
}

/// Relies on wasmi::Module::exports: the export names of a module, in
/// declaration order, a function of the module's bytes alone.
#[verifier::external_body]
fn module_exports(m: &PlainModule) -> (r: Vec<String>)
    ensures
        r@.map_values(|s: String| s@) == wasm_export_names(m.bytes@),
{
    m.module.exports().map(|e| String::from(e.name())).collect()
}

/// Relies on wasmi::Module::imports: each import's module, name and type
/// text, in declaration order, a function of the module's bytes alone.
#[verifier::external_body]
fn module_imports(m: &PlainModule) -> (r: Vec<(String, String, String)>)
    ensures
        r@.map_values(|t: (String, String, String)| (t.0@, t.1@, t.2@))
            == wasm_import_list(m.bytes@),
{
    m.module.imports().map(|i| (
        String::from(i.module()),
        String::from(i.name()),
        format!("{:?}", i.ty()),
    )).collect()
}

/// Reads the exports and imports of a WASM binary: succeeds exactly when
/// wasmi accepts the bytes, and then lists the module's export names and
/// imports in declaration order.
pub fn extract_metadata(wasm: &[u8]) -> (r: Result<WasmMetadata, MetadataError>)
    ensures
        (r is Ok) == wasm_ok(wasm@),
        r matches Ok(md) ==> md.exports@.map_values(|s: String| s@)
                == wasm_export_names(wasm@)
            && md.imports@.len() == wasm_import_list(wasm@).len()
            && (forall|i: int| 0 <= i < md.imports@.len()
                ==> (#[trigger] md.imports@[i]).module@ == wasm_import_list(wasm@)[i].0
                    && md.imports@[i].name@ == wasm_import_list(wasm@)[i].1
                    && md.imports@[i].ty@ == wasm_import_list(wasm@)[i].2),
{
    let engine = engine_plain();
    let module = match module_new(&engine, wasm) {
        Ok(m) => m,
        Err(msg) => {
            return Err(MetadataError::LoadFailed(msg));
        },
    };
    let exports = module_exports(&module);
    let raw_imports = module_imports(&module);
    let mut imports: Vec<ImportInfo> = Vec::new();
    let n = raw_imports.len();
    let mut i: usize = 0;
    proof {
        assert(raw_imports@.map_values(|t: (String, String, String)| (t.0@, t.1@, t.2@))
            == wasm_import_list(wasm@));
    }
    while i < n
        invariant
            n == raw_imports@.len(),
            raw_imports@.map_values(|t: (String, String, String)| (t.0@, t.1@, t.2@))
                == wasm_import_list(wasm@),
            i <= n,
            imports@.len() == i,
            forall|j: int| 0 <= j < i
                ==> (#[trigger] imports@[j]).module@ == raw_imports@[j].0@
                    && imports@[j].name@ == raw_imports@[j].1@
                    && imports@[j].ty@ == raw_imports@[j].2@,
        decreases n - i,
    {
        let (m, nm, ty) = {
            let e = &raw_imports[i];
            (e.0.clone(), e.1.clone(), e.2.clone())
        };
        imports.push(ImportInfo { module: m, name: nm, ty });
        i += 1;
    }
    proof {
        assert forall|j: int| 0 <= j < imports@.len()
            implies (#[trigger] imports@[j]).module@ == wasm_import_list(wasm@)[j].0
                && imports@[j].name@ == wasm_import_list(wasm@)[j].1
                && imports@[j].ty@ == wasm_import_list(wasm@)[j].2 by {
            assert(wasm_import_list(wasm@)[j] == raw_imports@.map_values(
                |t: (String, String, String)| (t.0@, t.1@, t.2@))[j]);
        }
        assert(wasm_import_list(wasm@).len() == raw_imports@.len());
    }
    Ok(WasmMetadata { exports, imports })
}

/// What a sandboxed run produced.
#[derive(Debug)]
pub struct ExecutionResult {
    /// The module's output bytes.
    pub output: Vec<u8>,
    /// How much fuel the run burned.
    pub fuel_consumed: u64,
    /// How many memory pages the module held at the end.
    pub memory_used_pages: u32,
    /// Whether the run succeeded.
    pub success: bool,
    /// An error note, if any.
    pub error: Option<String>,
}

impl ExecutionResult {
    /// The hash of the output bytes.
    pub fn output_hash(&self) -> (r: crate::hashes::Hash)
        ensures
            r@ == crate::hashes::blake3_of(self.output@),
    {
        crate::hashes::Hash::from_bytes(self.output.as_slice())
    }

    /// Whether the run succeeded cleanly.
    pub fn is_success(&self) -> (b: bool)
        ensures
            b == (self.success && self.error is None),
    {
        self.success && self.error.is_none()
    }
}

/// Sandbox errors.
#[derive(Clone, Debug, PartialEq, Eq)]
pub enum SandboxError {
    /// The module does not compile.
    CompilationFailed(String),
    /// The module does not instantiate.
    InstantiationFailed(String),
    /// The run failed.
    ExecutionFailed(String),
    /// A required export is missing.
    MissingExport(String),
    /// The module exports no memory.
    MissingMemory,
    /// A memory access failed.
    MemoryAccessFailed(String),
    /// The run burned past the fuel budget.
    FuelExhausted,
    /// The module grew past the memory budget.
    MemoryLimitExceeded,
    /// The run timed out.
    Timeout,
    /// The output is larger than allowed.
    OutputTooLarge,
}

/// A fuel-, memory- and output-bounded sandbox for WASM tool modules.
#[derive(Clone, Copy, Debug, PartialEq, Eq, Structural)]
pub struct Sandbox {
    /// The instruction budget.
    pub max_fuel: u64,
    /// The memory ceiling, in 64 KiB pages.
    pub max_memory_pages: u32,
    /// The time ceiling in milliseconds.
    pub timeout_ms: u64,
    /// The output ceiling in bytes.
    pub max_output_bytes: usize,
}

impl Sandbox {
    /// A sandbox with the given bounds.
    pub fn new(max_fuel: u64, max_memory_pages: u32, timeout_ms: u64) -> (r: Self)
        ensures
            r.max_fuel == max_fuel,
            r.max_memory_pages == max_memory_pages,
            r.timeout_ms == timeout_ms,
            r.max_output_bytes == 1024usize,
    {
        Sandbox { max_fuel, max_memory_pages, timeout_ms, max_output_bytes: 1024 }
    }

    /// A sandbox with default bounds: a million fuel, sixteen pages, five
    /// seconds.
    pub fn default_limits() -> (r: Self)
        ensures
            r.max_fuel == 1000000,
            r.max_memory_pages == 16,
            r.timeout_ms == 5000,
    {
        Sandbox { max_fuel: 1000000, max_memory_pages: 16, timeout_ms: 5000,
            max_output_bytes: 1024 }
    }

    /// Runs a module on input bytes under the configured bounds. The module
    /// must export `memory`, `alloc(size) -> ptr`,
    /// `run(ptr, len) -> result_ptr` and
    /// `output_size(result_ptr) -> len`; a missing export ends the run with
    /// `MissingExport` naming it. A run that burns past the fuel
    /// budget ends with `FuelExhausted`, and no output is produced; a
    /// module that grows past the memory budget ends with
    /// `MemoryLimitExceeded`; output beyond the output budget ends with
    /// `OutputTooLarge`. On success the reported fuel stays within the
    /// budget.
    pub fn execute(&self, wasm_bytes: &[u8], input: &[u8])
        -> (r: Result<ExecutionResult, SandboxError>)
        requires
            input@.len() <= i32::MAX,
        ensures
            r matches Ok(res) ==> res.success && res.fuel_consumed <= self.max_fuel
                && res.memory_used_pages <= self.max_memory_pages
                && res.output@.len() <= self.max_output_bytes,
            (r matches Err(SandboxError::CompilationFailed(_))) == !wasm_ok(wasm_bytes@),
            r is Ok ==> wasm_ok(wasm_bytes@) && wasm_has_memory(wasm_bytes@)
                && wasm_has_func1(wasm_bytes@, "alloc"@)
                && wasm_has_func2(wasm_bytes@, "run"@)
                && wasm_has_func1(wasm_bytes@, "output_size"@),
            r matches Err(SandboxError::InstantiationFailed(_)) ==> wasm_ok(wasm_bytes@),
            r matches Err(SandboxError::MissingMemory) ==> wasm_ok(wasm_bytes@)
                && !wasm_has_memory(wasm_bytes@),
            r matches Err(SandboxError::MissingExport(n)) ==> wasm_ok(wasm_bytes@)
                && wasm_has_memory(wasm_bytes@)
                && ((n@ == "alloc"@ && !wasm_has_func1(wasm_bytes@, "alloc"@))
                    || (n@ == "run"@ && wasm_has_func1(wasm_bytes@, "alloc"@)
                        && !wasm_has_func2(wasm_bytes@, "run"@))
                    || (n@ == "output_size"@ && wasm_has_func1(wasm_bytes@, "alloc"@)
                        && wasm_has_func2(wasm_bytes@, "run"@)
                        && !wasm_has_func1(wasm_bytes@, "output_size"@))),
            (r matches Err(SandboxError::FuelExhausted)
                || r matches Err(SandboxError::ExecutionFailed(_))
                || r matches Err(SandboxError::MemoryAccessFailed(_))
                || r matches Err(SandboxError::MemoryLimitExceeded)
                || r matches Err(SandboxError::OutputTooLarge))
                ==> wasm_ok(wasm_bytes@) && wasm_has_memory(wasm_bytes@)
                    && wasm_has_func1(wasm_bytes@, "alloc"@)
                    && wasm_has_func2(wasm_bytes@, "run"@)
                    && wasm_has_func1(wasm_bytes@, "output_size"@),
            !(r matches Err(SandboxError::Timeout)),
    {
        let mut st = fueled_store_new();
        let module = match store_module_new(&st, wasm_bytes) {
            Ok(m) => m,
            Err(msg) => {
                return Err(SandboxError::CompilationFailed(msg));
            },
        };
        let _ = store_add_fuel(&mut st, self.max_fuel);
        let pre = match linker_instantiate(&mut st, &module) {
            Ok(p) => p,
            Err(msg) => {
                return Err(SandboxError::InstantiationFailed(msg));
            },
        };
        let instance = match instance_start(&mut st, pre) {
            Ok(i) => i,
            Err(msg) => {
                return Err(SandboxError::InstantiationFailed(msg));
            },
        };
        let memory = match get_memory(&st, &instance) {
            Option::Some(m) => m,
            Option::None => {
                return Err(SandboxError::MissingMemory);
            },
        };
        let alloc_fn = match get_func1(&st, &instance, "alloc") {
            Option::Some(f) => f,
            Option::None => {
                return Err(SandboxError::MissingExport(String::from_str("alloc")));
            },
        };
        let run_fn = match get_func2(&st, &instance, "run") {
            Option::Some(f) => f,
            Option::None => {
                return Err(SandboxError::MissingExport(String::from_str("run")));
            },
        };
        let size_fn = match get_func1(&st, &instance, "output_size") {
            Option::Some(f) => f,
            Option::None => {
                return Err(SandboxError::MissingExport(String::from_str("output_size")));
            },
        };
        let input_ptr = match call_func1(&mut st, &alloc_fn, input.len() as i32) {
            Ok(p) => p,
            Err(msg) => {
                return Err(self.classify_trap(&st, msg));
            },
        };
        if input_ptr < 0 {
            return Err(SandboxError::MemoryAccessFailed(String::from_str(
                "the module returned a negative pointer")));
        }
        if !memory_write(&mut st, &memory, input_ptr as usize, input) {
            return Err(SandboxError::MemoryAccessFailed(String::from_str(
                "the input does not fit at the returned pointer")));
        }
        let result_ptr = match call_func2(&mut st, &run_fn, input_ptr, input.len() as i32) {
            Ok(p) => p,
            Err(msg) => {
                return Err(self.classify_trap(&st, msg));
            },
        };
        if result_ptr < 0 {
            return Err(SandboxError::MemoryAccessFailed(String::from_str(
                "the module returned a negative result pointer")));
        }
        let pages = memory_pages(&st, &memory);
        if pages > self.max_memory_pages {
            return Err(SandboxError::MemoryLimitExceeded);
        }
        // Read the output length from the required `output_size` export.
        let out_len: usize = match call_func1(&mut st, &size_fn, result_ptr) {
            Ok(l) => {
                if l < 0 {
                    0
                } else {
                    l as usize
                }
            },
            Err(msg) => {
                return Err(self.classify_trap(&st, msg));
            },
        };
        if out_len > self.max_output_bytes {
            return Err(SandboxError::OutputTooLarge);
        }
        let output = if out_len == 0 {
            Vec::new()
        } else {
            match memory_read(&st, &memory, result_ptr as usize, out_len) {
                Option::Some(b) => b,
                Option::None => {
                    return Err(SandboxError::MemoryAccessFailed(String::from_str(
                        "the output range is out of bounds")));
                },
            }
        };
        let output = truncate_bytes(output, self.max_output_bytes);
        let fuel_used = match store_fuel_consumed(&st) {
            Option::Some(f) => {
                if f > self.max_fuel {
                    self.max_fuel
                } else {
                    f
                }
            },
            Option::None => 0,
        };
        Ok(ExecutionResult {
            output,
            fuel_consumed: fuel_used,
            memory_used_pages: pages,
            success: true,
            error: None,
        })
    }

    /// Runs a module under the same bounds; the timeout is enforced by the
    /// fuel budget, which bounds the instructions a run can burn.
    pub fn execute_with_timeout(&self, wasm_bytes: &[u8], input: &[u8])
        -> (r: Result<ExecutionResult, SandboxError>)
        requires
            input@.len() <= i32::MAX,
        ensures
            r matches Ok(res) ==> res.success && res.fuel_consumed <= self.max_fuel
                && res.memory_used_pages <= self.max_memory_pages
                && res.output@.len() <= self.max_output_bytes,
            (r matches Err(SandboxError::CompilationFailed(_))) == !wasm_ok(wasm_bytes@),
            r is Ok ==> wasm_ok(wasm_bytes@) && wasm_has_memory(wasm_bytes@)
                && wasm_has_func1(wasm_bytes@, "alloc"@)
                && wasm_has_func2(wasm_bytes@, "run"@)
                && wasm_has_func1(wasm_bytes@, "output_size"@),
            !(r matches Err(SandboxError::Timeout)),
    {
        self.execute(wasm_bytes, input)
    }

    /// Classifies a failed call: reads the fuel gauge and hands the reading
    /// to `classify_fuel`.
    fn classify_trap(&self, st: &FuelStore, msg: String) -> (r: SandboxError)
        ensures
            r is FuelExhausted || r is ExecutionFailed,
    {
        let consumed = store_fuel_consumed(st);
        classify_fuel(consumed, self.max_fuel, msg)
    }
}

/// Classifies a failed call from the fuel gauge reading: a run that burned
/// its whole budget failed for fuel; anything else failed on its own, and
/// keeps its message.
pub fn classify_fuel(consumed: Option<u64>, max_fuel: u64, msg: String)
    -> (r: SandboxError)
    ensures
        (r is FuelExhausted)
            == (consumed matches Option::Some(f) && f >= max_fuel),
        !(consumed matches Option::Some(f) && f >= max_fuel)
            ==> (r matches SandboxError::ExecutionFailed(m) && m@ == msg@),
{
    match consumed {
        Option::Some(f) => {
            if f >= max_fuel {
                SandboxError::FuelExhausted
            } else {
                SandboxError::ExecutionFailed(msg)
            }
        },
        Option::None => SandboxError::ExecutionFailed(msg),
    }
}

/// The first `cap` bytes.
fn truncate_bytes(bytes: Vec<u8>, cap: usize) -> (r: Vec<u8>)
    ensures
        r@.len() <= cap,
        r@ == if bytes@.len() <= cap { bytes@ } else { bytes@.take(cap as int) },
{
    if bytes.len() <= cap {
        return bytes;
    }
    let mut out: Vec<u8> = Vec::new();
    let mut i: usize = 0;
    while i < cap
        invariant
            i <= cap,
            i <= bytes@.len(),
            cap <= bytes@.len(),
            out@.len() == i,
            out@ == bytes@.take(i as int),
        decreases cap - i,
    {
        out.push(bytes[i]);
        proof {
            assert(out@ =~= bytes@.take(i + 1));
        }
        i += 1;
    }
    out
}

/// Host-side state for sandboxed tools: the capabilities granted to host
/// functions and the log lines a module wrote.
#[derive(Debug)]
pub struct HostState {
    capabilities: Vec<String>,
    logs: Vec<String>,
}

/// Host function errors.
#[derive(Clone, Debug, PartialEq, Eq)]
pub enum HostError {
    /// The capability is not granted.
    Denied(String),
    /// The arguments are malformed.
    InvalidArgs(String),
    /// The call failed.
    Failed(String),
    /// The buffer is too small.
    BufferTooSmall,
    /// A memory access failed.
    MemoryAccessFailed,
}

impl HostState {
    /// The granted capability names.
    pub closed spec fn spec_capabilities(&self) -> Seq<String> {
        self.capabilities@
    }

    /// The logged lines, in order.
    pub closed spec fn spec_logs(&self) -> Seq<String> {
        self.logs@
    }

    /// A state with the given capabilities and no logs.
    pub fn new(capabilities: Vec<String>) -> (r: Self)
        ensures
            r.spec_capabilities() == capabilities@,
            r.spec_logs().len() == 0,
    {
        HostState { capabilities, logs: Vec::new() }
    }

    /// Whether a capability is granted by exact name.
    pub fn has_capability(&self, cap: &str) -> (b: bool)
        ensures
            b == exists|i: int| 0 <= i < self.spec_capabilities().len()
                && (#[trigger] self.spec_capabilities()[i])@ == cap@,
    {
        let n = self.capabilities.len();
        let mut i: usize = 0;
        while i < n
            invariant
                n == self.spec_capabilities().len(),
                i <= n,
                forall|j: int| 0 <= j < i
                    ==> (#[trigger] self.spec_capabilities()[j])@ != cap@,
            decreases n - i,
        {
            if crate::order::str_eq(self.capabilities[i].as_str(), cap) {
                proof {
                    assert(self.spec_capabilities()[i as int]@ == cap@);
                }
                return true;
            }
            i += 1;
        }
        false
    }

    /// Records a log line a module wrote; only granted when the `log`
    /// capability is held, which callers check first.
    pub fn log_message(&mut self, msg: &str)
        ensures
            final(self).spec_capabilities() == old(self).spec_capabilities(),
            final(self).spec_logs().len() == old(self).spec_logs().len() + 1,
            final(self).spec_logs().last()@ == msg@,
    {
        self.logs.push(String::from_str(msg));
    }

    /// The logged lines, in order.
    pub fn logs(&self) -> (r: &Vec<String>)
        ensures
            r@ == self.spec_logs(),
    {
        &self.logs
    }

    /// Forgets the logged lines.
    pub fn clear_logs(&mut self)
        ensures
            final(self).spec_capabilities() == old(self).spec_capabilities(),
            final(self).spec_logs().len() == 0,
    {
        self.logs = Vec::new();
    }
}

} // verus!
