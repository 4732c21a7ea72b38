//! Import resolution for the sandbox that runs describe shims: every declared
//! import gets an inert stand-in, so that instantiation never fails on an
//! unresolved import.
use vstd::prelude::*;

verus! {

/// The two host functions that a function import can be bound to.
#[derive(Clone, Copy, Debug, PartialEq, Eq)]
pub enum HostFunc {
    /// Traps whenever it is called.
    Unreachable,
    /// The describe callback, which reports one token per call.
    Describe,
}

impl HostFunc {
    /// The host-function index this stand-in is registered under.
    pub open spec fn spec_index(self) -> nat {
        match self {
            HostFunc::Unreachable => 0,
            HostFunc::Describe => 1,
        }
    }

    /// The host-function index this stand-in is registered under.
    pub fn index(&self) -> (r: usize)
        ensures
            r == self.spec_index(),
    {
        match self {
            HostFunc::Unreachable => 0,
            HostFunc::Describe => 1,
        }
    }

    /// The stand-in registered under `index`; any index but the describe
    /// callback's is the trapping stand-in.
    pub fn from_index(index: usize) -> (r: HostFunc)
        ensures
            r == (if index == 1 { HostFunc::Describe } else { HostFunc::Unreachable }),
    {
        if index == 1 {
            HostFunc::Describe
        } else {
            HostFunc::Unreachable
        }
    }
}

/// The value types of wasm globals and values.
#[derive(Clone, Copy, Debug, PartialEq, Eq)]
pub enum ValueKind {
    I32,
    I64,
    F32,
    F64,
}

/// A wasm value; floats are held as their IEEE bit patterns.
#[derive(Clone, Copy, Debug, PartialEq, Eq)]
pub enum HostValue {
    I32(i32),
    I64(i64),
    F32Bits(u32),
    F64Bits(u64),
}

/// The zero value of each value type.
pub open spec fn zero_of(kind: ValueKind) -> HostValue {
    match kind {
        ValueKind::I32 => HostValue::I32(0),
        ValueKind::I64 => HostValue::I64(0),
        ValueKind::F32 => HostValue::F32Bits(0),
        ValueKind::F64 => HostValue::F64Bits(0),
    }
}

/// A fresh global for a global import.
#[derive(Clone, Copy, Debug, PartialEq, Eq)]
pub struct GlobalPlan {
    pub value: HostValue,
    pub mutable: bool,
}

/// A fresh linear memory for a memory import, in pages.
#[derive(Clone, Copy, Debug, PartialEq, Eq)]
pub struct MemoryPlan {
    pub initial_pages: usize,
    pub maximum_pages: Option<usize>,
}

/// A fresh table for a table import, in entries.
#[derive(Clone, Copy, Debug, PartialEq, Eq)]
pub struct TablePlan {
    pub initial: u32,
    pub maximum: Option<u32>,
}

/// One import as the module declares it.
pub enum ImportDesc {
    Func { module: String, field: String },
    Global { kind: ValueKind, mutable: bool },
    Memory { initial: u32, maximum: Option<u32> },
    Table { initial: u32, maximum: Option<u32> },
}

/// The stand-in chosen for one import.
#[derive(Clone, Copy, Debug, PartialEq, Eq)]
pub enum ImportPlan {
    Func(HostFunc),
    Global(GlobalPlan),
    Memory(MemoryPlan),
    Table(TablePlan),
}

/// The module name of the describe callback.
pub open spec fn describe_module() -> Seq<char> {
    "__wbindgen_placeholder__"@
}

/// The field name of the describe callback.
pub open spec fn describe_field() -> Seq<char> {
    "__wbindgen_describe"@
}

/// The stand-in for a function import named `module`.`field`.
pub open spec fn func_plan(module: Seq<char>, field: Seq<char>) -> HostFunc {
    if module == describe_module() && field == describe_field() {
        HostFunc::Describe
    } else {
        HostFunc::Unreachable
    }
}

/// The stand-in for each kind of import.
pub open spec fn plan_of(d: ImportDesc) -> ImportPlan {
    match d {
        ImportDesc::Func { module, field } => ImportPlan::Func(func_plan(module@, field@)),
        ImportDesc::Global { kind, mutable } => ImportPlan::Global(
            GlobalPlan { value: zero_of(kind), mutable },
        ),
        ImportDesc::Memory { initial, maximum } => ImportPlan::Memory(
            MemoryPlan {
                initial_pages: initial as usize,
                maximum_pages: match maximum {
                    Some(m) => Some(m as usize),
                    None => None,
                },
            },
        ),
        ImportDesc::Table { initial, maximum } => ImportPlan::Table(TablePlan { initial, maximum }),
    }
}

/// The largest number of pages a linear memory may have.
pub const MAX_MEMORY_PAGES: u32 = 65536;

/// Whether the limits an import declares are valid wasm limits.
pub open spec fn import_well_formed(d: ImportDesc) -> bool {
    match d {
        ImportDesc::Memory { initial, maximum } => {
            &&& initial <= MAX_MEMORY_PAGES
            &&& match maximum {
                Some(m) => initial <= m && m <= MAX_MEMORY_PAGES,
                None => true,
            }
        },
        ImportDesc::Table { initial, maximum } => match maximum {
            Some(m) => initial <= m,
            None => true,
        },
        _ => true,
    }
}

/// Whether the runtime can allocate the stand-in `p`: its limits are those
/// that a memory or table allocation accepts.
pub open spec fn plan_allocatable(p: ImportPlan) -> bool {
    match p {
        ImportPlan::Memory(m) => {
            &&& m.initial_pages <= MAX_MEMORY_PAGES
            &&& match m.maximum_pages {
                Some(x) => m.initial_pages <= x && x <= MAX_MEMORY_PAGES,
                None => true,
            }
        },
        ImportPlan::Table(t) => match t.maximum {
            Some(x) => t.initial <= x,
            None => true,
        },
        _ => true,
    }
}

fn same_str(a: &str, b: &str) -> (r: bool)
    ensures
        r == (a@ == b@),
{
    a.to_owned() == b.to_owned()
}

/// Resolves every import to an inert stand-in. Function imports go to the
/// describe callback or to the trapping stand-in; globals, memories and
/// tables are allocated fresh.
pub struct ShimResolver;

impl ShimResolver {
    /// Only `__wbindgen_placeholder__`.`__wbindgen_describe` reaches the
    /// describe callback; every other function import traps when called.
    pub fn resolve_func(&self, module_name: &str, field_name: &str) -> (r: HostFunc)
        ensures
            r == func_plan(module_name@, field_name@),
    {
        if same_str(module_name, "__wbindgen_placeholder__") && same_str(
            field_name,
            "__wbindgen_describe",
        ) {
            HostFunc::Describe
        } else {
            HostFunc::Unreachable
        }
    }

    /// A global of the declared type and mutability, holding that type's zero.
    pub fn resolve_global(&self, kind: ValueKind, mutable: bool) -> (r: GlobalPlan)
        ensures
            r.value == zero_of(kind),
            r.mutable == mutable,
    {
        let value = match kind {
            ValueKind::I32 => HostValue::I32(0),
            ValueKind::I64 => HostValue::I64(0),
            ValueKind::F32 => HostValue::F32Bits(0),
            ValueKind::F64 => HostValue::F64Bits(0),
        };
        GlobalPlan { value, mutable }
    }

    /// A memory of the declared initial size and maximum, in pages.
    pub fn resolve_memory(&self, initial: u32, maximum: Option<u32>) -> (r: MemoryPlan)
        ensures
            r.initial_pages == initial,
            r.maximum_pages is Some <==> maximum is Some,
            maximum is Some ==> r.maximum_pages->0 == maximum->0,
    {
        let maximum_pages = match maximum {
            Some(m) => Some(m as usize),
            None => None,
        };
        MemoryPlan { initial_pages: initial as usize, maximum_pages }
    }

    /// A table of the declared initial size and maximum, in entries.
    pub fn resolve_table(&self, initial: u32, maximum: Option<u32>) -> (r: TablePlan)
        ensures
            r.initial == initial,
            r.maximum == maximum,
    {
        TablePlan { initial, maximum }
    }

    /// The stand-in for any import; every import gets one.
    pub fn resolve(&self, d: &ImportDesc) -> (r: ImportPlan)
        ensures
            r == plan_of(*d),
    {
        match d {
            ImportDesc::Func { module, field } => ImportPlan::Func(
                self.resolve_func(module.as_str(), field.as_str()),
            ),
            ImportDesc::Global { kind, mutable } => ImportPlan::Global(
                self.resolve_global(*kind, *mutable),
            ),
            ImportDesc::Memory { initial, maximum } => ImportPlan::Memory(
                self.resolve_memory(*initial, *maximum),
            ),
            ImportDesc::Table { initial, maximum } => ImportPlan::Table(
                self.resolve_table(*initial, *maximum),
            ),
        }
    }
}

/// Resolution is total and never yields a stand-in the runtime would refuse:
/// for any imports with well-formed limits, of any mix of kinds, each one is
/// given a stand-in that can be allocated.
pub proof fn lemma_resolution_total(imports: Seq<ImportDesc>)
    requires
        forall|i: int| 0 <= i < imports.len() ==> import_well_formed(#[trigger] imports[i]),
    ensures
        forall|i: int| 0 <= i < imports.len() ==> plan_allocatable(#[trigger] plan_of(imports[i])),
{
    assert forall|i: int| 0 <= i < imports.len() implies plan_allocatable(#[trigger] plan_of(imports[i])) by {
        assert(import_well_formed(imports[i]));
    }
}

} // verus!
