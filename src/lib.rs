//! Recovery of embedded binding metadata from a compiled wasm module, and the
//! decisions of the sandbox that runs its describe shims.
pub mod bindgen;
pub mod describe;
pub mod frames;
pub mod harvest;
pub mod sandbox;

pub use bindgen::Bindgen;
pub use describe::{replay, DescriptorRun, HostCall, HostCallError};
pub use harvest::{extract_programs, MalformedKind, MetadataError, VersionConfig, VersionEnvelope};
pub use sandbox::{
    GlobalPlan, HostFunc, HostValue, ImportDesc, ImportPlan, MemoryPlan, ShimResolver, TablePlan,
    ValueKind,
};
