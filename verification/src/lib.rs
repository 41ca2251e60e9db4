//! Replace the implementation behind a stable call site at runtime.
//!
//! A patch cell holds the implementation that is currently in force, the
//! default it started with, and the dynamic library that backs the current
//! implementation, if any. Patches come from a value of the cell's callable type
//! or from the export table of a dynamic library, which is scanned for an entry
//! whose path and signature agree with the cell's own.

pub mod error;
pub mod path;
pub mod signature;
pub mod export;
pub mod resolver;
pub mod library;
pub mod model;
pub mod cell;
pub mod sync;
pub mod patchable;

pub use cell::HotpatchImportInternal;
pub use error::PatchError;
pub use export::HotpatchExport;
pub use patchable::{HotpatchFn, HotpatchLib, Patchable};
