//! Dynamic libraries, as `libloading` hands them out.
//!
//! Nothing in this module is proved: it says what the rest of the crate takes
//! for granted about the loader.

use vstd::prelude::*;

verus! {

/// `libloading::Library`: an open dynamic library. Opaque here; the code that
/// a library holds stays valid for as long as its handle is open.
#[verifier::external_type_specification]
#[verifier::external_body]
pub struct LoaderLibrary(libloading::Library);

/// `libloading::Error`: why the loader refused. Opaque here.
#[verifier::external_type_specification]
#[verifier::external_body]
pub struct LoaderError(libloading::Error);

/// Calls `libloading::Library::new` on `path`. Whether the library opens
/// depends on what the loader finds, so nothing is claimed of the result.
#[verifier::external_body]
pub(crate) fn open_library(path: &str) -> (opened: Result<libloading::Library, libloading::Error>) {
    libloading::Library::new(path)
}

/// Calls `libloading::Library::close`, which gives the handle up whether or
/// not the loader reports an error. Nothing is claimed of the result.
#[verifier::external_body]
pub(crate) fn close_library(library: libloading::Library) -> (closed: Result<(), libloading::Error>) {
    library.close()
}

} // verus!
