//! The state of a patch cell: one swappable implementation.
//!
//! The implementation in force is the default that the cell was made with, a
//! value handed in by the program, or one taken from the export table of a
//! dynamic library; in the last case the cell keeps that library open for as
//! long as the implementation stays in force.

use vstd::prelude::*;
use crate::error::PatchError;
use crate::export::{export_symbol, export_symbol_name, HotpatchExport};
use crate::library::{close_library, open_library};
use crate::model::{CellModel, Origin};
use crate::path::{normalize, normalized};
use crate::resolver::{
    all_skipped, examine, lemma_resolve_first_match, lemma_resolve_skips, path_matches, resolve,
    Resolution, Verdict,
};

verus! {

/// The implementation in force, with the library that backs it.
enum Implementation<F> {
    Default,
    Closure(F),
    Library(F, libloading::Library),
}

/// The state of a patch cell. Every operation on it needs exclusive access;
/// [`crate::patchable::Patchable`] puts a lock around it.
pub struct HotpatchImportInternal<F: 'static> {
    state: Implementation<F>,
    default: F,
}

impl<F: 'static> View for HotpatchImportInternal<F> {
    type V = CellModel<F>;

    closed spec fn view(&self) -> CellModel<F> {
        CellModel {
            current: match self.state {
                Implementation::Default => self.default,
                Implementation::Closure(f) => f,
                Implementation::Library(f, _) => f,
            },
            default: self.default,
            origin: match self.state {
                Implementation::Default => Origin::Default,
                Implementation::Closure(_) => Origin::Closure,
                Implementation::Library(_, _) => Origin::Library,
            },
            library: match self.state {
                Implementation::Library(_, library) => Some(library),
                _ => None,
            },
        }
    }
}

/// What a lookup handed back for the symbol of index `index` in `library`.
pub open spec fn delivered<F: 'static, G: Fn(&libloading::Library, &str) -> Option<HotpatchExport<F>>>(
    lookup: G,
    library: libloading::Library,
    index: int,
    found: Option<HotpatchExport<F>>,
) -> bool {
    exists|name: &str| #[trigger]
        call_ensures(lookup, (&library, name), found) && name@ == export_symbol(index as nat)
}

/// Whether `seen` holds, in index order from zero, records that lookups in
/// `library` handed back.
pub open spec fn observed<F: 'static, G: Fn(&libloading::Library, &str) -> Option<HotpatchExport<F>>>(
    lookup: G,
    library: libloading::Library,
    seen: Seq<HotpatchExport<F>>,
) -> bool {
    forall|i: int| 0 <= i < seen.len() ==> delivered(lookup, library, i, Some(#[trigger] seen[i]))
}

/// How a scan of `library` for the key `key` and the signature text `sig`,
/// which saw the records `seen` and then stopped, leaves a cell: `before` is
/// the state it started on, `after` the state it left, and `outcome` what it
/// reported.
pub open spec fn scanned<F: 'static, G: Fn(&libloading::Library, &str) -> Option<HotpatchExport<F>>>(
    lookup: G,
    library: libloading::Library,
    seen: Seq<HotpatchExport<F>>,
    key: Seq<char>,
    sig: Seq<char>,
    before: CellModel<F>,
    after: CellModel<F>,
    outcome: Result<(), PatchError>,
) -> bool {
    &&& observed(lookup, library, seen)
    &&& seen.len() <= usize::MAX + 1
    &&& match resolve(seen, key, sig) {
        Resolution::Found(i) => {
            &&& i + 1 == seen.len()
            &&& outcome is Ok
            &&& after == before.adopted(seen[i as int].ptr, library)
        },
        Resolution::Mismatch(i) => {
            &&& i + 1 == seen.len()
            &&& outcome == Err::<(), PatchError>(PatchError::SignatureMismatch)
            &&& after == before
        },
        Resolution::NotFound => {
            &&& outcome == Err::<(), PatchError>(PatchError::SymbolNotFound)
            &&& after == before
            &&& seen.len() == usize::MAX + 1 || delivered(lookup, library, seen.len() as int, None)
        },
    }
}

/// A scan settles on the first record with the path it looks for and on no
/// other. It puts that record's implementation in force when the signature
/// texts agree, reports a mismatch and changes nothing when they differ, and
/// reports that nothing was found, and changes nothing, exactly when no
/// record it saw has that path.
pub proof fn lemma_scan_settles_on_first_match<
    F: 'static,
    G: Fn(&libloading::Library, &str) -> Option<HotpatchExport<F>>,
>(
    lookup: G,
    library: libloading::Library,
    seen: Seq<HotpatchExport<F>>,
    key: Seq<char>,
    sig: Seq<char>,
    before: CellModel<F>,
    after: CellModel<F>,
    outcome: Result<(), PatchError>,
)
    requires
        scanned(lookup, library, seen, key, sig, before, after, outcome),
    ensures
        match outcome {
            Ok(_) => {
                &&& seen.len() > 0
                &&& all_skipped(seen, key, seen.len() - 1)
                &&& path_matches(seen.last(), key)
                &&& seen.last().sig@ == sig
                &&& after == before.adopted(seen.last().ptr, library)
            },
            Err(PatchError::SignatureMismatch) => {
                &&& seen.len() > 0
                &&& all_skipped(seen, key, seen.len() - 1)
                &&& path_matches(seen.last(), key)
                &&& seen.last().sig@ != sig
                &&& after == before
            },
            Err(PatchError::SymbolNotFound) => {
                &&& all_skipped(seen, key, seen.len() as int)
                &&& after == before
            },
            Err(_) => false,
        },
{
    lemma_resolve_first_match(seen, key, sig);
}

/// A scan of a library that holds no record with the path it looks for
/// reports that nothing was found and leaves the cell as it was.
pub proof fn lemma_scan_without_the_path<
    F: 'static,
    G: Fn(&libloading::Library, &str) -> Option<HotpatchExport<F>>,
>(
    lookup: G,
    library: libloading::Library,
    seen: Seq<HotpatchExport<F>>,
    key: Seq<char>,
    sig: Seq<char>,
    before: CellModel<F>,
    after: CellModel<F>,
    outcome: Result<(), PatchError>,
)
    requires
        scanned(lookup, library, seen, key, sig, before, after, outcome),
        all_skipped(seen, key, seen.len() as int),
    ensures
        outcome == Err::<(), PatchError>(PatchError::SymbolNotFound),
        after == before,
{
    lemma_resolve_first_match(seen, key, sig);
}

/// A scan of a library whose first record with the path it looks for has
/// another signature text reports the mismatch and leaves the cell as it was,
/// whatever the records after that one hold.
pub proof fn lemma_scan_with_another_signature<
    F: 'static,
    G: Fn(&libloading::Library, &str) -> Option<HotpatchExport<F>>,
>(
    lookup: G,
    library: libloading::Library,
    seen: Seq<HotpatchExport<F>>,
    key: Seq<char>,
    sig: Seq<char>,
    before: CellModel<F>,
    after: CellModel<F>,
    outcome: Result<(), PatchError>,
    first: int,
)
    requires
        scanned(lookup, library, seen, key, sig, before, after, outcome),
        0 <= first < seen.len(),
        all_skipped(seen, key, first),
        path_matches(seen[first], key),
        seen[first].sig@ != sig,
    ensures
        outcome == Err::<(), PatchError>(PatchError::SignatureMismatch),
        after == before,
{
    lemma_resolve_skips(seen, key, sig, first);
}

/// A scan of a library whose first record with the path it looks for has
/// the signature text it looks for puts the implementation of that record in
/// force, and of no other, and keeps the library open.
pub proof fn lemma_scan_with_the_patch<
    F: 'static,
    G: Fn(&libloading::Library, &str) -> Option<HotpatchExport<F>>,
>(
    lookup: G,
    library: libloading::Library,
    seen: Seq<HotpatchExport<F>>,
    key: Seq<char>,
    sig: Seq<char>,
    before: CellModel<F>,
    after: CellModel<F>,
    outcome: Result<(), PatchError>,
    first: int,
)
    requires
        scanned(lookup, library, seen, key, sig, before, after, outcome),
        0 <= first < seen.len(),
        all_skipped(seen, key, first),
        path_matches(seen[first], key),
        seen[first].sig@ == sig,
    ensures
        outcome is Ok,
        after == before.adopted(seen[first].ptr, library),
        after.current == seen[first].ptr,
        after.library == Some(library),
{
    lemma_resolve_skips(seen, key, sig, first);
}

/// Takes a value and drops it.
fn discard<T>(_value: T) {
}

impl<F: 'static> HotpatchImportInternal<F> {
    /// Whatever a cell holds, it is well formed: the library it keeps open is
    /// the one that backs the implementation in force.
    pub proof fn lemma_wf(self)
        ensures
            self@.wf(),
    {
    }

    /// The state of a cell that runs `ptr` until it is patched.
    pub fn new(ptr: F) -> (cell: Self)
        ensures
            cell@ == CellModel::fresh(ptr),
    {
        HotpatchImportInternal { state: Implementation::Default, default: ptr }
    }

    /// Where the implementation in force came from.
    pub fn origin(&self) -> (origin: Origin)
        ensures
            origin == self@.origin,
    {
        match &self.state {
            Implementation::Default => Origin::Default,
            Implementation::Closure(_) => Origin::Closure,
            Implementation::Library(_, _) => Origin::Library,
        }
    }

    /// The implementation in force.
    pub fn current(&self) -> (f: &F)
        ensures
            *f == self@.current,
    {
        match &self.state {
            Implementation::Default => &self.default,
            Implementation::Closure(f) => f,
            Implementation::Library(f, _) => f,
        }
    }

    /// Calls the implementation in force on `args` and hands back what it
    /// returns.
    pub fn invoke<A, R>(&self, args: A) -> (result: R) where F: Fn(A) -> R
        requires
            call_requires(self@.current, (args,)),
        ensures
            call_ensures(self@.current, (args,), result),
    {
        let f = self.current();
        f(args)
    }

    /// Puts `state` in force, then gives up what was in force before: first
    /// the implementation, then the library that backed it.
    fn install(&mut self, state: Implementation<F>)
        ensures
            final(self).state == state,
            final(self).default == old(self).default,
    {
        let mut replaced = state;
        core::mem::swap(&mut self.state, &mut replaced);
        match replaced {
            Implementation::Library(retired, library) => {
                discard(retired);
                let _ = close_library(library);
            },
            _ => {},
        }
    }

    /// Puts `c` in force. The library that backed the implementation in
    /// force before, if any, is closed.
    pub fn hotpatch_fn(&mut self, c: F)
        ensures
            final(self)@ == old(self)@.patched_with(c),
    {
        self.install(Implementation::Closure(c));
    }

    /// Opens the library at `lib_name` and scans its export table for the
    /// patch of the item at `mpath` with signature text `sig`, as
    /// [`Self::scan_library`] does. When the library does not open, the cell
    /// stays as it was.
    pub fn hotpatch_lib<G>(
        &mut self,
        mpath: &str,
        sig: &str,
        lib_name: &str,
        lookup: G,
    ) -> (outcome: Result<(), PatchError>) where
        G: Fn(&libloading::Library, &str) -> Option<HotpatchExport<F>>,

        requires
            forall|library: &libloading::Library, name: &str|
                call_requires(lookup, (library, name)),
        ensures
            outcome is Err ==> final(self)@ == old(self)@,
            outcome == Err::<(), PatchError>(PatchError::LibraryLoadFailure) || exists|
                library: libloading::Library,
                seen: Seq<HotpatchExport<F>>,
            |
                scanned(
                    lookup,
                    library,
                    seen,
                    normalized(mpath@),
                    sig@,
                    old(self)@,
                    final(self)@,
                    outcome,
                ),
    {
        match open_library(lib_name) {
            Ok(library) => self.scan_library(mpath, sig, library, lookup),
            Err(_) => Err(PatchError::LibraryLoadFailure),
        }
    }

    /// Scans the export table of `library` for the patch of the item at
    /// `mpath` with signature text `sig`, asking `lookup` for one symbol
    /// after the other, from index zero on, until it answers `None` or hands
    /// back a record with that path. Leading separators count neither in
    /// `mpath` nor in the path of a record.
    ///
    /// When that record has the signature text `sig`, its implementation is
    /// put in force and `library` stays open; the library that backed the
    /// implementation in force before, if any, is closed. In every other
    /// case `library` is closed and the cell stays as it was. A table with
    /// more records than `usize` can count is taken to hold nothing past that
    /// point.
    pub fn scan_library<G>(
        &mut self,
        mpath: &str,
        sig: &str,
        library: libloading::Library,
        lookup: G,
    ) -> (outcome: Result<(), PatchError>) where
        G: Fn(&libloading::Library, &str) -> Option<HotpatchExport<F>>,

        requires
            forall|library: &libloading::Library, name: &str|
                call_requires(lookup, (library, name)),
        ensures
            outcome is Err ==> final(self)@ == old(self)@,
            outcome != Err::<(), PatchError>(PatchError::LibraryLoadFailure),
            exists|seen: Seq<HotpatchExport<F>>|
                scanned(
                    lookup,
                    library,
                    seen,
                    normalized(mpath@),
                    sig@,
                    old(self)@,
                    final(self)@,
                    outcome,
                ),
    {
        let key = normalize(mpath);
        let ghost before = self@;
        let ghost mut seen: Seq<HotpatchExport<F>> = Seq::empty();
        let mut index: usize = 0;
        loop
            invariant
                *self == *old(self),
                before == old(self)@,
                key@ == normalized(mpath@),
                seen.len() == index,
                observed(lookup, library, seen),
                all_skipped(seen, key@, index as int),
                forall|library: &libloading::Library, name: &str|
                    call_requires(lookup, (library, name)),
            decreases usize::MAX - index,
        {
            let name = export_symbol_name(index);
            let found = lookup(&library, name.as_str());
            assert(delivered(lookup, library, index as int, found));
            let export = match found {
                Some(export) => export,
                None => {
                    proof {
                        lemma_resolve_skips(seen, key@, sig@, index as int);
                        assert(scanned(
                            lookup,
                            library,
                            seen,
                            key@,
                            sig@,
                            before,
                            self@,
                            Err::<(), PatchError>(PatchError::SymbolNotFound),
                        ));
                    }
                    let _ = close_library(library);
                    return Err(PatchError::SymbolNotFound);
                },
            };
            let verdict = examine(&export, key, sig);
            proof {
                let ghost earlier = seen;
                seen = seen.push(export);
                assert forall|i: int| 0 <= i < seen.len() implies delivered(
                    lookup,
                    library,
                    i,
                    Some(#[trigger] seen[i]),
                ) by {
                    if i < earlier.len() {
                        assert(seen[i] == earlier[i]);
                    }
                }
                assert forall|j: int| 0 <= j < index && j < seen.len() implies !path_matches(
                    #[trigger] seen[j],
                    key@,
                ) by {
                    assert(seen[j] == earlier[j]);
                }
                lemma_resolve_skips(seen, key@, sig@, index as int);
            }
            match verdict {
                Verdict::Adopt => {
                    let ghost adopted = export.ptr;
                    self.install(Implementation::Library(export.ptr, library));
                    proof {
                        assert(self@ == before.adopted(adopted, library));
                        assert(scanned(
                            lookup,
                            library,
                            seen,
                            key@,
                            sig@,
                            before,
                            self@,
                            Ok::<(), PatchError>(()),
                        ));
                    }
                    return Ok(());
                },
                Verdict::Mismatch => {
                    proof {
                        assert(scanned(
                            lookup,
                            library,
                            seen,
                            key@,
                            sig@,
                            before,
                            self@,
                            Err::<(), PatchError>(PatchError::SignatureMismatch),
                        ));
                    }
                    let _ = close_library(library);
                    return Err(PatchError::SignatureMismatch);
                },
                Verdict::Skip => {
                    if index == usize::MAX {
                        proof {
                            lemma_resolve_skips(seen, key@, sig@, seen.len() as int);
                            assert(scanned(
                                lookup,
                                library,
                                seen,
                                key@,
                                sig@,
                                before,
                                self@,
                                Err::<(), PatchError>(PatchError::SymbolNotFound),
                            ));
                        }
                        let _ = close_library(library);
                        return Err(PatchError::SymbolNotFound);
                    }
                    index += 1;
                },
            }
        }
    }

    /// Puts the default back in force. The library that backed the
    /// implementation in force before, if any, is closed.
    pub fn restore_default(&mut self)
        ensures
            final(self)@ == old(self)@.restored(),
    {
        self.install(Implementation::Default);
    }
}

} // verus!
