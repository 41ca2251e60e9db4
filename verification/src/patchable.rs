//! A patch cell that many threads can call and patch.
//!
//! A [`Patchable`] is made with a default implementation, a path and a
//! signature text. The path and the signature are its identity: they never
//! change. The implementation in force does, and is kept behind a
//! reader-writer lock. A call takes the lock for reading for as long as the
//! implementation runs; a patch takes it for writing. So a patch waits for the
//! calls that are under way, and every call runs one implementation from start
//! to end.
//!
//! Each patch operation comes in three forms. The plain one waits for the
//! lock, and never returns when the calling thread is itself inside a call of
//! the same cell. The `try_` one gives up at once with
//! [`PatchError::LockBusy`] when the lock is held. The `force_` one takes no
//! lock at all, and asks for exclusive access to the cell instead.

use vstd::prelude::*;
use std::sync::{RwLock, RwLockWriteGuard};
use crate::cell::{scanned, HotpatchImportInternal};
use crate::error::PatchError;
use crate::export::HotpatchExport;
use crate::model::CellModel;
use crate::path::{lemma_normalized_idempotent, normalize, normalized};
use crate::sync::{
    exclusive, guarded_value, new_lock, read_lock, shared_value, try_write_lock, write_lock,
};

verus! {

/// A function whose implementation can be replaced while the program runs.
#[verifier::reject_recursive_types(F)]
pub struct Patchable<F: 'static> {
    lock: RwLock<HotpatchImportInternal<F>>,
    mpath: &'static str,
    sig: &'static str,
}

/// What a cell is known by.
pub struct Identity {
    /// The cell's key: its path without leading separators.
    pub path: Seq<char>,
    /// The cell's signature text.
    pub signature: Seq<char>,
}

impl<F: 'static> View for Patchable<F> {
    type V = Identity;

    closed spec fn view(&self) -> Identity {
        Identity { path: normalized(self.mpath@), signature: self.sig@ }
    }
}

/// Whether `outcome` is what a scan of some library for the cell `identity`,
/// fed by `lookup`, reports on some state of that cell.
pub open spec fn scan_outcome<F: 'static, G: Fn(&libloading::Library, &str) -> Option<HotpatchExport<F>>>(
    lookup: G,
    identity: Identity,
    outcome: Result<(), PatchError>,
) -> bool {
    exists|
        library: libloading::Library,
        seen: Seq<HotpatchExport<F>>,
        before: CellModel<F>,
        after: CellModel<F>,
    |
        before.wf() && after.wf() && #[trigger] scanned(
            lookup,
            library,
            seen,
            identity.path,
            identity.signature,
            before,
            after,
            outcome,
        )
}

/// Whether some implementation of type `F` may hand back `result` when it
/// is called on `args`.
pub open spec fn returned_by_some<F: Fn(A) -> R, A, R>(args: A, result: R) -> bool {
    exists|f: F| call_ensures(f, (args,), result)
}

/// Patching with an implementation that the program hands in.
pub trait HotpatchFn<T>: View<V = Identity> {
    /// Waits for the cell's lock and puts `c` in force, as
    /// [`patch_acquired`] says. Fails only on a poisoned lock.
    fn hotpatch_fn(&self, c: T) -> (outcome: Result<(), PatchError>)
        ensures
            outcome matches Err(e) ==> e == PatchError::LockPoisoned,
    ;

    /// Puts `c` in force, as [`patch_acquired`] says, if the cell's lock is
    /// free, and gives up at once if it is not.
    fn try_hotpatch_fn(&self, c: T) -> (outcome: Result<(), PatchError>)
        ensures
            outcome matches Err(e) ==> e == PatchError::LockPoisoned || e == PatchError::LockBusy,
    ;

    /// Puts `c` in force, as [`patch_acquired`] says, without taking the
    /// cell's lock. Fails only on a poisoned lock.
    fn force_hotpatch_fn(&mut self, c: T) -> (outcome: Result<(), PatchError>)
        ensures
            final(self)@ == old(self)@,
            outcome matches Err(e) ==> e == PatchError::LockPoisoned,
    ;
}

/// Patching with an implementation from a dynamic library.
///
/// `lookup` finds a symbol of an open library and hands back the export
/// record that stands there, or `None` where the library has no such symbol.
/// Each operation opens the library at `lib_name` and asks `lookup` for the
/// symbols of its export table, from index zero on, until `lookup` answers
/// `None` or hands back a record with the cell's path. That record's
/// implementation is put in force if its signature text is the cell's.
pub trait HotpatchLib<F: 'static>: View<V = Identity> {
    /// Waits for the cell's lock, then scans the library at `lib_name` for
    /// the cell's patch and puts it in force.
    fn hotpatch_lib<G>(&self, lib_name: &str, lookup: G) -> (outcome: Result<
        (),
        PatchError,
    >) where G: Fn(&libloading::Library, &str) -> Option<HotpatchExport<F>>
        requires
            forall|library: &libloading::Library, name: &str|
                call_requires(lookup, (library, name)),
        ensures
            outcome == Err::<(), PatchError>(PatchError::LockPoisoned) || outcome == Err::<
                (),
                PatchError,
            >(PatchError::LibraryLoadFailure) || scan_outcome(lookup, self@, outcome),
    ;

    /// Scans the library at `lib_name` for the cell's patch and puts it in
    /// force if the cell's lock is free, and gives up at once if it is not.
    fn try_hotpatch_lib<G>(&self, lib_name: &str, lookup: G) -> (outcome: Result<
        (),
        PatchError,
    >) where G: Fn(&libloading::Library, &str) -> Option<HotpatchExport<F>>
        requires
            forall|library: &libloading::Library, name: &str|
                call_requires(lookup, (library, name)),
        ensures
            outcome == Err::<(), PatchError>(PatchError::LockPoisoned) || outcome == Err::<
                (),
                PatchError,
            >(PatchError::LockBusy) || outcome == Err::<(), PatchError>(
                PatchError::LibraryLoadFailure,
            ) || scan_outcome(lookup, self@, outcome),
    ;

    /// Scans the library at `lib_name` for the cell's patch and puts it in
    /// force, without taking the cell's lock.
    fn force_hotpatch_lib<G>(&mut self, lib_name: &str, lookup: G) -> (outcome: Result<
        (),
        PatchError,
    >) where G: Fn(&libloading::Library, &str) -> Option<HotpatchExport<F>>
        requires
            forall|library: &libloading::Library, name: &str|
                call_requires(lookup, (library, name)),
        ensures
            final(self)@ == old(self)@,
            outcome == Err::<(), PatchError>(PatchError::LockPoisoned) || outcome == Err::<
                (),
                PatchError,
            >(PatchError::LibraryLoadFailure) || scan_outcome(lookup, old(self)@, outcome),
    ;
}

/// The state that an answer of the cell's lock gives access to, or the
/// lock's refusal.
fn access<'a, 'b, T>(acquired: &'b mut Result<RwLockWriteGuard<'a, T>, PatchError>) -> (state:
    Result<&'b mut T, PatchError>)
    ensures
        state is Ok <==> *old(acquired) is Ok,
        *old(acquired) matches Err(e) ==> state == Err::<&mut T, PatchError>(e),
{
    match acquired {
        Ok(guard) => Ok(guarded_value(guard)),
        Err(e) => Err(*e),
    }
}

/// What a patch with `c` comes to once the cell's lock has answered. With
/// access to the state of the cell, `c` is put in force there and the patch
/// succeeds. Without it, the state is not touched and the patch fails as the
/// lock did.
pub fn patch_acquired<F: 'static>(
    acquired: Result<&mut HotpatchImportInternal<F>, PatchError>,
    c: F,
) -> (outcome: Result<(), PatchError>)
    ensures
        match acquired {
            Ok(state) => outcome is Ok && final(state)@ == state@.patched_with(c),
            Err(e) => outcome == Err::<(), PatchError>(e),
        },
{
    match acquired {
        Ok(state) => {
            state.hotpatch_fn(c);
            Ok(())
        },
        Err(e) => Err(e),
    }
}

/// What going back to the default comes to once the cell's lock has
/// answered. With access to the state of the cell, the default is put back in
/// force there and the operation succeeds. Without it, the state is not
/// touched and the operation fails as the lock did.
pub fn restore_acquired<F: 'static>(acquired: Result<&mut HotpatchImportInternal<F>, PatchError>) -> (outcome:
    Result<(), PatchError>)
    ensures
        match acquired {
            Ok(state) => outcome is Ok && final(state)@ == state@.restored(),
            Err(e) => outcome == Err::<(), PatchError>(e),
        },
{
    match acquired {
        Ok(state) => {
            state.restore_default();
            Ok(())
        },
        Err(e) => Err(e),
    }
}

/// Runs a scan on the state of a cell, and says of the outcome what can be
/// said without knowing that state.
fn scan_into<F: 'static, G>(
    state: &mut HotpatchImportInternal<F>,
    mpath: &str,
    sig: &str,
    lib_name: &str,
    lookup: G,
) -> (outcome: Result<(), PatchError>) where
    G: Fn(&libloading::Library, &str) -> Option<HotpatchExport<F>>,

    requires
        forall|library: &libloading::Library, name: &str| call_requires(lookup, (library, name)),
    ensures
        outcome == Err::<(), PatchError>(PatchError::LibraryLoadFailure) || scan_outcome(
            lookup,
            Identity { path: normalized(mpath@), signature: sig@ },
            outcome,
        ),
{
    let ghost before = state@;
    proof {
        state.lemma_wf();
    }
    let outcome = state.hotpatch_lib(mpath, sig, lib_name, lookup);
    proof {
        state.lemma_wf();
        if outcome != Err::<(), PatchError>(PatchError::LibraryLoadFailure) {
            let (library, seen) = choose|
                library: libloading::Library,
                seen: Seq<HotpatchExport<F>>,
            |
                scanned(lookup, library, seen, normalized(mpath@), sig@, before, state@, outcome);
            let identity = Identity { path: normalized(mpath@), signature: sig@ };
            assert(before.wf() && state@.wf() && scanned(
                lookup,
                library,
                seen,
                identity.path,
                identity.signature,
                before,
                state@,
                outcome,
            ));
        }
    }
    outcome
}

impl<F: 'static> Patchable<F> {
    /// A cell that runs `ptr` until it is patched. Its key is `mpath` without
    /// leading separators, its signature text is `sig`.
    pub fn new(ptr: F, mpath: &'static str, sig: &'static str) -> (cell: Self)
        ensures
            cell@.path == normalized(mpath@),
            cell@.signature == sig@,
    {
        proof {
            lemma_normalized_idempotent(mpath@);
        }
        Patchable { lock: new_lock(HotpatchImportInternal::new(ptr)), mpath: normalize(mpath), sig }
    }

    /// The cell's key: its path without leading separators.
    pub fn path(&self) -> (key: &'static str)
        ensures
            key@ == self@.path,
    {
        proof {
            lemma_normalized_idempotent(self.mpath@);
        }
        normalize(self.mpath)
    }

    /// The cell's signature text.
    pub fn signature(&self) -> (sig: &'static str)
        ensures
            sig@ == self@.signature,
    {
        self.sig
    }

    /// Calls the implementation in force on `args`, holding the cell's lock
    /// for reading until it returns. Fails only on a poisoned lock.
    pub fn invoke<A, R>(&self, args: A) -> (outcome: Result<R, PatchError>) where F: Fn(A) -> R
        requires
            forall|f: F| call_requires(f, (args,)),
        ensures
            outcome matches Ok(result) ==> returned_by_some::<F, A, R>(args, result),
            outcome matches Err(e) ==> e == PatchError::LockPoisoned,
    {
        match read_lock(&self.lock) {
            Ok(guard) => {
                let state = shared_value(&guard);
                let result = state.invoke(args);
                assert(call_ensures(state@.current, (args,), result));
                assert(returned_by_some::<F, A, R>(args, result));
                Ok(result)
            },
            Err(e) => Err(e),
        }
    }

    /// Waits for the cell's lock and puts the default back in force, as
    /// [`restore_acquired`] says. Fails only on a poisoned lock.
    pub fn restore_default(&self) -> (outcome: Result<(), PatchError>)
        ensures
            outcome matches Err(e) ==> e == PatchError::LockPoisoned,
    {
        let mut acquired = write_lock(&self.lock);
        restore_acquired(access(&mut acquired))
    }

    /// Puts the default back in force, as [`restore_acquired`] says, if the
    /// cell's lock is free, and gives up at once if it is not.
    pub fn try_restore_default(&self) -> (outcome: Result<(), PatchError>)
        ensures
            outcome matches Err(e) ==> e == PatchError::LockPoisoned || e == PatchError::LockBusy,
    {
        let mut acquired = try_write_lock(&self.lock);
        restore_acquired(access(&mut acquired))
    }

    /// Puts the default back in force, as [`restore_acquired`] says, without
    /// taking the cell's lock. Fails only on a poisoned lock.
    pub fn force_restore_default(&mut self) -> (outcome: Result<(), PatchError>)
        ensures
            final(self)@ == old(self)@,
            outcome matches Err(e) ==> e == PatchError::LockPoisoned,
    {
        restore_acquired(exclusive(&mut self.lock))
    }
}

impl<F: 'static> HotpatchFn<F> for Patchable<F> {
    fn hotpatch_fn(&self, c: F) -> (outcome: Result<(), PatchError>) {
        let mut acquired = write_lock(&self.lock);
        patch_acquired(access(&mut acquired), c)
    }

    fn try_hotpatch_fn(&self, c: F) -> (outcome: Result<(), PatchError>) {
        let mut acquired = try_write_lock(&self.lock);
        patch_acquired(access(&mut acquired), c)
    }

    fn force_hotpatch_fn(&mut self, c: F) -> (outcome: Result<(), PatchError>) {
        patch_acquired(exclusive(&mut self.lock), c)
    }
}

impl<F: 'static> HotpatchLib<F> for Patchable<F> {
    fn hotpatch_lib<G>(&self, lib_name: &str, lookup: G) -> (outcome: Result<
        (),
        PatchError,
    >) where G: Fn(&libloading::Library, &str) -> Option<HotpatchExport<F>> {
        proof {
            lemma_normalized_idempotent(self.mpath@);
        }
        let mut guard = write_lock(&self.lock)?;
        scan_into(guarded_value(&mut guard), self.mpath, self.sig, lib_name, lookup)
    }

    fn try_hotpatch_lib<G>(&self, lib_name: &str, lookup: G) -> (outcome: Result<
        (),
        PatchError,
    >) where G: Fn(&libloading::Library, &str) -> Option<HotpatchExport<F>> {
        proof {
            lemma_normalized_idempotent(self.mpath@);
        }
        let mut guard = try_write_lock(&self.lock)?;
        scan_into(guarded_value(&mut guard), self.mpath, self.sig, lib_name, lookup)
    }

    fn force_hotpatch_lib<G>(&mut self, lib_name: &str, lookup: G) -> (outcome: Result<
        (),
        PatchError,
    >) where G: Fn(&libloading::Library, &str) -> Option<HotpatchExport<F>> {
        proof {
            lemma_normalized_idempotent(self.mpath@);
        }
        let mpath = self.mpath;
        let sig = self.sig;
        scan_into(exclusive(&mut self.lock)?, mpath, sig, lib_name, lookup)
    }
}

} // verus!
