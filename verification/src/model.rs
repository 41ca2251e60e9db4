//! What the state of a patch cell is, apart from how it is stored, and what
//! the patch operations do to it.

use vstd::prelude::*;

verus! {

/// Where the implementation in force came from.
#[derive(Clone, Copy, Debug, PartialEq, Eq, Structural)]
pub enum Origin {
    /// It is the implementation the cell was made with.
    Default,
    /// The program handed it in.
    Closure,
    /// It was taken from a dynamic library.
    Library,
}

/// The state of a cell, as far as callers can tell.
pub struct CellModel<F> {
    /// The implementation that a call reaches.
    pub current: F,
    /// The implementation the cell was made with.
    pub default: F,
    /// Where `current` came from.
    pub origin: Origin,
    /// The library that the cell keeps open.
    pub library: Option<libloading::Library>,
}

/// A patch operation that took effect.
pub enum Change<F> {
    /// The program handed in an implementation.
    Patch(F),
    /// An implementation was taken from a library.
    Adopt(F, libloading::Library),
    /// The cell went back to its default.
    Restore,
}

impl<F> CellModel<F> {
    /// A library is kept open exactly when the implementation in force came
    /// from one, and a cell that says it runs its default does so.
    pub open spec fn wf(self) -> bool {
        &&& (self.origin == Origin::Library) == (self.library is Some)
        &&& self.origin == Origin::Default ==> self.current == self.default
    }

    /// The state of a cell that was never patched.
    pub open spec fn fresh(default: F) -> Self {
        CellModel { current: default, default, origin: Origin::Default, library: None }
    }

    /// The state after `new_impl` was handed in.
    pub open spec fn patched_with(self, new_impl: F) -> Self {
        CellModel {
            current: new_impl,
            default: self.default,
            origin: Origin::Closure,
            library: None,
        }
    }

    /// The state after `new_impl` was taken from `library`.
    pub open spec fn adopted(self, new_impl: F, library: libloading::Library) -> Self {
        CellModel {
            current: new_impl,
            default: self.default,
            origin: Origin::Library,
            library: Some(library),
        }
    }

    /// The state after the cell went back to its default.
    pub open spec fn restored(self) -> Self {
        CellModel {
            current: self.default,
            default: self.default,
            origin: Origin::Default,
            library: None,
        }
    }

    /// The state after `change`.
    pub open spec fn after(self, change: Change<F>) -> Self {
        match change {
            Change::Patch(new_impl) => self.patched_with(new_impl),
            Change::Adopt(new_impl, library) => self.adopted(new_impl, library),
            Change::Restore => self.restored(),
        }
    }

    /// The state after each of `changes` in turn.
    pub open spec fn after_all(self, changes: Seq<Change<F>>) -> Self
        decreases changes.len(),
    {
        if changes.len() == 0 {
            self
        } else {
            self.after_all(changes.drop_last()).after(changes.last())
        }
    }

    /// Before any patch a cell runs its default and keeps no library open.
    pub proof fn lemma_fresh_runs_default(default: F)
        ensures
            Self::fresh(default).current == default,
            Self::fresh(default).library is None,
            Self::fresh(default).wf(),
    {
    }

    /// No patch operation changes the default of a cell, and each leaves the
    /// cell well formed.
    pub proof fn lemma_changes_keep_default(self, changes: Seq<Change<F>>)
        requires
            self.wf(),
        ensures
            self.after_all(changes).default == self.default,
            self.after_all(changes).wf(),
        decreases changes.len(),
    {
        if changes.len() > 0 {
            self.lemma_changes_keep_default(changes.drop_last());
        }
    }

    /// After an implementation was handed in, the cell runs it and keeps no
    /// library open, whatever happened to the cell before.
    pub proof fn lemma_last_patch_in_force(self, changes: Seq<Change<F>>, new_impl: F)
        ensures
            self.after_all(changes.push(Change::Patch(new_impl))).current == new_impl,
            self.after_all(changes.push(Change::Patch(new_impl))).library is None,
    {
        let all = changes.push(Change::Patch(new_impl));
        assert(all.drop_last() =~= changes);
    }

    /// After an implementation was taken from a library, the cell runs it
    /// and keeps that library open, whatever happened to the cell before.
    pub proof fn lemma_last_adoption_in_force(
        self,
        changes: Seq<Change<F>>,
        new_impl: F,
        library: libloading::Library,
    )
        ensures
            self.after_all(changes.push(Change::Adopt(new_impl, library))).current == new_impl,
            self.after_all(changes.push(Change::Adopt(new_impl, library))).library == Some(
                library,
            ),
    {
        let all = changes.push(Change::Adopt(new_impl, library));
        assert(all.drop_last() =~= changes);
    }

    /// Going back to the default after any number of patches gives the state
    /// that going back at once would have given: the cell runs the
    /// implementation it was made with and keeps no library open.
    pub proof fn lemma_restore_undoes_changes(self, changes: Seq<Change<F>>)
        ensures
            self.after_all(changes).restored() == self.restored(),
            self.after_all(changes).restored().current == self.default,
            self.after_all(changes).restored().library is None,
        decreases changes.len(),
    {
        if changes.len() > 0 {
            self.lemma_restore_undoes_changes(changes.drop_last());
        }
    }
}

} // verus!
