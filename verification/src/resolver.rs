//! Finding the record for a cell in a library's export table.
//!
//! The table is read in index order from zero. The first record whose path
//! names the cell's key decides: it is adopted if its signature text is the
//! cell's, and refused if not. Records after it are never looked at. A table
//! that ends before such a record holds nothing for the cell.

use vstd::prelude::*;
use crate::export::HotpatchExport;
use crate::path::{names_key, normalized, same_text};

verus! {

/// What one record means to a cell.
#[derive(Clone, Copy, Debug, PartialEq, Eq, Structural)]
pub enum Verdict {
    /// The record is for another path: the scan goes on.
    Skip,
    /// The record is for the cell's path and has its signature.
    Adopt,
    /// The record is for the cell's path, with another signature.
    Mismatch,
}

/// What a whole table holds for a cell.
#[derive(Clone, Copy, Debug, PartialEq, Eq, Structural)]
pub enum Resolution {
    /// The record at this index is the cell's patch.
    Found(usize),
    /// The record at this index has the cell's path, but another signature.
    Mismatch(usize),
    /// No record has the cell's path.
    NotFound,
}

/// Whether `export` is a record for the key `key`.
pub open spec fn path_matches<T>(export: HotpatchExport<T>, key: Seq<char>) -> bool {
    normalized(export.symbol@) == key
}

/// What the record `export` means to the cell with key `key` and signature
/// text `sig`.
pub open spec fn verdict<T>(export: HotpatchExport<T>, key: Seq<char>, sig: Seq<char>) -> Verdict {
    if !path_matches(export, key) {
        Verdict::Skip
    } else if export.sig@ == sig {
        Verdict::Adopt
    } else {
        Verdict::Mismatch
    }
}

/// What the records of `table` from index `from` on hold for the cell with
/// key `key` and signature text `sig`.
pub open spec fn resolve_from<T>(
    table: Seq<HotpatchExport<T>>,
    key: Seq<char>,
    sig: Seq<char>,
    from: int,
) -> Resolution
    decreases table.len() - from,
{
    if from < 0 || from >= table.len() {
        Resolution::NotFound
    } else {
        match verdict(table[from], key, sig) {
            Verdict::Skip => resolve_from(table, key, sig, from + 1),
            Verdict::Adopt => Resolution::Found(from as usize),
            Verdict::Mismatch => Resolution::Mismatch(from as usize),
        }
    }
}

/// What `table` holds for the cell with key `key` and signature text `sig`.
pub open spec fn resolve<T>(table: Seq<HotpatchExport<T>>, key: Seq<char>, sig: Seq<char>) -> Resolution {
    resolve_from(table, key, sig, 0)
}

/// Whether no record of `table` before index `end` is for the key `key`.
pub open spec fn all_skipped<T>(table: Seq<HotpatchExport<T>>, key: Seq<char>, end: int) -> bool {
    forall|j: int| 0 <= j < end && j < table.len() ==> !path_matches(#[trigger] table[j], key)
}

/// A scan that has skipped every record before `at` stands where a scan from
/// the start stands.
pub proof fn lemma_resolve_skips<T>(
    table: Seq<HotpatchExport<T>>,
    key: Seq<char>,
    sig: Seq<char>,
    at: int,
)
    requires
        0 <= at <= table.len(),
        all_skipped(table, key, at),
    ensures
        resolve(table, key, sig) == resolve_from(table, key, sig, at),
    decreases at,
{
    if at > 0 {
        lemma_resolve_skips(table, key, sig, at - 1);
        assert(!path_matches(table[at - 1], key));
    }
}

/// The record that a scan settles on is the first one with the cell's path,
/// and the scan finds nothing exactly when no record has that path. So a
/// record for another path is never adopted, nor a later record for the same
/// path.
pub proof fn lemma_resolve_first_match<T>(
    table: Seq<HotpatchExport<T>>,
    key: Seq<char>,
    sig: Seq<char>,
)
    requires
        table.len() <= usize::MAX + 1,
    ensures
        match resolve(table, key, sig) {
            Resolution::Found(i) => i < table.len() && all_skipped(table, key, i as int)
                && path_matches(table[i as int], key) && table[i as int].sig@ == sig,
            Resolution::Mismatch(i) => i < table.len() && all_skipped(table, key, i as int)
                && path_matches(table[i as int], key) && table[i as int].sig@ != sig,
            Resolution::NotFound => all_skipped(table, key, table.len() as int),
        },
{
    lemma_resolve_from_first_match(table, key, sig, 0);
}

proof fn lemma_resolve_from_first_match<T>(
    table: Seq<HotpatchExport<T>>,
    key: Seq<char>,
    sig: Seq<char>,
    from: int,
)
    requires
        table.len() <= usize::MAX + 1,
        0 <= from <= table.len(),
        all_skipped(table, key, from),
    ensures
        match resolve_from(table, key, sig, from) {
            Resolution::Found(i) => i < table.len() && all_skipped(table, key, i as int)
                && path_matches(table[i as int], key) && table[i as int].sig@ == sig,
            Resolution::Mismatch(i) => i < table.len() && all_skipped(table, key, i as int)
                && path_matches(table[i as int], key) && table[i as int].sig@ != sig,
            Resolution::NotFound => all_skipped(table, key, table.len() as int),
        },
    decreases table.len() - from,
{
    if from < table.len() && verdict(table[from], key, sig) == Verdict::Skip {
        lemma_resolve_from_first_match(table, key, sig, from + 1);
    }
}

/// Records that come after the one a scan settles on do not change what it
/// finds.
pub proof fn lemma_resolve_ignores_rest<T>(
    table: Seq<HotpatchExport<T>>,
    rest: Seq<HotpatchExport<T>>,
    key: Seq<char>,
    sig: Seq<char>,
)
    requires
        resolve(table, key, sig) != Resolution::NotFound,
    ensures
        resolve(table + rest, key, sig) == resolve(table, key, sig),
{
    lemma_resolve_from_ignores_rest(table, rest, key, sig, 0);
}

proof fn lemma_resolve_from_ignores_rest<T>(
    table: Seq<HotpatchExport<T>>,
    rest: Seq<HotpatchExport<T>>,
    key: Seq<char>,
    sig: Seq<char>,
    from: int,
)
    requires
        0 <= from,
        resolve_from(table, key, sig, from) != Resolution::NotFound,
    ensures
        resolve_from(table + rest, key, sig, from) == resolve_from(table, key, sig, from),
    decreases table.len() - from,
{
    if from < table.len() {
        assert((table + rest)[from] == table[from]);
        if verdict(table[from], key, sig) == Verdict::Skip {
            lemma_resolve_from_ignores_rest(table, rest, key, sig, from + 1);
        }
    }
}

/// What the record `export` means to the cell with key `key` and signature
/// text `sig`.
pub fn examine<T>(export: &HotpatchExport<T>, key: &str, sig: &str) -> (v: Verdict)
    ensures
        v == verdict(*export, key@, sig@),
{
    if !names_key(export.symbol, key) {
        Verdict::Skip
    } else if same_text(export.sig, sig) {
        Verdict::Adopt
    } else {
        Verdict::Mismatch
    }
}

/// Scans `table` for the cell with key `key` and signature text `sig`.
pub fn find_export<T>(table: &Vec<HotpatchExport<T>>, key: &str, sig: &str) -> (found: Resolution)
    ensures
        found == resolve(table@, key@, sig@),
{
    let mut i: usize = 0;
    while i < table.len()
        invariant
            i <= table.len(),
            all_skipped(table@, key@, i as int),
        decreases table.len() - i,
    {
        match examine(&table[i], key, sig) {
            Verdict::Skip => {},
            Verdict::Adopt => {
                proof {
                    lemma_resolve_skips(table@, key@, sig@, i as int);
                }
                return Resolution::Found(i);
            },
            Verdict::Mismatch => {
                proof {
                    lemma_resolve_skips(table@, key@, sig@, i as int);
                }
                return Resolution::Mismatch(i);
            },
        }
        i += 1;
    }
    proof {
        lemma_resolve_skips(table@, key@, sig@, i as int);
    }
    Resolution::NotFound
}

} // verus!
