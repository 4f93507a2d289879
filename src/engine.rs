//! Totals of added and deleted lines over all changed paths of a tree diff.

use vstd::prelude::*;

use crate::content::{diff_content, is_leaf, materialized, Content};
use crate::stat::{diff_stat, get_diff_stat, hunk_added, hunk_deleted, HunkView};
use crate::sums::{lemma_sum_by_permutation, lemma_sum_by_push, sum_by};

verus! {

/// Why a summary could not be computed.
#[derive(Clone, Debug)]
pub enum DiffError {
    /// The shortest-prefix index could not be built or queried.
    IndexUnavailable(String),
    /// A diff entry, or the content of one of its files, could not be read.
    Materialization(String),
    /// The copy records of a parent could not be fetched.
    CopyQuery(String),
    /// A conflicted file could not be merged into text.
    ConflictMaterialize(String),
}

/// A copy of `e`.
pub fn copy_error(e: &DiffError) -> (r: DiffError)
    ensures
        r == *e,
{
    match e {
        DiffError::IndexUnavailable(m) => DiffError::IndexUnavailable(m.clone()),
        DiffError::Materialization(m) => DiffError::Materialization(m.clone()),
        DiffError::CopyQuery(m) => DiffError::CopyQuery(m.clone()),
        DiffError::ConflictMaterialize(m) => DiffError::ConflictMaterialize(m.clone()),
    }
}

/// One changed path of a tree diff: where it comes from, where it goes (the
/// same path unless a copy or rename was recorded), and what it holds on each
/// side, or why that could not be read.
#[derive(Debug)]
pub struct DiffEntry {
    pub source: String,
    pub target: String,
    pub values: Result<(Content, Content), DiffError>,
}

/// Whether both sides of the entry were read.
pub open spec fn entry_read(e: DiffEntry) -> bool {
    e.values is Ok
}

/// Whether the entry is well formed: where read, both sides are leaves.
pub open spec fn entry_wf(e: DiffEntry) -> bool {
    match e.values {
        Ok((l, r)) => is_leaf(l) && is_leaf(r),
        Err(_) => true,
    }
}

/// `(added, deleted)` of one entry; nothing for one that was not read.
pub open spec fn entry_stat(e: DiffEntry) -> (nat, nat) {
    match e.values {
        Ok((l, r)) => diff_stat(materialized(l), materialized(r)),
        Err(_) => (0, 0),
    }
}

/// Lines added over all entries.
pub open spec fn total_added(entries: Seq<DiffEntry>) -> nat {
    sum_by(entries, |e: DiffEntry| entry_stat(e).0)
}

/// Lines deleted over all entries.
pub open spec fn total_deleted(entries: Seq<DiffEntry>) -> nat {
    sum_by(entries, |e: DiffEntry| entry_stat(e).1)
}

/// `n`, or `usize::MAX` where `n` is larger.
pub open spec fn capped(n: int) -> int {
    if n > usize::MAX {
        usize::MAX as int
    } else {
        n
    }
}

/// Adds the lines added and deleted by `entry` to `sums`, each capped at
/// `usize::MAX`; fails with the entry's error where it could not be read.
pub fn add_entry(sums: (usize, usize), entry: &DiffEntry) -> (r: Result<(usize, usize), DiffError>)
    requires
        entry_wf(*entry),
    ensures
        r is Ok <==> entry_read(*entry),
        r is Ok ==> r->Ok_0.0 == capped(sums.0 + entry_stat(*entry).0) && r->Ok_0.1 == capped(
            sums.1 + entry_stat(*entry).1,
        ),
        r is Err ==> entry.values == Err::<(Content, Content), DiffError>(r->Err_0),
{
    match &entry.values {
        Ok((left, right)) => {
            let left_content = diff_content(left);
            let right_content = diff_content(right);
            let (a, d) = get_diff_stat(left_content.as_slice(), right_content.as_slice());
            Ok((sums.0.saturating_add(a), sums.1.saturating_add(d)))
        },
        Err(e) => Err(copy_error(e)),
    }
}

/// Sums the lines added and deleted over `entries`: `(added, deleted)`, each
/// capped at `usize::MAX`. Stops at the first entry that could not be read
/// and returns its error.
pub fn run_diff(entries: &Vec<DiffEntry>) -> (r: Result<(usize, usize), DiffError>)
    requires
        forall|i: int| 0 <= i < entries@.len() ==> entry_wf(#[trigger] entries@[i]),
    ensures
        r is Ok <==> forall|i: int| 0 <= i < entries@.len() ==> entry_read(#[trigger] entries@[i]),
        r is Ok ==> r->Ok_0.0 == capped(total_added(entries@) as int) && r->Ok_0.1 == capped(
            total_deleted(entries@) as int,
        ),
        r is Err ==> exists|i: int|
            0 <= i < entries@.len() && entries@[i].values == Err::<(Content, Content), DiffError>(
                r->Err_0,
            ) && forall|j: int| 0 <= j < i ==> entry_read(#[trigger] entries@[j]),
{
    let mut sums: (usize, usize) = (0, 0);
    let mut i: usize = 0;
    while i < entries.len()
        invariant
            i <= entries@.len(),
            forall|j: int| 0 <= j < entries@.len() ==> entry_wf(#[trigger] entries@[j]),
            forall|j: int| 0 <= j < i ==> entry_read(#[trigger] entries@[j]),
            sums.0 == capped(total_added(entries@.take(i as int)) as int),
            sums.1 == capped(total_deleted(entries@.take(i as int)) as int),
        decreases entries@.len() - i,
    {
        let entry = &entries[i];
        proof {
            let pre = entries@.take(i as int);
            assert(entries@.take(i + 1) =~= pre.push(*entry));
            lemma_sum_by_push(pre, *entry, |e: DiffEntry| entry_stat(e).0);
            lemma_sum_by_push(pre, *entry, |e: DiffEntry| entry_stat(e).1);
        }
        match add_entry(sums, entry) {
            Ok(next) => {
                sums = next;
            },
            Err(e) => {
                return Err(e);
            },
        }
        i = i + 1;
    }
    proof {
        assert(entries@.take(i as int) =~= entries@);
    }
    Ok(sums)
}

/// An entry whose two sides hold the same content adds and deletes nothing,
/// so diffing a tree against itself gives `(0, 0)`.
pub proof fn law_self_diff_is_zero(entries: Seq<DiffEntry>)
    requires
        forall|i: int|
            0 <= i < entries.len() ==> match #[trigger] entries[i].values {
                Ok((l, r)) => materialized(l) == materialized(r),
                Err(_) => true,
            },
    ensures
        total_added(entries) == 0,
        total_deleted(entries) == 0,
    decreases entries.len(),
{
    if entries.len() > 0 {
        let rest = entries.drop_last();
        assert forall|i: int| 0 <= i < rest.len() implies match #[trigger] rest[i].values {
            Ok((l, r)) => materialized(l) == materialized(r),
            Err(_) => true,
        } by {
            assert(rest[i] == entries[i]);
        }
        law_self_diff_is_zero(rest);
        assert(entries.last() == entries[entries.len() - 1]);
    }
}

/// The totals do not depend on the order in which the entries come.
pub proof fn law_entry_order_is_irrelevant(entries: Seq<DiffEntry>, reordered: Seq<DiffEntry>)
    requires
        entries.to_multiset() == reordered.to_multiset(),
    ensures
        total_added(entries) == total_added(reordered),
        total_deleted(entries) == total_deleted(reordered),
{
    lemma_sum_by_permutation(entries, reordered, |e: DiffEntry| entry_stat(e).0);
    lemma_sum_by_permutation(entries, reordered, |e: DiffEntry| entry_stat(e).1);
}

/// The line counts of a diff do not depend on the order in which its hunks
/// are added up.
pub proof fn law_hunk_order_is_irrelevant(hunks: Seq<HunkView>, reordered: Seq<HunkView>)
    requires
        hunks.to_multiset() == reordered.to_multiset(),
    ensures
        crate::stat::added_lines(hunks) == crate::stat::added_lines(reordered),
        crate::stat::deleted_lines(hunks) == crate::stat::deleted_lines(reordered),
{
    lemma_sum_by_permutation(hunks, reordered, |h: HunkView| hunk_added(h));
    lemma_sum_by_permutation(hunks, reordered, |h: HunkView| hunk_deleted(h));
}

} // verus!
