//! Added and deleted line counts between two byte contents.

use vstd::prelude::*;

use crate::lines::{count_lines, lemma_line_count_bound, line_count};
use crate::sums::{lemma_sum_by_push, sum_by};

use jj_lib::diff::{find_line_ranges, CompareBytesExactly, ContentDiff, DiffHunkKind};

verus! {

/// Whether a hunk holds text that is the same on both sides.
#[derive(Clone, Copy, Debug, PartialEq, Eq, Structural)]
pub enum HunkKind {
    Matching,
    Different,
}

/// One aligned segment of a line diff: the text it covers on the "from"
/// side (`left`) and on the "to" side (`right`).
#[derive(Clone, Debug)]
pub struct LineHunk {
    pub kind: HunkKind,
    pub left: Vec<u8>,
    pub right: Vec<u8>,
}

/// A hunk as plain values: whether it differs, its left text, its right text.
pub type HunkView = (bool, Seq<u8>, Seq<u8>);

impl View for LineHunk {
    type V = HunkView;

    open spec fn view(&self) -> HunkView {
        (self.kind == HunkKind::Different, self.left@, self.right@)
    }
}

/// The hunks, as plain values.
pub open spec fn hunks_view(hunks: Seq<LineHunk>) -> Seq<HunkView> {
    hunks.map_values(|h: LineHunk| h@)
}

/// The left texts of `hunks`, one after the other.
pub open spec fn lefts(hunks: Seq<HunkView>) -> Seq<u8>
    decreases hunks.len(),
{
    if hunks.len() == 0 {
        Seq::empty()
    } else {
        lefts(hunks.drop_last()) + hunks.last().1
    }
}

/// The right texts of `hunks`, one after the other.
pub open spec fn rights(hunks: Seq<HunkView>) -> Seq<u8>
    decreases hunks.len(),
{
    if hunks.len() == 0 {
        Seq::empty()
    } else {
        rights(hunks.drop_last()) + hunks.last().2
    }
}

/// The hunks into which a line-by-line comparison of `left` and `right` cuts
/// them.
pub uninterp spec fn line_hunks_of(left: Seq<u8>, right: Seq<u8>) -> Seq<HunkView>;

/// Lines that a hunk adds: those of its right side, when the sides differ.
pub open spec fn hunk_added(h: HunkView) -> nat {
    if h.0 {
        line_count(h.2)
    } else {
        0
    }
}

/// Lines that a hunk deletes: those of its left side, when the sides differ.
pub open spec fn hunk_deleted(h: HunkView) -> nat {
    if h.0 {
        line_count(h.1)
    } else {
        0
    }
}

/// Lines added over all of `hunks`.
pub open spec fn added_lines(hunks: Seq<HunkView>) -> nat {
    sum_by(hunks, |h: HunkView| hunk_added(h))
}

/// Lines deleted over all of `hunks`.
pub open spec fn deleted_lines(hunks: Seq<HunkView>) -> nat {
    sum_by(hunks, |h: HunkView| hunk_deleted(h))
}

/// `(added, deleted)` between two contents: nothing between equal contents,
/// else the lines of the hunks in which a line diff finds them different.
pub open spec fn diff_stat(left: Seq<u8>, right: Seq<u8>) -> (nat, nat) {
    if left == right {
        (0, 0)
    } else {
        (
            added_lines(line_hunks_of(left, right)),
            deleted_lines(line_hunks_of(left, right)),
        )
    }
}

/// Relies on `jj_lib::diff::ContentDiff::for_tokenizer` with
/// `find_line_ranges` and `CompareBytesExactly`, and on its `hunks()`: the
/// hunks cover each input from start to end, in order; when one input is
/// empty no tokens are compared, so there is one differing hunk holding both
/// inputs, or none when both are empty.
#[verifier::external_body]
fn line_hunks(left: &[u8], right: &[u8]) -> (r: Vec<LineHunk>)
    ensures
        hunks_view(r@) == line_hunks_of(left@, right@),
        lefts(hunks_view(r@)) == left@,
        rights(hunks_view(r@)) == right@,
        left@.len() == 0 && right@.len() == 0 ==> r@.len() == 0,
        left@.len() == 0 && right@.len() > 0 ==> hunks_view(r@) == seq![(true, left@, right@)],
        left@.len() > 0 && right@.len() == 0 ==> hunks_view(r@) == seq![(true, left@, right@)],
{
    let diff = ContentDiff::for_tokenizer([left, right], find_line_ranges, CompareBytesExactly);
    diff.hunks()
        .map(|hunk| LineHunk {
            kind: match hunk.kind {
                DiffHunkKind::Matching => HunkKind::Matching,
                DiffHunkKind::Different => HunkKind::Different,
            },
            left: hunk.contents[0].to_vec(),
            right: hunk.contents[1].to_vec(),
        })
        .collect()
}

/// The texts of a prefix of the hunks are no longer than those of all.
proof fn lemma_texts_prefix(hunks: Seq<HunkView>, i: int)
    requires
        0 <= i <= hunks.len(),
    ensures
        lefts(hunks.take(i)).len() <= lefts(hunks).len(),
        rights(hunks.take(i)).len() <= rights(hunks).len(),
    decreases hunks.len(),
{
    if i < hunks.len() {
        assert(hunks.drop_last().take(i) =~= hunks.take(i));
        lemma_texts_prefix(hunks.drop_last(), i);
    } else {
        assert(hunks.take(i) =~= hunks);
    }
}

/// Adds up the lines of the differing hunks: `(added, deleted)`.
pub fn count_hunk_lines(hunks: &Vec<LineHunk>) -> (r: (usize, usize))
    requires
        lefts(hunks_view(hunks@)).len() <= usize::MAX,
        rights(hunks_view(hunks@)).len() <= usize::MAX,
    ensures
        r.0 == added_lines(hunks_view(hunks@)),
        r.1 == deleted_lines(hunks_view(hunks@)),
{
    let ghost hv = hunks_view(hunks@);
    let mut added: usize = 0;
    let mut deleted: usize = 0;
    let mut i: usize = 0;
    while i < hunks.len()
        invariant
            i <= hunks@.len(),
            hv == hunks_view(hunks@),
            lefts(hv).len() <= usize::MAX,
            rights(hv).len() <= usize::MAX,
            added == added_lines(hv.take(i as int)),
            deleted == deleted_lines(hv.take(i as int)),
            added <= rights(hv.take(i as int)).len(),
            deleted <= lefts(hv.take(i as int)).len(),
        decreases hunks@.len() - i,
    {
        let hunk = &hunks[i];
        proof {
            let pre = hv.take(i as int);
            let h = hv[i as int];
            assert(h == hunk@);
            assert(hv.take(i + 1) =~= pre.push(h));
            assert(hv.take(i + 1).drop_last() =~= pre);
            lemma_sum_by_push(pre, h, |h: HunkView| hunk_added(h));
            lemma_sum_by_push(pre, h, |h: HunkView| hunk_deleted(h));
            lemma_line_count_bound(h.1);
            lemma_line_count_bound(h.2);
            lemma_texts_prefix(hv, i + 1);
        }
        if hunk.kind == HunkKind::Different {
            let a = count_lines(hunk.right.as_slice());
            let d = count_lines(hunk.left.as_slice());
            added = added + a;
            deleted = deleted + d;
        }
        i = i + 1;
    }
    proof {
        assert(hv.take(i as int) =~= hv);
    }
    (added, deleted)
}

/// Whether two byte contents are equal.
pub fn same_bytes(a: &[u8], b: &[u8]) -> (r: bool)
    ensures
        r == (a@ == b@),
{
    if a.len() != b.len() {
        return false;
    }
    let mut i: usize = 0;
    while i < a.len()
        invariant
            i <= a@.len(),
            a@.len() == b@.len(),
            a@.take(i as int) == b@.take(i as int),
        decreases a@.len() - i,
    {
        if a[i] != b[i] {
            assert(a@[i as int] != b@[i as int]);
            return false;
        }
        assert(a@.take(i + 1) =~= a@.take(i as int).push(a@[i as int]));
        assert(b@.take(i + 1) =~= b@.take(i as int).push(b@[i as int]));
        i = i + 1;
    }
    assert(a@.take(i as int) =~= a@);
    assert(b@.take(i as int) =~= b@);
    true
}

/// Lines added and deleted going from `left` to `right`: `(added, deleted)`.
pub fn get_diff_stat(left: &[u8], right: &[u8]) -> (r: (usize, usize))
    ensures
        (r.0 as nat, r.1 as nat) == diff_stat(left@, right@),
        left@ == right@ ==> r == (0usize, 0usize),
        left@.len() == 0 ==> r.0 == line_count(right@) && r.1 == 0,
        right@.len() == 0 ==> r.0 == 0 && r.1 == line_count(left@),
{
    if same_bytes(left, right) {
        return (0, 0);
    }
    let hunks = line_hunks(left, right);
    proof {
        assert(left@.len() == left.len());
        assert(right@.len() == right.len());
        if left@.len() == 0 || right@.len() == 0 {
            let h: HunkView = (true, left@, right@);
            assert(hunks_view(hunks@) =~= Seq::<HunkView>::empty().push(h));
            lemma_sum_by_push(Seq::<HunkView>::empty(), h, |h: HunkView| hunk_added(h));
            lemma_sum_by_push(Seq::<HunkView>::empty(), h, |h: HunkView| hunk_deleted(h));
        }
    }
    count_hunk_lines(&hunks)
}

} // verus!
