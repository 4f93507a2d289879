//! The bytes that stand for one side of a changed path.

use vstd::prelude::*;
use vstd::slice::slice_to_vec;
use vstd::string::StringExecFns;
use vstd::utf8::encode_utf8;

use jj_lib::conflicts::{
    materialize_merge_result_to_bytes, ConflictMarkerStyle, ConflictMaterializeOptions,
};
use jj_lib::files::FileMergeHunkLevel;
use jj_lib::merge::{Merge, SameChange};
use jj_lib::tree_merge::MergeOptions;

verus! {

/// The competing versions of a conflicted file: one more `adds` than
/// `removes` (the bases).
#[derive(Clone, Debug)]
pub struct ConflictSides {
    pub removes: Vec<Vec<u8>>,
    pub adds: Vec<Vec<u8>>,
}

impl ConflictSides {
    /// The shape every conflict has.
    pub open spec fn wf(&self) -> bool {
        self.adds@.len() == self.removes@.len() + 1
    }
}

/// What a path holds on one side of a tree diff, with file contents already
/// read.
#[derive(Clone, Debug)]
pub enum Content {
    /// The path does not exist on this side.
    Absent,
    /// The path could not be read; holds the reason.
    AccessDenied(String),
    /// A regular file and its whole content.
    File(Vec<u8>),
    /// A symlink and its target.
    Symlink(String),
    /// A Git submodule, with the hex id of the commit it points at.
    GitSubmodule(String),
    /// A conflicted file.
    FileConflict(ConflictSides),
    /// Any other conflict, with its description.
    OtherConflict(String),
    /// A directory, which a leaf-to-leaf diff never yields.
    Tree,
}

/// Text that stands for a path that could not be read.
pub open spec fn access_denied_text(reason: Seq<char>) -> Seq<char> {
    "Access denied: "@ + reason
}

/// Text that stands for a Git submodule.
pub open spec fn submodule_text(commit_hex: Seq<char>) -> Seq<char> {
    "Git submodule checked out at "@ + commit_hex
}

/// The bytes of a conflicted file with its conflict markers.
pub uninterp spec fn conflict_bytes_of(removes: Seq<Seq<u8>>, adds: Seq<Seq<u8>>) -> Seq<u8>;

/// The bytes that are compared for one side of a changed path.
pub open spec fn materialized(value: Content) -> Seq<u8> {
    match value {
        Content::Absent => Seq::empty(),
        Content::AccessDenied(reason) => encode_utf8(access_denied_text(reason@)),
        Content::File(bytes) => bytes@,
        Content::Symlink(target) => encode_utf8(target@),
        Content::GitSubmodule(commit_hex) => encode_utf8(submodule_text(commit_hex@)),
        Content::FileConflict(sides) => conflict_bytes_of(
            sides.removes.deep_view(),
            sides.adds.deep_view(),
        ),
        Content::OtherConflict(description) => encode_utf8(description@),
        Content::Tree => Seq::empty(),
    }
}

/// Whether `value` may stand at one end of a diff entry.
pub open spec fn is_leaf(value: Content) -> bool {
    match value {
        Content::Tree => false,
        Content::FileConflict(sides) => sides.wf(),
        _ => true,
    }
}

/// Relies on `jj_lib::conflicts::materialize_merge_result_to_bytes`, with
/// Git-style markers, line-level merge hunks and same changes accepted: the
/// bytes depend on the sides alone. `Merge::from_removes_adds` needs one more
/// add than removes.
#[verifier::external_body]
fn materialize_conflict(removes: &Vec<Vec<u8>>, adds: &Vec<Vec<u8>>) -> (r: Vec<u8>)
    requires
        adds@.len() == removes@.len() + 1,
    ensures
        r@ == conflict_bytes_of(removes.deep_view(), adds.deep_view()),
{
    let contents = Merge::from_removes_adds(removes.iter(), adds.iter());
    let options = ConflictMaterializeOptions {
        marker_style: ConflictMarkerStyle::Git,
        marker_len: None,
        merge: MergeOptions {
            hunk_level: FileMergeHunkLevel::Line,
            same_change: SameChange::Accept,
        },
    };
    materialize_merge_result_to_bytes(&contents, &options).into()
}

/// The UTF-8 bytes of `text`.
fn text_bytes(text: &str) -> (r: Vec<u8>)
    ensures
        r@ == encode_utf8(text@),
{
    slice_to_vec(text.as_bytes())
}

/// The UTF-8 bytes of `head` followed by `tail`.
fn joined_text_bytes(head: &str, tail: &str) -> (r: Vec<u8>)
    ensures
        r@ == encode_utf8(head@ + tail@),
{
    let mut text = String::from_str(head);
    text.append(tail);
    text_bytes(text.as_str())
}

/// The bytes compared for one side of a changed path.
pub fn diff_content(value: &Content) -> (r: Vec<u8>)
    requires
        is_leaf(*value),
    ensures
        r@ == materialized(*value),
{
    match value {
        Content::Absent => Vec::new(),
        Content::AccessDenied(reason) => joined_text_bytes("Access denied: ", reason.as_str()),
        Content::File(bytes) => slice_to_vec(bytes.as_slice()),
        Content::Symlink(target) => text_bytes(target.as_str()),
        Content::GitSubmodule(commit_hex) => joined_text_bytes(
            "Git submodule checked out at ",
            commit_hex.as_str(),
        ),
        Content::FileConflict(sides) => materialize_conflict(&sides.removes, &sides.adds),
        Content::OtherConflict(description) => text_bytes(description.as_str()),
        Content::Tree => {
            proof {
                assert(false);
            }
            Vec::new()
        },
    }
}

/// A conflicted file turns into the same bytes whenever its competing
/// versions hold the same contents.
pub proof fn law_conflict_bytes_depend_on_contents_alone(a: ConflictSides, b: ConflictSides)
    requires
        a.removes.deep_view() == b.removes.deep_view(),
        a.adds.deep_view() == b.adds.deep_view(),
    ensures
        materialized(Content::FileConflict(a)) == materialized(Content::FileConflict(b)),
{
}

} // verus!
