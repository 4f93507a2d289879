use jj_status::content::{diff_content, ConflictSides, Content};
use jj_status::engine::{add_entry, run_diff, DiffEntry, DiffError};
use jj_status::lines::count_lines;
use jj_status::stat::{count_hunk_lines, get_diff_stat, HunkKind, LineHunk};

fn hunk(kind: HunkKind, left: &[u8], right: &[u8]) -> LineHunk {
    LineHunk { kind, left: left.to_vec(), right: right.to_vec() }
}

fn entry(left: Content, right: Content) -> DiffEntry {
    DiffEntry {
        source: "file".to_string(),
        target: "file".to_string(),
        values: Ok((left, right)),
    }
}

#[test]
fn lines_are_cut_after_each_newline() {
    assert_eq!(count_lines(b""), 0);
    assert_eq!(count_lines(b"a"), 1);
    assert_eq!(count_lines(b"a\n"), 1);
    assert_eq!(count_lines(b"a\nb"), 2);
    assert_eq!(count_lines(b"\n\n\n"), 3);
    assert_eq!(count_lines(b"a\nb\nc\n"), 3);
}

#[test]
fn changed_middle_line_and_appended_line() {
    assert_eq!(get_diff_stat(b"a\nb\nc\n", b"a\nB\nc\nd\n"), (2, 1));
}

#[test]
fn hunks_of_changed_middle_line_and_appended_line() {
    let hunks = vec![
        hunk(HunkKind::Matching, b"a\n", b"a\n"),
        hunk(HunkKind::Different, b"b\n", b"B\n"),
        hunk(HunkKind::Matching, b"c\n", b"c\n"),
        hunk(HunkKind::Different, b"", b"d\n"),
    ];
    assert_eq!(count_hunk_lines(&hunks), (2, 1));
}

#[test]
fn hunk_order_does_not_change_counts() {
    let hunks = vec![
        hunk(HunkKind::Different, b"x\ny\n", b"z\n"),
        hunk(HunkKind::Matching, b"m\n", b"m\n"),
        hunk(HunkKind::Different, b"", b"p\nq\nr"),
    ];
    let reordered = vec![
        hunk(HunkKind::Different, b"", b"p\nq\nr"),
        hunk(HunkKind::Different, b"x\ny\n", b"z\n"),
        hunk(HunkKind::Matching, b"m\n", b"m\n"),
    ];
    assert_eq!(count_hunk_lines(&hunks), (4, 2));
    assert_eq!(count_hunk_lines(&reordered), (4, 2));
}

#[test]
fn content_against_itself_is_unchanged() {
    assert_eq!(get_diff_stat(b"a\nb\nc\n", b"a\nb\nc\n"), (0, 0));
    assert_eq!(get_diff_stat(b"", b""), (0, 0));
}

#[test]
fn absent_against_file_counts_every_line() {
    let absent = diff_content(&Content::Absent);
    let file = diff_content(&Content::File(b"one\ntwo\nthree".to_vec()));
    assert_eq!(get_diff_stat(&absent, &file), (3, 0));
    assert_eq!(get_diff_stat(&file, &absent), (0, 3));
}

#[test]
fn inserted_line_between_kept_lines() {
    assert_eq!(get_diff_stat(b"a\nc\n", b"a\nb\nc\n"), (1, 0));
    assert_eq!(get_diff_stat(b"a\nb\nc\n", b"a\nc\n"), (0, 1));
}

#[test]
fn missing_final_newline_changes_the_last_line() {
    assert_eq!(get_diff_stat(b"a\nb", b"a\nb\n"), (1, 1));
}

#[test]
fn text_values_become_their_bytes() {
    assert_eq!(diff_content(&Content::Absent), b"".to_vec());
    assert_eq!(
        diff_content(&Content::AccessDenied("permission denied".to_string())),
        b"Access denied: permission denied".to_vec()
    );
    assert_eq!(diff_content(&Content::Symlink("../target".to_string())), b"../target".to_vec());
    assert_eq!(
        diff_content(&Content::GitSubmodule("0123abcd".to_string())),
        b"Git submodule checked out at 0123abcd".to_vec()
    );
    assert_eq!(
        diff_content(&Content::OtherConflict("tree conflict".to_string())),
        b"tree conflict".to_vec()
    );
    assert_eq!(diff_content(&Content::File(vec![0, 10, 255])), vec![0, 10, 255]);
}

#[test]
fn access_denied_text_is_diffed_as_a_line() {
    let denied = diff_content(&Content::AccessDenied("no".to_string()));
    assert_eq!(get_diff_stat(b"", &denied), (1, 0));
}

#[test]
fn conflict_materializes_the_same_way_every_time() {
    let sides = ConflictSides {
        removes: vec![b"base\n".to_vec()],
        adds: vec![b"left\n".to_vec(), b"right\n".to_vec()],
    };
    let first = diff_content(&Content::FileConflict(sides.clone()));
    let second = diff_content(&Content::FileConflict(sides));
    assert_eq!(first, second);
    let text = String::from_utf8(first).unwrap();
    assert!(text.contains("<<<<<<<"));
    assert!(text.contains("left\n"));
    assert!(text.contains("right\n"));
    assert!(text.contains(">>>>>>>"));
}

#[test]
fn conflict_with_the_same_change_on_every_side_is_resolved() {
    let sides = ConflictSides {
        removes: vec![b"base\n".to_vec()],
        adds: vec![b"same\n".to_vec(), b"same\n".to_vec()],
    };
    assert_eq!(diff_content(&Content::FileConflict(sides)), b"same\n".to_vec());
}

#[test]
fn totals_add_up_over_entries() {
    let entries = vec![
        entry(Content::File(b"a\nb\nc\n".to_vec()), Content::File(b"a\nB\nc\nd\n".to_vec())),
        entry(Content::Absent, Content::Symlink("target".to_string())),
        entry(Content::File(b"gone\ngone\n".to_vec()), Content::Absent),
        entry(Content::File(b"same\n".to_vec()), Content::File(b"same\n".to_vec())),
    ];
    assert_eq!(run_diff(&entries).unwrap(), (3, 3));
}

#[test]
fn totals_do_not_depend_on_entry_order() {
    let forward = vec![
        entry(Content::Absent, Content::File(b"x\ny\n".to_vec())),
        entry(Content::File(b"p\n".to_vec()), Content::File(b"q\n".to_vec())),
    ];
    let backward = vec![
        entry(Content::File(b"p\n".to_vec()), Content::File(b"q\n".to_vec())),
        entry(Content::Absent, Content::File(b"x\ny\n".to_vec())),
    ];
    assert_eq!(run_diff(&forward).unwrap(), (3, 1));
    assert_eq!(run_diff(&backward).unwrap(), (3, 1));
}

#[test]
fn no_entries_give_zero_totals() {
    assert_eq!(run_diff(&Vec::new()).unwrap(), (0, 0));
}

#[test]
fn unreadable_entry_fails_the_whole_diff() {
    let entries = vec![
        entry(Content::Absent, Content::File(b"x\n".to_vec())),
        DiffEntry {
            source: "broken".to_string(),
            target: "broken".to_string(),
            values: Err(DiffError::Materialization("read failed".to_string())),
        },
        DiffEntry {
            source: "later".to_string(),
            target: "later".to_string(),
            values: Err(DiffError::CopyQuery("later".to_string())),
        },
    ];
    match run_diff(&entries) {
        Err(DiffError::Materialization(m)) => assert_eq!(m, "read failed"),
        other => panic!("unexpected result {other:?}"),
    }
}

#[test]
fn entries_can_be_added_one_at_a_time() {
    let first = entry(Content::File(b"a\nb\nc\n".to_vec()), Content::File(b"a\nB\nc\nd\n".to_vec()));
    let second = entry(Content::Absent, Content::File(b"new\n".to_vec()));
    let sums = add_entry((0, 0), &first).unwrap();
    assert_eq!(sums, (2, 1));
    assert_eq!(add_entry(sums, &second).unwrap(), (3, 1));
    assert_eq!(add_entry((usize::MAX, 4), &second).unwrap(), (usize::MAX, 4));
}

#[test]
fn failed_entry_hands_back_its_error() {
    let broken = DiffEntry {
        source: "a".to_string(),
        target: "b".to_string(),
        values: Err(DiffError::ConflictMaterialize("bad merge".to_string())),
    };
    match add_entry((1, 1), &broken) {
        Err(DiffError::ConflictMaterialize(m)) => assert_eq!(m, "bad merge"),
        other => panic!("unexpected result {other:?}"),
    }
}
