use bom_marker::tree::{entry_is_hidden, mark_entry, FsEntry};

const BOM: [u8; 3] = [0xEF, 0xBB, 0xBF];

fn file(name: &str, content: &[u8]) -> FsEntry {
    FsEntry::File { name: name.as_bytes().to_vec(), content: content.to_vec() }
}

fn dir(name: &str, entries: Vec<FsEntry>) -> FsEntry {
    FsEntry::Dir { name: name.as_bytes().to_vec(), entries }
}

fn with_bom(content: &[u8]) -> Vec<u8> {
    let mut v = BOM.to_vec();
    v.extend_from_slice(content);
    v
}

#[test]
fn plain_file_marked_hidden_file_untouched() {
    let root = dir("root", vec![file("a.txt", b"hello"), file(".secret", b"hidden")]);
    let marked = mark_entry(root);
    let expected = dir(
        "root",
        vec![
            file("a.txt", &with_bom(b"hello")),
            file(".secret", b"hidden"),
        ],
    );
    assert_eq!(marked, expected);
}

#[test]
fn already_marked_file_unchanged() {
    let content = with_bom(b"world");
    let root = dir("root", vec![dir("sub", vec![file("b.txt", &content)])]);
    let marked = mark_entry(root);
    let expected = dir("root", vec![dir("sub", vec![file("b.txt", &content)])]);
    assert_eq!(marked, expected);
}

#[test]
fn empty_file_becomes_marker_alone() {
    let root = dir("root", vec![file("empty.txt", b"")]);
    let marked = mark_entry(root);
    let expected = dir("root", vec![file("empty.txt", &BOM)]);
    assert_eq!(marked, expected);
}

#[test]
fn hidden_directory_subtree_untouched_sibling_marked() {
    let root = dir(
        "root",
        vec![dir(
            "sub",
            vec![
                dir(".git", vec![dir("objects", vec![])]),
                file("c.txt", b"data"),
            ],
        )],
    );
    let marked = mark_entry(root);
    let expected = dir(
        "root",
        vec![dir(
            "sub",
            vec![
                dir(".git", vec![dir("objects", vec![])]),
                file("c.txt", &with_bom(b"data")),
            ],
        )],
    );
    assert_eq!(marked, expected);
}

#[test]
fn marking_a_tree_twice_equals_marking_once() {
    let make_root = || {
        dir(
            "root",
            vec![
                file("a.txt", b"hello"),
                file(".secret", b"hidden"),
                dir("sub", vec![file("b.txt", b"x"), file("empty", b"")]),
            ],
        )
    };
    let once = mark_entry(make_root());
    let twice = mark_entry(mark_entry(make_root()));
    assert_eq!(once, twice);
}

#[test]
fn hidden_file_content_keeps_even_marker_lookalike() {
    let root = dir("root", vec![file(".keep", b"no marker here")]);
    let marked = mark_entry(root);
    let expected = dir("root", vec![file(".keep", b"no marker here")]);
    assert_eq!(marked, expected);
}

#[test]
fn entry_hidden_test_reads_the_entry_name() {
    assert!(entry_is_hidden(&file(".a", b"")));
    assert!(entry_is_hidden(&dir(".git", vec![])));
    assert!(!entry_is_hidden(&file("a", b"")));
    assert!(!entry_is_hidden(&dir("sub", vec![])));
}

#[test]
fn empty_directory_stays_empty() {
    let marked = mark_entry(dir("root", vec![]));
    assert_eq!(marked, dir("root", vec![]));
}
