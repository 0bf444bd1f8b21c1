use koishi::listing::bytes_before;
use koishi::listing::is_hidden;
use koishi::listing::list_locations;
use koishi::listing::list_records;
use koishi::listing::sort_by_name_files_before_dirs;
use koishi::listing::Entry;
use koishi::location::FileKind;

fn file(name: &str) -> Entry {
    Entry { name: name.to_string(), kind: FileKind::File, children: Vec::new() }
}

fn dir(name: &str, children: Vec<Entry>) -> Entry {
    Entry { name: name.to_string(), kind: FileKind::Directory, children }
}

fn other(name: &str) -> Entry {
    Entry { name: name.to_string(), kind: FileKind::Other, children: Vec::new() }
}

#[test]
fn test_list_records() {
    let tree = dir(
        "store",
        vec![
            dir("foo", vec![file("baz.txt"), file("bar.txt")]),
            file("qux.txt"),
            file(".hidden"),
            file(".sops.yml"),
        ],
    );
    let listed = list_records(&tree, None);
    assert_eq!(listed.len(), 3);
    for p in ["foo/bar.txt", "foo/baz.txt", "qux.txt"] {
        assert!(listed.contains(&p.to_string()));
    }
}

#[test]
fn files_come_before_directories_at_each_level() {
    let tree = dir(
        "store",
        vec![
            dir("a", vec![dir("x", vec![file("deep")]), file("z"), file("b")]),
            file("zz"),
            dir("m", vec![file("n")]),
            file("c"),
        ],
    );
    assert_eq!(list_records(&tree, None), vec!["c", "zz", "a/b", "a/z", "a/x/deep", "m/n"]);
}

#[test]
fn hidden_files_and_directories_are_skipped() {
    let tree = dir(
        "store",
        vec![
            dir(".git", vec![file("config"), dir("objects", vec![file("ab")])]),
            file(".sops.yaml"),
            dir("visible", vec![file(".secret"), file("shown")]),
            file("top"),
        ],
    );
    assert_eq!(list_records(&tree, None), vec!["top", "visible/shown"]);
}

#[test]
fn a_hidden_root_lists_nothing() {
    let tree = dir(".store", vec![file("a")]);
    assert_eq!(list_records(&tree, None), Vec::<String>::new());
    assert_eq!(list_locations(&tree), Vec::<String>::new());
}

#[test]
fn entries_that_are_neither_file_nor_directory_are_not_listed() {
    let dangling = Entry { name: "link".to_string(), kind: FileKind::Missing, children: Vec::new() };
    let tree = dir("store", vec![other("socket"), file("a"), dangling, other("b")]);
    assert_eq!(list_records(&tree, None), vec!["a"]);
    assert_eq!(list_locations(&tree), vec!["", "a"]);
}

#[test]
fn sub_path_is_the_prefix_of_every_record() {
    let tree = dir("work", vec![file("b"), dir("mail", vec![file("a")])]);
    assert_eq!(list_records(&tree, Some("work")), vec!["work/b", "work/mail/a"]);
    assert_eq!(list_records(&tree, Some("work/")), vec!["work/b", "work/mail/a"]);
}

#[test]
fn a_file_as_the_tree_is_listed_by_its_own_path() {
    assert_eq!(list_records(&file("a.txt"), Some("dir/a.txt")), vec!["dir/a.txt"]);
}

#[test]
fn an_empty_store_has_no_records() {
    assert_eq!(list_records(&dir("store", Vec::new()), None), Vec::<String>::new());
}

#[test]
fn locations_hold_directories_too() {
    let tree = dir("store", vec![dir("a", vec![file("b"), dir("c", Vec::new())]), file("d")]);
    assert_eq!(list_locations(&tree), vec!["", "d", "a", "a/b", "a/c"]);
}

#[test]
fn names_are_ordered_by_their_bytes() {
    let tree = dir("store", vec![file("b"), file("B"), file("a10"), file("a2"), file("é"), file("z")]);
    assert_eq!(list_records(&tree, None), vec!["B", "a10", "a2", "b", "z", "é"]);
}

#[test]
fn entries_with_the_same_name_keep_their_order() {
    let tree = dir("store", vec![dir("a", vec![file("1")]), dir("a", vec![file("2")])]);
    assert_eq!(list_records(&tree, None), vec!["a/1", "a/2"]);
}

#[test]
fn a_name_is_hidden_when_it_starts_with_a_dot() {
    assert!(is_hidden(".git"));
    assert!(is_hidden("."));
    assert!(!is_hidden("git."));
    assert!(!is_hidden(""));
    assert!(!is_hidden("a.b"));
}

#[test]
fn byte_order_is_strict_and_lexicographic() {
    assert!(bytes_before(b"a", b"b"));
    assert!(bytes_before(b"a", b"ab"));
    assert!(bytes_before(b"", b"a"));
    assert!(!bytes_before(b"a", b"a"));
    assert!(!bytes_before(b"b", b"a"));
    assert!(!bytes_before(b"", b""));
    assert!(bytes_before(b"ab", b"b"));
}

#[test]
fn comparison_puts_files_first_then_names() {
    assert!(sort_by_name_files_before_dirs(&file("z"), &dir("a", Vec::new())));
    assert!(!sort_by_name_files_before_dirs(&dir("a", Vec::new()), &file("z")));
    assert!(sort_by_name_files_before_dirs(&file("a"), &file("b")));
    assert!(!sort_by_name_files_before_dirs(&file("b"), &file("a")));
    assert!(!sort_by_name_files_before_dirs(&file("a"), &file("a")));
    assert!(sort_by_name_files_before_dirs(&dir("z", Vec::new()), &other("a")));
}
