use koishi::git::GitError;
use koishi::git::GitOperationResult;
use koishi::listing::Entry;
use koishi::location::FileKind;
use koishi::location::StoreLocation;
use koishi::plan::Mutation;
use koishi::record::set_command;
use koishi::store::Fault;
use koishi::store::Store;
use koishi::store::StoreProbe;
use std::path::Path;

fn store_at(root: &str) -> Store {
    let probe = StoreProbe { root: FileKind::Directory, config: FileKind::File, repository: true };
    Store::open(root, probe).unwrap()
}

fn file(name: &str) -> Entry {
    Entry { name: name.to_string(), kind: FileKind::File, children: Vec::new() }
}

fn dir(name: &str, children: Vec<Entry>) -> Entry {
    Entry { name: name.to_string(), kind: FileKind::Directory, children }
}

#[test]
fn test_create_and_get_record() {
    let store_path = "/tmp/koishi-test/store";
    let store = store_at(store_path);

    let record_path = "foo/bar.txt";
    let record = store.create_record(record_path, FileKind::Missing).unwrap();
    assert_eq!(Path::new(&record.filename()), Path::new(store_path).join(record_path));

    // Now the record should not exist yet: nothing but its directory is asked for
    assert_eq!(record.parent_directory(), "/tmp/koishi-test/store/foo");

    // With the file written, the record is found
    let fetched = store.get_record(record_path, FileKind::File).unwrap();
    assert_eq!(fetched.filename(), record.filename());
}

#[test]
fn test_get_record_unchecked() {
    let store_path = "/tmp/koishi-test/store";
    let store = store_at(store_path);

    let record_path = "does/not/exist.txt";
    let record = store.get_record_unchecked(record_path).unwrap();
    assert_eq!(Path::new(&record.filename()), Path::new(store_path).join(record_path));
}

#[test]
fn store_lists_its_records() {
    let store = store_at("/s");
    let tree = dir("s", vec![dir("foo", vec![file("bar.txt"), file("baz.txt")]), file("qux.txt"), file(".hidden")]);
    assert_eq!(store.list_records(&tree, None), vec!["qux.txt", "foo/bar.txt", "foo/baz.txt"]);
    assert_eq!(store.list_locations(&tree), vec!["", "qux.txt", "foo", "foo/bar.txt", "foo/baz.txt"]);
    let sub = dir("foo", vec![file("bar.txt")]);
    assert_eq!(store.list_records(&sub, Some("foo")), vec!["foo/bar.txt"]);
}

#[test]
fn create_fails_where_a_secret_already_is() {
    let store = store_at("/s");
    let err = store.create_record("a/b", FileKind::File).unwrap_err();
    assert_eq!(err.fault, Fault::SecretExists);
    assert_eq!(err.message(), "Secret already exists at `/s/a/b`");
    assert!(store.create_record("a/b", FileKind::Directory).is_ok());
}

#[test]
fn get_fails_where_no_secret_is() {
    let store = store_at("/s");
    let err = store.get_record("a/b", FileKind::Missing).unwrap_err();
    assert_eq!(err.fault, Fault::SecretMissing);
    assert_eq!(err.message(), "No secret found at `a/b`");
    assert!(store.get_record("a/b", FileKind::Directory).is_err());
}

#[test]
fn move_fails_when_destination_is_occupied() {
    let store = store_at("/s");
    let record = store.get_record("a", FileKind::File).unwrap();
    let err = record.move_to(&store.location("b"), FileKind::File).unwrap_err();
    assert_eq!(err.fault, Fault::DestinationExists);
    assert_eq!(err.message(), "Destination `b` already exists");
}

#[test]
fn move_fails_between_stores() {
    let store = store_at("/s");
    let record = store.get_record("a", FileKind::File).unwrap();
    let elsewhere = StoreLocation::from_path("/other", "a");
    let err = record.move_to(&elsewhere, FileKind::Missing).unwrap_err();
    assert_eq!(err.fault, Fault::DifferentStore);
    assert_eq!(err.message(), "Cannot move record to a different store: /other");
    // The other store is reported even if the destination is occupied too.
    assert_eq!(record.move_to(&elsewhere, FileKind::File).unwrap_err().fault, Fault::DifferentStore);
}

#[test]
fn move_renames_the_file_and_then_the_record() {
    let store = store_at("/s");
    let mut record = store.get_record("old/a", FileKind::File).unwrap();
    let destination = store.location("new/b");
    let plan = record.move_to(&destination, FileKind::Missing).unwrap();
    assert_eq!(plan.repo_dir, "/s");
    assert_eq!(plan.description, "Move record `old/a` => `new/b`");
    assert_eq!(plan.context.as_deref(), Some("Failed to move record `old/a` => `new/b`"));
    match plan.mutation {
        Mutation::Rename { from, to } => {
            assert_eq!(from, "/s/old/a");
            assert_eq!(to, "/s/new/b");
        }
        _ => panic!("a rename was expected"),
    }
    assert_eq!(record.filename(), "/s/old/a");

    let committed: Result<GitOperationResult, GitError<String>> = Ok(GitOperationResult::Commit);
    record.complete_move(destination, &committed);
    assert_eq!(record.filename(), "/s/new/b");
    assert_eq!(record.store_filename(), "new/b");
}

#[test]
fn a_failed_move_leaves_the_record_where_it_was() {
    let store = store_at("/s");
    let mut record = store.get_record("a", FileKind::File).unwrap();
    let failed: Result<GitOperationResult, GitError<String>> = Err(GitError::Dirty);
    record.complete_move(store.location("b"), &failed);
    assert_eq!(record.filename(), "/s/a");
}

#[test]
fn delete_removes_the_file() {
    let store = store_at("/s");
    let record = store.get_record("a/b", FileKind::File).unwrap();
    let plan = record.delete();
    assert_eq!(plan.repo_dir, "/s");
    assert_eq!(plan.description, "Delete record `a/b`");
    assert_eq!(plan.context.as_deref(), Some("Failed to delete record `a/b`"));
    assert!(matches!(plan.mutation, Mutation::Remove { ref path } if path == "/s/a/b"));
}

#[test]
fn edit_opens_the_record_in_sops() {
    let store = store_at("/s");
    let record = store.get_record_unchecked("a").unwrap();
    let plan = record.edit_interactive();
    assert_eq!(plan.description, "Edit record `a`");
    assert!(plan.context.is_none());
    assert!(matches!(plan.mutation, Mutation::EditRecord { ref file } if file == "/s/a"));
}

#[test]
fn encrypting_replaces_the_contents() {
    let store = store_at("/s");
    let record = store.get_record_unchecked("a").unwrap();
    let plan = record.encrypt_entire_file(b"secret".to_vec());
    assert_eq!(plan.description, "Update contents of record `a`");
    match plan.mutation {
        Mutation::Encrypt { file, contents } => {
            assert_eq!(file, "/s/a");
            assert_eq!(contents, b"secret");
        }
        _ => panic!("an encryption was expected"),
    }
}

#[test]
fn setting_a_value_keeps_the_selector_as_written() {
    let store = store_at("/s");
    let record = store.get_record_unchecked("a").unwrap();
    let plan = record.encrypt_set("login/user", b"me\n".to_vec());
    assert_eq!(plan.description, "Update `login/user` in record `a`");
    match plan.mutation {
        Mutation::SetValue { file, selector, contents } => {
            assert_eq!(file, "/s/a");
            assert_eq!(selector, "login/user");
            assert_eq!(contents, b"me\n");
            let command = set_command("/s", &file, &selector, &contents).unwrap();
            assert_eq!(command.workdir, "/s");
            assert_eq!(command.arguments, vec!["set", "/s/a", "[\"login\"][\"user\"]", "\"me\""]);
        }
        _ => panic!("a value was to be set"),
    }
}

#[test]
fn a_value_is_set_as_a_json_string_literal() {
    let command = set_command("/s", "f.json", "[\"k\"]", b" a\"b\\c\n").unwrap();
    assert_eq!(command.arguments, vec!["set", "f.json", "[\"k\"]", "\"a\\\"b\\\\c\""]);
    let command = set_command("/s", "f.json", "k", b"two\nlines").unwrap();
    assert_eq!(command.arguments[3], "\"two\\nlines\"");
}

#[test]
fn a_value_that_is_not_text_cannot_be_set() {
    assert!(set_command("/s", "/s/a", "key", &[0xff, 0xfe]).is_none());
}

#[test]
fn decrypting_extracts_what_the_selector_picks() {
    let store = store_at("/s");
    let record = store.get_record("a/b", FileKind::File).unwrap();
    let whole = record.decrypt_and_extract(None);
    assert_eq!(whole.workdir, "/s");
    assert_eq!(whole.arguments, vec!["decrypt", "a/b"]);
    let part = record.decrypt_and_extract(Some("otp"));
    assert_eq!(part.arguments, vec!["decrypt", "--extract", "[\"otp\"]", "a/b"]);
    let nested = record.decrypt_and_extract(Some("x/y"));
    assert_eq!(nested.arguments, vec!["decrypt", "--extract", "[\"x\"][\"y\"]", "a/b"]);
    let index = record.decrypt_and_extract(Some("[\"x\"][0]"));
    assert_eq!(index.arguments, vec!["decrypt", "--extract", "[\"x\"][0]", "a/b"]);
}
