//! Locations: where in a store a path points.
//!
//! A location is a store root and a path relative to it. The file it names is
//! found by joining the two as text. Nothing here resolves `..` segments or
//! symbolic links, and nothing touches the disk: a location stays under its
//! root only in the sense that its file name starts with the root, so a
//! caller who must confine users to the store has to reject `..` itself.

use vstd::prelude::*;
use vstd::string::StrSliceExecFns;
use vstd::string::StringExecFns;

use crate::text::chars_of;
use crate::text::str_eq;

verus! {

/// What was found on disk at some path when the caller looked.
#[derive(Clone, Copy, Debug, PartialEq, Eq, Structural)]
pub enum FileKind {
    /// Nothing is there.
    Missing,
    /// A regular file.
    File,
    /// A directory.
    Directory,
    /// Something else, such as a socket or a link that leads nowhere.
    Other,
}

impl FileKind {
    /// What is at a path, from what the file system says of it: whether
    /// anything is there, whether it is a regular file, and whether it is a
    /// directory.
    pub fn of(present: bool, file: bool, directory: bool) -> (kind: FileKind)
        ensures
            kind == kind_of(present, file, directory),
    {
        if file {
            FileKind::File
        } else if directory {
            FileKind::Directory
        } else if present {
            FileKind::Other
        } else {
            FileKind::Missing
        }
    }
}

/// What is at a path of which the file system says this much.
pub open spec fn kind_of(present: bool, file: bool, directory: bool) -> FileKind {
    if file {
        FileKind::File
    } else if directory {
        FileKind::Directory
    } else if present {
        FileKind::Other
    } else {
        FileKind::Missing
    }
}

/// `rel` adjoined to `root`, with one `/` between them unless `root` is
/// empty or already ends in one.
pub open spec fn joined(root: Seq<char>, rel: Seq<char>) -> Seq<char> {
    if root.len() == 0 || root.last() == '/' {
        root + rel
    } else {
        root + seq!['/'] + rel
    }
}

/// How many characters of `path` stand before its last `/`; zero where it
/// holds none.
pub open spec fn last_slash(path: Seq<char>) -> int
    decreases path.len(),
{
    if path.len() == 0 {
        0
    } else if path.last() == '/' {
        path.len() - 1
    } else {
        last_slash(path.drop_last())
    }
}

/// The directory that holds `path`: the text before its last `/`, or `/`
/// itself where that slash is the first character. A path without a slash
/// lies in the current directory, written as the empty path.
pub open spec fn parent_of(path: Seq<char>) -> Seq<char> {
    let n = last_slash(path);
    if n == 0 && path.len() > 0 && path[0] == '/' {
        seq!['/']
    } else {
        path.take(n)
    }
}

/// A joined path starts with its root, whatever is adjoined.
pub proof fn lemma_joined_starts_with_root(root: Seq<char>, rel: Seq<char>)
    ensures
        root.is_prefix_of(joined(root, rel)),
        joined(root, rel).len() >= root.len() + rel.len(),
{
    let j = joined(root, rel);
    assert(j.take(root.len() as int) == root);
}

/// The last slash lies inside the path, and nothing after it is a slash.
pub proof fn lemma_last_slash(path: Seq<char>)
    ensures
        0 <= last_slash(path) <= path.len(),
        last_slash(path) < path.len() ==> forall|i: int|
            last_slash(path) < i < path.len() ==> path[i] != '/',
        path.contains('/') ==> last_slash(path) < path.len() && path[last_slash(path)] == '/',
        !path.contains('/') ==> last_slash(path) == 0,
    decreases path.len(),
{
    if path.len() == 0 {
    } else if path.last() == '/' {
    } else {
        let front = path.drop_last();
        lemma_last_slash(front);
        if path.contains('/') {
            let j = choose|j: int| 0 <= j < path.len() && path[j] == '/';
            assert(front[j] == '/');
            assert(path[last_slash(front)] == front[last_slash(front)]);
        }
        if front.contains('/') {
            let j = choose|j: int| 0 <= j < front.len() && front[j] == '/';
            assert(path[j] == '/');
        }
        assert forall|i: int| last_slash(path) < i < path.len() implies path[i] != '/' by {
            if i < front.len() {
                assert(path[i] == front[i]);
            }
        }
    }
}

/// Adjoins `rel` to `root`.
pub fn join(root: &str, rel: &str) -> (path: String)
    ensures
        path@ == joined(root@, rel@),
{
    proof {
        reveal_strlit("/");
    }
    let n = root.unicode_len();
    let mut path = root.to_owned();
    if n > 0 && root.get_char(n - 1) != '/' {
        path.append("/");
        assert("/"@ == seq!['/']);
    }
    path.append(rel);
    path
}

/// The directory that holds `path`.
pub fn parent(path: &str) -> (dir: String)
    ensures
        dir@ == parent_of(path@),
{
    let chars = chars_of(path);
    let mut n = chars.len();
    assert(path@.take(n as int) == path@);
    while n > 0 && chars[n - 1] != '/'
        invariant
            chars@ == path@,
            n <= chars@.len(),
            last_slash(path@) == last_slash(path@.take(n as int)),
            forall|i: int| n <= i < chars@.len() ==> chars@[i] != '/',
        decreases n,
    {
        assert(path@.take(n as int).drop_last() == path@.take(n - 1));
        n -= 1;
    }
    if n == 0 {
        assert(path@.take(0).len() == 0);
        assert(path@.subrange(0, 0) == path@.take(0));
        path.substring_char(0, 0).to_owned()
    } else if n == 1 {
        proof {
            reveal_strlit("/");
            assert(path@.take(1).last() == '/');
        }
        "/".to_owned()
    } else {
        assert(path@.take(n as int).last() == '/');
        assert(path@.subrange(0, n - 1) == path@.take(n - 1));
        path.substring_char(0, n - 1).to_owned()
    }
}

/// A place in a store: the store's root and a path below it.
#[derive(Debug)]
pub struct StoreLocation<'a> {
    root: &'a str,
    store_filename: String,
}

/// What a location is, as plain text.
pub struct LocationView {
    /// The root of the store.
    pub root: Seq<char>,
    /// The path below the root.
    pub store_filename: Seq<char>,
}

impl<'a> View for StoreLocation<'a> {
    type V = LocationView;

    open spec fn view(&self) -> LocationView {
        LocationView { root: self.spec_root()@, store_filename: self.spec_store_filename()@ }
    }
}

impl LocationView {
    /// The full path of the file this location names.
    pub open spec fn filename(self) -> Seq<char> {
        joined(self.root, self.store_filename)
    }
}

impl<'a> StoreLocation<'a> {
    /// The root this location was made with.
    pub closed spec fn spec_root(&self) -> &'a str {
        self.root
    }

    /// The path below the root this location was made with.
    pub closed spec fn spec_store_filename(&self) -> String {
        self.store_filename
    }

    /// The location of `store_path` in the store at `root`.
    pub fn from_path(root: &'a str, store_path: &str) -> (location: Self)
        ensures
            location@.root == root@,
            location@.store_filename == store_path@,
    {
        StoreLocation { root, store_filename: store_path.to_owned() }
    }

    /// The root of the store this location is in.
    pub fn root(&self) -> (root: &'a str)
        ensures
            root@ == self@.root,
    {
        self.root
    }

    /// The full path of the file: the store path adjoined to the root.
    pub fn filename(&self) -> (path: String)
        ensures
            path@ == self@.filename(),
            self@.root.is_prefix_of(path@),
    {
        proof {
            lemma_joined_starts_with_root(self@.root, self@.store_filename);
        }
        join(self.root, self.store_filename.as_str())
    }

    /// The path of the file relative to the store's root.
    pub fn store_filename(&self) -> (path: &str)
        ensures
            path@ == self@.store_filename,
    {
        self.store_filename.as_str()
    }

    /// The directory that must exist before the file can be written: every
    /// ancestor of the file, not the file itself.
    pub fn parent_directory(&self) -> (dir: String)
        ensures
            dir@ == parent_of(self@.filename()),
    {
        let path = self.filename();
        parent(path.as_str())
    }

    /// Whether the location holds a secret, given what was found at
    /// `filename()`: only a regular file counts.
    pub fn is_present(&self, found: FileKind) -> (present: bool)
        ensures
            present == (found == FileKind::File),
    {
        found == FileKind::File
    }

    /// Whether two locations name the same place: same root, same store path.
    pub fn same_as(&self, other: &StoreLocation) -> (same: bool)
        ensures
            same == (self@ == other@),
    {
        let same = str_eq(self.root, other.root) && str_eq(
            self.store_filename.as_str(),
            other.store_filename.as_str(),
        );
        same
    }
}

} // verus!
