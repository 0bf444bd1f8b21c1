//! Listing the records of a store from a snapshot of its directory tree.
//!
//! The caller reads the tree from disk; this module decides what is shown and
//! in which order. Entries whose name starts with a dot are skipped together
//! with everything below them. At each level files come before directories,
//! and entries of the same kind are ordered by the bytes of their names.

use vstd::prelude::*;
use vstd::string::StrSliceExecFns;
use vstd::utf8::encode_utf8;

use crate::location::join;
use crate::location::joined;
use crate::location::lemma_joined_starts_with_root;
use crate::location::FileKind;
use crate::text::lemma_contains_add;

verus! {

/// One entry of a directory tree as it was read from disk.
#[derive(Debug)]
pub struct Entry {
    /// The last component of the entry's path.
    pub name: String,
    /// What the entry is. A link that leads nowhere is `Missing`.
    pub kind: FileKind,
    /// For a directory, what it holds, in any order.
    pub children: Vec<Entry>,
}

/// Whether a name marks its entry as hidden: it starts with a dot.
pub open spec fn hidden(name: Seq<char>) -> bool {
    name.len() > 0 && name[0] == '.'
}

/// Strict lexicographic order on byte strings.
pub open spec fn bytes_lt(a: Seq<u8>, b: Seq<u8>) -> bool
    decreases a.len(),
{
    if b.len() == 0 {
        false
    } else if a.len() == 0 {
        true
    } else if a[0] != b[0] {
        a[0] < b[0]
    } else {
        bytes_lt(a.drop_first(), b.drop_first())
    }
}

/// Files first, directories second, everything else last.
pub open spec fn rank(kind: FileKind) -> int {
    match kind {
        FileKind::File => 0,
        FileKind::Directory => 1,
        FileKind::Other => 2,
        FileKind::Missing => 2,
    }
}

/// The bytes by which an entry's name is ordered.
pub open spec fn name_bytes(e: Entry) -> Seq<u8> {
    encode_utf8(e.name@)
}

/// Whether `a` must be visited before `b` when both lie in one directory.
pub open spec fn comes_before(a: Entry, b: Entry) -> bool {
    rank(a.kind) < rank(b.kind) || (rank(a.kind) == rank(b.kind) && bytes_lt(
        name_bytes(a),
        name_bytes(b),
    ))
}

/// `order` with the index `i` put behind the last index whose entry does not
/// have to come after entry `i`.
pub open spec fn placed(entries: Seq<Entry>, order: Seq<int>, i: int) -> Seq<int>
    decreases order.len(),
{
    if order.len() == 0 {
        seq![i]
    } else if comes_before(entries[i], entries[order.last()]) {
        placed(entries, order.drop_last(), i).push(order.last())
    } else {
        order.push(i)
    }
}

/// The order in which the first `n` entries of a directory are visited, as
/// indices into `entries`. Entries that compare equal keep their order.
pub open spec fn visit_order(entries: Seq<Entry>, n: nat) -> Seq<int>
    decreases n,
{
    if n == 0 {
        Seq::empty()
    } else {
        placed(entries, visit_order(entries, (n - 1) as nat), n - 1)
    }
}

/// The store paths listed for the tree at `e`, which itself has the store
/// path `path`: its files, and its directories too where `dirs` is set.
pub open spec fn listing(e: Entry, path: Seq<char>, dirs: bool) -> Seq<Seq<char>>
    decreases e, 0nat,
{
    if hidden(e.name@) {
        Seq::empty()
    } else {
        match e.kind {
            FileKind::File => seq![path],
            FileKind::Directory => {
                let own = if dirs {
                    seq![path]
                } else {
                    Seq::empty()
                };
                own + listing_of(
                    e.children@,
                    visit_order(e.children@, e.children@.len()),
                    path,
                    dirs,
                )
            },
            _ => Seq::empty(),
        }
    }
}

/// The listings of the entries that `order` names, one after another, each
/// under the directory `path`.
pub open spec fn listing_of(
    entries: Seq<Entry>,
    order: Seq<int>,
    path: Seq<char>,
    dirs: bool,
) -> Seq<Seq<char>>
    decreases entries, order.len(),
{
    if order.len() == 0 {
        Seq::empty()
    } else {
        let i = order[0];
        let first = if 0 <= i < entries.len() {
            listing(entries[i], joined(path, entries[i].name@), dirs)
        } else {
            Seq::empty()
        };
        first + listing_of(entries, order.drop_first(), path, dirs)
    }
}

/// No byte string sorts before itself, and of two at most one sorts before the other.
pub proof fn lemma_bytes_lt_asymmetric(a: Seq<u8>, b: Seq<u8>)
    ensures
        !(bytes_lt(a, b) && bytes_lt(b, a)),
        !bytes_lt(a, a),
    decreases a.len(),
{
    if a.len() > 0 {
        lemma_bytes_lt_asymmetric(a.drop_first(), a.drop_first());
        if b.len() > 0 && a[0] == b[0] {
            lemma_bytes_lt_asymmetric(a.drop_first(), b.drop_first());
        }
    }
}

/// The byte order is transitive.
pub proof fn lemma_bytes_lt_transitive(a: Seq<u8>, b: Seq<u8>, c: Seq<u8>)
    requires
        bytes_lt(a, b),
        bytes_lt(b, c),
    ensures
        bytes_lt(a, c),
    decreases a.len(),
{
    if a.len() > 0 && a[0] == b[0] && b[0] == c[0] {
        lemma_bytes_lt_transitive(a.drop_first(), b.drop_first(), c.drop_first());
    }
}

/// The byte order is total: two different byte strings are ordered one way or the other.
pub proof fn lemma_bytes_lt_total(a: Seq<u8>, b: Seq<u8>)
    ensures
        a == b || bytes_lt(a, b) || bytes_lt(b, a),
    decreases a.len(),
{
    if a.len() == 0 || b.len() == 0 {
        if a.len() == 0 && b.len() == 0 {
            assert(a =~= b);
        }
    } else if a[0] == b[0] {
        lemma_bytes_lt_total(a.drop_first(), b.drop_first());
        if a.drop_first() == b.drop_first() {
            assert forall|i: int| 0 <= i < a.len() implies a[i] == b[i] by {
                if i > 0 {
                    assert(a[i] == a.drop_first()[i - 1]);
                    assert(b[i] == b.drop_first()[i - 1]);
                }
            }
            assert(a.len() == a.drop_first().len() + 1);
            assert(b.len() == b.drop_first().len() + 1);
            assert(a =~= b);
        }
    }
}

/// The visiting order is a strict weak order: nothing comes before itself,
/// it is transitive, and so is "does not have to come after".
pub proof fn lemma_comes_before_order(a: Entry, b: Entry, c: Entry)
    ensures
        !comes_before(a, a),
        !(comes_before(a, b) && comes_before(b, a)),
        comes_before(a, b) && comes_before(b, c) ==> comes_before(a, c),
        !comes_before(a, b) && !comes_before(b, c) ==> !comes_before(a, c),
{
    let x = name_bytes(a);
    let y = name_bytes(b);
    let z = name_bytes(c);
    lemma_bytes_lt_asymmetric(x, x);
    lemma_bytes_lt_asymmetric(x, y);
    lemma_bytes_lt_total(x, y);
    lemma_bytes_lt_total(y, z);
    lemma_bytes_lt_asymmetric(x, z);
    lemma_bytes_lt_asymmetric(y, z);
    if bytes_lt(x, y) && bytes_lt(y, z) {
        lemma_bytes_lt_transitive(x, y, z);
    }
    if bytes_lt(z, y) && bytes_lt(y, x) {
        lemma_bytes_lt_transitive(z, y, x);
    }
}

/// Where `placed` puts the new index: behind every index it keeps in front.
pub open spec fn slot(entries: Seq<Entry>, order: Seq<int>, i: int) -> int
    decreases order.len(),
{
    if order.len() == 0 {
        0
    } else if comes_before(entries[i], entries[order.last()]) {
        slot(entries, order.drop_last(), i)
    } else {
        order.len() as int
    }
}

/// `placed` inserts the new index at `slot`: every index behind it has to
/// come after the new one, and the index just in front of it has not.
pub proof fn lemma_placed(entries: Seq<Entry>, order: Seq<int>, i: int)
    ensures
        0 <= slot(entries, order, i) <= order.len(),
        placed(entries, order, i) == order.insert(slot(entries, order, i), i),
        forall|k: int|
            slot(entries, order, i) <= k < order.len() ==> comes_before(
                entries[i],
                #[trigger] entries[order[k]],
            ),
        slot(entries, order, i) > 0 ==> !comes_before(
            entries[i],
            entries[order[slot(entries, order, i) - 1]],
        ),
    decreases order.len(),
{
    if order.len() == 0 {
        assert(placed(entries, order, i) =~= order.insert(0, i));
    } else if comes_before(entries[i], entries[order.last()]) {
        let front = order.drop_last();
        lemma_placed(entries, front, i);
        let p = slot(entries, front, i);
        assert(front.insert(p, i).push(order.last()) =~= order.insert(p, i));
        assert forall|k: int| p <= k < order.len() implies comes_before(
            entries[i],
            #[trigger] entries[order[k]],
        ) by {
            if k < front.len() {
                assert(order[k] == front[k]);
            }
        }
        if p > 0 {
            assert(order[p - 1] == front[p - 1]);
        }
    } else {
        assert(order.push(i) =~= order.insert(order.len() as int, i));
    }
}

/// Whether `order` visits each of the first `n` entries exactly once.
pub open spec fn visits_each_once(order: Seq<int>, n: nat) -> bool {
    &&& order.len() == n
    &&& forall|k: int| 0 <= k < order.len() ==> 0 <= #[trigger] order[k] < n
    &&& forall|j: int, k: int| 0 <= j < k < order.len() ==> order[j] != order[k]
    &&& forall|i: int| 0 <= i < n ==> order.contains(i)
}

/// Whether `order` visits no entry before one that has to come before it,
/// and visits entries that may stand either way round in the order they
/// were given.
pub open spec fn visits_in_order(entries: Seq<Entry>, order: Seq<int>) -> bool {
    &&& forall|j: int, k: int|
        0 <= j < k < order.len() ==> !comes_before(
            #[trigger] entries[order[k]],
            #[trigger] entries[order[j]],
        )
    &&& forall|j: int, k: int|
        0 <= j < k < order.len() && !comes_before(
            #[trigger] entries[order[j]],
            #[trigger] entries[order[k]],
        ) ==> order[j] < order[k]
}

/// The entries of a directory are visited each exactly once, files before
/// directories and, within one kind, by name.
pub proof fn lemma_visit_order(entries: Seq<Entry>, n: nat)
    requires
        n <= entries.len(),
    ensures
        visits_each_once(visit_order(entries, n), n),
        visits_in_order(entries, visit_order(entries, n)),
    decreases n,
{
    if n > 0 {
        let prev = visit_order(entries, (n - 1) as nat);
        let i = n - 1;
        lemma_visit_order(entries, (n - 1) as nat);
        lemma_placed(entries, prev, i);
        let p = slot(entries, prev, i);
        let order = visit_order(entries, n);
        assert(order == prev.insert(p, i));
        assert forall|k: int| 0 <= k < order.len() implies 0 <= #[trigger] order[k] < n by {
            if k < p {
                assert(order[k] == prev[k]);
            } else if k > p {
                assert(order[k] == prev[k - 1]);
            }
        }
        assert forall|j: int, k: int| 0 <= j < k < order.len() implies order[j] != order[k] by {
            let a = if j < p { j } else { j - 1 };
            let b = if k < p { k } else { k - 1 };
            if j != p && k != p {
                assert(order[j] == prev[a] && order[k] == prev[b]);
            } else if j == p {
                assert(order[k] == prev[b]);
            } else {
                assert(order[j] == prev[a]);
            }
        }
        assert forall|x: int| 0 <= x < n implies order.contains(x) by {
            if x == i {
                assert(order[p] == x);
            } else {
                assert(prev.contains(x));
                let k = choose|k: int| 0 <= k < prev.len() && prev[k] == x;
                if k < p {
                    assert(order[k] == x);
                } else {
                    assert(order[k + 1] == x);
                }
            }
        }
        assert forall|j: int, k: int| 0 <= j < k < order.len() implies !comes_before(
            #[trigger] entries[order[k]],
            #[trigger] entries[order[j]],
        ) by {
            let a = if j < p { j } else { j - 1 };
            let b = if k < p { k } else { k - 1 };
            if j != p && k != p {
                assert(order[j] == prev[a] && order[k] == prev[b]);
            } else if j == p {
                assert(order[k] == prev[b]);
                assert(comes_before(entries[i], entries[prev[b]]));
                lemma_comes_before_order(entries[i], entries[prev[b]], entries[i]);
            } else {
                assert(order[j] == prev[a]);
                assert(order[k] == i);
                if a < p - 1 {
                    assert(!comes_before(entries[prev[p - 1]], entries[prev[a]]));
                    lemma_comes_before_order(entries[i], entries[prev[p - 1]], entries[prev[a]]);
                }
            }
        }
        assert forall|j: int, k: int|
            0 <= j < k < order.len() && !comes_before(
                #[trigger] entries[order[j]],
                #[trigger] entries[order[k]],
            ) implies order[j] < order[k] by {
            let a = if j < p { j } else { j - 1 };
            let b = if k < p { k } else { k - 1 };
            if j != p && k != p {
                assert(order[j] == prev[a] && order[k] == prev[b]);
            } else if j == p {
                assert(order[k] == prev[b]);
                assert(comes_before(entries[i], entries[prev[b]]));
            } else {
                assert(order[j] == prev[a]);
            }
        }
    }
}

/// Whether `target` is the store path of something to be listed in the tree
/// at `e`, which has the store path `path`: a file, or with `dirs` a
/// directory, that is not hidden and lies in no hidden directory.
pub open spec fn is_listed(e: Entry, path: Seq<char>, dirs: bool, target: Seq<char>) -> bool
    decreases e,
{
    !hidden(e.name@) && match e.kind {
        FileKind::File => target == path,
        FileKind::Directory => (dirs && target == path) || exists|i: int|
            0 <= i < e.children@.len() && is_listed(
                #[trigger] e.children@[i],
                joined(path, e.children@[i].name@),
                dirs,
                target,
            ),
        _ => false,
    }
}

/// Whether the `k`-th entry that `order` names holds `target` among what is
/// to be listed below it.
pub open spec fn listed_at(
    entries: Seq<Entry>,
    order: Seq<int>,
    path: Seq<char>,
    dirs: bool,
    target: Seq<char>,
    k: int,
) -> bool {
    0 <= k < order.len() && 0 <= order[k] < entries.len() && is_listed(
        entries[order[k]],
        joined(path, entries[order[k]].name@),
        dirs,
        target,
    )
}

/// A listing holds exactly the store paths of the files (and, with `dirs`,
/// the directories) that are not hidden and lie in no hidden directory:
/// nothing hidden is listed, and nothing visible is left out.
pub proof fn lemma_listing_holds_what_is_visible(
    e: Entry,
    path: Seq<char>,
    dirs: bool,
    target: Seq<char>,
)
    ensures
        listing(e, path, dirs).contains(target) <==> is_listed(e, path, dirs, target),
    decreases e, 0nat,
{
    if hidden(e.name@) {
    } else {
        match e.kind {
            FileKind::File => {
                assert(seq![path][0] == path);
            },
            FileKind::Directory => {
                let entries = e.children@;
                let order = visit_order(entries, entries.len());
                let own = if dirs {
                    seq![path]
                } else {
                    Seq::<Seq<char>>::empty()
                };
                let below = listing_of(entries, order, path, dirs);
                lemma_contains_add(own, below, target);
                if dirs {
                    assert(own[0] == path);
                }
                lemma_visit_order(entries, entries.len());
                lemma_listing_of_holds_what_is_visible(entries, order, path, dirs, target);
                if below.contains(target) {
                    let k = choose|k: int| listed_at(entries, order, path, dirs, target, k);
                    assert(is_listed(
                        e.children@[order[k]],
                        joined(path, e.children@[order[k]].name@),
                        dirs,
                        target,
                    ));
                }
                if exists|i: int|
                    0 <= i < e.children@.len() && is_listed(
                        #[trigger] e.children@[i],
                        joined(path, e.children@[i].name@),
                        dirs,
                        target,
                    ) {
                    let i = choose|i: int|
                        0 <= i < e.children@.len() && is_listed(
                            #[trigger] e.children@[i],
                            joined(path, e.children@[i].name@),
                            dirs,
                            target,
                        );
                    assert(order.contains(i));
                    let k = choose|k: int| 0 <= k < order.len() && order[k] == i;
                    assert(listed_at(entries, order, path, dirs, target, k));
                }
            },
            _ => {},
        }
    }
}

/// The listings of the entries that `order` names hold exactly what is to be
/// listed below one of those entries.
proof fn lemma_listing_of_holds_what_is_visible(
    entries: Seq<Entry>,
    order: Seq<int>,
    path: Seq<char>,
    dirs: bool,
    target: Seq<char>,
)
    ensures
        listing_of(entries, order, path, dirs).contains(target) <==> exists|k: int|
            listed_at(entries, order, path, dirs, target, k),
    decreases entries, order.len(),
{
    if order.len() == 0 {
    } else {
        let i = order[0];
        let rest = order.drop_first();
        let first = if 0 <= i < entries.len() {
            listing(entries[i], joined(path, entries[i].name@), dirs)
        } else {
            Seq::<Seq<char>>::empty()
        };
        lemma_contains_add(first, listing_of(entries, rest, path, dirs), target);
        if 0 <= i < entries.len() {
            lemma_listing_holds_what_is_visible(entries[i], joined(path, entries[i].name@), dirs, target);
        }
        lemma_listing_of_holds_what_is_visible(entries, rest, path, dirs, target);
        if first.contains(target) {
            assert(listed_at(entries, order, path, dirs, target, 0));
        }
        if listing_of(entries, rest, path, dirs).contains(target) {
            let k = choose|k: int| listed_at(entries, rest, path, dirs, target, k);
            assert(rest[k] == order[k + 1]);
            assert(listed_at(entries, order, path, dirs, target, k + 1));
        }
        if exists|k: int| listed_at(entries, order, path, dirs, target, k) {
            let k = choose|k: int| listed_at(entries, order, path, dirs, target, k);
            if k > 0 {
                assert(rest[k - 1] == order[k]);
                assert(listed_at(entries, rest, path, dirs, target, k - 1));
            }
        }
    }
}

/// Everything listed for a tree lies below the path of the tree: a listing
/// made with a store path is relative to the store's root.
pub proof fn lemma_listing_is_below_path(e: Entry, path: Seq<char>, dirs: bool, target: Seq<char>)
    requires
        listing(e, path, dirs).contains(target),
    ensures
        path.is_prefix_of(target),
    decreases e, 0nat,
{
    if hidden(e.name@) {
    } else {
        match e.kind {
            FileKind::File => {
                assert(seq![path][0] == path);
            },
            FileKind::Directory => {
                let entries = e.children@;
                let order = visit_order(entries, entries.len());
                let own = if dirs {
                    seq![path]
                } else {
                    Seq::<Seq<char>>::empty()
                };
                lemma_contains_add(own, listing_of(entries, order, path, dirs), target);
                if own.contains(target) {
                    assert(own[0] == path);
                } else {
                    lemma_listing_of_is_below_path(entries, order, path, dirs, target);
                }
            },
            _ => {},
        }
    }
}

/// Everything listed for the entries of a directory lies below the
/// directory's path.
proof fn lemma_listing_of_is_below_path(
    entries: Seq<Entry>,
    order: Seq<int>,
    path: Seq<char>,
    dirs: bool,
    target: Seq<char>,
)
    requires
        listing_of(entries, order, path, dirs).contains(target),
    ensures
        path.is_prefix_of(target),
    decreases entries, order.len(),
{
    if order.len() > 0 {
        let i = order[0];
        let first = if 0 <= i < entries.len() {
            listing(entries[i], joined(path, entries[i].name@), dirs)
        } else {
            Seq::<Seq<char>>::empty()
        };
        lemma_contains_add(first, listing_of(entries, order.drop_first(), path, dirs), target);
        if first.contains(target) {
            let below = joined(path, entries[i].name@);
            lemma_listing_is_below_path(entries[i], below, dirs, target);
            lemma_joined_starts_with_root(path, entries[i].name@);
            assert(target.subrange(0, path.len() as int) == below.subrange(0, path.len() as int));
        } else {
            lemma_listing_of_is_below_path(entries, order.drop_first(), path, dirs, target);
        }
    }
}

/// A sequence of machine indices as mathematical integers.
pub open spec fn indices(order: Seq<usize>) -> Seq<int> {
    order.map_values(|i: usize| i as int)
}

/// Whether a name marks its entry as hidden.
pub fn is_hidden(name: &str) -> (h: bool)
    ensures
        h == hidden(name@),
{
    !name.is_empty() && name.get_char(0) == '.'
}

/// Whether `a` sorts strictly before `b`, byte by byte.
pub fn bytes_before(a: &[u8], b: &[u8]) -> (lt: bool)
    ensures
        lt == bytes_lt(a@, b@),
{
    let mut i: usize = 0;
    assert(a@.skip(0) == a@ && b@.skip(0) == b@);
    while i < a.len() && i < b.len() && a[i] == b[i]
        invariant
            i <= a@.len(),
            i <= b@.len(),
            bytes_lt(a@, b@) == bytes_lt(a@.skip(i as int), b@.skip(i as int)),
        decreases a@.len() - i,
    {
        assert(a@.skip(i as int).drop_first() == a@.skip(i + 1));
        assert(b@.skip(i as int).drop_first() == b@.skip(i + 1));
        i += 1;
    }
    if i >= b.len() {
        false
    } else if i >= a.len() {
        true
    } else {
        a[i] < b[i]
    }
}

/// Whether `a` must be visited before `b`: files before directories, then by name.
pub fn sort_by_name_files_before_dirs(a: &Entry, b: &Entry) -> (before: bool)
    ensures
        before == comes_before(*a, *b),
{
    let ra = rank_of(a.kind);
    let rb = rank_of(b.kind);
    if ra != rb {
        ra < rb
    } else {
        bytes_before(a.name.as_str().as_bytes(), b.name.as_str().as_bytes())
    }
}

fn rank_of(kind: FileKind) -> (r: u8)
    ensures
        r == rank(kind),
{
    match kind {
        FileKind::File => 0,
        FileKind::Directory => 1,
        FileKind::Other => 2,
        FileKind::Missing => 2,
    }
}

/// The order in which the entries of one directory are visited.
fn order_of(entries: &Vec<Entry>) -> (order: Vec<usize>)
    ensures
        indices(order@) == visit_order(entries@, entries@.len()),
        forall|k: int| 0 <= k < order@.len() ==> order@[k] < entries@.len(),
{
    let n = entries.len();
    let mut order: Vec<usize> = Vec::new();
    let mut i: usize = 0;
    assert(indices(order@) == Seq::<int>::empty());
    while i < n
        invariant
            n == entries@.len(),
            i <= n,
            indices(order@) == visit_order(entries@, i as nat),
            forall|k: int| 0 <= k < order@.len() ==> order@[k] < i,
        decreases n - i,
    {
        let ghost before = indices(order@);
        let mut pos = order.len();
        assert(before.take(pos as int) == before);
        assert(before.skip(pos as int) == Seq::<int>::empty());
        while pos > 0 && sort_by_name_files_before_dirs(&entries[i], &entries[order[pos - 1]])
            invariant
                n == entries@.len(),
                i < n,
                pos <= order@.len(),
                before == indices(order@),
                forall|k: int| 0 <= k < order@.len() ==> order@[k] < i,
                placed(entries@, before, i as int) == placed(
                    entries@,
                    before.take(pos as int),
                    i as int,
                ) + before.skip(pos as int),
            decreases pos,
        {
            proof {
                let front = before.take(pos as int);
                assert(front.last() == order@[pos - 1] as int);
                assert(front.drop_last() == before.take(pos - 1));
                assert(before.skip(pos - 1) == seq![before[pos - 1]] + before.skip(pos as int));
            }
            pos -= 1;
        }
        proof {
            let front = before.take(pos as int);
            if pos > 0 {
                assert(front.last() == order@[pos - 1] as int);
            }
            assert(placed(entries@, front, i as int) == front.push(i as int));
            assert(front.push(i as int) + before.skip(pos as int) == before.insert(
                pos as int,
                i as int,
            ));
        }
        order.insert(pos, i);
        assert(indices(order@) == before.insert(pos as int, i as int));
        i += 1;
    }
    order
}

/// The texts of a vector of strings grow by one when a string is pushed.
proof fn lemma_deep_view_push(before: Vec<String>, after: Vec<String>, s: String)
    requires
        after@ == before@.push(s),
    ensures
        after.deep_view() == before.deep_view().push(s@),
{
    assert(after.deep_view() =~= before.deep_view().push(s@));
}

/// Appends the listing of the tree at `entry` to `out`.
fn collect(entry: &Entry, path: String, dirs: bool, out: &mut Vec<String>)
    ensures
        final(out).deep_view() == old(out).deep_view() + listing(*entry, path@, dirs),
    decreases entry,
{
    if is_hidden(entry.name.as_str()) {
        return ;
    }
    match entry.kind {
        FileKind::File => {
            let ghost before = *out;
            out.push(path);
            proof {
                lemma_deep_view_push(before, *out, path);
            }
        },
        FileKind::Directory => {
            let ghost start = out.deep_view();
            if dirs {
                let ghost before = *out;
                let own = path.clone();
                out.push(own);
                proof {
                    lemma_deep_view_push(before, *out, own);
                }
            }
            let ghost own_part = if dirs {
                seq![path@]
            } else {
                Seq::<Seq<char>>::empty()
            };
            let order = order_of(&entry.children);
            let ghost ord = indices(order@);
            let mut k: usize = 0;
            assert(ord.skip(0) == ord);
            while k < order.len()
                invariant
                    k <= order@.len(),
                    ord == indices(order@),
                    forall|j: int| 0 <= j < order@.len() ==> order@[j] < entry.children@.len(),
                    start + own_part + listing_of(entry.children@, ord, path@, dirs)
                        == out.deep_view() + listing_of(
                        entry.children@,
                        ord.skip(k as int),
                        path@,
                        dirs,
                    ),
                decreases order@.len() - k,
            {
                let i = order[k];
                let child = &entry.children[i];
                let child_path = join(path.as_str(), child.name.as_str());
                proof {
                    assert(ord.skip(k as int)[0] == i as int);
                    assert(ord.skip(k as int).drop_first() == ord.skip(k + 1));
                }
                collect(child, child_path, dirs, out);
                k += 1;
            }
            assert(ord.skip(k as int).len() == 0);
        },
        _ => {},
    }
}

/// The records under `tree`: every file that is not hidden and lies in no
/// hidden directory, as a path relative to the store's root.
///
/// `tree` is what was found at `store_path` below the root, or at the root
/// itself where no path is given. Files come before directories at each
/// level.
pub fn list_records(tree: &Entry, store_path: Option<&str>) -> (records: Vec<String>)
    ensures
        records.deep_view() == listing(
            *tree,
            match store_path {
                Some(p) => p@,
                None => Seq::empty(),
            },
            false,
        ),
{
    let path = match store_path {
        Some(p) => p.to_owned(),
        None => String::new(),
    };
    let mut records: Vec<String> = Vec::new();
    assert(records.deep_view() == Seq::<Seq<char>>::empty());
    collect(tree, path, false, &mut records);
    records
}

/// The locations under `tree`, the root of a store: what `list_records`
/// gives, and every directory on the way, each before what it holds.
pub fn list_locations(tree: &Entry) -> (locations: Vec<String>)
    ensures
        locations.deep_view() == listing(*tree, Seq::empty(), true),
{
    let mut locations: Vec<String> = Vec::new();
    assert(locations.deep_view() == Seq::<Seq<char>>::empty());
    collect(tree, String::new(), true, &mut locations);
    locations
}

} // verus!
