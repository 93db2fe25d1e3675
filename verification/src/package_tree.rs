//! The digest of all files of a package.

use vstd::bytes::*;
use vstd::prelude::*;
use vstd::string::*;
use vstd::utf8::*;

use crate::digest;
use crate::digest::{sha256_finish, sha256_hex, sha256_new, sha256_update, Sha256State};
use crate::observation::DiscoveryDiagnosticCode;
use crate::order;
use crate::order::text_precedes;
use crate::paths;
use crate::paths::{normalized_relative_identity, PathPart};
use crate::text;

verus! {

pub const MAX_RUNNER_PACKAGE_TREE_FILES: usize = 512;

pub const MAX_RUNNER_PACKAGE_TREE_BYTES: u64 = 4_194_304;

/// What kind of thing an entry of a directory is.
#[derive(Clone, Copy, Debug, PartialEq, Eq, Structural)]
pub enum EntryKind {
    Directory,
    /// A file with a length.
    File(u64),
    Other,
}

/// Where an entry leads.
#[derive(Clone, Copy, Debug, PartialEq, Eq, Structural)]
pub enum EntryPlace {
    /// Below the root of the package.
    Inside,
    Outside,
    Unresolved(DiscoveryDiagnosticCode),
}

/// An entry of a directory.
#[derive(Debug)]
pub struct TreeEntry {
    /// What its path is told by, with which entries are put in order.
    pub key: String,
    /// What the path that it leads to is told by, with which files are put in order.
    pub file_key: String,
    /// The path that it leads to.
    pub path: String,
    /// The parts of its path below the root.
    pub relative: Vec<PathPart>,
    pub reparse: bool,
    pub kind: Result<EntryKind, DiscoveryDiagnosticCode>,
    pub place: EntryPlace,
}

/// A file of a package.
#[derive(Debug)]
pub struct TreeFile {
    pub key: String,
    pub path: String,
    pub relative: Vec<PathPart>,
    pub len: u64,
}

/// What an entry comes to.
pub enum EntryView {
    Refused(DiscoveryDiagnosticCode),
    Descend,
    Take(u64),
    Skip,
}

/// What an entry comes to, where so many files with so many bytes have been found.
/// A link spoils the whole package, and so does an entry that leads out of it.
pub open spec fn entry_view(entry: TreeEntry, files: nat, total_bytes: u64) -> EntryView {
    if entry.reparse {
        EntryView::Refused(DiscoveryDiagnosticCode::ReparsePointRejected)
    } else {
        match entry.kind {
            Err(code) => EntryView::Refused(code),
            Ok(EntryKind::Other) => EntryView::Skip,
            Ok(EntryKind::Directory) => match entry.place {
                EntryPlace::Unresolved(code) => EntryView::Refused(code),
                EntryPlace::Outside => EntryView::Refused(
                    DiscoveryDiagnosticCode::InvalidSourceRecord,
                ),
                EntryPlace::Inside => EntryView::Descend,
            },
            Ok(EntryKind::File(len)) => if files >= MAX_RUNNER_PACKAGE_TREE_FILES || total_bytes
                + len > MAX_RUNNER_PACKAGE_TREE_BYTES {
                EntryView::Refused(DiscoveryDiagnosticCode::OversizedInput)
            } else {
                match entry.place {
                    EntryPlace::Unresolved(code) => EntryView::Refused(code),
                    EntryPlace::Outside => EntryView::Refused(
                        DiscoveryDiagnosticCode::InvalidSourceRecord,
                    ),
                    EntryPlace::Inside => EntryView::Take(len),
                }
            },
        }
    }
}

/// Where a file belongs: behind the last one that does not come after it.
pub open spec fn file_place(files: Seq<TreeFile>, key: Seq<char>) -> int
    decreases files.len(),
{
    if files.len() == 0 {
        0
    } else if order::text_less(key, files.last().key@) {
        file_place(files.drop_last(), key)
    } else {
        files.len() as int
    }
}

/// What has been found of a package.
#[verifier::ext_equal]
pub struct TreeState {
    pub files: Seq<TreeFile>,
    pub total_bytes: u64,
    pub pending: Seq<String>,
}

/// What has been found after one more entry.
pub open spec fn entry_step(s: TreeState, entry: TreeEntry) -> Result<
    TreeState,
    DiscoveryDiagnosticCode,
> {
    match entry_view(entry, s.files.len(), s.total_bytes) {
        EntryView::Refused(code) => Err(code),
        EntryView::Descend => Ok(TreeState { pending: s.pending.push(entry.path), ..s }),
        EntryView::Take(len) => Ok(
            TreeState {
                files: s.files.insert(
                    file_place(s.files, entry.file_key@),
                    TreeFile {
                        key: entry.file_key,
                        path: entry.path,
                        relative: entry.relative,
                        len,
                    },
                ),
                total_bytes: (s.total_bytes + len) as u64,
                ..s
            },
        ),
        EntryView::Skip => Ok(s),
    }
}

/// What has been found after some more entries, or why the package is not taken.
pub open spec fn listed(s: TreeState, entries: Seq<TreeEntry>) -> Result<
    TreeState,
    DiscoveryDiagnosticCode,
>
    decreases entries.len(),
{
    if entries.len() == 0 {
        Ok(s)
    } else {
        match entry_step(s, entries[0]) {
            Ok(t) => listed(t, entries.drop_first()),
            Err(code) => Err(code),
        }
    }
}

/// Where an entry belongs: behind the last one that does not come after it.
pub open spec fn entry_place(entries: Seq<TreeEntry>, key: Seq<char>) -> int
    decreases entries.len(),
{
    if entries.len() == 0 {
        0
    } else if order::text_less(key, entries.last().key@) {
        entry_place(entries.drop_last(), key)
    } else {
        entries.len() as int
    }
}

/// Entries in the order of their keys; those with the same key keep their order.
pub open spec fn sorted_entries(entries: Seq<TreeEntry>) -> Seq<TreeEntry>
    decreases entries.len(),
{
    if entries.len() == 0 {
        seq![]
    } else {
        let before = sorted_entries(entries.drop_last());
        before.insert(entry_place(before, entries.last().key@), entries.last())
    }
}

proof fn lemma_entry_place(entries: Seq<TreeEntry>, key: Seq<char>)
    ensures
        0 <= entry_place(entries, key) <= entries.len(),
    decreases entries.len(),
{
    if entries.len() > 0 {
        lemma_entry_place(entries.drop_last(), key);
    }
}

fn sort_entries(entries: Vec<TreeEntry>) -> (r: Vec<TreeEntry>)
    ensures
        r@ == sorted_entries(entries@),
{
    let ghost all = entries@;
    let mut out: Vec<TreeEntry> = Vec::new();
    assert(all.take(0) =~= seq![]);
    for entry in it: entries
        invariant
            it.seq() == all,
            out@ == sorted_entries(all.take(it.index() as int)),
    {
        let ghost i = it.index() as int;
        let mut p: usize = out.len();
        assert(out@.take(p as int) =~= out@);
        let ghost before = out@;
        while p > 0 && text_precedes(entry.key.as_str(), out[p - 1].key.as_str())
            invariant
                p <= out@.len(),
                out@ == before,
                entry_place(out@, entry.key@) == entry_place(out@.take(p as int), entry.key@),
            decreases p,
        {
            assert(out@.take(p as int).last() == out@[p - 1]);
            assert(out@.take(p as int).drop_last() =~= out@.take(p - 1));
            p -= 1;
        }
        proof {
            if p > 0 {
                assert(out@.take(p as int).last() == out@[p - 1]);
            }
            assert(all.take(i + 1).drop_last() =~= all.take(i));
            assert(all.take(i + 1).last() == entry);
        }
        out.insert(p, entry);
    }
    assert(all.take(all.len() as int) =~= all);
    out
}

/// Sorting keeps every entry, each as often as it is there.
pub proof fn law_sorting_keeps_entries(entries: Seq<TreeEntry>)
    ensures
        sorted_entries(entries).to_multiset() == entries.to_multiset(),
    decreases entries.len(),
{
    broadcast use vstd::seq_lib::group_to_multiset_ensures;

    if entries.len() > 0 {
        let before = sorted_entries(entries.drop_last());
        law_sorting_keeps_entries(entries.drop_last());
        lemma_entry_place(before, entries.last().key@);
        assert(entries =~= entries.drop_last().push(entries.last()));
    }
}

/// Whether no two entries have the same key.
pub open spec fn keys_differ(entries: Seq<TreeEntry>) -> bool {
    forall|i: int, j: int|
        0 <= i < j < entries.len() ==> (#[trigger] entries[i]).key@ != (#[trigger] entries[j]).key@
}

/// Whether every entry comes before those behind it.
pub open spec fn in_order(entries: Seq<TreeEntry>) -> bool {
    forall|i: int, j: int|
        0 <= i < j < entries.len() ==> order::text_less(
            (#[trigger] entries[i]).key@,
            (#[trigger] entries[j]).key@,
        )
}

/// Entries before the place of a key come before it, and the others behind it.
proof fn lemma_entry_place_splits(entries: Seq<TreeEntry>, key: Seq<char>)
    requires
        in_order(entries),
        forall|i: int| 0 <= i < entries.len() ==> (#[trigger] entries[i]).key@ != key,
    ensures
        0 <= entry_place(entries, key) <= entries.len(),
        forall|i: int|
            0 <= i < entry_place(entries, key) ==> order::text_less(
                (#[trigger] entries[i]).key@,
                key,
            ),
        forall|i: int|
            entry_place(entries, key) <= i < entries.len() ==> order::text_less(
                key,
                (#[trigger] entries[i]).key@,
            ),
    decreases entries.len(),
{
    if entries.len() > 0 {
        let last = entries.last();
        let rest = entries.drop_last();
        assert(forall|i: int| 0 <= i < rest.len() ==> #[trigger] rest[i] == entries[i]);
        if order::text_less(key, last.key@) {
            lemma_entry_place_splits(rest, key);
            assert forall|i: int| 0 <= i < entry_place(entries, key) implies order::text_less(
                (#[trigger] entries[i]).key@,
                key,
            ) by {
                assert(rest[i] == entries[i]);
            }
            assert forall|i: int| entry_place(entries, key) <= i < entries.len() implies
                order::text_less(key, (#[trigger] entries[i]).key@) by {
                if i < rest.len() {
                    assert(rest[i] == entries[i]);
                }
            }
        } else {
            order::lemma_less_total(key, last.key@);
            assert forall|i: int| 0 <= i < entries.len() implies order::text_less(
                (#[trigger] entries[i]).key@,
                key,
            ) by {
                if i < entries.len() - 1 {
                    assert(entries[entries.len() - 1] == last);
                    order::lemma_less_transitive(entries[i].key@, last.key@, key);
                }
            }
        }
    }
}

proof fn lemma_sorted_in_order(entries: Seq<TreeEntry>)
    requires
        keys_differ(entries),
    ensures
        in_order(sorted_entries(entries)),
    decreases entries.len(),
{
    broadcast use vstd::seq_lib::group_to_multiset_ensures;

    if entries.len() > 0 {
        let rest = entries.drop_last();
        let entry = entries.last();
        let before = sorted_entries(rest);
        assert(forall|i: int| 0 <= i < rest.len() ==> #[trigger] rest[i] == entries[i]);
        lemma_sorted_in_order(rest);
        law_sorting_keeps_entries(rest);
        assert forall|i: int| 0 <= i < before.len() implies (#[trigger] before[i]).key@
            != entry.key@ by {
            assert(before.contains(before[i]));
            assert(before.to_multiset().count(before[i]) > 0);
            assert(rest.contains(before[i]));
            let j = choose|j: int| 0 <= j < rest.len() && rest[j] == before[i];
            assert(entries[j] == before[i]);
            assert(entries[entries.len() - 1] == entry);
        }
        lemma_entry_place_splits(before, entry.key@);
        let p = entry_place(before, entry.key@);
        let after = sorted_entries(entries);
        assert forall|i: int, j: int| 0 <= i < j < after.len() implies order::text_less(
            (#[trigger] after[i]).key@,
            (#[trigger] after[j]).key@,
        ) by {
            assert(after[i] == if i < p {
                before[i]
            } else if i == p {
                entry
            } else {
                before[i - 1]
            });
            assert(after[j] == if j < p {
                before[j]
            } else if j == p {
                entry
            } else {
                before[j - 1]
            });
        }
    }
}

/// There is one order of the same entries.
proof fn lemma_one_order(a: Seq<TreeEntry>, b: Seq<TreeEntry>)
    requires
        a.to_multiset() == b.to_multiset(),
        in_order(a),
        in_order(b),
    ensures
        a == b,
    decreases a.len(),
{
    broadcast use vstd::seq_lib::group_to_multiset_ensures;

    assert(a.to_multiset().len() == a.len() && b.to_multiset().len() == b.len());
    if a.len() == 0 {
        assert(a =~= b);
    } else {
        let n = a.len() - 1;
        assert(a.contains(a[n]) && b.contains(b[n]));
        assert(a.to_multiset().count(a[n]) > 0 && b.to_multiset().count(b[n]) > 0);
        assert(b.contains(a[n]) && a.contains(b[n]));
        let j = choose|j: int| 0 <= j < b.len() && b[j] == a[n];
        let i = choose|i: int| 0 <= i < a.len() && a[i] == b[n];
        if j < n && i < n {
            assert(order::text_less(b[j].key@, b[n].key@));
            assert(order::text_less(a[i].key@, a[n].key@));
            order::lemma_less_transitive(a[n].key@, b[n].key@, a[n].key@);
            order::lemma_less_irreflexive(a[n].key@);
        }
        assert(a[n] == b[n]);
        let x = a.drop_last();
        let y = b.drop_last();
        assert(a.remove(n) =~= x);
        assert(b.remove(n) =~= y);
        assert(forall|k: int| 0 <= k < n ==> #[trigger] x[k] == a[k]);
        assert(forall|k: int| 0 <= k < n ==> #[trigger] y[k] == b[k]);
        lemma_one_order(x, y);
        assert(a =~= x.push(a[n]));
        assert(b =~= y.push(b[n]));
    }
}

/// In whatever order the entries of a directory are listed, they are taken in the
/// same one. Two entries with the same key are taken as they are listed.
pub proof fn law_listing_order_does_not_matter(a: Seq<TreeEntry>, b: Seq<TreeEntry>)
    requires
        a.to_multiset() == b.to_multiset(),
        keys_differ(a),
    ensures
        sorted_entries(a) == sorted_entries(b),
{
    broadcast use vstd::seq_lib::group_to_multiset_ensures;

    law_sorting_keeps_entries(a);
    law_sorting_keeps_entries(b);
    lemma_sorted_in_order(a);
    lemma_keys_differ_alike(a, b);
    lemma_sorted_in_order(b);
    lemma_one_order(sorted_entries(a), sorted_entries(b));
}

/// Lists of the same entries have the same keys, so that in both or in neither
/// no two are the same.
proof fn lemma_keys_differ_alike(a: Seq<TreeEntry>, b: Seq<TreeEntry>)
    requires
        a.to_multiset() == b.to_multiset(),
        keys_differ(a),
    ensures
        keys_differ(b),
{
    broadcast use vstd::seq_lib::group_to_multiset_ensures;

    assert(a.no_duplicates());
    a.lemma_multiset_has_no_duplicates();
    b.lemma_multiset_has_no_duplicates_conv();
    assert forall|i: int, j: int| 0 <= i < j < b.len() implies (#[trigger] b[i]).key@
        != (#[trigger] b[j]).key@ by {
        assert(b.contains(b[i]) && b.contains(b[j]));
        assert(b.to_multiset().count(b[i]) > 0 && b.to_multiset().count(b[j]) > 0);
        assert(a.contains(b[i]) && a.contains(b[j]));
        let x = choose|x: int| 0 <= x < a.len() && a[x] == b[i];
        let y = choose|y: int| 0 <= y < a.len() && a[y] == b[j];
        assert(x != y);
        if x < y {
            assert(a[x].key@ != a[y].key@);
        } else {
            assert(a[y].key@ != a[x].key@);
        }
    }
}

/// What has been found after so many directories more, where `listing` tells the
/// entries of a directory in the order in which the system gives them.
pub open spec fn walked(
    s: TreeState,
    listing: spec_fn(Seq<char>) -> Seq<TreeEntry>,
    turns: nat,
) -> Result<TreeState, DiscoveryDiagnosticCode>
    decreases turns,
{
    if turns == 0 || s.pending.len() == 0 {
        Ok(s)
    } else {
        let entries = sorted_entries(listing(s.pending.last()@));
        match listed(TreeState { pending: s.pending.drop_last(), ..s }, entries) {
            Ok(t) => walked(t, listing, (turns - 1) as nat),
            Err(code) => Err(code),
        }
    }
}

/// The bytes that stand for files, where `content` tells what is in a path; none
/// if a file cannot be told.
pub open spec fn files_bytes(
    files: Seq<TreeFile>,
    content: spec_fn(Seq<char>) -> Seq<u8>,
) -> Option<Seq<u8>>
    decreases files.len(),
{
    if files.len() == 0 {
        Some(tree_label())
    } else {
        let file = files.last();
        match (
            files_bytes(files.drop_last(), content),
            paths::relative_identity(false, file.relative@),
        ) {
            (Some(before), Some(identity)) => Some(
                before + file_bytes(identity, file.len, content(file.path@)),
            ),
            _ => None,
        }
    }
}

/// The digest of a package that is walked from its root.
pub open spec fn package_digest(
    s: TreeState,
    listing: spec_fn(Seq<char>) -> Seq<TreeEntry>,
    content: spec_fn(Seq<char>) -> Seq<u8>,
    turns: nat,
) -> Result<Option<Seq<char>>, DiscoveryDiagnosticCode> {
    match walked(s, listing, turns) {
        Ok(t) => Ok(
            match files_bytes(t.files, content) {
                Some(bytes) => Some(digest::digest_text(bytes)),
                None => None,
            },
        ),
        Err(code) => Err(code),
    }
}

/// The files that a walk finds, and the digest of the package, do not depend on
/// the order in which the directories are listed.
pub proof fn law_digest_does_not_depend_on_listing_order(
    s: TreeState,
    a: spec_fn(Seq<char>) -> Seq<TreeEntry>,
    b: spec_fn(Seq<char>) -> Seq<TreeEntry>,
    content: spec_fn(Seq<char>) -> Seq<u8>,
    turns: nat,
)
    requires
        forall|d: Seq<char>|
            (#[trigger] a(d)).to_multiset() == b(d).to_multiset() && keys_differ(a(d)),
    ensures
        walked(s, a, turns) == walked(s, b, turns),
        package_digest(s, a, content, turns) == package_digest(s, b, content, turns),
    decreases turns,
{
    if turns > 0 && s.pending.len() > 0 {
        let d = s.pending.last()@;
        law_listing_order_does_not_matter(a(d), b(d));
        let entries = sorted_entries(a(d));
        match listed(TreeState { pending: s.pending.drop_last(), ..s }, entries) {
            Ok(t) => {
                law_digest_does_not_depend_on_listing_order(t, a, b, content, (turns - 1) as nat);
            },
            Err(_) => {},
        }
    }
}

/// Where a package lies: what the keys of its entries, the keys of its files and its
/// paths begin with.
pub struct TreeRoot {
    pub key: Seq<char>,
    pub file_key: Seq<char>,
    pub path: Seq<char>,
}

/// Whether two texts are the same behind what each begins with.
pub open spec fn same_below(a: Seq<char>, p: Seq<char>, b: Seq<char>, q: Seq<char>) -> bool {
    &&& p.is_prefix_of(a)
    &&& q.is_prefix_of(b)
    &&& a.skip(p.len() as int) == b.skip(q.len() as int)
}

/// Whether two entries are the same, each below the root of its own package.
pub open spec fn same_entry(a: TreeEntry, p: TreeRoot, b: TreeEntry, q: TreeRoot) -> bool {
    &&& same_below(a.key@, p.key, b.key@, q.key)
    &&& same_below(a.file_key@, p.file_key, b.file_key@, q.file_key)
    &&& same_below(a.path@, p.path, b.path@, q.path)
    &&& paths::relative_identity(false, a.relative@) == paths::relative_identity(
        false,
        b.relative@,
    )
    &&& a.reparse == b.reparse
    &&& a.kind == b.kind
    &&& a.place == b.place
}

/// Whether an entry is the same as one of a list.
#[verifier::opaque]
pub open spec fn is_held(a: TreeEntry, p: TreeRoot, b: Seq<TreeEntry>, q: TreeRoot) -> bool {
    exists|j: int| 0 <= j < b.len() && same_entry(a, p, #[trigger] b[j], q)
}

/// Whether two directories hold the same entries, in whatever order they are listed:
/// each entry of one is an entry of the other.
pub open spec fn same_listing(
    a: Seq<TreeEntry>,
    p: TreeRoot,
    b: Seq<TreeEntry>,
    q: TreeRoot,
) -> bool {
    &&& keys_differ(a)
    &&& keys_differ(b)
    &&& forall|i: int| 0 <= i < a.len() ==> is_held(#[trigger] a[i], p, b, q)
    &&& forall|j: int| 0 <= j < b.len() ==> is_held(#[trigger] b[j], q, a, p)
}

/// Whether two packages are the same: the same directories with the same entries,
/// and the same content in the files, below two roots.
pub open spec fn same_package(
    a: spec_fn(Seq<char>) -> Seq<TreeEntry>,
    a_content: spec_fn(Seq<char>) -> Seq<u8>,
    p: TreeRoot,
    b: spec_fn(Seq<char>) -> Seq<TreeEntry>,
    b_content: spec_fn(Seq<char>) -> Seq<u8>,
    q: TreeRoot,
) -> bool {
    &&& forall|x: Seq<char>|
        same_listing(#[trigger] a(p.path + x), p, b(q.path + x), q)
    &&& forall|x: Seq<char>| #[trigger] a_content(p.path + x) == b_content(q.path + x)
}

/// Whether a walk is at its beginning: nothing is found, and the root is to be
/// listed.
pub open spec fn is_beginning(s: TreeState, root: Seq<char>) -> bool {
    &&& s.files.len() == 0
    &&& s.total_bytes == 0
    &&& s.pending.len() == 1
    &&& s.pending[0]@ == root
}

/// What the same texts begin with does not change their order.
proof fn lemma_less_behind_prefix(p: Seq<char>, a: Seq<char>, b: Seq<char>)
    ensures
        order::text_less(p + a, p + b) == order::text_less(a, b),
    decreases p.len(),
{
    if p.len() == 0 {
        assert(p + a =~= a);
        assert(p + b =~= b);
    } else {
        lemma_less_behind_prefix(p.drop_first(), a, b);
        assert((p + a).drop_first() =~= p.drop_first() + a);
        assert((p + b).drop_first() =~= p.drop_first() + b);
        assert((p + a)[0] == p[0] && (p + b)[0] == p[0]);
    }
}

/// Texts that are the same below two roots have the same order.
proof fn lemma_same_order(
    a: Seq<char>,
    c: Seq<char>,
    p: Seq<char>,
    b: Seq<char>,
    d: Seq<char>,
    q: Seq<char>,
)
    requires
        same_below(a, p, b, q),
        same_below(c, p, d, q),
    ensures
        order::text_less(a, c) == order::text_less(b, d),
        a == c <==> b == d,
{
    let x = a.skip(p.len() as int);
    let y = c.skip(p.len() as int);
    assert(a =~= p + x && c =~= p + y && b =~= q + x && d =~= q + y);
    lemma_less_behind_prefix(p, x, y);
    lemma_less_behind_prefix(q, x, y);
    if a == c {
        assert(x == y);
    }
    if b == d {
        assert(b.skip(q.len() as int) == d.skip(q.len() as int));
    }
}

/// Which entry of a list an entry is the same as.
proof fn lemma_held(a: TreeEntry, p: TreeRoot, b: Seq<TreeEntry>, q: TreeRoot) -> (j: int)
    requires
        is_held(a, p, b, q),
    ensures
        0 <= j < b.len(),
        same_entry(a, p, b[j], q),
{
    reveal(is_held);
    choose|j: int| 0 <= j < b.len() && same_entry(a, p, #[trigger] b[j], q)
}

proof fn lemma_is_held(a: TreeEntry, p: TreeRoot, b: Seq<TreeEntry>, j: int, q: TreeRoot)
    requires
        0 <= j < b.len(),
        same_entry(a, p, b[j], q),
    ensures
        is_held(a, p, b, q),
{
    reveal(is_held);
}

/// The last entries of two lists in order are the same.
proof fn lemma_same_last(a: Seq<TreeEntry>, p: TreeRoot, b: Seq<TreeEntry>, q: TreeRoot)
    requires
        same_listing(a, p, b, q),
        in_order(a),
        in_order(b),
        a.len() > 0,
        b.len() > 0,
    ensures
        same_entry(a.last(), p, b.last(), q),
{
    let m = a.len() - 1;
    let n = b.len() - 1;
    let j = lemma_held(a[m], p, b, q);
    let i = lemma_held(b[n], q, a, p);
    lemma_same_order(a[i].key@, a[m].key@, p.key, b[n].key@, b[j].key@, q.key);
    if j < n {
        assert(order::text_less(b[j].key@, b[n].key@));
        if i < m {
            assert(order::text_less(a[i].key@, a[m].key@));
            order::lemma_less_transitive(b[j].key@, b[n].key@, b[j].key@);
        }
        order::lemma_less_irreflexive(b[j].key@);
    }
}

/// An entry that is the same as one of a list, but not as the last, is the same as
/// one before it.
proof fn lemma_held_before(
    a: TreeEntry,
    last: TreeEntry,
    p: TreeRoot,
    b: Seq<TreeEntry>,
    q: TreeRoot,
)
    requires
        is_held(a, p, b, q),
        b.len() > 0,
        same_entry(last, p, b.last(), q),
        a.key@ != last.key@,
    ensures
        is_held(a, p, b.drop_last(), q),
{
    let j = lemma_held(a, p, b, q);
    let n = b.len() - 1;
    if j == n {
        lemma_same_order(a.key@, last.key@, p.key, b[n].key@, b[n].key@, q.key);
    }
    assert(b.drop_last()[j] == b[j]);
    lemma_is_held(a, p, b.drop_last(), j, q);
}

/// Two lists in order without their last entries hold the same too.
proof fn lemma_same_without_last(a: Seq<TreeEntry>, p: TreeRoot, b: Seq<TreeEntry>, q: TreeRoot)
    requires
        same_listing(a, p, b, q),
        in_order(a),
        in_order(b),
        a.len() > 0,
        b.len() > 0,
    ensures
        same_listing(a.drop_last(), p, b.drop_last(), q),
        in_order(a.drop_last()),
        in_order(b.drop_last()),
{
    let x = a.drop_last();
    let y = b.drop_last();
    lemma_same_last(a, p, b, q);
    assert(forall|k: int| 0 <= k < x.len() ==> #[trigger] x[k] == a[k]);
    assert(forall|k: int| 0 <= k < y.len() ==> #[trigger] y[k] == b[k]);
    assert forall|k: int| 0 <= k < x.len() implies is_held(#[trigger] x[k], p, y, q) by {
        assert(a[k].key@ != a[a.len() - 1].key@);
        lemma_held_before(a[k], a.last(), p, b, q);
    }
    assert forall|l: int| 0 <= l < y.len() implies is_held(#[trigger] y[l], q, x, p) by {
        assert(b[l].key@ != b[b.len() - 1].key@);
        lemma_held_before(b[l], b.last(), q, a, p);
    }
}

/// Entries in order that are the same below two roots are so one by one.
proof fn lemma_same_in_order(a: Seq<TreeEntry>, p: TreeRoot, b: Seq<TreeEntry>, q: TreeRoot)
    requires
        same_listing(a, p, b, q),
        in_order(a),
        in_order(b),
    ensures
        a.len() == b.len(),
        forall|i: int| 0 <= i < a.len() ==> same_entry(#[trigger] a[i], p, b[i], q),
    decreases a.len(),
{
    if a.len() > 0 && b.len() > 0 {
        let x = a.drop_last();
        let y = b.drop_last();
        lemma_same_last(a, p, b, q);
        lemma_same_without_last(a, p, b, q);
        lemma_same_in_order(x, p, y, q);
        assert forall|k: int| 0 <= k < a.len() implies same_entry(#[trigger] a[k], p, b[k], q) by {
            if k < a.len() - 1 {
                assert(same_entry(x[k], p, y[k], q));
            }
        }
    } else if a.len() > 0 {
        let j = lemma_held(a[0], p, b, q);
    } else if b.len() > 0 {
        let i = lemma_held(b[0], q, a, p);
    }
}

proof fn lemma_in_order_differ(entries: Seq<TreeEntry>)
    requires
        in_order(entries),
    ensures
        keys_differ(entries),
{
    assert forall|i: int, j: int| 0 <= i < j < entries.len() implies (#[trigger] entries[i]).key@
        != (#[trigger] entries[j]).key@ by {
        order::lemma_less_irreflexive(entries[i].key@);
    }
}

/// Sorting keeps what is held.
proof fn lemma_sorted_held(a: Seq<TreeEntry>, p: TreeRoot, b: Seq<TreeEntry>, q: TreeRoot, i: int)
    requires
        0 <= i < sorted_entries(a).len(),
        forall|k: int| 0 <= k < a.len() ==> is_held(#[trigger] a[k], p, b, q),
    ensures
        is_held(sorted_entries(a)[i], p, sorted_entries(b), q),
{
    let k = lemma_sorted_from(a, i);
    let l = lemma_held(a[k], p, b, q);
    let j = lemma_sorted_to(b, l);
    lemma_is_held(sorted_entries(a)[i], p, sorted_entries(b), j, q);
}

/// Sorting brings the entries that are the same below two roots to the same place.
proof fn lemma_same_sorted(a: Seq<TreeEntry>, p: TreeRoot, b: Seq<TreeEntry>, q: TreeRoot)
    requires
        same_listing(a, p, b, q),
    ensures
        sorted_entries(a).len() == sorted_entries(b).len(),
        forall|i: int|
            0 <= i < sorted_entries(a).len() ==> same_entry(
                #[trigger] sorted_entries(a)[i],
                p,
                sorted_entries(b)[i],
                q,
            ),
{
    let x = sorted_entries(a);
    let y = sorted_entries(b);
    lemma_sorted_in_order(a);
    lemma_sorted_in_order(b);
    lemma_in_order_differ(x);
    lemma_in_order_differ(y);
    assert forall|i: int| 0 <= i < x.len() implies is_held(#[trigger] x[i], p, y, q) by {
        lemma_sorted_held(a, p, b, q, i);
    }
    assert forall|j: int| 0 <= j < y.len() implies is_held(#[trigger] y[j], q, x, p) by {
        lemma_sorted_held(b, q, a, p, j);
    }
    lemma_same_in_order(x, p, y, q);
}

/// Where a sorted entry came from.
proof fn lemma_sorted_from(entries: Seq<TreeEntry>, i: int) -> (k: int)
    requires
        0 <= i < sorted_entries(entries).len(),
    ensures
        0 <= k < entries.len(),
        entries[k] == sorted_entries(entries)[i],
{
    broadcast use vstd::seq_lib::group_to_multiset_ensures;

    let sorted = sorted_entries(entries);
    law_sorting_keeps_entries(entries);
    assert(sorted.contains(sorted[i]));
    assert(sorted.to_multiset().count(sorted[i]) > 0);
    assert(entries.contains(sorted[i]));
    choose|k: int| 0 <= k < entries.len() && entries[k] == sorted[i]
}

/// Where an entry stands once it is sorted.
proof fn lemma_sorted_to(entries: Seq<TreeEntry>, k: int) -> (i: int)
    requires
        0 <= k < entries.len(),
    ensures
        0 <= i < sorted_entries(entries).len(),
        sorted_entries(entries)[i] == entries[k],
{
    broadcast use vstd::seq_lib::group_to_multiset_ensures;

    let sorted = sorted_entries(entries);
    law_sorting_keeps_entries(entries);
    assert(entries.contains(entries[k]));
    assert(entries.to_multiset().count(entries[k]) > 0);
    assert(sorted.contains(entries[k]));
    choose|i: int| 0 <= i < sorted.len() && sorted[i] == entries[k]
}

/// Whether two files are the same, each below the root of its own package.
spec fn same_file(a: TreeFile, p: TreeRoot, b: TreeFile, q: TreeRoot) -> bool {
    &&& same_below(a.key@, p.file_key, b.key@, q.file_key)
    &&& same_below(a.path@, p.path, b.path@, q.path)
    &&& paths::relative_identity(false, a.relative@) == paths::relative_identity(
        false,
        b.relative@,
    )
    &&& a.len == b.len
}

spec fn same_files(a: Seq<TreeFile>, p: TreeRoot, b: Seq<TreeFile>, q: TreeRoot) -> bool {
    &&& a.len() == b.len()
    &&& forall|i: int| 0 <= i < a.len() ==> same_file(#[trigger] a[i], p, b[i], q)
}

/// Whether the same has been found in two packages.
spec fn same_state(s: TreeState, p: TreeRoot, t: TreeState, q: TreeRoot) -> bool {
    &&& same_files(s.files, p, t.files, q)
    &&& s.total_bytes == t.total_bytes
    &&& s.pending.len() == t.pending.len()
    &&& forall|i: int|
        0 <= i < s.pending.len() ==> same_below(
            (#[trigger] s.pending[i])@,
            p.path,
            t.pending[i]@,
            q.path,
        )
}

proof fn lemma_same_place(
    a: Seq<TreeFile>,
    x: Seq<char>,
    p: TreeRoot,
    b: Seq<TreeFile>,
    y: Seq<char>,
    q: TreeRoot,
)
    requires
        same_files(a, p, b, q),
        same_below(x, p.file_key, y, q.file_key),
    ensures
        file_place(a, x) == file_place(b, y),
    decreases a.len(),
{
    if a.len() > 0 {
        let n = a.len() - 1;
        assert(same_file(a[n], p, b[n], q));
        lemma_same_order(x, a[n].key@, p.file_key, y, b[n].key@, q.file_key);
        let c = a.drop_last();
        let d = b.drop_last();
        assert forall|i: int| 0 <= i < c.len() implies same_file(#[trigger] c[i], p, d[i], q) by {
            assert(c[i] == a[i] && d[i] == b[i]);
        }
        lemma_same_place(c, x, p, d, y, q);
    }
}

proof fn lemma_same_step(
    s: TreeState,
    a: TreeEntry,
    p: TreeRoot,
    t: TreeState,
    b: TreeEntry,
    q: TreeRoot,
)
    requires
        same_state(s, p, t, q),
        same_entry(a, p, b, q),
    ensures
        match (entry_step(s, a), entry_step(t, b)) {
            (Ok(u), Ok(v)) => same_state(u, p, v, q),
            (Err(c), Err(d)) => c == d,
            _ => false,
        },
{
    match entry_view(a, s.files.len(), s.total_bytes) {
        EntryView::Descend => {
            let u = s.pending.push(a.path);
            let v = t.pending.push(b.path);
            assert forall|i: int| 0 <= i < u.len() implies same_below(
                (#[trigger] u[i])@,
                p.path,
                v[i]@,
                q.path,
            ) by {
                if i < s.pending.len() {
                    assert(u[i] == s.pending[i] && v[i] == t.pending[i]);
                }
            }
        },
        EntryView::Take(len) => {
            let x = TreeFile { key: a.file_key, path: a.path, relative: a.relative, len };
            let y = TreeFile { key: b.file_key, path: b.path, relative: b.relative, len };
            let k = file_place(s.files, a.file_key@);
            lemma_file_place(s.files, a.file_key@);
            lemma_same_place(s.files, a.file_key@, p, t.files, b.file_key@, q);
            let u = s.files.insert(k, x);
            let v = t.files.insert(k, y);
            assert forall|i: int| 0 <= i < u.len() implies same_file(#[trigger] u[i], p, v[i], q) by {
                if i < k {
                    assert(u[i] == s.files[i] && v[i] == t.files[i]);
                } else if i == k {
                    assert(u[i] == x && v[i] == y);
                } else {
                    assert(u[i] == s.files[i - 1] && v[i] == t.files[i - 1]);
                }
            }
        },
        _ => {},
    }
}

proof fn lemma_same_listed(
    s: TreeState,
    a: Seq<TreeEntry>,
    p: TreeRoot,
    t: TreeState,
    b: Seq<TreeEntry>,
    q: TreeRoot,
)
    requires
        same_state(s, p, t, q),
        a.len() == b.len(),
        forall|i: int| 0 <= i < a.len() ==> same_entry(#[trigger] a[i], p, b[i], q),
    ensures
        match (listed(s, a), listed(t, b)) {
            (Ok(u), Ok(v)) => same_state(u, p, v, q),
            (Err(c), Err(d)) => c == d,
            _ => false,
        },
    decreases a.len(),
{
    if a.len() > 0 {
        assert(same_entry(a[0], p, b[0], q));
        lemma_same_step(s, a[0], p, t, b[0], q);
        match (entry_step(s, a[0]), entry_step(t, b[0])) {
            (Ok(u), Ok(v)) => {
                let x = a.drop_first();
                let y = b.drop_first();
                assert forall|i: int| 0 <= i < x.len() implies same_entry(
                    #[trigger] x[i],
                    p,
                    y[i],
                    q,
                ) by {
                    assert(x[i] == a[i + 1] && y[i] == b[i + 1]);
                }
                lemma_same_listed(u, x, p, v, y, q);
            },
            _ => {},
        }
    }
}

proof fn lemma_same_walk(
    s: TreeState,
    a: spec_fn(Seq<char>) -> Seq<TreeEntry>,
    p: TreeRoot,
    t: TreeState,
    b: spec_fn(Seq<char>) -> Seq<TreeEntry>,
    q: TreeRoot,
    turns: nat,
)
    requires
        same_state(s, p, t, q),
        forall|x: Seq<char>| same_listing(#[trigger] a(p.path + x), p, b(q.path + x), q),
    ensures
        match (walked(s, a, turns), walked(t, b, turns)) {
            (Ok(u), Ok(v)) => same_state(u, p, v, q),
            (Err(c), Err(d)) => c == d,
            _ => false,
        },
    decreases turns,
{
    if turns > 0 && s.pending.len() > 0 {
        let n = s.pending.len() - 1;
        let d = s.pending[n]@;
        let e = t.pending[n]@;
        assert(same_below(s.pending[n]@, p.path, t.pending[n]@, q.path));
        let x = d.skip(p.path.len() as int);
        assert(d =~= p.path + x && e =~= q.path + x);
        assert(same_listing(a(p.path + x), p, b(q.path + x), q));
        lemma_same_sorted(a(d), p, b(e), q);
        let s2 = TreeState { pending: s.pending.drop_last(), ..s };
        let t2 = TreeState { pending: t.pending.drop_last(), ..t };
        assert forall|i: int| 0 <= i < s2.pending.len() implies same_below(
            (#[trigger] s2.pending[i])@,
            p.path,
            t2.pending[i]@,
            q.path,
        ) by {
            assert(s2.pending[i] == s.pending[i] && t2.pending[i] == t.pending[i]);
        }
        lemma_same_listed(s2, sorted_entries(a(d)), p, t2, sorted_entries(b(e)), q);
        match (listed(s2, sorted_entries(a(d))), listed(t2, sorted_entries(b(e)))) {
            (Ok(u), Ok(v)) => {
                lemma_same_walk(u, a, p, v, b, q, (turns - 1) as nat);
            },
            _ => {},
        }
    }
}

proof fn lemma_same_bytes(
    a: Seq<TreeFile>,
    a_content: spec_fn(Seq<char>) -> Seq<u8>,
    p: TreeRoot,
    b: Seq<TreeFile>,
    b_content: spec_fn(Seq<char>) -> Seq<u8>,
    q: TreeRoot,
)
    requires
        same_files(a, p, b, q),
        forall|x: Seq<char>| #[trigger] a_content(p.path + x) == b_content(q.path + x),
    ensures
        files_bytes(a, a_content) == files_bytes(b, b_content),
    decreases a.len(),
{
    if a.len() > 0 {
        let n = a.len() - 1;
        assert(same_file(a[n], p, b[n], q));
        let c = a.drop_last();
        let d = b.drop_last();
        assert forall|i: int| 0 <= i < c.len() implies same_file(#[trigger] c[i], p, d[i], q) by {
            assert(c[i] == a[i] && d[i] == b[i]);
        }
        lemma_same_bytes(c, a_content, p, d, b_content, q);
        let x = a[n].path@.skip(p.path.len() as int);
        assert(a[n].path@ =~= p.path + x && b[n].path@ =~= q.path + x);
        assert(a_content(p.path + x) == b_content(q.path + x));
    }
}

/// The digest of a package depends on its relative paths and the contents of its
/// files alone: the same package gives the same digest, or is refused for the same
/// reason, wherever it lies and in whatever order its directories are listed.
pub proof fn law_digest_does_not_depend_on_the_root(
    s: TreeState,
    a: spec_fn(Seq<char>) -> Seq<TreeEntry>,
    a_content: spec_fn(Seq<char>) -> Seq<u8>,
    p: TreeRoot,
    t: TreeState,
    b: spec_fn(Seq<char>) -> Seq<TreeEntry>,
    b_content: spec_fn(Seq<char>) -> Seq<u8>,
    q: TreeRoot,
    turns: nat,
)
    requires
        is_beginning(s, p.path),
        is_beginning(t, q.path),
        same_package(a, a_content, p, b, b_content, q),
    ensures
        package_digest(s, a, a_content, turns) == package_digest(t, b, b_content, turns),
{
    assert(same_below(s.pending[0]@, p.path, t.pending[0]@, q.path)) by {
        assert(p.path.skip(p.path.len() as int) =~= q.path.skip(q.path.len() as int));
    }
    lemma_same_walk(s, a, p, t, b, q, turns);
    match (walked(s, a, turns), walked(t, b, turns)) {
        (Ok(u), Ok(v)) => {
            lemma_same_bytes(u.files, a_content, p, v.files, b_content, q);
        },
        _ => {},
    }
}

/// Whether what has been found is within the limits, its files in order.
pub open spec fn within_limits(s: TreeState) -> bool {
    &&& s.files.len() <= MAX_RUNNER_PACKAGE_TREE_FILES
    &&& s.total_bytes <= MAX_RUNNER_PACKAGE_TREE_BYTES
    &&& s.total_bytes == lengths(s.files)
    &&& files_sorted(s.files)
}

/// How many bytes some files have.
pub open spec fn lengths(files: Seq<TreeFile>) -> nat
    decreases files.len(),
{
    if files.len() == 0 {
        0
    } else {
        lengths(files.drop_last()) + files.last().len as nat
    }
}

proof fn lemma_lengths_insert(files: Seq<TreeFile>, p: int, file: TreeFile)
    requires
        0 <= p <= files.len(),
    ensures
        lengths(files.insert(p, file)) == lengths(files) + file.len,
    decreases files.len(),
{
    let after = files.insert(p, file);
    if p == files.len() {
        assert(after.drop_last() =~= files);
        assert(after.last() == file);
    } else {
        lemma_lengths_insert(files.drop_last(), p, file);
        assert(after.drop_last() =~= files.drop_last().insert(p, file));
        assert(after.last() == files.last());
    }
}

proof fn lemma_listed_within_limits(s: TreeState, entries: Seq<TreeEntry>)
    requires
        within_limits(s),
    ensures
        listed(s, entries) matches Ok(t) ==> within_limits(t),
    decreases entries.len(),
{
    if entries.len() > 0 {
        let entry = entries[0];
        if let EntryView::Take(len) = entry_view(entry, s.files.len(), s.total_bytes) {
            let file = TreeFile {
                key: entry.file_key,
                path: entry.path,
                relative: entry.relative,
                len,
            };
            lemma_file_place(s.files, file.key@);
            law_files_stay_sorted(s.files, file);
            lemma_lengths_insert(s.files, file_place(s.files, file.key@), file);
        }
        if let Ok(t) = entry_step(s, entry) {
            lemma_listed_within_limits(t, entries.drop_first());
        }
    }
}

/// A walk stays within the limits on the number of files and on their bytes, and
/// keeps the files in order.
pub proof fn law_walk_stays_within_limits(
    s: TreeState,
    listing: spec_fn(Seq<char>) -> Seq<TreeEntry>,
    turns: nat,
)
    requires
        within_limits(s),
    ensures
        walked(s, listing, turns) matches Ok(t) ==> within_limits(t),
    decreases turns,
{
    if turns > 0 && s.pending.len() > 0 {
        let begin = TreeState { pending: s.pending.drop_last(), ..s };
        let entries = sorted_entries(listing(s.pending.last()@));
        lemma_listed_within_limits(begin, entries);
        if let Ok(t) = listed(begin, entries) {
            law_walk_stays_within_limits(t, listing, (turns - 1) as nat);
        }
    }
}

proof fn lemma_listed_has_no_link(s: TreeState, entries: Seq<TreeEntry>, i: int)
    requires
        0 <= i < entries.len(),
        entries[i].reparse,
    ensures
        listed(s, entries) is Err,
    decreases entries.len(),
{
    if i > 0 {
        if let Ok(t) = entry_step(s, entries[0]) {
            lemma_listed_has_no_link(t, entries.drop_first(), i - 1);
        }
    }
}

/// A package with a link in a directory that is listed is not taken.
pub proof fn law_link_spoils_the_package(s: TreeState, entries: Seq<TreeEntry>, i: int)
    requires
        0 <= i < entries.len(),
        entries[i].reparse,
    ensures
        listed(s, sorted_entries(entries)) is Err,
{
    broadcast use vstd::seq_lib::group_to_multiset_ensures;

    law_sorting_keeps_entries(entries);
    let sorted = sorted_entries(entries);
    assert(entries.contains(entries[i]));
    assert(entries.to_multiset().count(entries[i]) > 0);
    assert(sorted.contains(entries[i]));
    let j = choose|j: int| 0 <= j < sorted.len() && sorted[j] == entries[i];
    lemma_listed_has_no_link(s, sorted, j);
}

/// The files of a package as they are found, in the order of their keys.
#[derive(Debug)]
pub struct PackageTree {
    pub files: Vec<TreeFile>,
    pub total_bytes: u64,
    /// The directories that are still to be listed.
    pub pending: Vec<String>,
}

proof fn lemma_file_place(files: Seq<TreeFile>, key: Seq<char>)
    ensures
        0 <= file_place(files, key) <= files.len(),
    decreases files.len(),
{
    if files.len() > 0 {
        lemma_file_place(files.drop_last(), key);
    }
}

fn put_file(files: &mut Vec<TreeFile>, file: TreeFile)
    ensures
        final(files)@ == old(files)@.insert(file_place(old(files)@, file.key@), file),
        0 <= file_place(old(files)@, file.key@) <= old(files)@.len(),
{
    let mut p: usize = files.len();
    assert(files@.take(p as int) =~= files@);
    while p > 0 && text_precedes(file.key.as_str(), files[p - 1].key.as_str())
        invariant
            p <= files@.len(),
            files@ == old(files)@,
            file_place(files@, file.key@) == file_place(files@.take(p as int), file.key@),
        decreases p,
    {
        assert(files@.take(p as int).last() == files@[p - 1]);
        assert(files@.take(p as int).drop_last() =~= files@.take(p - 1));
        p -= 1;
    }
    proof {
        if p > 0 {
            assert(files@.take(p as int).last() == files@[p - 1]);
        }
        lemma_file_place(files@, file.key@);
    }
    files.insert(p, file);
}

impl PackageTree {
    /// A walk that begins at the root of a package.
    pub fn new(root: String) -> (r: Self)
        ensures
            r.files@.len() == 0,
            r.total_bytes == 0,
            text::texts(r.pending@) == seq![root@],
            is_beginning(r.state(), root@),
    {
        let mut pending: Vec<String> = Vec::new();
        pending.push(root);
        assert(text::texts(pending@) =~= seq![root@]);
        PackageTree { files: Vec::new(), total_bytes: 0, pending }
    }

    /// The directory to list next: the one that was found last.
    pub fn next_directory(&mut self) -> (r: Option<String>)
        ensures
            final(self).files == old(self).files,
            final(self).total_bytes == old(self).total_bytes,
            match r {
                Some(d) => old(self).pending@.len() > 0 && d == old(self).pending@.last()
                    && final(self).pending@ == old(self).pending@.drop_last(),
                None => old(self).pending@.len() == 0 && final(self).pending@ == old(
                    self,
                ).pending@,
            },
    {
        self.pending.pop()
    }

    /// What has been found.
    pub open spec fn state(&self) -> TreeState {
        TreeState {
            files: self.files@,
            total_bytes: self.total_bytes,
            pending: self.pending@,
        }
    }

    /// Takes the entries of a directory, in the order of their keys.
    pub fn on_listing(&mut self, entries: Vec<TreeEntry>) -> (r: Result<(), DiscoveryDiagnosticCode>)
        requires
            old(self).total_bytes <= MAX_RUNNER_PACKAGE_TREE_BYTES,
        ensures
            final(self).total_bytes <= MAX_RUNNER_PACKAGE_TREE_BYTES,
            match r {
                Ok(_) => listed(old(self).state(), sorted_entries(entries@)) == Ok::<
                    TreeState,
                    DiscoveryDiagnosticCode,
                >(final(self).state()),
                Err(code) => listed(old(self).state(), sorted_entries(entries@)) == Err::<
                    TreeState,
                    DiscoveryDiagnosticCode,
                >(code),
            },
    {
        let ghost begin = self.state();
        let sorted = sort_entries(entries);
        let ghost all = sorted@;
        assert(all.skip(0) =~= all);
        for entry in it: sorted
            invariant
                it.seq() == all,
                all == sorted_entries(entries@),
                begin == old(self).state(),
                self.total_bytes <= MAX_RUNNER_PACKAGE_TREE_BYTES,
                listed(begin, all) == listed(self.state(), all.skip(it.index() as int)),
        {
            let ghost i = it.index() as int;
            proof {
                assert(all.skip(i)[0] == entry);
                assert(all.skip(i).drop_first() =~= all.skip(i + 1));
            }
            if let Err(code) = self.on_entry(entry) {
                return Err(code);
            }
        }
        assert(all.skip(all.len() as int) =~= seq![]);
        Ok(())
    }

    fn on_entry(&mut self, entry: TreeEntry) -> (r: Result<(), DiscoveryDiagnosticCode>)
        requires
            old(self).total_bytes <= MAX_RUNNER_PACKAGE_TREE_BYTES,
        ensures
            final(self).total_bytes <= MAX_RUNNER_PACKAGE_TREE_BYTES,
            match r {
                Ok(_) => entry_step(old(self).state(), entry) == Ok::<
                    TreeState,
                    DiscoveryDiagnosticCode,
                >(final(self).state()),
                Err(code) => entry_step(old(self).state(), entry) == Err::<
                    TreeState,
                    DiscoveryDiagnosticCode,
                >(code),
            },
    {
        if entry.reparse {
            return Err(DiscoveryDiagnosticCode::ReparsePointRejected);
        }
        match entry.kind {
            Err(code) => Err(code),
            Ok(EntryKind::Other) => Ok(()),
            Ok(EntryKind::Directory) => match entry.place {
                EntryPlace::Unresolved(code) => Err(code),
                EntryPlace::Outside => Err(DiscoveryDiagnosticCode::InvalidSourceRecord),
                EntryPlace::Inside => {
                    self.pending.push(entry.path);
                    Ok(())
                },
            },
            Ok(EntryKind::File(len)) => {
                if self.files.len() >= MAX_RUNNER_PACKAGE_TREE_FILES || len
                    > MAX_RUNNER_PACKAGE_TREE_BYTES - self.total_bytes {
                    return Err(DiscoveryDiagnosticCode::OversizedInput);
                }
                match entry.place {
                    EntryPlace::Unresolved(code) => Err(code),
                    EntryPlace::Outside => Err(DiscoveryDiagnosticCode::InvalidSourceRecord),
                    EntryPlace::Inside => {
                        self.total_bytes = self.total_bytes + len;
                        put_file(
                            &mut self.files,
                            TreeFile {
                                key: entry.file_key,
                                path: entry.path,
                                relative: entry.relative,
                                len,
                            },
                        );
                        Ok(())
                    },
                }
            },
        }
    }
}

/// Whether files stand in the order of their keys.
pub open spec fn files_sorted(files: Seq<TreeFile>) -> bool {
    forall|i: int, j: int|
        0 <= i < j < files.len() ==> !order::text_less(
            (#[trigger] files[j]).key@,
            (#[trigger] files[i]).key@,
        )
}

/// Files stay in the order of their keys, in whatever order they are found.
pub proof fn law_files_stay_sorted(files: Seq<TreeFile>, file: TreeFile)
    requires
        files_sorted(files),
    ensures
        files_sorted(files.insert(file_place(files, file.key@), file)),
    decreases files.len(),
{
    lemma_file_place(files, file.key@);
    lemma_place_splits(files, file.key@);
    let p = file_place(files, file.key@);
    let after = files.insert(p, file);
    assert forall|i: int, j: int| 0 <= i < j < after.len() implies !order::text_less(
        (#[trigger] after[j]).key@,
        (#[trigger] after[i]).key@,
    ) by {
        let a = after[i].key@;
        let b = after[j].key@;
        if i < p && j < p {
            assert(after[i] == files[i] && after[j] == files[j]);
        } else if i < p && j == p {
            assert(after[i] == files[i]);
            assert(after[j] == file);
        } else if i < p && j > p {
            assert(after[i] == files[i] && after[j] == files[j - 1]);
        } else if i == p {
            assert(after[i] == file);
            assert(after[j] == files[j - 1]);
            if order::text_less(b, a) {
                order::lemma_less_transitive(b, a, b);
                order::lemma_less_irreflexive(b);
            }
        } else {
            assert(after[i] == files[i - 1] && after[j] == files[j - 1]);
        }
    }
}

proof fn lemma_place_splits(files: Seq<TreeFile>, key: Seq<char>)
    requires
        files_sorted(files),
    ensures
        0 <= file_place(files, key) <= files.len(),
        forall|i: int|
            0 <= i < file_place(files, key) ==> !order::text_less(
                key,
                (#[trigger] files[i]).key@,
            ),
        forall|i: int|
            file_place(files, key) <= i < files.len() ==> order::text_less(
                key,
                (#[trigger] files[i]).key@,
            ),
    decreases files.len(),
{
    if files.len() > 0 {
        let last = files.last();
        if order::text_less(key, last.key@) {
            let rest = files.drop_last();
            assert forall|i: int, j: int| 0 <= i < j < rest.len() implies !order::text_less(
                (#[trigger] rest[j]).key@,
                (#[trigger] rest[i]).key@,
            ) by {
                assert(rest[i] == files[i] && rest[j] == files[j]);
            }
            lemma_place_splits(rest, key);
            assert forall|i: int| 0 <= i < file_place(files, key) implies !order::text_less(
                key,
                (#[trigger] files[i]).key@,
            ) by {
                assert(rest[i] == files[i]);
            }
            assert forall|i: int| file_place(files, key) <= i < files.len() implies order::text_less(
                key,
                (#[trigger] files[i]).key@,
            ) by {
                if i < rest.len() {
                    assert(rest[i] == files[i]);
                }
            }
        } else {
            assert forall|i: int| 0 <= i < files.len() implies !order::text_less(
                key,
                (#[trigger] files[i]).key@,
            ) by {
                if i < files.len() - 1 {
                    assert(files[files.len() - 1] == last);
                    assert(!order::text_less(last.key@, files[i].key@));
                    if order::text_less(key, files[i].key@) {
                        order::lemma_less_total(last.key@, files[i].key@);
                        if order::text_less(files[i].key@, last.key@) {
                            order::lemma_less_transitive(key, files[i].key@, last.key@);
                        }
                    }
                }
            }
        }
    }
}

/// The bytes that stand for a file in the digest of a package: its path, a zero,
/// its length and its content.
pub open spec fn file_bytes(identity: Seq<char>, len: u64, content: Seq<u8>) -> Seq<u8> {
    encode_utf8(identity).push(0u8) + spec_u64_to_le_bytes(len) + content
}

/// A file may be read in any pieces: what is fed behind its beginning is its content.
pub proof fn law_content_is_fed_in_pieces(
    identity: Seq<char>,
    len: u64,
    content: Seq<u8>,
    more: Seq<u8>,
)
    ensures
        file_bytes(identity, len, content) + more == file_bytes(identity, len, content + more),
{
    assert(file_bytes(identity, len, content) + more =~= file_bytes(identity, len, content + more));
}

/// What begins the digest of a package.
pub open spec fn tree_label() -> Seq<u8> {
    encode_utf8("agenttalk-runner-package-tree-v1"@)
}

/// Computes the digest of a package, file by file. The content of a file is read
/// piece by piece.
pub struct TreeDigest {
    hasher: Sha256State,
    remaining: u64,
}

impl TreeDigest {
    /// The bytes that were taken so far.
    pub closed spec fn taken(&self) -> Seq<u8> {
        digest::fed_bytes(self.hasher)
    }

    /// How many bytes of the file are still to come.
    pub closed spec fn remaining(&self) -> u64 {
        self.remaining
    }

    pub fn new() -> (r: Self)
        ensures
            r.taken() == tree_label(),
            r.remaining() == 0,
    {
        let mut hasher = sha256_new();
        sha256_update(&mut hasher, "agenttalk-runner-package-tree-v1".as_bytes());
        assert(digest::fed_bytes(hasher) =~= tree_label());
        TreeDigest { hasher, remaining: 0 }
    }

    /// Begins with a file.
    pub fn begin_file(&mut self, file: &TreeFile) -> (r: Result<(), DiscoveryDiagnosticCode>)
        requires
            old(self).remaining() == 0,
        ensures
            match r {
                Ok(_) => paths::relative_identity(false, file.relative@) matches Some(identity)
                    && final(self).taken() == old(self).taken() + file_bytes(
                    identity,
                    file.len,
                    seq![],
                ) && final(self).remaining() == file.len,
                Err(code) => paths::relative_identity(false, file.relative@) is None && code
                    == DiscoveryDiagnosticCode::InvalidSourceRecord && final(self).taken() == old(
                    self,
                ).taken() && final(self).remaining() == 0,
            },
    {
        let identity = match normalized_relative_identity(false, &file.relative) {
            Ok(s) => s,
            Err(code) => {
                return Err(code);
            },
        };
        let ghost before = digest::fed_bytes(self.hasher);
        sha256_update(&mut self.hasher, identity.as_str().as_bytes());
        let mut zero: Vec<u8> = Vec::new();
        zero.push(0);
        sha256_update(&mut self.hasher, zero.as_slice());
        let len = u64_to_le_bytes(file.len);
        sha256_update(&mut self.hasher, len.as_slice());
        self.remaining = file.len;
        assert(digest::fed_bytes(self.hasher) =~= before + file_bytes(
            identity@,
            file.len,
            seq![],
        ));
        Ok(())
    }

    /// How many bytes are to be read into a buffer; none when the file has been
    /// read whole.
    pub fn wants(&self, buffer: usize) -> (r: usize)
        ensures
            r == if buffer <= self.remaining() {
                buffer as int
            } else {
                self.remaining() as int
            },
    {
        if buffer as u64 <= self.remaining {
            buffer
        } else {
            self.remaining as usize
        }
    }

    /// Takes the next bytes of the file. A file that ends before its length has
    /// changed.
    pub fn feed(&mut self, bytes: &[u8]) -> (r: Result<(), DiscoveryDiagnosticCode>)
        requires
            bytes@.len() <= old(self).remaining(),
            old(self).remaining() > 0,
        ensures
            match r {
                Ok(_) => bytes@.len() > 0,
                Err(code) => bytes@.len() == 0 && code
                    == DiscoveryDiagnosticCode::FingerprintChanged,
            },
            final(self).taken() == old(self).taken() + bytes@,
            final(self).remaining() == old(self).remaining() - bytes@.len(),
    {
        if bytes.len() == 0 {
            assert(self.taken() + bytes@ =~= self.taken());
            return Err(DiscoveryDiagnosticCode::FingerprintChanged);
        }
        sha256_update(&mut self.hasher, bytes);
        self.remaining = self.remaining - bytes.len() as u64;
        Ok(())
    }

    /// The digest of all that was taken.
    pub fn finish(self) -> (r: String)
        requires
            self.remaining() == 0,
        ensures
            r@ == digest::digest_text(self.taken()),
            r@.len() == 64,
            digest::is_lower_hex(r@),
    {
        let bytes = sha256_finish(self.hasher);
        proof {
            digest::law_hex_digits(bytes@);
        }
        sha256_hex(bytes.as_slice())
    }
}

} // verus!
