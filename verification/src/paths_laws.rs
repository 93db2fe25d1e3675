//! What holds of every path of a package, of every tree of its files, and of the order in
//! which they are taken.

use vstd::prelude::*;
use vstd::utf8::*;

use crate::observation::DiscoveryDiagnosticCode;
use crate::order;
use crate::package_tree;
use crate::package_tree::{EntryKind, TreeEntry};
use crate::paths;
use crate::paths::{PackageProbe, PathPart};
use crate::scan;
use crate::text;

verus! {

/// A character may be shown unless it controls something or turns the direction of a text;
/// in a name no separator may stand either.
pub proof fn law_characters_of_names(c: char)
    ensures
        paths::is_plain_char(c) <==> !(c <= '\u{1f}' || ('\u{7f}' <= c <= '\u{9f}') || ('\u{202a}'
            <= c <= '\u{202e}') || ('\u{2066}' <= c <= '\u{2069}')),
        paths::is_name_char(c) <==> paths::is_plain_char(c) && c != '\\' && c != '/' && c != ':',
{
}

/// A relative path is known by its names in small letters, with slashes between them. It
/// must be relative, and each of its parts a name that is not empty: none leads up, or to a
/// root.
pub proof fn law_relative_paths(absolute: bool, parts: Seq<PathPart>)
    ensures
        match paths::relative_identity(absolute, parts) {
            Some(s) => {
                &&& !absolute
                &&& parts.len() > 0
                &&& forall|i: int|
                    0 <= i < parts.len() ==> (#[trigger] parts[i] matches PathPart::Normal(Some(n))
                        && n@.len() > 0 && paths::is_name(n@))
                &&& s == text::join(
                    Seq::new(parts.len(), |i: int| text::lower(parts[i]->Normal_0->0@)),
                    "/"@,
                )
            },
            None => absolute || parts.len() == 0 || exists|i: int|
                0 <= i < parts.len() && !(#[trigger] parts[i] matches PathPart::Normal(Some(n))
                    && n@.len() > 0 && paths::is_name(n@)),
        },
        forall|i: int|
            0 <= i < parts.len() && (#[trigger] parts[i] is ParentDir || parts[i] is RootDir
                || parts[i] is Prefix || parts[i] is CurDir) ==> paths::relative_identity(
                absolute,
                parts,
            ) is None,
{
    if let Some(s) = paths::relative_identity(absolute, parts) {
        assert forall|i: int| 0 <= i < parts.len() implies (
        #[trigger] parts[i] matches PathPart::Normal(Some(n)) && n@.len() > 0 && paths::is_name(
            n@,
        )) by {
            assert(paths::is_good_part(parts[i]));
        }
        assert(paths::part_names(parts) =~= Seq::new(
            parts.len(),
            |i: int| text::lower(parts[i]->Normal_0->0@),
        ));
    } else if !absolute && parts.len() > 0 {
        let i = choose|i: int| 0 <= i < parts.len() && !paths::is_good_part(#[trigger] parts[i]);
        assert(!(parts[i] matches PathPart::Normal(Some(n)) && n@.len() > 0 && paths::is_name(n@)));
    }
    assert forall|i: int|
        0 <= i < parts.len() && (#[trigger] parts[i] is ParentDir || parts[i] is RootDir
            || parts[i] is Prefix || parts[i] is CurDir) implies paths::relative_identity(
        absolute,
        parts,
    ) is None by {
        assert(!paths::is_good_part(parts[i]));
    }
}

/// A package family is known by its name in small letters, without the white space around
/// it; a name that is blank, longer than 256 bytes or holds a separator is none.
pub proof fn law_package_families(value: Seq<char>, absolute: bool, parts: Seq<PathPart>)
    ensures
        match paths::family_identity(value) {
            Some(f) => f == text::lower(text::trim(value)) && text::trim(value).len() > 0
                && text::byte_len(text::trim(value)) <= 256 && paths::is_name(text::trim(value)),
            None => text::trim(value).len() == 0 || text::byte_len(text::trim(value)) > 256
                || !paths::is_name(text::trim(value)),
        },
        match (paths::family_identity(value), paths::relative_identity(absolute, parts)) {
            (Some(f), Some(p)) => paths::package_identity(value, absolute, parts) == Some(
                seq!["package-stable-id"@, f, p],
            ),
            _ => paths::package_identity(value, absolute, parts) is None,
        },
{
}

/// The program of a package is looked at only if it lies below the package's own
/// directory, and the way to it neither leads up nor is a link.
pub proof fn law_programs_lie_in_their_package(
    location_absolute: bool,
    absolute: bool,
    parts: Seq<PathPart>,
    probe: PackageProbe,
)
    ensures
        match paths::package_path(location_absolute, absolute, parts, probe) {
            Ok(p) => {
                &&& location_absolute
                &&& !absolute
                &&& forall|i: int|
                    0 <= i < parts.len() ==> !(#[trigger] parts[i] is ParentDir) && !(
                    parts[i] is RootDir) && !(parts[i] is Prefix)
                &&& probe matches PackageProbe::Found { root, executable, path } && path@ == p
                    && root@.len() <= executable@.len() && forall|i: int|
                    0 <= i < root@.len() ==> (#[trigger] executable@[i])@ == root@[i]@
            },
            Err(code) => {
                &&& !location_absolute || absolute ==> code
                    == DiscoveryDiagnosticCode::InvalidSourceRecord
                &&& location_absolute && !absolute && (forall|i: int|
                    0 <= i < parts.len() ==> !(#[trigger] parts[i] is ParentDir) && !(
                    parts[i] is RootDir) && !(parts[i] is Prefix)) ==> {
                    &&& probe is Reparse ==> code == DiscoveryDiagnosticCode::ReparsePointRejected
                    &&& probe matches PackageProbe::Unresolved(c) ==> code == c
                    &&& probe is Found ==> code == DiscoveryDiagnosticCode::InvalidSourceRecord
                }
            },
        },
{
    if let Ok(p) = paths::package_path(location_absolute, absolute, parts, probe) {
        let root = probe->root;
        let executable = probe->executable;
        let e = text::texts(executable@);
        let r = text::texts(root@);
        assert forall|i: int| 0 <= i < root@.len() implies (#[trigger] executable@[i])@
            == root@[i]@ by {
            assert(e.take(r.len() as int)[i] == r[i]);
        }
    }
}

/// A path lies below another exactly if it begins with all of its parts.
pub proof fn law_paths_below_others(root: Seq<Seq<char>>, rest: Seq<Seq<char>>, path: Seq<Seq<char>>)
    ensures
        paths::is_under(root + rest, root),
        paths::is_under(path, root) ==> path == root + path.skip(root.len() as int),
{
    assert((root + rest).take(root.len() as int) =~= root);
    if paths::is_under(path, root) {
        assert(path =~= root + path.skip(root.len() as int));
    }
}

/// The names of a path are its pieces, without the empty ones and, unless they are kept, the
/// single dots.
pub proof fn law_names_of_paths(pieces: Seq<Seq<char>>, piece: Seq<char>, keep_dots: bool)
    ensures
        paths::path_names(seq![], keep_dots) == Seq::<Seq<char>>::empty(),
        paths::path_names(pieces.push(piece), keep_dots) == if piece.len() == 0 || (!keep_dots
            && piece == seq!['.']) {
            paths::path_names(pieces, keep_dots)
        } else {
            paths::path_names(pieces, keep_dots).push(piece)
        },
{
    assert(pieces.push(piece).drop_last() =~= pieces);
    assert(pieces.push(piece).last() == piece);
}

/// Two plain paths have the same components exactly if they start alike and have the same
/// names: doubled slashes and dots in between count for nothing, and letters do.
pub proof fn law_plain_paths(a: Seq<char>, b: Seq<char>)
    ensures
        paths::same_components(a, a, true),
        paths::same_components(a, a, false),
        paths::same_components(a, b, false) <==> (a.len() > 0 && a[0] == '/') == (b.len() > 0 && b[0]
            == '/') && (scan::split_on(a, '/')[0] == seq!['.']) == (scan::split_on(b, '/')[0]
            == seq!['.']) && paths::path_names(scan::split_on(a, '/'), false) == paths::path_names(
            scan::split_on(b, '/'),
            false,
        ),
{
}

/// A drive is the same in either case of its letter, and different drives are different.
pub proof fn law_drives(x: char, y: char, rest: Seq<char>)
    requires
        text::is_ascii_letter(x),
        text::is_ascii_letter(y),
    ensures
        paths::same_components(seq![x, ':'] + rest, seq![y, ':'] + rest, true)
            <==> text::lower_char(x) == text::lower_char(y),
{
    let a = seq![x, ':'] + rest;
    let b = seq![y, ':'] + rest;
    let wa = paths::with_slashes(a);
    let wb = paths::with_slashes(b);
    assert(a[0] == x && a[1] == ':');
    assert(b[0] == y && b[1] == ':');
    assert(wa[0] == x && wa[1] == ':');
    assert(wb[0] == y && wb[1] == ':');
    assert(!paths::is_verbatim(a));
    assert(!paths::is_verbatim(b));
    assert(paths::drive_at(wa, 0));
    assert(paths::drive_at(wb, 0));
    assert(wa.skip(2) =~= wb.skip(2));
    let pa = paths::slashed_prefix(wa);
    let pb = paths::slashed_prefix(wb);
    assert(pa.first =~= seq![text::lower_char(x)]);
    assert(pb.first =~= seq![text::lower_char(y)]);
    assert(pa.first[0] == text::lower_char(x));
    assert(pb.first[0] == text::lower_char(y));
}

/// An entry of a package is taken if it is a file below the package's root, of a package of
/// at most 512 files and 4194304 bytes; a directory below the root is gone into. A link, or
/// anything that lies outside, spoils the package, and what is neither file nor directory is
/// passed over.
pub proof fn law_entries_of_packages(e: TreeEntry, files: nat, total: u64)
    ensures
        ({
            let v = package_tree::entry_view(e, files, total);
            &&& e.reparse ==> v == package_tree::EntryView::Refused(
                DiscoveryDiagnosticCode::ReparsePointRejected,
            )
            &&& !e.reparse ==> (e.kind matches Err(code) ==> v == package_tree::EntryView::Refused(
                code,
            ))
            &&& v is Skip <==> !e.reparse && e.kind == Ok::<EntryKind, DiscoveryDiagnosticCode>(
                EntryKind::Other,
            )
            &&& v is Descend <==> !e.reparse && e.kind == Ok::<EntryKind, DiscoveryDiagnosticCode>(
                EntryKind::Directory,
            ) && e.place is Inside
            &&& v is Take ==> !e.reparse && e.place is Inside && files < 512
            &&& !e.reparse ==> (e.kind matches Ok(EntryKind::File(len)) ==> {
                &&& files >= 512 || total + len > 4_194_304 ==> v
                    == package_tree::EntryView::Refused(DiscoveryDiagnosticCode::OversizedInput)
                &&& files < 512 && total + len <= 4_194_304 && e.place is Inside ==> v
                    == package_tree::EntryView::Take(len)
                &&& files < 512 && total + len <= 4_194_304 && e.place is Outside ==> v
                    == package_tree::EntryView::Refused(
                    DiscoveryDiagnosticCode::InvalidSourceRecord,
                )
            })
            &&& !e.reparse && e.kind == Ok::<EntryKind, DiscoveryDiagnosticCode>(
                EntryKind::Directory,
            ) && e.place is Outside ==> v == package_tree::EntryView::Refused(
                DiscoveryDiagnosticCode::InvalidSourceRecord,
            )
        }),
{
}

/// An entry that is taken is kept with its place, path and length, and counted; one that is
/// gone into is put on the list of directories, and the files stay as they are.
pub proof fn law_taken_entries_are_kept(s: package_tree::TreeState, e: TreeEntry)
    requires
        s.total_bytes <= 4_194_304,
    ensures
        ({
            let v = package_tree::entry_view(e, s.files.len(), s.total_bytes);
            match package_tree::entry_step(s, e) {
                Err(code) => v == package_tree::EntryView::Refused(code),
                Ok(t) => {
                    &&& !(v is Refused)
                    &&& v is Skip ==> t == s
                    &&& v is Descend ==> t.files == s.files && t.total_bytes == s.total_bytes
                        && t.pending == s.pending.push(e.path)
                    &&& v matches package_tree::EntryView::Take(len) ==> {
                        &&& t.pending == s.pending
                        &&& t.total_bytes == s.total_bytes + len
                        &&& t.files.len() == s.files.len() + 1
                        &&& exists|i: int|
                            0 <= i < t.files.len() && (#[trigger] t.files[i]).key == e.file_key
                                && t.files[i].path == e.path && t.files[i].relative == e.relative
                                && t.files[i].len == len && t.files.remove(i) == s.files
                    }
                },
            }
        }),
{
    let v = package_tree::entry_view(e, s.files.len(), s.total_bytes);
    if let package_tree::EntryView::Take(len) = v {
        lemma_file_place(s.files, e.file_key@);
        let p = package_tree::file_place(s.files, e.file_key@);
        let t = package_tree::entry_step(s, e)->Ok_0;
        assert(t.files[p].key == e.file_key);
        assert(t.files.remove(p) =~= s.files);
    }
}

proof fn lemma_file_place(files: Seq<package_tree::TreeFile>, key: Seq<char>)
    ensures
        0 <= package_tree::file_place(files, key) <= files.len(),
    decreases files.len(),
{
    if files.len() > 0 {
        lemma_file_place(files.drop_last(), key);
    }
}

/// What is digested of a file is its place, a zero, its length and its content, in this
/// order; two files differ in it if their places do.
pub proof fn law_file_bytes(identity: Seq<char>, len: u64, content: Seq<u8>)
    ensures
        ({
            let b = package_tree::file_bytes(identity, len, content);
            let n = encode_utf8(identity).len() as int;
            &&& b.take(n) == encode_utf8(identity)
            &&& b[n] == 0
            &&& b.len() >= n + 1 + content.len()
            &&& b.skip(b.len() - content.len()) == content
        }),
{
    let b = package_tree::file_bytes(identity, len, content);
    let n = encode_utf8(identity).len() as int;
    assert(b.take(n) =~= encode_utf8(identity));
    assert(b.skip(b.len() - content.len()) =~= content);
}

/// Texts are ordered by their first differing character, and a text comes before those that
/// it begins.
pub proof fn law_texts_are_ordered(
    common: Seq<char>,
    a: char,
    b: char,
    x: Seq<char>,
    y: Seq<char>,
)
    ensures
        a != b ==> (order::text_less(common + seq![a] + x, common + seq![b] + y) <==> a < b),
        order::text_less(common, common + seq![b] + y),
        !order::text_less(common + seq![a] + x, common),
    decreases common.len(),
{
    let p = common + seq![a] + x;
    let r = common + seq![b] + y;
    if common.len() == 0 {
        assert(p[0] == a);
        assert(r[0] == b);
    } else {
        let t = common.drop_first();
        law_texts_are_ordered(t, a, b, x, y);
        assert(p.drop_first() =~= t + seq![a] + x);
        assert(r.drop_first() =~= t + seq![b] + y);
        assert(p[0] == common[0]);
        assert(r[0] == common[0]);
    }
}

/// A name is one only where each of its characters may stand in a name: a text that holds a
/// separator or a character that controls something, wherever it stands, is no name.
pub proof fn law_names_hold_no_separators(s: Seq<char>, i: int)
    ensures
        paths::is_name(s) ==> !s.contains('/') && !s.contains('\\') && !s.contains(':'),
        0 <= i < s.len() && (s[i] == '/' || s[i] == '\\' || s[i] == ':' || s[i] == '\n' || s[i]
            == '\0') ==> !paths::is_name(s),
        0 <= i < s.len() && paths::is_name(s) ==> paths::is_name_char(s[i]),
        (forall|k: int|
            0 <= k < s.len() ==> ('0' <= #[trigger] s[k] <= '9' || 'A' <= s[k] <= 'Z' || 'a' <= s[k]
                <= 'z' || s[k] == '.' || s[k] == '_' || s[k] == '-')) ==> paths::is_name(s),
{
    if s.contains('/') {
        let k = choose|k: int| 0 <= k < s.len() && s[k] == '/';
        assert(!paths::is_name_char(s[k]));
    }
    if s.contains('\\') {
        let k = choose|k: int| 0 <= k < s.len() && s[k] == '\\';
        assert(!paths::is_name_char(s[k]));
    }
    if s.contains(':') {
        let k = choose|k: int| 0 <= k < s.len() && s[k] == ':';
        assert(!paths::is_name_char(s[k]));
    }
    if 0 <= i < s.len() && (s[i] == '/' || s[i] == '\\' || s[i] == ':' || s[i] == '\n' || s[i]
        == '\0') {
        assert(!paths::is_name_char(s[i]));
    }
    if forall|k: int|
        0 <= k < s.len() ==> ('0' <= #[trigger] s[k] <= '9' || 'A' <= s[k] <= 'Z' || 'a' <= s[k]
            <= 'z' || s[k] == '.' || s[k] == '_' || s[k] == '-') {
        assert forall|k: int| 0 <= k < s.len() implies paths::is_name_char(#[trigger] s[k]) by {
            assert('0' <= s[k] <= '9' || 'A' <= s[k] <= 'Z' || 'a' <= s[k] <= 'z' || s[k] == '.'
                || s[k] == '_' || s[k] == '-');
        }
    }
}

/// To name the same place is to be equal, on either kind of machine: a path names its own
/// place, two paths do so of each other, and what is the same as the same is the same.
pub proof fn law_same_places(a: Seq<char>, b: Seq<char>, c: Seq<char>, windows: bool)
    ensures
        paths::same_components(a, a, windows),
        paths::same_components(a, b, windows) ==> paths::same_components(b, a, windows),
        paths::same_components(a, b, windows) && paths::same_components(b, c, windows)
            ==> paths::same_components(a, c, windows),
{
}

} // verus!
