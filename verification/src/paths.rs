//! Parts of paths, and what packages and files in them are told by.

use vstd::prelude::*;
use vstd::string::*;

use crate::observation::{DiscoveryDiagnosticCode, ObservationFingerprint};
use crate::scan;
use crate::scan::split_text;
use crate::text;
use crate::text::{
    alphanumeric, bytes_len, chars_of, control_char, digit, index_of_char, join_texts, lowered,
    same_text, text_of, text_of_range, to_lower_char, trimmed,
};

verus! {

/// A part of a path.
#[derive(Debug)]
pub enum PathPart {
    /// A name; none if it is no text.
    Normal(Option<String>),
    CurDir,
    ParentDir,
    RootDir,
    Prefix,
}

/// A character that changes the direction in which text is shown.
pub open spec fn is_direction_char(c: char) -> bool {
    ||| '\u{202a}' <= c <= '\u{202e}'
    ||| '\u{2066}' <= c <= '\u{2069}'
}

/// A character that may be shown.
pub open spec fn is_plain_char(c: char) -> bool {
    !text::is_control_char(c) && !is_direction_char(c)
}

/// A character that may stand in a name.
pub open spec fn is_name_char(c: char) -> bool {
    is_plain_char(c) && c != '\\' && c != '/' && c != ':'
}

pub fn plain_char(c: char) -> (r: bool)
    ensures
        r == is_plain_char(c),
{
    !(control_char(c) || ('\u{202a}' <= c && c <= '\u{202e}') || ('\u{2066}' <= c && c
        <= '\u{2069}'))
}

/// Whether all characters may be shown.
pub open spec fn is_plain(s: Seq<char>) -> bool {
    forall|i: int| 0 <= i < s.len() ==> is_plain_char(#[trigger] s[i])
}

pub fn plain_text(s: &str) -> (r: bool)
    ensures
        r == is_plain(s@),
{
    let cs = chars_of(s);
    let mut i: usize = 0;
    while i < cs.len()
        invariant
            i <= cs@.len(),
            cs@ == s@,
            forall|k: int| 0 <= k < i ==> is_plain_char(#[trigger] s@[k]),
        decreases cs@.len() - i,
    {
        if !plain_char(cs[i]) {
            assert(!is_plain_char(s@[i as int]));
            return false;
        }
        i += 1;
    }
    true
}

/// Whether all characters may stand in a name.
pub open spec fn is_name(s: Seq<char>) -> bool {
    forall|i: int| 0 <= i < s.len() ==> is_name_char(#[trigger] s[i])
}

fn name_text(s: &str) -> (r: bool)
    ensures
        r == is_name(s@),
{
    let cs = chars_of(s);
    let mut i: usize = 0;
    while i < cs.len()
        invariant
            i <= cs@.len(),
            cs@ == s@,
            forall|k: int| 0 <= k < i ==> is_name_char(#[trigger] s@[k]),
        decreases cs@.len() - i,
    {
        let c = cs[i];
        if !plain_char(c) || c == '\\' || c == '/' || c == ':' {
            assert(!is_name_char(s@[i as int]));
            return false;
        }
        i += 1;
    }
    true
}

/// Whether a part is a name that can be told by.
pub open spec fn is_good_part(part: PathPart) -> bool {
    part matches PathPart::Normal(Some(s)) && s@.len() > 0 && is_name(s@)
}

/// The names of parts, in lower case.
pub open spec fn part_names(parts: Seq<PathPart>) -> Seq<Seq<char>> {
    Seq::new(
        parts.len(),
        |i: int|
            match parts[i] {
                PathPart::Normal(Some(s)) => text::lower(s@),
                _ => seq![],
            },
    )
}

/// What a relative path is told by: its names in lower case with slashes between
/// them. A path with anything but names is told by nothing.
pub open spec fn relative_identity(absolute: bool, parts: Seq<PathPart>) -> Option<Seq<char>> {
    if absolute || parts.len() == 0 || exists|i: int|
        0 <= i < parts.len() && !is_good_part(#[trigger] parts[i]) {
        None
    } else {
        Some(text::join(part_names(parts), "/"@))
    }
}

pub fn normalized_relative_identity(absolute: bool, parts: &Vec<PathPart>) -> (r: Result<
    String,
    DiscoveryDiagnosticCode,
>)
    ensures
        match r {
            Ok(s) => relative_identity(absolute, parts@) == Some(s@),
            Err(code) => relative_identity(absolute, parts@) is None && code
                == DiscoveryDiagnosticCode::InvalidSourceRecord,
        },
{
    if absolute || parts.len() == 0 {
        return Err(DiscoveryDiagnosticCode::InvalidSourceRecord);
    }
    let mut names: Vec<String> = Vec::new();
    let mut i: usize = 0;
    while i < parts.len()
        invariant
            i <= parts@.len(),
            forall|k: int| 0 <= k < i ==> is_good_part(#[trigger] parts@[k]),
            text::texts(names@) == part_names(parts@).take(i as int),
        decreases parts@.len() - i,
    {
        let name = match &parts[i] {
            PathPart::Normal(Some(s)) => if s.as_str().is_empty() || !name_text(s.as_str()) {
                None
            } else {
                Some(lowered(s.as_str()))
            },
            _ => None,
        };
        match name {
            Some(name) => {
                proof {
                    assert(text::texts(names@.push(name)) =~= text::texts(names@).push(name@));
                    assert(part_names(parts@).take(i + 1) =~= part_names(parts@).take(
                        i as int,
                    ).push(name@));
                }
                names.push(name);
            },
            None => {
                assert(!is_good_part(parts@[i as int]));
                return Err(DiscoveryDiagnosticCode::InvalidSourceRecord);
            },
        }
        i += 1;
    }
    assert(part_names(parts@).take(i as int) =~= part_names(parts@));
    Ok(join_texts(&names, "/"))
}

/// The name of a package family, as packages are told by it.
pub open spec fn family_identity(value: Seq<char>) -> Option<Seq<char>> {
    let v = text::trim(value);
    if v.len() > 0 && text::byte_len(v) <= 256 && is_name(v) {
        Some(text::lower(v))
    } else {
        None
    }
}

pub fn project_package_identity_part(value: &str) -> (r: Option<String>)
    ensures
        text::opt_text(r) == family_identity(value@),
{
    let v = trimmed(value);
    if v.as_str().is_empty() || bytes_len(v.as_str()) > 256 || !name_text(v.as_str()) {
        None
    } else {
        Some(lowered(v.as_str()))
    }
}

/// What a packaged executable is told by. The version of the package does not
/// matter.
pub open spec fn package_identity(
    family: Seq<char>,
    absolute: bool,
    parts: Seq<PathPart>,
) -> Option<Seq<Seq<char>>> {
    match (family_identity(family), relative_identity(absolute, parts)) {
        (Some(f), Some(p)) => Some(seq!["package-stable-id"@, f, p]),
        _ => None,
    }
}

/// What a packaged executable is told by.
pub fn package_stable_identity(family: &str, absolute: bool, parts: &Vec<PathPart>) -> (r: Result<
    ObservationFingerprint,
    DiscoveryDiagnosticCode,
>)
    ensures
        match r {
            Ok(f) => package_identity(family@, absolute, parts@) == Some(f@),
            Err(code) => package_identity(family@, absolute, parts@) is None && code
                == DiscoveryDiagnosticCode::InvalidSourceRecord,
        },
{
    let family = match project_package_identity_part(family) {
        Some(s) => s,
        None => {
            return Err(DiscoveryDiagnosticCode::InvalidSourceRecord);
        },
    };
    match normalized_relative_identity(absolute, parts) {
        Ok(path) => {
            let f = ObservationFingerprint::of_two("package-stable-id", family.as_str()).and(
                path.as_str(),
            );
            assert(f@ =~= seq!["package-stable-id"@, family@, path@]);
            Ok(f)
        },
        Err(code) => Err(code),
    }
}

/// What was found when the executable of a package was looked for.
#[derive(Debug)]
pub enum PackageProbe {
    /// The installation, or the executable in it, is a link.
    Reparse,
    /// Where one of them leads could not be found out.
    Unresolved(DiscoveryDiagnosticCode),
    /// Where the installation and the executable lead, as lists of parts.
    Found { root: Vec<String>, executable: Vec<String>, path: String },
}

/// Whether the path of an executable inside a package stays inside: it is relative,
/// and no part leads up or to a root.
pub open spec fn stays_inside(absolute: bool, parts: Seq<PathPart>) -> bool {
    !absolute && forall|i: int|
        0 <= i < parts.len() ==> !((#[trigger] parts[i]) is ParentDir || parts[i] is Prefix
            || parts[i] is RootDir)
}

fn path_stays_inside(absolute: bool, parts: &Vec<PathPart>) -> (r: bool)
    ensures
        r == stays_inside(absolute, parts@),
{
    if absolute {
        return false;
    }
    let mut i: usize = 0;
    while i < parts.len()
        invariant
            i <= parts@.len(),
            forall|k: int|
                0 <= k < i ==> !((#[trigger] parts@[k]) is ParentDir || parts@[k] is Prefix
                    || parts@[k] is RootDir),
        decreases parts@.len() - i,
    {
        match &parts[i] {
            PathPart::ParentDir => {
                return false;
            },
            PathPart::Prefix => {
                return false;
            },
            PathPart::RootDir => {
                return false;
            },
            _ => {},
        }
        i += 1;
    }
    true
}

/// Whether a list of parts begins with another one.
pub open spec fn is_under(path: Seq<Seq<char>>, root: Seq<Seq<char>>) -> bool {
    root.len() <= path.len() && path.take(root.len() as int) == root
}

/// Whether a path leads to something under a root, both given by their parts.
pub fn path_is_under(path: &Vec<String>, root: &Vec<String>) -> (r: bool)
    ensures
        r == is_under(text::texts(path@), text::texts(root@)),
{
    if root.len() > path.len() {
        return false;
    }
    let mut i: usize = 0;
    while i < root.len()
        invariant
            i <= root@.len() <= path@.len(),
            forall|k: int|
                0 <= k < i ==> text::texts(path@)[k] == #[trigger] text::texts(root@)[k],
        decreases root@.len() - i,
    {
        if !text::same_text(path[i].as_str(), root[i].as_str()) {
            proof {
                let p = text::texts(path@);
                let r = text::texts(root@);
                assert(p.take(r.len() as int)[i as int] == path@[i as int]@);
                assert(r[i as int] == root@[i as int]@);
            }
            return false;
        }
        i += 1;
    }
    assert(text::texts(path@).take(root@.len() as int) =~= text::texts(root@));
    true
}

/// Where the executable of a package is, or why it is not taken. An executable
/// that leads out of its package is not taken.
pub open spec fn package_path(
    location_absolute: bool,
    absolute: bool,
    parts: Seq<PathPart>,
    probe: PackageProbe,
) -> Result<Seq<char>, DiscoveryDiagnosticCode> {
    if !location_absolute || !stays_inside(absolute, parts) {
        Err(DiscoveryDiagnosticCode::InvalidSourceRecord)
    } else {
        match probe {
            PackageProbe::Reparse => Err(DiscoveryDiagnosticCode::ReparsePointRejected),
            PackageProbe::Unresolved(code) => Err(code),
            PackageProbe::Found { root, executable, path } => if is_under(
                text::texts(executable@),
                text::texts(root@),
            ) {
                Ok(path@)
            } else {
                Err(DiscoveryDiagnosticCode::InvalidSourceRecord)
            },
        }
    }
}

/// Finds where the executable of a package is.
pub fn package_executable_path(
    location_absolute: bool,
    absolute: bool,
    parts: &Vec<PathPart>,
    probe: PackageProbe,
) -> (r: Result<String, DiscoveryDiagnosticCode>)
    ensures
        match r {
            Ok(s) => package_path(location_absolute, absolute, parts@, probe) == Ok::<
                Seq<char>,
                DiscoveryDiagnosticCode,
            >(s@),
            Err(code) => package_path(location_absolute, absolute, parts@, probe) == Err::<
                Seq<char>,
                DiscoveryDiagnosticCode,
            >(code),
        },
{
    if !location_absolute || !path_stays_inside(absolute, parts) {
        return Err(DiscoveryDiagnosticCode::InvalidSourceRecord);
    }
    match probe {
        PackageProbe::Reparse => Err(DiscoveryDiagnosticCode::ReparsePointRejected),
        PackageProbe::Unresolved(code) => Err(code),
        PackageProbe::Found { root, executable, path } => {
            if path_is_under(&executable, &root) {
                Ok(path)
            } else {
                Err(DiscoveryDiagnosticCode::InvalidSourceRecord)
            }
        },
    }
}

/// What a package is told by is written as it is in lower case: another spelling
/// with the same letters tells the same package.
pub proof fn law_family_identity_ignores_case(a: Seq<char>, b: Seq<char>)
    requires
        family_identity(a) is Some,
        family_identity(b) is Some,
        text::lower(text::trim(a)) == text::lower(text::trim(b)),
    ensures
        family_identity(a) == family_identity(b),
{
}

// ---------------------------------------------------------------------------
// Whether two paths are the same.

/// The pieces of a path that are names: those that are not empty and, unless dots are
/// kept, no dot.
pub open spec fn path_names(pieces: Seq<Seq<char>>, keep_dots: bool) -> Seq<Seq<char>>
    decreases pieces.len(),
{
    if pieces.len() == 0 {
        seq![]
    } else {
        let before = path_names(pieces.drop_last(), keep_dots);
        if pieces.last().len() == 0 || (pieces.last() == seq!['.'] && !keep_dots) {
            before
        } else {
            before.push(pieces.last())
        }
    }
}

/// With what a path of Windows begins.
#[derive(Clone, Copy, Debug, PartialEq, Eq, Structural)]
pub enum PrefixKind {
    /// Nothing of its own.
    Plain,
    /// `C:`
    Disk,
    /// `\\server\share`
    Share,
    /// `\\.\device`
    Device,
    /// `\\?\name`
    Verbatim,
    /// `\\?\UNC\server\share`
    VerbatimShare,
    /// `\\?\C:`
    VerbatimDisk,
}

/// The prefix of a path with its names, and where it ends.
#[verifier::ext_equal]
pub struct PrefixView {
    pub kind: PrefixKind,
    pub first: Seq<char>,
    pub second: Seq<char>,
    pub end: int,
}

/// What a path is made of.
#[verifier::ext_equal]
pub struct PathShape {
    pub kind: PrefixKind,
    /// The names of the prefix; the letter of a drive is in lower case.
    pub first: Seq<char>,
    pub second: Seq<char>,
    pub rooted: bool,
    /// It begins with a dot of its own.
    pub dotted: bool,
    pub names: Seq<Seq<char>>,
}

/// What a path with slashes between its names is made of. Empty pieces, dots
/// behind the first piece and a slash at the end count for nothing.
pub open spec fn plain_shape(s: Seq<char>) -> PathShape {
    let pieces = scan::split_on(s, '/');
    PathShape {
        kind: PrefixKind::Plain,
        first: seq![],
        second: seq![],
        rooted: s.len() > 0 && s[0] == '/',
        dotted: pieces[0] == seq!['.'],
        names: path_names(pieces, false),
    }
}

pub open spec fn is_path_separator(c: char) -> bool {
    c == '/' || c == '\\'
}

/// A path with slashes in place of the other separators.
pub open spec fn with_slashes(s: Seq<char>) -> Seq<char> {
    Seq::new(
        s.len(),
        |i: int|
            if s[i] == '\\' {
                '/'
            } else {
                s[i]
            },
    )
}

/// Whether the letter of a drive stands in a path from index `i` on.
pub open spec fn drive_at(s: Seq<char>, i: int) -> bool {
    i + 2 <= s.len() && text::is_ascii_letter(s[i]) && s[i + 1] == ':'
}

/// Where a name that starts at index `i` ends: at the separator `c`, or at the end.
pub open spec fn name_end(s: Seq<char>, i: int, c: char) -> int {
    i + text::first_index(s.subrange(i, s.len() as int), c)
}

/// Where the name behind the one that ends at index `i` starts.
pub open spec fn next_name(s: Seq<char>, i: int) -> int {
    if i < s.len() {
        i + 1
    } else {
        i
    }
}

/// Whether a path begins with two separators.
pub open spec fn begins_twice(s: Seq<char>) -> bool {
    s.len() >= 2 && is_path_separator(s[0]) && is_path_separator(s[1])
}

/// Whether the names of a path are to be taken as they are written. Only
/// backslashes begin such a path.
pub open spec fn is_verbatim(s: Seq<char>) -> bool {
    s.len() >= 4 && s[0] == '\\' && s[1] == '\\' && s[2] == '?' && s[3] == '\\'
}

/// The prefix of a path whose names are to be taken as they are written.
pub open spec fn verbatim_prefix(s: Seq<char>) -> PrefixView {
    if s.len() >= 8 && s[4] == 'U' && s[5] == 'N' && s[6] == 'C' && is_path_separator(s[7]) {
        let i = name_end(s, 8, '\\');
        let from = next_name(s, i);
        let j = name_end(s, from, '\\');
        PrefixView {
            kind: PrefixKind::VerbatimShare,
            first: s.subrange(8, i),
            second: s.subrange(from, j),
            end: if from < j {
                j
            } else {
                i
            },
        }
    } else if drive_at(s, 4) && (s.len() == 6 || is_path_separator(s[6])) {
        PrefixView {
            kind: PrefixKind::VerbatimDisk,
            first: seq![text::lower_char(s[4])],
            second: seq![],
            end: 6,
        }
    } else {
        let i = name_end(s, 4, '\\');
        PrefixView {
            kind: PrefixKind::Verbatim,
            first: s.subrange(4, i),
            second: seq![],
            end: i,
        }
    }
}

/// A path that begins with nothing of its own.
pub open spec fn no_prefix() -> PrefixView {
    PrefixView { kind: PrefixKind::Plain, first: seq![], second: seq![], end: 0 }
}

/// The prefix of a path with slashes.
pub open spec fn slashed_prefix(w: Seq<char>) -> PrefixView {
    if begins_twice(w) {
        if w.len() >= 4 && w[2] == '.' && w[3] == '/' {
            let i = name_end(w, 4, '/');
            PrefixView {
                kind: PrefixKind::Device,
                first: w.subrange(4, i),
                second: seq![],
                end: i,
            }
        } else {
            let i = name_end(w, 2, '/');
            let from = next_name(w, i);
            let j = name_end(w, from, '/');
            if 2 < i && from < j {
                PrefixView {
                    kind: PrefixKind::Share,
                    first: w.subrange(2, i),
                    second: w.subrange(from, j),
                    end: j,
                }
            } else {
                no_prefix()
            }
        }
    } else if drive_at(w, 0) {
        PrefixView {
            kind: PrefixKind::Disk,
            first: seq![text::lower_char(w[0])],
            second: seq![],
            end: 2,
        }
    } else {
        no_prefix()
    }
}

/// What a path of Windows is made of. Both separators are the same, but in a path
/// whose names are to be taken as they are written, in which dots are names too. A
/// share and a device have a root of their own.
pub open spec fn windows_shape(s: Seq<char>) -> PathShape {
    if is_verbatim(s) {
        let p = verbatim_prefix(s);
        let rest = s.skip(p.end);
        let rooted = rest.len() > 0 && is_path_separator(rest[0]);
        let body = if rooted {
            rest.skip(1)
        } else {
            rest
        };
        PathShape {
            kind: p.kind,
            first: p.first,
            second: p.second,
            rooted,
            dotted: false,
            names: path_names(scan::split_on(body, '\\'), true),
        }
    } else {
        let p = slashed_prefix(with_slashes(s));
        let plain = plain_shape(with_slashes(s).skip(p.end));
        PathShape {
            kind: p.kind,
            first: p.first,
            second: p.second,
            rooted: plain.rooted || p.kind == PrefixKind::Share || p.kind == PrefixKind::Device,
            dotted: plain.dotted && p.kind == PrefixKind::Plain,
            names: plain.names,
        }
    }
}

/// Whether two paths have the same components.
pub open spec fn same_components(a: Seq<char>, b: Seq<char>, windows: bool) -> bool {
    if windows {
        windows_shape(a) == windows_shape(b)
    } else {
        plain_shape(a) == plain_shape(b)
    }
}

/// A prefix that was read.
struct Prefix {
    kind: PrefixKind,
    first: String,
    second: String,
    end: usize,
}

impl Prefix {
    spec fn view(&self) -> PrefixView {
        PrefixView {
            kind: self.kind,
            first: self.first@,
            second: self.second@,
            end: self.end as int,
        }
    }
}

/// What a path is made of.
struct PathParts {
    kind: PrefixKind,
    first: String,
    second: String,
    rooted: bool,
    dotted: bool,
    names: Vec<String>,
}

impl PathParts {
    spec fn shape(&self) -> PathShape {
        PathShape {
            kind: self.kind,
            first: self.first@,
            second: self.second@,
            rooted: self.rooted,
            dotted: self.dotted,
            names: text::texts(self.names@),
        }
    }
}

fn is_dot(s: &String) -> (r: bool)
    ensures
        r == (s@ == seq!['.']),
{
    let cs = chars_of(s.as_str());
    let r = cs.len() == 1 && cs[0] == '.';
    assert(r ==> s@ =~= seq!['.']);
    r
}

fn names_of(pieces: &Vec<String>, keep_dots: bool) -> (r: Vec<String>)
    ensures
        text::texts(r@) == path_names(text::texts(pieces@), keep_dots),
{
    let ghost all = text::texts(pieces@);
    let mut names: Vec<String> = Vec::new();
    let mut i: usize = 0;
    assert(text::texts(names@) =~= path_names(all.take(0), keep_dots));
    while i < pieces.len()
        invariant
            i <= pieces@.len(),
            all == text::texts(pieces@),
            text::texts(names@) == path_names(all.take(i as int), keep_dots),
        decreases pieces@.len() - i,
    {
        let ghost before = text::texts(names@);
        let piece = &pieces[i];
        proof {
            assert(all.take(i + 1).drop_last() =~= all.take(i as int));
            assert(all.take(i + 1).last() == piece@);
        }
        if bytes_len(piece.as_str()) > 0 && (keep_dots || !is_dot(piece)) {
            names.push(piece.clone());
            assert(text::texts(names@) =~= before.push(piece@));
        }
        i += 1;
    }
    assert(all.take(all.len() as int) =~= all);
    names
}

fn plain_parts(s: &str) -> (r: PathParts)
    ensures
        r.shape() == plain_shape(s@),
{
    let cs = chars_of(s);
    let rooted = cs.len() > 0 && cs[0] == '/';
    let pieces = split_text(s, '/');
    let ghost all = text::texts(pieces@);
    assert(all.len() > 0);
    assert(all[0] == pieces@[0]@);
    let dotted = is_dot(&pieces[0]);
    let names = names_of(&pieces, false);
    let r = PathParts {
        kind: PrefixKind::Plain,
        first: String::new(),
        second: String::new(),
        rooted,
        dotted,
        names,
    };
    assert(r.first@ =~= seq![] && r.second@ =~= seq![]);
    r
}

fn slashed(cs: &Vec<char>) -> (r: Vec<char>)
    ensures
        r@ == with_slashes(cs@),
{
    let mut out: Vec<char> = Vec::new();
    let mut i: usize = 0;
    while i < cs.len()
        invariant
            i <= cs@.len(),
            out@ == with_slashes(cs@).take(i as int),
        decreases cs@.len() - i,
    {
        let c: char = if cs[i] == '\\' {
            '/'
        } else {
            cs[i]
        };
        out.push(c);
        assert(out@ =~= with_slashes(cs@).take(i + 1));
        i += 1;
    }
    assert(out@ =~= with_slashes(cs@));
    out
}

fn separator(c: char) -> (r: bool)
    ensures
        r == is_path_separator(c),
{
    c == '/' || c == '\\'
}

fn has_drive_at(cs: &Vec<char>, i: usize) -> (r: bool)
    requires
        i <= 4,
    ensures
        r == drive_at(cs@, i as int),
{
    cs.len() >= i + 2 && alphanumeric(cs[i]) && !digit(cs[i]) && cs[i + 1] == ':'
}

/// The letter of a drive, as it is kept.
fn drive_name(c: char) -> (r: String)
    ensures
        r@ == seq![text::lower_char(c)],
{
    let mut cs: Vec<char> = Vec::new();
    cs.push(to_lower_char(c));
    assert(cs@ =~= seq![text::lower_char(c)]);
    text_of(&cs)
}

fn prefix_of(kind: PrefixKind, first: String, end: usize) -> (r: Prefix)
    ensures
        r@ == (PrefixView { kind, first: first@, second: seq![], end: end as int }),
{
    let r = Prefix { kind, first, second: String::new(), end };
    assert(r.second@ =~= seq![]);
    r
}

/// Reads the two names of a share that start at an index: the names, where each
/// ends, and where the second starts.
fn share_names(cs: &Vec<char>, at: usize, c: char) -> (r: (usize, usize, usize))
    requires
        at <= cs@.len(),
    ensures
        r.0 == name_end(cs@, at as int, c),
        r.1 == next_name(cs@, r.0 as int),
        r.2 == name_end(cs@, r.1 as int, c),
        at <= r.0 <= r.1 <= r.2 <= cs@.len(),
{
    let i = index_of_char(cs, at, c);
    let from: usize = if i < cs.len() {
        i + 1
    } else {
        i
    };
    let j = index_of_char(cs, from, c);
    (i, from, j)
}

fn read_verbatim_prefix(cs: &Vec<char>) -> (r: Prefix)
    requires
        is_verbatim(cs@),
    ensures
        r@ == verbatim_prefix(cs@),
        r.end <= cs@.len(),
{
    if cs.len() >= 8 && cs[4] == 'U' && cs[5] == 'N' && cs[6] == 'C' && separator(cs[7]) {
        let (i, from, j) = share_names(cs, 8, '\\');
        return Prefix {
            kind: PrefixKind::VerbatimShare,
            first: text_of_range(cs, 8, i),
            second: text_of_range(cs, from, j),
            end: if from < j {
                j
            } else {
                i
            },
        };
    }
    if has_drive_at(cs, 4) && (cs.len() == 6 || separator(cs[6])) {
        return prefix_of(PrefixKind::VerbatimDisk, drive_name(cs[4]), 6);
    }
    let i = index_of_char(cs, 4, '\\');
    prefix_of(PrefixKind::Verbatim, text_of_range(cs, 4, i), i)
}

fn read_slashed_prefix(cs: &Vec<char>) -> (r: Prefix)
    ensures
        r@ == slashed_prefix(cs@),
        r.end <= cs@.len(),
{
    if cs.len() >= 2 && separator(cs[0]) && separator(cs[1]) {
        if cs.len() >= 4 && cs[2] == '.' && cs[3] == '/' {
            let i = index_of_char(cs, 4, '/');
            return prefix_of(PrefixKind::Device, text_of_range(cs, 4, i), i);
        }
        let (i, from, j) = share_names(cs, 2, '/');
        if 2 < i && from < j {
            return Prefix {
                kind: PrefixKind::Share,
                first: text_of_range(cs, 2, i),
                second: text_of_range(cs, from, j),
                end: j,
            };
        }
    } else if has_drive_at(cs, 0) {
        return prefix_of(PrefixKind::Disk, drive_name(cs[0]), 2);
    }
    let none = String::new();
    assert(none@ =~= seq![]);
    prefix_of(PrefixKind::Plain, none, 0)
}

fn verbatim_parts(cs: &Vec<char>) -> (r: PathParts)
    requires
        is_verbatim(cs@),
    ensures
        r.shape() == windows_shape(cs@),
{
    let p = read_verbatim_prefix(cs);
    let rooted = p.end < cs.len() && separator(cs[p.end]);
    let from: usize = if rooted {
        p.end + 1
    } else {
        p.end
    };
    let body = text_of_range(cs, from, cs.len());
    proof {
        let rest = cs@.skip(p.end as int);
        assert(body@ =~= if rooted {
            rest.skip(1)
        } else {
            rest
        });
    }
    let pieces = split_text(body.as_str(), '\\');
    let names = names_of(&pieces, true);
    PathParts { kind: p.kind, first: p.first, second: p.second, rooted, dotted: false, names }
}

fn windows_parts(path: &str) -> (r: PathParts)
    ensures
        r.shape() == windows_shape(path@),
{
    let cs = chars_of(path);
    if cs.len() >= 4 && cs[0] == '\\' && cs[1] == '\\' && cs[2] == '?' && cs[3] == '\\' {
        return verbatim_parts(&cs);
    }
    let cs = slashed(&cs);
    let p = read_slashed_prefix(&cs);
    let rest = text_of_range(&cs, p.end, cs.len());
    assert(rest@ =~= cs@.skip(p.end as int));
    let plain = plain_parts(rest.as_str());
    PathParts {
        kind: p.kind,
        first: p.first,
        second: p.second,
        rooted: plain.rooted || p.kind == PrefixKind::Share || p.kind == PrefixKind::Device,
        dotted: plain.dotted && p.kind == PrefixKind::Plain,
        names: plain.names,
    }
}

fn same_names(a: &Vec<String>, b: &Vec<String>) -> (r: bool)
    ensures
        r == (text::texts(a@) == text::texts(b@)),
{
    if a.len() != b.len() {
        assert(text::texts(a@).len() != text::texts(b@).len());
        return false;
    }
    let mut i: usize = 0;
    while i < a.len()
        invariant
            i <= a@.len(),
            a@.len() == b@.len(),
            forall|k: int| 0 <= k < i ==> (#[trigger] text::texts(a@)[k]) == text::texts(b@)[k],
        decreases a@.len() - i,
    {
        if !same_text(a[i].as_str(), b[i].as_str()) {
            assert(text::texts(a@)[i as int] != text::texts(b@)[i as int]);
            return false;
        }
        i += 1;
    }
    assert(text::texts(a@) =~= text::texts(b@));
    true
}

fn same_parts(a: &PathParts, b: &PathParts) -> (r: bool)
    ensures
        r == (a.shape() == b.shape()),
{
    let r = a.kind == b.kind && same_text(a.first.as_str(), b.first.as_str()) && same_text(
        a.second.as_str(),
        b.second.as_str(),
    ) && a.rooted == b.rooted && a.dotted == b.dotted && same_names(&a.names, &b.names);
    assert(r ==> a.shape() =~= b.shape());
    r
}

/// Whether two paths have the same components.
pub fn have_same_components(left: &str, right: &str, windows: bool) -> (r: bool)
    ensures
        r == same_components(left@, right@, windows),
{
    if windows {
        let a = windows_parts(left);
        let b = windows_parts(right);
        same_parts(&a, &b)
    } else {
        let a = plain_parts(left);
        let b = plain_parts(right);
        same_parts(&a, &b)
    }
}

/// Both separators of Windows are the same, in every path whose names are not to be
/// taken as they are written.
pub proof fn law_separators_are_alike(a: Seq<char>, b: Seq<char>)
    requires
        with_slashes(a) == with_slashes(b),
        !is_verbatim(a),
        !is_verbatim(b),
    ensures
        same_components(a, b, true),
{
}

/// One more slash at the end of a path that is not empty does not make it another.
pub proof fn law_slash_at_the_end_counts_for_nothing(s: Seq<char>)
    requires
        s.len() > 0,
    ensures
        same_components(s.push('/'), s, false),
{
    lemma_split_push(s);
    let pieces = scan::split_on(s, '/');
    let longer = scan::split_on(s.push('/'), '/');
    assert(longer.drop_last() =~= pieces);
    assert(longer.last() == Seq::<char>::empty());
    assert(longer[0] == pieces[0]);
    assert(plain_shape(s.push('/')) =~= plain_shape(s));
}

/// A separator at the end adds one empty piece.
proof fn lemma_split_push(s: Seq<char>)
    ensures
        scan::split_on(s, '/').len() > 0,
        scan::split_on(s.push('/'), '/') == scan::split_on(s, '/').push(seq![]),
    decreases s.len(),
{
    let t = s.push('/');
    text::lemma_first_index(s, '/');
    text::lemma_first_index(t, '/');
    let i = text::first_index(s, '/');
    let j = text::first_index(t, '/');
    if 0 <= i < s.len() {
        assert(t[i] == '/');
        assert(j == i);
        assert(t.take(i) =~= s.take(i));
        assert(t.skip(i + 1) =~= s.skip(i + 1).push('/'));
        lemma_split_push(s.skip(i + 1));
        assert(scan::split_on(t, '/') =~= scan::split_on(s, '/').push(seq![]));
    } else {
        assert(t[s.len() as int] == '/');
        assert(j == s.len());
        assert(t.take(j) =~= s);
        let rest = t.skip(j + 1);
        assert(rest =~= Seq::<char>::empty());
        text::lemma_first_index(rest, '/');
        assert(scan::split_on(rest, '/') =~= seq![Seq::<char>::empty()]);
        assert(scan::split_on(t, '/') =~= seq![s, Seq::<char>::empty()]);
    }
}

} // verus!
