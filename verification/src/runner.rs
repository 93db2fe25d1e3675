//! Packages that npm and uv have installed, which their runners could start. They
//! are found by the lists that these tools print; nothing is started.

use vstd::prelude::*;
use vstd::string::*;
use vstd::utf8::*;

use crate::decode::str_from_utf8;
use crate::digest::StableFileFingerprint;
use crate::observation;
use crate::observation::{
    unverified_assessment, windows_executable_identity_fingerprint, CandidateCategory,
    DiscoveryDiagnosticCode, DiscoveryEvidence, DiscoveryState, Observation,
    ObservationFingerprint, ObservationLocator, ObservationSourceKind, ObservationTrustLevel,
    RunnerInstallationMetadata, LOCAL_DISCOVERY_UNKNOWN_CONNECTOR_ID,
    LOCAL_DISCOVERY_UNKNOWN_RUNTIME_TYPE,
};
use crate::event::copy_text;
use crate::order;
use crate::order::text_precedes;
use crate::paths;
use crate::paths::plain_text;
use crate::scan;
use crate::scan::{has_char, split_text};
use crate::text;
use crate::text::{
    alphanumeric, bytes_len, chars_of, joined, lines_of, lowered, same_text, text_of_range,
    trimmed,
};

verus! {

pub const MAX_RUNNER_INSTALLATIONS: usize = 128;

pub const MAX_RUNNER_SEARCH_DIRECTORIES: usize = 256;

pub const MAX_RUNNER_COMMAND_OUTPUT_BYTES: usize = 262_144;

/// A part of the name of a package.
pub open spec fn is_name_part(s: Seq<char>) -> bool {
    &&& 0 < s.len()
    &&& text::byte_len(s) <= 128
    &&& forall|i: int|
        0 <= i < s.len() ==> text::is_alphanumeric(#[trigger] s[i]) || s[i] == '.' || s[i] == '_'
            || s[i] == '-'
}

pub fn valid_runner_name_part(value: &str) -> (r: bool)
    ensures
        r == is_name_part(value@),
{
    let cs = chars_of(value);
    if cs.len() == 0 || bytes_len(value) > 128 {
        return false;
    }
    let mut i: usize = 0;
    while i < cs.len()
        invariant
            i <= cs@.len(),
            cs@ == value@,
            forall|k: int|
                0 <= k < i ==> text::is_alphanumeric(#[trigger] value@[k]) || value@[k] == '.'
                    || value@[k] == '_' || value@[k] == '-',
        decreases cs@.len() - i,
    {
        let c = cs[i];
        if !(alphanumeric(c) || c == '.' || c == '_' || c == '-') {
            assert(value@[i as int] == c);
            return false;
        }
        i += 1;
    }
    true
}

/// The version of a package.
pub open spec fn is_version(s: Seq<char>) -> bool {
    &&& 0 < s.len()
    &&& text::byte_len(s) <= 64
    &&& forall|i: int|
        0 <= i < s.len() ==> text::is_alphanumeric(#[trigger] s[i]) || s[i] == '.' || s[i] == '-'
            || s[i] == '+'
}

pub fn valid_runner_version(value: &str) -> (r: bool)
    ensures
        r == is_version(value@),
{
    let cs = chars_of(value);
    if cs.len() == 0 || bytes_len(value) > 64 {
        return false;
    }
    let mut i: usize = 0;
    while i < cs.len()
        invariant
            i <= cs@.len(),
            cs@ == value@,
            forall|k: int|
                0 <= k < i ==> text::is_alphanumeric(#[trigger] value@[k]) || value@[k] == '.'
                    || value@[k] == '-' || value@[k] == '+',
        decreases cs@.len() - i,
    {
        let c = cs[i];
        if !(alphanumeric(c) || c == '.' || c == '-' || c == '+') {
            assert(value@[i as int] == c);
            return false;
        }
        i += 1;
    }
    true
}

/// The name of an npm package: one part, or a scope behind an at sign and a part.
pub open spec fn is_npm_name(s: Seq<char>) -> bool {
    let scoped = s.len() > 0 && s[0] == '@';
    let parts = scan::split_on(
        if scoped {
            s.drop_first()
        } else {
            s
        },
        '/',
    );
    if scoped {
        parts.len() == 2 && is_name_part(parts[0]) && is_name_part(parts[1])
    } else {
        parts.len() == 1 && is_name_part(parts[0])
    }
}

pub fn valid_npm_runner_package_name(value: &str) -> (r: bool)
    ensures
        r == is_npm_name(value@),
{
    let cs = chars_of(value);
    let scoped = cs.len() > 0 && cs[0] == '@';
    let name = if scoped {
        text_of_range(&cs, 1, cs.len())
    } else {
        value.to_owned()
    };
    proof {
        if scoped {
            assert(name@ =~= value@.drop_first());
        }
    }
    let parts = split_text(name.as_str(), '/');
    let ghost all = text::texts(parts@);
    if scoped {
        if parts.len() != 2 {
            return false;
        }
        assert(all[0] == parts@[0]@ && all[1] == parts@[1]@);
        valid_runner_name_part(parts[0].as_str()) && valid_runner_name_part(parts[1].as_str())
    } else {
        if parts.len() != 1 {
            return false;
        }
        assert(all[0] == parts@[0]@);
        valid_runner_name_part(parts[0].as_str())
    }
}

/// The name of a package of uv.
pub open spec fn is_uvx_name(s: Seq<char>) -> bool {
    !s.contains('/') && is_name_part(s)
}

pub fn valid_uvx_runner_package_name(value: &str) -> (r: bool)
    ensures
        r == is_uvx_name(value@),
{
    !has_char(value, '/') && valid_runner_name_part(value)
}

/// The id of a package: its name in lower case, an at sign and its version.
pub open spec fn package_id(runner: Seq<char>, name: Seq<char>, version: Seq<char>) -> Option<
    Seq<char>,
> {
    let valid_name = if runner == "npx"@ {
        is_npm_name(name)
    } else if runner == "uvx"@ {
        is_uvx_name(name)
    } else {
        false
    };
    if valid_name && is_version(version) {
        Some(text::lower(name) + "@"@ + version)
    } else {
        None
    }
}

pub fn canonical_runner_package_id(runner_kind: &str, name: &str, version: &str) -> (r: Option<
    String,
>)
    ensures
        text::opt_text(r) == package_id(runner_kind@, name@, version@),
{
    let valid_name = if same_text(runner_kind, "npx") {
        valid_npm_runner_package_name(name)
    } else if same_text(runner_kind, "uvx") {
        valid_uvx_runner_package_name(name)
    } else {
        false
    };
    if valid_name && valid_runner_version(version) {
        let id = joined(lowered(name).as_str(), "@");
        Some(joined(id.as_str(), version))
    } else {
        None
    }
}

/// A text that is not empty, not too long, and can be shown.
pub open spec fn is_safe_text(s: Seq<char>, max: nat) -> bool {
    s.len() > 0 && text::byte_len(s) <= max && paths::is_plain(s)
}

pub fn safe_runner_text(value: &str, max_len: usize) -> (r: bool)
    ensures
        r == is_safe_text(value@, max_len as nat),
{
    !value.is_empty() && bytes_len(value) <= max_len && plain_text(value)
}

/// A package that a runner could start.
#[derive(Debug)]
pub struct RunnerPackageRecord {
    pub package_name: String,
    pub resolved_version: String,
    pub install_root: String,
    pub package_integrity: Option<String>,
}

#[verifier::ext_equal]
pub struct RecordView {
    pub package_name: Seq<char>,
    pub resolved_version: Seq<char>,
    pub install_root: Seq<char>,
    pub package_integrity: Option<Seq<char>>,
}

impl View for RunnerPackageRecord {
    type V = RecordView;

    open spec fn view(&self) -> RecordView {
        RecordView {
            package_name: self.package_name@,
            resolved_version: self.resolved_version@,
            install_root: self.install_root@,
            package_integrity: text::opt_text(self.package_integrity),
        }
    }
}

pub open spec fn record_views(records: Seq<RunnerPackageRecord>) -> Seq<RecordView> {
    Seq::new(records.len(), |i: int| records[i]@)
}

/// One package in the list that npm prints.
#[derive(Debug)]
pub struct NpmDependency {
    pub name: String,
    pub version: Option<String>,
    pub integrity: Option<String>,
}

/// The list that npm prints of the packages that are installed for all.
#[derive(Debug)]
pub struct NpmList {
    pub path: Option<String>,
    /// The packages, in the order of their names.
    pub dependencies: Vec<NpmDependency>,
}

pub const MAX_ROOT_BYTES: usize = 1_024;

pub const MAX_INTEGRITY_BYTES: usize = 512;

/// The record of a package, if it has a version and a name that is in order.
pub open spec fn npm_record(root: Seq<char>, d: NpmDependency) -> Option<RecordView> {
    match d.version {
        None => None,
        Some(version) => if package_id("npx"@, d.name@, version@) is None {
            None
        } else {
            Some(
                RecordView {
                    package_name: d.name@,
                    resolved_version: version@,
                    install_root: root,
                    package_integrity: match d.integrity {
                        Some(s) => if is_safe_text(s@, MAX_INTEGRITY_BYTES as nat) {
                            Some(s@)
                        } else {
                            None
                        },
                        None => None,
                    },
                },
            )
        },
    }
}

/// The records of packages.
pub open spec fn npm_records(root: Seq<char>, all: Seq<NpmDependency>) -> Seq<RecordView>
    decreases all.len(),
{
    if all.len() == 0 {
        seq![]
    } else {
        let before = npm_records(root, all.drop_last());
        match npm_record(root, all.last()) {
            Some(r) => before.push(r),
            None => before,
        }
    }
}

/// Takes the list that npm prints. `absolute` says whether the path of the list
/// starts at a root; a list without such a path is not taken.
pub fn npm_global_records(list: &NpmList, absolute: bool) -> (r: Result<
    Vec<RunnerPackageRecord>,
    DiscoveryDiagnosticCode,
>)
    ensures
        match r {
            Ok(records) => list.path matches Some(root) && is_safe_text(
                root@,
                MAX_ROOT_BYTES as nat,
            ) && absolute && record_views(records@) == npm_records(root@, list.dependencies@),
            Err(code) => code == DiscoveryDiagnosticCode::InvalidSourceRecord && match list.path {
                Some(root) => !(is_safe_text(root@, MAX_ROOT_BYTES as nat) && absolute),
                None => true,
            },
        },
{
    let root = match &list.path {
        Some(root) => root,
        None => {
            return Err(DiscoveryDiagnosticCode::InvalidSourceRecord);
        },
    };
    if !safe_runner_text(root.as_str(), MAX_ROOT_BYTES) || !absolute {
        return Err(DiscoveryDiagnosticCode::InvalidSourceRecord);
    }
    let ghost all = list.dependencies@;
    let mut records: Vec<RunnerPackageRecord> = Vec::new();
    let mut i: usize = 0;
    assert(all.take(0) =~= seq![]);
    assert(record_views(records@) =~= seq![]);
    while i < list.dependencies.len()
        invariant
            i <= all.len(),
            all == list.dependencies@,
            record_views(records@) == npm_records(root@, all.take(i as int)),
        decreases all.len() - i,
    {
        proof {
            assert(all.take(i + 1).drop_last() =~= all.take(i as int));
            assert(all.take(i + 1).last() == all[i as int]);
        }
        let d = &list.dependencies[i];
        if let Some(version) = &d.version {
            if canonical_runner_package_id("npx", d.name.as_str(), version.as_str()).is_some() {
                let package_integrity = match &d.integrity {
                    Some(s) => if safe_runner_text(s.as_str(), MAX_INTEGRITY_BYTES) {
                        Some(s.clone())
                    } else {
                        None
                    },
                    None => None,
                };
                let record = RunnerPackageRecord {
                    package_name: d.name.clone(),
                    resolved_version: version.clone(),
                    install_root: root.clone(),
                    package_integrity,
                };
                let ghost before = records@;
                records.push(record);
                assert(record_views(records@) =~= record_views(before).push(record@));
            }
        }
        i += 1;
    }
    assert(all.take(i as int) =~= all);
    Ok(records)
}

/// The white space of ASCII.
pub open spec fn is_ascii_space(c: char) -> bool {
    c == ' ' || c == '\t' || c == '\n' || c == '\x0c' || c == '\r'
}

fn ascii_space(c: char) -> (r: bool)
    ensures
        r == is_ascii_space(c),
{
    c == ' ' || c == '\t' || c == '\n' || c == '\x0c' || c == '\r'
}

/// The words of a line that ASCII white space stands between, behind a word that
/// has begun.
pub open spec fn line_words(line: Seq<char>, word: Seq<char>) -> Seq<Seq<char>>
    decreases line.len(),
{
    let whole = if word.len() > 0 {
        seq![word]
    } else {
        seq![]
    };
    if line.len() == 0 {
        whole
    } else if is_ascii_space(line[0]) {
        whole + line_words(line.drop_first(), seq![])
    } else {
        line_words(line.drop_first(), word.push(line[0]))
    }
}

fn words_of_line(line: &str) -> (r: Vec<String>)
    ensures
        text::texts(r@) == line_words(line@, seq![]),
{
    let cs = chars_of(line);
    let mut out: Vec<String> = Vec::new();
    let mut word = String::new();
    let mut i: usize = 0;
    assert(word@ =~= seq![]);
    assert(cs@.skip(0) =~= line@);
    assert(text::texts(out@) + line_words(line@, seq![]) =~= line_words(line@, seq![]));
    while i < cs.len()
        invariant
            i <= cs@.len(),
            cs@ == line@,
            line_words(line@, seq![]) == text::texts(out@) + line_words(
                cs@.skip(i as int),
                word@,
            ),
        decreases cs@.len() - i,
    {
        let c = cs[i];
        let ghost before = text::texts(out@);
        let ghost rest = cs@.skip(i as int);
        proof {
            assert(rest[0] == c);
            assert(rest.drop_first() =~= cs@.skip(i + 1));
        }
        if ascii_space(c) {
            let ghost tail = line_words(cs@.skip(i + 1), seq![]);
            if !word.as_str().is_empty() {
                let done = word.clone();
                proof {
                    assert(text::texts(out@.push(done)) =~= before.push(word@));
                    assert(before + (seq![word@] + tail) =~= before.push(word@) + tail);
                }
                out.push(done);
            } else {
                assert(word@.len() == 0);
                assert(seq![] + tail =~= tail);
            }
            word = String::new();
            assert(word@ =~= seq![]);
        } else {
            word.push(c);
        }
        i += 1;
    }
    let ghost before = text::texts(out@);
    assert(cs@.skip(i as int) =~= seq![]);
    if !word.as_str().is_empty() {
        let ghost last = word@;
        out.push(word);
        assert(text::texts(out@) =~= before + seq![last]);
    } else {
        assert(before + line_words(seq![], word@) =~= before);
    }
    out
}

/// The name and the version of a tool that a line tells: two words, the second
/// with an optional `v` before it.
pub open spec fn tool_of_line(line: Seq<char>) -> Option<(Seq<char>, Seq<char>)> {
    let w = line_words(line, seq![]);
    if w.len() != 2 {
        None
    } else {
        let version = if w[1].len() > 0 && w[1][0] == 'v' {
            w[1].drop_first()
        } else {
            w[1]
        };
        if package_id("uvx"@, w[0], version) is None {
            None
        } else {
            Some((text::lower(w[0]), version))
        }
    }
}

fn tool_in_line(line: &str) -> (r: Option<(String, String)>)
    ensures
        match r {
            Some((name, version)) => tool_of_line(line@) == Some((name@, version@)),
            None => tool_of_line(line@) is None,
        },
{
    let w = words_of_line(line);
    let ghost all = text::texts(w@);
    if w.len() != 2 {
        return None;
    }
    assert(all[0] == w@[0]@ && all[1] == w@[1]@);
    let cs = chars_of(w[1].as_str());
    let version = if cs.len() > 0 && cs[0] == 'v' {
        text_of_range(&cs, 1, cs.len())
    } else {
        w[1].clone()
    };
    proof {
        if cs@.len() > 0 && cs@[0] == 'v' {
            assert(version@ =~= w@[1]@.drop_first());
        }
    }
    if canonical_runner_package_id("uvx", w[0].as_str(), version.as_str()).is_none() {
        return None;
    }
    Some((lowered(w[0].as_str()), version))
}

/// The order of pairs of texts.
pub open spec fn pair_less(a: (Seq<char>, Seq<char>), b: (Seq<char>, Seq<char>)) -> bool {
    order::text_less(a.0, b.0) || (a.0 == b.0 && order::text_less(a.1, b.1))
}

/// Where a pair belongs in a sorted list: behind the last one that is less.
pub open spec fn pair_place(
    all: Seq<(Seq<char>, Seq<char>)>,
    x: (Seq<char>, Seq<char>),
) -> int
    decreases all.len(),
{
    if all.len() == 0 {
        0
    } else if pair_less(all.last(), x) {
        all.len() as int
    } else {
        pair_place(all.drop_last(), x)
    }
}

/// A sorted list with one more pair, unless it is there.
pub open spec fn put_pair(
    all: Seq<(Seq<char>, Seq<char>)>,
    x: (Seq<char>, Seq<char>),
) -> Seq<(Seq<char>, Seq<char>)> {
    let p = pair_place(all, x);
    if p < all.len() && all[p] == x {
        all
    } else {
        all.insert(p, x)
    }
}

/// The tools that lines tell, sorted and each once.
pub open spec fn tools_of_lines(lines: Seq<Seq<char>>) -> Seq<(Seq<char>, Seq<char>)>
    decreases lines.len(),
{
    if lines.len() == 0 {
        seq![]
    } else {
        let before = tools_of_lines(lines.drop_last());
        match tool_of_line(lines.last()) {
            Some(t) => put_pair(before, t),
            None => before,
        }
    }
}

pub open spec fn pair_views(pairs: Seq<(String, String)>) -> Seq<(Seq<char>, Seq<char>)> {
    Seq::new(pairs.len(), |i: int| (pairs[i].0@, pairs[i].1@))
}

fn pair_precedes(a: &(String, String), b: &(String, String)) -> (r: bool)
    ensures
        r == pair_less((a.0@, a.1@), (b.0@, b.1@)),
{
    if text_precedes(a.0.as_str(), b.0.as_str()) {
        return true;
    }
    same_text(a.0.as_str(), b.0.as_str()) && text_precedes(a.1.as_str(), b.1.as_str())
}

proof fn lemma_pair_place(all: Seq<(Seq<char>, Seq<char>)>, x: (Seq<char>, Seq<char>))
    ensures
        0 <= pair_place(all, x) <= all.len(),
    decreases all.len(),
{
    if all.len() > 0 {
        lemma_pair_place(all.drop_last(), x);
    }
}

fn insert_pair(pairs: &mut Vec<(String, String)>, x: (String, String))
    ensures
        pair_views(final(pairs)@) == put_pair(pair_views(old(pairs)@), (x.0@, x.1@)),
{
    let ghost all = pair_views(pairs@);
    let ghost want = (x.0@, x.1@);
    let mut p: usize = pairs.len();
    assert(all.take(p as int) =~= all);
    while p > 0 && !pair_precedes(&pairs[p - 1], &x)
        invariant
            p <= pairs@.len(),
            all == pair_views(pairs@),
            want == (x.0@, x.1@),
            pair_place(all, want) == pair_place(all.take(p as int), want),
        decreases p,
    {
        assert(all.take(p as int).last() == (pairs@[p - 1].0@, pairs@[p - 1].1@));
        assert(all.take(p as int).drop_last() =~= all.take(p - 1));
        p -= 1;
    }
    proof {
        if p > 0 {
            assert(all.take(p as int).last() == (pairs@[p - 1].0@, pairs@[p - 1].1@));
        }
        lemma_pair_place(all, want);
    }
    if p < pairs.len() && same_text(pairs[p].0.as_str(), x.0.as_str()) && same_text(
        pairs[p].1.as_str(),
        x.1.as_str(),
    ) {
        assert(all[p as int] == want);
        return ;
    }
    proof {
        if p < pairs@.len() {
            assert(all[p as int] == (pairs@[p as int].0@, pairs@[p as int].1@));
        }
    }
    pairs.insert(p, x);
    assert(pair_views(pairs@) =~= all.insert(p as int, want));
}

/// The most lines that are read of the list that uv prints.
pub const MAX_TOOL_LINES: usize = 256;

/// The tools in the list that uv prints. What is no text tells none.
pub open spec fn uv_tools(bytes: Seq<u8>) -> Seq<(Seq<char>, Seq<char>)> {
    if !valid_utf8(bytes) {
        seq![]
    } else {
        let all = text::lines(decode_utf8(bytes));
        tools_of_lines(
            if all.len() <= MAX_TOOL_LINES {
                all
            } else {
                all.take(MAX_TOOL_LINES as int)
            },
        )
    }
}

pub fn parse_uv_tool_list(bytes: &Vec<u8>) -> (r: Vec<(String, String)>)
    ensures
        pair_views(r@) == uv_tools(bytes@),
{
    let mut tools: Vec<(String, String)> = Vec::new();
    assert(pair_views(tools@) =~= seq![]);
    let content = match str_from_utf8(bytes) {
        Some(s) => s,
        None => {
            return tools;
        },
    };
    let lines = lines_of(content.as_str());
    let ghost all = text::lines(content@);
    let n: usize = if lines.len() <= MAX_TOOL_LINES {
        lines.len()
    } else {
        MAX_TOOL_LINES
    };
    let mut i: usize = 0;
    assert(all.take(0) =~= seq![]);
    while i < n
        invariant
            i <= n <= lines@.len(),
            all == text::texts(lines@),
            pair_views(tools@) == tools_of_lines(all.take(i as int)),
        decreases n - i,
    {
        proof {
            assert(all.take(i + 1).drop_last() =~= all.take(i as int));
            assert(all.take(i + 1).last() == lines@[i as int]@);
        }
        if let Some(tool) = tool_in_line(lines[i].as_str()) {
            insert_pair(&mut tools, tool);
        }
        i += 1;
    }
    assert(lines@.len() <= MAX_TOOL_LINES ==> all.take(i as int) =~= all);
    tools
}

/// The directory of the tools, in what uv prints.
pub open spec fn install_root(bytes: Seq<u8>) -> Option<Seq<char>> {
    if valid_utf8(bytes) && is_safe_text(
        text::trim(decode_utf8(bytes)),
        MAX_ROOT_BYTES as nat,
    ) {
        Some(text::trim(decode_utf8(bytes)))
    } else {
        None
    }
}

/// Reads the directory of the tools. It counts only if it starts at a root, which
/// the caller finds out.
pub fn parse_runner_install_root(bytes: &Vec<u8>) -> (r: Option<String>)
    ensures
        text::opt_text(r) == install_root(bytes@),
{
    match str_from_utf8(bytes) {
        Some(s) => {
            let t = trimmed(s.as_str());
            if safe_runner_text(t.as_str(), MAX_ROOT_BYTES) {
                Some(t)
            } else {
                None
            }
        },
        None => None,
    }
}

/// The records of the tools of uv.
pub open spec fn uvx_records(tools: Seq<(Seq<char>, Seq<char>)>, root: Seq<char>) -> Seq<
    RecordView,
> {
    Seq::new(
        tools.len(),
        |i: int|
            RecordView {
                package_name: tools[i].0,
                resolved_version: tools[i].1,
                install_root: root,
                package_integrity: None,
            },
    )
}

pub fn uvx_tool_records(tools: &Vec<(String, String)>, root: &str) -> (r: Vec<RunnerPackageRecord>)
    ensures
        record_views(r@) == uvx_records(pair_views(tools@), root@),
{
    let mut r: Vec<RunnerPackageRecord> = Vec::new();
    let ghost want = uvx_records(pair_views(tools@), root@);
    let mut i: usize = 0;
    while i < tools.len()
        invariant
            i <= tools@.len(),
            want == uvx_records(pair_views(tools@), root@),
            record_views(r@) == want.take(i as int),
        decreases tools@.len() - i,
    {
        let record = RunnerPackageRecord {
            package_name: tools[i].0.clone(),
            resolved_version: tools[i].1.clone(),
            install_root: root.to_owned(),
            package_integrity: None,
        };
        proof {
            assert(record_views(r@.push(record)) =~= record_views(r@).push(record@));
            assert(want.take(i + 1) =~= want.take(i as int).push(record@));
        }
        r.push(record);
        i += 1;
    }
    assert(want.take(i as int) =~= want);
    r
}

/// The first installations, no more than are looked at.
pub open spec fn first_installations(records: Seq<RecordView>) -> Seq<RecordView> {
    if records.len() <= MAX_RUNNER_INSTALLATIONS {
        records
    } else {
        records.take(MAX_RUNNER_INSTALLATIONS as int)
    }
}

fn keep_first(records: &mut Vec<RunnerPackageRecord>)
    ensures
        record_views(final(records)@) == first_installations(record_views(old(records)@)),
{
    let ghost before = records@;
    if records.len() > MAX_RUNNER_INSTALLATIONS {
        records.truncate(MAX_RUNNER_INSTALLATIONS);
        assert(record_views(records@) =~= record_views(before).take(
            MAX_RUNNER_INSTALLATIONS as int,
        ));
    }
}

/// What npm lists: the packages, or why there is no list.
pub open spec fn npm_inventory(
    list: Result<NpmList, DiscoveryDiagnosticCode>,
    absolute: bool,
) -> Result<Seq<RecordView>, DiscoveryDiagnosticCode> {
    match list {
        Err(code) => Err(code),
        Ok(list) => match list.path {
            Some(root) => if absolute && is_safe_text(root@, MAX_ROOT_BYTES as nat) {
                Ok(first_installations(npm_records(root@, list.dependencies@)))
            } else {
                Err(DiscoveryDiagnosticCode::InvalidSourceRecord)
            },
            None => Err(DiscoveryDiagnosticCode::InvalidSourceRecord),
        },
    }
}

/// What uv lists: `list` and `root` are what it prints when it is asked for the
/// tools and for their directory, `absolute` says whether that starts at a root.
pub open spec fn uvx_inventory(
    list: Result<Seq<u8>, DiscoveryDiagnosticCode>,
    root: Result<Seq<u8>, DiscoveryDiagnosticCode>,
    absolute: bool,
) -> Result<Seq<RecordView>, DiscoveryDiagnosticCode> {
    match (list, root) {
        (Err(code), _) => Err(code),
        (_, Err(code)) => Err(code),
        (Ok(list), Ok(root)) => match install_root(root) {
            Some(root) => if absolute {
                Ok(first_installations(uvx_records(uv_tools(list), root)))
            } else {
                Err(DiscoveryDiagnosticCode::InvalidSourceRecord)
            },
            None => Err(DiscoveryDiagnosticCode::InvalidSourceRecord),
        },
    }
}

pub open spec fn inventory_view(r: Result<Vec<RunnerPackageRecord>, DiscoveryDiagnosticCode>) -> Result<
    Seq<RecordView>,
    DiscoveryDiagnosticCode,
> {
    match r {
        Ok(records) => Ok(record_views(records@)),
        Err(code) => Err(code),
    }
}

pub open spec fn printed(r: Result<Vec<u8>, DiscoveryDiagnosticCode>) -> Result<
    Seq<u8>,
    DiscoveryDiagnosticCode,
> {
    match r {
        Ok(bytes) => Ok(bytes@),
        Err(code) => Err(code),
    }
}

/// The packages that npx could start and that are looked at.
pub fn npm_installations(list: Result<NpmList, DiscoveryDiagnosticCode>, absolute: bool) -> (r:
    Result<Vec<RunnerPackageRecord>, DiscoveryDiagnosticCode>)
    ensures
        inventory_view(r) == npm_inventory(list, absolute),
{
    match list {
        Ok(list) => match npm_global_records(&list, absolute) {
            Ok(records) => {
                let mut records = records;
                keep_first(&mut records);
                Ok(records)
            },
            Err(code) => Err(code),
        },
        Err(code) => Err(code),
    }
}

/// The tools that uvx could start and that are looked at.
pub fn uvx_installations(
    list: Result<Vec<u8>, DiscoveryDiagnosticCode>,
    root: Result<Vec<u8>, DiscoveryDiagnosticCode>,
    absolute: bool,
) -> (r: Result<Vec<RunnerPackageRecord>, DiscoveryDiagnosticCode>)
    ensures
        inventory_view(r) == uvx_inventory(printed(list), printed(root), absolute),
{
    let list = match list {
        Ok(bytes) => bytes,
        Err(code) => {
            return Err(code);
        },
    };
    let root = match root {
        Ok(bytes) => bytes,
        Err(code) => {
            return Err(code);
        },
    };
    match parse_runner_install_root(&root) {
        Some(root) => if absolute {
            let tools = parse_uv_tool_list(&list);
            let mut records = uvx_tool_records(&tools, root.as_str());
            keep_first(&mut records);
            Ok(records)
        } else {
            Err(DiscoveryDiagnosticCode::InvalidSourceRecord)
        },
        None => Err(DiscoveryDiagnosticCode::InvalidSourceRecord),
    }
}

/// The observation of a package that a runner could start.
pub open spec fn runner_installation(
    runner_kind: Seq<char>,
    runner: Seq<char>,
    stable_identity: Seq<char>,
    content_sha256: Seq<char>,
    record: RecordView,
    id: Seq<char>,
    tree_digest: Seq<char>,
) -> observation::ObservationView {
    observation::ObservationView {
        locator: observation::LocatorView::Executable(runner),
        fingerprint: seq![
            "runner-installation"@,
            runner_kind,
            stable_identity,
            content_sha256,
            tree_digest,
        ],
        association_fingerprints: seq![observation::executable_identity(stable_identity)],
        package_ids: seq![id],
        runner_installation: Some(
            observation::RunnerView {
                runner_kind,
                package_name: record.package_name,
                resolved_version: record.resolved_version,
                install_root: record.install_root,
                package_integrity: record.package_integrity,
                package_tree_digest: tree_digest,
                runner_executable_identity: stable_identity,
                runner_executable_sha256: content_sha256,
            },
        ),
        assessment: observation::unverified(
            ObservationSourceKind::ExecutableInventory,
            CandidateCategory::AgentRuntime,
            ObservationTrustLevel::Heuristic,
            DiscoveryState::Observed,
        ),
        connector_id: LOCAL_DISCOVERY_UNKNOWN_CONNECTOR_ID@,
        runtime_type: LOCAL_DISCOVERY_UNKNOWN_RUNTIME_TYPE@,
        display_name: runner_kind + " "@ + record.package_name + "@"@ + record.resolved_version,
        models: seq![],
        catalog_revision: None,
        evidence_summary: seq![
            DiscoveryEvidence::ExecutableInventory,
            DiscoveryEvidence::InstallKnown,
        ],
        diagnostics: seq![],
    }
}

/// The observation of a package, or why it is not taken. `directory_found` says
/// whether its directory lies where it must, `tree_digest` what came of reading
/// its files.
pub fn runner_installation_observation(
    runner_kind: &str,
    runner: &str,
    runner_fingerprint: &StableFileFingerprint,
    record: &RunnerPackageRecord,
    directory_found: bool,
    tree_digest: &Result<String, DiscoveryDiagnosticCode>,
) -> (r: Result<Observation, DiscoveryDiagnosticCode>)
    ensures
        match (
            package_id(runner_kind@, record@.package_name, record@.resolved_version),
            directory_found,
            *tree_digest,
        ) {
            (Some(id), true, Ok(digest)) => r matches Ok(o) && o@ == runner_installation(
                runner_kind@,
                runner@,
                runner_fingerprint.stable_identity@,
                runner_fingerprint.content_sha256@,
                record@,
                id,
                digest@,
            ),
            (Some(_), true, Err(code)) => r == Err::<Observation, DiscoveryDiagnosticCode>(code),
            _ => r == Err::<Observation, DiscoveryDiagnosticCode>(
                DiscoveryDiagnosticCode::InvalidSourceRecord,
            ),
        },
{
    let id = match canonical_runner_package_id(
        runner_kind,
        record.package_name.as_str(),
        record.resolved_version.as_str(),
    ) {
        Some(id) => id,
        None => {
            return Err(DiscoveryDiagnosticCode::InvalidSourceRecord);
        },
    };
    if !directory_found {
        return Err(DiscoveryDiagnosticCode::InvalidSourceRecord);
    }
    let digest = match tree_digest {
        Ok(s) => s,
        Err(code) => {
            return Err(*code);
        },
    };
    let ghost want = runner_installation(
        runner_kind@,
        runner@,
        runner_fingerprint.stable_identity@,
        runner_fingerprint.content_sha256@,
        record@,
        id@,
        digest@,
    );
    let identity = runner_fingerprint.stable_identity.as_str();
    let fingerprint = ObservationFingerprint::of_two("runner-installation", runner_kind).and(
        identity,
    ).and(runner_fingerprint.content_sha256.as_str()).and(digest.as_str());
    let mut association_fingerprints: Vec<ObservationFingerprint> = Vec::new();
    association_fingerprints.push(windows_executable_identity_fingerprint(identity));
    let mut package_ids: Vec<String> = Vec::new();
    package_ids.push(id);
    let mut evidence_summary: Vec<DiscoveryEvidence> = Vec::new();
    evidence_summary.push(DiscoveryEvidence::ExecutableInventory);
    evidence_summary.push(DiscoveryEvidence::InstallKnown);
    let mut display_name = runner_kind.to_owned();
    display_name.append(" ");
    display_name.append(record.package_name.as_str());
    display_name.append("@");
    display_name.append(record.resolved_version.as_str());
    let o = Observation {
        locator: ObservationLocator::Executable(runner.to_owned()),
        fingerprint,
        association_fingerprints,
        package_ids,
        runner_installation: Some(
            RunnerInstallationMetadata {
                runner_kind: runner_kind.to_owned(),
                package_name: record.package_name.clone(),
                resolved_version: record.resolved_version.clone(),
                install_root: record.install_root.clone(),
                package_integrity: copy_text(&record.package_integrity),
                package_tree_digest: digest.clone(),
                runner_executable_identity: runner_fingerprint.stable_identity.clone(),
                runner_executable_sha256: runner_fingerprint.content_sha256.clone(),
            },
        ),
        assessment: unverified_assessment(
            ObservationSourceKind::ExecutableInventory,
            CandidateCategory::AgentRuntime,
            ObservationTrustLevel::Heuristic,
            DiscoveryState::Observed,
        ),
        connector_id: LOCAL_DISCOVERY_UNKNOWN_CONNECTOR_ID.to_owned(),
        runtime_type: LOCAL_DISCOVERY_UNKNOWN_RUNTIME_TYPE.to_owned(),
        display_name,
        models: Vec::new(),
        catalog_revision: None,
        evidence_summary,
        diagnostics: Vec::new(),
    };
    proof {
        assert(o@.fingerprint =~= want.fingerprint);
        assert(o@.association_fingerprints =~= want.association_fingerprints);
        assert(o@.package_ids =~= want.package_ids);
        assert(o@.models =~= want.models);
        assert(o@.evidence_summary =~= want.evidence_summary);
        assert(o@.diagnostics =~= want.diagnostics);
    }
    Ok(o)
}

/// The output of a command, which must not be too long.
pub fn bounded_output(bytes: Vec<u8>, max_bytes: usize) -> (r: Result<
    Vec<u8>,
    DiscoveryDiagnosticCode,
>)
    ensures
        match r {
            Ok(b) => b@ == bytes@ && bytes@.len() <= max_bytes,
            Err(code) => bytes@.len() > max_bytes && code
                == DiscoveryDiagnosticCode::OversizedInput,
        },
{
    if bytes.len() <= max_bytes {
        Ok(bytes)
    } else {
        Err(DiscoveryDiagnosticCode::OversizedInput)
    }
}

/// A package's id ends in an at sign and the version.
pub proof fn law_package_id_is_plain(runner: Seq<char>, name: Seq<char>, version: Seq<char>)
    requires
        package_id(runner, name, version) is Some,
    ensures
        text::ends_with(package_id(runner, name, version)->0, "@"@ + version),
        is_version(version),
{
    let id = package_id(runner, name, version)->0;
    let tail = "@"@ + version;
    assert(id =~= text::lower(name) + tail);
    assert(id.subrange(id.len() - tail.len(), id.len() as int) =~= tail);
}

/// The directories below the root of an installation that lead to a package. A name
/// that is in order for neither tool leads nowhere.
pub open spec fn package_steps(runner_kind: Seq<char>, name: Seq<char>) -> Option<
    Seq<Seq<char>>,
> {
    if !is_npm_name(name) && !is_uvx_name(name) {
        None
    } else {
        Some(
            (if runner_kind == "npx"@ {
                seq!["node_modules"@]
            } else {
                seq![]
            }) + scan::split_on(name, '/'),
        )
    }
}

/// Finds the directories below the root of an installation that lead to a package.
pub fn runner_package_steps(runner_kind: &str, name: &str) -> (r: Option<Vec<String>>)
    ensures
        match r {
            Some(steps) => package_steps(runner_kind@, name@) == Some(text::texts(steps@)),
            None => package_steps(runner_kind@, name@) is None,
        },
{
    if !valid_npm_runner_package_name(name) && !valid_uvx_runner_package_name(name) {
        return None;
    }
    let parts = split_text(name, '/');
    if !same_text(runner_kind, "npx") {
        assert(Seq::<Seq<char>>::empty() + text::texts(parts@) =~= text::texts(parts@));
        return Some(parts);
    }
    let mut steps = parts;
    let ghost before = steps@;
    let first = "node_modules".to_owned();
    steps.insert(0, first);
    assert(text::texts(steps@) =~= seq![first@] + text::texts(before));
    Some(steps)
}

/// What was found when the directory of a package was looked for.
#[derive(Debug)]
pub enum PackageDirectory {
    /// The root or the directory is a link, or leads nowhere.
    Lost,
    /// Where the root and the directory lead, as lists of parts, and whether the
    /// latter is a directory.
    Found { root: Vec<String>, directory: Vec<String>, is_directory: bool },
}

/// Whether the directory of a package lies where it must: below the root of the
/// installation.
pub fn runner_package_directory(found: &PackageDirectory) -> (r: bool)
    ensures
        r == (*found matches PackageDirectory::Found { root, directory, is_directory }
            && is_directory && paths::is_under(text::texts(directory@), text::texts(root@))),
{
    match found {
        PackageDirectory::Lost => false,
        PackageDirectory::Found { root, directory, is_directory } => *is_directory
            && paths::path_is_under(directory, root),
    }
}

/// Pairs in order, each once.
pub open spec fn pairs_sorted(all: Seq<(Seq<char>, Seq<char>)>) -> bool {
    forall|i: int, j: int|
        0 <= i < j < all.len() ==> pair_less(#[trigger] all[i], #[trigger] all[j])
}

proof fn lemma_pair_order(
    a: (Seq<char>, Seq<char>),
    b: (Seq<char>, Seq<char>),
    c: (Seq<char>, Seq<char>),
)
    ensures
        !pair_less(a, a),
        pair_less(a, b) || pair_less(b, a) || a == b,
        pair_less(a, b) && pair_less(b, c) ==> pair_less(a, c),
{
    order::lemma_less_irreflexive(a.0);
    order::lemma_less_irreflexive(a.1);
    order::lemma_less_total(a.0, b.0);
    order::lemma_less_total(a.1, b.1);
    if order::text_less(a.0, b.0) && order::text_less(b.0, c.0) {
        order::lemma_less_transitive(a.0, b.0, c.0);
    }
    if order::text_less(a.1, b.1) && order::text_less(b.1, c.1) {
        order::lemma_less_transitive(a.1, b.1, c.1);
    }
}

proof fn lemma_pair_place_splits(
    all: Seq<(Seq<char>, Seq<char>)>,
    x: (Seq<char>, Seq<char>),
)
    requires
        pairs_sorted(all),
    ensures
        0 <= pair_place(all, x) <= all.len(),
        forall|i: int| 0 <= i < pair_place(all, x) ==> pair_less(#[trigger] all[i], x),
        forall|i: int| pair_place(all, x) <= i < all.len() ==> !pair_less(#[trigger] all[i], x),
    decreases all.len(),
{
    if all.len() > 0 {
        if pair_less(all.last(), x) {
            assert forall|i: int| 0 <= i < all.len() implies pair_less(#[trigger] all[i], x) by {
                if i < all.len() - 1 {
                    assert(pair_less(all[i], all[all.len() - 1]));
                    lemma_pair_order(all[i], all.last(), x);
                }
            }
        } else {
            let rest = all.drop_last();
            assert forall|i: int, j: int| 0 <= i < j < rest.len() implies pair_less(
                #[trigger] rest[i],
                #[trigger] rest[j],
            ) by {
                assert(rest[i] == all[i] && rest[j] == all[j]);
            }
            lemma_pair_place_splits(rest, x);
            assert forall|i: int| 0 <= i < pair_place(all, x) implies pair_less(
                #[trigger] all[i],
                x,
            ) by {
                assert(rest[i] == all[i]);
            }
            assert forall|i: int| pair_place(all, x) <= i < all.len() implies !pair_less(
                #[trigger] all[i],
                x,
            ) by {
                if i < rest.len() {
                    assert(rest[i] == all[i]);
                }
            }
        }
    }
}

proof fn lemma_put_pair_sorted(all: Seq<(Seq<char>, Seq<char>)>, x: (Seq<char>, Seq<char>))
    requires
        pairs_sorted(all),
    ensures
        pairs_sorted(put_pair(all, x)),
{
    lemma_pair_place_splits(all, x);
    let p = pair_place(all, x);
    if !(p < all.len() && all[p] == x) {
        let after = all.insert(p, x);
        assert forall|i: int, j: int| 0 <= i < j < after.len() implies pair_less(
            #[trigger] after[i],
            #[trigger] after[j],
        ) by {
            if j == p {
                assert(after[i] == all[i]);
            } else if i == p {
                assert(after[j] == all[j - 1]);
                lemma_pair_order(all[j - 1], x, x);
                if all[j - 1] == x {
                    assert(p < j - 1);
                    assert(pair_less(all[p], all[j - 1]));
                }
            } else {
                assert(after[i] == if i < p {
                    all[i]
                } else {
                    all[i - 1]
                });
                assert(after[j] == if j < p {
                    all[j]
                } else {
                    all[j - 1]
                });
            }
        }
    }
}

/// The tools that a list tells come in order, each once, whatever the order of the
/// lines.
pub proof fn law_tools_are_sorted(lines: Seq<Seq<char>>)
    ensures
        pairs_sorted(tools_of_lines(lines)),
    decreases lines.len(),
{
    if lines.len() > 0 {
        law_tools_are_sorted(lines.drop_last());
        if let Some(t) = tool_of_line(lines.last()) {
            lemma_put_pair_sorted(tools_of_lines(lines.drop_last()), t);
        }
    }
}

/// The names that a runner has in a directory of the search path.
pub open spec fn runner_names(runner: Seq<char>, windows: bool) -> Seq<Seq<char>> {
    if windows {
        seq![runner + ".exe"@, runner + ".cmd"@, runner + ".bat"@]
    } else {
        seq![runner]
    }
}

pub fn runner_executable_names(runner: &str, windows: bool) -> (r: Vec<String>)
    ensures
        text::texts(r@) == runner_names(runner@, windows),
{
    let mut r: Vec<String> = Vec::new();
    if windows {
        r.push(joined(runner, ".exe"));
        r.push(joined(runner, ".cmd"));
        r.push(joined(runner, ".bat"));
    } else {
        r.push(runner.to_owned());
    }
    assert(text::texts(r@) =~= runner_names(runner@, windows));
    r
}

/// What was found under one name of a runner.
pub struct RunnerFile {
    pub reparse: bool,
    pub regular: bool,
    /// The path it leads to, where there is one.
    pub canonical: Option<String>,
    pub canonical_reparse: bool,
    pub canonical_regular: bool,
}

/// A directory of the search path, with what lies there under each name of a runner.
pub struct RunnerDirectory {
    pub absolute: bool,
    pub reparse: bool,
    pub files: Vec<RunnerFile>,
}

/// Where a file leads to, if a runner may be started from there: both the file and
/// what it leads to are real files.
pub open spec fn sound_runner(f: RunnerFile) -> Option<Seq<char>> {
    if f.reparse || !f.regular || f.canonical_reparse || !f.canonical_regular {
        None
    } else {
        match f.canonical {
            Some(p) => Some(p@),
            None => None,
        }
    }
}

/// The first sound runner from a position on.
pub open spec fn runner_among(files: Seq<RunnerFile>, k: nat) -> Option<Seq<char>>
    decreases files.len() - k,
{
    if k >= files.len() {
        None
    } else if sound_runner(files[k as int]) is Some {
        sound_runner(files[k as int])
    } else {
        runner_among(files, k + 1)
    }
}

/// The first sound runner in the directories from a position on. Only absolute
/// directories that are no links count, and only so many of them are looked at.
pub open spec fn runner_on_path(directories: Seq<RunnerDirectory>, k: nat) -> Option<Seq<char>>
    decreases directories.len() - k,
{
    if k >= directories.len() || k >= MAX_RUNNER_SEARCH_DIRECTORIES {
        None
    } else {
        let d = directories[k as int];
        if d.absolute && !d.reparse && runner_among(d.files@, 0) is Some {
            runner_among(d.files@, 0)
        } else {
            runner_on_path(directories, k + 1)
        }
    }
}

fn first_sound_runner(files: &Vec<RunnerFile>) -> (r: Option<String>)
    ensures
        text::opt_text(r) == runner_among(files@, 0),
{
    let mut i: usize = 0;
    while i < files.len()
        invariant
            i <= files@.len(),
            runner_among(files@, 0) == runner_among(files@, i as nat),
        decreases files@.len() - i,
    {
        let f = &files[i];
        if !f.reparse && f.regular && !f.canonical_reparse && f.canonical_regular {
            if let Some(path) = &f.canonical {
                return Some(path.clone());
            }
        }
        i += 1;
    }
    None
}

/// The runner that the search path gives.
pub fn find_runner_executable(directories: &Vec<RunnerDirectory>) -> (r: Option<String>)
    ensures
        text::opt_text(r) == runner_on_path(directories@, 0),
{
    let mut i: usize = 0;
    while i < directories.len() && i < MAX_RUNNER_SEARCH_DIRECTORIES
        invariant
            i <= directories@.len(),
            runner_on_path(directories@, 0) == runner_on_path(directories@, i as nat),
        decreases directories@.len() - i,
    {
        let d = &directories[i];
        if d.absolute && !d.reparse {
            if let Some(path) = first_sound_runner(&d.files) {
                return Some(path);
            }
        }
        i += 1;
    }
    None
}

/// What is known of a process that was started to list packages.
#[derive(Clone, Copy, Debug, PartialEq, Eq, Structural)]
pub enum RunnerWait {
    Running,
    Exited(bool),
    /// It could not be asked.
    Lost,
}

/// What is done with a process that was started to list packages.
#[derive(Clone, Copy, Debug, PartialEq, Eq, Structural)]
pub enum RunnerStep {
    Wait,
    /// End it, with that diagnostic.
    End(DiscoveryDiagnosticCode),
    /// Take what it has written.
    Take,
    /// It has ended without success.
    Fail,
}

pub fn runner_step(stopped: bool, wait: RunnerWait) -> (r: RunnerStep)
    ensures
        r == if stopped {
            RunnerStep::End(DiscoveryDiagnosticCode::ProviderTimeout)
        } else {
            match wait {
                RunnerWait::Running => RunnerStep::Wait,
                RunnerWait::Exited(true) => RunnerStep::Take,
                RunnerWait::Exited(false) => RunnerStep::Fail,
                RunnerWait::Lost => RunnerStep::End(DiscoveryDiagnosticCode::ProviderFailed),
            }
        },
{
    if stopped {
        return RunnerStep::End(DiscoveryDiagnosticCode::ProviderTimeout);
    }
    match wait {
        RunnerWait::Running => RunnerStep::Wait,
        RunnerWait::Exited(true) => RunnerStep::Take,
        RunnerWait::Exited(false) => RunnerStep::Fail,
        RunnerWait::Lost => RunnerStep::End(DiscoveryDiagnosticCode::ProviderFailed),
    }
}

} // verus!
