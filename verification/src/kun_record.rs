//! The shared runtime of Kun: reading the record by which it is found, and checking
//! that what answers is the runtime that the record names.

use vstd::prelude::*;
use vstd::string::*;

use crate::codex;
use crate::codex::identifier_in;
use crate::error;
use crate::error::{RuntimeError, KUN_RUNTIME_IDENTITY_MISMATCH, KUN_SHARED_RUNTIME_UNAVAILABLE};
use crate::http;
use crate::http::{LocalHttpEndpoint, MAX_TRANSPORT_BODY_BYTES};
use crate::json;
use crate::json::{parse_json, Json};
use crate::paths;
use crate::paths::have_same_components;
use crate::text;
use crate::text::{
    alphanumeric, bytes_len, chars_of, has_control_char, joined, lowered, same_text, trimmed,
};

verus! {

/// The error for anything that does not fit the record.
pub open spec fn mismatch() -> error::ErrorView {
    error::ErrorView::Protocol(KUN_RUNTIME_IDENTITY_MISMATCH@)
}

fn mismatch_error() -> (r: RuntimeError)
    ensures
        r@ == mismatch(),
{
    RuntimeError::protocol(KUN_RUNTIME_IDENTITY_MISMATCH)
}

/// The record that a shared runtime leaves in its data directory.
pub struct KunRecord {
    pub instance_id: String,
    pub pid: u64,
    pub started_at: String,
    pub host: String,
    pub port: u16,
    pub base_url: String,
    pub runtime_token: String,
    pub service_version: String,
    pub build_id: String,
    pub launch_mode: String,
}

#[verifier::ext_equal]
pub struct KunRecordView {
    pub instance_id: Seq<char>,
    pub pid: u64,
    pub started_at: Seq<char>,
    pub host: Seq<char>,
    pub port: u16,
    pub base_url: Seq<char>,
    pub runtime_token: Seq<char>,
    pub service_version: Seq<char>,
    pub build_id: Seq<char>,
    pub launch_mode: Seq<char>,
}

impl View for KunRecord {
    type V = KunRecordView;

    open spec fn view(&self) -> KunRecordView {
        KunRecordView {
            instance_id: self.instance_id@,
            pid: self.pid,
            started_at: self.started_at@,
            host: self.host@,
            port: self.port,
            base_url: self.base_url@,
            runtime_token: self.runtime_token@,
            service_version: self.service_version@,
            build_id: self.build_id@,
            launch_mode: self.launch_mode@,
        }
    }
}

/// A member that serves as an identifier.
pub open spec fn safe_member(t: json::JsonTree, key: Seq<char>) -> Option<Seq<char>> {
    codex::identifier(json::field(t, key))
}

fn required_safe_string(object: &Json, key: &str) -> (r: Result<String, RuntimeError>)
    ensures
        match r {
            Ok(s) => safe_member(object.tree(), key@) == Some(s@),
            Err(e) => safe_member(object.tree(), key@) is None && e@ == mismatch(),
        },
{
    match identifier_in(object, key) {
        Some(s) => Ok(s),
        None => Err(mismatch_error()),
    }
}

pub const MAX_TOKEN_BYTES: usize = 16_384;

/// A token: a text that is not blank, not too long and free of control
/// characters, without the white space around it.
pub open spec fn token(value: Option<Seq<char>>) -> Option<Seq<char>> {
    match value {
        Some(s) => {
            let t = text::trim(s);
            if t.len() > 0 && text::byte_len(t) <= MAX_TOKEN_BYTES && forall|i: int|
                0 <= i < t.len() ==> !text::is_control_char(#[trigger] t[i]) {
                Some(t)
            } else {
                None
            }
        },
        None => None,
    }
}

fn required_nonempty_string(object: &Json, key: &str) -> (r: Result<String, RuntimeError>)
    ensures
        match r {
            Ok(s) => token(json::text_field(object.tree(), key@)) == Some(s@),
            Err(e) => token(json::text_field(object.tree(), key@)) is None && e@
                == error::ErrorView::Authentication,
        },
{
    match object.get_str(key) {
        Some(s) => {
            let t = trimmed(s);
            if t.as_str().is_empty() || bytes_len(t.as_str()) > MAX_TOKEN_BYTES || has_control_char(
                t.as_str(),
            ) {
                Err(RuntimeError::Authentication)
            } else {
                Ok(t)
            }
        },
        None => Err(RuntimeError::Authentication),
    }
}

/// A port in a record.
pub open spec fn record_port(t: json::JsonTree) -> Option<u16> {
    match json::u64_value(json::field(t, "port"@)) {
        Some(p) => if 0 < p <= 0xffff {
            Some(p as u16)
        } else {
            None
        },
        None => None,
    }
}

/// A process id in a record.
pub open spec fn record_pid(t: json::JsonTree) -> Option<u64> {
    match json::u64_value(json::field(t, "pid"@)) {
        Some(p) => if p > 0 {
            Some(p)
        } else {
            None
        },
        None => None,
    }
}

/// The members that a record must have before its token.
pub open spec fn has_address_members(t: json::JsonTree) -> bool {
    &&& json::u64_value(json::field(t, "version"@)) == Some(2u64)
    &&& json::bool_value(json::field(t, "insecure"@)) == Some(false)
    &&& safe_member(t, "instanceId"@) is Some
    &&& record_pid(t) is Some
    &&& safe_member(t, "startedAt"@) is Some
    &&& safe_member(t, "host"@) is Some
    &&& record_port(t) is Some
    &&& safe_member(t, "baseUrl"@) is Some
}

/// What a record says. A record without a token lacks a credential; any other
/// defect makes it the record of another runtime.
pub open spec fn record_of(t: json::JsonTree) -> Result<KunRecordView, error::ErrorView> {
    if !has_address_members(t) {
        Err(mismatch())
    } else if token(json::text_field(t, "runtimeToken"@)) is None {
        Err(error::ErrorView::Authentication)
    } else if safe_member(t, "serviceVersion"@) is None || safe_member(t, "buildId"@) is None
        || safe_member(t, "launchMode"@) is None {
        Err(mismatch())
    } else {
        Ok(
            KunRecordView {
                instance_id: safe_member(t, "instanceId"@)->0,
                pid: record_pid(t)->0,
                started_at: safe_member(t, "startedAt"@)->0,
                host: safe_member(t, "host"@)->0,
                port: record_port(t)->0,
                base_url: safe_member(t, "baseUrl"@)->0,
                runtime_token: token(json::text_field(t, "runtimeToken"@))->0,
                service_version: safe_member(t, "serviceVersion"@)->0,
                build_id: safe_member(t, "buildId"@)->0,
                launch_mode: safe_member(t, "launchMode"@)->0,
            },
        )
    }
}

fn u64_in(object: &Json, key: &str) -> (r: Option<u64>)
    ensures
        r == json::u64_value(json::field(object.tree(), key@)),
{
    match object.get(key) {
        Some(v) => v.as_u64(),
        None => None,
    }
}

fn bool_in(object: &Json, key: &str) -> (r: Option<bool>)
    ensures
        r == json::bool_value(json::field(object.tree(), key@)),
{
    match object.get(key) {
        Some(v) => v.as_bool(),
        None => None,
    }
}

/// Reads what a record says.
pub fn record_from_value(object: &Json) -> (r: Result<KunRecord, RuntimeError>)
    ensures
        match r {
            Ok(record) => record_of(object.tree()) == Ok::<KunRecordView, error::ErrorView>(
                record@,
            ),
            Err(e) => record_of(object.tree()) == Err::<KunRecordView, error::ErrorView>(e@),
        },
{
    if u64_in(object, "version") != Some(2) || bool_in(object, "insecure") != Some(false) {
        return Err(mismatch_error());
    }
    let instance_id = match required_safe_string(object, "instanceId") {
        Ok(s) => s,
        Err(e) => {
            return Err(e);
        },
    };
    let pid = match u64_in(object, "pid") {
        Some(p) => if p > 0 {
            p
        } else {
            return Err(mismatch_error());
        },
        None => {
            return Err(mismatch_error());
        },
    };
    let started_at = match required_safe_string(object, "startedAt") {
        Ok(s) => s,
        Err(e) => {
            return Err(e);
        },
    };
    let host = match required_safe_string(object, "host") {
        Ok(s) => s,
        Err(e) => {
            return Err(e);
        },
    };
    let port = match u64_in(object, "port") {
        Some(p) => if 0 < p && p <= 0xffff {
            p as u16
        } else {
            return Err(mismatch_error());
        },
        None => {
            return Err(mismatch_error());
        },
    };
    let base_url = match required_safe_string(object, "baseUrl") {
        Ok(s) => s,
        Err(e) => {
            return Err(e);
        },
    };
    let runtime_token = match required_nonempty_string(object, "runtimeToken") {
        Ok(s) => s,
        Err(e) => {
            return Err(e);
        },
    };
    let service_version = match required_safe_string(object, "serviceVersion") {
        Ok(s) => s,
        Err(e) => {
            return Err(e);
        },
    };
    let build_id = match required_safe_string(object, "buildId") {
        Ok(s) => s,
        Err(e) => {
            return Err(e);
        },
    };
    let launch_mode = match required_safe_string(object, "launchMode") {
        Ok(s) => s,
        Err(e) => {
            return Err(e);
        },
    };
    Ok(
        KunRecord {
            instance_id,
            pid,
            started_at,
            host,
            port,
            base_url,
            runtime_token,
            service_version,
            build_id,
            launch_mode,
        },
    )
}

/// What the text of a record says. `None` stands for a record that cannot be read.
pub open spec fn record_text(content: Option<Seq<char>>) -> Result<
    KunRecordView,
    error::ErrorView,
> {
    match content {
        None => Err(error::ErrorView::Transport(KUN_SHARED_RUNTIME_UNAVAILABLE@)),
        Some(s) => if text::byte_len(s) > MAX_TRANSPORT_BODY_BYTES {
            Err(mismatch())
        } else {
            match json::json_text(s) {
                Ok(t) => record_of(t),
                Err(_) => Err(mismatch()),
            }
        },
    }
}

/// Reads the text of a record.
pub fn read_record(content: Option<&str>) -> (r: Result<KunRecord, RuntimeError>)
    ensures
        ({
            let view = match content {
                Some(s) => Some(s@),
                None => None,
            };
            match r {
                Ok(record) => record_text(view) == Ok::<KunRecordView, error::ErrorView>(record@),
                Err(e) => record_text(view) == Err::<KunRecordView, error::ErrorView>(e@),
            }
        }),
{
    match content {
        None => Err(RuntimeError::transport(KUN_SHARED_RUNTIME_UNAVAILABLE)),
        Some(s) => {
            if bytes_len(s) > MAX_TRANSPORT_BODY_BYTES {
                return Err(mismatch_error());
            }
            match parse_json(s) {
                Ok(value) => record_from_value(&value),
                Err(_) => Err(mismatch_error()),
            }
        },
    }
}

/// The form of a build id.
pub open spec fn is_build_id(s: Seq<char>) -> bool {
    &&& s.len() > 0
    &&& text::byte_len(s) <= 128
    &&& forall|i: int|
        0 <= i < s.len() ==> text::is_alphanumeric(#[trigger] s[i]) || s[i] == '.' || s[i] == '_'
            || s[i] == '-'
}

pub fn valid_kun_build_id(value: &str) -> (r: bool)
    ensures
        r == is_build_id(value@),
{
    let cs = chars_of(value);
    if cs.len() == 0 || bytes_len(value) > 128 {
        return false;
    }
    let mut i: usize = 0;
    while i < cs.len()
        invariant
            i <= cs@.len(),
            cs@ == value@,
            forall|k: int|
                0 <= k < i ==> text::is_alphanumeric(#[trigger] value@[k]) || value@[k] == '.'
                    || value@[k] == '_' || value@[k] == '-',
        decreases cs@.len() - i,
    {
        let c = cs[i];
        if !(alphanumeric(c) || c == '.' || c == '_' || c == '-') {
            assert(value@[i as int] == c);
            return false;
        }
        i += 1;
    }
    true
}

/// Whether a record is that of a live shared runtime of the expected version.
pub open spec fn is_expected(
    record: KunRecordView,
    alive: bool,
    expected_service_version: Seq<char>,
) -> bool {
    &&& is_build_id(record.build_id)
    &&& alive
    &&& record.service_version == expected_service_version
    &&& record.launch_mode == "shared"@
}

/// Checks a record and finds where its runtime listens. `alive` says whether its
/// process runs, `resolved` what the look-up of `localhost` gave.
pub fn record_endpoint(
    record: &KunRecord,
    alive: bool,
    expected_service_version: &str,
    resolved: &Vec<Vec<u16>>,
) -> (r: Result<LocalHttpEndpoint, RuntimeError>)
    ensures
        ({
            let named = http::base_host_port(record@.base_url);
            match r {
                Ok(e) => {
                    &&& is_expected(record@, alive, expected_service_version@)
                    &&& named matches Some((host, port)) && http::resolves_to(
                        host,
                        port,
                        resolved@,
                        e,
                    )
                    &&& http::resolvable(record@.host, resolved@)
                    &&& http::resolves_to(record@.host, record@.port, resolved@, e)
                },
                Err(e) => {
                    &&& e@ == mismatch()
                    &&& is_expected(record@, alive, expected_service_version@) ==> forall|
                        x: LocalHttpEndpoint,
                    |
                        !(named matches Some((host, port)) && http::resolvable(host, resolved@)
                            && http::resolves_to(host, port, resolved@, x) && http::resolvable(
                            record@.host,
                            resolved@,
                        ) && #[trigger] http::resolves_to(
                            record@.host,
                            record@.port,
                            resolved@,
                            x,
                        ))
                },
            }
        }),
{
    if !valid_kun_build_id(record.build_id.as_str()) || !alive {
        return Err(mismatch_error());
    }
    if !same_text(record.service_version.as_str(), expected_service_version) || !same_text(
        record.launch_mode.as_str(),
        "shared",
    ) {
        return Err(mismatch_error());
    }
    match LocalHttpEndpoint::parse(record.base_url.as_str(), resolved) {
        Ok(e) => {
            if e.matches_host_port(record.host.as_str(), record.port, resolved) {
                Ok(e)
            } else {
                proof {
                    let (host, port) = http::base_host_port(record@.base_url)->0;
                    assert forall|x: LocalHttpEndpoint|
                        http::resolves_to(host, port, resolved@, x) implies x == e by {
                        http::lemma_resolution_is_one(host, port, resolved@, e, x);
                    }
                }
                Err(mismatch_error())
            }
        },
        Err(e) => Err(e),
    }
}

/// Whether two local paths are the same. On Windows their texts are the same, with
/// ASCII letters of either case taken for each other; elsewhere they have the same
/// components.
pub open spec fn same_path(a: Seq<char>, b: Seq<char>, windows: bool) -> bool {
    if windows {
        text::lower(a) == text::lower(b)
    } else {
        paths::same_components(a, b, false)
    }
}

pub fn same_local_path(left: &str, right: &str, windows: bool) -> (r: bool)
    ensures
        r == same_path(left@, right@, windows),
{
    if windows {
        same_text(lowered(left).as_str(), lowered(right).as_str())
    } else {
        have_same_components(left, right, false)
    }
}

/// A directory in which a runtime may be installed.
pub struct InstallDir {
    pub path: String,
    /// It was named, and not found by looking.
    pub explicit: bool,
}

/// The candidates without those whose path came before.
pub open spec fn distinct_dirs(dirs: Seq<(Seq<char>, bool)>, windows: bool) -> Seq<
    (Seq<char>, bool),
>
    decreases dirs.len(),
{
    if dirs.len() == 0 {
        seq![]
    } else {
        let before = distinct_dirs(dirs.drop_last(), windows);
        if exists|i: int|
            0 <= i < before.len() && same_path((#[trigger] before[i]).0, dirs.last().0, windows) {
            before
        } else {
            before.push(dirs.last())
        }
    }
}

pub open spec fn dir_views(dirs: Seq<InstallDir>) -> Seq<(Seq<char>, bool)> {
    Seq::new(dirs.len(), |i: int| (dirs[i].path@, dirs[i].explicit))
}

/// The most directories above an executable that are looked at.
pub const MAX_INSTALL_PARENTS: usize = 4;

/// The directories that may hold the installation, in the order in which they are
/// tried: those that are named, then the directories above the executable, then
/// the usual ones.
pub open spec fn all_install_dirs(
    named: Seq<Seq<char>>,
    parents: Seq<Seq<char>>,
    usual: Seq<Seq<char>>,
) -> Seq<(Seq<char>, bool)> {
    let near = if parents.len() <= MAX_INSTALL_PARENTS {
        parents
    } else {
        parents.take(MAX_INSTALL_PARENTS as int)
    };
    Seq::new(named.len(), |i: int| (named[i], true)) + Seq::new(
        near.len(),
        |i: int| (near[i], false),
    ) + Seq::new(usual.len(), |i: int| (usual[i], false))
}

fn push_dir(dirs: &mut Vec<InstallDir>, path: &String, explicit: bool, windows: bool)
    ensures
        dir_views(final(dirs)@) == if exists|i: int|
            0 <= i < dir_views(old(dirs)@).len() && same_path(
                (#[trigger] dir_views(old(dirs)@)[i]).0,
                path@,
                windows,
            ) {
            dir_views(old(dirs)@)
        } else {
            dir_views(old(dirs)@).push((path@, explicit))
        },
{
    let ghost before = dir_views(dirs@);
    let mut i: usize = 0;
    while i < dirs.len()
        invariant
            i <= dirs@.len(),
            before == dir_views(dirs@),
            dirs@ == old(dirs)@,
            forall|k: int| 0 <= k < i ==> !same_path((#[trigger] before[k]).0, path@, windows),
        decreases dirs@.len() - i,
    {
        if same_local_path(dirs[i].path.as_str(), path.as_str(), windows) {
            assert(same_path(before[i as int].0, path@, windows));
            return ;
        }
        assert(before[i as int].0 == dirs@[i as int].path@);
        i += 1;
    }
    dirs.push(InstallDir { path: path.clone(), explicit });
    assert(dir_views(dirs@) =~= before.push((path@, explicit)));
}

/// The directories that may hold the installation.
pub fn runtime_install_dir_candidates(
    named: &Vec<String>,
    parents: &Vec<String>,
    usual: &Vec<String>,
    windows: bool,
) -> (r: Vec<InstallDir>)
    ensures
        dir_views(r@) == distinct_dirs(
            all_install_dirs(text::texts(named@), text::texts(parents@), text::texts(usual@)),
            windows,
        ),
{
    let ghost all = all_install_dirs(
        text::texts(named@),
        text::texts(parents@),
        text::texts(usual@),
    );
    let near: usize = if parents.len() <= MAX_INSTALL_PARENTS {
        parents.len()
    } else {
        MAX_INSTALL_PARENTS
    };
    let mut dirs: Vec<InstallDir> = Vec::new();
    let mut i: usize = 0;
    assert(dir_views(dirs@) =~= distinct_dirs(all.take(0), windows));
    while i < named.len()
        invariant
            i <= named@.len(),
            all == all_install_dirs(
                text::texts(named@),
                text::texts(parents@),
                text::texts(usual@),
            ),
            dir_views(dirs@) == distinct_dirs(all.take(i as int), windows),
        decreases named@.len() - i,
    {
        proof {
            assert(all.take(i + 1).drop_last() =~= all.take(i as int));
            assert(all.take(i + 1).last() == (named@[i as int]@, true));
        }
        push_dir(&mut dirs, &named[i], true, windows);
        i += 1;
    }
    let mut j: usize = 0;
    while j < near
        invariant
            j <= near <= parents@.len(),
            near == if parents@.len() <= MAX_INSTALL_PARENTS {
                parents@.len()
            } else {
                MAX_INSTALL_PARENTS as nat
            },
            all == all_install_dirs(
                text::texts(named@),
                text::texts(parents@),
                text::texts(usual@),
            ),
            dir_views(dirs@) == distinct_dirs(all.take(named@.len() + j), windows),
        decreases near - j,
    {
        proof {
            let n = named@.len() + j;
            assert(all.take(n + 1).drop_last() =~= all.take(n));
            assert(all.take(n + 1).last() == (parents@[j as int]@, false));
        }
        push_dir(&mut dirs, &parents[j], false, windows);
        j += 1;
    }
    let mut k: usize = 0;
    while k < usual.len()
        invariant
            k <= usual@.len(),
            near == if parents@.len() <= MAX_INSTALL_PARENTS {
                parents@.len()
            } else {
                MAX_INSTALL_PARENTS as nat
            },
            all == all_install_dirs(
                text::texts(named@),
                text::texts(parents@),
                text::texts(usual@),
            ),
            dir_views(dirs@) == distinct_dirs(all.take(named@.len() + near + k), windows),
        decreases usual@.len() - k,
    {
        proof {
            let n = named@.len() + near + k;
            assert(all.take(n + 1).drop_last() =~= all.take(n));
            assert(all.take(n + 1).last() == (usual@[k as int]@, false));
        }
        push_dir(&mut dirs, &usual[k], false, windows);
        k += 1;
    }
    assert(all.take(named@.len() + near + k) =~= all);
    dirs
}

/// What an installation says of its build.
pub struct KunRuntimeBuildMetadata {
    pub build_id: String,
    pub service_version: String,
}

/// What came of reading the build metadata of a directory.
pub enum MetadataRead {
    Content(String),
    NotFound,
    Unreadable,
}

/// Whether the build metadata of an installation fits a record.
pub open spec fn metadata_fits(
    content: Seq<char>,
    build_id: Seq<char>,
    service_version: Seq<char>,
    expected_build_id: Option<Seq<char>>,
) -> bool {
    &&& text::byte_len(content) <= MAX_TRANSPORT_BODY_BYTES
    &&& json::json_text(content) is Ok
    &&& value_fits(json::json_text(content)->Ok_0, build_id, service_version, expected_build_id)
}

/// Whether the members of the build metadata fit a record.
pub open spec fn value_fits(
    value: json::JsonTree,
    build_id: Seq<char>,
    service_version: Seq<char>,
    expected_build_id: Option<Seq<char>>,
) -> bool {
    &&& safe_member(value, "buildId"@) == Some(build_id)
    &&& safe_member(value, "serviceVersion"@) == Some(service_version)
    &&& is_build_id(build_id)
    &&& expected_build_id is None || expected_build_id == Some(build_id)
}

/// Checks the members of the build metadata.
pub fn accept_metadata_value(
    value: &Json,
    build_id: &str,
    service_version: &str,
    expected_build_id: &Option<String>,
) -> (r: Result<KunRuntimeBuildMetadata, RuntimeError>)
    ensures
        match r {
            Ok(m) => value_fits(
                value.tree(),
                build_id@,
                service_version@,
                text::opt_text(*expected_build_id),
            ) && m.build_id@ == build_id@ && m.service_version@ == service_version@,
            Err(e) => !value_fits(
                value.tree(),
                build_id@,
                service_version@,
                text::opt_text(*expected_build_id),
            ) && e@ == mismatch(),
        },
{
    let found_build_id = match required_safe_string(value, "buildId") {
        Ok(s) => s,
        Err(e) => {
            return Err(e);
        },
    };
    let found_version = match required_safe_string(value, "serviceVersion") {
        Ok(s) => s,
        Err(e) => {
            return Err(e);
        },
    };
    let expected = match expected_build_id {
        Some(s) => same_text(s.as_str(), found_build_id.as_str()),
        None => true,
    };
    if !valid_kun_build_id(found_build_id.as_str()) || !same_text(
        found_build_id.as_str(),
        build_id,
    ) || !same_text(found_version.as_str(), service_version) || !expected {
        return Err(mismatch_error());
    }
    Ok(KunRuntimeBuildMetadata { build_id: found_build_id, service_version: found_version })
}

fn accept_metadata(
    content: &str,
    build_id: &str,
    service_version: &str,
    expected_build_id: &Option<String>,
) -> (r: Result<KunRuntimeBuildMetadata, RuntimeError>)
    ensures
        match r {
            Ok(m) => metadata_fits(
                content@,
                build_id@,
                service_version@,
                text::opt_text(*expected_build_id),
            ) && m.build_id@ == build_id@ && m.service_version@ == service_version@,
            Err(e) => !metadata_fits(
                content@,
                build_id@,
                service_version@,
                text::opt_text(*expected_build_id),
            ) && e@ == mismatch(),
        },
{
    if bytes_len(content) > MAX_TRANSPORT_BODY_BYTES {
        return Err(mismatch_error());
    }
    match parse_json(content) {
        Ok(value) => accept_metadata_value(&value, build_id, service_version, expected_build_id),
        Err(_) => Err(mismatch_error()),
    }
}

/// The first directory that decides: a directory that was found by looking and has
/// no metadata is passed over.
pub open spec fn deciding(reads: Seq<(MetadataRead, bool)>) -> int
    decreases reads.len(),
{
    if reads.len() == 0 {
        0
    } else if reads[0].0 is NotFound && !reads[0].1 {
        1 + deciding(reads.drop_first())
    } else {
        0
    }
}

/// Finds the build metadata of the runtime that a record names: what was read from
/// each candidate, and whether the candidate was named. Only the first candidate
/// that decides is looked at.
pub fn runtime_build_metadata(
    reads: &Vec<(MetadataRead, bool)>,
    build_id: &str,
    service_version: &str,
    expected_build_id: &Option<String>,
) -> (r: Result<KunRuntimeBuildMetadata, RuntimeError>)
    ensures
        ({
            let i = deciding(reads@);
            let fits = i < reads@.len() && match reads@[i].0 {
                MetadataRead::Content(content) => metadata_fits(
                    content@,
                    build_id@,
                    service_version@,
                    text::opt_text(*expected_build_id),
                ),
                _ => false,
            };
            match r {
                Ok(m) => fits && m.build_id@ == build_id@ && m.service_version@
                    == service_version@,
                Err(e) => !fits && e@ == mismatch(),
            }
        }),
{
    let mut i: usize = 0;
    assert(reads@.skip(0) =~= reads@);
    while i < reads.len()
        invariant
            i <= reads@.len(),
            deciding(reads@) == i + deciding(reads@.skip(i as int)),
        decreases reads@.len() - i,
    {
        proof {
            assert(reads@.skip(i as int)[0] == reads@[i as int]);
            assert(reads@.skip(i as int).drop_first() =~= reads@.skip(i + 1));
        }
        match &reads[i].0 {
            MetadataRead::Content(content) => {
                return accept_metadata(
                    content.as_str(),
                    build_id,
                    service_version,
                    expected_build_id,
                );
            },
            MetadataRead::NotFound => {
                if reads[i].1 {
                    return Err(mismatch_error());
                }
            },
            MetadataRead::Unreadable => {
                return Err(mismatch_error());
            },
        }
        i += 1;
    }
    Err(mismatch_error())
}

/// The data directory that a runtime reports.
pub fn info_data_dir(info: &Json) -> (r: Result<String, RuntimeError>)
    ensures
        match r {
            Ok(s) => safe_member(info.tree(), "dataDir"@) == Some(s@),
            Err(e) => safe_member(info.tree(), "dataDir"@) is None && e@ == mismatch(),
        },
{
    required_safe_string(info, "dataDir")
}

/// Whether a runtime that answers is the one that the record names. `reported_dir`
/// is the data directory that it reports, made canonical.
pub open spec fn is_runtime_of(
    record: KunRecordView,
    data_dir: Seq<char>,
    metadata_build_id: Seq<char>,
    metadata_service_version: Seq<char>,
    info: json::JsonTree,
    reported_dir: Seq<char>,
    windows: bool,
) -> bool {
    &&& same_path(reported_dir, data_dir, windows)
    &&& safe_member(info, "instanceId"@) == Some(record.instance_id)
    &&& json::u64_value(json::field(info, "pid"@)) == Some(record.pid)
    &&& safe_member(info, "startedAt"@) == Some(record.started_at)
    &&& safe_member(info, "serviceVersion"@) == Some(record.service_version)
    &&& safe_member(info, "buildId"@) == Some(record.build_id)
    &&& metadata_service_version == record.service_version
    &&& metadata_build_id == record.build_id
    &&& safe_member(info, "launchMode"@) == Some(record.launch_mode)
}

fn member_is(object: &Json, key: &str, value: &str) -> (r: bool)
    ensures
        r == (safe_member(object.tree(), key@) == Some(value@)),
{
    match identifier_in(object, key) {
        Some(s) => same_text(s.as_str(), value),
        None => false,
    }
}

/// Checks that a runtime that answers is the one that the record names.
pub fn verify_runtime_info(
    record: &KunRecord,
    data_dir: &str,
    metadata: &KunRuntimeBuildMetadata,
    info: &Json,
    reported_dir: &str,
    windows: bool,
) -> (r: Result<(), RuntimeError>)
    ensures
        ({
            let ok = is_runtime_of(
                record@,
                data_dir@,
                metadata.build_id@,
                metadata.service_version@,
                info.tree(),
                reported_dir@,
                windows,
            );
            match r {
                Ok(_) => ok,
                Err(e) => !ok && e@ == mismatch(),
            }
        }),
{
    let valid = same_local_path(reported_dir, data_dir, windows) && member_is(
        info,
        "instanceId",
        record.instance_id.as_str(),
    ) && u64_in(info, "pid") == Some(record.pid) && member_is(
        info,
        "startedAt",
        record.started_at.as_str(),
    ) && member_is(info, "serviceVersion", record.service_version.as_str()) && member_is(
        info,
        "buildId",
        record.build_id.as_str(),
    ) && same_text(metadata.service_version.as_str(), record.service_version.as_str()) && same_text(
        metadata.build_id.as_str(),
        record.build_id.as_str(),
    ) && member_is(info, "launchMode", record.launch_mode.as_str());
    if valid {
        Ok(())
    } else {
        Err(mismatch_error())
    }
}

/// The version of a runtime: the version of its service and the id of its build.
pub fn runtime_version(record: &KunRecord) -> (r: String)
    ensures
        r@ == record@.service_version + ":"@ + record@.build_id,
{
    let r = joined(record.service_version.as_str(), ":");
    joined(r.as_str(), record.build_id.as_str())
}

/// Whether an error is worth another try: the runtime has left its record but does
/// not listen yet. No other error is tried again.
pub fn is_startup_race(e: &RuntimeError) -> (r: bool)
    ensures
        r == (e@ == error::ErrorView::Transport(KUN_SHARED_RUNTIME_UNAVAILABLE@)),
{
    match e {
        RuntimeError::Transport(code) => same_text(code.as_str(), KUN_SHARED_RUNTIME_UNAVAILABLE),
        _ => false,
    }
}

} // verus!
