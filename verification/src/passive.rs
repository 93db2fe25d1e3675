//! Passive discovery on Windows: what is looked at, what is passed over, and what
//! is taken. Nothing that is found is started or connected to.

use vstd::prelude::*;
use vstd::string::*;

use crate::address;
use crate::address::{loopback_address, parse_ip};
use crate::digest;
use crate::digest::normalized_path_key;
use crate::endpoint;
use crate::endpoint::normalize_explicit_loopback_endpoint;
use crate::observation;
use crate::observation::{
    unknown_endpoint_observation, unknown_executable_observation,
    windows_executable_identity_fingerprint, DiscoveryDiagnostic, DiscoveryDiagnosticCode,
    DiscoveryEvidence, ExecutableProbe, Observation, ObservationSourceKind, ObservationTrustLevel,
};
use crate::event::copy_text;
use crate::paths;
use crate::paths::{have_same_components, package_stable_identity, PathPart};
use crate::text;
use crate::text::{lowered, same_text};
use crate::textmap::TextMap;

verus! {

/// An entry of the registry that names an executable.
#[derive(Debug, PartialEq, Eq)]
pub struct WindowsAppPathRecord {
    pub key_name: String,
    pub executable_path: String,
    pub hive: WindowsRegistryHive,
    pub view: WindowsRegistryView,
}

#[derive(Clone, Copy, Debug, PartialEq, Eq, Structural)]
pub enum WindowsRegistryHive {
    CurrentUser,
    LocalMachine,
}

#[derive(Clone, Copy, Debug, PartialEq, Eq, Structural)]
pub enum WindowsRegistryView {
    Native,
    Wow6432,
}

/// An executable of an installed package.
#[derive(Debug, PartialEq, Eq)]
pub struct WindowsPackageRecord {
    pub package_family_name: String,
    pub package_full_name: String,
    pub version: String,
    pub installed_location: String,
    pub executable_relative_path: String,
}

/// A listener on this machine and who owns it.
#[derive(Debug, PartialEq, Eq)]
pub struct WindowsLoopbackListenerRecord {
    pub address: String,
    pub port: u16,
    pub owner_pid: u32,
    pub owner_executable: Option<String>,
    pub owner_identity: Option<String>,
}

/// What the user has named.
#[derive(Debug, PartialEq, Eq)]
pub enum ExplicitDiscoverySource {
    Executable(String),
    Endpoint(String),
}

#[verifier::ext_equal]
pub struct AppPathView {
    pub key_name: Seq<char>,
    pub executable_path: Seq<char>,
    pub hive: WindowsRegistryHive,
    pub view: WindowsRegistryView,
}

#[verifier::ext_equal]
pub struct PackageView {
    pub package_family_name: Seq<char>,
    pub package_full_name: Seq<char>,
    pub version: Seq<char>,
    pub installed_location: Seq<char>,
    pub executable_relative_path: Seq<char>,
}

#[verifier::ext_equal]
pub struct ListenerRecordView {
    pub address: Seq<char>,
    pub port: u16,
    pub owner_pid: u32,
    pub owner_executable: Option<Seq<char>>,
    pub owner_identity: Option<Seq<char>>,
}

pub enum SourceView {
    Executable(Seq<char>),
    Endpoint(Seq<char>),
}

impl View for WindowsAppPathRecord {
    type V = AppPathView;

    open spec fn view(&self) -> AppPathView {
        AppPathView {
            key_name: self.key_name@,
            executable_path: self.executable_path@,
            hive: self.hive,
            view: self.view,
        }
    }
}

impl View for WindowsPackageRecord {
    type V = PackageView;

    open spec fn view(&self) -> PackageView {
        PackageView {
            package_family_name: self.package_family_name@,
            package_full_name: self.package_full_name@,
            version: self.version@,
            installed_location: self.installed_location@,
            executable_relative_path: self.executable_relative_path@,
        }
    }
}

impl View for WindowsLoopbackListenerRecord {
    type V = ListenerRecordView;

    open spec fn view(&self) -> ListenerRecordView {
        ListenerRecordView {
            address: self.address@,
            port: self.port,
            owner_pid: self.owner_pid,
            owner_executable: text::opt_text(self.owner_executable),
            owner_identity: text::opt_text(self.owner_identity),
        }
    }
}

impl View for ExplicitDiscoverySource {
    type V = SourceView;

    open spec fn view(&self) -> SourceView {
        match self {
            ExplicitDiscoverySource::Executable(s) => SourceView::Executable(s@),
            ExplicitDiscoverySource::Endpoint(s) => SourceView::Endpoint(s@),
        }
    }
}

impl Clone for WindowsAppPathRecord {
    fn clone(&self) -> (r: Self)
        ensures
            r@ == self@,
    {
        WindowsAppPathRecord {
            key_name: self.key_name.clone(),
            executable_path: self.executable_path.clone(),
            hive: self.hive,
            view: self.view,
        }
    }
}

impl Clone for WindowsPackageRecord {
    fn clone(&self) -> (r: Self)
        ensures
            r@ == self@,
    {
        WindowsPackageRecord {
            package_family_name: self.package_family_name.clone(),
            package_full_name: self.package_full_name.clone(),
            version: self.version.clone(),
            installed_location: self.installed_location.clone(),
            executable_relative_path: self.executable_relative_path.clone(),
        }
    }
}

impl Clone for WindowsLoopbackListenerRecord {
    fn clone(&self) -> (r: Self)
        ensures
            r@ == self@,
    {
        WindowsLoopbackListenerRecord {
            address: self.address.clone(),
            port: self.port,
            owner_pid: self.owner_pid,
            owner_executable: copy_text(&self.owner_executable),
            owner_identity: copy_text(&self.owner_identity),
        }
    }
}

impl Clone for ExplicitDiscoverySource {
    fn clone(&self) -> (r: Self)
        ensures
            r@ == self@,
    {
        match self {
            ExplicitDiscoverySource::Executable(s) => ExplicitDiscoverySource::Executable(
                s.clone(),
            ),
            ExplicitDiscoverySource::Endpoint(s) => ExplicitDiscoverySource::Endpoint(s.clone()),
        }
    }
}

/// What a provider has found.
#[derive(Debug)]
pub struct WindowsProviderCollection {
    pub observations: Vec<Observation>,
    pub diagnostics: Vec<DiscoveryDiagnostic>,
}

#[verifier::ext_equal]
pub struct CollectionView {
    pub observations: Seq<observation::ObservationView>,
    pub diagnostics: Seq<DiscoveryDiagnostic>,
}

pub open spec fn observation_views(all: Seq<Observation>) -> Seq<observation::ObservationView> {
    Seq::new(all.len(), |i: int| all[i]@)
}

impl View for WindowsProviderCollection {
    type V = CollectionView;

    open spec fn view(&self) -> CollectionView {
        CollectionView {
            observations: observation_views(self.observations@),
            diagnostics: self.diagnostics@,
        }
    }
}

impl CollectionView {
    /// A collection with one more diagnostic, unless it is there.
    pub open spec fn diagnosed(
        self,
        source_kind: ObservationSourceKind,
        code: DiscoveryDiagnosticCode,
    ) -> CollectionView {
        let d = DiscoveryDiagnostic { source_kind, code };
        if self.diagnostics.contains(d) {
            self
        } else {
            CollectionView { diagnostics: self.diagnostics.push(d), ..self }
        }
    }

    /// A collection with one more observation, unless it is full, and whether it
    /// was taken.
    pub open spec fn with(self, o: observation::ObservationView, max: nat) -> (
        CollectionView,
        bool,
    ) {
        if self.observations.len() >= max {
            (self, false)
        } else {
            (CollectionView { observations: self.observations.push(o), ..self }, true)
        }
    }

    /// A collection after something was looked at, and whether there is room for
    /// more.
    pub open spec fn took(
        self,
        source_kind: ObservationSourceKind,
        result: Result<observation::ObservationView, DiscoveryDiagnosticCode>,
        max: nat,
    ) -> (CollectionView, bool) {
        match result {
            Ok(o) => self.with(o, max),
            Err(code) => (self.diagnosed(source_kind, code), true),
        }
    }
}

impl WindowsProviderCollection {
    pub fn new() -> (r: Self)
        ensures
            r@ == (CollectionView { observations: seq![], diagnostics: seq![] }),
    {
        let r = WindowsProviderCollection { observations: Vec::new(), diagnostics: Vec::new() };
        assert(r@ =~= (CollectionView { observations: seq![], diagnostics: seq![] }));
        r
    }

    pub fn push_diagnostic(
        &mut self,
        source_kind: ObservationSourceKind,
        code: DiscoveryDiagnosticCode,
    )
        ensures
            final(self)@ == old(self)@.diagnosed(source_kind, code),
            final(self).observations == old(self).observations,
    {
        let d = DiscoveryDiagnostic { source_kind, code };
        let mut i: usize = 0;
        while i < self.diagnostics.len()
            invariant
                i <= self.diagnostics@.len(),
                *self == *old(self),
                d == (DiscoveryDiagnostic { source_kind, code }),
                forall|k: int| 0 <= k < i ==> #[trigger] self.diagnostics@[k] != d,
            decreases self.diagnostics@.len() - i,
        {
            if self.diagnostics[i] == d {
                assert(self.diagnostics@.contains(d));
                return ;
            }
            i += 1;
        }
        self.diagnostics.push(d);
    }

    /// Takes an observation unless the collection is full.
    pub fn push_observation(&mut self, o: Observation, max_observations: usize) -> (r: bool)
        ensures
            (final(self)@, r) == old(self)@.with(o@, max_observations as nat),
    {
        if self.observations.len() >= max_observations {
            return false;
        }
        let ghost before = self.observations@;
        self.observations.push(o);
        assert(observation_views(self.observations@) =~= observation_views(before).push(o@));
        true
    }

    /// Takes what came of looking at something.
    pub fn take(
        &mut self,
        source_kind: ObservationSourceKind,
        result: Result<Observation, DiscoveryDiagnosticCode>,
        max_observations: usize,
    ) -> (r: bool)
        ensures
            (final(self)@, r) == old(self)@.took(
                source_kind,
                observation::observed(result),
                max_observations as nat,
            ),
    {
        match result {
            Ok(o) => self.push_observation(o, max_observations),
            Err(code) => {
                self.push_diagnostic(source_kind, code);
                true
            },
        }
    }
}

/// What a collection may hold: no diagnostic twice, and no more observations than
/// there is room for.
pub open spec fn is_orderly(c: CollectionView, max: nat) -> bool {
    c.diagnostics.no_duplicates() && c.observations.len() <= max
}

/// A collection never holds a diagnostic twice and never more than its room.
pub proof fn law_collection_stays_orderly(
    c: CollectionView,
    source_kind: ObservationSourceKind,
    result: Result<observation::ObservationView, DiscoveryDiagnosticCode>,
    max: nat,
)
    requires
        is_orderly(c, max),
    ensures
        is_orderly(c.took(source_kind, result, max).0, max),
{
    if let Err(code) = result {
        let d = DiscoveryDiagnostic { source_kind, code };
        if !c.diagnostics.contains(d) {
            let after = c.diagnostics.push(d);
            assert forall|i: int, j: int| 0 <= i < j < after.len() implies after[i] != after[j] by {
                if j == c.diagnostics.len() {
                    assert(c.diagnostics[i] == after[i]);
                    assert(c.diagnostics.contains(after[i]));
                }
            }
        }
    }
}

/// A full collection says so, and is left as it is.
pub proof fn law_full_collection_is_left(
    c: CollectionView,
    source_kind: ObservationSourceKind,
    o: observation::ObservationView,
    max: nat,
)
    requires
        c.observations.len() >= max,
    ensures
        c.took(source_kind, Ok(o), max) == (c, false),
{
}

// ---------------------------------------------------------------------------
// The directories of the search path.

/// What was found when a directory of the search path was looked at.
#[derive(Debug)]
pub enum DirectoryProbe {
    /// Its path does not start at a root.
    Relative,
    /// It is a link.
    Reparse,
    /// Where it leads could not be found out.
    Unresolved(DiscoveryDiagnosticCode),
    /// Where it leads.
    Canonical(String),
}

/// What was found when an entry of a directory was looked at.
#[derive(Debug)]
pub enum EntryProbe {
    Unreadable(DiscoveryDiagnosticCode),
    Reparse,
    /// It is no executable file.
    NotExecutable,
    Executable(ExecutableProbe),
}

/// Whether a file with that extension may be an executable.
pub fn is_windows_executable_file(extension: Option<&str>, windows: bool) -> (r: bool)
    ensures
        r == (!windows || (extension matches Some(e) && text::lower(e@) == text::lower("exe"@))),
{
    if !windows {
        return true;
    }
    match extension {
        Some(e) => same_text(lowered(e).as_str(), lowered("exe").as_str()),
        None => false,
    }
}

/// The state of a walk through the search path.
#[verifier::ext_equal]
pub struct PathScanView {
    pub collection: CollectionView,
    /// The directories that were listed, by their keys.
    pub seen: Set<Seq<char>>,
    /// How many directories were looked at.
    pub directories: nat,
    /// How many executables were taken in the directory.
    pub accepted: nat,
}

impl PathScanView {
    /// The state after a directory was looked at, and whether it is to be listed.
    pub open spec fn directory(self, probe: DirectoryProbe, windows: bool) -> (PathScanView, bool) {
        let kind = ObservationSourceKind::WindowsPath;
        let s = PathScanView { directories: self.directories + 1, ..self };
        match probe {
            DirectoryProbe::Relative => (
                PathScanView {
                    collection: s.collection.diagnosed(
                        kind,
                        DiscoveryDiagnosticCode::InvalidSourceRecord,
                    ),
                    ..s
                },
                false,
            ),
            DirectoryProbe::Reparse => (
                PathScanView {
                    collection: s.collection.diagnosed(
                        kind,
                        DiscoveryDiagnosticCode::ReparsePointRejected,
                    ),
                    ..s
                },
                false,
            ),
            DirectoryProbe::Unresolved(code) => (
                PathScanView { collection: s.collection.diagnosed(kind, code), ..s },
                false,
            ),
            DirectoryProbe::Canonical(path) => {
                let key = digest::path_key(path@, windows);
                if s.seen.contains(key) {
                    (s, false)
                } else {
                    (PathScanView { seen: s.seen.insert(key), accepted: 0, ..s }, true)
                }
            },
        }
    }

    /// The state after an entry was looked at, and whether to go on.
    pub open spec fn entry(self, probe: EntryProbe, max: nat) -> (PathScanView, bool) {
        let kind = ObservationSourceKind::WindowsPath;
        match probe {
            EntryProbe::Unreadable(code) => (
                PathScanView { collection: self.collection.diagnosed(kind, code), ..self },
                true,
            ),
            EntryProbe::Reparse => (
                PathScanView {
                    collection: self.collection.diagnosed(
                        kind,
                        DiscoveryDiagnosticCode::ReparsePointRejected,
                    ),
                    ..self
                },
                true,
            ),
            EntryProbe::NotExecutable => (self, true),
            EntryProbe::Executable(p) => {
                let result = observation::probed(
                    kind,
                    DiscoveryEvidence::WindowsPathEntry,
                    ObservationTrustLevel::Heuristic,
                    p,
                );
                let (collection, more) = self.collection.took(kind, result, max);
                (
                    PathScanView {
                        collection,
                        accepted: if result is Ok {
                            self.accepted + 1
                        } else {
                            self.accepted
                        },
                        ..self
                    },
                    more,
                )
            },
        }
    }
}

/// A walk through the search path.
pub struct PathScan {
    collection: WindowsProviderCollection,
    seen: TextMap<()>,
    directories: usize,
    accepted: usize,
    max_path_entries: usize,
    max_candidates_per_path_entry: usize,
    max_observations: usize,
    windows: bool,
}

impl PathScan {
    pub closed spec fn view(&self) -> PathScanView {
        PathScanView {
            collection: self.collection@,
            seen: self.seen@.dom(),
            directories: self.directories as nat,
            accepted: self.accepted as nat,
        }
    }

    /// The most directories, the most executables of one directory, and the most
    /// observations.
    pub closed spec fn limits(&self) -> (nat, nat, nat) {
        (
            self.max_path_entries as nat,
            self.max_candidates_per_path_entry as nat,
            self.max_observations as nat,
        )
    }

    /// Whether paths are not case-sensitive.
    pub closed spec fn is_windows(&self) -> bool {
        self.windows
    }

    pub fn new(
        max_path_entries: usize,
        max_candidates_per_path_entry: usize,
        max_observations: usize,
        windows: bool,
    ) -> (r: Self)
        ensures
            r@ == (PathScanView {
                collection: CollectionView { observations: seq![], diagnostics: seq![] },
                seen: Set::empty(),
                directories: 0,
                accepted: 0,
            }),
            r.limits() == (
                max_path_entries as nat,
                max_candidates_per_path_entry as nat,
                max_observations as nat,
            ),
            r.is_windows() == windows,
    {
        let r = PathScan {
            collection: WindowsProviderCollection::new(),
            seen: TextMap::new(),
            directories: 0,
            accepted: 0,
            max_path_entries,
            max_candidates_per_path_entry,
            max_observations,
            windows,
        };
        assert(r@.seen =~= Set::empty());
        r
    }

    /// Whether one more directory may be looked at.
    pub fn wants_directory(&self) -> (r: bool)
        ensures
            r == (self@.directories < self.limits().0),
    {
        self.directories < self.max_path_entries
    }

    /// Takes a directory, and says whether it is to be listed.
    pub fn on_directory(&mut self, probe: DirectoryProbe) -> (r: bool)
        requires
            old(self)@.directories < old(self).limits().0,
        ensures
            (final(self)@, r) == old(self)@.directory(probe, old(self).is_windows()),
            final(self).limits() == old(self).limits(),
            final(self).is_windows() == old(self).is_windows(),
    {
        self.directories = self.directories + 1;
        match probe {
            DirectoryProbe::Relative => {
                self.collection.push_diagnostic(
                    ObservationSourceKind::WindowsPath,
                    DiscoveryDiagnosticCode::InvalidSourceRecord,
                );
                false
            },
            DirectoryProbe::Reparse => {
                self.collection.push_diagnostic(
                    ObservationSourceKind::WindowsPath,
                    DiscoveryDiagnosticCode::ReparsePointRejected,
                );
                false
            },
            DirectoryProbe::Unresolved(code) => {
                self.collection.push_diagnostic(ObservationSourceKind::WindowsPath, code);
                false
            },
            DirectoryProbe::Canonical(path) => {
                let key = normalized_path_key(path.as_str(), self.windows);
                if self.seen.contains(key.as_str()) {
                    return false;
                }
                let ghost before = self.seen@.dom();
                let ghost text = key@;
                self.seen.insert(key, ());
                self.accepted = 0;
                assert(self.seen@.dom() =~= before.insert(text));
                true
            },
        }
    }

    /// Takes note of a directory that could not be listed.
    pub fn on_listing_failed(&mut self, code: DiscoveryDiagnosticCode)
        ensures
            final(self)@ == (PathScanView {
                collection: old(self)@.collection.diagnosed(
                    ObservationSourceKind::WindowsPath,
                    code,
                ),
                ..old(self)@
            }),
            final(self).limits() == old(self).limits(),
            final(self).is_windows() == old(self).is_windows(),
    {
        self.collection.push_diagnostic(ObservationSourceKind::WindowsPath, code);
    }

    /// Whether one more entry of the directory may be looked at.
    pub fn wants_entry(&self) -> (r: bool)
        ensures
            r == (self@.accepted < self.limits().1),
    {
        self.accepted < self.max_candidates_per_path_entry
    }

    /// Takes an entry of the directory, and says whether to go on.
    pub fn on_entry(&mut self, probe: EntryProbe) -> (r: bool)
        requires
            old(self)@.accepted < old(self).limits().1,
        ensures
            (final(self)@, r) == old(self)@.entry(probe, old(self).limits().2),
            final(self).limits() == old(self).limits(),
            final(self).is_windows() == old(self).is_windows(),
    {
        match probe {
            EntryProbe::Unreadable(code) => {
                self.collection.push_diagnostic(ObservationSourceKind::WindowsPath, code);
                true
            },
            EntryProbe::Reparse => {
                self.collection.push_diagnostic(
                    ObservationSourceKind::WindowsPath,
                    DiscoveryDiagnosticCode::ReparsePointRejected,
                );
                true
            },
            EntryProbe::NotExecutable => true,
            EntryProbe::Executable(p) => {
                let result = unknown_executable_observation(
                    ObservationSourceKind::WindowsPath,
                    DiscoveryEvidence::WindowsPathEntry,
                    ObservationTrustLevel::Heuristic,
                    p,
                );
                if result.is_ok() {
                    self.accepted = self.accepted + 1;
                }
                self.collection.take(
                    ObservationSourceKind::WindowsPath,
                    result,
                    self.max_observations,
                )
            },
        }
    }

    /// What was found.
    pub fn finish(self) -> (r: WindowsProviderCollection)
        ensures
            r@ == self@.collection,
    {
        self.collection
    }
}

// ---------------------------------------------------------------------------
// The entries of the registry.

pub open spec fn hive_text(hive: WindowsRegistryHive) -> Seq<char> {
    match hive {
        WindowsRegistryHive::CurrentUser => "CurrentUser"@,
        WindowsRegistryHive::LocalMachine => "LocalMachine"@,
    }
}

pub open spec fn view_text(view: WindowsRegistryView) -> Seq<char> {
    match view {
        WindowsRegistryView::Native => "Native"@,
        WindowsRegistryView::Wow6432 => "Wow6432"@,
    }
}

/// What an entry of the registry is told by.
pub open spec fn app_path_key(record: WindowsAppPathRecord, windows: bool) -> Seq<char> {
    hive_text(record.hive) + ":"@ + view_text(record.view) + ":"@ + digest::path_key(
        record.executable_path@,
        windows,
    )
}

fn app_path_key_text(record: &WindowsAppPathRecord, windows: bool) -> (r: String)
    ensures
        r@ == app_path_key(*record, windows),
{
    let mut r = match record.hive {
        WindowsRegistryHive::CurrentUser => "CurrentUser".to_owned(),
        WindowsRegistryHive::LocalMachine => "LocalMachine".to_owned(),
    };
    r.append(":");
    r.append(
        match record.view {
            WindowsRegistryView::Native => "Native",
            WindowsRegistryView::Wow6432 => "Wow6432",
        },
    );
    r.append(":");
    r.append(normalized_path_key(record.executable_path.as_str(), windows).as_str());
    r
}

/// A walk through records that are told by a text.
#[verifier::ext_equal]
pub struct ScanView {
    pub collection: CollectionView,
    pub seen: Set<Seq<char>>,
}

impl ScanView {
    /// The state after something was looked at, and whether to go on.
    pub open spec fn looked(
        self,
        kind: ObservationSourceKind,
        result: Result<observation::ObservationView, DiscoveryDiagnosticCode>,
        max: nat,
    ) -> (ScanView, bool) {
        let (collection, more) = self.collection.took(kind, result, max);
        (ScanView { collection, ..self }, more)
    }

    pub open spec fn diagnosed(
        self,
        kind: ObservationSourceKind,
        code: DiscoveryDiagnosticCode,
    ) -> ScanView {
        ScanView { collection: self.collection.diagnosed(kind, code), ..self }
    }
}

/// A walk through records. Each record is looked at once.
pub struct RecordScan {
    collection: WindowsProviderCollection,
    seen: TextMap<()>,
    max_observations: usize,
    windows: bool,
}

impl RecordScan {
    pub closed spec fn view(&self) -> ScanView {
        ScanView { collection: self.collection@, seen: self.seen@.dom() }
    }

    pub closed spec fn limit(&self) -> nat {
        self.max_observations as nat
    }

    /// Whether paths are not case-sensitive.
    pub closed spec fn is_windows(&self) -> bool {
        self.windows
    }

    /// The same walk, in another state.
    pub open spec fn follows(&self, before: &RecordScan) -> bool {
        self.limit() == before.limit() && self.is_windows() == before.is_windows()
    }

    /// A walk that begins with what reading the records has told.
    pub fn new(collection: WindowsProviderCollection, max_observations: usize, windows: bool) -> (r:
        Self)
        ensures
            r@ == (ScanView { collection: collection@, seen: Set::empty() }),
            r.limit() == max_observations,
            r.is_windows() == windows,
    {
        let r = RecordScan { collection, seen: TextMap::new(), max_observations, windows };
        assert(r@.seen =~= Set::empty());
        r
    }

    fn mark(&mut self, key: String) -> (r: bool)
        ensures
            r == !old(self)@.seen.contains(key@),
            final(self)@ == (ScanView { seen: old(self)@.seen.insert(key@), ..old(self)@ }),
            final(self).follows(old(self)),
    {
        if self.seen.contains(key.as_str()) {
            assert(self@.seen.insert(key@) =~= self@.seen);
            return false;
        }
        let ghost before = self.seen@.dom();
        let ghost text = key@;
        self.seen.insert(key, ());
        assert(self.seen@.dom() =~= before.insert(text));
        true
    }

    fn diagnose(&mut self, kind: ObservationSourceKind, code: DiscoveryDiagnosticCode)
        ensures
            final(self)@ == old(self)@.diagnosed(kind, code),
            final(self).follows(old(self)),
    {
        self.collection.push_diagnostic(kind, code);
    }

    /// Takes an entry of the registry, and says whether its executable is to be
    /// looked at.
    pub fn on_app_path(&mut self, record: &WindowsAppPathRecord) -> (r: bool)
        ensures
            ({
                let key = app_path_key(*record, old(self).is_windows());
                &&& r == !old(self)@.seen.contains(key)
                &&& final(self)@ == (ScanView { seen: old(self)@.seen.insert(key), ..old(self)@ })
            }),
            final(self).follows(old(self)),
    {
        let key = app_path_key_text(record, self.windows);
        self.mark(key)
    }

    /// Takes what was found when the executable of an entry was looked at.
    pub fn on_app_path_probe(&mut self, probe: ExecutableProbe) -> (r: bool)
        ensures
            (final(self)@, r) == old(self)@.looked(
                ObservationSourceKind::WindowsAppPath,
                observation::probed(
                    ObservationSourceKind::WindowsAppPath,
                    DiscoveryEvidence::WindowsAppPathRegistry,
                    ObservationTrustLevel::Heuristic,
                    probe,
                ),
                old(self).limit(),
            ),
            final(self).follows(old(self)),
    {
        let result = unknown_executable_observation(
            ObservationSourceKind::WindowsAppPath,
            DiscoveryEvidence::WindowsAppPathRegistry,
            ObservationTrustLevel::Heuristic,
            probe,
        );
        self.collection.take(ObservationSourceKind::WindowsAppPath, result, self.max_observations)
    }

    /// Takes the place of the executable of a package, and says whether it is to be
    /// looked at.
    pub fn on_package(&mut self, executable: &Result<String, DiscoveryDiagnosticCode>) -> (r: bool)
        ensures
            match *executable {
                Ok(_) => r && final(self)@ == old(self)@,
                Err(code) => !r && final(self)@ == old(self)@.diagnosed(
                    ObservationSourceKind::WindowsPackage,
                    code,
                ),
            },
            final(self).follows(old(self)),
    {
        match executable {
            Ok(_) => true,
            Err(code) => {
                self.diagnose(ObservationSourceKind::WindowsPackage, *code);
                false
            },
        }
    }

    /// Takes what was found when the executable of a package was looked at.
    pub fn on_package_probe(
        &mut self,
        family: &str,
        absolute: bool,
        parts: &Vec<PathPart>,
        probe: ExecutableProbe,
        again: Result<String, DiscoveryDiagnosticCode>,
    ) -> (r: bool)
        ensures
            (final(self)@, r) == old(self)@.looked(
                ObservationSourceKind::WindowsPackage,
                packaged(family@, absolute, parts@, probe, identity_view(again)),
                old(self).limit(),
            ),
            final(self).follows(old(self)),
    {
        let result = unknown_package_observation(family, absolute, parts, probe, again);
        self.collection.take(ObservationSourceKind::WindowsPackage, result, self.max_observations)
    }

    /// Takes a listener, and says which executable is to be looked at, if any.
    pub fn on_listener(
        &mut self,
        record: &WindowsLoopbackListenerRecord,
        recheck: Option<&Vec<WindowsLoopbackListenerRecord>>,
    ) -> (r: Option<String>)
        ensures
            ({
                let again = match recheck {
                    Some(all) => Some(all@),
                    None => None,
                };
                match listener_view(*record, again, old(self).is_windows()) {
                    ListenerView::Refused(code) => r is None && final(self)@ == old(self)@.diagnosed(ObservationSourceKind::LoopbackListener, code),
                    ListenerView::Owned(executable) => {
                        let key = digest::path_key(executable, old(self).is_windows());
                        &&& final(self)@ == (ScanView {
                            seen: old(self)@.seen.insert(key),
                            ..old(self)@
                        })
                        &&& if old(self)@.seen.contains(key) {
                            r is None
                        } else {
                            r matches Some(s) && s@ == executable
                        }
                    },
                }
            }),
            final(self).follows(old(self)),
    {
        let parts = match parse_ip(record.address.as_str()) {
            Some(parts) => parts,
            None => {
                self.diagnose(
                    ObservationSourceKind::LoopbackListener,
                    DiscoveryDiagnosticCode::InvalidSourceRecord,
                );
                return None;
            },
        };
        if loopback_address(&parts).is_none() {
            self.diagnose(
                ObservationSourceKind::LoopbackListener,
                DiscoveryDiagnosticCode::NonLoopbackRejected,
            );
            return None;
        }
        let executable = match &record.owner_executable {
            Some(s) => s,
            None => {
                self.diagnose(
                    ObservationSourceKind::LoopbackListener,
                    DiscoveryDiagnosticCode::SourceDisappeared,
                );
                return None;
            },
        };
        if let Some(all) = recheck {
            if !loopback_record_survives_recheck(record, all, self.windows) {
                self.diagnose(
                    ObservationSourceKind::LoopbackListener,
                    DiscoveryDiagnosticCode::SourceDisappeared,
                );
                return None;
            }
        }
        let key = normalized_path_key(executable.as_str(), self.windows);
        if self.mark(key) {
            Some(executable.clone())
        } else {
            None
        }
    }

    /// Takes what was found when the owner of a listener was looked at.
    pub fn on_listener_probe(&mut self, probe: ExecutableProbe) -> (r: bool)
        ensures
            (final(self)@, r) == old(self)@.looked(
                ObservationSourceKind::LoopbackListener,
                listening(probe),
                old(self).limit(),
            ),
            final(self).follows(old(self)),
    {
        let result = unknown_executable_observation(
            ObservationSourceKind::LoopbackListener,
            DiscoveryEvidence::LoopbackListener,
            ObservationTrustLevel::Heuristic,
            probe,
        );
        let result = match result {
            Ok(o) => {
                let mut o = o;
                o.display_name = "Loopback listener".to_owned();
                Ok(o)
            },
            Err(code) => Err(code),
        };
        self.collection.take(
            ObservationSourceKind::LoopbackListener,
            result,
            self.max_observations,
        )
    }

    /// Takes an endpoint that the user has named.
    pub fn on_endpoint(&mut self, named: &str) -> (r: bool)
        ensures
            (final(self)@, r) == old(self)@.looked(
                ObservationSourceKind::UserSelected,
                match endpoint::normalized_endpoint(named@) {
                    Ok(s) => Ok(observation::unknown_endpoint(s)),
                    Err(code) => Err(code),
                },
                old(self).limit(),
            ),
            final(self).follows(old(self)),
    {
        let result = match normalize_explicit_loopback_endpoint(named) {
            Ok(s) => Ok(unknown_endpoint_observation(s.as_str())),
            Err(code) => Err(code),
        };
        self.collection.take(ObservationSourceKind::UserSelected, result, self.max_observations)
    }

    /// Takes what was found when an executable that the user has named was looked
    /// at.
    pub fn on_selected_probe(&mut self, probe: ExecutableProbe) -> (r: bool)
        ensures
            (final(self)@, r) == old(self)@.looked(
                ObservationSourceKind::UserSelected,
                observation::probed(
                    ObservationSourceKind::UserSelected,
                    DiscoveryEvidence::UserSelected,
                    ObservationTrustLevel::UserSelected,
                    probe,
                ),
                old(self).limit(),
            ),
            final(self).follows(old(self)),
    {
        let result = unknown_executable_observation(
            ObservationSourceKind::UserSelected,
            DiscoveryEvidence::UserSelected,
            ObservationTrustLevel::UserSelected,
            probe,
        );
        self.collection.take(ObservationSourceKind::UserSelected, result, self.max_observations)
    }

    /// Takes what came of looking at a package that a runner could start. A failure
    /// to ask the runner is taken in the same way.
    pub fn on_runner(&mut self, result: Result<Observation, DiscoveryDiagnosticCode>) -> (r: bool)
        ensures
            (final(self)@, r) == old(self)@.looked(
                ObservationSourceKind::ExecutableInventory,
                observation::observed(result),
                old(self).limit(),
            ),
            final(self).follows(old(self)),
    {
        self.collection.take(
            ObservationSourceKind::ExecutableInventory,
            result,
            self.max_observations,
        )
    }

    /// Whether there is room for more.
    pub fn has_room(&self) -> (r: bool)
        ensures
            r == (self@.collection.observations.len() < self.limit()),
    {
        self.collection.observations.len() < self.max_observations
    }

    /// What was found.
    pub fn finish(self) -> (r: WindowsProviderCollection)
        ensures
            r@ == self@.collection,
    {
        self.collection
    }
}

// ---------------------------------------------------------------------------
// Packages.

pub open spec fn identity_view(r: Result<String, DiscoveryDiagnosticCode>) -> Result<
    Seq<char>,
    DiscoveryDiagnosticCode,
> {
    match r {
        Ok(s) => Ok(s@),
        Err(code) => Err(code),
    }
}

/// The observation of a packaged executable: it is told by its package, and is
/// associated with the file twice looked at.
pub open spec fn packaged(
    family: Seq<char>,
    absolute: bool,
    parts: Seq<PathPart>,
    probe: ExecutableProbe,
    again: Result<Seq<char>, DiscoveryDiagnosticCode>,
) -> Result<observation::ObservationView, DiscoveryDiagnosticCode> {
    match observation::probed(
        ObservationSourceKind::WindowsPackage,
        DiscoveryEvidence::WindowsPackageInventory,
        ObservationTrustLevel::Heuristic,
        probe,
    ) {
        Err(code) => Err(code),
        Ok(o) => match again {
            Err(code) => Err(code),
            Ok(identity) => match paths::package_identity(family, absolute, parts) {
                None => Err(DiscoveryDiagnosticCode::InvalidSourceRecord),
                Some(fingerprint) => Ok(
                    observation::ObservationView {
                        fingerprint,
                        association_fingerprints: o.association_fingerprints.push(
                            observation::executable_identity(identity),
                        ),
                        ..o
                    },
                ),
            },
        },
    }
}

pub fn unknown_package_observation(
    family: &str,
    absolute: bool,
    parts: &Vec<PathPart>,
    probe: ExecutableProbe,
    again: Result<String, DiscoveryDiagnosticCode>,
) -> (r: Result<Observation, DiscoveryDiagnosticCode>)
    ensures
        observation::observed(r) == packaged(
            family@,
            absolute,
            parts@,
            probe,
            identity_view(again),
        ),
{
    let o = match unknown_executable_observation(
        ObservationSourceKind::WindowsPackage,
        DiscoveryEvidence::WindowsPackageInventory,
        ObservationTrustLevel::Heuristic,
        probe,
    ) {
        Ok(o) => o,
        Err(code) => {
            return Err(code);
        },
    };
    let identity = match again {
        Ok(s) => s,
        Err(code) => {
            return Err(code);
        },
    };
    match package_stable_identity(family, absolute, parts) {
        Ok(fingerprint) => {
            let mut o = o;
            let ghost before = o@;
            let second = windows_executable_identity_fingerprint(identity.as_str());
            o.fingerprint = fingerprint;
            o.association_fingerprints.push(second);
            proof {
                assert(o@.association_fingerprints =~= before.association_fingerprints.push(
                    observation::executable_identity(identity@),
                ));
                assert(o@ =~= (observation::ObservationView {
                    fingerprint: fingerprint@,
                    association_fingerprints: before.association_fingerprints.push(
                        observation::executable_identity(identity@),
                    ),
                    ..before
                }));
            }
            Ok(o)
        },
        Err(code) => Err(code),
    }
}

// ---------------------------------------------------------------------------
// Listeners.

/// Whether two owners have the same executable, or none.
pub open spec fn same_owner(a: Option<String>, b: Option<String>, windows: bool) -> bool {
    match (a, b) {
        (Some(x), Some(y)) => paths::same_components(x@, y@, windows),
        (None, None) => true,
        _ => false,
    }
}

/// Whether two listeners are the same in all that counts.
pub open spec fn same_listener(
    a: WindowsLoopbackListenerRecord,
    b: WindowsLoopbackListenerRecord,
    windows: bool,
) -> bool {
    &&& a.address@ == b.address@
    &&& a.port == b.port
    &&& a.owner_pid == b.owner_pid
    &&& text::opt_text(a.owner_identity) == text::opt_text(b.owner_identity)
    &&& same_owner(a.owner_executable, b.owner_executable, windows)
}

fn same_opt(a: &Option<String>, b: &Option<String>) -> (r: bool)
    ensures
        r == (text::opt_text(*a) == text::opt_text(*b)),
{
    match (a, b) {
        (Some(x), Some(y)) => same_text(x.as_str(), y.as_str()),
        (None, None) => true,
        _ => false,
    }
}

fn owned_alike(a: &Option<String>, b: &Option<String>, windows: bool) -> (r: bool)
    ensures
        r == same_owner(*a, *b, windows),
{
    match (a, b) {
        (Some(x), Some(y)) => have_same_components(x.as_str(), y.as_str(), windows),
        (None, None) => true,
        _ => false,
    }
}

/// Whether a listener is still there when it is looked for again.
pub open spec fn survives(
    record: WindowsLoopbackListenerRecord,
    again: Seq<WindowsLoopbackListenerRecord>,
    windows: bool,
) -> bool {
    exists|i: int| 0 <= i < again.len() && same_listener(#[trigger] again[i], record, windows)
}

pub fn loopback_record_survives_recheck(
    record: &WindowsLoopbackListenerRecord,
    recheck_records: &Vec<WindowsLoopbackListenerRecord>,
    windows: bool,
) -> (r: bool)
    ensures
        r == survives(*record, recheck_records@, windows),
{
    let mut i: usize = 0;
    while i < recheck_records.len()
        invariant
            i <= recheck_records@.len(),
            forall|k: int|
                0 <= k < i ==> !same_listener(#[trigger] recheck_records@[k], *record, windows),
        decreases recheck_records@.len() - i,
    {
        let c = &recheck_records[i];
        if same_text(c.address.as_str(), record.address.as_str()) && c.port == record.port
            && c.owner_pid == record.owner_pid && same_opt(&c.owner_identity, &record.owner_identity)
            && owned_alike(&c.owner_executable, &record.owner_executable, windows) {
            assert(same_listener(recheck_records@[i as int], *record, windows));
            return true;
        }
        i += 1;
    }
    false
}

/// What a listener comes to.
pub enum ListenerView {
    Refused(DiscoveryDiagnosticCode),
    /// It belongs to an executable that may be looked at.
    Owned(Seq<char>),
}

/// What a listener comes to. It must be on this machine, have an owner, and still
/// be there when it is looked for again.
pub open spec fn listener_view(
    record: WindowsLoopbackListenerRecord,
    again: Option<Seq<WindowsLoopbackListenerRecord>>,
    windows: bool,
) -> ListenerView {
    match address::ip_parts(record.address@) {
        None => ListenerView::Refused(DiscoveryDiagnosticCode::InvalidSourceRecord),
        Some(parts) => if address::loopback(parts) is None {
            ListenerView::Refused(DiscoveryDiagnosticCode::NonLoopbackRejected)
        } else {
            match record.owner_executable {
                None => ListenerView::Refused(DiscoveryDiagnosticCode::SourceDisappeared),
                Some(executable) => if again is Some && !survives(record, again->0, windows) {
                    ListenerView::Refused(DiscoveryDiagnosticCode::SourceDisappeared)
                } else {
                    ListenerView::Owned(executable@)
                },
            }
        },
    }
}

/// The observation of the owner of a listener.
pub open spec fn listening(probe: ExecutableProbe) -> Result<
    observation::ObservationView,
    DiscoveryDiagnosticCode,
> {
    match observation::probed(
        ObservationSourceKind::LoopbackListener,
        DiscoveryEvidence::LoopbackListener,
        ObservationTrustLevel::Heuristic,
        probe,
    ) {
        Ok(o) => Ok(observation::ObservationView { display_name: "Loopback listener"@, ..o }),
        Err(code) => Err(code),
    }
}

pub const MAX_REAL_LOOPBACK_RECORDS: usize = 2_048;

/// Takes what came of looking at a listener again. A listener that is gone is told
/// by a diagnostic.
pub fn push_loopback_verification_result(
    collection: &mut WindowsProviderCollection,
    records: &mut Vec<WindowsLoopbackListenerRecord>,
    result: Result<Option<WindowsLoopbackListenerRecord>, DiscoveryDiagnosticCode>,
)
    ensures
        match result {
            Ok(Some(record)) => final(records)@ == old(records)@.push(record) && final(collection)@ == old(collection)@,
            Ok(None) => final(records)@ == old(records)@ && final(collection)@ == old(collection)@.diagnosed(
                ObservationSourceKind::LoopbackListener,
                DiscoveryDiagnosticCode::SourceDisappeared,
            ),
            Err(code) => final(records)@ == old(records)@ && final(collection)@ == old(collection)@.diagnosed(ObservationSourceKind::LoopbackListener, code),
        },
{
    match result {
        Ok(Some(record)) => {
            records.push(record);
        },
        Ok(None) => {
            collection.push_diagnostic(
                ObservationSourceKind::LoopbackListener,
                DiscoveryDiagnosticCode::SourceDisappeared,
            );
        },
        Err(code) => {
            collection.push_diagnostic(ObservationSourceKind::LoopbackListener, code);
        },
    }
}

/// A row of the table of listeners.
#[derive(Debug)]
pub struct ListenerRow {
    pub listening: bool,
    pub address: Vec<u16>,
    pub port: u16,
    pub owner_pid: u32,
}

/// Whether a row of the table is a listener on this machine.
pub fn is_loopback_row(row: &ListenerRow) -> (r: bool)
    ensures
        r == (row.listening && address::loopback(row.address@) is Some),
{
    row.listening && loopback_address(&row.address).is_some()
}

fn same_numbers(a: &Vec<u16>, b: &Vec<u16>) -> (r: bool)
    ensures
        r == (a@ == b@),
{
    if a.len() != b.len() {
        return false;
    }
    let mut i: usize = 0;
    while i < a.len()
        invariant
            i <= a@.len(),
            a@.len() == b@.len(),
            forall|k: int| 0 <= k < i ==> a@[k] == b@[k],
        decreases a@.len() - i,
    {
        if a[i] != b[i] {
            return false;
        }
        i += 1;
    }
    assert(a@ =~= b@);
    true
}

/// Whether a row is that listener, while its owner is the same process as before.
pub open spec fn is_row(
    row: ListenerRow,
    address: Seq<u16>,
    port: u16,
    owner_pid: u32,
) -> bool {
    row.listening && row.owner_pid == owner_pid && row.port == port && row.address@ == address
}

/// Whether a listener is still in the table, with the same process as its owner:
/// `before` and `now` tell the identity and the executable of the owner.
pub fn loopback_row_survives_recheck(
    rows: &Vec<ListenerRow>,
    address: &Vec<u16>,
    port: u16,
    owner_pid: u32,
    before: (&str, &str),
    now: (&str, &str),
) -> (r: bool)
    ensures
        r == (before.0@ == now.0@ && paths::same_components(before.1@, now.1@, true) && exists|i: int|
            0 <= i < rows@.len() && is_row(#[trigger] rows@[i], address@, port, owner_pid)),
{
    if !same_text(before.0, now.0) || !have_same_components(before.1, now.1, true) {
        return false;
    }
    let mut i: usize = 0;
    while i < rows.len()
        invariant
            i <= rows@.len(),
            before.0@ == now.0@,
            paths::same_components(before.1@, now.1@, true),
            forall|k: int|
                0 <= k < i ==> !is_row(#[trigger] rows@[k], address@, port, owner_pid),
        decreases rows@.len() - i,
    {
        let row = &rows[i];
        if row.listening && row.owner_pid == owner_pid && row.port == port && same_numbers(
            &row.address,
            address,
        ) {
            assert(is_row(rows@[i as int], address@, port, owner_pid));
            return true;
        }
        i += 1;
    }
    false
}

/// Keeps the most listeners that are looked at.
pub fn keep_listeners(records: &mut Vec<WindowsLoopbackListenerRecord>)
    ensures
        final(records)@ == if old(records)@.len() <= MAX_REAL_LOOPBACK_RECORDS {
            old(records)@
        } else {
            old(records)@.take(MAX_REAL_LOOPBACK_RECORDS as int)
        },
{
    records.truncate(MAX_REAL_LOOPBACK_RECORDS);
    assert(records@ =~= if old(records)@.len() <= MAX_REAL_LOOPBACK_RECORDS {
        old(records)@
    } else {
        old(records)@.take(MAX_REAL_LOOPBACK_RECORDS as int)
    });
}

} // verus!
