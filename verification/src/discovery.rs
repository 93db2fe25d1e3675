//! Local discovery as a whole: its configuration, the workers that it is handed to,
//! and the report that it ends with.

use vstd::prelude::*;
use vstd::string::*;

use crate::codex_launch::choose_binary;
use crate::event::copy_text;
use crate::kun_record;
use crate::kun_record::same_local_path;
use crate::observation::{
    copy_texts, DiscoveryDiagnosticCode, ObservationSourceKind,
};
use crate::order;
use crate::order::text_precedes;
use crate::passive::{
    ExplicitDiscoverySource, WindowsAppPathRecord, WindowsLoopbackListenerRecord,
    WindowsPackageRecord,
};
use crate::runtimes::KUN_SERVICE_VERSION;
use crate::text;
use crate::text::same_text;

verus! {

/// Two seconds.
pub const LOCAL_DISCOVERY_REQUEST_TIMEOUT_NS: u128 = 2_000_000_000;

/// Where the known connectors are looked for. No root is walked.
#[derive(Clone, Debug)]
pub struct LocalConnectorDiscoveryConfig {
    pub codex_binary_paths: Vec<String>,
    pub kun_data_dirs: Vec<String>,
    pub kun_install_dirs: Vec<String>,
    pub kun_expected_service_version: String,
    pub request_timeout_ns: u128,
}

#[verifier::ext_equal]
pub struct LocalConfigView {
    pub codex_binary_paths: Seq<Seq<char>>,
    pub kun_data_dirs: Seq<Seq<char>>,
    pub kun_install_dirs: Seq<Seq<char>>,
    pub kun_expected_service_version: Seq<char>,
    pub request_timeout_ns: u128,
}

impl View for LocalConnectorDiscoveryConfig {
    type V = LocalConfigView;

    open spec fn view(&self) -> LocalConfigView {
        LocalConfigView {
            codex_binary_paths: text::texts(self.codex_binary_paths@),
            kun_data_dirs: text::texts(self.kun_data_dirs@),
            kun_install_dirs: text::texts(self.kun_install_dirs@),
            kun_expected_service_version: self.kun_expected_service_version@,
            request_timeout_ns: self.request_timeout_ns,
        }
    }
}

/// What the environment says of the connectors.
#[derive(Debug)]
pub struct DiscoveryEnvironment {
    /// A Codex binary that a variable names.
    pub explicit_codex: Option<String>,
    /// A Codex binary on the search path.
    pub codex_on_path: Option<String>,
    /// A Codex binary of the desktop application.
    pub codex_desktop: Option<String>,
    /// The data directory of Kun that a variable names.
    pub kun_data_dir: Option<String>,
    /// The data directory of Kun below the home directory.
    pub home_data_dir: Option<String>,
    /// The data directory of Kun where there is no home directory.
    pub local_data_dir: String,
    pub kun_install_dir: Option<String>,
}

/// The paths with one more, unless it is there.
pub open spec fn with_unique(paths: Seq<Seq<char>>, path: Seq<char>, windows: bool) -> Seq<
    Seq<char>,
> {
    if exists|i: int|
        0 <= i < paths.len() && kun_record::same_path(#[trigger] paths[i], path, windows) {
        paths
    } else {
        paths.push(path)
    }
}

pub fn push_unique_local_path(paths: &mut Vec<String>, path: String, windows: bool)
    ensures
        text::texts(final(paths)@) == with_unique(text::texts(old(paths)@), path@, windows),
{
    let ghost all = text::texts(paths@);
    let mut i: usize = 0;
    while i < paths.len()
        invariant
            i <= paths@.len(),
            paths@ == old(paths)@,
            all == text::texts(paths@),
            forall|k: int|
                0 <= k < i ==> !kun_record::same_path(#[trigger] all[k], path@, windows),
        decreases paths@.len() - i,
    {
        if same_local_path(paths[i].as_str(), path.as_str(), windows) {
            assert(kun_record::same_path(all[i as int], path@, windows));
            return ;
        }
        i += 1;
    }
    let ghost before = paths@;
    paths.push(path);
    assert(text::texts(paths@) =~= text::texts(before).push(path@));
}

/// The Codex binaries that are looked at. One that a variable names stands alone.
pub open spec fn codex_paths(env: DiscoveryEnvironment, windows: bool) -> Seq<Seq<char>> {
    match env.explicit_codex {
        Some(p) => seq![p@],
        None => {
            let found = match env.codex_on_path {
                Some(p) => seq![p@],
                None => seq![],
            };
            match env.codex_desktop {
                Some(p) => with_unique(found, p@, windows),
                None => found,
            }
        },
    }
}

pub open spec fn one_or_none(v: Option<String>) -> Seq<Seq<char>> {
    match v {
        Some(s) => seq![s@],
        None => seq![],
    }
}

fn list_of(v: Option<String>) -> (r: Vec<String>)
    ensures
        text::texts(r@) == one_or_none(v),
{
    let mut r: Vec<String> = Vec::new();
    match v {
        Some(s) => {
            r.push(s);
        },
        None => {},
    }
    assert(text::texts(r@) =~= one_or_none(v));
    r
}

impl LocalConnectorDiscoveryConfig {
    /// The configuration that the environment gives.
    pub fn from_environment(env: DiscoveryEnvironment, windows: bool) -> (r: Self)
        ensures
            r@ == (LocalConfigView {
                codex_binary_paths: codex_paths(env, windows),
                kun_data_dirs: seq![
                    match env.kun_data_dir {
                        Some(d) => d@,
                        None => match env.home_data_dir {
                            Some(d) => d@,
                            None => env.local_data_dir@,
                        },
                    },
                ],
                kun_install_dirs: one_or_none(env.kun_install_dir),
                kun_expected_service_version: KUN_SERVICE_VERSION@,
                request_timeout_ns: LOCAL_DISCOVERY_REQUEST_TIMEOUT_NS,
            }),
    {
        let ghost given = env;
        let codex_binary_paths = match env.explicit_codex {
            Some(p) => list_of(Some(p)),
            None => {
                let mut found = list_of(env.codex_on_path);
                match env.codex_desktop {
                    Some(p) => {
                        push_unique_local_path(&mut found, p, windows);
                    },
                    None => {},
                }
                found
            },
        };
        let data_dir = match env.kun_data_dir {
            Some(d) => d,
            None => match env.home_data_dir {
                Some(d) => d,
                None => env.local_data_dir,
            },
        };
        LocalConnectorDiscoveryConfig {
            codex_binary_paths,
            kun_data_dirs: list_of(Some(data_dir)),
            kun_install_dirs: list_of(env.kun_install_dir),
            kun_expected_service_version: KUN_SERVICE_VERSION.to_owned(),
            request_timeout_ns: LOCAL_DISCOVERY_REQUEST_TIMEOUT_NS,
        }
    }
}

/// What a passive discovery on Windows looks at.
#[derive(Clone, Debug, PartialEq, Eq)]
pub struct WindowsPassiveDiscoveryConfig {
    pub path_env: Option<String>,
    pub app_path_records: Vec<WindowsAppPathRecord>,
    pub package_records: Vec<WindowsPackageRecord>,
    pub loopback_records: Vec<WindowsLoopbackListenerRecord>,
    pub loopback_recheck_records: Option<Vec<WindowsLoopbackListenerRecord>>,
    pub explicit_sources: Vec<ExplicitDiscoverySource>,
    pub use_real_app_paths: bool,
    pub use_real_packages: bool,
    pub use_real_loopback: bool,
    pub max_results: usize,
    pub max_path_entries: usize,
    pub max_candidates_per_path_entry: usize,
    pub request_timeout_ns: u128,
}

impl WindowsPassiveDiscoveryConfig {
    /// The configuration for a search path: on Windows the tables of the system are
    /// looked at too.
    pub fn for_path(path_env: Option<String>, windows: bool) -> (r: Self)
        ensures
            r.path_env == path_env,
            r.app_path_records@.len() == 0,
            r.package_records@.len() == 0,
            r.loopback_records@.len() == 0,
            r.loopback_recheck_records is None,
            r.explicit_sources@.len() == 0,
            r.use_real_app_paths == windows,
            r.use_real_packages == windows,
            r.use_real_loopback == windows,
            r.max_results == 32,
            r.max_path_entries == 256,
            r.max_candidates_per_path_entry == 64,
            r.request_timeout_ns == LOCAL_DISCOVERY_REQUEST_TIMEOUT_NS,
    {
        WindowsPassiveDiscoveryConfig {
            path_env,
            app_path_records: Vec::new(),
            package_records: Vec::new(),
            loopback_records: Vec::new(),
            loopback_recheck_records: None,
            explicit_sources: Vec::new(),
            use_real_app_paths: windows,
            use_real_packages: windows,
            use_real_loopback: windows,
            max_results: 32,
            max_path_entries: 256,
            max_candidates_per_path_entry: 64,
            request_timeout_ns: LOCAL_DISCOVERY_REQUEST_TIMEOUT_NS,
        }
    }
}

// ---------------------------------------------------------------------------
// What a worker is told.

/// Nanoseconds as milliseconds, as far as they can be told.
pub open spec fn whole_ms(ns: u128) -> u64 {
    if ns / 1_000_000 <= u64::MAX {
        (ns / 1_000_000) as u64
    } else {
        u64::MAX
    }
}

pub fn milliseconds(ns: u128) -> (r: u64)
    ensures
        r == whole_ms(ns),
{
    let ms: u128 = ns / 1_000_000;
    if ms <= u64::MAX as u128 {
        ms as u64
    } else {
        u64::MAX
    }
}

/// What a worker is told of where the known connectors are looked for.
#[derive(Debug)]
pub struct WorkerDiscoveryConfig {
    pub codex_binary_paths: Vec<String>,
    pub kun_data_dirs: Vec<String>,
    pub kun_install_dirs: Vec<String>,
    pub kun_expected_service_version: String,
    pub request_timeout_ms: u64,
}

#[verifier::ext_equal]
pub struct WorkerConfigView {
    pub codex_binary_paths: Seq<Seq<char>>,
    pub kun_data_dirs: Seq<Seq<char>>,
    pub kun_install_dirs: Seq<Seq<char>>,
    pub kun_expected_service_version: Seq<char>,
    pub request_timeout_ms: u64,
}

impl View for WorkerDiscoveryConfig {
    type V = WorkerConfigView;

    open spec fn view(&self) -> WorkerConfigView {
        WorkerConfigView {
            codex_binary_paths: text::texts(self.codex_binary_paths@),
            kun_data_dirs: text::texts(self.kun_data_dirs@),
            kun_install_dirs: text::texts(self.kun_install_dirs@),
            kun_expected_service_version: self.kun_expected_service_version@,
            request_timeout_ms: self.request_timeout_ms,
        }
    }
}

pub open spec fn worker_view(c: LocalConfigView) -> WorkerConfigView {
    WorkerConfigView {
        codex_binary_paths: c.codex_binary_paths,
        kun_data_dirs: c.kun_data_dirs,
        kun_install_dirs: c.kun_install_dirs,
        kun_expected_service_version: c.kun_expected_service_version,
        request_timeout_ms: whole_ms(c.request_timeout_ns),
    }
}

pub open spec fn host_view(c: WorkerConfigView) -> LocalConfigView {
    LocalConfigView {
        codex_binary_paths: c.codex_binary_paths,
        kun_data_dirs: c.kun_data_dirs,
        kun_install_dirs: c.kun_install_dirs,
        kun_expected_service_version: c.kun_expected_service_version,
        request_timeout_ns: (c.request_timeout_ms * 1_000_000) as u128,
    }
}

impl WorkerDiscoveryConfig {
    pub fn of(config: &LocalConnectorDiscoveryConfig) -> (r: Self)
        ensures
            r@ == worker_view(config@),
    {
        WorkerDiscoveryConfig {
            codex_binary_paths: copy_texts(&config.codex_binary_paths),
            kun_data_dirs: copy_texts(&config.kun_data_dirs),
            kun_install_dirs: copy_texts(&config.kun_install_dirs),
            kun_expected_service_version: config.kun_expected_service_version.clone(),
            request_timeout_ms: milliseconds(config.request_timeout_ns),
        }
    }

    pub fn into_config(self) -> (r: LocalConnectorDiscoveryConfig)
        ensures
            r@ == host_view(self@),
    {
        LocalConnectorDiscoveryConfig {
            codex_binary_paths: self.codex_binary_paths,
            kun_data_dirs: self.kun_data_dirs,
            kun_install_dirs: self.kun_install_dirs,
            kun_expected_service_version: self.kun_expected_service_version,
            request_timeout_ns: self.request_timeout_ms as u128 * 1_000_000,
        }
    }
}

/// A worker works with the configuration that its host has, as long as the time that
/// a request may take is told in whole milliseconds.
pub proof fn law_worker_config_reads_back(c: LocalConfigView)
    requires
        c.request_timeout_ns % 1_000_000 == 0,
        c.request_timeout_ns / 1_000_000 <= u64::MAX,
    ensures
        host_view(worker_view(c)) == c,
{
    assert(host_view(worker_view(c)) =~= c);
}

/// What is handed to a worker and read back is handed on unchanged.
pub proof fn law_worker_config_settles(c: WorkerConfigView)
    ensures
        worker_view(host_view(c)) == c,
{
    assert(worker_view(host_view(c)) =~= c);
}

/// What a worker is told of a passive discovery on Windows.
#[derive(Debug)]
pub struct WindowsPassiveWorkerConfig {
    pub path_env: Option<String>,
    pub app_path_records: Vec<WindowsAppPathRecord>,
    pub package_records: Vec<WindowsPackageRecord>,
    pub loopback_records: Vec<WindowsLoopbackListenerRecord>,
    pub loopback_recheck_records: Option<Vec<WindowsLoopbackListenerRecord>>,
    pub explicit_sources: Vec<ExplicitDiscoverySource>,
    pub use_real_app_paths: bool,
    pub use_real_packages: bool,
    pub use_real_loopback: bool,
    pub max_path_entries: usize,
    pub max_candidates_per_path_entry: usize,
}

/// Copies of things that have a view.
fn copies<V: Clone + View>(all: &Vec<V>) -> (r: Vec<V>)
    requires
        forall|a: V, b: V| #[trigger] cloned(a, b) ==> a@ == b@,
    ensures
        r@.len() == all@.len(),
        forall|i: int| 0 <= i < all@.len() ==> (#[trigger] r@[i])@ == all@[i]@,
{
    let mut r: Vec<V> = Vec::new();
    let mut i: usize = 0;
    while i < all.len()
        invariant
            forall|a: V, b: V| #[trigger] cloned(a, b) ==> a@ == b@,
            i <= all@.len(),
            r@.len() == i,
            forall|k: int| 0 <= k < i ==> (#[trigger] r@[k])@ == all@[k]@,
        decreases all@.len() - i,
    {
        let x = all[i].clone();
        assert(cloned(all@[i as int], x));
        r.push(x);
        i += 1;
    }
    r
}

/// Whether two lists hold things with the same views.
pub open spec fn same_views<V: View>(a: Seq<V>, b: Seq<V>) -> bool {
    a.len() == b.len() && forall|i: int| 0 <= i < b.len() ==> (#[trigger] a[i])@ == b[i]@
}

impl WindowsPassiveWorkerConfig {
    pub fn of(config: &WindowsPassiveDiscoveryConfig) -> (r: Self)
        ensures
            text::opt_text(r.path_env) == text::opt_text(config.path_env),
            same_views(r.app_path_records@, config.app_path_records@),
            same_views(r.package_records@, config.package_records@),
            same_views(r.loopback_records@, config.loopback_records@),
            match (r.loopback_recheck_records, config.loopback_recheck_records) {
                (Some(a), Some(b)) => same_views(a@, b@),
                (None, None) => true,
                _ => false,
            },
            same_views(r.explicit_sources@, config.explicit_sources@),
            r.use_real_app_paths == config.use_real_app_paths,
            r.use_real_packages == config.use_real_packages,
            r.use_real_loopback == config.use_real_loopback,
            r.max_path_entries == config.max_path_entries,
            r.max_candidates_per_path_entry == config.max_candidates_per_path_entry,
    {
        WindowsPassiveWorkerConfig {
            path_env: copy_text(&config.path_env),
            app_path_records: copies(&config.app_path_records),
            package_records: copies(&config.package_records),
            loopback_records: copies(&config.loopback_records),
            loopback_recheck_records: match &config.loopback_recheck_records {
                Some(all) => Some(copies(all)),
                None => None,
            },
            explicit_sources: copies(&config.explicit_sources),
            use_real_app_paths: config.use_real_app_paths,
            use_real_packages: config.use_real_packages,
            use_real_loopback: config.use_real_loopback,
            max_path_entries: config.max_path_entries,
            max_candidates_per_path_entry: config.max_candidates_per_path_entry,
        }
    }
}

/// What a worker looks at.
#[derive(Clone, Copy, Debug, PartialEq, Eq, Structural)]
pub enum ManagedProviderWorkerKind {
    Codex,
    Kun,
    WindowsPath,
    WindowsAppPaths,
    WindowsPackages,
    WindowsRunnerInstallations,
    WindowsLoopbackListeners,
    ExplicitSources,
}

/// The source that the findings of a worker come from.
pub open spec fn source_of(kind: ManagedProviderWorkerKind) -> ObservationSourceKind {
    match kind {
        ManagedProviderWorkerKind::Codex => ObservationSourceKind::ExecutableInventory,
        ManagedProviderWorkerKind::Kun => ObservationSourceKind::RuntimeRecord,
        ManagedProviderWorkerKind::WindowsPath => ObservationSourceKind::WindowsPath,
        ManagedProviderWorkerKind::WindowsAppPaths => ObservationSourceKind::WindowsAppPath,
        ManagedProviderWorkerKind::WindowsPackages => ObservationSourceKind::WindowsPackage,
        ManagedProviderWorkerKind::WindowsRunnerInstallations =>
            ObservationSourceKind::ExecutableInventory,
        ManagedProviderWorkerKind::WindowsLoopbackListeners =>
            ObservationSourceKind::LoopbackListener,
        ManagedProviderWorkerKind::ExplicitSources => ObservationSourceKind::UserSelected,
    }
}

pub fn worker_source(kind: ManagedProviderWorkerKind) -> (r: ObservationSourceKind)
    ensures
        r == source_of(kind),
{
    match kind {
        ManagedProviderWorkerKind::Codex => ObservationSourceKind::ExecutableInventory,
        ManagedProviderWorkerKind::Kun => ObservationSourceKind::RuntimeRecord,
        ManagedProviderWorkerKind::WindowsPath => ObservationSourceKind::WindowsPath,
        ManagedProviderWorkerKind::WindowsAppPaths => ObservationSourceKind::WindowsAppPath,
        ManagedProviderWorkerKind::WindowsPackages => ObservationSourceKind::WindowsPackage,
        ManagedProviderWorkerKind::WindowsRunnerInstallations =>
            ObservationSourceKind::ExecutableInventory,
        ManagedProviderWorkerKind::WindowsLoopbackListeners =>
            ObservationSourceKind::LoopbackListener,
        ManagedProviderWorkerKind::ExplicitSources => ObservationSourceKind::UserSelected,
    }
}

/// The workers of the known connectors, in their order.
pub fn known_workers() -> (r: Vec<ManagedProviderWorkerKind>)
    ensures
        r@ == seq![ManagedProviderWorkerKind::Codex, ManagedProviderWorkerKind::Kun],
{
    let mut r: Vec<ManagedProviderWorkerKind> = Vec::new();
    r.push(ManagedProviderWorkerKind::Codex);
    r.push(ManagedProviderWorkerKind::Kun);
    r
}

/// The workers of a passive discovery on Windows, in their order.
pub fn passive_workers() -> (r: Vec<ManagedProviderWorkerKind>)
    ensures
        r@ == seq![
            ManagedProviderWorkerKind::WindowsPath,
            ManagedProviderWorkerKind::WindowsAppPaths,
            ManagedProviderWorkerKind::WindowsPackages,
            ManagedProviderWorkerKind::WindowsRunnerInstallations,
            ManagedProviderWorkerKind::WindowsLoopbackListeners,
            ManagedProviderWorkerKind::ExplicitSources,
        ],
{
    let mut r: Vec<ManagedProviderWorkerKind> = Vec::new();
    r.push(ManagedProviderWorkerKind::WindowsPath);
    r.push(ManagedProviderWorkerKind::WindowsAppPaths);
    r.push(ManagedProviderWorkerKind::WindowsPackages);
    r.push(ManagedProviderWorkerKind::WindowsRunnerInstallations);
    r.push(ManagedProviderWorkerKind::WindowsLoopbackListeners);
    r.push(ManagedProviderWorkerKind::ExplicitSources);
    r
}

/// What a discovery may do.
#[derive(Clone, Copy, Debug, PartialEq, Eq, Structural)]
pub struct DiscoveryPolicy {
    pub max_results: usize,
    pub timeout_ms: u64,
    pub allow_active_verification: bool,
    pub allow_lan: bool,
}

/// A discovery of the known connectors connects to nothing.
pub fn local_policy(config: &LocalConnectorDiscoveryConfig) -> (r: DiscoveryPolicy)
    ensures
        r == (DiscoveryPolicy {
            max_results: 32,
            timeout_ms: whole_ms(config.request_timeout_ns),
            allow_active_verification: false,
            allow_lan: false,
        }),
{
    DiscoveryPolicy {
        max_results: 32,
        timeout_ms: milliseconds(config.request_timeout_ns),
        allow_active_verification: false,
        allow_lan: false,
    }
}

/// A passive discovery connects to nothing.
pub fn passive_policy(config: &WindowsPassiveDiscoveryConfig) -> (r: DiscoveryPolicy)
    ensures
        r == (DiscoveryPolicy {
            max_results: config.max_results,
            timeout_ms: whole_ms(config.request_timeout_ns),
            allow_active_verification: false,
            allow_lan: false,
        }),
{
    DiscoveryPolicy {
        max_results: config.max_results,
        timeout_ms: milliseconds(config.request_timeout_ns),
        allow_active_verification: false,
        allow_lan: false,
    }
}

/// The code that a worker ends with.
pub fn worker_exit_code(result: &Result<(), DiscoveryDiagnosticCode>) -> (r: i32)
    ensures
        r == if result is Ok {
            0i32
        } else {
            2i32
        },
{
    match result {
        Ok(_) => 0,
        Err(_) => 2,
    }
}

/// Which Codex binary is observed, of those that are files or not: the first file,
/// unless there is no room or the work is over.
pub fn codex_to_observe(max_results: usize, stopped: bool, are_files: &Vec<bool>) -> (r: Option<
    usize,
>)
    ensures
        match r {
            Some(i) => max_results > 0 && !stopped && i < are_files@.len() && are_files@[i as int]
                && forall|k: int| 0 <= k < i ==> !are_files@[k],
            None => max_results == 0 || stopped || forall|k: int|
                0 <= k < are_files@.len() ==> !are_files@[k],
        },
{
    if max_results == 0 || stopped {
        return None;
    }
    match choose_binary(are_files) {
        Ok(i) => Some(i),
        Err(_) => None,
    }
}

// ---------------------------------------------------------------------------
// The executable of the workers.

pub open spec fn worker_file_name(windows: bool) -> Seq<char> {
    if windows {
        "agenttalk-local-discovery-worker.exe"@
    } else {
        "agenttalk-local-discovery-worker"@
    }
}

pub fn local_discovery_worker_file_name(windows: bool) -> (r: &'static str)
    ensures
        r@ == worker_file_name(windows),
{
    if windows {
        "agenttalk-local-discovery-worker.exe"
    } else {
        "agenttalk-local-discovery-worker"
    }
}

/// What was found when an executable was looked at.
#[derive(Debug)]
pub struct FileProbe {
    /// Its path starts at a root.
    pub absolute: bool,
    pub file_name: Option<String>,
    /// It is a link.
    pub reparse: bool,
    /// Where it leads.
    pub canonical: Option<String>,
    /// What it leads to is a file, and no link.
    pub regular: bool,
    /// The directory that holds what it leads to.
    pub directory: Option<String>,
}

/// What an executable leads to, where it may be started.
pub open spec fn sound_file(probe: FileProbe) -> Option<Seq<char>> {
    if probe.absolute && !probe.reparse && probe.regular {
        text::opt_text(probe.canonical)
    } else {
        None
    }
}

/// The directory of the running program, in which its worker must lie.
pub fn worker_directory(current: &FileProbe) -> (r: Option<String>)
    ensures
        text::opt_text(r) == if sound_file(*current) is Some {
            text::opt_text(current.directory)
        } else {
            None
        },
{
    if current.absolute && !current.reparse && current.regular && current.canonical.is_some() {
        copy_text(&current.directory)
    } else {
        None
    }
}

/// The worker that lies beside the running program: it has the name of the worker,
/// and what it leads to lies in that directory.
pub open spec fn production_worker(directory: Seq<char>, candidate: FileProbe, windows: bool) ->
    Option<Seq<char>> {
    if text::opt_text(candidate.file_name) == Some(worker_file_name(windows)) && text::opt_text(
        candidate.directory,
    ) == Some(directory) {
        sound_file(candidate)
    } else {
        None
    }
}

pub fn validate_production_worker_candidate(directory: &str, candidate: &FileProbe, windows: bool)
    -> (r: Option<String>)
    ensures
        text::opt_text(r) == production_worker(directory@, *candidate, windows),
{
    let named = match &candidate.file_name {
        Some(s) => same_text(s.as_str(), local_discovery_worker_file_name(windows)),
        None => false,
    };
    let beside = match &candidate.directory {
        Some(s) => same_text(s.as_str(), directory),
        None => false,
    };
    if named && beside && candidate.absolute && !candidate.reparse && candidate.regular {
        copy_text(&candidate.canonical)
    } else {
        None
    }
}

pub fn validate_fixture_worker_executable(probe: &FileProbe) -> (r: Option<String>)
    ensures
        text::opt_text(r) == sound_file(*probe),
{
    if probe.absolute && !probe.reparse && probe.regular {
        copy_text(&probe.canonical)
    } else {
        None
    }
}

/// The worker of a test takes the place of the one beside the program.
pub fn local_discovery_worker_executable(fixture: Option<&FileProbe>, production: Option<String>) ->
    (r: Option<String>)
    ensures
        text::opt_text(r) == match fixture {
            Some(probe) => sound_file(*probe),
            None => text::opt_text(production),
        },
{
    match fixture {
        Some(probe) => validate_fixture_worker_executable(probe),
        None => production,
    }
}

/// What is to be put back when the worker of a test is done with.
#[derive(Debug)]
pub struct LocalDiscoveryFixtureWorkerGuard {
    pub previous: Option<String>,
}

/// Puts the worker of a test in the place that is kept for it.
pub fn install_local_discovery_fixture_worker_for_tests(
    slot: &mut Option<String>,
    probe: &FileProbe,
) -> (r: Result<LocalDiscoveryFixtureWorkerGuard, &'static str>)
    ensures
        match r {
            Ok(guard) => sound_file(*probe) is Some && text::opt_text(*final(slot)) == sound_file(
                *probe,
            ) && guard.previous == *old(slot),
            Err(message) => sound_file(*probe) is None && message@ == "invalid fixture worker"@
                && *final(slot) == *old(slot),
        },
{
    match validate_fixture_worker_executable(probe) {
        Some(path) => {
            let previous = slot.take();
            *slot = Some(path);
            Ok(LocalDiscoveryFixtureWorkerGuard { previous })
        },
        None => Err("invalid fixture worker"),
    }
}

impl LocalDiscoveryFixtureWorkerGuard {
    /// Puts back what stood in the place before.
    pub fn restore(self, slot: &mut Option<String>)
        ensures
            *final(slot) == self.previous,
    {
        *slot = self.previous;
    }
}

/// A worker that may be started lies beside the running program.
pub proof fn law_worker_lies_beside(directory: Seq<char>, candidate: FileProbe, windows: bool)
    requires
        production_worker(directory, candidate, windows) is Some,
    ensures
        candidate.absolute,
        !candidate.reparse,
        candidate.regular,
        text::opt_text(candidate.directory) == Some(directory),
        text::opt_text(candidate.file_name) == Some(worker_file_name(windows)),
        production_worker(directory, candidate, windows) == text::opt_text(candidate.canonical),
{
}

// ---------------------------------------------------------------------------
// The report.

/// What a discovery has settled on for one connector.
#[derive(Debug)]
pub struct CandidateProjection {
    pub connector_id: String,
    pub runtime_type: String,
    pub display_name: String,
    pub availability: String,
    pub models: Vec<String>,
    pub catalog_revision: Option<String>,
    pub source_kind: ObservationSourceKind,
    pub requires_configuration: bool,
}

/// A candidate as it is shown: no credential, no endpoint and no process is told.
#[derive(Clone, Debug, PartialEq, Eq)]
pub struct LocalConnectorCandidate {
    pub connector_id: String,
    pub runtime_type: String,
    pub display_name: String,
    pub availability: String,
    pub models: Vec<String>,
    pub catalog_revision: Option<String>,
    pub source: ObservationSourceKind,
    pub requires_configuration: bool,
}

#[verifier::ext_equal]
pub struct CandidateView {
    pub connector_id: Seq<char>,
    pub runtime_type: Seq<char>,
    pub display_name: Seq<char>,
    pub availability: Seq<char>,
    pub models: Seq<Seq<char>>,
    pub catalog_revision: Option<Seq<char>>,
    pub source: ObservationSourceKind,
    pub requires_configuration: bool,
}

impl View for LocalConnectorCandidate {
    type V = CandidateView;

    open spec fn view(&self) -> CandidateView {
        CandidateView {
            connector_id: self.connector_id@,
            runtime_type: self.runtime_type@,
            display_name: self.display_name@,
            availability: self.availability@,
            models: text::texts(self.models@),
            catalog_revision: text::opt_text(self.catalog_revision),
            source: self.source,
            requires_configuration: self.requires_configuration,
        }
    }
}

/// How a projection is shown.
pub open spec fn shown(p: CandidateProjection) -> CandidateView {
    CandidateView {
        connector_id: p.connector_id@,
        runtime_type: p.runtime_type@,
        display_name: p.display_name@,
        availability: p.availability@,
        models: text::texts(p.models@),
        catalog_revision: text::opt_text(p.catalog_revision),
        source: p.source_kind,
        requires_configuration: p.requires_configuration,
    }
}

pub fn legacy_local_connector_candidate(p: &CandidateProjection) -> (r: LocalConnectorCandidate)
    ensures
        r@ == shown(*p),
{
    let r = LocalConnectorCandidate {
        connector_id: p.connector_id.clone(),
        runtime_type: p.runtime_type.clone(),
        display_name: p.display_name.clone(),
        availability: p.availability.clone(),
        models: copy_texts(&p.models),
        catalog_revision: copy_text(&p.catalog_revision),
        source: p.source_kind,
        requires_configuration: p.requires_configuration,
    };
    assert(r@ =~= shown(*p));
    r
}

/// Whether a candidate stands before another one: by its connector, and by its name
/// where that is asked for.
pub open spec fn goes_before(a: CandidateView, b: CandidateView, by_name: bool) -> bool {
    order::text_less(a.connector_id, b.connector_id) || (by_name && a.connector_id == b.connector_id
        && order::text_less(a.display_name, b.display_name))
}

/// Where a candidate goes in a sorted list: before the first that it stands before.
pub open spec fn candidate_place(list: Seq<CandidateView>, c: CandidateView, by_name: bool) -> int
    decreases list.len(),
{
    if list.len() == 0 || goes_before(c, list[0], by_name) {
        0
    } else {
        1 + candidate_place(list.drop_first(), c, by_name)
    }
}

/// The candidates in their order; candidates of which none stands before the other
/// keep the order that they came in.
pub open spec fn arranged(list: Seq<CandidateView>, by_name: bool) -> Seq<CandidateView>
    decreases list.len(),
{
    if list.len() == 0 {
        seq![]
    } else {
        let before = arranged(list.drop_last(), by_name);
        before.insert(candidate_place(before, list.last(), by_name), list.last())
    }
}

pub open spec fn candidate_views(all: Seq<LocalConnectorCandidate>) -> Seq<CandidateView> {
    Seq::new(all.len(), |i: int| all[i]@)
}

pub open spec fn shown_all(all: Seq<CandidateProjection>) -> Seq<CandidateView> {
    Seq::new(all.len(), |i: int| shown(all[i]))
}

proof fn lemma_place(list: Seq<CandidateView>, c: CandidateView, by_name: bool, i: int)
    requires
        0 <= i <= list.len(),
        forall|k: int| 0 <= k < i ==> !goes_before(c, #[trigger] list[k], by_name),
        i == list.len() || goes_before(c, list[i], by_name),
    ensures
        candidate_place(list, c, by_name) == i,
    decreases list.len(),
{
    if i > 0 {
        let rest = list.drop_first();
        assert forall|k: int| 0 <= k < i - 1 implies !goes_before(c, #[trigger] rest[k], by_name) by {
            assert(rest[k] == list[k + 1]);
        }
        assert(!goes_before(c, list[0], by_name));
        lemma_place(rest, c, by_name, i - 1);
    }
}

fn stands_before(a: &LocalConnectorCandidate, b: &LocalConnectorCandidate, by_name: bool) -> (r:
    bool)
    ensures
        r == goes_before(a@, b@, by_name),
{
    text_precedes(a.connector_id.as_str(), b.connector_id.as_str()) || (by_name && same_text(
        a.connector_id.as_str(),
        b.connector_id.as_str(),
    ) && text_precedes(a.display_name.as_str(), b.display_name.as_str()))
}

/// How the projections of a discovery are shown, in their order: by connector, and
/// among those of one connector by name where that is asked for.
pub fn show_candidates(projections: &Vec<CandidateProjection>, by_name: bool) -> (r: Vec<
    LocalConnectorCandidate,
>)
    ensures
        candidate_views(r@) == arranged(shown_all(projections@), by_name),
{
    let ghost all = shown_all(projections@);
    let mut r: Vec<LocalConnectorCandidate> = Vec::new();
    let mut i: usize = 0;
    assert(candidate_views(r@) =~= seq![]);
    assert(all.take(0) =~= seq![]);
    while i < projections.len()
        invariant
            i <= projections@.len(),
            all == shown_all(projections@),
            candidate_views(r@) == arranged(all.take(i as int), by_name),
        decreases projections@.len() - i,
    {
        let c = legacy_local_connector_candidate(&projections[i]);
        let ghost list = candidate_views(r@);
        let mut at: usize = 0;
        while at < r.len() && !stands_before(&c, &r[at], by_name)
            invariant
                at <= r@.len(),
                list == candidate_views(r@),
                forall|k: int| 0 <= k < at ==> !goes_before(c@, #[trigger] list[k], by_name),
            decreases r@.len() - at,
        {
            assert(list[at as int] == r@[at as int]@);
            at += 1;
        }
        proof {
            if at < r@.len() {
                assert(list[at as int] == r@[at as int]@);
            }
            lemma_place(list, c@, by_name, at as int);
            assert(all.take(i + 1).drop_last() =~= all.take(i as int));
            assert(all.take(i + 1).last() == c@);
            assert(candidate_views(r@.insert(at as int, c)) =~= list.insert(at as int, c@));
        }
        r.insert(at, c);
        i += 1;
    }
    assert(all.take(i as int) =~= all);
    r
}

/// Whether no candidate stands before one that comes ahead of it.
pub open spec fn in_order(list: Seq<CandidateView>, by_name: bool) -> bool {
    forall|i: int, j: int|
        0 <= i < j < list.len() ==> !goes_before(#[trigger] list[j], #[trigger] list[i], by_name)
}

proof fn lemma_before_transitive(a: CandidateView, b: CandidateView, c: CandidateView, by_name: bool)
    requires
        goes_before(a, b, by_name),
        goes_before(b, c, by_name),
    ensures
        goes_before(a, c, by_name),
{
    let ab = order::text_less(a.connector_id, b.connector_id);
    let bc = order::text_less(b.connector_id, c.connector_id);
    if ab && bc {
        order::lemma_less_transitive(a.connector_id, b.connector_id, c.connector_id);
    } else if !ab && !bc {
        order::lemma_less_transitive(a.display_name, b.display_name, c.display_name);
    }
}

proof fn lemma_place_in_list(list: Seq<CandidateView>, c: CandidateView, by_name: bool)
    ensures
        0 <= candidate_place(list, c, by_name) <= list.len(),
        forall|k: int|
            0 <= k < candidate_place(list, c, by_name) ==> !goes_before(
                c,
                #[trigger] list[k],
                by_name,
            ),
        candidate_place(list, c, by_name) < list.len() ==> goes_before(
            c,
            list[candidate_place(list, c, by_name)],
            by_name,
        ),
    decreases list.len(),
{
    if list.len() > 0 && !goes_before(c, list[0], by_name) {
        let rest = list.drop_first();
        lemma_place_in_list(rest, c, by_name);
        assert forall|k: int| 0 <= k < candidate_place(list, c, by_name) implies !goes_before(
            c,
            #[trigger] list[k],
            by_name,
        ) by {
            if k > 0 {
                assert(list[k] == rest[k - 1]);
            }
        }
    }
}

/// The candidates of a report are in order, and are those that were to be shown,
/// each as often as it was.
pub proof fn law_report_is_ordered(list: Seq<CandidateView>, by_name: bool)
    ensures
        in_order(arranged(list, by_name), by_name),
        arranged(list, by_name).to_multiset() =~= list.to_multiset(),
        arranged(list, by_name).len() == list.len(),
    decreases list.len(),
{
    broadcast use vstd::seq_lib::group_to_multiset_ensures;

    if list.len() > 0 {
        let front = list.drop_last();
        let c = list.last();
        law_report_is_ordered(front, by_name);
        let before = arranged(front, by_name);
        let p = candidate_place(before, c, by_name);
        lemma_place_in_list(before, c, by_name);
        let after = before.insert(p, c);
        assert forall|i: int, j: int| 0 <= i < j < after.len() implies !goes_before(
            #[trigger] after[j],
            #[trigger] after[i],
            by_name,
        ) by {
            if j < p {
                assert(after[i] == before[i] && after[j] == before[j]);
            } else if j == p {
                assert(after[i] == before[i] && after[j] == c);
            } else if i > p {
                assert(after[i] == before[i - 1] && after[j] == before[j - 1]);
            } else {
                assert(after[j] == before[j - 1]);
                if i == p {
                    let y = before[j - 1];
                    assert(goes_before(c, before[p], by_name));
                    if goes_before(y, c, by_name) {
                        lemma_before_transitive(y, c, before[p], by_name);
                        lemma_irreflexive(y, by_name);
                        assert(j - 1 > p);
                    }
                } else {
                    assert(after[i] == before[i]);
                }
            }
        }
        assert(list =~= front.push(c));
    } else {
        assert(list =~= seq![]);
    }
}

proof fn lemma_irreflexive(a: CandidateView, by_name: bool)
    ensures
        !goes_before(a, a, by_name),
{
    order::lemma_less_irreflexive(a.connector_id);
    order::lemma_less_irreflexive(a.display_name);
}

} // verus!
