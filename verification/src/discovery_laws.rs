//! What holds of everything that is found on this machine: how much is claimed of it, and
//! by what it is known.

use vstd::prelude::*;
use vstd::string::*;

use crate::discovery;
use crate::discovery::{DiscoveryEnvironment, FileProbe, ManagedProviderWorkerKind};
use crate::error::ConnectorRuntimeFailure;
use crate::kun_discovery;
use crate::kun_discovery::KunRecordFile;
use crate::kun_record;
use crate::observation;
use crate::observation::{
    Assessment, AuthState, CandidateAvailability, CandidateCategory, CompatibilityState,
    DiscoveryDiagnosticCode, DiscoveryEvidence, DiscoveryState, ExecutableProbe, HealthState,
    ObservationSourceKind, ObservationTrustLevel, VerificationAuthority,
};
use crate::runner;
use crate::text;

verus! {

/// The members of a record are different.
proof fn lemma_members_differ()
    ensures
        "port"@.len() == 4,
        "instanceId"@.len() == 10,
        "serviceVersion"@.len() == 14,
        "buildId"@.len() == 7,
{
    reveal_strlit("port");
    reveal_strlit("instanceId");
    reveal_strlit("serviceVersion");
    reveal_strlit("buildId");
}

/// Nothing is claimed: what was found has to be configured, and neither whether it fits,
/// nor whether it is signed in, nor whether it works is known.
pub open spec fn claims_nothing(a: Assessment) -> bool {
    &&& a.availability == CandidateAvailability::Unconfigured
    &&& a.requires_configuration
    &&& a.compatibility_state == CompatibilityState::NotVerified
    &&& a.auth_state == AuthState::Unknown
    &&& a.health_state == HealthState::NotChecked
    &&& vouched_by(a, VerificationAuthority::Unverified)
}

/// On whose word an assessment stands, in all that it says.
pub open spec fn vouched_by(a: Assessment, by: VerificationAuthority) -> bool {
    &&& a.authorities.verification == by
    &&& a.authorities.availability == by
    &&& a.authorities.discovery == by
    &&& a.authorities.compatibility == by
    &&& a.authorities.auth == by
    &&& a.authorities.health == by
}

/// What was merely seen claims nothing of itself.
pub proof fn law_what_is_seen_claims_nothing(
    source: ObservationSourceKind,
    category: CandidateCategory,
    trust: ObservationTrustLevel,
    state: DiscoveryState,
)
    ensures
        ({
            let a = observation::unverified(source, category, trust, state);
            &&& claims_nothing(a)
            &&& a.source_kind == source
            &&& a.category == category
            &&& a.trust_level == trust
            &&& a.discovery_state == state
        }),
{
}

/// An executable file is told where it is and by what it is known; of anything else it is
/// told why it is none.
pub proof fn law_only_executable_files_are_told(
    source: ObservationSourceKind,
    evidence: DiscoveryEvidence,
    trust: ObservationTrustLevel,
    probe: ExecutableProbe,
)
    ensures
        match observation::probed(source, evidence, trust, probe) {
            Ok(o) => {
                &&& probe matches ExecutableProbe::File { path, file_name, identity } && {
                    &&& o.locator == observation::LocatorView::Executable(path@)
                    &&& o.fingerprint == seq!["windows-executable"@, identity@]
                    &&& o.association_fingerprints == seq![o.fingerprint]
                    &&& file_name matches Some(n) ==> (n@.len() > 0 ==> o.display_name == n@)
                    &&& file_name is None ==> o.display_name == "Local executable"@
                }
                &&& claims_nothing(o.assessment)
                &&& o.assessment.category == CandidateCategory::Unknown
                &&& o.assessment.source_kind == source
                &&& o.assessment.trust_level == trust
                &&& o.connector_id == "local.discovery.unknown"@
                &&& o.runtime_type == "unknown"@
                &&& o.evidence_summary == seq![evidence]
                &&& o.models.len() == 0
                &&& o.diagnostics.len() == 0
            },
            Err(code) => match probe {
                ExecutableProbe::Relative | ExecutableProbe::NotExecutable => code
                    == DiscoveryDiagnosticCode::InvalidSourceRecord,
                ExecutableProbe::Reparse => code == DiscoveryDiagnosticCode::ReparsePointRejected,
                ExecutableProbe::Unresolved(c) => code == c,
                ExecutableProbe::Unreadable(c) => code == c,
                ExecutableProbe::File { .. } => false,
            },
        },
{
}

/// An endpoint that a user names is told as that, and no more is claimed of it.
pub proof fn law_named_endpoints_claim_nothing(endpoint: Seq<char>)
    ensures
        ({
            let o = observation::unknown_endpoint(endpoint);
            &&& o.locator == observation::LocatorView::Endpoint(endpoint)
            &&& o.fingerprint == seq!["windows-loopback-endpoint"@, endpoint]
            &&& claims_nothing(o.assessment)
            &&& o.assessment.source_kind == ObservationSourceKind::UserSelected
            &&& o.assessment.trust_level == ObservationTrustLevel::UserSelected
            &&& o.assessment.category == CandidateCategory::Unknown
            &&& o.connector_id == "local.discovery.unknown"@
            &&& o.models.len() == 0
            &&& o.evidence_summary == seq![DiscoveryEvidence::UserSelected]
        }),
{
}

/// A Codex binary is known by its content, or by its path where the content could not be
/// read, and then that is told. It has no models before it was asked.
pub proof fn law_codex_is_known_by_its_content(
    binary: Seq<char>,
    path: Seq<char>,
    identity: Result<Seq<char>, DiscoveryDiagnosticCode>,
)
    ensures
        ({
            let o = observation::codex_executable(binary, path, identity);
            &&& o.locator == observation::LocatorView::Executable(binary)
            &&& o.connector_id == "local.codex"@
            &&& o.runtime_type == "codex"@
            &&& claims_nothing(o.assessment)
            &&& o.assessment.category == CandidateCategory::AgentRuntime
            &&& o.assessment.discovery_state == DiscoveryState::Identified
            &&& o.assessment.trust_level == ObservationTrustLevel::Heuristic
            &&& o.models.len() == 0
            &&& match identity {
                Ok(s) => o.fingerprint == seq!["codex-executable"@, s] && o.diagnostics.len() == 0,
                Err(code) => o.fingerprint == seq!["codex-executable"@, path] && o.diagnostics.len()
                    == 1 && o.diagnostics[0].code == code && o.diagnostics[0].source_kind
                    == ObservationSourceKind::ExecutableInventory,
            }
        }),
{
}

/// An installed package is told with what it is, whose it is and what it holds, and no
/// more is claimed of it.
pub proof fn law_installed_packages_claim_nothing(
    kind: Seq<char>,
    path: Seq<char>,
    stable: Seq<char>,
    sha: Seq<char>,
    record: runner::RecordView,
    id: Seq<char>,
    tree: Seq<char>,
)
    ensures
        ({
            let o = runner::runner_installation(kind, path, stable, sha, record, id, tree);
            &&& o.locator == observation::LocatorView::Executable(path)
            &&& o.fingerprint == seq!["runner-installation"@, kind, stable, sha, tree]
            &&& o.association_fingerprints == seq![seq!["windows-executable"@, stable]]
            &&& o.package_ids == seq![id]
            &&& o.runner_installation matches Some(m) && {
                &&& m.runner_kind == kind
                &&& m.package_name == record.package_name
                &&& m.resolved_version == record.resolved_version
                &&& m.install_root == record.install_root
                &&& m.package_integrity == record.package_integrity
                &&& m.package_tree_digest == tree
                &&& m.runner_executable_identity == stable
                &&& m.runner_executable_sha256 == sha
            }
            &&& claims_nothing(o.assessment)
            &&& o.assessment.category == CandidateCategory::AgentRuntime
            &&& o.assessment.discovery_state == DiscoveryState::Observed
            &&& o.connector_id == "local.discovery.unknown"@
            &&& o.models.len() == 0
            &&& o.display_name == kind + " "@ + record.package_name + "@"@ + record.resolved_version
        }),
{
}

/// Of a record that is read without asking its runtime, four members count and every other
/// one is passed over.
pub proof fn law_four_members_count(key: Seq<char>)
    ensures
        key == "port"@ <==> kun_discovery::member_of_key(key) is Port,
        key == "instanceId"@ <==> kun_discovery::member_of_key(key) is InstanceId,
        key == "serviceVersion"@ <==> kun_discovery::member_of_key(key) is ServiceVersion,
        key == "buildId"@ <==> kun_discovery::member_of_key(key) is BuildId,
{
    lemma_members_differ();
}

/// A port is a number from 1 to 65535.
pub proof fn law_ports_are_bounded(n: u64)
    ensures
        kun_discovery::port_number(None) is None,
        1 <= n <= 65_535 ==> kun_discovery::port_number(Some(n)) == Some(n as u16),
        n == 0 || n > 65_535 ==> kun_discovery::port_number(Some(n)) is None,
{
}

/// A record that is not there is not told. One that is there is told with what was read of
/// it; where nothing could be read it is told why, and where it names no instance it is told
/// that it does not.
pub proof fn law_records_are_told_as_read(
    path: Seq<char>,
    directory: Option<Seq<char>>,
    file: KunRecordFile,
)
    ensures
        match kun_discovery::local_record(path, directory, file) {
            None => file is Missing,
            Some(r) => {
                &&& !(file is Missing)
                &&& r.runtime_json == path
                &&& r.directory == directory
                &&& r.parsed == (file matches KunRecordFile::Read(Ok(_)))
                &&& !r.parsed ==> r.port is None && r.instance_id is None && r.service_version
                    is None && r.build_id is None && r.diagnostics.len() == 1
                    && r.diagnostics[0].source_kind == ObservationSourceKind::RuntimeRecord
                &&& file is Oversized ==> r.diagnostics[0].code
                    == DiscoveryDiagnosticCode::OversizedInput
                &&& file is Unopened ==> r.diagnostics[0].code
                    == DiscoveryDiagnosticCode::FingerprintUnavailable
                &&& file matches KunRecordFile::Read(Err(code)) ==> r.diagnostics[0].code == code
                &&& file matches KunRecordFile::Read(Ok(p)) ==> {
                    &&& r.port == p@.port
                    &&& r.instance_id == p@.instance_id
                    &&& r.service_version == p@.service_version
                    &&& r.build_id == p@.build_id
                    &&& p@.instance_id is Some ==> r.diagnostics.len() == 0
                    &&& p@.instance_id is None ==> r.diagnostics.len() == 1 && r.diagnostics[0].code
                        == DiscoveryDiagnosticCode::InvalidIdentity
                }
            },
        },
{
}

/// A shared Kun runtime is known by its instance, its version and its build; what it does
/// not give is unknown.
pub proof fn law_kun_is_known_by_its_instance(r: kun_discovery::LocalView)
    ensures
        ({
            let f = kun_discovery::fingerprint_of(r);
            &&& f.len() == 4
            &&& f[0] == "kun-shared-runtime"@
            &&& r.instance_id matches Some(id) ==> f[1] == id
            &&& r.service_version matches Some(v) ==> f[2] == v
            &&& r.service_version is None ==> f[2] == "unknown"@
            &&& r.build_id matches Some(b) ==> f[3] == b
            &&& r.build_id is None ==> f[3] == "unknown"@
        }),
{
}

/// A runtime is asked only if its record was read and names an instance, and asking is
/// allowed.
pub proof fn law_only_known_runtimes_are_asked(r: kun_discovery::LocalView, allowed: bool)
    ensures
        kun_discovery::is_asked(r, allowed) <==> allowed && r.parsed && r.instance_id is Some,
{
}

/// What is said of a runtime is what was found out: it can be used only if it was asked and
/// answered; a refused sign-in has to be repaired, and another runtime's record is not
/// taken for this one's. What was not found out is not claimed on anyone's word.
pub proof fn law_kun_is_assessed_by_its_answer(
    r: kun_discovery::LocalView,
    allowed: bool,
    outcome: kun_discovery::KunOutcome,
)
    ensures
        ({
            let (a, evidence) = kun_discovery::assessed(r, allowed, outcome);
            let asked = allowed && r.parsed && r.instance_id is Some;
            &&& a.source_kind == ObservationSourceKind::RuntimeRecord
            &&& a.category == CandidateCategory::AgentRuntime
            &&& a.availability == CandidateAvailability::Available <==> asked && outcome is Ok
            &&& asked && outcome is Ok ==> {
                &&& !a.requires_configuration
                &&& a.health_state == HealthState::Ready
                &&& a.auth_state == AuthState::Ready
                &&& a.compatibility_state == CompatibilityState::Compatible
                &&& a.trust_level == ObservationTrustLevel::FirstParty
                &&& vouched_by(a, VerificationAuthority::Authoritative)
                &&& evidence == DiscoveryEvidence::Available
            }
            &&& !(asked && outcome is Ok) ==> a.requires_configuration && a.health_state
                != HealthState::Ready && a.compatibility_state != CompatibilityState::Compatible
                && evidence != DiscoveryEvidence::Available
            &&& a.availability == CandidateAvailability::AuthenticationRequired <==> asked && (
            outcome matches Err(Some(x)) && x
                == ConnectorRuntimeFailure::RuntimeAuthenticationFailed)
            &&& a.auth_state == AuthState::Required <==> a.availability
                == CandidateAvailability::AuthenticationRequired
            &&& evidence == DiscoveryEvidence::AuthenticationRequired <==> a.availability
                == CandidateAvailability::AuthenticationRequired
            &&& a.health_state == HealthState::IdentityMismatch <==> asked && (
            outcome matches Err(Some(x)) && x == ConnectorRuntimeFailure::RuntimeIdentityMismatch)
            &&& evidence == DiscoveryEvidence::IdentityMismatch <==> a.compatibility_state
                == CompatibilityState::Incompatible
            &&& a.compatibility_state == CompatibilityState::Incompatible <==> (r.parsed
                && r.instance_id is None) || a.health_state == HealthState::IdentityMismatch
            &&& !r.parsed ==> a.availability == CandidateAvailability::Unavailable
                && a.discovery_state == DiscoveryState::Observed
            &&& r.parsed ==> a.discovery_state == DiscoveryState::Identified
            &&& r.parsed && r.instance_id is Some && !allowed ==> claims_nothing(a) && evidence
                == DiscoveryEvidence::Unconfigured
            &&& vouched_by(a, VerificationAuthority::Authoritative) || vouched_by(
                a,
                VerificationAuthority::Unverified,
            )
            &&& vouched_by(a, VerificationAuthority::Authoritative) <==> (asked && outcome is Ok)
                || a.compatibility_state == CompatibilityState::Incompatible
        }),
{
}

/// A runtime's models are told only where it was asked and answered, and then as it
/// answered.
pub proof fn law_kun_is_told_as_it_answered(
    r: kun_discovery::LocalView,
    allowed: bool,
    outcome: kun_discovery::KunOutcome,
)
    ensures
        ({
            let o = kun_discovery::kun_observed(r, allowed, outcome);
            let asked = allowed && r.parsed && r.instance_id is Some;
            &&& o.locator == observation::LocatorView::RuntimeRecord(r.runtime_json)
            &&& o.connector_id == "local.kun.shared-runtime"@
            &&& o.runtime_type == "kun"@
            &&& o.display_name == "Kun Shared Runtime"@
            &&& o.fingerprint == kun_discovery::fingerprint_of(r)
            &&& o.diagnostics == r.diagnostics
            &&& o.evidence_summary.len() == 2
            &&& o.evidence_summary[0] == DiscoveryEvidence::RuntimeRecord
            &&& outcome matches Ok(answer) ==> (asked ==> o.models == text::texts(answer.0@))
            &&& !(asked && outcome is Ok) ==> o.models.len() == 0 && o.catalog_revision is None
        }),
{
}

/// A path that is already among some, under this or another spelling, is not put among them
/// again; any other one is put at their end.
pub proof fn law_paths_are_put_once(paths: Seq<Seq<char>>, path: Seq<char>, windows: bool)
    ensures
        ({
            let after = discovery::with_unique(paths, path, windows);
            &&& exists|i: int|
                0 <= i < after.len() && kun_record::same_path(#[trigger] after[i], path, windows)
            &&& forall|i: int| 0 <= i < paths.len() ==> after[i] == #[trigger] paths[i]
            &&& after.len() == paths.len() || after == paths.push(path)
            &&& (forall|i: int|
                0 <= i < paths.len() ==> !kun_record::same_path(
                    #[trigger] paths[i],
                    path,
                    windows,
                )) ==> after == paths.push(path)
        }),
{
    let after = discovery::with_unique(paths, path, windows);
    crate::kun_record_laws::law_same_paths(path, path, windows);
    if after == paths.push(path) {
        assert(after[paths.len() as int] == path);
    }
}

/// A Codex binary that is named is the only one; otherwise the one on the search path comes
/// first, and the one of the desktop application next.
pub proof fn law_named_codex_is_the_only_one(env: DiscoveryEnvironment, windows: bool)
    ensures
        ({
            let paths = discovery::codex_paths(env, windows);
            &&& env.explicit_codex matches Some(p) ==> paths == seq![p@]
            &&& env.explicit_codex is None ==> (env.codex_on_path matches Some(p) ==> paths.len() > 0
                && paths[0] == p@)
            &&& env.explicit_codex is None && env.codex_on_path is None ==> (
            env.codex_desktop matches Some(p) ==> paths == seq![p@])
            &&& env.explicit_codex is None && env.codex_on_path is None && env.codex_desktop is None
                ==> paths.len() == 0
            &&& paths.len() <= 2
        }),
{
    if env.codex_desktop is Some {
        assert(Seq::<Seq<char>>::empty().push(env.codex_desktop->0@) =~= seq![
            env.codex_desktop->0@,
        ]);
    }
}

/// A time is told in whole milliseconds, never in more than there are.
pub proof fn law_whole_milliseconds(ns: u128)
    ensures
        discovery::whole_ms(ns) * 1_000_000 <= ns,
        ns < 18_446_744_073_709_551_615 * 1_000_000 ==> ns < (discovery::whole_ms(ns) + 1)
            * 1_000_000,
{
}

/// What a worker looks at is what its kind says.
pub proof fn law_workers_have_their_source(kind: ManagedProviderWorkerKind)
    ensures
        kind is Codex || kind is WindowsRunnerInstallations <==> discovery::source_of(kind)
            == ObservationSourceKind::ExecutableInventory,
        kind is Kun <==> discovery::source_of(kind) == ObservationSourceKind::RuntimeRecord,
        kind is WindowsPath <==> discovery::source_of(kind) == ObservationSourceKind::WindowsPath,
        kind is WindowsAppPaths <==> discovery::source_of(kind)
            == ObservationSourceKind::WindowsAppPath,
        kind is WindowsPackages <==> discovery::source_of(kind)
            == ObservationSourceKind::WindowsPackage,
        kind is WindowsLoopbackListeners <==> discovery::source_of(kind)
            == ObservationSourceKind::LoopbackListener,
        kind is ExplicitSources <==> discovery::source_of(kind)
            == ObservationSourceKind::UserSelected,
{
}

/// A worker is taken exactly if it is a regular file with the worker's own name that lies
/// in the given directory, was reached by an absolute path and is no link.
pub proof fn law_worker_is_the_one_beside(directory: Seq<char>, f: FileProbe, windows: bool)
    ensures
        discovery::worker_file_name(false) == "agenttalk-local-discovery-worker"@,
        discovery::worker_file_name(true) == "agenttalk-local-discovery-worker.exe"@,
        discovery::sound_file(f) is Some <==> f.absolute && !f.reparse && f.regular
            && f.canonical is Some,
        discovery::production_worker(directory, f, windows) is Some <==> f.absolute && !f.reparse
            && f.regular && f.canonical is Some && (f.file_name matches Some(n) && n@
            == if windows {
            "agenttalk-local-discovery-worker.exe"@
        } else {
            "agenttalk-local-discovery-worker"@
        }) && (f.directory matches Some(d) && d@ == directory),
        discovery::production_worker(directory, f, windows) matches Some(p) ==> (
        f.canonical matches Some(c) && c@ == p),
{
}

/// A candidate is shown as it is.
pub proof fn law_candidates_are_shown_as_they_are(p: discovery::CandidateProjection)
    ensures
        ({
            let c = discovery::shown(p);
            &&& c.connector_id == p.connector_id@
            &&& c.runtime_type == p.runtime_type@
            &&& c.display_name == p.display_name@
            &&& c.availability == p.availability@
            &&& c.models == text::texts(p.models@)
            &&& c.source == p.source_kind
            &&& c.requires_configuration == p.requires_configuration
            &&& match p.catalog_revision {
                Some(s) => c.catalog_revision == Some(s@),
                None => c.catalog_revision is None,
            }
        }),
{
}

/// Candidates are ordered by their connectors, and by their names only where that is
/// asked for.
pub proof fn law_candidates_are_ordered_by_connector(
    a: discovery::CandidateView,
    b: discovery::CandidateView,
)
    ensures
        crate::order::text_less(a.connector_id, b.connector_id) ==> discovery::goes_before(
            a,
            b,
            true,
        ) && discovery::goes_before(a, b, false),
        a.connector_id == b.connector_id ==> (discovery::goes_before(a, b, true)
            <==> crate::order::text_less(a.display_name, b.display_name))
            && !discovery::goes_before(a, b, false),
{
    crate::order::lemma_less_irreflexive(a.connector_id);
}

/// An executable that nobody knows goes by its file name, and by a plain word where it has
/// none; nothing is claimed of it but that it was seen.
pub proof fn law_unknown_executables_go_by_their_file_name(
    source_kind: ObservationSourceKind,
    evidence: DiscoveryEvidence,
    trust_level: ObservationTrustLevel,
    path: Seq<char>,
    file_name: Option<Seq<char>>,
    file_identity: Seq<char>,
)
    ensures
        ({
            let o = observation::unknown_executable(
                source_kind,
                evidence,
                trust_level,
                path,
                file_name,
                file_identity,
            );
            &&& file_name is Some && file_name->0.len() > 0 ==> o.display_name == file_name->0
            &&& file_name is None || file_name->0.len() == 0 ==> o.display_name
                == "Local executable"@
            &&& o.locator == observation::LocatorView::Executable(path)
            &&& o.association_fingerprints == seq![o.fingerprint]
            &&& o.evidence_summary == seq![evidence]
            &&& o.package_ids.len() == 0
            &&& o.models.len() == 0
            &&& o.diagnostics.len() == 0
            &&& o.runner_installation is None
            &&& o.catalog_revision is None
        }),
{
}

} // verus!
