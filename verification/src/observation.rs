//! What a discovery finds: observations, and diagnostics of what was not taken.

use vstd::prelude::*;
use vstd::string::*;

use crate::text;

verus! {

pub const LOCAL_DISCOVERY_CODEX_CONNECTOR_ID: &'static str = "local.codex";

pub const LOCAL_DISCOVERY_KUN_CONNECTOR_ID: &'static str = "local.kun.shared-runtime";

pub const LOCAL_DISCOVERY_UNKNOWN_CONNECTOR_ID: &'static str = "local.discovery.unknown";

pub const LOCAL_DISCOVERY_UNKNOWN_RUNTIME_TYPE: &'static str = "unknown";

/// Why something was not taken.
#[derive(Clone, Copy, Debug, PartialEq, Eq, Structural)]
pub enum DiscoveryDiagnosticCode {
    ProviderFailed,
    ProviderTimeout,
    InvalidSourceRecord,
    InvalidIdentity,
    ReparsePointRejected,
    SourceDisappeared,
    AccessDenied,
    OversizedInput,
    FingerprintChanged,
    FingerprintUnavailable,
    NonLoopbackRejected,
}

/// Where an observation comes from.
#[derive(Clone, Copy, Debug, PartialEq, Eq, Structural)]
pub enum ObservationSourceKind {
    ExecutableInventory,
    RuntimeRecord,
    WindowsPath,
    WindowsAppPath,
    WindowsPackage,
    LoopbackListener,
    UserSelected,
}

/// What speaks for an observation.
#[derive(Clone, Copy, Debug, PartialEq, Eq, Structural)]
pub enum DiscoveryEvidence {
    ExecutableInventory,
    InstallKnown,
    WindowsPathEntry,
    WindowsAppPathRegistry,
    WindowsPackageInventory,
    LoopbackListener,
    UserSelected,
    RuntimeRecord,
    CatalogUnavailable,
    IdentityMismatch,
    Unconfigured,
    Available,
    AuthenticationRequired,
}

#[derive(Clone, Copy, Debug, PartialEq, Eq, Structural)]
pub enum CandidateAvailability {
    Unconfigured,
    Unavailable,
    Available,
    AuthenticationRequired,
}

#[derive(Clone, Copy, Debug, PartialEq, Eq, Structural)]
pub enum CandidateCategory {
    Unknown,
    AgentRuntime,
}

#[derive(Clone, Copy, Debug, PartialEq, Eq, Structural)]
pub enum ObservationTrustLevel {
    Heuristic,
    UserSelected,
    FirstParty,
}

#[derive(Clone, Copy, Debug, PartialEq, Eq, Structural)]
pub enum VerificationAuthority {
    Unverified,
    Authoritative,
}

#[derive(Clone, Copy, Debug, PartialEq, Eq, Structural)]
pub enum DiscoveryState {
    Observed,
    Identified,
}

#[derive(Clone, Copy, Debug, PartialEq, Eq, Structural)]
pub enum CompatibilityState {
    NotVerified,
    Incompatible,
    Compatible,
}

#[derive(Clone, Copy, Debug, PartialEq, Eq, Structural)]
pub enum AuthState {
    Unknown,
    Required,
    Ready,
}

#[derive(Clone, Copy, Debug, PartialEq, Eq, Structural)]
pub enum HealthState {
    NotChecked,
    Unavailable,
    IdentityMismatch,
    Ready,
}

#[derive(Clone, Copy, Debug, PartialEq, Eq, Structural)]
pub struct DiscoveryDiagnostic {
    pub source_kind: ObservationSourceKind,
    pub code: DiscoveryDiagnosticCode,
}

/// Who vouches for each part of an assessment.
#[derive(Clone, Copy, Debug, PartialEq, Eq, Structural)]
pub struct Authorities {
    pub verification: VerificationAuthority,
    pub availability: VerificationAuthority,
    pub discovery: VerificationAuthority,
    pub compatibility: VerificationAuthority,
    pub auth: VerificationAuthority,
    pub health: VerificationAuthority,
}

impl Authorities {
    /// The same authority for every part.
    pub open spec fn all(authority: VerificationAuthority) -> Authorities {
        Authorities {
            verification: authority,
            availability: authority,
            discovery: authority,
            compatibility: authority,
            auth: authority,
            health: authority,
        }
    }

    pub fn of(authority: VerificationAuthority) -> (r: Self)
        ensures
            r == Authorities::all(authority),
    {
        Authorities {
            verification: authority,
            availability: authority,
            discovery: authority,
            compatibility: authority,
            auth: authority,
            health: authority,
        }
    }
}

/// What an observation is taken to be.
#[derive(Clone, Copy, Debug, PartialEq, Eq, Structural)]
pub struct Assessment {
    pub source_kind: ObservationSourceKind,
    pub category: CandidateCategory,
    pub trust_level: ObservationTrustLevel,
    pub authorities: Authorities,
    pub availability: CandidateAvailability,
    pub requires_configuration: bool,
    pub discovery_state: DiscoveryState,
    pub compatibility_state: CompatibilityState,
    pub auth_state: AuthState,
    pub health_state: HealthState,
}

/// Where an observation can be found.
#[derive(Debug)]
pub enum ObservationLocator {
    Executable(String),
    Endpoint(String),
    RuntimeRecord(String),
}

pub enum LocatorView {
    Executable(Seq<char>),
    Endpoint(Seq<char>),
    RuntimeRecord(Seq<char>),
}

impl View for ObservationLocator {
    type V = LocatorView;

    open spec fn view(&self) -> LocatorView {
        match self {
            ObservationLocator::Executable(s) => LocatorView::Executable(s@),
            ObservationLocator::Endpoint(s) => LocatorView::Endpoint(s@),
            ObservationLocator::RuntimeRecord(s) => LocatorView::RuntimeRecord(s@),
        }
    }
}

impl Clone for ObservationLocator {
    fn clone(&self) -> (r: Self)
        ensures
            r@ == self@,
    {
        match self {
            ObservationLocator::Executable(s) => ObservationLocator::Executable(s.clone()),
            ObservationLocator::Endpoint(s) => ObservationLocator::Endpoint(s.clone()),
            ObservationLocator::RuntimeRecord(s) => ObservationLocator::RuntimeRecord(s.clone()),
        }
    }
}

/// What tells one observation from another: the texts that a fingerprint is made
/// of, in their order.
#[derive(Debug)]
pub struct ObservationFingerprint {
    pub parts: Vec<String>,
}

/// A copy of a list of texts.
pub fn copy_texts(v: &Vec<String>) -> (r: Vec<String>)
    ensures
        text::texts(r@) == text::texts(v@),
{
    let mut r: Vec<String> = Vec::new();
    let mut i: usize = 0;
    while i < v.len()
        invariant
            i <= v@.len(),
            text::texts(r@) == text::texts(v@).take(i as int),
        decreases v@.len() - i,
    {
        let s = v[i].clone();
        proof {
            assert(text::texts(r@.push(s)) =~= text::texts(r@).push(s@));
            assert(text::texts(v@).take(i + 1) =~= text::texts(v@).take(i as int).push(s@));
        }
        r.push(s);
        i += 1;
    }
    assert(text::texts(v@).take(i as int) =~= text::texts(v@));
    r
}

impl View for ObservationFingerprint {
    type V = Seq<Seq<char>>;

    open spec fn view(&self) -> Seq<Seq<char>> {
        text::texts(self.parts@)
    }
}

impl Clone for ObservationFingerprint {
    fn clone(&self) -> (r: Self)
        ensures
            r@ == self@,
    {
        ObservationFingerprint { parts: copy_texts(&self.parts) }
    }
}

impl ObservationFingerprint {
    pub fn of_two(a: &str, b: &str) -> (r: Self)
        ensures
            r@ == seq![a@, b@],
    {
        let mut parts: Vec<String> = Vec::new();
        parts.push(a.to_owned());
        parts.push(b.to_owned());
        assert(text::texts(parts@) =~= seq![a@, b@]);
        ObservationFingerprint { parts }
    }

    /// A fingerprint with one more part.
    pub fn and(self, part: &str) -> (r: Self)
        ensures
            r@ == self@.push(part@),
    {
        let mut parts = self.parts;
        let s = part.to_owned();
        let ghost before = parts@;
        parts.push(s);
        assert(text::texts(parts@) =~= text::texts(before).push(part@));
        ObservationFingerprint { parts }
    }
}

pub open spec fn fingerprints(v: Seq<ObservationFingerprint>) -> Seq<Seq<Seq<char>>> {
    Seq::new(v.len(), |i: int| v[i]@)
}

/// What is known of a package that a runner would start.
#[derive(Debug)]
pub struct RunnerInstallationMetadata {
    pub runner_kind: String,
    pub package_name: String,
    pub resolved_version: String,
    pub install_root: String,
    pub package_integrity: Option<String>,
    pub package_tree_digest: String,
    pub runner_executable_identity: String,
    pub runner_executable_sha256: String,
}

#[verifier::ext_equal]
pub struct RunnerView {
    pub runner_kind: Seq<char>,
    pub package_name: Seq<char>,
    pub resolved_version: Seq<char>,
    pub install_root: Seq<char>,
    pub package_integrity: Option<Seq<char>>,
    pub package_tree_digest: Seq<char>,
    pub runner_executable_identity: Seq<char>,
    pub runner_executable_sha256: Seq<char>,
}

impl View for RunnerInstallationMetadata {
    type V = RunnerView;

    open spec fn view(&self) -> RunnerView {
        RunnerView {
            runner_kind: self.runner_kind@,
            package_name: self.package_name@,
            resolved_version: self.resolved_version@,
            install_root: self.install_root@,
            package_integrity: text::opt_text(self.package_integrity),
            package_tree_digest: self.package_tree_digest@,
            runner_executable_identity: self.runner_executable_identity@,
            runner_executable_sha256: self.runner_executable_sha256@,
        }
    }
}

/// One thing that a discovery has seen.
#[derive(Debug)]
pub struct Observation {
    pub locator: ObservationLocator,
    pub fingerprint: ObservationFingerprint,
    pub association_fingerprints: Vec<ObservationFingerprint>,
    pub package_ids: Vec<String>,
    pub runner_installation: Option<RunnerInstallationMetadata>,
    pub assessment: Assessment,
    pub connector_id: String,
    pub runtime_type: String,
    pub display_name: String,
    pub models: Vec<String>,
    pub catalog_revision: Option<String>,
    pub evidence_summary: Vec<DiscoveryEvidence>,
    pub diagnostics: Vec<DiscoveryDiagnostic>,
}

#[verifier::ext_equal]
pub struct ObservationView {
    pub locator: LocatorView,
    pub fingerprint: Seq<Seq<char>>,
    pub association_fingerprints: Seq<Seq<Seq<char>>>,
    pub package_ids: Seq<Seq<char>>,
    pub runner_installation: Option<RunnerView>,
    pub assessment: Assessment,
    pub connector_id: Seq<char>,
    pub runtime_type: Seq<char>,
    pub display_name: Seq<char>,
    pub models: Seq<Seq<char>>,
    pub catalog_revision: Option<Seq<char>>,
    pub evidence_summary: Seq<DiscoveryEvidence>,
    pub diagnostics: Seq<DiscoveryDiagnostic>,
}

impl View for Observation {
    type V = ObservationView;

    open spec fn view(&self) -> ObservationView {
        ObservationView {
            locator: self.locator@,
            fingerprint: self.fingerprint@,
            association_fingerprints: fingerprints(self.association_fingerprints@),
            package_ids: text::texts(self.package_ids@),
            runner_installation: match self.runner_installation {
                Some(m) => Some(m@),
                None => None,
            },
            assessment: self.assessment,
            connector_id: self.connector_id@,
            runtime_type: self.runtime_type@,
            display_name: self.display_name@,
            models: text::texts(self.models@),
            catalog_revision: text::opt_text(self.catalog_revision),
            evidence_summary: self.evidence_summary@,
            diagnostics: self.diagnostics@,
        }
    }
}

/// What is taken of something that nothing has vouched for.
pub open spec fn unverified(
    source_kind: ObservationSourceKind,
    category: CandidateCategory,
    trust_level: ObservationTrustLevel,
    discovery_state: DiscoveryState,
) -> Assessment {
    Assessment {
        source_kind,
        category,
        trust_level,
        authorities: Authorities::all(VerificationAuthority::Unverified),
        availability: CandidateAvailability::Unconfigured,
        requires_configuration: true,
        discovery_state,
        compatibility_state: CompatibilityState::NotVerified,
        auth_state: AuthState::Unknown,
        health_state: HealthState::NotChecked,
    }
}

pub fn unverified_assessment(
    source_kind: ObservationSourceKind,
    category: CandidateCategory,
    trust_level: ObservationTrustLevel,
    discovery_state: DiscoveryState,
) -> (r: Assessment)
    ensures
        r == unverified(source_kind, category, trust_level, discovery_state),
{
    Assessment {
        source_kind,
        category,
        trust_level,
        authorities: Authorities::of(VerificationAuthority::Unverified),
        availability: CandidateAvailability::Unconfigured,
        requires_configuration: true,
        discovery_state,
        compatibility_state: CompatibilityState::NotVerified,
        auth_state: AuthState::Unknown,
        health_state: HealthState::NotChecked,
    }
}

/// The fingerprint of an executable.
pub open spec fn executable_identity(file_identity: Seq<char>) -> Seq<Seq<char>> {
    seq!["windows-executable"@, file_identity]
}

pub fn windows_executable_identity_fingerprint(file_identity: &str) -> (r: ObservationFingerprint)
    ensures
        r@ == executable_identity(file_identity@),
{
    ObservationFingerprint::of_two("windows-executable", file_identity)
}

/// An executable of which nothing is known but the file.
pub open spec fn unknown_executable(
    source_kind: ObservationSourceKind,
    evidence: DiscoveryEvidence,
    trust_level: ObservationTrustLevel,
    path: Seq<char>,
    file_name: Option<Seq<char>>,
    file_identity: Seq<char>,
) -> ObservationView {
    ObservationView {
        locator: LocatorView::Executable(path),
        fingerprint: executable_identity(file_identity),
        association_fingerprints: seq![executable_identity(file_identity)],
        package_ids: seq![],
        runner_installation: None,
        assessment: unverified(
            source_kind,
            CandidateCategory::Unknown,
            trust_level,
            DiscoveryState::Observed,
        ),
        connector_id: LOCAL_DISCOVERY_UNKNOWN_CONNECTOR_ID@,
        runtime_type: LOCAL_DISCOVERY_UNKNOWN_RUNTIME_TYPE@,
        display_name: match file_name {
            Some(name) => if name.len() > 0 {
                name
            } else {
                "Local executable"@
            },
            None => "Local executable"@,
        },
        models: seq![],
        catalog_revision: None,
        evidence_summary: seq![evidence],
        diagnostics: seq![],
    }
}

/// What was found when an executable was looked at, in the order of looking.
#[derive(Debug)]
pub enum ExecutableProbe {
    /// The path does not start at a root.
    Relative,
    /// The path, or where it leads, is a link.
    Reparse,
    /// Where the path leads could not be found out.
    Unresolved(DiscoveryDiagnosticCode),
    /// It leads to something that is no executable file.
    NotExecutable,
    /// The content of the file could not be taken.
    Unreadable(DiscoveryDiagnosticCode),
    /// An executable file: where it is, its name, and the identity of its content.
    File { path: String, file_name: Option<String>, identity: String },
}

/// Why an executable is not taken.
pub open spec fn probe_refusal(probe: ExecutableProbe) -> Option<DiscoveryDiagnosticCode> {
    match probe {
        ExecutableProbe::Relative => Some(DiscoveryDiagnosticCode::InvalidSourceRecord),
        ExecutableProbe::Reparse => Some(DiscoveryDiagnosticCode::ReparsePointRejected),
        ExecutableProbe::Unresolved(code) => Some(code),
        ExecutableProbe::NotExecutable => Some(DiscoveryDiagnosticCode::InvalidSourceRecord),
        ExecutableProbe::Unreadable(code) => Some(code),
        ExecutableProbe::File { .. } => None,
    }
}

/// The observation of an executable that was looked at, or why it is not taken.
pub open spec fn probed(
    source_kind: ObservationSourceKind,
    evidence: DiscoveryEvidence,
    trust_level: ObservationTrustLevel,
    probe: ExecutableProbe,
) -> Result<ObservationView, DiscoveryDiagnosticCode> {
    match probe {
        ExecutableProbe::File { path, file_name, identity } => Ok(
            unknown_executable(
                source_kind,
                evidence,
                trust_level,
                path@,
                text::opt_text(file_name),
                identity@,
            ),
        ),
        _ => Err(probe_refusal(probe)->0),
    }
}

pub open spec fn observed(r: Result<Observation, DiscoveryDiagnosticCode>) -> Result<
    ObservationView,
    DiscoveryDiagnosticCode,
> {
    match r {
        Ok(o) => Ok(o@),
        Err(code) => Err(code),
    }
}

pub fn unknown_executable_observation(
    source_kind: ObservationSourceKind,
    evidence: DiscoveryEvidence,
    trust_level: ObservationTrustLevel,
    probe: ExecutableProbe,
) -> (r: Result<Observation, DiscoveryDiagnosticCode>)
    ensures
        observed(r) == probed(source_kind, evidence, trust_level, probe),
{
    match probe {
        ExecutableProbe::Relative => Err(DiscoveryDiagnosticCode::InvalidSourceRecord),
        ExecutableProbe::Reparse => Err(DiscoveryDiagnosticCode::ReparsePointRejected),
        ExecutableProbe::Unresolved(code) => Err(code),
        ExecutableProbe::NotExecutable => Err(DiscoveryDiagnosticCode::InvalidSourceRecord),
        ExecutableProbe::Unreadable(code) => Err(code),
        ExecutableProbe::File { path, file_name, identity } => {
            let ghost want = unknown_executable(
                source_kind,
                evidence,
                trust_level,
                path@,
                text::opt_text(file_name),
                identity@,
            );
            let display_name = match file_name {
                Some(name) => if name.as_str().is_empty() {
                    "Local executable".to_owned()
                } else {
                    name
                },
                None => "Local executable".to_owned(),
            };
            let fingerprint = windows_executable_identity_fingerprint(identity.as_str());
            let mut association_fingerprints: Vec<ObservationFingerprint> = Vec::new();
            association_fingerprints.push(fingerprint.clone());
            let mut evidence_summary: Vec<DiscoveryEvidence> = Vec::new();
            evidence_summary.push(evidence);
            let o = Observation {
                locator: ObservationLocator::Executable(path),
                fingerprint,
                association_fingerprints,
                package_ids: Vec::new(),
                runner_installation: None,
                assessment: unverified_assessment(
                    source_kind,
                    CandidateCategory::Unknown,
                    trust_level,
                    DiscoveryState::Observed,
                ),
                connector_id: LOCAL_DISCOVERY_UNKNOWN_CONNECTOR_ID.to_owned(),
                runtime_type: LOCAL_DISCOVERY_UNKNOWN_RUNTIME_TYPE.to_owned(),
                display_name,
                models: Vec::new(),
                catalog_revision: None,
                evidence_summary,
                diagnostics: Vec::new(),
            };
            proof {
                assert(o@.association_fingerprints =~= want.association_fingerprints);
                assert(o@.package_ids =~= want.package_ids);
                assert(o@.models =~= want.models);
                assert(o@.evidence_summary =~= want.evidence_summary);
                assert(o@.diagnostics =~= want.diagnostics);
            }
            Ok(o)
        },
    }
}

/// An endpoint that the user has named.
pub open spec fn unknown_endpoint(endpoint_ref: Seq<char>) -> ObservationView {
    ObservationView {
        locator: LocatorView::Endpoint(endpoint_ref),
        fingerprint: seq!["windows-loopback-endpoint"@, endpoint_ref],
        association_fingerprints: seq![],
        package_ids: seq![],
        runner_installation: None,
        assessment: unverified(
            ObservationSourceKind::UserSelected,
            CandidateCategory::Unknown,
            ObservationTrustLevel::UserSelected,
            DiscoveryState::Observed,
        ),
        connector_id: LOCAL_DISCOVERY_UNKNOWN_CONNECTOR_ID@,
        runtime_type: LOCAL_DISCOVERY_UNKNOWN_RUNTIME_TYPE@,
        display_name: "Loopback endpoint"@,
        models: seq![],
        catalog_revision: None,
        evidence_summary: seq![DiscoveryEvidence::UserSelected],
        diagnostics: seq![],
    }
}

pub fn unknown_endpoint_observation(endpoint_ref: &str) -> (r: Observation)
    ensures
        r@ == unknown_endpoint(endpoint_ref@),
{
    let mut evidence_summary: Vec<DiscoveryEvidence> = Vec::new();
    evidence_summary.push(DiscoveryEvidence::UserSelected);
    let o = Observation {
        locator: ObservationLocator::Endpoint(endpoint_ref.to_owned()),
        fingerprint: ObservationFingerprint::of_two("windows-loopback-endpoint", endpoint_ref),
        association_fingerprints: Vec::new(),
        package_ids: Vec::new(),
        runner_installation: None,
        assessment: unverified_assessment(
            ObservationSourceKind::UserSelected,
            CandidateCategory::Unknown,
            ObservationTrustLevel::UserSelected,
            DiscoveryState::Observed,
        ),
        connector_id: LOCAL_DISCOVERY_UNKNOWN_CONNECTOR_ID.to_owned(),
        runtime_type: LOCAL_DISCOVERY_UNKNOWN_RUNTIME_TYPE.to_owned(),
        display_name: "Loopback endpoint".to_owned(),
        models: Vec::new(),
        catalog_revision: None,
        evidence_summary,
        diagnostics: Vec::new(),
    };
    proof {
        let want = unknown_endpoint(endpoint_ref@);
        assert(o@.association_fingerprints =~= want.association_fingerprints);
        assert(o@.package_ids =~= want.package_ids);
        assert(o@.models =~= want.models);
        assert(o@.evidence_summary =~= want.evidence_summary);
        assert(o@.diagnostics =~= want.diagnostics);
    }
    o
}

/// The executable of Codex. A file whose content cannot be taken is told by its
/// path, with a diagnostic.
pub open spec fn codex_executable(
    binary: Seq<char>,
    path_identity: Seq<char>,
    identity: Result<Seq<char>, DiscoveryDiagnosticCode>,
) -> ObservationView {
    ObservationView {
        locator: LocatorView::Executable(binary),
        fingerprint: seq![
            "codex-executable"@,
            match identity {
                Ok(s) => s,
                Err(_) => path_identity,
            },
        ],
        association_fingerprints: seq![],
        package_ids: seq![],
        runner_installation: None,
        assessment: unverified(
            ObservationSourceKind::ExecutableInventory,
            CandidateCategory::AgentRuntime,
            ObservationTrustLevel::Heuristic,
            DiscoveryState::Identified,
        ),
        connector_id: LOCAL_DISCOVERY_CODEX_CONNECTOR_ID@,
        runtime_type: "codex"@,
        display_name: "Codex (local executable)"@,
        models: seq![],
        catalog_revision: None,
        evidence_summary: seq![
            DiscoveryEvidence::ExecutableInventory,
            DiscoveryEvidence::InstallKnown,
        ],
        diagnostics: match identity {
            Ok(_) => seq![],
            Err(code) => seq![
                DiscoveryDiagnostic {
                    source_kind: ObservationSourceKind::ExecutableInventory,
                    code,
                },
            ],
        },
    }
}

/// The observation of a Codex executable, whose path has the identity
/// `path_identity`.
pub fn codex_observation(
    binary: &str,
    path_identity: &str,
    identity: &Result<String, DiscoveryDiagnosticCode>,
) -> (r: Observation)
    ensures
        r@ == codex_executable(
            binary@,
            path_identity@,
            match *identity {
                Ok(s) => Ok(s@),
                Err(code) => Err(code),
            },
        ),
{
    let mut evidence_summary: Vec<DiscoveryEvidence> = Vec::new();
    evidence_summary.push(DiscoveryEvidence::ExecutableInventory);
    evidence_summary.push(DiscoveryEvidence::InstallKnown);
    let mut diagnostics: Vec<DiscoveryDiagnostic> = Vec::new();
    let file_identity = match identity {
        Ok(s) => s.as_str(),
        Err(code) => {
            diagnostics.push(
                DiscoveryDiagnostic {
                    source_kind: ObservationSourceKind::ExecutableInventory,
                    code: *code,
                },
            );
            path_identity
        },
    };
    let o = Observation {
        locator: ObservationLocator::Executable(binary.to_owned()),
        fingerprint: ObservationFingerprint::of_two("codex-executable", file_identity),
        association_fingerprints: Vec::new(),
        package_ids: Vec::new(),
        runner_installation: None,
        assessment: unverified_assessment(
            ObservationSourceKind::ExecutableInventory,
            CandidateCategory::AgentRuntime,
            ObservationTrustLevel::Heuristic,
            DiscoveryState::Identified,
        ),
        connector_id: LOCAL_DISCOVERY_CODEX_CONNECTOR_ID.to_owned(),
        runtime_type: "codex".to_owned(),
        display_name: "Codex (local executable)".to_owned(),
        models: Vec::new(),
        catalog_revision: None,
        evidence_summary,
        diagnostics,
    };
    proof {
        let want = codex_executable(
            binary@,
            path_identity@,
            match identity {
                Ok(s) => Ok(s@),
                Err(code) => Err(*code),
            },
        );
        assert(o@.association_fingerprints =~= want.association_fingerprints);
        assert(o@.package_ids =~= want.package_ids);
        assert(o@.models =~= want.models);
        assert(o@.evidence_summary =~= want.evidence_summary);
        assert(o@.diagnostics =~= want.diagnostics);
        assert(o@.fingerprint =~= want.fingerprint);
    }
    o
}

/// Nothing that is only looked at is taken for verified, available or ready.
pub proof fn law_unverified_claims_nothing(
    source_kind: ObservationSourceKind,
    evidence: DiscoveryEvidence,
    trust_level: ObservationTrustLevel,
    probe: ExecutableProbe,
)
    ensures
        probed(source_kind, evidence, trust_level, probe) matches Ok(o) ==> {
            &&& o.assessment.authorities == Authorities::all(VerificationAuthority::Unverified)
            &&& o.assessment.availability == CandidateAvailability::Unconfigured
            &&& o.assessment.requires_configuration
            &&& o.models.len() == 0
            &&& o.assessment.health_state == HealthState::NotChecked
        },
{
}

} // verus!
