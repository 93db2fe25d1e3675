//! Passive discovery of a shared Kun runtime: its record is read without the
//! secrets that it holds, and the runtime itself is asked only where that is
//! allowed.

use vstd::prelude::*;
use vstd::string::*;

use crate::deadline::MAX_TRANSPORT_SETUP_TIMEOUT_MS;
use crate::digest;
use crate::digest::stable_path_identity;
use crate::error::ConnectorRuntimeFailure;
use crate::event::copy_text;
use crate::http::MAX_TRANSPORT_BODY_BYTES;
use crate::observation;
use crate::observation::{
    Assessment, AuthState, Authorities, CandidateAvailability, CandidateCategory,
    CompatibilityState, DiscoveryDiagnostic, DiscoveryDiagnosticCode, DiscoveryEvidence,
    DiscoveryState, HealthState, Observation, ObservationFingerprint, ObservationLocator,
    ObservationSourceKind, ObservationTrustLevel, VerificationAuthority,
    LOCAL_DISCOVERY_KUN_CONNECTOR_ID,
};
use crate::runtimes::KunSharedRuntimeConfig;
use crate::text;
use crate::text::{safe_model_identifier, same_text};

verus! {

/// What is taken of the record of a runtime. A token is none of it.
#[derive(Debug)]
pub struct PassiveKunRuntimeRecord {
    pub port: Option<u16>,
    pub instance_id: Option<String>,
    pub service_version: Option<String>,
    pub build_id: Option<String>,
}

#[verifier::ext_equal]
pub struct PassiveView {
    pub port: Option<u16>,
    pub instance_id: Option<Seq<char>>,
    pub service_version: Option<Seq<char>>,
    pub build_id: Option<Seq<char>>,
}

impl View for PassiveKunRuntimeRecord {
    type V = PassiveView;

    open spec fn view(&self) -> PassiveView {
        PassiveView {
            port: self.port,
            instance_id: text::opt_text(self.instance_id),
            service_version: text::opt_text(self.service_version),
            build_id: text::opt_text(self.build_id),
        }
    }
}

/// What a member of the record stands for.
#[derive(Clone, Copy, Debug, PartialEq, Eq, Structural)]
pub enum PassiveMember {
    Port,
    InstanceId,
    ServiceVersion,
    BuildId,
    /// It is passed over.
    Ignored,
}

pub open spec fn member_of_key(key: Seq<char>) -> PassiveMember {
    if key == "port"@ {
        PassiveMember::Port
    } else if key == "instanceId"@ {
        PassiveMember::InstanceId
    } else if key == "serviceVersion"@ {
        PassiveMember::ServiceVersion
    } else if key == "buildId"@ {
        PassiveMember::BuildId
    } else {
        PassiveMember::Ignored
    }
}

pub fn passive_member(key: &str) -> (r: PassiveMember)
    ensures
        r == member_of_key(key@),
{
    if same_text(key, "port") {
        PassiveMember::Port
    } else if same_text(key, "instanceId") {
        PassiveMember::InstanceId
    } else if same_text(key, "serviceVersion") {
        PassiveMember::ServiceVersion
    } else if same_text(key, "buildId") {
        PassiveMember::BuildId
    } else {
        PassiveMember::Ignored
    }
}

/// The members that hold secrets are passed over.
pub proof fn law_secrets_are_passed_over()
    ensures
        member_of_key("runtimeToken"@) is Ignored,
        member_of_key("apiKey"@) is Ignored,
        member_of_key("Authorization"@) is Ignored,
        member_of_key("authorization"@) is Ignored,
        member_of_key("Cookie"@) is Ignored,
        member_of_key("cookie"@) is Ignored,
{
    reveal_strlit("port");
    reveal_strlit("instanceId");
    reveal_strlit("serviceVersion");
    reveal_strlit("buildId");
    reveal_strlit("runtimeToken");
    reveal_strlit("apiKey");
    reveal_strlit("Authorization");
    reveal_strlit("authorization");
    reveal_strlit("Cookie");
    reveal_strlit("cookie");
    assert("instanceId"@[0] == 'i');
    assert("serviceVersion"@[0] == 's');
    assert("buildId"@[0] == 'b');
    assert("port"@[0] == 'p');
    assert("runtimeToken"@[0] == 'r');
    assert("apiKey"@[0] == 'a');
    assert("Authorization"@[0] == 'A');
    assert("authorization"@[0] == 'a');
    assert("Cookie"@[0] == 'C');
    assert("cookie"@[0] == 'c');
}

pub open spec fn port_number(value: Option<u64>) -> Option<u16> {
    match value {
        Some(n) => if 0 < n <= u16::MAX {
            Some(n as u16)
        } else {
            None
        },
        None => None,
    }
}

pub open spec fn safe_member(value: Option<Seq<char>>) -> Option<Seq<char>> {
    match value {
        Some(s) => text::safe_identifier(s),
        None => None,
    }
}

impl PassiveKunRuntimeRecord {
    pub fn new() -> (r: Self)
        ensures
            r@ == (PassiveView {
                port: None,
                instance_id: None,
                service_version: None,
                build_id: None,
            }),
    {
        PassiveKunRuntimeRecord {
            port: None,
            instance_id: None,
            service_version: None,
            build_id: None,
        }
    }

    /// Takes the number of a port; one that is no port takes the place of an earlier
    /// one too.
    pub fn on_port(&mut self, value: Option<u64>)
        ensures
            final(self)@ == (PassiveView { port: port_number(value), ..old(self)@ }),
    {
        self.port = match value {
            Some(n) => if 0 < n && n <= 65_535 {
                Some(n as u16)
            } else {
                None
            },
            None => None,
        };
    }

    /// Takes a text. Another member of the record leaves it as it is.
    pub fn on_text(&mut self, member: PassiveMember, value: Option<String>)
        ensures
            ({
                let taken = safe_member(text::opt_text(value));
                final(self)@ == match member {
                    PassiveMember::InstanceId => PassiveView { instance_id: taken, ..old(self)@ },
                    PassiveMember::ServiceVersion => PassiveView {
                        service_version: taken,
                        ..old(self)@
                    },
                    PassiveMember::BuildId => PassiveView { build_id: taken, ..old(self)@ },
                    _ => old(self)@,
                }
            }),
    {
        let taken = match value {
            Some(s) => safe_model_identifier(s.as_str()),
            None => None,
        };
        match member {
            PassiveMember::InstanceId => {
                self.instance_id = taken;
            },
            PassiveMember::ServiceVersion => {
                self.service_version = taken;
            },
            PassiveMember::BuildId => {
                self.build_id = taken;
            },
            _ => {},
        }
    }
}

// ---------------------------------------------------------------------------
// Reading with a limit.

/// How much of an input was read, and how much may be.
#[derive(Debug)]
pub struct BoundedRead {
    limit: usize,
    read: usize,
    oversized: bool,
}

impl BoundedRead {
    pub closed spec fn taken(&self) -> nat {
        self.read as nat
    }

    pub closed spec fn most(&self) -> nat {
        self.limit as nat
    }

    pub closed spec fn is_over(&self) -> bool {
        self.oversized
    }

    /// No more than one byte over the limit is ever read.
    pub closed spec fn valid(&self) -> bool {
        self.limit < usize::MAX && self.read <= self.limit + 1
    }

    pub fn new(limit: usize) -> (r: Self)
        requires
            limit < usize::MAX,
        ensures
            r.valid(),
            r.most() == limit,
            r.taken() == 0,
            !r.is_over(),
    {
        BoundedRead { limit, read: 0, oversized: false }
    }

    /// How much may be read at once into a buffer, or nothing where the limit is
    /// passed.
    pub fn allowance(&mut self, buffer: usize) -> (r: Option<usize>)
        requires
            old(self).valid(),
        ensures
            final(self).valid(),
            final(self).most() == old(self).most(),
            final(self).taken() == old(self).taken(),
            match r {
                Some(n) => {
                    &&& old(self).taken() <= old(self).most()
                    &&& n == if old(self).most() + 1 - old(self).taken() <= buffer {
                        old(self).most() + 1 - old(self).taken()
                    } else {
                        buffer as int
                    }
                    &&& final(self).is_over() == old(self).is_over()
                },
                None => old(self).taken() > old(self).most() && final(self).is_over(),
            },
    {
        if self.read > self.limit {
            self.oversized = true;
            return None;
        }
        let left: usize = self.limit + 1 - self.read;
        Some(
            if left <= buffer {
                left
            } else {
                buffer
            },
        )
    }

    /// Takes note of what was read, and says whether it may be used.
    pub fn took(&mut self, count: usize) -> (r: bool)
        requires
            old(self).valid(),
            old(self).taken() + count <= old(self).most() + 1,
        ensures
            final(self).valid(),
            final(self).most() == old(self).most(),
            final(self).taken() == old(self).taken() + count,
            r == (final(self).taken() <= old(self).most()),
            final(self).is_over() == (old(self).is_over() || !r),
    {
        self.read = self.read + count;
        if self.read > self.limit {
            self.oversized = true;
            return false;
        }
        true
    }

    pub fn oversized(&self) -> (r: bool)
        ensures
            r == self.is_over(),
    {
        self.oversized
    }
}

/// What reading a record came to.
pub fn passive_record_result(oversized: bool, parsed: Option<PassiveKunRuntimeRecord>) -> (r:
    Result<PassiveKunRuntimeRecord, DiscoveryDiagnosticCode>)
    ensures
        r == if oversized {
            Err(DiscoveryDiagnosticCode::OversizedInput)
        } else {
            match parsed {
                Some(p) => Ok(p),
                None => Err(DiscoveryDiagnosticCode::ProviderFailed),
            }
        },
{
    if oversized {
        return Err(DiscoveryDiagnosticCode::OversizedInput);
    }
    match parsed {
        Some(p) => Ok(p),
        None => Err(DiscoveryDiagnosticCode::ProviderFailed),
    }
}

// ---------------------------------------------------------------------------
// The record on disk.

/// A record that was found.
#[derive(Debug)]
pub struct LocalKunRecord {
    pub runtime_json: String,
    /// The directory that holds it.
    pub directory: Option<String>,
    pub port: Option<u16>,
    pub instance_id: Option<String>,
    pub service_version: Option<String>,
    pub build_id: Option<String>,
    pub parsed: bool,
    pub diagnostics: Vec<DiscoveryDiagnostic>,
}

#[verifier::ext_equal]
pub struct LocalView {
    pub runtime_json: Seq<char>,
    pub directory: Option<Seq<char>>,
    pub port: Option<u16>,
    pub instance_id: Option<Seq<char>>,
    pub service_version: Option<Seq<char>>,
    pub build_id: Option<Seq<char>>,
    pub parsed: bool,
    pub diagnostics: Seq<DiscoveryDiagnostic>,
}

impl View for LocalKunRecord {
    type V = LocalView;

    open spec fn view(&self) -> LocalView {
        LocalView {
            runtime_json: self.runtime_json@,
            directory: text::opt_text(self.directory),
            port: self.port,
            instance_id: text::opt_text(self.instance_id),
            service_version: text::opt_text(self.service_version),
            build_id: text::opt_text(self.build_id),
            parsed: self.parsed,
            diagnostics: self.diagnostics@,
        }
    }
}

/// What was found where a record may be.
#[derive(Debug)]
pub enum KunRecordFile {
    Missing,
    /// It could not be opened.
    Unopened,
    /// It is too long, by what its metadata says.
    Oversized,
    Read(Result<PassiveKunRuntimeRecord, DiscoveryDiagnosticCode>),
}

/// Whether a file is too long, where its length is known.
pub fn record_is_oversized(len: Option<u64>) -> (r: bool)
    ensures
        r == (len is Some && len->0 > MAX_TRANSPORT_BODY_BYTES),
{
    match len {
        Some(n) => n > MAX_TRANSPORT_BODY_BYTES as u64,
        None => false,
    }
}

/// A record that could not be taken, and why.
pub open spec fn untaken(
    runtime_json: Seq<char>,
    directory: Option<Seq<char>>,
    code: DiscoveryDiagnosticCode,
) -> LocalView {
    LocalView {
        runtime_json,
        directory,
        port: None,
        instance_id: None,
        service_version: None,
        build_id: None,
        parsed: false,
        diagnostics: seq![
            DiscoveryDiagnostic { source_kind: ObservationSourceKind::RuntimeRecord, code },
        ],
    }
}

/// The record of a file. A record without an instance is told by a diagnostic.
pub open spec fn local_record(
    runtime_json: Seq<char>,
    directory: Option<Seq<char>>,
    file: KunRecordFile,
) -> Option<LocalView> {
    match file {
        KunRecordFile::Missing => None,
        KunRecordFile::Unopened => Some(
            untaken(runtime_json, directory, DiscoveryDiagnosticCode::FingerprintUnavailable),
        ),
        KunRecordFile::Oversized => Some(
            untaken(runtime_json, directory, DiscoveryDiagnosticCode::OversizedInput),
        ),
        KunRecordFile::Read(Err(code)) => Some(untaken(runtime_json, directory, code)),
        KunRecordFile::Read(Ok(p)) => Some(
            LocalView {
                runtime_json,
                directory,
                port: p@.port,
                instance_id: p@.instance_id,
                service_version: p@.service_version,
                build_id: p@.build_id,
                parsed: true,
                diagnostics: if p@.instance_id is None {
                    seq![
                        DiscoveryDiagnostic {
                            source_kind: ObservationSourceKind::RuntimeRecord,
                            code: DiscoveryDiagnosticCode::InvalidIdentity,
                        },
                    ]
                } else {
                    seq![]
                },
            },
        ),
    }
}

pub open spec fn local_opt(r: Option<LocalKunRecord>) -> Option<LocalView> {
    match r {
        Some(x) => Some(x@),
        None => None,
    }
}

fn untaken_record(runtime_json: &str, directory: &Option<String>, code: DiscoveryDiagnosticCode) ->
    (r: LocalKunRecord)
    ensures
        r@ == untaken(runtime_json@, text::opt_text(*directory), code),
{
    let mut diagnostics: Vec<DiscoveryDiagnostic> = Vec::new();
    diagnostics.push(
        DiscoveryDiagnostic { source_kind: ObservationSourceKind::RuntimeRecord, code },
    );
    let r = LocalKunRecord {
        runtime_json: runtime_json.to_owned(),
        directory: copy_text(directory),
        port: None,
        instance_id: None,
        service_version: None,
        build_id: None,
        parsed: false,
        diagnostics,
    };
    assert(r@ =~= untaken(runtime_json@, text::opt_text(*directory), code));
    r
}

pub fn local_kun_record(runtime_json: &str, directory: &Option<String>, file: KunRecordFile) -> (r:
    Option<LocalKunRecord>)
    ensures
        local_opt(r) == local_record(runtime_json@, text::opt_text(*directory), file),
{
    match file {
        KunRecordFile::Missing => None,
        KunRecordFile::Unopened => Some(
            untaken_record(
                runtime_json,
                directory,
                DiscoveryDiagnosticCode::FingerprintUnavailable,
            ),
        ),
        KunRecordFile::Oversized => Some(
            untaken_record(runtime_json, directory, DiscoveryDiagnosticCode::OversizedInput),
        ),
        KunRecordFile::Read(Err(code)) => Some(untaken_record(runtime_json, directory, code)),
        KunRecordFile::Read(Ok(p)) => {
            let ghost given = file;
            let mut diagnostics: Vec<DiscoveryDiagnostic> = Vec::new();
            if p.instance_id.is_none() {
                diagnostics.push(
                    DiscoveryDiagnostic {
                        source_kind: ObservationSourceKind::RuntimeRecord,
                        code: DiscoveryDiagnosticCode::InvalidIdentity,
                    },
                );
            }
            let x = LocalKunRecord {
                runtime_json: runtime_json.to_owned(),
                directory: copy_text(directory),
                port: p.port,
                instance_id: p.instance_id,
                service_version: p.service_version,
                build_id: p.build_id,
                parsed: true,
                diagnostics,
            };
            proof {
                let want = local_record(runtime_json@, text::opt_text(*directory), given)->0;
                assert(x@.diagnostics =~= want.diagnostics);
                assert(x@ =~= want);
            }
            Some(x)
        },
    }
}

// ---------------------------------------------------------------------------
// Observations.

/// What tells one runtime from another: its instance, or else the directory of its
/// record, its version and its build.
pub open spec fn fingerprint_of(record: LocalView) -> Seq<Seq<char>> {
    seq![
        "kun-shared-runtime"@,
        match record.instance_id {
            Some(id) => id,
            None => digest::path_identity(
                match record.directory {
                    Some(d) => d,
                    None => record.runtime_json,
                },
            ),
        },
        match record.service_version {
            Some(v) => v,
            None => "unknown"@,
        },
        match record.build_id {
            Some(b) => b,
            None => "unknown"@,
        },
    ]
}

pub fn kun_fingerprint(record: &LocalKunRecord) -> (r: ObservationFingerprint)
    ensures
        r@ == fingerprint_of(record@),
{
    let instance = match &record.instance_id {
        Some(id) => id.clone(),
        None => match &record.directory {
            Some(d) => stable_path_identity(d.as_str()),
            None => stable_path_identity(record.runtime_json.as_str()),
        },
    };
    let version = match &record.service_version {
        Some(v) => v.as_str(),
        None => "unknown",
    };
    let build = match &record.build_id {
        Some(b) => b.as_str(),
        None => "unknown",
    };
    let r = ObservationFingerprint::of_two("kun-shared-runtime", instance.as_str()).and(
        version,
    ).and(build);
    assert(r@ =~= fingerprint_of(record@));
    r
}

/// What the runtime answered when it was asked for its models: the models and the
/// revision of its catalog, or the class of the failure.
pub type KunOutcome = Result<(Vec<String>, Option<String>), Option<ConnectorRuntimeFailure>>;

/// Whether the runtime of a record is to be asked.
pub open spec fn is_asked(record: LocalView, allow_active_verification: bool) -> bool {
    record.parsed && record.instance_id is Some && allow_active_verification
}

pub fn wants_verification(record: &LocalKunRecord, allow_active_verification: bool) -> (r: bool)
    ensures
        r == is_asked(record@, allow_active_verification),
{
    record.parsed && record.instance_id.is_some() && allow_active_verification
}

/// What is said of a runtime that cannot be used.
pub open spec fn unusable(
    availability: CandidateAvailability,
    discovery_state: DiscoveryState,
    compatibility_state: CompatibilityState,
    auth_state: AuthState,
    health_state: HealthState,
) -> Assessment {
    let vouched = health_state is IdentityMismatch || compatibility_state is Incompatible;
    Assessment {
        source_kind: ObservationSourceKind::RuntimeRecord,
        category: CandidateCategory::AgentRuntime,
        trust_level: if vouched {
            ObservationTrustLevel::FirstParty
        } else {
            ObservationTrustLevel::Heuristic
        },
        authorities: Authorities::all(
            if vouched {
                VerificationAuthority::Authoritative
            } else {
                VerificationAuthority::Unverified
            },
        ),
        availability,
        requires_configuration: true,
        discovery_state,
        compatibility_state,
        auth_state,
        health_state,
    }
}

fn unusable_assessment(
    availability: CandidateAvailability,
    discovery_state: DiscoveryState,
    compatibility_state: CompatibilityState,
    auth_state: AuthState,
    health_state: HealthState,
) -> (r: Assessment)
    ensures
        r == unusable(availability, discovery_state, compatibility_state, auth_state, health_state),
{
    let vouched = health_state == HealthState::IdentityMismatch || compatibility_state
        == CompatibilityState::Incompatible;
    Assessment {
        source_kind: ObservationSourceKind::RuntimeRecord,
        category: CandidateCategory::AgentRuntime,
        trust_level: if vouched {
            ObservationTrustLevel::FirstParty
        } else {
            ObservationTrustLevel::Heuristic
        },
        authorities: Authorities::of(
            if vouched {
                VerificationAuthority::Authoritative
            } else {
                VerificationAuthority::Unverified
            },
        ),
        availability,
        requires_configuration: true,
        discovery_state,
        compatibility_state,
        auth_state,
        health_state,
    }
}

/// What is said of a runtime that has answered.
pub open spec fn usable() -> Assessment {
    Assessment {
        source_kind: ObservationSourceKind::RuntimeRecord,
        category: CandidateCategory::AgentRuntime,
        trust_level: ObservationTrustLevel::FirstParty,
        authorities: Authorities::all(VerificationAuthority::Authoritative),
        availability: CandidateAvailability::Available,
        requires_configuration: false,
        discovery_state: DiscoveryState::Identified,
        compatibility_state: CompatibilityState::Compatible,
        auth_state: AuthState::Ready,
        health_state: HealthState::Ready,
    }
}

/// What a record is evidence of: that there is one. It proves no version, no build
/// and no installation.
pub open spec fn record_evidence() -> Seq<DiscoveryEvidence> {
    seq![DiscoveryEvidence::RuntimeRecord]
}

pub fn kun_evidence_summary(_record: &LocalKunRecord) -> (r: Vec<DiscoveryEvidence>)
    ensures
        r@ == record_evidence(),
{
    let mut r: Vec<DiscoveryEvidence> = Vec::new();
    r.push(DiscoveryEvidence::RuntimeRecord);
    assert(r@ =~= record_evidence());
    r
}

/// What is said of a runtime whose record was found, and on what evidence.
pub open spec fn assessed(
    record: LocalView,
    allow_active_verification: bool,
    outcome: KunOutcome,
) -> (Assessment, DiscoveryEvidence) {
    if !record.parsed {
        (
            unusable(
                CandidateAvailability::Unavailable,
                DiscoveryState::Observed,
                CompatibilityState::NotVerified,
                AuthState::Unknown,
                HealthState::Unavailable,
            ),
            DiscoveryEvidence::CatalogUnavailable,
        )
    } else if record.instance_id is None {
        (
            unusable(
                CandidateAvailability::Unavailable,
                DiscoveryState::Identified,
                CompatibilityState::Incompatible,
                AuthState::Unknown,
                HealthState::Unavailable,
            ),
            DiscoveryEvidence::IdentityMismatch,
        )
    } else if !allow_active_verification {
        (
            unusable(
                CandidateAvailability::Unconfigured,
                DiscoveryState::Identified,
                CompatibilityState::NotVerified,
                AuthState::Unknown,
                HealthState::NotChecked,
            ),
            DiscoveryEvidence::Unconfigured,
        )
    } else {
        match outcome {
            Ok(_) => (usable(), DiscoveryEvidence::Available),
            Err(Some(ConnectorRuntimeFailure::RuntimeAuthenticationFailed)) => (
                unusable(
                    CandidateAvailability::AuthenticationRequired,
                    DiscoveryState::Identified,
                    CompatibilityState::NotVerified,
                    AuthState::Required,
                    HealthState::Unavailable,
                ),
                DiscoveryEvidence::AuthenticationRequired,
            ),
            Err(Some(ConnectorRuntimeFailure::CatalogUnavailable)) => (
                unusable(
                    CandidateAvailability::Unconfigured,
                    DiscoveryState::Identified,
                    CompatibilityState::NotVerified,
                    AuthState::Unknown,
                    HealthState::Unavailable,
                ),
                DiscoveryEvidence::Unconfigured,
            ),
            Err(Some(ConnectorRuntimeFailure::RuntimeIdentityMismatch)) => (
                unusable(
                    CandidateAvailability::Unavailable,
                    DiscoveryState::Identified,
                    CompatibilityState::Incompatible,
                    AuthState::Ready,
                    HealthState::IdentityMismatch,
                ),
                DiscoveryEvidence::IdentityMismatch,
            ),
            Err(_) => (
                unusable(
                    CandidateAvailability::Unavailable,
                    DiscoveryState::Identified,
                    CompatibilityState::NotVerified,
                    AuthState::Unknown,
                    HealthState::Unavailable,
                ),
                DiscoveryEvidence::CatalogUnavailable,
            ),
        }
    }
}

fn assess(record: &LocalKunRecord, allow_active_verification: bool, outcome: &KunOutcome) -> (r: (
    Assessment,
    DiscoveryEvidence,
))
    ensures
        r == assessed(record@, allow_active_verification, *outcome),
{
    if !record.parsed {
        return (
            unusable_assessment(
                CandidateAvailability::Unavailable,
                DiscoveryState::Observed,
                CompatibilityState::NotVerified,
                AuthState::Unknown,
                HealthState::Unavailable,
            ),
            DiscoveryEvidence::CatalogUnavailable,
        );
    }
    if record.instance_id.is_none() {
        return (
            unusable_assessment(
                CandidateAvailability::Unavailable,
                DiscoveryState::Identified,
                CompatibilityState::Incompatible,
                AuthState::Unknown,
                HealthState::Unavailable,
            ),
            DiscoveryEvidence::IdentityMismatch,
        );
    }
    if !allow_active_verification {
        return (
            unusable_assessment(
                CandidateAvailability::Unconfigured,
                DiscoveryState::Identified,
                CompatibilityState::NotVerified,
                AuthState::Unknown,
                HealthState::NotChecked,
            ),
            DiscoveryEvidence::Unconfigured,
        );
    }
    match outcome {
        Ok(_) => (
            Assessment {
                source_kind: ObservationSourceKind::RuntimeRecord,
                category: CandidateCategory::AgentRuntime,
                trust_level: ObservationTrustLevel::FirstParty,
                authorities: Authorities::of(VerificationAuthority::Authoritative),
                availability: CandidateAvailability::Available,
                requires_configuration: false,
                discovery_state: DiscoveryState::Identified,
                compatibility_state: CompatibilityState::Compatible,
                auth_state: AuthState::Ready,
                health_state: HealthState::Ready,
            },
            DiscoveryEvidence::Available,
        ),
        Err(Some(ConnectorRuntimeFailure::RuntimeAuthenticationFailed)) => (
            unusable_assessment(
                CandidateAvailability::AuthenticationRequired,
                DiscoveryState::Identified,
                CompatibilityState::NotVerified,
                AuthState::Required,
                HealthState::Unavailable,
            ),
            DiscoveryEvidence::AuthenticationRequired,
        ),
        Err(Some(ConnectorRuntimeFailure::CatalogUnavailable)) => (
            unusable_assessment(
                CandidateAvailability::Unconfigured,
                DiscoveryState::Identified,
                CompatibilityState::NotVerified,
                AuthState::Unknown,
                HealthState::Unavailable,
            ),
            DiscoveryEvidence::Unconfigured,
        ),
        Err(Some(ConnectorRuntimeFailure::RuntimeIdentityMismatch)) => (
            unusable_assessment(
                CandidateAvailability::Unavailable,
                DiscoveryState::Identified,
                CompatibilityState::Incompatible,
                AuthState::Ready,
                HealthState::IdentityMismatch,
            ),
            DiscoveryEvidence::IdentityMismatch,
        ),
        Err(_) => (
            unusable_assessment(
                CandidateAvailability::Unavailable,
                DiscoveryState::Identified,
                CompatibilityState::NotVerified,
                AuthState::Unknown,
                HealthState::Unavailable,
            ),
            DiscoveryEvidence::CatalogUnavailable,
        ),
    }
}

/// The models and the revision that an observation tells.
pub open spec fn told(record: LocalView, allow_active_verification: bool, outcome: KunOutcome) -> (
    Seq<Seq<char>>,
    Option<Seq<char>>,
) {
    match outcome {
        Ok(answer) => if is_asked(record, allow_active_verification) {
            (text::texts(answer.0@), safe_member(text::opt_text(answer.1)))
        } else {
            (seq![], None)
        },
        Err(_) => (seq![], None),
    }
}

/// What is observed of a runtime whose record was found.
pub open spec fn kun_observed(
    record: LocalView,
    allow_active_verification: bool,
    outcome: KunOutcome,
) -> observation::ObservationView {
    let (assessment, evidence) = assessed(record, allow_active_verification, outcome);
    let (models, catalog_revision) = told(record, allow_active_verification, outcome);
    observation::ObservationView {
        locator: observation::LocatorView::RuntimeRecord(record.runtime_json),
        fingerprint: fingerprint_of(record),
        association_fingerprints: seq![],
        package_ids: seq![],
        runner_installation: None,
        assessment,
        connector_id: LOCAL_DISCOVERY_KUN_CONNECTOR_ID@,
        runtime_type: "kun"@,
        display_name: "Kun Shared Runtime"@,
        models,
        catalog_revision,
        evidence_summary: record_evidence().push(evidence),
        diagnostics: record.diagnostics,
    }
}

/// What is observed of a runtime whose record was found. `outcome` is what the
/// runtime answered; where it was not to be asked, it is not looked at.
pub fn kun_observation(
    record: LocalKunRecord,
    allow_active_verification: bool,
    outcome: KunOutcome,
) -> (r: Observation)
    ensures
        r@ == kun_observed(record@, allow_active_verification, outcome),
{
    let (assessment, evidence) = assess(&record, allow_active_verification, &outcome);
    let asked = wants_verification(&record, allow_active_verification);
    let ghost given = outcome;
    let mut models: Vec<String> = Vec::new();
    let mut catalog_revision: Option<String> = None;
    assert(text::texts(models@) =~= seq![]);
    match outcome {
        Ok(answer) => {
            if asked {
                models = answer.0;
                catalog_revision = match answer.1 {
                    Some(s) => safe_model_identifier(s.as_str()),
                    None => None,
                };
            }
        },
        Err(_) => {},
    }
    let mut evidence_summary = kun_evidence_summary(&record);
    evidence_summary.push(evidence);
    let fingerprint = kun_fingerprint(&record);
    let o = Observation {
        locator: ObservationLocator::RuntimeRecord(record.runtime_json),
        fingerprint,
        association_fingerprints: Vec::new(),
        package_ids: Vec::new(),
        runner_installation: None,
        assessment,
        connector_id: LOCAL_DISCOVERY_KUN_CONNECTOR_ID.to_owned(),
        runtime_type: "kun".to_owned(),
        display_name: "Kun Shared Runtime".to_owned(),
        models,
        catalog_revision,
        evidence_summary,
        diagnostics: record.diagnostics,
    };
    proof {
        let want = kun_observed(record@, allow_active_verification, given);
        assert(o@.association_fingerprints =~= want.association_fingerprints);
        assert(o@.package_ids =~= want.package_ids);
        assert(o@.evidence_summary =~= want.evidence_summary);
        assert(o@.models =~= want.models);
        assert(o@ =~= want);
    }
    o
}

/// How the runtime of a record is asked: it has to have the version that the record
/// tells, and to answer within the time that is given to a connection.
pub fn kun_verification_config(
    record: &LocalKunRecord,
    install_dir: &Option<String>,
    expected_service_version: &str,
    request_timeout_ns: u128,
) -> (r: KunSharedRuntimeConfig)
    ensures
        text::opt_text(r.data_dir) == record@.directory,
        text::opt_text(r.install_dir) == text::opt_text(*install_dir),
        r.default_model is None,
        r.expected_service_version@ == match record@.service_version {
            Some(v) => v,
            None => expected_service_version@,
        },
        r.expected_build_id is None,
        r.request_timeout_ns == if request_timeout_ns <= MAX_TRANSPORT_SETUP_TIMEOUT_MS * 1_000_000 {
            request_timeout_ns as int
        } else {
            MAX_TRANSPORT_SETUP_TIMEOUT_MS * 1_000_000
        },
{
    let most: u128 = MAX_TRANSPORT_SETUP_TIMEOUT_MS as u128 * 1_000_000;
    KunSharedRuntimeConfig {
        data_dir: copy_text(&record.directory),
        install_dir: copy_text(install_dir),
        default_model: None,
        expected_service_version: match &record.service_version {
            Some(v) => v.clone(),
            None => expected_service_version.to_owned(),
        },
        expected_build_id: None,
        request_timeout_ns: if request_timeout_ns <= most {
            request_timeout_ns
        } else {
            most
        },
    }
}

/// The observations of the records that were found, no more than there is room for.
pub struct KunScan {
    observations: Vec<Observation>,
    max_results: usize,
}

impl KunScan {
    pub closed spec fn view(&self) -> Seq<observation::ObservationView> {
        Seq::new(self.observations@.len(), |i: int| self.observations@[i]@)
    }

    pub closed spec fn limit(&self) -> nat {
        self.max_results as nat
    }

    pub fn new(max_results: usize) -> (r: Self)
        ensures
            r@ == Seq::<observation::ObservationView>::empty(),
            r.limit() == max_results,
    {
        let r = KunScan { observations: Vec::new(), max_results };
        assert(r@ =~= Seq::<observation::ObservationView>::empty());
        r
    }

    /// Whether one more directory may be looked at.
    pub fn wants_more(&self) -> (r: bool)
        ensures
            r == (self@.len() < self.limit()),
    {
        self.observations.len() < self.max_results
    }

    pub fn take(&mut self, o: Observation)
        requires
            old(self)@.len() < old(self).limit(),
        ensures
            final(self)@ == old(self)@.push(o@),
            final(self).limit() == old(self).limit(),
    {
        self.observations.push(o);
        assert(self@ =~= old(self)@.push(o@));
    }

    pub fn finish(self) -> (r: Vec<Observation>)
        ensures
            Seq::new(r@.len(), |i: int| r@[i]@) == self@,
    {
        self.observations
    }
}

// ---------------------------------------------------------------------------
// Laws.

/// A runtime keeps its fingerprint while its instance, its version and its build
/// stay, wherever its record lies and whatever port it listens on.
pub proof fn law_fingerprint_is_stable(a: LocalView, b: LocalView)
    requires
        a.instance_id is Some,
        a.instance_id == b.instance_id,
        a.service_version == b.service_version,
        a.build_id == b.build_id,
    ensures
        fingerprint_of(a) == fingerprint_of(b),
{
}

/// Two instances have two fingerprints, though they have one version.
pub proof fn law_fingerprint_tells_instances_apart(a: LocalView, b: LocalView)
    requires
        a.instance_id is Some,
        b.instance_id is Some,
        a.instance_id != b.instance_id,
    ensures
        fingerprint_of(a) != fingerprint_of(b),
{
    assert(fingerprint_of(a)[1] == a.instance_id->0);
    assert(fingerprint_of(b)[1] == b.instance_id->0);
}

/// A runtime that was not asked is never told to be usable: it has no models, has
/// to be configured, and what it might have answered changes nothing.
pub proof fn law_passive_discovery_claims_nothing(
    record: LocalView,
    allow_active_verification: bool,
    outcome: KunOutcome,
    other: KunOutcome,
)
    requires
        !is_asked(record, allow_active_verification),
    ensures
        kun_observed(record, allow_active_verification, outcome) == kun_observed(
            record,
            allow_active_verification,
            other,
        ),
        kun_observed(record, allow_active_verification, outcome).models.len() == 0,
        kun_observed(record, allow_active_verification, outcome).assessment.requires_configuration,
        !(kun_observed(
            record,
            allow_active_verification,
            outcome,
        ).assessment.availability is Available),
{
}

/// A runtime is told to be usable only where it was asked and has listed its models.
pub proof fn law_only_an_answer_makes_available(
    record: LocalView,
    allow_active_verification: bool,
    outcome: KunOutcome,
)
    ensures
        kun_observed(
            record,
            allow_active_verification,
            outcome,
        ).assessment.availability is Available <==> is_asked(record, allow_active_verification)
            && outcome is Ok,
{
}

} // verus!
