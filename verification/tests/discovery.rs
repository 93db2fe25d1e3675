use runtime_host::digest::{
    normalized_path_key, sha256_hex, FileHash, FileIdentity, FileSnapshot,
};
use runtime_host::discovery::{
    install_local_discovery_fixture_worker_for_tests, legacy_local_connector_candidate,
    local_discovery_worker_file_name, milliseconds, push_unique_local_path, show_candidates,
    validate_production_worker_candidate, worker_directory, worker_exit_code, CandidateProjection,
    DiscoveryEnvironment, FileProbe, LocalConnectorDiscoveryConfig, WindowsPassiveDiscoveryConfig,
    WindowsPassiveWorkerConfig, WorkerDiscoveryConfig,
};
use runtime_host::endpoint::normalize_explicit_loopback_endpoint;
use runtime_host::http::MAX_TRANSPORT_BODY_BYTES;
use runtime_host::kun_discovery::{
    kun_evidence_summary, kun_fingerprint, kun_observation, local_kun_record, passive_member,
    passive_record_result, wants_verification, BoundedRead, KunRecordFile, LocalKunRecord,
    PassiveKunRuntimeRecord, PassiveMember,
};
use runtime_host::manifest::{parse_appx_manifest_executables, MAX_PACKAGE_MANIFEST_BYTES};
use runtime_host::observation::{
    codex_observation, AuthState, CandidateAvailability, CompatibilityState, DiscoveryDiagnostic,
    DiscoveryDiagnosticCode, DiscoveryEvidence, ExecutableProbe, Observation,
    ObservationSourceKind,
};
use runtime_host::package_tree::{EntryKind, EntryPlace, PackageTree, TreeDigest, TreeEntry};
use runtime_host::passive::{
    is_windows_executable_file, push_loopback_verification_result, DirectoryProbe, EntryProbe,
    ExplicitDiscoverySource, PathScan, RecordScan, WindowsAppPathRecord,
    WindowsLoopbackListenerRecord, WindowsProviderCollection, WindowsRegistryHive,
    WindowsRegistryView,
};
use runtime_host::paths::{
    have_same_components, normalized_relative_identity, package_executable_path,
    package_stable_identity, path_is_under, PackageProbe, PathPart,
};
use runtime_host::runner::{
    bounded_output, canonical_runner_package_id, npm_global_records, parse_runner_install_root,
    parse_uv_tool_list, runner_package_steps, runner_step, uvx_tool_records, NpmDependency,
    NpmList, RunnerStep, RunnerWait,
};
use runtime_host::tables::{
    default_string, io_diagnostic_code, listener_is_owned, package_version, port_of_field,
    process_identity_for_pid, table_step, utf16_z_to_string, verify_loopback_listener_row,
    AccessStatus, ProcessProbe, RegistryEntry, RegistryScan, RegistryValue, TableStatus, TableStep,
};
use runtime_host::address::LoopbackAddress;

#[test]
fn npm_global_json_projects_version_integrity_and_root() {
    let list = NpmList {
        path: Some("C:\\npm".into()),
        dependencies: vec![
            NpmDependency {
                name: "@scope/agent".into(),
                version: Some("1.2.3".into()),
                integrity: Some("sha512-abc".into()),
            },
            NpmDependency {
                name: "bad".into(),
                version: Some("not a version".into()),
                integrity: None,
            },
        ],
    };
    let records = npm_global_records(&list, true).expect("npm list parses");
    assert_eq!(records.len(), 1);
    assert_eq!(records[0].package_name, "@scope/agent");
    assert_eq!(records[0].resolved_version, "1.2.3");
    assert_eq!(records[0].package_integrity.as_deref(), Some("sha512-abc"));
}

#[test]
fn uv_tool_list_projects_only_safe_name_version_pairs() {
    let records =
        parse_uv_tool_list(&b"agent 1.2.3\ninvalid/name 1.0.0\nother v2.0.0\n".to_vec());
    assert_eq!(
        records,
        vec![
            ("agent".into(), "1.2.3".into()),
            ("other".into(), "2.0.0".into())
        ]
    );
}

#[test]
fn package_id_is_match_key_and_not_identity_authority() {
    assert_eq!(
        canonical_runner_package_id("npx", "@scope/agent", "1.2.3").as_deref(),
        Some("@scope/agent@1.2.3")
    );
    assert_eq!(
        canonical_runner_package_id("uvx", "agent", "1.2.3").as_deref(),
        Some("agent@1.2.3")
    );
}

#[test]
fn runner_output_is_bounded_and_its_records_have_a_root() {
    assert_eq!(bounded_output(vec![1, 2], 2).unwrap(), vec![1, 2]);
    assert_eq!(
        bounded_output(vec![1, 2, 3], 2),
        Err(DiscoveryDiagnosticCode::OversizedInput)
    );
    assert_eq!(
        parse_runner_install_root(&b"  C:\\tools \n".to_vec()).as_deref(),
        Some("C:\\tools")
    );
    assert_eq!(parse_runner_install_root(&vec![0xff]), None);
    let records = uvx_tool_records(&vec![("agent".into(), "1.0".into())], "C:\\tools");
    assert_eq!(records[0].install_root, "C:\\tools");
    assert_eq!(
        runner_package_steps("npx", "@scope/agent"),
        Some(vec!["node_modules".into(), "@scope".into(), "agent".into()])
    );
    assert_eq!(runner_step(false, RunnerWait::Running), RunnerStep::Wait);
    assert_eq!(
        runner_step(true, RunnerWait::Running),
        RunnerStep::End(DiscoveryDiagnosticCode::ProviderTimeout)
    );
    assert_eq!(runner_step(false, RunnerWait::Exited(true)), RunnerStep::Take);
}

#[test]
fn windows_worker_config_round_trips_explicit_sources() {
    let mut config = WindowsPassiveDiscoveryConfig::for_path(Some("C:\\fixture".into()), true);
    config.explicit_sources = vec![ExplicitDiscoverySource::Executable(
        "\\\\?\\C:\\fixture\\fixture-agent.exe".into(),
    )];
    let worker = WindowsPassiveWorkerConfig::of(&config);
    assert_eq!(worker.path_env.as_deref(), Some("C:\\fixture"));
    assert_eq!(worker.explicit_sources.len(), 1);
    assert!(matches!(
        &worker.explicit_sources[0],
        ExplicitDiscoverySource::Executable(path) if path == "\\\\?\\C:\\fixture\\fixture-agent.exe"
    ));
}

#[test]
fn worker_config_reads_back() {
    let config = LocalConnectorDiscoveryConfig {
        codex_binary_paths: vec!["c".into()],
        kun_data_dirs: vec!["d".into()],
        kun_install_dirs: Vec::new(),
        kun_expected_service_version: "0.2.34".into(),
        request_timeout_ns: 2_500_000,
    };
    let worker = WorkerDiscoveryConfig::of(&config);
    assert_eq!(worker.request_timeout_ms, 2);
    let back = worker.into_config();
    assert_eq!(back.request_timeout_ns, 2_000_000);
    assert_eq!(back.kun_data_dirs, vec!["d"]);
    assert_eq!(milliseconds(u128::MAX), u64::MAX);
    let from = LocalConnectorDiscoveryConfig::from_environment(
        DiscoveryEnvironment {
            explicit_codex: Some("C:\\Codex.exe".into()),
            codex_on_path: Some("c:\\codex.EXE".into()),
            codex_desktop: None,
            kun_data_dir: None,
            home_data_dir: Some("h".into()),
            local_data_dir: "l".into(),
            kun_install_dir: None,
        },
        true,
    );
    assert_eq!(from.codex_binary_paths, vec!["C:\\Codex.exe"]);
    assert_eq!(from.kun_data_dirs, vec!["h"]);
}

fn kun_record(path: &str, port: u16, instance: &str) -> LocalKunRecord {
    LocalKunRecord {
        runtime_json: path.into(),
        directory: None,
        port: Some(port),
        instance_id: Some(instance.into()),
        service_version: Some("0.2.37".into()),
        build_id: Some("fixture-build".into()),
        parsed: true,
        diagnostics: Vec::new(),
    }
}

#[test]
fn kun_fingerprint_stays_stable_for_same_instance_across_pid_and_port_changes() {
    let record_a = kun_record(r"C:\fixture\a\runtime.json", 1111, "stable-instance");
    let record_b = kun_record(r"C:\fixture\b\runtime.json", 2222, "stable-instance");
    assert_eq!(
        kun_fingerprint(&record_a).parts,
        kun_fingerprint(&record_b).parts
    );
}

#[test]
fn kun_fingerprint_distinguishes_same_version_different_instances() {
    let record_a = kun_record(r"C:\fixture\a\runtime.json", 1111, "instance-a");
    let record_b = kun_record(r"C:\fixture\b\runtime.json", 2222, "instance-b");
    assert_ne!(
        kun_fingerprint(&record_a).parts,
        kun_fingerprint(&record_b).parts
    );
}

/// What passive discovery makes of the members of a record.
fn passive_record(members: &[(&str, Option<u64>, Option<&str>)]) -> LocalKunRecord {
    let mut record = PassiveKunRuntimeRecord::new();
    for (key, number, text) in members {
        match passive_member(key) {
            PassiveMember::Port => record.on_port(*number),
            PassiveMember::Ignored => {}
            member => record.on_text(member, text.map(str::to_owned)),
        }
    }
    local_kun_record(
        "C:\\data\\runtime.json",
        &Some("C:\\data".into()),
        KunRecordFile::Read(Ok(record)),
    )
    .expect("a record")
}

#[test]
fn kun_missing_instance_id_is_stable_across_pid_port_token_and_fails_closed() {
    let members = |port: u64, token: &'static str| {
        passive_record(&[
            ("port", Some(port), None),
            ("runtimeToken", None, Some(token)),
            ("serviceVersion", None, Some("0.2.34")),
            ("buildId", None, Some("fixture-build")),
        ])
    };
    let first = members(1111, "token-a");
    let first_fingerprint = kun_fingerprint(&first);
    let observation = kun_observation(first, false, Err(None));
    let second = members(2222, "token-b");
    assert_eq!(first_fingerprint.parts, kun_fingerprint(&second).parts);
    assert_eq!(
        observation.assessment.availability,
        CandidateAvailability::Unavailable
    );
    assert_eq!(
        observation.assessment.compatibility_state,
        CompatibilityState::Incompatible
    );
    assert!(observation
        .diagnostics
        .iter()
        .any(|diagnostic| diagnostic.code == DiscoveryDiagnosticCode::InvalidIdentity));
}

#[test]
fn kun_passive_projection_is_identical_for_absent_empty_and_rotated_tokens() {
    let observe = |token: Option<&'static str>| {
        let record = passive_record(&[
            ("port", Some(41111), None),
            ("instanceId", None, Some("token-invariant-instance")),
            ("serviceVersion", None, Some("0.2.34")),
            ("buildId", None, Some("fixture-build")),
            ("apiKey", None, Some("fixture-api-key-must-be-ignored")),
            ("Cookie", None, Some("fixture-cookie-must-be-ignored")),
            ("runtimeToken", None, token),
        ]);
        kun_observation(record, false, Err(None))
    };
    let absent = observe(None);
    for token in ["", "rotated-token-a", "rotated-token-b"] {
        let other = observe(Some(token));
        assert_eq!(absent.assessment, other.assessment);
        assert_eq!(absent.fingerprint.parts, other.fingerprint.parts);
    }
    assert_eq!(absent.assessment.auth_state, AuthState::Unknown);
    assert_eq!(
        absent.assessment.availability,
        CandidateAvailability::Unconfigured
    );
    assert!(absent.assessment.requires_configuration);
    let shown = format!("{:?}", observe(Some("rotated-token-a")));
    for forbidden in ["rotated-token", "fixture-api-key", "fixture-cookie"] {
        assert!(!shown.contains(forbidden));
    }
}

#[test]
fn passive_runtime_record_does_not_emit_unproven_version_build_or_install_evidence() {
    let record = passive_record(&[
        ("port", Some(41111), None),
        ("instanceId", None, Some("evidence-instance")),
    ]);
    assert!(!wants_verification(&record, false));
    let evidence = kun_evidence_summary(&record);
    assert_eq!(evidence, vec![DiscoveryEvidence::RuntimeRecord]);
    let observation = kun_observation(record, false, Err(None));
    assert_eq!(
        observation.evidence_summary,
        vec![
            DiscoveryEvidence::RuntimeRecord,
            DiscoveryEvidence::Unconfigured
        ]
    );
}

#[test]
fn oversized_kun_runtime_json_is_bounded_and_fail_closed() {
    let record = local_kun_record(
        "C:\\data\\runtime.json",
        &Some("C:\\data".into()),
        KunRecordFile::Oversized,
    )
    .expect("oversized record");
    let observation = kun_observation(record, false, Err(None));
    assert_eq!(
        observation.assessment.availability,
        CandidateAvailability::Unavailable
    );
    assert!(observation
        .diagnostics
        .iter()
        .any(|diagnostic| diagnostic.code == DiscoveryDiagnosticCode::OversizedInput));
}

#[test]
fn passive_kun_runtime_record_streaming_parser_rejects_oversized_unknown_secret_field() {
    let oversized = format!(
        "{{\"instanceId\":\"streaming-instance\",\"runtimeToken\":\"{}\"}}",
        "x".repeat(MAX_TRANSPORT_BODY_BYTES + 32)
    );
    let mut bounded = BoundedRead::new(MAX_TRANSPORT_BODY_BYTES);
    let mut left = oversized.len();
    let mut parsed = Some(PassiveKunRuntimeRecord::new());
    while left > 0 {
        match bounded.allowance(4096) {
            Some(allowed) => {
                let count = allowed.min(left);
                left -= count;
                if !bounded.took(count) {
                    parsed = None;
                    break;
                }
            }
            None => {
                parsed = None;
                break;
            }
        }
    }
    assert!(bounded.oversized());
    assert!(matches!(
        passive_record_result(bounded.oversized(), parsed),
        Err(DiscoveryDiagnosticCode::OversizedInput)
    ));
}

#[test]
fn verified_kun_is_available_with_its_models() {
    let record = kun_record("C:\\data\\runtime.json", 41000, "instance");
    assert!(wants_verification(&record, true));
    let observation = kun_observation(
        record,
        true,
        Ok((vec!["kun-model-a".into()], Some("9".into()))),
    );
    assert_eq!(
        observation.assessment.availability,
        CandidateAvailability::Available
    );
    assert_eq!(observation.models, vec!["kun-model-a"]);
    assert_eq!(observation.catalog_revision.as_deref(), Some("9"));
}

fn contains(
    collection: &WindowsProviderCollection,
    source_kind: ObservationSourceKind,
    code: DiscoveryDiagnosticCode,
) -> bool {
    collection
        .diagnostics
        .contains(&DiscoveryDiagnostic { source_kind, code })
}

#[test]
fn real_loopback_verification_none_emits_source_local_diagnostic_v4() {
    let mut collection = WindowsProviderCollection::new();
    let mut records = Vec::new();
    push_loopback_verification_result(&mut collection, &mut records, Ok(None));
    assert!(records.is_empty());
    assert_eq!(
        collection.diagnostics,
        vec![DiscoveryDiagnostic {
            source_kind: ObservationSourceKind::LoopbackListener,
            code: DiscoveryDiagnosticCode::SourceDisappeared,
        }]
    );
}

#[test]
fn real_loopback_verification_none_emits_source_local_diagnostic_v6() {
    let mut collection = WindowsProviderCollection::new();
    let mut records = Vec::new();
    push_loopback_verification_result(&mut collection, &mut records, Ok(None));
    assert!(records.is_empty());
    assert_eq!(
        collection.diagnostics,
        vec![DiscoveryDiagnostic {
            source_kind: ObservationSourceKind::LoopbackListener,
            code: DiscoveryDiagnosticCode::SourceDisappeared,
        }]
    );
}

fn listener(
    address: &str,
    port: u16,
    owner_pid: u32,
    executable: &str,
    identity: &str,
) -> WindowsLoopbackListenerRecord {
    WindowsLoopbackListenerRecord {
        address: address.into(),
        port,
        owner_pid,
        owner_executable: Some(executable.into()),
        owner_identity: Some(identity.into()),
    }
}

fn file(path: &str) -> ExecutableProbe {
    ExecutableProbe::File {
        path: path.into(),
        file_name: path.rsplit('\\').next().map(str::to_owned),
        identity: sha256_hex(path.as_bytes()),
    }
}

/// What listeners come to when every executable is there.
fn listeners(
    records: &[WindowsLoopbackListenerRecord],
    recheck: Option<Vec<WindowsLoopbackListenerRecord>>,
) -> WindowsProviderCollection {
    let mut scan = RecordScan::new(WindowsProviderCollection::new(), 8, true);
    for record in records {
        if let Some(path) = scan.on_listener(record, recheck.as_ref()) {
            scan.on_listener_probe(file(&path));
        }
    }
    scan.finish()
}

#[test]
fn windows_passive_loopback_accepts_loopback_only_and_dedupes_ports() {
    let executable = "C:\\root\\listener-agent.exe";
    let collection = listeners(
        &[
            listener("127.0.0.1", 41001, 1111, executable, "first"),
            listener("127.12.34.56", 41002, 2222, executable, "second"),
            listener("::1", 41003, 3333, executable, "third"),
        ],
        None,
    );
    assert_eq!(collection.observations.len(), 1);
    assert_eq!(collection.observations[0].display_name, "Loopback listener");
    assert_eq!(
        collection.observations[0].assessment.source_kind,
        ObservationSourceKind::LoopbackListener
    );
}

#[test]
fn listener_disappears_before_owner_recheck_fails_closed() {
    let collection = listeners(
        &[listener("127.0.0.1", 42001, 9001, "C:\\listener.exe", "creation-a")],
        Some(Vec::new()),
    );
    assert!(collection.observations.is_empty());
    assert!(contains(
        &collection,
        ObservationSourceKind::LoopbackListener,
        DiscoveryDiagnosticCode::SourceDisappeared
    ));
}

#[test]
fn reused_pid_with_different_creation_identity_fails_closed() {
    let collection = listeners(
        &[listener("127.0.0.1", 42002, 9002, "C:\\listener.exe", "creation-a")],
        Some(vec![listener(
            "127.0.0.1",
            42002,
            9002,
            "C:\\listener.exe",
            "creation-b",
        )]),
    );
    assert!(collection.observations.is_empty());
    assert!(contains(
        &collection,
        ObservationSourceKind::LoopbackListener,
        DiscoveryDiagnosticCode::SourceDisappeared
    ));
}

#[test]
fn listener_owner_changes_between_snapshots_fails_closed() {
    let collection = listeners(
        &[listener("::1", 42003, 9003, "C:\\first.exe", "creation-a")],
        Some(vec![listener("::1", 42003, 9004, "C:\\second.exe", "creation-b")]),
    );
    assert!(collection.observations.is_empty());
    assert!(contains(
        &collection,
        ObservationSourceKind::LoopbackListener,
        DiscoveryDiagnosticCode::SourceDisappeared
    ));
}

#[test]
fn one_disappearing_listener_does_not_drop_other_valid_listener() {
    let collection = listeners(
        &[
            listener("127.0.0.1", 49222, 9222, "C:\\first.exe", "gone-owner"),
            listener("::1", 49223, 9223, "C:\\second.exe", "stable-owner"),
        ],
        Some(vec![listener("::1", 49223, 9223, "C:\\second.exe", "stable-owner")]),
    );
    assert_eq!(collection.observations.len(), 1);
    assert_eq!(
        collection.observations[0].assessment.source_kind,
        ObservationSourceKind::LoopbackListener
    );
    assert!(contains(
        &collection,
        ObservationSourceKind::LoopbackListener,
        DiscoveryDiagnosticCode::SourceDisappeared
    ));
}

#[test]
fn windows_passive_rejects_invalid_sources_with_typed_diagnostics() {
    let mut scan = RecordScan::new(WindowsProviderCollection::new(), 8, true);
    assert!(scan.on_app_path(&WindowsAppPathRecord {
        key_name: "relative.exe".into(),
        executable_path: "relative.exe".into(),
        hive: WindowsRegistryHive::LocalMachine,
        view: WindowsRegistryView::Wow6432,
    }));
    scan.on_app_path_probe(ExecutableProbe::Relative);
    let parts = vec![PathPart::ParentDir, PathPart::Normal(Some("outside.exe".into()))];
    let executable = package_executable_path(true, false, &parts, PackageProbe::Reparse);
    assert!(!scan.on_package(&executable));
    assert!(scan
        .on_listener(
            &listener("192.168.1.20", 49153, 5252, "C:\\outside.exe", "fixture"),
            None
        )
        .is_none());
    assert!(scan.has_room());
    scan.on_endpoint("http://192.168.1.20:49153");
    let collection = scan.finish();
    assert!(collection.observations.is_empty());
    for (source_kind, code) in [
        (
            ObservationSourceKind::WindowsAppPath,
            DiscoveryDiagnosticCode::InvalidSourceRecord,
        ),
        (
            ObservationSourceKind::WindowsPackage,
            DiscoveryDiagnosticCode::InvalidSourceRecord,
        ),
        (
            ObservationSourceKind::LoopbackListener,
            DiscoveryDiagnosticCode::NonLoopbackRejected,
        ),
        (
            ObservationSourceKind::UserSelected,
            DiscoveryDiagnosticCode::NonLoopbackRejected,
        ),
    ] {
        assert!(contains(&collection, source_kind, code));
    }
}

#[test]
fn windows_passive_explicit_endpoint_is_loopback_only_and_not_verified() {
    let mut scan = RecordScan::new(WindowsProviderCollection::new(), 8, true);
    scan.on_endpoint("http://127.0.0.1:47777");
    let loopback = scan.finish();
    assert_eq!(loopback.observations.len(), 1);
    let observation: &Observation = &loopback.observations[0];
    assert_eq!(observation.display_name, "Loopback endpoint");
    assert_eq!(
        observation.assessment.compatibility_state,
        CompatibilityState::NotVerified
    );
    assert!(observation.assessment.requires_configuration);

    let mut scan = RecordScan::new(WindowsProviderCollection::new(), 8, true);
    scan.on_endpoint("http://192.168.1.25:47777");
    let refused = scan.finish();
    assert!(refused.observations.is_empty());
    assert!(contains(
        &refused,
        ObservationSourceKind::UserSelected,
        DiscoveryDiagnosticCode::NonLoopbackRejected
    ));
}

#[test]
fn app_paths_are_looked_at_once_for_each_place_in_the_registry() {
    let mut scan = RecordScan::new(WindowsProviderCollection::new(), 8, true);
    let mut looked = 0;
    for (hive, view) in [
        (WindowsRegistryHive::CurrentUser, WindowsRegistryView::Native),
        (WindowsRegistryHive::LocalMachine, WindowsRegistryView::Wow6432),
        (WindowsRegistryHive::CurrentUser, WindowsRegistryView::Native),
    ] {
        if scan.on_app_path(&WindowsAppPathRecord {
            key_name: "agent.exe".into(),
            executable_path: "C:\\bin\\agent.exe".into(),
            hive,
            view,
        }) {
            looked += 1;
            scan.on_app_path_probe(file("C:\\bin\\agent.exe"));
        }
    }
    assert_eq!(looked, 2);
    assert_eq!(scan.finish().observations.len(), 2);
}

#[test]
fn windows_passive_path_discovers_direct_children_only_and_keeps_unknown_unverified() {
    let mut scan = PathScan::new(16, 16, 8, true);
    assert!(scan.wants_directory());
    assert!(scan.on_directory(DirectoryProbe::Canonical("C:\\bin".into())));
    assert!(scan.wants_entry());
    scan.on_entry(EntryProbe::NotExecutable);
    scan.on_entry(EntryProbe::Executable(file("C:\\bin\\agent.exe")));
    assert!(!scan.on_directory(DirectoryProbe::Canonical("c:/BIN".into())));
    assert!(!scan.on_directory(DirectoryProbe::Relative));
    let collection = scan.finish();
    assert_eq!(collection.observations.len(), 1);
    assert_eq!(
        collection.observations[0].assessment.compatibility_state,
        CompatibilityState::NotVerified
    );
    assert!(is_windows_executable_file(Some("ExE"), true));
    assert!(!is_windows_executable_file(Some("txt"), true));
}

#[test]
fn windows_passive_sensitive_file_name_fails_closed_without_leaking() {
    let mut scan = PathScan::new(16, 16, 8, true);
    assert!(scan.on_directory(DirectoryProbe::Canonical("C:\\bin".into())));
    scan.on_entry(EntryProbe::Executable(ExecutableProbe::File {
        path: "C:\\bin\\authorization-cookie-runtime_token.exe".into(),
        file_name: Some("authorization-cookie-runtime_token.exe".into()),
        identity: "identity".into(),
    }));
    let collection = scan.finish();
    assert!(collection.diagnostics.is_empty());
    assert_eq!(collection.observations.len(), 1);
    let observation = &collection.observations[0];
    assert!(observation.assessment.requires_configuration);
    assert_ne!(
        observation.assessment.availability,
        CandidateAvailability::Available
    );
    assert_eq!(
        observation.display_name,
        "authorization-cookie-runtime_token.exe"
    );
    assert!(observation.diagnostics.is_empty());
    let mut told = projection("Local Agent", &observation.connector_id);
    told.runtime_type = observation.runtime_type.clone();
    told.models = observation.models.clone();
    told.catalog_revision = observation.catalog_revision.clone();
    told.source_kind = observation.assessment.source_kind;
    told.requires_configuration = observation.assessment.requires_configuration;
    let shown = legacy_local_connector_candidate(&told);
    assert_eq!(shown.display_name, "Local Agent");
    assert!(shown.requires_configuration);
    let kept = format!(
        "{:?}{:?}{:?}{:?}",
        observation.fingerprint,
        observation.association_fingerprints,
        observation.evidence_summary,
        shown
    );
    for leaked in ["authorization", "cookie", "runtime_token", "C:\\bin"] {
        assert!(!kept.contains(leaked));
    }
}

#[test]
fn executable_of_a_listener_is_compared_by_its_components() {
    let record = |executable: &str| WindowsLoopbackListenerRecord {
        address: "127.0.0.1".into(),
        port: 8080,
        owner_pid: 7,
        owner_executable: Some(executable.into()),
        owner_identity: Some("7:1".into()),
    };
    for (before, now, windows, same) in [
        ("/opt/agent", "/opt//./agent/", false, true),
        ("/opt/agent", "/opt/Agent", false, false),
        ("/opt/agent", "opt/agent", false, false),
        ("./agent", "agent", false, false),
        ("C:\\bin\\agent.exe", "c:/bin/./agent.exe", true, true),
        ("C:\\bin\\agent.exe", "D:\\bin\\agent.exe", true, false),
        ("C:\\bin\\agent.exe", "C:\\Bin\\agent.exe", true, false),
        ("\\\\host\\share\\agent", "//host/share//./agent/", true, true),
        ("\\\\host\\share", "\\\\host\\share\\", true, true),
        ("\\\\host\\share\\agent", "\\\\host\\other\\agent", true, false),
        ("\\\\host\\share\\agent", "\\\\Host\\share\\agent", true, false),
        ("\\\\host", "\\host", true, true),
        ("\\\\.\\COM1", "//./COM1", true, true),
        ("C:.\\agent", "c:agent", true, true),
        ("C:agent", "C:\\agent", true, false),
        ("\\\\?\\C:\\agent", "\\\\?\\c:\\\\agent", true, true),
        ("\\\\?\\C:\\agent", "\\\\?\\C:\\.\\agent", true, false),
        ("\\\\?\\C:\\agent", "C:\\agent", true, false),
        ("\\\\?\\UNC\\host\\share\\agent", "\\\\?\\UNC\\host\\share\\agent\\", true, true),
        ("\\\\?\\UNC\\host\\share\\agent", "\\\\host\\share\\agent", true, false),
    ] {
        assert_eq!(have_same_components(before, now, windows), same);
        let mut scan = RecordScan::new(WindowsProviderCollection::new(), 8, windows);
        let again = vec![record(now)];
        assert_eq!(
            scan.on_listener(&record(before), Some(&again)),
            same.then_some(before.to_owned())
        );
    }
}

#[test]
fn kept_endpoint_is_kept_as_it_is() {
    for endpoint in [
        "HTTP://LOCALHOST:048000/path?q=1#frag",
        "https://127.12.0.1:443/card",
        "http://[0:0:0:0:0:0:0:1]:48001/agent",
    ] {
        let kept = normalize_explicit_loopback_endpoint(endpoint).unwrap();
        assert_eq!(
            normalize_explicit_loopback_endpoint(&kept).as_deref(),
            Ok(kept.as_str())
        );
    }
    assert_eq!(
        normalize_explicit_loopback_endpoint("HTTP://LOCALHOST:048000/path").as_deref(),
        Ok("http://localhost:48000")
    );
}

#[test]
fn explicit_loopback_endpoint_strictly_validates_authority_and_origin() {
    for accepted in [
        (
            "HTTP://LOCALHOST:48000/path?q=1#frag",
            "http://localhost:48000",
        ),
        ("https://127.12.0.1:443/card", "https://127.12.0.1:443"),
        ("http://[::1]:48001/agent", "http://[::1]:48001"),
    ] {
        assert_eq!(
            normalize_explicit_loopback_endpoint(accepted.0).unwrap(),
            accepted.1
        );
    }

    for rejected in [
        "http://localhost",
        "http://localhost:",
        "http://localhost:0",
        "http://localhost:65536",
        "http://localhost:not-a-port",
        "http://localhost:48000:extra",
        "http://user@localhost:48000",
        "ftp://localhost:48000",
        "http://example.local:48000",
        "http://192.168.1.10:48000",
        "http://localhost:48000/\u{202e}",
        "http://localhost:48000/\n",
    ] {
        assert!(
            normalize_explicit_loopback_endpoint(rejected).is_err(),
            "endpoint should be rejected: {rejected:?}"
        );
    }
}

#[test]
fn valid_namespaced_application_executable_is_accepted() {
    let executables = parse_appx_manifest_executables(
        br#"
            <pkg:Package xmlns:pkg="urn:fixture">
              <pkg:Applications>
                <pkg:Application pkg:Id="App" pkg:Executable="bin\namespaced.exe" />
              </pkg:Applications>
            </pkg:Package>
            "#,
    )
    .unwrap();
    assert_eq!(executables, vec!["bin\\namespaced.exe"]);
}

#[test]
fn suffix_spoofed_application_and_executable_are_ignored() {
    let executables = parse_appx_manifest_executables(
        br#"
            <Package>
              <Applications>
                <NotApplication Executable="bin\wrong-element.exe" />
                <FakeApplication Executable="bin\wrong-fake-element.exe" />
                <Application FakeExecutable="bin\wrong-attr.exe" ExecutableSuffix="bin\wrong-suffix.exe" />
              </Applications>
            </Package>
            "#,
    )
    .unwrap();
    assert!(
        executables.is_empty(),
        "suffix-spoofed Application/Executable names must not be accepted"
    );
}

#[test]
fn malformed_or_oversized_manifest_fails_closed() {
    assert!(matches!(
        parse_appx_manifest_executables(b"<Package><Applications><Application"),
        Err(DiscoveryDiagnosticCode::InvalidSourceRecord)
    ));
    assert!(matches!(
        parse_appx_manifest_executables(&vec![b'a'; MAX_PACKAGE_MANIFEST_BYTES + 1]),
        Err(DiscoveryDiagnosticCode::OversizedInput)
    ));
}

#[test]
fn manifest_values_are_unescaped() {
    assert_eq!(
        parse_appx_manifest_executables(b"<Application Executable='a&amp;b.exe'></Application>")
            .unwrap(),
        vec!["a&b.exe"]
    );
    assert!(parse_appx_manifest_executables(b"<Application Executable='a' Executable='b'/>")
        .is_err());
}

#[test]
fn traversal_and_reparse_escape_remain_rejected() {
    let parts = vec![PathPart::ParentDir, PathPart::Normal(Some("escape.exe".into()))];
    assert!(matches!(
        package_executable_path(
            true,
            false,
            &parts,
            PackageProbe::Found {
                root: vec!["C:".into(), "package".into()],
                executable: vec!["C:".into(), "escape.exe".into()],
                path: "C:\\escape.exe".into(),
            }
        ),
        Err(DiscoveryDiagnosticCode::InvalidSourceRecord)
    ));
    let parts = vec![PathPart::Normal(Some("a.exe".into()))];
    assert!(matches!(
        package_executable_path(true, false, &parts, PackageProbe::Reparse),
        Err(DiscoveryDiagnosticCode::ReparsePointRejected)
    ));
}

#[test]
fn package_identity_is_of_its_family_and_its_place() {
    let parts = vec![
        PathPart::Normal(Some("Bin".into())),
        PathPart::Normal(Some("Agent.exe".into())),
    ];
    assert_eq!(
        normalized_relative_identity(false, &parts).unwrap(),
        "bin/agent.exe"
    );
    assert!(normalized_relative_identity(true, &parts).is_err());
    assert!(normalized_relative_identity(false, &vec![PathPart::CurDir]).is_err());
    let a = package_stable_identity("Family_x", false, &parts).unwrap();
    let b = package_stable_identity("Family_y", false, &parts).unwrap();
    assert_ne!(a.parts, b.parts);
    assert!(path_is_under(
        &vec!["a".into(), "b".into()],
        &vec!["a".into()]
    ));
    assert!(!path_is_under(&vec!["ab".into()], &vec!["a".into()]));
}

fn probe(path: &str, file_name: &str, directory: &str) -> FileProbe {
    FileProbe {
        absolute: true,
        file_name: Some(file_name.into()),
        reparse: false,
        canonical: Some(path.into()),
        regular: true,
        directory: Some(directory.into()),
    }
}

#[test]
fn production_worker_identity_requires_canonical_sibling_regular_file() {
    let name = local_discovery_worker_file_name(true);
    assert_eq!(
        worker_directory(&probe("C:\\core\\agenttalk-core.exe", "agenttalk-core.exe", "C:\\core"))
            .as_deref(),
        Some("C:\\core")
    );
    let worker = probe("C:\\core\\worker.exe", name, "C:\\core");
    assert_eq!(
        validate_production_worker_candidate("C:\\core", &worker, true).as_deref(),
        Some("C:\\core\\worker.exe")
    );
    let mut relative = probe(name, name, "");
    relative.absolute = false;
    assert!(validate_production_worker_candidate("C:\\core", &relative, true).is_none());
    let other = probe("C:\\other\\worker.exe", name, "C:\\other");
    assert!(validate_production_worker_candidate("C:\\core", &other, true).is_none());
    let mut missing = probe("", "missing.exe", "C:\\core");
    missing.canonical = None;
    assert!(validate_production_worker_candidate("C:\\core", &missing, true).is_none());
    let mut directory = probe("C:\\core\\worker.exe", name, "C:\\core");
    directory.regular = false;
    assert!(validate_production_worker_candidate("C:\\core", &directory, true).is_none());
    let mut link = probe("C:\\core\\worker.exe", name, "C:\\core");
    link.reparse = true;
    assert!(validate_production_worker_candidate("C:\\core", &link, true).is_none());
}

#[test]
fn fixture_worker_is_put_back() {
    let mut slot = Some("before".to_owned());
    let guard = install_local_discovery_fixture_worker_for_tests(
        &mut slot,
        &probe("C:\\w.exe", "w.exe", "C:\\"),
    )
    .unwrap();
    assert_eq!(slot.as_deref(), Some("C:\\w.exe"));
    guard.restore(&mut slot);
    assert_eq!(slot.as_deref(), Some("before"));
    assert_eq!(worker_exit_code(&Ok(())), 0);
    assert_ne!(
        worker_exit_code(&Err(DiscoveryDiagnosticCode::ProviderFailed)),
        0
    );
}

fn projection(name: &str, runtime_type: &str) -> CandidateProjection {
    CandidateProjection {
        connector_id: format!("id-{name}"),
        runtime_type: runtime_type.into(),
        display_name: name.into(),
        availability: "unconfigured".into(),
        models: Vec::new(),
        catalog_revision: None,
        source_kind: ObservationSourceKind::RuntimeRecord,
        requires_configuration: true,
    }
}

#[test]
fn candidates_are_shown_in_order() {
    let shown = show_candidates(&vec![projection("b", "kun"), projection("a", "codex")], true);
    assert_eq!(shown.len(), 2);
    assert_eq!(shown[0].display_name, "a");
    assert_eq!(
        legacy_local_connector_candidate(&projection("b", "kun")).availability,
        "unconfigured"
    );
    let mut paths = vec!["C:\\A".to_owned()];
    push_unique_local_path(&mut paths, "c:\\a".into(), true);
    push_unique_local_path(&mut paths, "c:/b".into(), true);
    assert_eq!(paths.len(), 2);
    assert_eq!(normalized_path_key("C:\\A", true), "c:/a");
}

#[test]
fn codex_is_observed_by_its_content() {
    let good = codex_observation("C:\\codex.exe", "place", &Ok("content".into()));
    let bad = codex_observation(
        "C:\\codex.exe",
        "place",
        &Err(DiscoveryDiagnosticCode::FingerprintUnavailable),
    );
    assert_ne!(good.fingerprint.parts, bad.fingerprint.parts);
    assert!(!bad.diagnostics.is_empty());
}

fn snapshot(len: u64, modified: u128) -> FileSnapshot {
    FileSnapshot {
        len,
        modified,
        identity: None,
    }
}

/// The content digest of a reader, in pieces of at most 8192 bytes.
fn digest_of(content: &[u8], len: u64, modified: u128) -> String {
    let before = snapshot(len, modified);
    let mut hash = FileHash::new(before);
    let mut at = 0;
    loop {
        let count = hash.wants(8192).min(content.len() - at);
        if count == 0 {
            break;
        }
        hash.feed(&content[at..at + count]);
        at += count;
    }
    hash.finish(Ok(before)).unwrap().content_sha256
}

#[test]
fn stable_file_identity_from_reader_streams_complete_content() {
    let content = vec![0x5a; 2 * 1024 * 1024];
    let before = snapshot(2 * 1024 * 1024, 0);
    let mut hash = FileHash::new(before);
    let mut read_total = 0usize;
    loop {
        let count = hash.wants(8192);
        if count == 0 {
            break;
        }
        hash.feed(&content[read_total..read_total + count]);
        read_total += count;
    }
    let fingerprint = hash.finish(Ok(before)).unwrap().content_sha256;
    assert!(!fingerprint.is_empty());
    assert_eq!(read_total, 2 * 1024 * 1024);
}

#[test]
fn stable_file_identity_ignores_mtime_and_covers_tail_changes() {
    let unchanged_content_old_mtime = digest_of(b"same-content", 12, 1);
    let unchanged_content_new_mtime = digest_of(b"same-content", 12, 2);
    let first = b"same-prefix-tail-a".as_slice();
    let second = b"same-prefix-tail-b".as_slice();
    let changed_tail_a = digest_of(first, first.len() as u64, 1);
    let changed_tail_b = digest_of(second, second.len() as u64, 1);
    assert_eq!(unchanged_content_old_mtime, unchanged_content_new_mtime);
    assert_ne!(changed_tail_a, changed_tail_b);
}

#[test]
fn stable_file_identity_detects_truncate_and_growth_during_snapshot() {
    for length in [1_000u64, 14_000] {
        let mut hash = FileHash::new(snapshot(12_000, 1));
        hash.feed(&vec![0x61; 8192]);
        hash.feed(&vec![0x61; 12_000 - 8192]);
        assert!(matches!(
            hash.finish(Ok(snapshot(length, 1))),
            Err(DiscoveryDiagnosticCode::FingerprintChanged)
        ));
    }
    let mut short = FileHash::new(snapshot(12_000, 1));
    short.feed(&vec![0x61; 8192]);
    assert_eq!(
        short.failed(
            DiscoveryDiagnosticCode::ProviderTimeout,
            Some(snapshot(12_000, 1))
        ),
        DiscoveryDiagnosticCode::ProviderTimeout
    );
    assert!(matches!(
        short.finish(Ok(snapshot(12_000, 1))),
        Err(DiscoveryDiagnosticCode::FingerprintChanged)
    ));
}

#[test]
fn identical_bytes_with_different_file_ids_remain_distinct() {
    let identity = |index: u32| {
        let before = FileSnapshot {
            len: 3,
            modified: 1,
            identity: Some(FileIdentity {
                volume_serial_number: 1,
                file_index_high: 0,
                file_index_low: index,
                creation_time_high: 0,
                creation_time_low: 0,
            }),
        };
        let mut hash = FileHash::new(before);
        hash.feed(b"abc");
        hash.finish(Ok(before)).unwrap()
    };
    let (a, b) = (identity(1), identity(2));
    assert_eq!(a.content_sha256, b.content_sha256);
    assert_ne!(a.stable_identity, b.stable_identity);
}

#[test]
fn sha256_is_that_of_the_standard() {
    assert_eq!(
        digest_of(b"", 0, 0),
        "af5570f5a1810b7af78caf4bc70a660f0df51e42baf91d4de5b2328de0e83dfc"
    );
    assert_eq!(sha256_hex(&[0x0f, 0xa0]), "0fa0");
}

#[test]
fn package_tree_is_read_in_order() {
    let entry = |key: &str, kind: EntryKind| TreeEntry {
        key: key.into(),
        file_key: key.into(),
        path: format!("C:\\p\\{key}"),
        relative: vec![PathPart::Normal(Some(key.into()))],
        reparse: false,
        kind: Ok(kind),
        place: EntryPlace::Inside,
    };
    let digest = |entries: Vec<TreeEntry>| {
        let mut tree = PackageTree::new("C:\\p".into());
        assert_eq!(tree.next_directory().as_deref(), Some("C:\\p"));
        tree.on_listing(entries).unwrap();
        assert_eq!(tree.next_directory(), None);
        let mut digest = TreeDigest::new();
        for file in &tree.files {
            digest.begin_file(file).unwrap();
            let count = digest.wants(8192);
            digest.feed(&vec![7; count]).unwrap();
        }
        digest.finish()
    };
    let ab = digest(vec![entry("a", EntryKind::File(2)), entry("b", EntryKind::File(1))]);
    let ba = digest(vec![entry("b", EntryKind::File(1)), entry("a", EntryKind::File(2))]);
    let other = digest(vec![entry("a", EntryKind::File(1)), entry("b", EntryKind::File(2))]);
    assert_eq!(ab, ba);
    assert_ne!(ab, other);
    assert_eq!(ab.len(), 64);
    assert!(ab.bytes().all(|b| matches!(b, b'0'..=b'9' | b'a'..=b'f')));
    let mut tree = PackageTree::new("C:\\p".into());
    let mut link = entry("l", EntryKind::Other);
    link.reparse = true;
    assert!(tree.on_listing(vec![link]).is_err());
}

#[test]
fn package_has_the_same_digest_below_another_root() {
    let digest = |root: &str, names: [&str; 3], size: u64| {
        let entry = |directory: &str, name: &str, parts: &[&str], kind: EntryKind| {
            let path = format!("{directory}\\{name}");
            let key = normalized_path_key(&path, true);
            TreeEntry {
                key: key.clone(),
                file_key: key,
                path,
                relative: parts
                    .iter()
                    .map(|part| PathPart::Normal(Some(part.to_string())))
                    .collect(),
                reparse: false,
                kind: Ok(kind),
                place: EntryPlace::Inside,
            }
        };
        let mut tree = PackageTree::new(root.into());
        while let Some(directory) = tree.next_directory() {
            let listing = if directory == root {
                names
                    .iter()
                    .map(|name| {
                        let kind = if *name == "lib" {
                            EntryKind::Directory
                        } else {
                            EntryKind::File(size)
                        };
                        entry(root, name, &[name], kind)
                    })
                    .collect()
            } else {
                assert_eq!(directory, format!("{root}\\lib"));
                vec![entry(&directory, "b.js", &["lib", "b.js"], EntryKind::File(3))]
            };
            tree.on_listing(listing).unwrap();
        }
        let mut digest = TreeDigest::new();
        for file in &tree.files {
            digest.begin_file(file).unwrap();
            while digest.wants(2) > 0 {
                digest.feed(&vec![7; digest.wants(2)]).unwrap();
            }
        }
        digest.finish()
    };
    let here = digest("C:\\npm\\agent", ["a.js", "lib", "z.js"], 5);
    assert_eq!(here, digest("D:\\x", ["z.js", "a.js", "lib"], 5));
    assert_ne!(here, digest("D:\\x", ["z.js", "a.js", "lib"], 4));
}

#[test]
fn system_tables_are_read_with_their_bounds() {
    assert_eq!(
        io_diagnostic_code(AccessStatus::Denied),
        DiscoveryDiagnosticCode::AccessDenied
    );
    assert_eq!(
        io_diagnostic_code(AccessStatus::NotFound),
        DiscoveryDiagnosticCode::SourceDisappeared
    );
    assert_eq!(
        utf16_z_to_string(&[0x61, 0xd83d, 0xde42, 0, 0x62]).as_deref(),
        Some("a🙂")
    );
    assert_eq!(utf16_z_to_string(&[0xd83d, 0]), None);
    assert_eq!(
        default_string(&RegistryValue::Units(vec![0x61, 0])).unwrap().as_deref(),
        Some("a")
    );
    assert_eq!(
        default_string(&RegistryValue::Denied),
        Err(DiscoveryDiagnosticCode::AccessDenied)
    );
    assert_eq!(package_version(Some((1, 2, 3, 4))), "1.2.3.4");
    assert_eq!(port_of_field(0x3930), 12345);
    assert_eq!(table_step(TableStatus::TooSmall, 16), TableStep::Read);
    assert_eq!(table_step(TableStatus::Failed, 16), TableStep::Failed);
}

#[test]
fn registry_entries_become_records() {
    let mut scan = RegistryScan::new(WindowsProviderCollection::new());
    assert!(scan.wants_more());
    assert!(scan.on_root(AccessStatus::Done));
    assert!(scan.on_entry(
        RegistryEntry::Named("agent.exe".into(), Ok(Some("C:\\agent.exe".into()))),
        WindowsRegistryHive::CurrentUser,
        WindowsRegistryView::Native
    ));
    assert!(!scan.on_entry(
        RegistryEntry::NoMore,
        WindowsRegistryHive::CurrentUser,
        WindowsRegistryView::Native
    ));
    let (collection, records) = scan.finish();
    assert!(collection.diagnostics.is_empty());
    assert_eq!(records.len(), 1);
    assert_eq!(records[0].executable_path, "C:\\agent.exe");
}

#[test]
fn process_that_was_replaced_owns_nothing() {
    let mut probe = ProcessProbe {
        opened: true,
        created: Some((1, 2)),
        image: Some("C:\\a.exe".into()),
        created_again: Some((1, 2)),
    };
    let (image, identity) = process_identity_for_pid(&probe, 7).unwrap();
    assert!(image.contains("a.exe") || identity.contains("a.exe"));
    probe.created_again = Some((1, 3));
    assert!(process_identity_for_pid(&probe, 7).is_err());
    let row = verify_loopback_listener_row(
        &vec![127, 0, 0, 1],
        80,
        7,
        Ok(("C:\\a.exe".into(), "identity".into())),
        Ok(true),
    )
    .unwrap()
    .unwrap();
    assert_eq!(row.address, "127.0.0.1");
    assert!(verify_loopback_listener_row(
        &vec![127, 0, 0, 1],
        80,
        7,
        Ok(("C:\\a.exe".into(), "identity".into())),
        Ok(false),
    )
    .unwrap()
    .is_none());
}

#[test]
fn listener_table_tells_the_owner() {
    let mut table: Vec<u8> = Vec::new();
    for word in [1u32, 2, u32::from_le_bytes([127, 0, 0, 1]), 0x3930, 0, 0, 77] {
        table.extend_from_slice(&word.to_le_bytes());
    }
    let local = LoopbackAddress::V4(0, 0, 1);
    assert!(listener_is_owned(&table, local, 12345, 77));
    assert!(!listener_is_owned(&table, local, 12345, 78));
    assert!(!listener_is_owned(&table, local, 12346, 77));
    assert!(!listener_is_owned(&table[..8].to_vec(), local, 12345, 77));
    assert!(!listener_is_owned(&table, local, 12345, 77 + (1 << 32)));
}
