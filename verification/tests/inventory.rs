use runtime_host::codex_launch::{codex_binary_variables, codex_executable_names};
use runtime_host::digest::StableFileFingerprint;
use runtime_host::discovery::{
    codex_to_observe, known_workers, local_discovery_worker_executable, local_policy,
    passive_policy, passive_workers, worker_source, FileProbe, LocalConnectorDiscoveryConfig,
    ManagedProviderWorkerKind, WindowsPassiveDiscoveryConfig,
};
use runtime_host::error::ConnectorRuntimeFailure;
use runtime_host::http::MAX_TRANSPORT_BODY_BYTES;
use runtime_host::json::{encode_json, Json};
use runtime_host::kun_discovery::{
    kun_verification_config, local_kun_record, record_is_oversized, KunRecordFile,
    PassiveKunRuntimeRecord,
};
use runtime_host::kun_frames::interrupt_body;
use runtime_host::kun_record::runtime_install_dir_candidates;
use runtime_host::observation::{
    DiscoveryDiagnosticCode, ExecutableProbe, ObservationSourceKind,
};
use runtime_host::passive::{
    is_loopback_row, keep_listeners, loopback_row_survives_recheck, ListenerRow, PathScan,
    RecordScan, WindowsLoopbackListenerRecord, WindowsProviderCollection,
};
use runtime_host::paths::PathPart;
use runtime_host::rpc::notification_json;
use runtime_host::runner::{
    find_runner_executable, npm_installations, runner_executable_names,
    runner_installation_observation, runner_package_directory, uvx_installations, NpmDependency,
    NpmList, PackageDirectory, RunnerDirectory, RunnerFile, RunnerPackageRecord,
    MAX_RUNNER_INSTALLATIONS, MAX_RUNNER_SEARCH_DIRECTORIES,
};
use runtime_host::tables::wants_listener;

fn runner_file(path: &str) -> RunnerFile {
    RunnerFile {
        reparse: false,
        regular: true,
        canonical: Some(path.into()),
        canonical_reparse: false,
        canonical_regular: true,
    }
}

fn directory(absolute: bool, reparse: bool, files: Vec<RunnerFile>) -> RunnerDirectory {
    RunnerDirectory {
        absolute,
        reparse,
        files,
    }
}

#[test]
fn runner_is_the_first_sound_file_of_the_search_path() {
    assert_eq!(
        runner_executable_names("npx", true),
        vec!["npx.exe", "npx.cmd", "npx.bat"]
    );
    assert_eq!(runner_executable_names("npx", false), vec!["npx"]);
    let linked = || RunnerFile {
        reparse: true,
        ..runner_file("/a/npx")
    };
    let lost = || RunnerFile {
        canonical: None,
        ..runner_file("/a/npx")
    };
    let path = vec![
        directory(false, false, vec![runner_file("/relative/npx")]),
        directory(true, true, vec![runner_file("/linked/npx")]),
        directory(true, false, vec![linked(), lost()]),
        directory(true, false, vec![linked(), runner_file("/b/npx")]),
        directory(true, false, vec![runner_file("/c/npx")]),
    ];
    assert_eq!(find_runner_executable(&path).as_deref(), Some("/b/npx"));
    assert_eq!(find_runner_executable(&Vec::new()), None);
    let mut long: Vec<RunnerDirectory> = (0..MAX_RUNNER_SEARCH_DIRECTORIES)
        .map(|_| directory(true, false, Vec::new()))
        .collect();
    long.push(directory(true, false, vec![runner_file("/late/npx")]));
    assert_eq!(find_runner_executable(&long), None);
}

#[test]
fn installations_are_bounded_and_fail_as_a_whole() {
    let failed = DiscoveryDiagnosticCode::ProviderFailed;
    let invalid = DiscoveryDiagnosticCode::InvalidSourceRecord;
    let list = || NpmList {
        path: Some("C:\\npm".into()),
        dependencies: (0..200)
            .map(|index| NpmDependency {
                name: format!("agent{index:03}"),
                version: Some("1.0.0".into()),
                integrity: None,
            })
            .collect(),
    };
    let records = npm_installations(Ok(list()), true).unwrap();
    assert_eq!(records.len(), MAX_RUNNER_INSTALLATIONS);
    assert_eq!(records[127].package_name, "agent127");
    assert_eq!(npm_installations(Ok(list()), false).unwrap_err(), invalid);
    assert_eq!(npm_installations(Err(failed), true).unwrap_err(), failed);

    let tools = || Ok(b"zeta 1.0\nagent v2.0\n".to_vec());
    let root = || Ok(b"C:\\tools\n".to_vec());
    let records = uvx_installations(tools(), root(), true).unwrap();
    assert_eq!(records.len(), 2);
    assert_eq!(records[0].package_name, "agent");
    assert_eq!(records[0].resolved_version, "2.0");
    assert_eq!(records[0].install_root, "C:\\tools");
    assert_eq!(uvx_installations(tools(), root(), false).unwrap_err(), invalid);
    assert_eq!(uvx_installations(tools(), Err(failed), true).unwrap_err(), failed);
    assert_eq!(uvx_installations(Err(failed), root(), true).unwrap_err(), failed);
}

#[test]
fn installation_is_told_by_its_runner_and_its_tree() {
    let fingerprint = StableFileFingerprint {
        stable_identity: "runner-identity".into(),
        content_sha256: "runner-content".into(),
    };
    let record = RunnerPackageRecord {
        package_name: "@scope/agent".into(),
        resolved_version: "1.2.3".into(),
        install_root: "C:\\npm".into(),
        package_integrity: None,
    };
    let observe = |found: bool, digest: Result<String, DiscoveryDiagnosticCode>| {
        runner_installation_observation(
            "npx",
            "C:\\bin\\npx.exe",
            &fingerprint,
            &record,
            found,
            &digest,
        )
    };
    let observation = observe(true, Ok("tree".into())).unwrap();
    assert_eq!(observation.display_name, "npx @scope/agent@1.2.3");
    assert_eq!(observation.package_ids, vec!["@scope/agent@1.2.3"]);
    assert_eq!(
        observation.runner_installation.unwrap().package_tree_digest,
        "tree"
    );
    assert_eq!(
        observe(false, Ok("tree".into())).unwrap_err(),
        DiscoveryDiagnosticCode::InvalidSourceRecord
    );
    assert_eq!(
        observe(true, Err(DiscoveryDiagnosticCode::OversizedInput)).unwrap_err(),
        DiscoveryDiagnosticCode::OversizedInput
    );
    let found = |directory: &[&str], is_directory: bool| PackageDirectory::Found {
        root: vec!["C:".into(), "npm".into()],
        directory: directory.iter().map(|part| part.to_string()).collect(),
        is_directory,
    };
    assert!(runner_package_directory(&found(&["C:", "npm", "agent"], true)));
    assert!(!runner_package_directory(&found(&["C:", "npm", "agent"], false)));
    assert!(!runner_package_directory(&found(&["C:", "other"], true)));
    assert!(!runner_package_directory(&PackageDirectory::Lost));
}

#[test]
fn runners_and_packages_are_taken_with_their_diagnostics() {
    let mut scan = RecordScan::new(WindowsProviderCollection::new(), 4, true);
    assert!(scan.has_room());
    scan.on_runner(Err(DiscoveryDiagnosticCode::ProviderTimeout));
    let parts = vec![PathPart::Normal(Some("agent.exe".into()))];
    let probe = || ExecutableProbe::File {
        path: "C:\\apps\\agent.exe".into(),
        file_name: Some("agent.exe".into()),
        identity: "identity".into(),
    };
    assert!(scan.on_package(&Ok("C:\\apps\\agent.exe".into())));
    assert!(scan.on_package_probe("Vendor.Agent", false, &parts, probe(), Ok("identity".into())));
    assert!(scan.on_selected_probe(probe()));
    assert!(scan.on_selected_probe(ExecutableProbe::Relative));
    let collection = scan.finish();
    assert_eq!(collection.observations.len(), 2);
    assert_eq!(collection.diagnostics.len(), 2);
    assert_eq!(
        collection.diagnostics[0].source_kind,
        ObservationSourceKind::ExecutableInventory
    );
    assert_eq!(
        collection.diagnostics[0].code,
        DiscoveryDiagnosticCode::ProviderTimeout
    );

    let mut path = PathScan::new(1, 1, 1, true);
    path.on_listing_failed(DiscoveryDiagnosticCode::AccessDenied);
    assert_eq!(
        path.finish().diagnostics[0].code,
        DiscoveryDiagnosticCode::AccessDenied
    );
}

#[test]
fn listener_rows_are_checked_again() {
    let row = |address: &[u16], listening: bool| ListenerRow {
        listening,
        address: address.to_vec(),
        port: 8080,
        owner_pid: 7,
    };
    assert!(is_loopback_row(&row(&[127, 1, 2, 3], true)));
    assert!(is_loopback_row(&row(&[0, 0, 0, 0, 0, 0, 0, 1], true)));
    assert!(!is_loopback_row(&row(&[127, 0, 0, 1], false)));
    assert!(!is_loopback_row(&row(&[10, 0, 0, 1], true)));
    let rows = vec![row(&[127, 0, 0, 1], true)];
    let home = vec![127, 0, 0, 1];
    let before = ("identity", "agent.exe");
    assert!(loopback_row_survives_recheck(&rows, &home, 8080, 7, before, before));
    assert!(!loopback_row_survives_recheck(&rows, &home, 8081, 7, before, before));
    assert!(!loopback_row_survives_recheck(&rows, &home, 8080, 8, before, before));
    let other = ("other", "agent.exe");
    assert!(!loopback_row_survives_recheck(&rows, &home, 8080, 7, before, other));
    let mut records: Vec<WindowsLoopbackListenerRecord> = (0..2050)
        .map(|pid| WindowsLoopbackListenerRecord {
            address: "127.0.0.1".into(),
            port: 8080,
            owner_pid: pid,
            owner_executable: None,
            owner_identity: None,
        })
        .collect();
    assert!(!wants_listener(&records));
    keep_listeners(&mut records);
    assert_eq!(records.len(), 2048);
    assert!(wants_listener(&Vec::new()));
}

#[test]
fn workers_have_their_sources_and_connect_to_nothing() {
    assert_eq!(
        known_workers(),
        vec![ManagedProviderWorkerKind::Codex, ManagedProviderWorkerKind::Kun]
    );
    assert_eq!(passive_workers().len(), 6);
    assert_eq!(
        worker_source(ManagedProviderWorkerKind::Kun),
        ObservationSourceKind::RuntimeRecord
    );
    assert_eq!(
        worker_source(ManagedProviderWorkerKind::ExplicitSources),
        ObservationSourceKind::UserSelected
    );
    let policy = local_policy(&LocalConnectorDiscoveryConfig {
        codex_binary_paths: Vec::new(),
        kun_data_dirs: Vec::new(),
        kun_install_dirs: Vec::new(),
        kun_expected_service_version: "0.2.34".into(),
        request_timeout_ns: 1_500_000_999,
    });
    assert_eq!(policy.max_results, 32);
    assert_eq!(policy.timeout_ms, 1500);
    assert!(!policy.allow_active_verification && !policy.allow_lan);
    let policy = passive_policy(&WindowsPassiveDiscoveryConfig::for_path(None, false));
    assert!(!policy.allow_active_verification && !policy.allow_lan);
}

#[test]
fn codex_is_the_first_file_that_is_there() {
    assert_eq!(codex_to_observe(1, false, &vec![false, true, true]), Some(1));
    assert_eq!(codex_to_observe(0, false, &vec![true]), None);
    assert_eq!(codex_to_observe(1, true, &vec![true]), None);
    assert_eq!(codex_to_observe(1, false, &vec![false]), None);
    assert_eq!(
        codex_binary_variables(),
        vec!["AGENTTALK_CODEX_BINARY", "CODEX_BINARY_PATH", "CODEX_BINARY"]
    );
    assert_eq!(codex_executable_names(true), vec!["codex.exe", "codex"]);
    assert_eq!(codex_executable_names(false), vec!["codex"]);
}

#[test]
fn worker_of_a_test_takes_the_place_of_the_other() {
    let probe = |reparse: bool| FileProbe {
        absolute: true,
        file_name: Some("worker".into()),
        reparse,
        regular: true,
        canonical: Some("/test/worker".into()),
        directory: Some("/test".into()),
    };
    let production = || Some("/opt/worker".to_string());
    assert_eq!(
        local_discovery_worker_executable(None, production()).as_deref(),
        Some("/opt/worker")
    );
    assert_eq!(
        local_discovery_worker_executable(Some(&probe(false)), production()).as_deref(),
        Some("/test/worker")
    );
    assert_eq!(
        local_discovery_worker_executable(Some(&probe(true)), production()),
        None
    );
}

#[test]
fn kun_is_asked_as_its_record_says() {
    assert!(!record_is_oversized(None));
    assert!(!record_is_oversized(Some(MAX_TRANSPORT_BODY_BYTES as u64)));
    assert!(record_is_oversized(Some(MAX_TRANSPORT_BODY_BYTES as u64 + 1)));
    let record = local_kun_record(
        "/home/kun/runtime.json",
        &Some("/home/kun".into()),
        KunRecordFile::Read(Ok(PassiveKunRuntimeRecord::new())),
    )
    .unwrap();
    let config =
        kun_verification_config(&record, &Some("/opt/kun".into()), "0.2.34", 60_000_000_000);
    assert_eq!(config.data_dir.as_deref(), Some("/home/kun"));
    assert_eq!(config.install_dir.as_deref(), Some("/opt/kun"));
    assert_eq!(config.expected_service_version, "0.2.34");
    assert!(config.request_timeout_ns < 60_000_000_000);
    let dirs = runtime_install_dir_candidates(
        &vec!["C:\\Kun".into()],
        &vec!["c:\\kun".into(), "C:\\".into()],
        &vec!["D:\\Kun".into()],
        true,
    );
    let dirs: Vec<(&str, bool)> = dirs
        .iter()
        .map(|dir| (dir.path.as_str(), dir.explicit))
        .collect();
    assert_eq!(
        dirs,
        vec![("C:\\Kun", true), ("C:\\", false), ("D:\\Kun", false)]
    );
}

#[test]
fn four_directories_above_an_executable_are_looked_at() {
    let parents: Vec<String> = ["/a/b/c/d/e", "/a/b/c/d", "/a/b/c", "/a/b", "/a"]
        .iter()
        .map(|path| path.to_string())
        .collect();
    let dirs = runtime_install_dir_candidates(
        &vec!["/opt/kun/".into(), "/opt/kun".into()],
        &parents,
        &vec!["/a/b/./c".into(), "/usr/lib/kun".into()],
        false,
    );
    let dirs: Vec<&str> = dirs.iter().map(|dir| dir.path.as_str()).collect();
    assert_eq!(
        dirs,
        vec![
            "/opt/kun/",
            "/a/b/c/d/e",
            "/a/b/c/d",
            "/a/b/c",
            "/a/b",
            "/usr/lib/kun"
        ]
    );
}

#[test]
fn messages_without_an_answer_are_written() {
    assert_eq!(
        encode_json(&notification_json("initialized", Json::Object(Vec::new()))).as_deref(),
        Some("{\"jsonrpc\":\"2.0\",\"method\":\"initialized\",\"params\":{}}")
    );
    assert_eq!(
        encode_json(&interrupt_body()).as_deref(),
        Some("{\"discard\":false}")
    );
    assert_eq!(
        ConnectorRuntimeFailure::CatalogUnavailable.event_reason(),
        ConnectorRuntimeFailure::CatalogUnavailable.category()
    );
}
