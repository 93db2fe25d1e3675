use runtime_host::error::{
    connector_runtime_failure, ConnectorRuntimeFailure, RuntimeError, KUN_CATALOG_UNAVAILABLE,
    KUN_MODEL_UNAVAILABLE, KUN_PROVIDER_AUTHENTICATION_FAILED, KUN_RUNTIME_IDENTITY_MISMATCH,
};
use runtime_host::event::{
    RuntimeEvent, RuntimeRequest, WorkspaceAccess, DEFAULT_RUNTIME_TIMEOUT_MS,
};
use runtime_host::http::HttpFailureKind;
use runtime_host::json::{parse_json, Json};
use runtime_host::kun_cancel::{
    shutdown_result, CancelStep, InterruptStep, KunTransportState, KunTurn,
};
use runtime_host::kun_catalog::catalog_from_response;
use runtime_host::kun_frames::{
    events_path_text, interrupt_path_text, interrupt_result, read_answer, recover_assistant_text,
};
use runtime_host::kun_record::{valid_kun_build_id, MetadataRead};
use runtime_host::kun_resolve::{kun_data_dir, retry_pause, KunConnection, KunRecordRead};
use runtime_host::kun_stream::{KunAction, KunInput, KunRun};

const TOKEN: &str = "fixture-runtime-token";

fn request(model_id: Option<&str>) -> RuntimeRequest {
    RuntimeRequest {
        execution_run_id: "run-1".into(),
        agent_identity_id: "agent-1".into(),
        connector_id: "desktop-kun-profile".into(),
        model_id: model_id.map(str::to_owned),
        context_manifest_id: "manifest-1".into(),
        rendered_context: "fixture context".into(),
        canonical_cwd: Some("C:\\data".into()),
        workspace_access: WorkspaceAccess::ReadOnly,
        timeout_ms: DEFAULT_RUNTIME_TIMEOUT_MS,
        thread_policy: "per-run".into(),
        signed_scope: "local-fixture-scope".into(),
    }
}

fn value(text: &str) -> Json {
    parse_json(text).unwrap()
}

fn healthy_catalog() -> Json {
    value(
        r#"{"revision":9,"defaultModelId":"kun-model-b","defaultProviderId":"provider-b","providers":[{"id":"provider-a","configured":true,"models":[{"id":"kun-model-a","available":true,"enabled":true,"capabilities":{"streaming":true,"cancel":true,"filesystem":false,"shell":false}}]},{"id":"provider-b","configured":true,"selectedModel":"kun-model-b","models":[{"id":"kun-model-b","status":"available","enabled":true}]}]}"#,
    )
}

/// A runtime that answers as long as nothing is said otherwise.
struct Server {
    events: &'static [u8],
    thread_status: u16,
    turn_status: u16,
    refusal: &'static [u8],
    subscribe: Option<(u16, &'static [u8])>,
    interrupt_status: u16,
    paths: Vec<String>,
}

impl Server {
    fn healthy() -> Self {
        Server {
            events: b"data: {\"kind\":\"assistant_text_delta\",\"turnId\":\"turn-fixture\",\"item\":{\"kind\":\"assistant_text\",\"text\":\"hello from fixture\"}}\n\ndata: {\"kind\":\"turn_completed\",\"turnId\":\"turn-fixture\"}\n\n",
            thread_status: 200,
            turn_status: 200,
            refusal: b"{}",
            subscribe: None,
            interrupt_status: 200,
            paths: Vec::new(),
        }
    }

    fn post(&mut self, path: String, body: Json) -> KunInput {
        self.paths.push(path.clone());
        let (status, answer): (u16, &[u8]) = if path == "/v1/threads" {
            assert_eq!(
                body,
                value(
                    r#"{"approvalPolicy":"auto","mode":"agent","model":"kun-model-a","sandboxMode":"read-only","title":"AgentTalk","titleAuto":true,"workspace":"C:\\data"}"#
                )
            );
            (self.thread_status, br#"{"id":"thread-fixture"}"#)
        } else {
            assert_eq!(path, "/v1/threads/thread-fixture/turns");
            assert_eq!(
                body,
                value(
                    r#"{"disableUserInput":true,"mode":"agent","model":"kun-model-a","prompt":"fixture context"}"#
                )
            );
            (self.turn_status, br#"{"turnId":"turn-fixture"}"#)
        };
        let answer = if status == 200 { answer } else { self.refusal };
        match read_answer(status, HttpFailureKind::Provider, answer) {
            Ok(value) => KunInput::Answer(value),
            Err(error) => KunInput::Failed(error),
        }
    }
}

/// Runs to the end, as the transport does, and gives the events and the result.
fn execute(
    request: &RuntimeRequest,
    server: &mut Server,
    shared: &mut KunTransportState,
) -> (Vec<RuntimeEvent>, Result<(), RuntimeError>) {
    let mut events = Vec::new();
    let (mut run, mut action) = KunRun::new(request, shared, false);
    let mut pending = Some(server.events.to_vec());
    loop {
        let input = match action {
            KunAction::Connect => KunInput::Done,
            KunAction::LoadCatalog => {
                KunInput::Catalog(catalog_from_response(&healthy_catalog(), &None).unwrap())
            }
            KunAction::Post { path, body } => server.post(path, body),
            KunAction::Emit(more) => {
                events.extend(more);
                KunInput::Done
            }
            KunAction::Subscribe { path } => {
                server.paths.push(path);
                match server.subscribe {
                    None => KunInput::Done,
                    Some((status, body)) => {
                        match read_answer(status, HttpFailureKind::Provider, body) {
                            Ok(_) => KunInput::Done,
                            Err(error) => KunInput::Failed(error),
                        }
                    }
                }
            }
            KunAction::Read => match pending.take() {
                Some(bytes) => KunInput::Bytes(bytes),
                None => KunInput::EndOfStream,
            },
            KunAction::Interrupt(turn) => {
                server
                    .paths
                    .push(interrupt_path_text(&turn.thread_id, &turn.turn_id));
                match interrupt(shared, server) {
                    Ok(()) => KunInput::Done,
                    Err(error) => KunInput::Failed(error),
                }
            }
            KunAction::Fetch { path } => {
                server.paths.push(path);
                KunInput::Answer(value(
                    r#"{"items":[{"role":"assistant","kind":"assistant_text","text":"recovered assistant fixture"}]}"#,
                ))
            }
            KunAction::Finish(result) => return (events, result),
        };
        action = run.advance(shared, input, false, false);
    }
}

fn interrupt(shared: &mut KunTransportState, server: &Server) -> Result<(), RuntimeError> {
    match shared.poll_interrupt("run-1") {
        InterruptStep::Invoke => {
            let result = interrupt_result(server.interrupt_status);
            shared.interrupt_done("run-1", &result);
            result
        }
        InterruptStep::Wait => panic!("nobody else interrupts"),
        InterruptStep::Outcome(result) => result,
    }
}

#[test]
fn kun_shared_runtime_uses_dynamic_authenticated_fixture_http_without_ownership() {
    let catalog = catalog_from_response(&healthy_catalog(), &None).unwrap();
    assert_eq!(catalog.models, vec!["kun-model-a", "kun-model-b"]);
    assert_eq!(catalog.revision.as_deref(), Some("9"));
    assert_eq!(catalog.default_model_id.as_deref(), Some("kun-model-b"));
    assert!(catalog
        .model_metadata
        .iter()
        .any(|metadata| metadata.model_id == "kun-model-a" && !metadata.capabilities.filesystem));

    let mut shared = KunTransportState::new();
    let (events, result) = execute(&request(None), &mut Server::healthy(), &mut shared);
    assert!(events.is_empty());
    assert_eq!(
        result,
        Err(RuntimeError::Protocol(KUN_MODEL_UNAVAILABLE.into()))
    );

    let mut server = Server::healthy();
    let (events, result) = execute(&request(Some("kun-model-a")), &mut server, &mut shared);
    assert_eq!(result, Ok(()));
    assert_eq!(events.last().unwrap().event_type, "execution.completed");
    assert!(events
        .iter()
        .any(|event| event.payload.get_str("delta") == Some("hello from fixture")));
    assert!(!format!("{events:?}").contains(TOKEN));
    assert!(shared.active_turn("run-1").is_none());
    assert!(shared.shutdown().is_empty());
}

#[test]
fn kun_default_provider_beats_first_provider_and_uses_provider_model_capabilities() {
    let response = value(
        r#"{"revision":10,"defaultProviderId":"provider-b","providers":[{"id":"provider-a","configured":true,"selectedModel":"kun-model-a","models":[{"id":"kun-model-a","available":true,"enabled":true}]},{"id":"provider-b","configured":true,"selectedModel":"kun-model-b","modelCapabilities":{"kun-model-b":{"streaming":true,"cancel":true,"filesystem":false,"shell":false}},"models":[{"id":"kun-model-b","available":true,"enabled":true}]}]}"#,
    );
    let catalog = catalog_from_response(&response, &None).unwrap();
    assert_eq!(catalog.models, vec!["kun-model-a", "kun-model-b"]);
    assert_eq!(catalog.default_model_id.as_deref(), Some("kun-model-b"));
    let metadata = catalog
        .model_metadata
        .iter()
        .find(|metadata| metadata.model_id == "kun-model-b")
        .expect("provider modelCapabilities must be retained internally");
    assert!(!metadata.capabilities.filesystem);
    assert!(!metadata.capabilities.shell);
}

#[test]
fn kun_transport_classifies_runtime_catalog_and_provider_failures_without_body_leaks() {
    assert_eq!(
        read_answer(401, HttpFailureKind::Runtime, b"{}"),
        Err(RuntimeError::Authentication)
    );
    assert_eq!(
        resolved("wrong-instance", "fixture-build", "0.2.34").err(),
        Some(RuntimeError::Protocol(KUN_RUNTIME_IDENTITY_MISMATCH.into()))
    );
    assert_eq!(
        read_answer(503, HttpFailureKind::Catalog, b"{}"),
        Err(RuntimeError::Transport(KUN_CATALOG_UNAVAILABLE.into()))
    );
    let mut server = Server::healthy();
    server.thread_status = 400;
    server.refusal = br#"{"error":{"code":"provider_authentication_failed"}}"#;
    let (_, result) = execute(
        &request(Some("kun-model-a")),
        &mut server,
        &mut KunTransportState::new(),
    );
    let error = result.expect_err("fixture Provider must reject turn");
    assert_eq!(
        error,
        RuntimeError::Provider(KUN_PROVIDER_AUTHENTICATION_FAILED.into())
    );
    assert_eq!(
        connector_runtime_failure(&error),
        Some(ConnectorRuntimeFailure::ProviderAuthenticationFailed)
    );
}

#[test]
fn kun_runtime_endpoint_401s_are_all_runtime_authentication_failures() {
    let mut thread = Server::healthy();
    thread.thread_status = 401;
    let mut turn = Server::healthy();
    turn.turn_status = 401;
    let mut sse = Server::healthy();
    sse.subscribe = Some((401, b"{}"));
    let mut forbidden = Server::healthy();
    forbidden.subscribe = Some((403, b"{}"));
    for mut server in [thread, turn, sse, forbidden] {
        let (_, result) = execute(
            &request(Some("kun-model-a")),
            &mut server,
            &mut KunTransportState::new(),
        );
        assert_eq!(result, Err(RuntimeError::Authentication));
    }
}

#[test]
fn kun_sse_provider_authentication_is_allowlisted_without_body_leakage() {
    let mut server = Server::healthy();
    server.subscribe = Some((400, br#"{"error":{"code":"provider_authentication_failed"}}"#));
    let (_, result) = execute(
        &request(Some("kun-model-a")),
        &mut server,
        &mut KunTransportState::new(),
    );
    let error =
        result.expect_err("SSE provider auth must not be reported as a completed turn");
    assert_eq!(
        error,
        RuntimeError::Provider(KUN_PROVIDER_AUTHENTICATION_FAILED.into())
    );
    assert_eq!(
        connector_runtime_failure(&error),
        Some(ConnectorRuntimeFailure::ProviderAuthenticationFailed)
    );
    assert!(!format!("{error:?}").contains(TOKEN));
}

/// Runs until events are being read.
fn reading(shared: &mut KunTransportState, server: &mut Server) -> KunRun {
    let (mut run, mut action) = KunRun::new(&request(Some("kun-model-a")), shared, false);
    loop {
        let input = match action {
            KunAction::LoadCatalog => {
                KunInput::Catalog(catalog_from_response(&healthy_catalog(), &None).unwrap())
            }
            KunAction::Post { path, body } => server.post(path, body),
            KunAction::Read => return run,
            KunAction::Finish(result) => panic!("{result:?}"),
            _ => KunInput::Done,
        };
        action = run.advance(shared, input, false, false);
    }
}

fn cancel(shared: &mut KunTransportState, server: &mut Server) -> Result<(), RuntimeError> {
    match shared.poll_cancel("run-1") {
        CancelStep::Interrupt(turn) => {
            server
                .paths
                .push(interrupt_path_text(&turn.thread_id, &turn.turn_id));
            interrupt(shared, server)
        }
        CancelStep::BeforeTurn => Ok(()),
        CancelStep::Wait => panic!("the turn is being started"),
        CancelStep::Outcome(result) => result,
    }
}

const INTERRUPT: &str = "/v1/threads/thread-fixture/turns/turn-fixture/interrupt";

#[test]
fn kun_interrupt_401_fails_closed_instead_of_claiming_remote_cancel_success() {
    let mut shared = KunTransportState::new();
    let mut server = Server::healthy();
    server.interrupt_status = 401;
    let mut run = reading(&mut shared, &mut server);
    assert_eq!(
        cancel(&mut shared, &mut server),
        Err(RuntimeError::Authentication)
    );
    assert!(
        matches!(
            run.advance(&mut shared, KunInput::Silence, true, false),
            KunAction::Finish(Err(RuntimeError::Authentication))
        ),
        "the stream must retain the shared interrupt failure instead of manufacturing cancelled"
    );
    assert_eq!(
        cancel(&mut shared, &mut server),
        Err(RuntimeError::Authentication),
        "a repeat cancel must reuse the failed remote interrupt outcome"
    );
    assert!(server.paths.iter().any(|path| path == INTERRUPT));
}

#[test]
fn kun_cancel_between_pre_turn_check_and_registration_never_posts_a_turn() {
    let mut shared = KunTransportState::new();
    let mut server = Server::healthy();
    let (mut run, _) = KunRun::new(&request(Some("kun-model-a")), &mut shared, false);
    run.advance(&mut shared, KunInput::Done, false, false);
    let catalog = catalog_from_response(&healthy_catalog(), &None).unwrap();
    run.advance(&mut shared, KunInput::Catalog(catalog), false, false);
    assert_eq!(cancel(&mut shared, &mut server), Ok(()));
    let answer = value(r#"{"id":"thread-fixture"}"#);
    assert!(matches!(
        run.advance(&mut shared, KunInput::Answer(answer), false, false),
        KunAction::Finish(Err(RuntimeError::Cancelled))
    ));
    assert!(
        server.paths.is_empty(),
        "no remote turn means no remote interrupt may be claimed"
    );
}

#[test]
fn kun_successful_interrupt_is_shared_by_repeat_cancel_and_streams_one_cancelled_outcome() {
    let mut shared = KunTransportState::new();
    let mut server = Server::healthy();
    let mut run = reading(&mut shared, &mut server);
    assert_eq!(cancel(&mut shared, &mut server), Ok(()));
    assert_eq!(cancel(&mut shared, &mut server), Ok(()));
    let mut action = run.advance(&mut shared, KunInput::Silence, true, false);
    if let KunAction::Interrupt(_) = action {
        assert!(interrupt(&mut shared, &server).is_ok());
        action = run.advance(&mut shared, KunInput::Done, true, false);
    }
    assert!(matches!(
        action,
        KunAction::Finish(Err(RuntimeError::Cancelled))
    ));
    let interrupts = server.paths.iter().filter(|path| *path == INTERRUPT);
    assert_eq!(interrupts.count(), 1);
    assert!(shared.shutdown().is_empty());
}

#[test]
fn kun_cancel_during_turn_post_interrupts_once_after_turn_exists() {
    let mut shared = KunTransportState::new();
    let mut server = Server::healthy();
    let (mut run, _) = KunRun::new(&request(Some("kun-model-a")), &mut shared, false);
    run.advance(&mut shared, KunInput::Done, false, false);
    let catalog = catalog_from_response(&healthy_catalog(), &None).unwrap();
    run.advance(&mut shared, KunInput::Catalog(catalog), false, false);
    let answer = value(r#"{"id":"thread-fixture"}"#);
    assert!(matches!(
        run.advance(&mut shared, KunInput::Answer(answer), false, false),
        KunAction::Post { .. }
    ));
    assert!(matches!(shared.poll_cancel("run-1"), CancelStep::Wait));
    let answer = value(r#"{"turnId":"turn-fixture"}"#);
    match run.advance(&mut shared, KunInput::Answer(answer), true, false) {
        KunAction::Interrupt(turn) => {
            assert_eq!(turn.turn_id, "turn-fixture");
            server
                .paths
                .push(interrupt_path_text(&turn.thread_id, &turn.turn_id));
        }
        other => panic!("{other:?}"),
    }
    assert_eq!(interrupt(&mut shared, &server), Ok(()));
    assert!(matches!(
        run.advance(&mut shared, KunInput::Done, true, false),
        KunAction::Finish(Err(RuntimeError::Cancelled))
    ));
    assert_eq!(cancel(&mut shared, &mut server), Ok(()));
    assert_eq!(server.paths, vec![INTERRUPT]);
}

#[test]
fn kun_completion_without_delta_recovers_assistant_turn_text() {
    let mut server = Server::healthy();
    server.events = b"data: {\"kind\":\"turn_completed\",\"turnId\":\"turn-fixture\"}\n\n";
    let (events, result) = execute(
        &request(Some("kun-model-a")),
        &mut server,
        &mut KunTransportState::new(),
    );
    assert_eq!(result, Ok(()));
    assert!(events
        .iter()
        .any(|event| event.payload.get_str("delta") == Some("recovered assistant fixture")));
    assert_eq!(
        events.last().map(|event| event.event_type.as_str()),
        Some("execution.completed")
    );
    assert!(server
        .paths
        .iter()
        .any(|path| path == "/v1/threads/thread-fixture/turns/turn-fixture"));
}

#[test]
fn kun_stream_that_ends_without_an_end_of_turn_fails() {
    let mut server = Server::healthy();
    server.events = b"data: {\"kind\":\"assistant_text_delta\",\"turnId\":\"turn-fixture\",\"delta\":\"x\"}\n\n";
    let (events, result) = execute(
        &request(Some("kun-model-a")),
        &mut server,
        &mut KunTransportState::new(),
    );
    assert!(result.is_err());
    assert!(events
        .iter()
        .all(|event| !event.event_type.starts_with("execution.")));
}

fn record(host: &str) -> String {
    format!(
        r#"{{"version":2,"instanceId":"fixture-instance","pid":4711,"startedAt":"2026-08-09T00:00:00.000Z","host":"{host}","port":41000,"baseUrl":"http://{host}:41000","runtimeToken":"{TOKEN}","insecure":false,"serviceVersion":"0.2.34","buildId":"fixture-build","launchMode":"shared"}}"#
    )
}

fn resolved(
    live_instance: &str,
    installed_build: &str,
    installed_version: &str,
) -> Result<KunConnection, RuntimeError> {
    let found = KunRecordRead::read(Some(record("127.0.0.1").as_str()))?
        .on_process(true, "0.2.34", &Vec::new())?
        .on_listener(true, true)?;
    assert_eq!(found.pid(), 4711);
    let metadata = format!(
        r#"{{"buildId":"{installed_build}","serviceVersion":"{installed_version}"}}"#
    );
    let built = found.on_metadata(&vec![(MetadataRead::Content(metadata), true)], &None)?;
    assert_eq!(built.token(), TOKEN);
    let info = value(&format!(
        r#"{{"dataDir":"C:\\data","instanceId":"{live_instance}","pid":4711,"startedAt":"2026-08-09T00:00:00.000Z","serviceVersion":"0.2.34","buildId":"fixture-build","launchMode":"shared"}}"#
    ));
    let reported = built.reported_dir(&info)?;
    built.on_info("C:\\data".into(), &info, &reported, true)
}

#[test]
fn kun_runtime_is_reached_only_after_every_check() {
    let connection = resolved("fixture-instance", "fixture-build", "0.2.34").unwrap();
    assert_eq!(connection.token(), TOKEN);
    assert_eq!(connection.data_dir(), "C:\\data");
    assert_eq!(connection.endpoint().authority(), "127.0.0.1:41000");
    assert_eq!(connection.record().instance_id, "fixture-instance");
    let found = KunRecordRead::read(Some(record("127.0.0.1").as_str())).unwrap();
    assert_eq!(found.pid(), 4711);
    assert!(found.on_process(false, "0.2.34", &Vec::new()).is_err());
    assert!(KunRecordRead::read(None).is_err());
    assert!(KunRecordRead::read(Some("{")).is_err());
    let foreign = KunRecordRead::read(Some(record("127.0.0.1").as_str()))
        .unwrap()
        .on_process(true, "0.2.34", &Vec::new())
        .unwrap()
        .on_listener(false, true);
    assert!(foreign.is_err());
}

#[test]
fn kun_rejects_hostile_hostname_before_any_runtime_token_is_sent() {
    let found = KunRecordRead::read(Some(record("127.example.com").as_str())).unwrap();
    assert_eq!(
        found.on_process(true, "0.2.34", &Vec::new()).err(),
        Some(RuntimeError::Protocol(KUN_RUNTIME_IDENTITY_MISMATCH.into()))
    );
}

#[test]
fn kun_runtime_build_metadata_must_match_live_rendezvous_identity() {
    assert_eq!(
        resolved("fixture-instance", "different-build", "0.2.34").err(),
        Some(RuntimeError::Protocol(KUN_RUNTIME_IDENTITY_MISMATCH.into()))
    );
    assert_eq!(
        resolved("fixture-instance", "fixture-build", "0.2.33").err(),
        Some(RuntimeError::Protocol(KUN_RUNTIME_IDENTITY_MISMATCH.into()))
    );
}

#[test]
fn kun_paths_and_identifiers_are_checked() {
    assert_eq!(
        events_path_text("a b"),
        "/v1/threads/a%20b/events?since_seq=0"
    );
    assert!(valid_kun_build_id("fixture-build"));
    assert!(!valid_kun_build_id(" x"));
    assert_eq!(
        kun_data_dir(&Some("c".into()), &Some("n".into()), &None, "l"),
        "c"
    );
    assert!(retry_pause(&RuntimeError::Authentication, Some(1_000_000_000)).is_none());
    assert!(recover_assistant_text(&value(r#"{"items":[]}"#)).is_err());
}

#[test]
fn kun_shutdown_tells_the_first_failure() {
    assert_eq!(shutdown_result(&vec![Ok(()), Ok(())], false), Ok(()));
    assert_eq!(
        shutdown_result(
            &vec![
                Ok(()),
                Err(RuntimeError::Authentication),
                Err(RuntimeError::Timeout)
            ],
            false
        ),
        Err(RuntimeError::Authentication)
    );
    assert_eq!(
        shutdown_result(&vec![Ok(())], true),
        Err(RuntimeError::Timeout)
    );
    let mut shared = KunTransportState::new();
    shared.turn_started(
        "run-1",
        KunTurn {
            thread_id: "t".into(),
            turn_id: "u".into(),
        },
    );
    assert_eq!(shared.shutdown().len(), 1);
    assert!(shared.active_turn("run-1").is_none());
}
