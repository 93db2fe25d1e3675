use std::cell::RefCell;
use std::rc::Rc;

use runtime_host::catalog::{RuntimeModelCatalog, RuntimeModelMetadata};
use runtime_host::error::RuntimeError;
use runtime_host::event::{
    connector_started_event, runtime_started_event, RuntimeCapabilities, RuntimeDiscovery,
    RuntimeEvent, RuntimeRequest, WorkspaceAccess, DEFAULT_RUNTIME_TIMEOUT_MS,
};
use runtime_host::json::Json;
use runtime_host::runtimes::{
    CodexAppServerRuntime, ConnectorRuntimeTransport, FixtureConnectorTransport, KunSharedRuntime,
    KunSharedRuntimeConfig, ReplayStep, TransportBackedRuntime,
};

fn request_with_model(access: WorkspaceAccess, cwd: Option<&str>, model_id: &str) -> RuntimeRequest {
    RuntimeRequest {
        execution_run_id: "run-1".into(),
        agent_identity_id: "agent-1".into(),
        connector_id: "mock".into(),
        model_id: Some(model_id.into()),
        context_manifest_id: "manifest-1".into(),
        rendered_context: "fixture context".into(),
        canonical_cwd: cwd.map(str::to_owned),
        workspace_access: access,
        timeout_ms: DEFAULT_RUNTIME_TIMEOUT_MS,
        thread_policy: "per-run".into(),
        signed_scope: "local-fixture-scope".into(),
    }
}

/// Runs a recording through a stream, and gives the events that came out of it.
fn streamed(
    runtime: &mut TransportBackedRuntime<FixtureConnectorTransport>,
    request: &RuntimeRequest,
    capacity: usize,
) -> Result<Vec<RuntimeEvent>, RuntimeError> {
    let mut stream = runtime.begin_stream(request, capacity, 1)?;
    let mut replay = runtime.transport().replay(request)?;
    let mut events = Vec::new();
    loop {
        match replay.advance(false) {
            ReplayStep::Push(event) => {
                stream.try_push(event)?;
                events.push(stream.try_next()?.expect("an event was pushed"));
            }
            ReplayStep::Cancelled => panic!("nobody cancelled"),
            ReplayStep::Done => break,
        }
    }
    stream.finish()?;
    assert_eq!(stream.try_next(), Ok(None));
    runtime.stream_over(&request.execution_run_id);
    Ok(events)
}

#[test]
fn codex_app_server_fixture_supports_ndjson_stream_and_safe_provider_failure() {
    let fixture = r#"
{"method":"thread.started"}
{"method":"item/agentMessage/delta","params":{"delta":"hello"}}
{"method":"turn.completed"}
"#;
    let mut runtime = CodexAppServerRuntime::from_fixture("gpt-test".into(), fixture.into());
    assert_eq!(runtime.inner.health().status, "available");
    let request = request_with_model(WorkspaceAccess::NoAccess, None, "gpt-test");
    let events = runtime.inner.execute(&request).unwrap();
    assert_eq!(events[2].payload.get_str("delta"), Some("hello"));
    assert_eq!(events.last().unwrap().event_type, "execution.completed");

    let event_types = streamed(&mut runtime.inner, &request, 1)
        .unwrap()
        .into_iter()
        .map(|event| event.event_type)
        .collect::<Vec<_>>();
    assert_eq!(
        event_types,
        vec![
            "connector.started",
            "runtime.started",
            "output.delta",
            "execution.completed"
        ]
    );
    assert_eq!(
        runtime.inner.cancel(&request).unwrap().0.event_type,
        "execution.cancelled"
    );

    let failed = runtime
        .execute_from_fixture(
            &request,
            r#"[{"type":"provider.error","message":"secret must not persist"}]"#,
        )
        .unwrap();
    assert_eq!(failed.last().unwrap().event_type, "execution.failed");
    assert_eq!(
        failed.last().unwrap().payload,
        Json::Object(vec![("reason".into(), Json::Text("provider_error".into()))])
    );
    assert!(!format!("{failed:?}").contains("secret"));
}

#[test]
fn kun_shared_runtime_rejects_missing_terminal_and_write_scope_is_explicit() {
    let runtime = KunSharedRuntime::from_fixture(
        "kun-model".into(),
        r#"[{"kind":"output.delta","delta":"partial"}]"#.into(),
    );
    assert!(matches!(
        runtime.inner.execute(&request_with_model(WorkspaceAccess::NoAccess, None, "kun-model")),
        Err(RuntimeError::Protocol(message)) if message.contains("terminal")
    ));
    let runtime = KunSharedRuntime::from_fixture(
        "kun-model".into(),
        r#"[{"kind":"output.delta","delta":"write"},{"kind":"turn.completed"}]"#.into(),
    );
    assert!(runtime
        .inner
        .execute(&request_with_model(
            WorkspaceAccess::WorkspaceWrite,
            Some("C:\\workspace"),
            "kun-model",
        ))
        .is_ok());
}

#[derive(Clone)]
struct RecordingTransport {
    runtime_id: &'static str,
    calls: Rc<RefCell<Vec<&'static str>>>,
    owned: bool,
}

impl RecordingTransport {
    fn new(runtime_id: &'static str, owned: bool) -> Self {
        Self {
            runtime_id,
            calls: Rc::new(RefCell::new(Vec::new())),
            owned,
        }
    }

    fn calls(&self) -> Vec<&'static str> {
        self.calls.borrow().clone()
    }

    fn record(&self, operation: &'static str) {
        self.calls.borrow_mut().push(operation);
    }

    fn stream(&self, request: &RuntimeRequest) -> Vec<RuntimeEvent> {
        self.record("stream");
        vec![
            connector_started_event(
                self.runtime_id,
                request,
                Some("thread-fixture".into()),
                Some("turn-fixture".into()),
            ),
            runtime_started_event(
                self.runtime_id,
                "recording-transport",
                request,
                Some("thread-fixture".into()),
                Some("turn-fixture".into()),
            ),
        ]
    }
}

impl ConnectorRuntimeTransport for RecordingTransport {
    fn runtime_id(&self) -> &'static str {
        self.runtime_id
    }

    fn owned(&self) -> bool {
        self.owned
    }

    fn discover(&self) -> Result<RuntimeDiscovery, RuntimeError> {
        self.record("discover");
        Ok(RuntimeDiscovery {
            runtime_id: self.runtime_id.into(),
            version: Some("fixture-transport-v1".into()),
            owned: self.owned,
        })
    }

    fn list_models(&self) -> Result<RuntimeModelCatalog, RuntimeError> {
        self.record("list_models");
        Ok(RuntimeModelCatalog {
            models: vec![format!("{}-model", self.runtime_id)],
            revision: Some("7".into()),
            default_model_id: Some(format!("{}-model", self.runtime_id)),
            model_metadata: vec![RuntimeModelMetadata {
                model_id: format!("{}-model", self.runtime_id),
                available: true,
                enabled: true,
                status: Some("available".into()),
                capabilities: RuntimeCapabilities {
                    streaming: true,
                    cancel: true,
                    filesystem: false,
                    shell: false,
                },
            }],
        })
    }

    fn cancel(&self, _request: &RuntimeRequest) -> Result<(), RuntimeError> {
        self.record("cancel");
        Ok(())
    }

    fn shutdown_owned(&self) -> Result<(), RuntimeError> {
        self.record("shutdown_owned");
        Ok(())
    }
}

#[test]
fn transport_backed_constructor_is_lazy_and_accepts_profile_connector_ids() {
    let transport = RecordingTransport::new("codex", true);
    let mut runtime = CodexAppServerRuntime::with_transport(transport.clone());
    assert!(
        transport.calls().is_empty(),
        "construction must not probe I/O"
    );

    assert_eq!(runtime.inner.list_models(), vec!["codex-model"]);
    assert_eq!(runtime.catalog_revision().as_deref(), Some("7"));
    assert_eq!(transport.calls(), vec!["list_models"]);

    let mut request = request_with_model(WorkspaceAccess::ReadOnly, None, "codex-model");
    request.connector_id = "profile-codex-uuid".into();
    let mut stream = runtime
        .inner
        .begin_stream(&request, 4, 1)
        .expect("Core-selected adapter must accept a non-literal profile id");
    for event in runtime.inner.transport().stream(&request) {
        stream.try_push(event).unwrap();
    }
    assert_eq!(
        stream
            .try_next()
            .expect("fixture event")
            .expect("connector started")
            .event_type,
        "connector.started"
    );
    assert_eq!(stream.cancel(), Ok(true), "cancel bounded fixture stream");
    runtime.inner.cancel(&request).expect("cancel the run");
    let calls = transport.calls();
    assert!(calls.contains(&"stream"));
    assert!(calls.contains(&"cancel"));
}

#[test]
fn owned_transport_cancel_and_shutdown_are_bounded_and_local() {
    let transport = RecordingTransport::new("codex", true);
    let mut runtime = CodexAppServerRuntime::with_transport(transport.clone());
    let mut request = request_with_model(WorkspaceAccess::ReadOnly, None, "codex-model");
    request.connector_id = "profile-codex-uuid".into();
    let mut stream = runtime.inner.begin_stream(&request, 4, 9).unwrap();
    for event in runtime.inner.transport().stream(&request) {
        stream.try_push(event).unwrap();
    }
    assert_eq!(
        stream.try_next().unwrap().unwrap().event_type,
        "connector.started"
    );
    assert_eq!(
        stream.try_next().unwrap().unwrap().event_type,
        "runtime.started"
    );
    let (event, worker) = runtime.inner.cancel(&request).unwrap();
    assert_eq!(event.event_type, "execution.cancelled");
    assert_eq!(worker, Some(9));
    assert_eq!(
        stream.fail(RuntimeError::Cancelled),
        Err(RuntimeError::Cancelled)
    );
    assert_eq!(stream.try_next(), Err(RuntimeError::Cancelled));
    let (workers, answer) = runtime.inner.shutdown_owned();
    assert_eq!(workers, vec![9]);
    answer.unwrap();
    let calls = transport.calls();
    assert!(calls.contains(&"stream"));
    assert!(calls.contains(&"cancel"));
    assert!(calls.contains(&"shutdown_owned"));
}

#[test]
fn connector_remembers_what_its_transport_said() {
    let mut runtime = KunSharedRuntime::from_fixture_models(
        vec![" b ".into(), "a".into(), "".into()],
        "[]".into(),
    );
    assert_eq!(runtime.catalog_revision(), None);
    assert_eq!(runtime.inner.list_models_checked(), Ok(vec!["a".into(), "b".into()]));
    assert_eq!(runtime.catalog_revision().as_deref(), Some("fixture"));
    assert_eq!(runtime.inner.catalog_revision(), None);
    assert_eq!(runtime.inner.catalog_default_model_id().as_deref(), Some("b"));
    assert!(runtime.inner.catalog_model_metadata("a").unwrap().available);
    assert!(runtime.inner.catalog_model_metadata("c").is_none());
    assert_eq!(runtime.inner.id(), "kun");
    assert_eq!(
        runtime.inner.discover().version.as_deref(),
        Some("shared-runtime-fixture-v0.2.34")
    );
    assert_eq!(runtime.inner.ensure_available(), Ok(()));
    assert_eq!(runtime.inner.transport().runtime_id(), "kun");
}

struct BrokenTransport;

impl ConnectorRuntimeTransport for BrokenTransport {
    fn runtime_id(&self) -> &'static str {
        "kun"
    }

    fn owned(&self) -> bool {
        false
    }

    fn discover(&self) -> Result<RuntimeDiscovery, RuntimeError> {
        Err(RuntimeError::Authentication)
    }

    fn list_models(&self) -> Result<RuntimeModelCatalog, RuntimeError> {
        Ok(RuntimeModelCatalog {
            models: vec!["  ".into()],
            revision: Some("3".into()),
            default_model_id: None,
            model_metadata: Vec::new(),
        })
    }

    fn cancel(&self, _request: &RuntimeRequest) -> Result<(), RuntimeError> {
        Err(RuntimeError::TransportClosed)
    }

    fn shutdown_owned(&self) -> Result<(), RuntimeError> {
        Ok(())
    }
}

#[test]
fn connector_fails_closed_with_its_transport() {
    let mut runtime = KunSharedRuntime::with_transport(BrokenTransport);
    assert_eq!(runtime.inner.discover().owned, false);
    let health = runtime.inner.health();
    assert_eq!(health.status, "unavailable");
    assert_eq!(health.runtime_id, "kun");
    assert_eq!(
        health.detail.as_deref(),
        Some("runtime_authentication_failed")
    );
    assert_eq!(
        runtime.inner.list_models_checked(),
        Err(RuntimeError::Transport("kun_catalog_unavailable".into()))
    );
    assert_eq!(runtime.catalog_revision(), None);
    let mut request = request_with_model(WorkspaceAccess::ReadOnly, None, "m");
    assert_eq!(
        runtime.inner.cancel(&request),
        Err(RuntimeError::TransportClosed)
    );
    request.connector_id = "  ".into();
    assert_eq!(
        runtime.inner.cancel(&request),
        Err(RuntimeError::Protocol("connector_id_required".into()))
    );
    request.connector_id = "profile".into();
    assert!(matches!(
        runtime.inner.begin_stream(&request, 0, 1),
        Err(RuntimeError::InvalidStreamCapacity)
    ));
    request.workspace_access = WorkspaceAccess::NoAccess;
    request.canonical_cwd = Some("C:\\x".into());
    assert!(matches!(
        runtime.inner.begin_stream(&request, 1, 1),
        Err(RuntimeError::InvalidWorkspace)
    ));
}

#[test]
fn recording_stops_where_it_is_cancelled() {
    let runtime = CodexAppServerRuntime::from_fixture_models_with_delay(
        vec!["m".into()],
        r#"[{"kind":"output.delta","delta":"x"},{"kind":"turn.completed"}]"#.into(),
        40_000_000,
    );
    let request = request_with_model(WorkspaceAccess::NoAccess, None, "m");
    let mut replay = runtime.inner.transport().replay(&request).unwrap();
    assert_eq!(replay.pause_ns(), 40_000_000);
    assert!(matches!(replay.advance(false), ReplayStep::Push(_)));
    assert!(matches!(replay.advance(true), ReplayStep::Cancelled));
}

#[test]
fn constructors_record_their_configuration_only() {
    let codex = CodexAppServerRuntime::new("  gpt  ");
    assert_eq!(
        codex.inner.transport().default_model.as_deref(),
        Some("gpt")
    );
    assert_eq!(codex.inner.transport().request_timeout_ns, 120_000_000_000);
    let kun = KunSharedRuntime::new("\u{7}");
    assert_eq!(kun.inner.transport().default_model, None);
    assert_eq!(kun.inner.transport().expected_service_version, "0.2.34");
    let mut config = KunSharedRuntimeConfig::default();
    config.data_dir = Some("d".into());
    let kun = KunSharedRuntime::with_config(config);
    assert_eq!(kun.inner.transport().data_dir.as_deref(), Some("d"));
}
