use runtime_host::adapters::{
    AcpMockRuntime, ConfiguredAdapter, HttpCustomRuntime, MockRuntime, OpenAiCompatibleRuntime,
    RuntimeAdapter, UnconfiguredRuntime,
};
use runtime_host::error::{RuntimeError, RuntimeErrorClass};
use runtime_host::event::{RuntimeRequest, WorkspaceAccess, DEFAULT_RUNTIME_TIMEOUT_MS};
use runtime_host::stream::RuntimeEventStreamState;

fn request_with_model(access: WorkspaceAccess, cwd: Option<&str>, model_id: &str) -> RuntimeRequest {
    RuntimeRequest {
        execution_run_id: "run-1".into(),
        agent_identity_id: "agent-1".into(),
        connector_id: "mock".into(),
        model_id: Some(model_id.into()),
        context_manifest_id: "manifest-1".into(),
        rendered_context: "fixture context".into(),
        canonical_cwd: cwd.map(str::to_owned),
        workspace_access: access,
        timeout_ms: DEFAULT_RUNTIME_TIMEOUT_MS,
        thread_policy: "per-run".into(),
        signed_scope: "local-fixture-scope".into(),
    }
}

fn request(access: WorkspaceAccess, cwd: Option<&str>) -> RuntimeRequest {
    request_with_model(access, cwd, "mock-default")
}

#[test]
fn unconfigured_runtime_is_unavailable_and_never_executes() {
    let runtime = UnconfiguredRuntime;
    assert_eq!(runtime.health().status, "unavailable");
    assert!(runtime.list_models().is_empty());
    assert_eq!(
        runtime.execute(&request(WorkspaceAccess::NoAccess, None)),
        Err(RuntimeError::NotConfigured)
    );
    assert_eq!(
        runtime.classify_error(&RuntimeError::Authentication),
        RuntimeErrorClass::Authentication
    );
    assert_eq!(
        runtime.classify_error(&RuntimeError::Provider("provider_error".into())),
        RuntimeErrorClass::Provider
    );
}

#[test]
fn unconfigured_runtime_cannot_be_used() {
    let runtime = UnconfiguredRuntime;
    assert_eq!(
        runtime.ensure_available(),
        Err(RuntimeError::Transport("runtime_unavailable".into()))
    );
    assert_eq!(runtime.list_models_checked(), Ok(Vec::new()));
    assert_eq!(runtime.version().as_deref(), Some("unconfigured-v1"));
    assert_eq!(runtime.usage().cost_micros, None);
    assert_eq!(runtime.shutdown_owned(), Ok(()));
    assert_eq!(
        runtime.stream_script(&request(WorkspaceAccess::NoAccess, None)),
        Err(RuntimeError::Unsupported)
    );
}

#[test]
fn mock_runtime_is_deterministic_and_streams_terminal_event() {
    let events = MockRuntime::default()
        .execute(&request(WorkspaceAccess::NoAccess, None))
        .unwrap();
    assert_eq!(events.first().unwrap().event_type, "runtime.started");
    assert_eq!(events.last().unwrap().event_type, "execution.completed");
    assert_eq!(
        events
            .iter()
            .filter(|event| event.event_type == "output.delta")
            .count(),
        2
    );
}

#[test]
fn mock_runtime_rejects_cwd_when_permission_is_none() {
    assert_eq!(
        MockRuntime::default().execute(&request(WorkspaceAccess::NoAccess, Some("C:\\forbidden"))),
        Err(RuntimeError::InvalidWorkspace)
    );
    assert_eq!(
        MockRuntime::default()
            .stream_script(&request(WorkspaceAccess::NoAccess, Some("C:\\forbidden"))),
        Err(RuntimeError::InvalidWorkspace)
    );
}

#[test]
fn mock_stream_is_deterministic_bounded_and_terminal() {
    let runtime = MockRuntime {
        chunks: vec!["a".into(), "b".into(), "c".into()],
    };
    let mut stream = RuntimeEventStreamState::with_capacity(1).unwrap();
    let mut events = Vec::new();
    for event in runtime
        .stream_script(&request(WorkspaceAccess::NoAccess, None))
        .unwrap()
    {
        stream.try_push(event).unwrap();
        assert!(stream.buffered_len() <= stream.capacity());
        events.push(stream.try_next().unwrap().unwrap().event_type);
    }
    assert_eq!(stream.try_next(), Ok(None));
    assert_eq!(
        events,
        vec![
            "runtime.started",
            "output.delta",
            "output.delta",
            "output.delta",
            "execution.completed"
        ]
    );
}

#[test]
fn mock_runtime_tells_its_models_and_its_version() {
    let runtime = MockRuntime::default();
    assert_eq!(runtime.id(), "mock");
    assert_eq!(runtime.list_models(), vec!["mock-default"]);
    assert_eq!(
        runtime.catalog_default_model_id().as_deref(),
        Some("mock-default")
    );
    assert_eq!(runtime.version().as_deref(), Some("mock-1"));
    assert_eq!(runtime.ensure_available(), Ok(()));
    let cancelled = runtime
        .cancel(&request(WorkspaceAccess::NoAccess, None))
        .unwrap();
    assert_eq!(cancelled.event_id, "cancelled-run-1");
    assert_eq!(cancelled.payload.get_str("reason"), Some("user_cancelled"));
}

#[test]
fn fixture_adapters_do_not_claim_live_stream_transport() {
    let request = request(WorkspaceAccess::ReadOnly, None);
    assert!(matches!(
        OpenAiCompatibleRuntime::new("model-a".into()).stream_script(&request),
        Err(RuntimeError::Unsupported)
    ));
    assert!(matches!(
        HttpCustomRuntime::new("model-a".into()).stream_script(&request),
        Err(RuntimeError::Unsupported)
    ));
}

#[test]
fn openai_compatible_fixture_stream_emits_deltas_and_rejects_write_scope() {
    let runtime = OpenAiCompatibleRuntime::new("model-a".into());
    let read_only_request = request(WorkspaceAccess::ReadOnly, None);
    let events = runtime
        .execute_from_sse(
            &read_only_request,
            &[
                "data: {\"choices\":[{\"delta\":{\"content\":\"A\"}}]}\n\n",
                "data: {\"output_text\":\"B\"}\n\ndata: [DONE]\n\n",
            ],
        )
        .unwrap();
    assert_eq!(
        events
            .iter()
            .filter(|event| event.event_type == "output.delta")
            .count(),
        2
    );
    assert_eq!(
        events.last().unwrap().payload.get_str("output"),
        Some("AB")
    );
    assert_eq!(
        runtime.execute_from_sse(&request(WorkspaceAccess::WorkspaceWrite, None), &[]),
        Err(RuntimeError::Permission)
    );
}

#[test]
fn openai_compatible_stream_requires_done_terminal_event() {
    let runtime = OpenAiCompatibleRuntime::new("gpt-test".into());
    let request = RuntimeRequest {
        execution_run_id: "run-openai-truncated".into(),
        agent_identity_id: "agent-1".into(),
        connector_id: "openai-compatible".into(),
        model_id: Some("gpt-test".into()),
        context_manifest_id: "manifest-1".into(),
        rendered_context: "hello".into(),
        canonical_cwd: None,
        workspace_access: WorkspaceAccess::NoAccess,
        timeout_ms: DEFAULT_RUNTIME_TIMEOUT_MS,
        thread_policy: "per-run".into(),
        signed_scope: "local-fixture-scope".into(),
    };
    let result = runtime.execute_from_sse(
        &request,
        &[
            r#"data: {"choices":[{"delta":{"content":"partial"}}]}"#,
            "\n\n",
        ],
    );
    assert!(matches!(
        result,
        Err(RuntimeError::Protocol(message)) if message.contains("without [DONE]")
    ));
}

#[test]
fn deferred_runtime_adapters_report_unverified_without_silent_capability_escalation() {
    let request = request(WorkspaceAccess::WorkspaceWrite, Some("C:\\workspace"));
    let kun = ConfiguredAdapter::kun();
    assert_eq!(kun.health().status, "unverified");
    assert!(kun.capabilities().filesystem);
    assert_eq!(kun.cancel(&request), Err(RuntimeError::Unsupported));
    assert_eq!(
        ConfiguredAdapter::http_custom().execute(&request),
        Err(RuntimeError::Permission)
    );
    assert_eq!(
        OpenAiCompatibleRuntime::new("gpt-test".into()).cancel(&request),
        Err(RuntimeError::Unsupported)
    );
    assert_eq!(
        ConfiguredAdapter::acp_mock().discover().version.as_deref(),
        Some("mock-contract-v1")
    );
}

#[test]
fn configured_adapters_have_their_ids() {
    assert_eq!(ConfiguredAdapter::kun().id(), "kun");
    assert_eq!(ConfiguredAdapter::codex().id(), "codex");
    assert_eq!(ConfiguredAdapter::http_custom().id(), "http-custom");
    assert_eq!(
        ConfiguredAdapter::openai_compatible().id(),
        "openai-compatible"
    );
    assert_eq!(ConfiguredAdapter::acp_mock().id(), "acp-mock");
}

#[test]
fn http_custom_fixture_requires_terminal_and_preserves_permission_boundary() {
    let runtime = HttpCustomRuntime::new("custom-model".into());
    let events = runtime
        .execute_from_json(
            &request(WorkspaceAccess::ReadOnly, None),
            r#"{"events":[{"type":"output.delta","delta":"A"},{"type":"execution.completed"}]}"#,
        )
        .unwrap();
    assert_eq!(events.last().unwrap().event_type, "execution.completed");
    assert_eq!(events[1].payload.get_str("delta"), Some("A"));
    assert!(matches!(
        runtime.execute_from_json(
            &request(WorkspaceAccess::ReadOnly, None),
            r#"{"outputText":"partial"}"#,
        ),
        Err(RuntimeError::Protocol(message)) if message.contains("terminal")
    ));
    assert_eq!(
        runtime.execute_from_json(
            &request(WorkspaceAccess::WorkspaceWrite, None),
            r#"{"completed":true}"#,
        ),
        Err(RuntimeError::Permission)
    );
    assert_eq!(
        runtime.cancel(&request(WorkspaceAccess::ReadOnly, None)),
        Err(RuntimeError::Unsupported)
    );
}

#[test]
fn acp_mock_fixture_maps_stream_and_terminal_contract() {
    let runtime = AcpMockRuntime::new(vec!["hello ".into(), "acp".into()]);
    let events = runtime
        .execute(&request(WorkspaceAccess::NoAccess, None))
        .unwrap();
    assert_eq!(events[0].event_type, "runtime.started");
    assert_eq!(events.last().unwrap().event_type, "execution.completed");
    assert_eq!(
        events
            .iter()
            .filter(|event| event.event_type == "output.delta")
            .count(),
        2
    );
    assert!(matches!(
        runtime.execute_from_fixture(
            &request(WorkspaceAccess::NoAccess, None),
            r#"[{"kind":"session.started"},{"kind":"output.delta","delta":"partial"}]"#,
        ),
        Err(RuntimeError::Protocol(message)) if message.contains("terminal")
    ));
    assert_eq!(
        runtime
            .cancel(&request(WorkspaceAccess::NoAccess, None))
            .unwrap()
            .event_type,
        "execution.cancelled"
    );
}

#[test]
fn acp_mock_plays_one_piece_of_its_own_when_it_has_none() {
    let runtime = AcpMockRuntime::default();
    let script = runtime
        .stream_script(&request(WorkspaceAccess::NoAccess, None))
        .unwrap();
    assert_eq!(script.len(), 3);
    assert_eq!(script[1].payload.get_str("delta"), Some("acp mock output"));
    assert_eq!(script[2].timestamp_ms, 2);
    let quoted = AcpMockRuntime::new(vec!["say \"hi\"".into()]);
    let events = quoted
        .execute(&request(WorkspaceAccess::NoAccess, None))
        .unwrap();
    assert_eq!(events[1].payload.get_str("delta"), Some("say \"hi\""));
    let odd = "\u{8}\t\n\u{c}\r\u{1f}\u{0}\\ / \u{7f} 中🙂";
    let events = AcpMockRuntime::new(vec![odd.into()])
        .execute(&request(WorkspaceAccess::NoAccess, None))
        .unwrap();
    assert_eq!(events[1].payload.get_str("delta"), Some(odd));
}
