use std::collections::HashMap;

use runtime_host::catalog::{CatalogPager, RuntimeModelCatalog};
use runtime_host::codex::{interrupt_request, CodexAction, CodexInput, CodexRun};
use runtime_host::codex_launch::{
    choose_binary, codex_arguments, codex_child_environment_values, newest_version,
};
use runtime_host::deadline::TransportDeadline;
use runtime_host::error::{
    class_of_error, connector_runtime_failure, safe_runtime_error_code, ConnectorRuntimeFailure,
    RuntimeError, RuntimeErrorClass, CODEX_MODEL_UNAVAILABLE,
};
use runtime_host::event::{
    bounded_request_timeout, RuntimeEvent, RuntimeRequest, WorkspaceAccess,
    DEFAULT_RUNTIME_TIMEOUT_MS,
};
use runtime_host::json::{encode_json, parse_json, Json};
use runtime_host::rpc::{
    append_diagnostic, codex_server_request_response, initialize_params, read_stdio_line,
    reply_to_server_request, request_json, rpc_message, server_version_of, Backlog,
    CodexServerRequestResponse, RpcStep, StdioLine,
};

fn request(model_id: Option<&str>, cwd: Option<&str>) -> RuntimeRequest {
    RuntimeRequest {
        execution_run_id: "run-1".into(),
        agent_identity_id: "agent-1".into(),
        connector_id: "desktop-codex-profile".into(),
        model_id: model_id.map(str::to_owned),
        context_manifest_id: "manifest-1".into(),
        rendered_context: "fixture context".into(),
        canonical_cwd: cwd.map(str::to_owned),
        workspace_access: WorkspaceAccess::ReadOnly,
        timeout_ms: DEFAULT_RUNTIME_TIMEOUT_MS,
        thread_policy: "per-run".into(),
        signed_scope: "local-fixture-scope".into(),
    }
}

fn value(text: &str) -> Json {
    parse_json(text).unwrap()
}

fn catalog(models: &[&str]) -> RuntimeModelCatalog {
    RuntimeModelCatalog {
        models: models.iter().map(|model| model.to_string()).collect(),
        revision: None,
        default_model_id: None,
        model_metadata: Vec::new(),
    }
}

fn started() -> (CodexRun, Vec<RuntimeEvent>) {
    let (mut run, action) =
        CodexRun::new(&request(Some("codex-model-a"), Some("C:\\workspace")), false);
    assert!(matches!(action, CodexAction::LoadCatalog));
    let action = run.advance(
        CodexInput::Catalog(catalog(&["codex-model-a"])),
        false,
        false,
    );
    assert!(matches!(action, CodexAction::OpenSession));
    match run.advance(CodexInput::Done, false, false) {
        CodexAction::Call { method, params } => {
            assert_eq!(method, "thread/start");
            assert_eq!(
                params,
                value(
                    r#"{"approvalPolicy":"never","cwd":"C:\\workspace","ephemeral":true,"model":"codex-model-a","sandbox":"read-only"}"#
                )
            );
        }
        other => panic!("{other:?}"),
    }
    let answer = value(r#"{"id":"thread-fixture"}"#);
    match run.advance(CodexInput::Answer(answer), false, false) {
        CodexAction::Call { method, params } => {
            assert_eq!(method, "turn/start");
            assert_eq!(
                params,
                value(
                    r#"{"input":[{"text":"fixture context","type":"text"}],"threadId":"thread-fixture"}"#
                )
            );
        }
        other => panic!("{other:?}"),
    }
    let answer = value(r#"{"turn":{"id":"turn-fixture"}}"#);
    let events = match run.advance(CodexInput::Answer(answer), false, false) {
        CodexAction::Emit(events) => events,
        other => panic!("{other:?}"),
    };
    assert_eq!(
        run.active(),
        Some(("thread-fixture".into(), "turn-fixture".into()))
    );
    assert!(matches!(
        run.advance(CodexInput::Done, false, false),
        CodexAction::Receive
    ));
    (run, events)
}

#[test]
fn codex_run_streams_from_started_to_completed() {
    let (mut run, events) = started();
    assert_eq!(
        events
            .iter()
            .map(|event| event.event_type.as_str())
            .collect::<Vec<_>>(),
        vec!["connector.started", "runtime.started"]
    );
    assert_eq!(events[1].payload.get_str("source"), Some("codex-app-server"));

    let asked = value(r#"{"jsonrpc":"2.0","id":"server-1","method":"applyPatchApproval","params":{}}"#);
    match run.advance(CodexInput::Message(asked), false, false) {
        CodexAction::Reply(reply) => assert_eq!(
            reply,
            value(r#"{"id":"server-1","jsonrpc":"2.0","result":{"decision":"abort"}}"#)
        ),
        other => panic!("{other:?}"),
    }
    assert!(matches!(
        run.advance(CodexInput::Done, false, false),
        CodexAction::Receive
    ));

    let retried = value(
        r#"{"method":"error","params":{"threadId":"thread-fixture","turnId":"turn-fixture","willRetry":true}}"#,
    );
    assert!(matches!(
        run.advance(CodexInput::Message(retried), false, false),
        CodexAction::Receive
    ));

    let foreign = value(
        r#"{"method":"item/agentMessage/delta","params":{"threadId":"other","turnId":"turn-fixture","delta":"no"}}"#,
    );
    assert!(matches!(
        run.advance(CodexInput::Message(foreign), false, false),
        CodexAction::Receive
    ));

    let delta = value(
        r#"{"method":"item/agentMessage/delta","params":{"threadId":"thread-fixture","turnId":"turn-fixture","delta":"hello from codex fixture"}}"#,
    );
    match run.advance(CodexInput::Message(delta), false, false) {
        CodexAction::Emit(events) => {
            assert_eq!(events.len(), 1);
            assert_eq!(
                events[0].payload.get_str("delta"),
                Some("hello from codex fixture")
            );
        }
        other => panic!("{other:?}"),
    }
    assert!(matches!(
        run.advance(CodexInput::Done, false, false),
        CodexAction::Receive
    ));

    let completed = value(
        r#"{"method":"turn/completed","params":{"threadId":"thread-fixture","turnId":"turn-fixture","turn":{"id":"turn-fixture","status":"completed"}}}"#,
    );
    match run.advance(CodexInput::Message(completed), false, false) {
        CodexAction::Emit(events) => assert_eq!(events[0].event_type, "execution.completed"),
        other => panic!("{other:?}"),
    }
    assert!(matches!(
        run.advance(CodexInput::Done, false, false),
        CodexAction::Finish(Ok(()))
    ));
}

#[test]
fn codex_final_error_fails_the_run() {
    let (mut run, _) = started();
    let failed = value(
        r#"{"method":"error","params":{"threadId":"thread-fixture","turnId":"turn-fixture","willRetry":false,"error":{"message":"final fixture failure"}}}"#,
    );
    match run.advance(CodexInput::Message(failed), false, false) {
        CodexAction::Emit(events) => {
            assert_eq!(events[0].event_type, "execution.failed");
            assert_eq!(events[0].payload.get_str("reason"), Some("provider_error"));
            assert!(!format!("{events:?}").contains("final fixture failure"));
        }
        other => panic!("{other:?}"),
    }
}

#[test]
fn codex_run_is_interrupted_when_cancelled_or_late() {
    for (cancelled, expired, reason) in [
        (true, false, RuntimeError::Cancelled),
        (true, true, RuntimeError::Cancelled),
        (false, true, RuntimeError::Timeout),
    ] {
        let (mut run, _) = started();
        match run.advance(CodexInput::Silence, cancelled, expired) {
            CodexAction::Interrupt {
                thread_id,
                turn_id,
                error,
            } => {
                assert_eq!(thread_id, "thread-fixture");
                assert_eq!(turn_id, "turn-fixture");
                assert_eq!(error, reason);
            }
            other => panic!("{other:?}"),
        }
        assert_eq!(run.active(), None);
    }
    let (mut run, _) = started();
    assert!(matches!(
        run.advance(
            CodexInput::Failed(RuntimeError::TransportClosed),
            false,
            false
        ),
        CodexAction::Finish(Err(RuntimeError::TransportClosed))
    ));
    assert_eq!(
        interrupt_request(4, "thread-fixture", "turn-fixture"),
        value(
            r#"{"id":4,"jsonrpc":"2.0","method":"turn/interrupt","params":{"threadId":"thread-fixture","turnId":"turn-fixture"}}"#
        )
    );
}

#[test]
fn codex_run_needs_a_workspace_and_a_listed_model() {
    assert!(matches!(
        CodexRun::new(&request(Some("m"), None), false).1,
        CodexAction::Finish(Err(RuntimeError::InvalidWorkspace))
    ));
    assert!(matches!(
        CodexRun::new(&request(None, Some("C:\\w")), false).1,
        CodexAction::Finish(Err(RuntimeError::Protocol(code))) if code == CODEX_MODEL_UNAVAILABLE
    ));
    assert!(matches!(
        CodexRun::new(&request(Some("m"), Some("C:\\w")), true).1,
        CodexAction::Finish(Err(RuntimeError::Cancelled))
    ));
    let (mut run, _) = CodexRun::new(&request(Some("m"), Some("C:\\w")), false);
    assert!(matches!(
        run.advance(CodexInput::Catalog(catalog(&["n"])), false, false),
        CodexAction::Finish(Err(RuntimeError::Protocol(code))) if code == CODEX_MODEL_UNAVAILABLE
    ));
}

#[test]
fn codex_child_environment_whitelist_keeps_required_values_and_excludes_unrelated_credentials() {
    let values = HashMap::from([
        ("CODEX_HOME", String::from("fixture-codex-home")),
        ("CODEX_ACCESS_TOKEN", String::from("fixture-codex-access")),
        ("CODEX_API_KEY", String::from("fixture-codex-api-key")),
        ("OPENAI_API_KEY", String::from("fixture-openai-key")),
        (
            "OPENAI_BASE_URL",
            String::from("https://fixture.invalid/v1"),
        ),
        ("OPENAI_ORG_ID", String::from("fixture-org")),
        ("OPENAI_PROJECT_ID", String::from("fixture-project")),
        ("HTTP_PROXY", String::from("http://fixture-proxy")),
        ("HTTPS_PROXY", String::from("fixture-proxy")),
        ("ALL_PROXY", String::from("socks5://fixture-proxy")),
        ("NO_PROXY", String::from("localhost,127.0.0.1")),
        ("SSL_CERT_FILE", String::from("fixture-ca")),
        ("CODEX_CA_CERTIFICATE", String::from("fixture-codex-ca")),
        ("NODE_EXTRA_CA_CERTS", String::from("fixture-node-ca")),
        ("SystemRoot", String::from("C:\\Windows")),
        ("PATH", String::from("C:\\fixture-bin")),
        ("DATABASE_URL", String::from("fixture-database-secret")),
    ]);
    let child = codex_child_environment_values(|key: &str| values.get(key).cloned());
    let child = child.into_iter().collect::<HashMap<_, _>>();
    for key in [
        "CODEX_HOME",
        "CODEX_ACCESS_TOKEN",
        "CODEX_API_KEY",
        "OPENAI_API_KEY",
        "OPENAI_BASE_URL",
        "OPENAI_ORG_ID",
        "OPENAI_PROJECT_ID",
        "HTTP_PROXY",
        "HTTPS_PROXY",
        "ALL_PROXY",
        "NO_PROXY",
        "SSL_CERT_FILE",
        "CODEX_CA_CERTIFICATE",
        "NODE_EXTRA_CA_CERTS",
        "SystemRoot",
        "PATH",
    ] {
        assert!(child.contains_key(key), "required key {key} is missing");
    }
    assert!(!child.contains_key("DATABASE_URL"));
    assert!(!child
        .values()
        .any(|value| value == &String::from("fixture-database-secret")));
}

#[test]
fn codex_reverse_rpc_responses_are_type_specific_and_unknown_methods_are_not_successes() {
    for method in [
        "item/commandExecution/requestApproval",
        "item/fileChange/requestApproval",
    ] {
        assert!(matches!(
            codex_server_request_response(method),
            CodexServerRequestResponse::Result(value) if value.get_str("decision") == Some("decline")
        ));
    }
    assert!(matches!(
        codex_server_request_response("item/permissions/requestApproval"),
        CodexServerRequestResponse::Result(value)
            if value.get("permissions") == Some(&Json::Object(Vec::new()))
                && value.get_str("scope") == Some("turn")
                && value.get("strictAutoReview") == Some(&Json::Bool(false))
    ));
    for method in ["applyPatchApproval", "execCommandApproval"] {
        assert!(matches!(
            codex_server_request_response(method),
            CodexServerRequestResponse::Result(value) if value.get_str("decision") == Some("abort")
        ));
    }
    assert!(matches!(
        codex_server_request_response("item/tool/requestUserInput"),
        CodexServerRequestResponse::Result(value)
            if value.get("answers") == Some(&Json::Object(Vec::new()))
    ));
    assert!(matches!(
        codex_server_request_response("mcpServer/elicitation/request"),
        CodexServerRequestResponse::Result(value) if value.get_str("action") == Some("cancel")
    ));
    for method in [
        "item/tool/call",
        "account/chatgptAuthTokens/refresh",
        "attestation/generate",
    ] {
        assert!(matches!(
            codex_server_request_response(method),
            CodexServerRequestResponse::Error {
                code: -32033..=-32031,
                ..
            }
        ));
    }
    assert!(matches!(
        codex_server_request_response("unknown/request"),
        CodexServerRequestResponse::Error { code: -32601, .. }
    ));
}

#[test]
fn replies_keep_the_id_of_the_request() {
    let reply = reply_to_server_request(&value(
        r#"{"jsonrpc":"2.0","id":1.5,"method":"item/tool/call"}"#,
    ));
    assert_eq!(reply.get("id"), Some(&Json::Fraction("1.5".into())));
    assert_eq!(
        reply.get("error").unwrap().get("code"),
        Some(&Json::Negative(-32031))
    );
    let text = encode_json(&reply).unwrap();
    assert_eq!(parse_json(&text).unwrap(), reply);
    assert_eq!(
        initialize_params()
            .get("clientInfo")
            .unwrap()
            .get_str("name"),
        Some("AgentTalk Core")
    );
    assert_eq!(
        server_version_of(&value(
            r#"{"serverInfo":{"version":"fixture-app-server-v1"}}"#
        ))
        .as_deref(),
        Some("fixture-app-server-v1")
    );
    assert_eq!(
        request_json(3, "model/list", Json::Object(Vec::new())),
        value(r#"{"id":3,"jsonrpc":"2.0","method":"model/list","params":{}}"#)
    );
}

#[test]
fn catalog_of_pages_is_sorted_and_keeps_its_default() {
    let mut pager = CatalogPager::new();
    assert_eq!(pager.params(), value("{}"));
    pager.take(&value(
        r#"{"models":[{"id":"codex-model-block"},{"id":"codex-model-a","isDefault":true}],"nextCursor":"page-2","catalogRevision":"fixture-codex-r2"}"#,
    ));
    assert!(!pager.is_done());
    assert_eq!(pager.params().get_str("cursor"), Some("page-2"));
    pager.take(&value(r#"{"models":[{"id":"codex-model-b"}]}"#));
    assert!(pager.is_done());
    let catalog = pager.finish(&None).unwrap();
    assert_eq!(
        catalog.models,
        vec!["codex-model-a", "codex-model-b", "codex-model-block"]
    );
    assert_eq!(catalog.revision.as_deref(), Some("fixture-codex-r2"));
    assert_eq!(catalog.default_model_id.as_deref(), Some("codex-model-a"));
}

#[test]
fn catalog_stops_at_a_cursor_it_has_seen() {
    let mut pager = CatalogPager::new();
    pager.take(&value(r#"{"models":[{"id":"a"}],"nextCursor":"x"}"#));
    pager.take(&value(r#"{"models":[{"id":"b"}],"nextCursor":"x"}"#));
    assert!(pager.is_done());
    assert!(CatalogPager::new().finish(&None).is_err());
}

#[test]
fn messages_that_are_not_the_answer_are_kept() {
    let mut backlog = Backlog::new();
    backlog.push(value(r#"{"method":"a"}"#));
    backlog.push(value(r#"{"id":2,"result":7}"#));
    assert_eq!(backlog.take_response(1), None);
    assert_eq!(backlog.take_response(2), Some(value(r#"{"id":2,"result":7}"#)));
    assert_eq!(backlog.pop(), Some(value(r#"{"method":"a"}"#)));
    assert_eq!(backlog.pop(), None);
    assert!(matches!(
        rpc_message(2, &value(r#"{"id":2,"result":7}"#)),
        RpcStep::Answer(Ok(Json::Unsigned(7)))
    ));
    assert!(matches!(
        rpc_message(2, &value(r#"{"id":2,"error":{}}"#)),
        RpcStep::Answer(Err(_))
    ));
    assert!(matches!(
        rpc_message(2, &value(r#"{"id":3,"method":"x"}"#)),
        RpcStep::Reply(_)
    ));
    assert!(matches!(
        rpc_message(2, &value(r#"{"method":"x"}"#)),
        RpcStep::Keep
    ));
}

#[test]
fn lines_of_the_server_are_read_one_by_one() {
    assert!(matches!(read_stdio_line("  \r\n"), StdioLine::Blank));
    assert!(matches!(read_stdio_line("nonsense\n"), StdioLine::Broken));
    assert!(matches!(
        read_stdio_line(" {\"a\":1}\n"),
        StdioLine::Value(value) if value.get("a") == Some(&Json::Unsigned(1))
    ));
    assert_eq!(append_diagnostic("ab", "cd"), "abcd");
}

#[test]
fn newest_codex_is_found_by_its_numbers() {
    assert_eq!(newest_version(&vec!["0.9.0".into(), "0.10.0".into()]), Some(1));
    assert_eq!(newest_version(&Vec::new()), None);
    assert_eq!(choose_binary(&vec![false, true, true]), Ok(1));
    assert!(choose_binary(&vec![false]).is_err());
    assert_eq!(
        codex_arguments(&vec!["--x".into()]),
        vec!["--x", "app-server", "--listen", "stdio://"]
    );
}

#[test]
fn deadlines_do_not_move() {
    let deadline = TransportDeadline::after(100, 50);
    assert_eq!(deadline.remaining(120), Ok(30));
    assert_eq!(deadline.remaining(150), Err(RuntimeError::Timeout));
    assert_eq!(deadline.capped(100, 10).ends_at, 110);
    assert_eq!(deadline.capped(100, 90).ends_at, 150);
    assert_eq!(bounded_request_timeout(0), 1);
}

#[test]
fn errors_have_a_class_a_text_and_a_safe_code() {
    assert_eq!(
        class_of_error(&RuntimeError::Permission),
        RuntimeErrorClass::Permission
    );
    assert_eq!(
        class_of_error(&RuntimeError::TransportClosed),
        RuntimeErrorClass::Transport
    );
    assert_eq!(
        class_of_error(&RuntimeError::StreamTerminal),
        RuntimeErrorClass::Protocol
    );
    assert_eq!(
        connector_runtime_failure(&RuntimeError::Authentication),
        Some(ConnectorRuntimeFailure::RuntimeAuthenticationFailed)
    );
    assert_eq!(
        connector_runtime_failure(&RuntimeError::Provider("anything".into())),
        None
    );
    assert_eq!(
        safe_runtime_error_code(&RuntimeError::Authentication),
        "runtime_authentication_failed"
    );
    assert_eq!(
        ConnectorRuntimeFailure::CatalogUnavailable.ipc_code(),
        "CONNECTOR_CATALOG_UNAVAILABLE"
    );
    assert_eq!(
        RuntimeError::StreamBufferFull { capacity: 3 }.describe(),
        "runtime stream buffer is full (capacity 3)"
    );
}
