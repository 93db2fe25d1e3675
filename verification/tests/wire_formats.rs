use runtime_host::decode::IncrementalUtf8Decoder;
use runtime_host::error::RuntimeError;
use runtime_host::event::{
    output_delta_event, RuntimeRequest, WorkspaceAccess, DEFAULT_RUNTIME_TIMEOUT_MS,
};
use runtime_host::http::{
    append_body, encode_path_component, map_kun_http_failure, request_head_text,
    resolve_loopback_socket, ChunkedBody, HttpFailureKind, HttpHead, LocalHttpEndpoint,
    MAX_TRANSPORT_BODY_BYTES,
};
use runtime_host::json::{encode_json, parse_json, parse_json_bytes, parse_json_list, Json};
use runtime_host::redact::{redact_external_text, MAX_TRANSPORT_LINE_BYTES};
use runtime_host::sse::{SseFrame, SseParser};
use runtime_host::text::{
    decimal_text, lines_of, lowered, parse_u64, safe_model_identifier, trimmed, utf8_prefix,
    utf8_tail,
};
use runtime_host::wire::{
    encoded_body, encoded_line, received_optional, received_value, Received,
};

fn request_with_model(access: WorkspaceAccess, cwd: Option<&str>, model_id: &str) -> RuntimeRequest {
    RuntimeRequest {
        execution_run_id: "run-1".into(),
        agent_identity_id: "agent-1".into(),
        connector_id: "mock".into(),
        model_id: Some(model_id.into()),
        context_manifest_id: "manifest-1".into(),
        rendered_context: "fixture context".into(),
        canonical_cwd: cwd.map(str::to_owned),
        workspace_access: access,
        timeout_ms: DEFAULT_RUNTIME_TIMEOUT_MS,
        thread_policy: "per-run".into(),
        signed_scope: "local-fixture-scope".into(),
    }
}

#[test]
fn openai_sse_parser_keeps_split_frames_and_flushes_eof_tail() {
    let mut parser = SseParser::default();
    assert!(parser
        .push("data: {\"choices\":[{\"delta\":{\"content\":\"hel")
        .is_empty());
    let frames = parser.push("lo\"}}]}\n\ndata: [DONE]");
    assert_eq!(
        frames,
        vec![SseFrame {
            data: r#"{"choices":[{"delta":{"content":"hello"}}]}"#.into()
        }]
    );
    assert_eq!(
        parser.finish(),
        vec![SseFrame {
            data: "[DONE]".into()
        }]
    );
}

#[test]
fn bounded_sse_parser_rejects_an_unterminated_oversized_frame() {
    let mut parser = SseParser::default();
    let oversized = "x".repeat(65);
    assert!(matches!(
        parser.push_bounded(&oversized, 64),
        Err(RuntimeError::Protocol(code)) if code == "sse_frame_too_large"
    ));
    assert_eq!(
        parser.push_bounded("data: {}\n\n", 64).unwrap(),
        vec![SseFrame { data: "{}".into() }]
    );
}

#[test]
fn incremental_utf8_sse_preserves_chinese_across_every_multibyte_split() {
    let payload = [
        "data: {\"kind\":\"assistant_text_delta\",\"delta\":\"你好\"}\n\n",
        "data: {\"kind\":\"assistant_text_delta\",\"delta\":\"，世界\"}\n\n",
    ]
    .join("")
    .as_bytes()
    .to_vec();
    let mut boundaries = Vec::new();
    for (index, byte) in payload.iter().enumerate() {
        if (*byte & 0b1111_0000) == 0b1110_0000 {
            boundaries.push(index + 1);
            boundaries.push(index + 2);
        }
    }
    boundaries.sort_unstable();
    boundaries.dedup();

    for _body_kind in ["content-length", "chunked"] {
        let mut decoder = IncrementalUtf8Decoder::default();
        let mut parser = SseParser::default();
        let mut start = 0usize;
        let mut frames = Vec::new();
        for end in boundaries
            .iter()
            .copied()
            .chain(std::iter::once(payload.len()))
        {
            if end <= start {
                continue;
            }
            let text = decoder.push(&payload[start..end]).unwrap();
            frames.extend(
                parser
                    .push_bounded(&text, MAX_TRANSPORT_BODY_BYTES)
                    .unwrap(),
            );
            start = end;
        }
        decoder.finish().unwrap();
        frames.extend(parser.finish());
        let deltas = frames
            .iter()
            .map(|frame| {
                parse_json(&frame.data)
                    .unwrap()
                    .get_str("delta")
                    .unwrap()
                    .to_owned()
            })
            .collect::<Vec<_>>();
        assert_eq!(deltas.concat(), "你好，世界");
    }
}

#[test]
fn decoder_refuses_bytes_that_no_character_has() {
    let mut decoder = IncrementalUtf8Decoder::default();
    assert!(decoder.push(&[0xff]).is_err());
    let mut decoder = IncrementalUtf8Decoder::default();
    assert_eq!(decoder.push(&[0xe4, 0xbd]).unwrap(), "");
    assert!(decoder.finish().is_err());
    assert_eq!(decoder.push(&[0xa0]).unwrap(), "你");
    assert!(decoder.finish().is_ok());
}

#[test]
fn external_transport_redaction_covers_json_headers_cookies_and_events() {
    let marker = "fixture-private-runtime-material";
    let input = format!(
        "{{\"runtimeToken\":\"{marker}\",\"apiKey\":\"{marker}\"}}\nAuthorization:Bearer {marker}\nCookie: session={marker}\napi_key={marker}\ntoken={marker}"
    );
    let redacted = redact_external_text(&input);
    assert!(!redacted.contains(marker));
    assert!(redacted.contains("<redacted>"));

    let event = output_delta_event(
        "kun",
        &request_with_model(WorkspaceAccess::ReadOnly, None, "kun-model-a"),
        Some("thread-redaction".into()),
        Some("turn-redaction".into()),
        1,
        &input,
    );
    assert!(!format!("{event:?}").contains(marker));
}

#[test]
fn utf8_bounded_external_tail_and_prefix_never_split_multibyte_characters() {
    let value = "prefix-中文🙂-suffix";
    let tail = utf8_tail(value, 8);
    assert!(std::str::from_utf8(tail.as_bytes()).is_ok());
    assert!(tail.len() <= 8);
    let prefix = utf8_prefix(value, 10);
    assert!(std::str::from_utf8(prefix.as_bytes()).is_ok());
    assert!(prefix.len() <= 10);
    assert!(value.starts_with(prefix));

    let oversized = format!("{}中", "x".repeat(MAX_TRANSPORT_LINE_BYTES - 1));
    let redacted = redact_external_text(&oversized);
    assert!(std::str::from_utf8(redacted.as_bytes()).is_ok());
    assert!(redacted.ends_with("...[truncated]"));
    assert!(redacted.len() <= MAX_TRANSPORT_LINE_BYTES + "...[truncated]".len());
}

#[test]
fn bounded_tail_and_prefix_keep_whole_characters() {
    assert_eq!(utf8_tail("prefix-中文🙂-suffix", 8), "-suffix");
    assert_eq!(utf8_prefix("prefix-中文", 9), "prefix-");
    assert_eq!(utf8_prefix("prefix-中文", 10), "prefix-中");
    assert_eq!(utf8_prefix("abc", 10), "abc");
}

#[test]
fn redaction_replaces_values_and_keeps_the_rest() {
    assert_eq!(
        redact_external_text("Authorization: Bearer abc\nnext"),
        "Authorization: <redacted>\nnext"
    );
    assert_eq!(redact_external_text("a token=xyz, b"), "a token=<redacted>, b");
    assert_eq!(redact_external_text("plain text"), "plain text");
}

#[test]
fn redacted_text_is_redacted_once() {
    for (text, redacted) in [
        (
            "Set-Cookie: token=a; \"apiKey\": \"b\"\nruntime_token=c&x=1",
            "Set-Cookie: <redacted>\nruntime_token=<redacted>&x=1",
        ),
        (
            "{\"authorization\":\"Bearer abc\",\"token\": 7}",
            "{\"authorization\":\"<redacted>\",\"token\": <redacted>}",
        ),
        ("\"token\"token\" bearer \"token\"", "\"token\"<redacted> bearer \"<redacted>\""),
        ("cookie=", "cookie="),
    ] {
        assert_eq!(redact_external_text(text), redacted);
        assert_eq!(redact_external_text(redacted), redacted);
    }
}

#[test]
fn texts_are_trimmed_lowered_and_split_as_rust_does() {
    assert_eq!(trimmed(" \t\u{3000}a b\u{a0}\n"), "a b");
    assert_eq!(lowered("AbÄ"), "abÄ");
    assert_eq!(lines_of("a\r\nb\n\nc"), vec!["a", "b", "", "c"]);
    assert_eq!(decimal_text(u64::MAX), "18446744073709551615");
    assert_eq!(parse_u64("18446744073709551615"), Some(u64::MAX));
    assert_eq!(parse_u64("18446744073709551616"), None);
    assert_eq!(parse_u64("+7"), Some(7));
    assert_eq!(parse_u64("-7"), None);
    assert_eq!(safe_model_identifier("  model-a "), Some("model-a".into()));
    assert_eq!(safe_model_identifier("a\u{7}b"), None);
    assert_eq!(safe_model_identifier(&"x".repeat(257)), None);
    assert_eq!(safe_model_identifier("   "), None);
}

#[test]
fn json_is_read_as_serde_json_reads_it() {
    let value = parse_json(r#"{"b":[1,-2,1.5,true,null],"a":"x","b2":{}}"#).unwrap();
    assert_eq!(value.get_str("a"), Some("x"));
    let list = value.get("b").unwrap().as_array().unwrap();
    assert_eq!(list[0].as_u64(), Some(1));
    assert_eq!(list[1], Json::Negative(-2));
    assert_eq!(list[2], Json::Fraction("1.5".into()));
    assert_eq!(list[3].as_bool(), Some(true));
    assert_eq!(list[4], Json::Null);
    assert!(parse_json("{").is_err());
    assert_eq!(parse_json_bytes(b"[7]").unwrap().at(0).unwrap().as_u64(), Some(7));
    assert!(parse_json_bytes(&[0xff]).is_err());
    assert_eq!(parse_json_list("[1,2]").unwrap().len(), 2);
    assert!(parse_json_list("{}").is_err());
    assert_eq!(
        parse_json(r#"{"a":1,"a":2}"#).unwrap().get("a").unwrap().as_u64(),
        Some(2)
    );
}

#[test]
fn json_is_written_as_serde_json_writes_it() {
    let value = parse_json(r#"{"b":[1,-2,"q\"\n"],"a":null}"#).unwrap();
    assert_eq!(
        encode_json(&value).unwrap(),
        r#"{"a":null,"b":[1,-2,"q\"\n"]}"#
    );
    assert_eq!(encoded_line(&Json::Bool(true)).unwrap(), "true\n");
    assert_eq!(encoded_body(&Json::Text("é".into())).unwrap(), "\"é\"");
}

#[test]
fn waiting_for_a_message_ends_in_four_ways() {
    assert_eq!(received_value(Received::Value(Json::Null)), Ok(Json::Null));
    assert_eq!(
        received_value(Received::TimedOut),
        Err(RuntimeError::Timeout)
    );
    assert_eq!(
        received_value(Received::Closed),
        Err(RuntimeError::TransportClosed)
    );
    assert_eq!(
        received_value(Received::Failed(RuntimeError::Permission)),
        Err(RuntimeError::Permission)
    );
    assert_eq!(received_optional(Received::TimedOut), Ok(None));
    assert_eq!(
        received_optional(Received::Closed),
        Err(RuntimeError::TransportClosed)
    );
}

#[test]
fn only_addresses_of_this_machine_are_reached() {
    let local = vec![vec![127, 0, 0, 1]];
    let endpoint = LocalHttpEndpoint::parse("http://127.0.0.1:8080", &Vec::new()).unwrap();
    assert_eq!(endpoint.authority(), "127.0.0.1:8080");
    assert!(endpoint.matches_host_port("127.0.0.1", 8080, &Vec::new()));
    assert!(!endpoint.matches_host_port("127.0.0.1", 8081, &Vec::new()));
    assert_eq!(
        LocalHttpEndpoint::parse("http://[::1]:9", &Vec::new())
            .unwrap()
            .authority(),
        "[::1]:9"
    );
    assert!(LocalHttpEndpoint::parse("http://example.com:80", &local).is_err());
    assert!(LocalHttpEndpoint::parse("http://10.0.0.1:80", &local).is_err());
    assert!(LocalHttpEndpoint::parse("https://127.0.0.1:80", &local).is_err());
    assert!(resolve_loopback_socket("localhost", 80, &local).is_ok());
    assert!(resolve_loopback_socket("localhost", 80, &vec![vec![10, 0, 0, 1]]).is_err());
}

#[test]
fn requests_carry_their_head() {
    let endpoint = LocalHttpEndpoint::parse("http://127.0.0.1:8080", &Vec::new()).unwrap();
    let head = request_head_text(
        "POST",
        "/v1/threads",
        &endpoint,
        "application/json",
        Some("token-a"),
        Some(2),
    );
    assert!(head.starts_with("POST /v1/threads HTTP/1.1\r\n"));
    assert!(head.contains("Host: 127.0.0.1:8080\r\n"));
    assert!(head.contains("token-a"));
    assert!(head.contains("Content-Length: 2\r\n"));
    assert!(head.ends_with("\r\n\r\n"));
}

#[test]
fn heads_are_read_line_by_line() {
    let mut head = HttpHead::new();
    head.on_line("HTTP/1.1 200 OK\r\n", false).unwrap();
    head.on_line("Transfer-Encoding: chunked\r\n", false).unwrap();
    assert!(!head.is_done());
    head.on_line("\r\n", false).unwrap();
    assert!(head.is_done());
    assert!(head.is_chunked());
    assert_eq!(head.status(), Some(200));
    assert!(HttpHead::new().on_line("nonsense\r\n", false).is_err());
    assert!(matches!(
        HttpHead::new().on_line("HTTP/1.1 200 OK\r\n", true),
        Err(RuntimeError::Timeout)
    ));
}

#[test]
fn chunks_are_read_one_after_another() {
    let mut body = ChunkedBody::new();
    assert!(body.header_is_next());
    body.next_chunk("5;x=y\r\n").unwrap();
    assert_eq!(body.limit(64), 5);
    assert!(!body.consumed(3));
    assert_eq!(body.limit(1), 1);
    assert!(body.consumed(2));
    assert!(ChunkedBody::ending(b'\r', b'\n').is_ok());
    assert!(ChunkedBody::ending(b'x', b'\n').is_err());
    body.next_chunk("0\r\n").unwrap();
    assert!(ChunkedBody::ends_trailer("\r\n"));
    assert!(ChunkedBody::new().next_chunk("zz\r\n").is_err());
    let mut whole = Vec::new();
    append_body(&mut whole, b"ab").unwrap();
    assert_eq!(whole, b"ab");
    assert!(append_body(&mut whole, &vec![0; MAX_TRANSPORT_BODY_BYTES]).is_err());
}

#[test]
fn failures_of_a_runtime_are_told_by_their_kind() {
    assert_eq!(
        map_kun_http_failure(401, HttpFailureKind::Runtime, b""),
        RuntimeError::Authentication
    );
    let secret = map_kun_http_failure(500, HttpFailureKind::Catalog, b"{\"secret\":\"x\"}");
    assert!(!format!("{secret:?}").contains("secret"));
}

#[test]
fn path_components_are_escaped() {
    assert_eq!(encode_path_component("a b/é"), "a%20b%2F%C3%A9");
    assert_eq!(encode_path_component("safe-._~A9"), "safe-._~A9");
}
