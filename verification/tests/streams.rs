use runtime_host::adapters::{MockRuntime, RuntimeAdapter};
use runtime_host::error::{RuntimeError, RuntimeErrorClass};
use runtime_host::event::{is_terminal_event, RuntimeEvent};
use runtime_host::json::Json;
use runtime_host::stream::RuntimeEventStreamState;

fn stream_event(event_type: &str) -> RuntimeEvent {
    RuntimeEvent {
        event_id: format!("event-{event_type}"),
        execution_run_id: "run-stream".into(),
        runtime_id: "stream-test".into(),
        thread_id: None,
        turn_id: Some("turn-1".into()),
        sequence: 0,
        event_type: event_type.into(),
        timestamp_ms: 0,
        payload: Json::Object(Vec::new()),
    }
}

#[test]
fn bounded_stream_rejects_over_limit_without_consuming_the_event() {
    assert!(matches!(
        RuntimeEventStreamState::with_capacity(0),
        Err(RuntimeError::InvalidStreamCapacity)
    ));

    let mut stream = RuntimeEventStreamState::with_capacity(1).unwrap();
    stream.try_push(stream_event("runtime.started")).unwrap();
    assert_eq!(stream.buffered_len(), 1);
    assert!(stream.push_waits());
    assert_eq!(
        stream.try_push(stream_event("output.delta")),
        Err(RuntimeError::StreamBufferFull { capacity: 1 })
    );
    assert_eq!(
        stream.try_next().unwrap().unwrap().event_type,
        "runtime.started"
    );
    assert!(stream.next_waits());
    stream.try_push(stream_event("output.delta")).unwrap();
    assert_eq!(stream.buffered_len(), 1);
}

#[test]
fn bounded_stream_timeout_is_explicit_and_does_not_fabricate_terminal_state() {
    let mut stream = RuntimeEventStreamState::with_capacity(1).unwrap();
    assert_eq!(stream.next_after_deadline(), Err(RuntimeError::Timeout));
    assert_eq!(stream.buffered_len(), 0);
    assert_eq!(
        MockRuntime::default().classify_error(&RuntimeError::Timeout),
        RuntimeErrorClass::Timeout
    );

    let mut stream = RuntimeEventStreamState::with_capacity(1).unwrap();
    stream.try_push(stream_event("runtime.started")).unwrap();
    assert_eq!(
        stream.next_after_deadline().unwrap().unwrap().event_type,
        "runtime.started"
    );
    stream.cancel().unwrap();
}

#[test]
fn bounded_stream_terminal_is_single_and_drains_before_eof() {
    let mut stream = RuntimeEventStreamState::with_capacity(2).unwrap();
    stream.try_push(stream_event("runtime.started")).unwrap();
    stream.try_push(stream_event("execution.completed")).unwrap();
    assert!(stream.terminal_is_closed());
    assert_eq!(
        stream.try_push(stream_event("output.delta")),
        Err(RuntimeError::StreamTerminal)
    );
    assert_eq!(
        stream.try_next().unwrap().unwrap().event_type,
        "runtime.started"
    );
    assert_eq!(
        stream.try_next().unwrap().unwrap().event_type,
        "execution.completed"
    );
    assert_eq!(stream.try_next().unwrap(), None);
    assert_eq!(stream.cancel(), Err(RuntimeError::StreamTerminal));
}

#[test]
fn bounded_stream_cancel_clears_buffer_and_stops_producer() {
    let mut stream = RuntimeEventStreamState::with_capacity(2).unwrap();
    stream.try_push(stream_event("runtime.started")).unwrap();
    stream.try_push(stream_event("output.delta")).unwrap();
    assert_eq!(stream.cancel(), Ok(true));
    assert_eq!(stream.buffered_len(), 0);
    assert_eq!(stream.try_next(), Err(RuntimeError::Cancelled));
    assert_eq!(
        stream.try_push(stream_event("execution.completed")),
        Err(RuntimeError::Cancelled)
    );
    assert_eq!(stream.cancel(), Ok(false));
}

#[test]
fn bounded_stream_distinguishes_missing_terminal_from_transport_close() {
    let mut stream = RuntimeEventStreamState::with_capacity(2).unwrap();
    stream.try_push(stream_event("runtime.started")).unwrap();
    assert_eq!(stream.finish(), Err(RuntimeError::StreamTerminalMissing));
    assert_eq!(
        stream.try_next().unwrap().unwrap().event_type,
        "runtime.started"
    );
    assert_eq!(stream.try_next(), Err(RuntimeError::StreamTerminalMissing));

    let mut stream = RuntimeEventStreamState::with_capacity(2).unwrap();
    stream.try_push(stream_event("runtime.started")).unwrap();
    stream.close_transport().unwrap();
    assert_eq!(
        stream.try_next().unwrap().unwrap().event_type,
        "runtime.started"
    );
    assert_eq!(stream.try_next(), Err(RuntimeError::TransportClosed));
    assert_eq!(
        stream.try_push(stream_event("output.delta")),
        Err(RuntimeError::TransportClosed)
    );
}

#[test]
fn stream_that_failed_tells_its_error_after_its_events() {
    let mut stream = RuntimeEventStreamState::with_capacity(2).unwrap();
    stream.try_push(stream_event("runtime.started")).unwrap();
    assert!(stream
        .fail(RuntimeError::Provider("provider_error".into()))
        .is_err());
    assert!(stream.try_next().unwrap().is_some());
    assert_eq!(
        stream.try_next(),
        Err(RuntimeError::Provider("provider_error".into()))
    );
    assert_eq!(
        stream.finish(),
        Err(RuntimeError::Provider("provider_error".into()))
    );
}

#[test]
fn four_kinds_of_events_are_terminal() {
    for (event_type, terminal) in [
        ("execution.completed", true),
        ("execution.failed", true),
        ("execution.cancelled", true),
        ("execution.interrupted", true),
        ("output.delta", false),
        ("runtime.started", false),
    ] {
        assert_eq!(is_terminal_event(&stream_event(event_type)), terminal);
    }
}
