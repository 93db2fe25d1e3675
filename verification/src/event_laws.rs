//! What holds of every event, in terms of the request that it is an event of.

use vstd::prelude::*;
use vstd::string::*;

use crate::event;
use crate::event::RuntimeRequest;
use crate::json;
use crate::redact;
use crate::text;

verus! {

/// The types of events are different.
proof fn lemma_types_differ()
    ensures
        "execution.completed"@.len() == 19,
        "execution.failed"@.len() == 16,
        "execution.cancelled"@.len() == 19,
        "execution.interrupted"@.len() == 21,
        "output.delta"@.len() == 12,
        "connector.started"@.len() == 17,
        "runtime.started"@.len() == 15,
        "execution.completed"@[11] != "execution.cancelled"@[11],
{
    reveal_strlit("execution.completed");
    reveal_strlit("execution.failed");
    reveal_strlit("execution.cancelled");
    reveal_strlit("execution.interrupted");
    reveal_strlit("output.delta");
    reveal_strlit("connector.started");
    reveal_strlit("runtime.started");
}

/// The members of payloads are different.
proof fn lemma_members_differ()
    ensures
        "connectorId"@.len() == 11,
        "modelId"@.len() == 7,
        "reason"@.len() == 6,
        "manifestId"@.len() == 10,
        "source"@.len() == 6,
        "delta"@.len() == 5,
        "reason"@[0] != "source"@[0],
{
    reveal_strlit("connectorId");
    reveal_strlit("modelId");
    reveal_strlit("reason");
    reveal_strlit("manifestId");
    reveal_strlit("source");
    reveal_strlit("delta");
}

/// An event is one of a run: it has the ids of the run and of what runs it.
pub open spec fn is_of(
    e: event::EventView,
    runtime_id: Seq<char>,
    request: &RuntimeRequest,
    thread_id: Option<Seq<char>>,
    turn_id: Option<Seq<char>>,
) -> bool {
    &&& e.execution_run_id == request.execution_run_id@
    &&& e.runtime_id == runtime_id
    &&& e.thread_id == thread_id
    &&& e.turn_id == turn_id
    &&& e.sequence == 0
}

/// A payload names the connector and the model of a request, or that it names none.
pub open spec fn names_connector(payload: json::JsonTree, request: &RuntimeRequest) -> bool {
    &&& json::text_field(payload, "connectorId"@) == Some(request.connector_id@)
    &&& match request.model_id {
        Some(m) => json::text_field(payload, "modelId"@) == Some(m@),
        None => json::field(payload, "modelId"@) == Some(json::JsonTree::Null),
    }
}

/// A run ends with an event of one of four types, and with no other: what it starts with
/// and what it says do not end it.
pub proof fn law_only_ends_are_terminal(t: Seq<char>)
    ensures
        event::is_terminal_type(t) <==> t == "execution.completed"@ || t == "execution.failed"@ || t
            == "execution.cancelled"@ || t == "execution.interrupted"@,
        !event::is_terminal_type("output.delta"@),
        !event::is_terminal_type("connector.started"@),
        !event::is_terminal_type("runtime.started"@),
{
    lemma_types_differ();
}

/// The events that open a run are of that run, and say by which connector, with which
/// model and from which context it runs.
pub proof fn law_opening_events_are_of_their_run(
    runtime_id: Seq<char>,
    source: Seq<char>,
    request: &RuntimeRequest,
    thread_id: Option<Seq<char>>,
    turn_id: Option<Seq<char>>,
)
    ensures
        ({
            let e = event::connector_started(runtime_id, request, thread_id, turn_id);
            &&& is_of(e, runtime_id, request, thread_id, turn_id)
            &&& e.event_type == "connector.started"@
            &&& e.event_id == "connector-started-"@ + request.execution_run_id@
            &&& e.timestamp_ms == 0
            &&& names_connector(e.payload, request)
        }),
        ({
            let e = event::runtime_started_turn(runtime_id, source, request, thread_id, turn_id);
            &&& is_of(e, runtime_id, request, thread_id, turn_id)
            &&& e.event_type == "runtime.started"@
            &&& e.event_id == "runtime-started-"@ + request.execution_run_id@
            &&& e.timestamp_ms == 0
            &&& names_connector(e.payload, request)
            &&& json::text_field(e.payload, "manifestId"@) == Some(request.context_manifest_id@)
            &&& json::text_field(e.payload, "source"@) == Some(source)
        }),
{
    lemma_members_differ();
    reveal_with_fuel(json::member, 5);
}

/// A piece of output is told with its place in the run, and nothing secret of it.
pub proof fn law_output_is_of_its_run(
    runtime_id: Seq<char>,
    request: &RuntimeRequest,
    thread_id: Option<Seq<char>>,
    turn_id: Option<Seq<char>>,
    index: u64,
    delta: Seq<char>,
)
    requires
        index <= i64::MAX,
    ensures
        ({
            let e = event::output_delta(runtime_id, request, thread_id, turn_id, index, delta);
            &&& is_of(e, runtime_id, request, thread_id, turn_id)
            &&& e.event_type == "output.delta"@
            &&& e.event_id == "output-"@ + request.execution_run_id@ + "-"@ + text::decimal(
                index as nat,
            )
            &&& e.timestamp_ms == index
            &&& json::text_field(e.payload, "delta"@) == Some(redact::redacted(delta))
        }),
{
    reveal_with_fuel(json::member, 2);
}

/// The event that ends a run is of that run and of the type that it is told to be, and
/// gives a reason exactly if there is one.
pub proof fn law_end_is_of_its_run(
    runtime_id: Seq<char>,
    event_type: Seq<char>,
    request: &RuntimeRequest,
    thread_id: Option<Seq<char>>,
    turn_id: Option<Seq<char>>,
    index: u64,
    reason: Option<Seq<char>>,
)
    requires
        index <= i64::MAX,
    ensures
        ({
            let e = event::terminal(
                runtime_id,
                event_type,
                request,
                thread_id,
                turn_id,
                index,
                reason,
            );
            &&& is_of(e, runtime_id, request, thread_id, turn_id)
            &&& e.event_type == event_type
            &&& e.timestamp_ms == index
            &&& names_connector(e.payload, request)
            &&& json::text_field(e.payload, "reason"@) == reason
            &&& e.event_id.len() == event_type.len() + 1 + request.execution_run_id@.len()
            &&& text::ends_with(e.event_id, request.execution_run_id@)
            &&& forall|i: int|
                0 <= i < event_type.len() ==> #[trigger] e.event_id[i] == if event_type[i] == '.' {
                    '-'
                } else {
                    event_type[i]
                }
        }),
        ({
            let e = event::cancelled(runtime_id, request, thread_id, turn_id);
            &&& is_of(e, runtime_id, request, thread_id, turn_id)
            &&& e.event_type == "execution.cancelled"@
            &&& names_connector(e.payload, request)
        }),
{
    lemma_members_differ();
    reveal_with_fuel(json::member, 4);
    reveal_strlit("-");
    let e = event::terminal(runtime_id, event_type, request, thread_id, turn_id, index, reason);
    let id = request.execution_run_id@;
    assert(e.event_id.subrange(e.event_id.len() - id.len(), e.event_id.len() as int) =~= id);
}

/// A request may take what it asks for, but at least a millisecond and at most an hour.
pub proof fn law_time_is_bounded(asked: u64)
    ensures
        1 <= event::bounded_timeout(asked) <= 3_600_000,
        1 <= asked <= 3_600_000 ==> event::bounded_timeout(asked) == asked,
        asked > 3_600_000 ==> event::bounded_timeout(asked) == 3_600_000,
{
}

} // verus!
