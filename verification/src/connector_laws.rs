//! What holds of every recorded session of a connector that is replayed, in terms of the
//! values that were recorded.

use vstd::prelude::*;
use vstd::string::*;

use crate::connector;
use crate::connector::FixtureConnectorRuntime;
use crate::error;
use crate::event;
use crate::event::{RuntimeRequest, WorkspaceAccess};
use crate::fixture;
use crate::json;
use crate::text;

verus! {

/// The kinds of recorded values are different.
proof fn lemma_kinds_differ()
    ensures
        "session.started"@.len() == 15,
        "thread.started"@.len() == 14,
        "turn.started"@.len() == 12,
        "response.created"@.len() == 16,
        "response.in_progress"@.len() == 20,
        "output.delta"@.len() == 12,
        "content.delta"@.len() == 13,
        "item/agentmessage/delta"@.len() == 23,
        "response.output_text.delta"@.len() == 26,
        "execution.completed"@.len() == 19,
        "turn.completed"@.len() == 14,
        "response.completed"@.len() == 18,
        "result.completed"@.len() == 16,
        "execution.failed"@.len() == 16,
        "turn.failed"@.len() == 11,
        "response.failed"@.len() == 15,
        "error"@.len() == 5,
        "provider.error"@.len() == 14,
        "session.started"@[0] != "response.failed"@[0],
        "thread.started"@[1] != "turn.completed"@[1],
        "thread.started"@[0] != "provider.error"@[0],
        "turn.started"@[0] != "output.delta"@[0],
        "response.created"@[3] != "result.completed"@[3],
        "response.created"@[0] != "execution.failed"@[0],
        "turn.completed"@[0] != "provider.error"@[0],
        "result.completed"@[0] != "execution.failed"@[0],
{
    reveal_strlit("session.started");
    reveal_strlit("thread.started");
    reveal_strlit("turn.started");
    reveal_strlit("response.created");
    reveal_strlit("response.in_progress");
    reveal_strlit("output.delta");
    reveal_strlit("content.delta");
    reveal_strlit("item/agentmessage/delta");
    reveal_strlit("response.output_text.delta");
    reveal_strlit("execution.completed");
    reveal_strlit("turn.completed");
    reveal_strlit("response.completed");
    reveal_strlit("result.completed");
    reveal_strlit("execution.failed");
    reveal_strlit("turn.failed");
    reveal_strlit("response.failed");
    reveal_strlit("error");
    reveal_strlit("provider.error");
}

/// The types of events are different.
proof fn lemma_types_differ()
    ensures
        "connector.started"@.len() == 17,
        "runtime.started"@.len() == 15,
        "output.delta"@.len() == 12,
        "execution.completed"@.len() == 19,
        "execution.failed"@.len() == 16,
        "execution.cancelled"@.len() == 19,
        "execution.interrupted"@.len() == 21,
        "execution.completed"@[11] != "execution.cancelled"@[11],
{
    reveal_strlit("connector.started");
    reveal_strlit("runtime.started");
    reveal_strlit("output.delta");
    reveal_strlit("execution.completed");
    reveal_strlit("execution.failed");
    reveal_strlit("execution.cancelled");
    reveal_strlit("execution.interrupted");
}

/// The members of payloads are different.
proof fn lemma_members_differ()
    ensures
        "connectorId"@.len() == 11,
        "modelId"@.len() == 7,
        "reason"@.len() == 6,
        "delta"@.len() == 5,
        "manifestId"@.len() == 10,
        "source"@.len() == 6,
        "reason"@[0] != "source"@[0],
{
    reveal_strlit("connectorId");
    reveal_strlit("modelId");
    reveal_strlit("reason");
    reveal_strlit("delta");
    reveal_strlit("manifestId");
    reveal_strlit("source");
}

/// A recorded value says what it is, in whatever letters: by its type, its kind or its
/// method.
pub open spec fn tells(value: json::JsonTree, kind: Seq<char>) -> bool {
    ||| json::text_field(value, "type"@) matches Some(s) && text::lower(s) == kind
    ||| json::text_field(value, "type"@) is None && (json::text_field(
        value,
        "kind"@,
    ) matches Some(s) && text::lower(s) == kind)
    ||| json::text_field(value, "type"@) is None && json::text_field(value, "kind"@) is None && (
    json::text_field(value, "method"@) matches Some(s) && text::lower(s) == kind)
}

/// A value that comes before any output.
pub open spec fn tells_start(value: json::JsonTree) -> bool {
    ||| tells(value, "session.started"@)
    ||| tells(value, "thread.started"@)
    ||| tells(value, "turn.started"@)
    ||| tells(value, "response.created"@)
    ||| tells(value, "response.in_progress"@)
}

/// A piece of output.
pub open spec fn tells_output(value: json::JsonTree) -> bool {
    ||| tells(value, "output.delta"@)
    ||| tells(value, "content.delta"@)
    ||| tells(value, "item/agentmessage/delta"@)
    ||| tells(value, "response.output_text.delta"@)
}

/// A success.
pub open spec fn tells_success(value: json::JsonTree) -> bool {
    ||| tells(value, "execution.completed"@)
    ||| tells(value, "turn.completed"@)
    ||| tells(value, "response.completed"@)
    ||| tells(value, "result.completed"@)
}

/// A failure.
pub open spec fn tells_failure(value: json::JsonTree) -> bool {
    ||| tells(value, "execution.failed"@)
    ||| tells(value, "turn.failed"@)
    ||| tells(value, "response.failed"@)
    ||| tells(value, "error"@)
    ||| tells(value, "provider.error"@)
}

/// The text that a value carries.
pub open spec fn carries(value: json::JsonTree, s: Seq<char>) -> bool {
    let params = json::field(value, "params"@);
    let a = json::text_field(value, "delta"@);
    let b = json::text_value(json::then_field(params, "delta"@));
    let c = json::text_field(value, "text"@);
    let d = json::text_value(json::then_field(params, "text"@));
    ||| a == Some(s)
    ||| a is None && b == Some(s)
    ||| a is None && b is None && c == Some(s)
    ||| a is None && b is None && c is None && d == Some(s)
}

/// A step of a replay.
pub open spec fn step(
    run: fixture::RunView,
    runtime_id: Seq<char>,
    request: &RuntimeRequest,
    model_id: Seq<char>,
    value: json::JsonTree,
) -> Result<fixture::RunView, error::ErrorView> {
    connector::recorded_step(run, runtime_id, request, model_id, value)
}

/// An event is of a run.
pub open spec fn is_of_run(
    e: event::EventView,
    runtime_id: Seq<char>,
    request: &RuntimeRequest,
) -> bool {
    &&& e.execution_run_id == request.execution_run_id@
    &&& e.runtime_id == runtime_id
    &&& e.thread_id == Some(runtime_id + "-thread-"@ + request.execution_run_id@)
}

/// What was recorded is told as what it is: output as output, with the model's name where
/// it stands for it, success as success and failure as failure. What comes before the
/// output is not told.
pub proof fn law_recorded_values_are_told(
    run: fixture::RunView,
    runtime_id: Seq<char>,
    request: &RuntimeRequest,
    model_id: Seq<char>,
    value: json::JsonTree,
    s: Seq<char>,
)
    requires
        !run.ended,
    ensures
        tells_start(value) ==> step(run, runtime_id, request, model_id, value) == Ok::<
            fixture::RunView,
            error::ErrorView,
        >(run),
        tells_output(value) && carries(value, s) ==> (step(
            run,
            runtime_id,
            request,
            model_id,
            value,
        ) matches Ok(r) && {
            &&& !r.ended
            &&& r.events.len() == run.events.len() + 1
            &&& r.events.drop_last() == run.events
            &&& r.events.last().event_type == "output.delta"@
            &&& is_of_run(r.events.last(), runtime_id, request)
            &&& json::text_field(r.events.last().payload, "delta"@) == Some(
                text::replaced(s, "{modelId}"@, model_id),
            )
        }),
        tells_output(value) && (forall|t: Seq<char>| !#[trigger] carries(value, t)) ==> step(
            run,
            runtime_id,
            request,
            model_id,
            value,
        ) == Err::<fixture::RunView, error::ErrorView>(
            error::ErrorView::Protocol("connector delta is missing"@),
        ),
        tells_success(value) ==> (step(run, runtime_id, request, model_id, value) matches Ok(r) && {
            &&& r.ended
            &&& r.events.len() == run.events.len() + 1
            &&& r.events.drop_last() == run.events
            &&& r.events.last().event_type == "execution.completed"@
            &&& is_of_run(r.events.last(), runtime_id, request)
            &&& json::text_field(r.events.last().payload, "connectorId"@) == Some(
                request.connector_id@,
            )
            &&& json::text_field(r.events.last().payload, "modelId"@) == Some(model_id)
        }),
        tells_failure(value) ==> (step(run, runtime_id, request, model_id, value) matches Ok(r) && {
            &&& r.ended
            &&& r.events.len() == run.events.len() + 1
            &&& r.events.drop_last() == run.events
            &&& r.events.last().event_type == "execution.failed"@
            &&& is_of_run(r.events.last(), runtime_id, request)
            &&& json::text_field(r.events.last().payload, "reason"@) == Some("provider_error"@)
        }),
        !tells_start(value) && !tells_output(value) && !tells_success(value) && !tells_failure(value)
            ==> step(run, runtime_id, request, model_id, value) is Err,
{
    lemma_kinds_differ();
    lemma_members_differ();
    reveal_with_fuel(json::member, 3);
    if let Ok(r) = step(run, runtime_id, request, model_id, value) {
        if r.events.len() == run.events.len() + 1 {
            assert(r.events.drop_last() =~= run.events);
        }
    }
    if connector::recorded_delta(value) is Some {
        assert(carries(value, connector::recorded_delta(value)->0));
    }
}

/// Nothing follows the end of a recorded session, and a value that does not say what it is
/// is refused.
pub proof fn law_nothing_follows_the_end(
    run: fixture::RunView,
    runtime_id: Seq<char>,
    request: &RuntimeRequest,
    model_id: Seq<char>,
    value: json::JsonTree,
)
    ensures
        run.ended ==> step(run, runtime_id, request, model_id, value) == Err::<
            fixture::RunView,
            error::ErrorView,
        >(error::ErrorView::Protocol("connector fixture emitted data after terminal event"@)),
        !run.ended && json::text_field(value, "type"@) is None && json::text_field(value, "kind"@)
            is None && json::text_field(value, "method"@) is None ==> step(
            run,
            runtime_id,
            request,
            model_id,
            value,
        ) == Err::<fixture::RunView, error::ErrorView>(
            error::ErrorView::Protocol("connector fixture kind is missing"@),
        ),
{
}

proof fn lemma_run_ends_with_its_last(
    run: fixture::RunView,
    runtime_id: Seq<char>,
    request: &RuntimeRequest,
    model_id: Seq<char>,
    values: Seq<json::JsonTree>,
)
    requires
        !run.ended,
    ensures
        connector::recorded_run(run, runtime_id, request, model_id, values) matches Ok(r) ==> {
            &&& r.events.len() >= run.events.len()
            &&& forall|i: int|
                0 <= i < run.events.len() ==> r.events[i] == #[trigger] run.events[i]
            &&& r.ended ==> values.len() > 0 && r.events.len() > run.events.len() && (
            tells_success(values.last()) || tells_failure(values.last())) && (tells_success(
                values.last(),
            ) ==> r.events.last().event_type == "execution.completed"@) && (tells_failure(
                values.last(),
            ) ==> r.events.last().event_type == "execution.failed"@)
            &&& forall|i: int|
                run.events.len() <= i < r.events.len() && !(r.ended && i == r.events.len() - 1)
                    ==> (#[trigger] r.events[i]).event_type == "output.delta"@
            &&& forall|i: int|
                run.events.len() <= i < r.events.len() ==> is_of_run(
                    #[trigger] r.events[i],
                    runtime_id,
                    request,
                )
        },
    decreases values.len(),
{
    if values.len() > 0 {
        let value = values[0];
        let rest = values.drop_first();
        law_recorded_values_are_told(
            run,
            runtime_id,
            request,
            model_id,
            value,
            match connector::recorded_delta(value) {
                Some(d) => d,
                None => seq![],
            },
        );
        if let Ok(next) = step(run, runtime_id, request, model_id, value) {
            if connector::recorded_delta(value) is Some {
                assert(carries(value, connector::recorded_delta(value)->0));
            }
            if next.ended {
                if rest.len() > 0 {
                    law_nothing_follows_the_end(next, runtime_id, request, model_id, rest[0]);
                } else {
                    assert(values.last() == value);
                }
            } else {
                lemma_run_ends_with_its_last(next, runtime_id, request, model_id, rest);
                if rest.len() > 0 {
                    assert(values.last() == rest.last());
                }
            }
            if let Ok(r) = connector::recorded_run(run, runtime_id, request, model_id, values) {
                assert forall|i: int| 0 <= i < run.events.len() implies r.events[i]
                    == #[trigger] run.events[i] by {
                    if next.events.len() == run.events.len() + 1 {
                        assert(next.events.drop_last()[i] == next.events[i]);
                    }
                    assert(next.events[i] == run.events[i]);
                }
            }
        }
    }
}

/// A replayed session opens with the two events that say what runs, tells nothing but
/// output behind them, and ends as its last value says: a session that failed is never told
/// as completed, and one that completed never as failed.
pub proof fn law_session_ends_as_recorded(
    runtime_id: Seq<char>,
    provider_type: Seq<char>,
    request: &RuntimeRequest,
    model_id: Seq<char>,
    values: Seq<json::JsonTree>,
)
    ensures
        connector::recorded_events(
            runtime_id,
            provider_type,
            request,
            model_id,
            values,
        ) matches Ok(events) ==> {
            &&& events.len() >= 3
            &&& events[0].event_type == "connector.started"@
            &&& events[1].event_type == "runtime.started"@
            &&& json::text_field(events[0].payload, "modelId"@) == Some(model_id)
            &&& json::text_field(events[1].payload, "modelId"@) == Some(model_id)
            &&& json::text_field(events[1].payload, "source"@) == Some(provider_type)
            &&& json::text_field(events[1].payload, "manifestId"@) == Some(
                request.context_manifest_id@,
            )
            &&& forall|i: int|
                2 <= i < events.len() - 1 ==> (#[trigger] events[i]).event_type == "output.delta"@
            &&& forall|i: int|
                0 <= i < events.len() ==> is_of_run(#[trigger] events[i], runtime_id, request)
            &&& values.len() > 0
            &&& tells_success(values.last()) || tells_failure(values.last())
            &&& events.last().event_type == "execution.completed"@ <==> tells_success(values.last())
            &&& events.last().event_type == "execution.failed"@ <==> tells_failure(values.last())
        },
        values.len() == 0 || !tells_success(values.last()) && !tells_failure(values.last())
            ==> connector::recorded_events(runtime_id, provider_type, request, model_id, values)
            is Err,
{
    lemma_kinds_differ();
    lemma_types_differ();
    lemma_members_differ();
    reveal_with_fuel(json::member, 5);
    let start = connector::recorded_start(runtime_id, provider_type, request, model_id);
    lemma_run_ends_with_its_last(start, runtime_id, request, model_id, values);
    if let Ok(events) = connector::recorded_events(
        runtime_id,
        provider_type,
        request,
        model_id,
        values,
    ) {
        assert(events[0] == start.events[0]);
        assert(events[1] == start.events[1]);
        assert forall|i: int| 0 <= i < events.len() implies is_of_run(
            #[trigger] events[i],
            runtime_id,
            request,
        ) by {
            if i < 2 {
                assert(events[i] == start.events[i]);
            }
        }
    }
}

/// A recorded session whose values all say what they are, and which ends with its last
/// value and not before, is replayed.
pub open spec fn is_good(value: json::JsonTree) -> bool {
    tells_start(value) || (tells_output(value) && exists|s: Seq<char>| #[trigger] carries(value, s))
}

proof fn lemma_good_run(
    run: fixture::RunView,
    runtime_id: Seq<char>,
    request: &RuntimeRequest,
    model_id: Seq<char>,
    values: Seq<json::JsonTree>,
)
    requires
        !run.ended,
        values.len() > 0,
        forall|i: int| 0 <= i < values.len() - 1 ==> is_good(#[trigger] values[i]),
        tells_success(values.last()) || tells_failure(values.last()),
    ensures
        connector::recorded_run(run, runtime_id, request, model_id, values) matches Ok(r) && r.ended,
    decreases values.len(),
{
    let value = values[0];
    let rest = values.drop_first();
    if values.len() == 1 {
        assert(values.last() == value);
        law_recorded_values_are_told(run, runtime_id, request, model_id, value, seq![]);
        reveal_with_fuel(connector::recorded_run, 2);
    } else {
        assert(is_good(values[0]));
        let s = if tells_start(value) {
            Seq::<char>::empty()
        } else {
            choose|s: Seq<char>| #[trigger] carries(value, s)
        };
        law_recorded_values_are_told(run, runtime_id, request, model_id, value, s);
        let next = step(run, runtime_id, request, model_id, value)->Ok_0;
        lemma_kinds_differ();
        assert(!next.ended);
        assert(forall|i: int| 0 <= i < rest.len() ==> #[trigger] rest[i] == values[i + 1]);
        assert(rest.last() == values.last());
        lemma_good_run(next, runtime_id, request, model_id, rest);
    }
}

/// A good recorded session is replayed.
pub proof fn law_good_session_is_replayed(
    runtime_id: Seq<char>,
    provider_type: Seq<char>,
    request: &RuntimeRequest,
    model_id: Seq<char>,
    values: Seq<json::JsonTree>,
)
    requires
        values.len() > 0,
        forall|i: int| 0 <= i < values.len() - 1 ==> is_good(#[trigger] values[i]),
        tells_success(values.last()) || tells_failure(values.last()),
    ensures
        connector::recorded_events(runtime_id, provider_type, request, model_id, values) is Ok,
{
    lemma_good_run(
        connector::recorded_start(runtime_id, provider_type, request, model_id),
        runtime_id,
        request,
        model_id,
        values,
    );
}

/// A request runs with the model that it asks for, or with the first one where it asks for
/// none; a model that is not in the catalog is not run.
pub proof fn law_only_listed_models_are_run(ids: Seq<Seq<char>>, id: Seq<char>)
    ensures
        connector::selected_model(ids, Some(id)) == if id.len() > 0 && ids.contains(id) {
            Some(id)
        } else {
            None
        },
        ids.len() > 0 && ids[0].len() > 0 ==> connector::selected_model(ids, None) == Some(ids[0]),
        ids.len() == 0 ==> connector::selected_model(ids, None) is None,
{
    if ids.len() > 0 {
        assert(ids.contains(ids[0]));
    }
}

/// A request for write access is refused by a connector that cannot give it, and one for a
/// model that is not listed is refused by every connector.
pub proof fn law_requests_are_checked_before_the_replay(
    c: &FixtureConnectorRuntime,
    request: &RuntimeRequest,
    recorded: Seq<char>,
    values: Seq<json::JsonTree>,
)
    ensures
        request.workspace_access == WorkspaceAccess::WorkspaceWrite && !c.capabilities.filesystem
            ==> c.value_events(request, values) == Err::<Seq<event::EventView>, error::ErrorView>(
            error::ErrorView::Permission,
        ) && c.fixture_events(request, recorded) == Err::<Seq<event::EventView>, error::ErrorView>(
            error::ErrorView::Permission,
        ),
        !(request.workspace_access == WorkspaceAccess::WorkspaceWrite
            && !c.capabilities.filesystem) && (request.model_id matches Some(m)
            && !c.models().contains(m@)) ==> c.value_events(request, values) == Err::<
            Seq<event::EventView>,
            error::ErrorView,
        >(
            error::ErrorView::Protocol(
                "requested model is not in this connector fixture catalog"@,
            ),
        ) && c.fixture_events(request, recorded) == Err::<Seq<event::EventView>, error::ErrorView>(
            error::ErrorView::Protocol(
                "requested model is not in this connector fixture catalog"@,
            ),
        ),
        !(request.workspace_access == WorkspaceAccess::WorkspaceWrite
            && !c.capabilities.filesystem) ==> (request.model_id matches Some(m) ==> (m@.len() > 0
            && c.models().contains(m@) ==> c.value_events(request, values)
            == connector::recorded_events(
            c.runtime_id@,
            c.provider_type@,
            request,
            m@,
            values,
        ))),
{
}

/// Names of models are kept without the white space around them, in their order; blank ones
/// are left out.
pub proof fn law_names_are_trimmed(ids: Seq<Seq<char>>, x: Seq<char>)
    ensures
        connector::trimmed_ids(ids).contains(x) <==> x.len() > 0 && exists|i: int|
            0 <= i < ids.len() && text::trim(#[trigger] ids[i]) == x,
        connector::trimmed_ids(ids).len() <= ids.len(),
    decreases ids.len(),
{
    let all = connector::trimmed_ids(ids);
    if ids.len() > 0 {
        let shorter = ids.drop_last();
        let before = connector::trimmed_ids(shorter);
        law_names_are_trimmed(shorter, x);
        assert(ids[ids.len() - 1] == ids.last());
        assert(forall|i: int| 0 <= i < shorter.len() ==> #[trigger] shorter[i] == ids[i]);
        if before.contains(x) {
            let k = choose|k: int| 0 <= k < before.len() && before[k] == x;
            assert(all[k] == x);
            let i = choose|i: int| 0 <= i < shorter.len() && text::trim(#[trigger] shorter[i]) == x;
            assert(text::trim(ids[i]) == x);
        }
        if text::trim(ids.last()) == x && x.len() > 0 {
            assert(all[all.len() - 1] == x);
            assert(text::trim(ids[ids.len() - 1]) == x);
        }
        if all.contains(x) && !before.contains(x) {
            let k = choose|k: int| 0 <= k < all.len() && all[k] == x;
            if k < before.len() {
                assert(before[k] == x);
            }
            assert(text::trim(ids[ids.len() - 1]) == x);
        }
        if exists|i: int| 0 <= i < ids.len() && text::trim(#[trigger] ids[i]) == x {
            let i = choose|i: int| 0 <= i < ids.len() && text::trim(#[trigger] ids[i]) == x;
            if i < shorter.len() {
                assert(text::trim(shorter[i]) == x);
            }
        }
    } else {
        assert(!all.contains(x));
    }
}

/// A recording is a list, or values one to a line, blank lines left out; an empty one is
/// refused, and so is one with a line that is no JSON.
pub proof fn law_recordings_are_read(
    recorded: Seq<char>,
    lines: Seq<Seq<char>>,
    line: Seq<char>,
)
    ensures
        text::trim(recorded).len() == 0 ==> connector::recorded_values(recorded) == Err::<
            Seq<json::JsonTree>,
            error::ErrorView,
        >(error::ErrorView::Protocol("connector fixture is empty"@)),
        text::trim(line).len() == 0 ==> connector::line_values(lines.push(line))
            == connector::line_values(lines),
        text::trim(line).len() > 0 ==> match (
            connector::line_values(lines),
            json::json_text(line),
        ) {
            (Ok(values), Ok(value)) => connector::line_values(lines.push(line)) == Ok::<
                Seq<json::JsonTree>,
                error::ErrorView,
            >(values.push(value)),
            _ => connector::line_values(lines.push(line)) is Err,
        },
        connector::line_values(seq![]) == Ok::<Seq<json::JsonTree>, error::ErrorView>(seq![]),
{
    assert(lines.push(line).drop_last() =~= lines);
    assert(lines.push(line).last() == line);
}

} // verus!
