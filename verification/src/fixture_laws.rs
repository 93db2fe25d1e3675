//! What holds of every recorded run, in terms of what was recorded and the events that
//! are read from it.

use vstd::prelude::*;
use vstd::string::*;

use crate::error;
use crate::event;
use crate::event::{RuntimeRequest, WorkspaceAccess};
use crate::fixture;
use crate::json;

verus! {

/// The types of events are different.
proof fn lemma_types_differ()
    ensures
        "runtime.started"@.len() == 15,
        "output.delta"@.len() == 12,
        "execution.completed"@.len() == 19,
        "execution.failed"@.len() == 16,
        "session.started"@.len() == 15,
        "turn.completed"@.len() == 14,
        "runtime.started"@[0] != "session.started"@[0],
{
    reveal_strlit("runtime.started");
    reveal_strlit("output.delta");
    reveal_strlit("execution.completed");
    reveal_strlit("execution.failed");
    reveal_strlit("session.started");
    reveal_strlit("turn.completed");
}

/// The keys of payloads are different.
proof fn lemma_keys_differ()
    ensures
        "delta"@.len() == 5,
        "modelId"@.len() == 7,
        "output"@.len() == 6,
        "manifestId"@.len() == 10,
        "source"@.len() == 6,
        "output"@[0] != "source"@[0],
{
    reveal_strlit("delta");
    reveal_strlit("modelId");
    reveal_strlit("output");
    reveal_strlit("manifestId");
    reveal_strlit("source");
}

/// The texts in a row.
pub open spec fn glued(parts: Seq<Seq<char>>) -> Seq<char>
    decreases parts.len(),
{
    if parts.len() == 0 {
        seq![]
    } else {
        glued(parts.drop_last()) + parts.last()
    }
}

/// The pieces of output that events tell.
pub open spec fn told(events: Seq<event::EventView>) -> Seq<Seq<char>>
    decreases events.len(),
{
    if events.len() == 0 {
        seq![]
    } else {
        let before = told(events.drop_last());
        let e = events.last();
        if e.event_type == "output.delta"@ && json::text_field(e.payload, "delta"@) is Some {
            before.push(json::text_field(e.payload, "delta"@)->0)
        } else {
            before
        }
    }
}

/// The pieces of output that recorded items hold, where `key` names their type.
pub open spec fn recorded(items: Seq<json::JsonTree>, key: Seq<char>) -> Seq<Seq<char>>
    decreases items.len(),
{
    if items.len() == 0 {
        seq![]
    } else {
        let before = recorded(items.drop_last(), key);
        let item = items.last();
        if json::text_field(item, key) == Some("output.delta"@) && json::text_field(item, "delta"@)
            is Some {
            before.push(json::text_field(item, "delta"@)->0)
        } else {
            before
        }
    }
}

/// Whether an item is of a type.
pub open spec fn is_of(item: json::JsonTree, key: Seq<char>, kind: Seq<char>) -> bool {
    json::text_field(item, key) == Some(kind)
}

/// Whether some item is of a type.
pub open spec fn has_item(items: Seq<json::JsonTree>, key: Seq<char>, kind: Seq<char>) -> bool {
    exists|i: int| 0 <= i < items.len() && is_of(#[trigger] items[i], key, kind)
}

/// Whether some event is of a type.
pub open spec fn has_event(events: Seq<event::EventView>, kind: Seq<char>) -> bool {
    exists|i: int| 0 <= i < events.len() && (#[trigger] events[i]).event_type == kind
}

/// Whether an event belongs to the run of a request.
pub open spec fn is_of_run(
    e: event::EventView,
    request: &RuntimeRequest,
    runtime_id: Seq<char>,
) -> bool {
    e.execution_run_id == request.execution_run_id@ && e.runtime_id == runtime_id
}

/// What is read of a run so far, beside the items that it was read from.
spec fn follows(run: fixture::RunView, items: Seq<json::JsonTree>, request: &RuntimeRequest) -> bool {
    &&& run.events.len() > 0
    &&& run.events[0].event_type == "runtime.started"@
    &&& told(run.events) == recorded(items, "type"@)
    &&& run.output == glued(recorded(items, "type"@))
    &&& run.ended <==> has_item(items, "type"@, "execution.completed"@) || has_item(
        items,
        "type"@,
        "execution.failed"@,
    )
    &&& forall|i: int|
        0 <= i < items.len() && is_of(#[trigger] items[i], "type"@, "execution.failed"@) ==> exists|
            j: int,
        |
            0 <= j < run.events.len() && (#[trigger] run.events[j]).event_type
                == "execution.failed"@ && run.events[j].payload == items[i]
    &&& forall|j: int|
        0 <= j < run.events.len() ==> {
            let kind = (#[trigger] run.events[j]).event_type;
            &&& kind == "runtime.started"@ || kind == "output.delta"@ || kind
                == "execution.failed"@
            &&& is_of_run(run.events[j], request, "http-custom"@)
            &&& kind == "execution.failed"@ ==> has_item(items, "type"@, "execution.failed"@)
        }
}

proof fn lemma_told_push(events: Seq<event::EventView>, e: event::EventView)
    ensures
        told(events.push(e)) == if e.event_type == "output.delta"@ && json::text_field(
            e.payload,
            "delta"@,
        ) is Some {
            told(events).push(json::text_field(e.payload, "delta"@)->0)
        } else {
            told(events)
        },
{
    assert(events.push(e).drop_last() =~= events);
}

proof fn lemma_recorded_push(items: Seq<json::JsonTree>, item: json::JsonTree, key: Seq<char>)
    ensures
        recorded(items.push(item), key) == if is_of(item, key, "output.delta"@)
            && json::text_field(item, "delta"@) is Some {
            recorded(items, key).push(json::text_field(item, "delta"@)->0)
        } else {
            recorded(items, key)
        },
{
    assert(items.push(item).drop_last() =~= items);
}

proof fn lemma_glued_push(parts: Seq<Seq<char>>, part: Seq<char>)
    ensures
        glued(parts.push(part)) == glued(parts) + part,
{
    assert(parts.push(part).drop_last() =~= parts);
}

proof fn lemma_has_item_push(
    items: Seq<json::JsonTree>,
    item: json::JsonTree,
    key: Seq<char>,
    kind: Seq<char>,
)
    ensures
        has_item(items.push(item), key, kind) <==> has_item(items, key, kind) || is_of(
            item,
            key,
            kind,
        ),
{
    let all = items.push(item);
    if has_item(items, key, kind) {
        let i = choose|i: int| 0 <= i < items.len() && is_of(#[trigger] items[i], key, kind);
        assert(all[i] == items[i]);
    }
    if is_of(item, key, kind) {
        assert(all[items.len() as int] == item);
    }
    if has_item(all, key, kind) {
        let i = choose|i: int| 0 <= i < all.len() && is_of(#[trigger] all[i], key, kind);
        if i < items.len() {
            assert(items[i] == all[i]);
        }
    }
}

#[verifier::rlimit(40)]
proof fn lemma_http_item(
    run: fixture::RunView,
    done: Seq<json::JsonTree>,
    item: json::JsonTree,
    request: &RuntimeRequest,
)
    requires
        follows(run, done, request),
    ensures
        fixture::http_item_step(run, request, item) matches Ok(next) ==> follows(
            next,
            done.push(item),
            request,
        ),
{
    lemma_types_differ();
    lemma_keys_differ();
    reveal_with_fuel(json::member, 2);
    let all = done.push(item);
    lemma_recorded_push(done, item, "type"@);
    lemma_has_item_push(done, item, "type"@, "execution.completed"@);
    lemma_has_item_push(done, item, "type"@, "execution.failed"@);
    if let Ok(next) = fixture::http_item_step(run, request, item) {
        if next.events.len() > run.events.len() {
            let e = next.events.last();
            assert(next.events =~= run.events.push(e));
            lemma_told_push(run.events, e);
        }
        if let Some(d) = json::text_field(item, "delta"@) {
            lemma_glued_push(recorded(done, "type"@), d);
        }
        assert forall|i: int|
            0 <= i < all.len() && is_of(#[trigger] all[i], "type"@, "execution.failed"@) implies exists|
            j: int,
        |
            0 <= j < next.events.len() && (#[trigger] next.events[j]).event_type
                == "execution.failed"@ && next.events[j].payload == all[i] by {
            if i < done.len() {
                assert(done[i] == all[i]);
                let j = choose|j: int|
                    0 <= j < run.events.len() && (#[trigger] run.events[j]).event_type
                        == "execution.failed"@ && run.events[j].payload == done[i];
                assert(next.events[j] == run.events[j]);
            } else {
                assert(next.events[next.events.len() - 1].payload == item);
            }
        }
        assert forall|j: int| 0 <= j < next.events.len() implies {
            let kind = (#[trigger] next.events[j]).event_type;
            &&& kind == "runtime.started"@ || kind == "output.delta"@ || kind
                == "execution.failed"@
            &&& is_of_run(next.events[j], request, "http-custom"@)
            &&& kind == "execution.failed"@ ==> has_item(all, "type"@, "execution.failed"@)
        } by {
            if j < run.events.len() {
                assert(next.events[j] == run.events[j]);
            }
        }
        assert(next.events[0] == run.events[0]);
    }
}

proof fn lemma_http_items(
    run: fixture::RunView,
    done: Seq<json::JsonTree>,
    items: Seq<json::JsonTree>,
    request: &RuntimeRequest,
)
    requires
        follows(run, done, request),
    ensures
        fixture::http_items_run(run, request, items) matches Ok(last) ==> follows(
            last,
            done + items,
            request,
        ),
    decreases items.len(),
{
    if items.len() == 0 {
        assert(done + items =~= done);
    } else {
        lemma_http_item(run, done, items[0], request);
        if let Ok(next) = fixture::http_item_step(run, request, items[0]) {
            lemma_http_items(next, done.push(items[0]), items.drop_first(), request);
            assert(done.push(items[0]) + items.drop_first() =~= done + items);
        }
    }
}

/// The events of a body that lists its events tell what is listed: each piece of
/// output in its order; each failure with its item, and then no completion; and
/// without a failure a completion with the whole output. A body that lists neither a
/// completion nor a failure is refused.
pub proof fn law_listed_events_are_told(
    request: &RuntimeRequest,
    model_id: Seq<char>,
    value: json::JsonTree,
    items: Seq<json::JsonTree>,
)
    requires
        json::list_value(json::field(value, "events"@)) == Some(items),
    ensures
        match fixture::http_value_events(request, model_id, value) {
            Ok(events) => {
                let failed = has_item(items, "type"@, "execution.failed"@);
                &&& events.len() > 0 && events[0].event_type == "runtime.started"@
                &&& told(events) == recorded(items, "type"@)
                &&& failed || has_item(items, "type"@, "execution.completed"@)
                &&& forall|i: int|
                    0 <= i < items.len() && is_of(#[trigger] items[i], "type"@, "execution.failed"@)
                        ==> exists|j: int|
                        0 <= j < events.len() && (#[trigger] events[j]).event_type
                            == "execution.failed"@ && events[j].payload == items[i]
                &&& has_event(events, "execution.failed"@) <==> failed
                &&& has_event(events, "execution.completed"@) <==> !failed
                &&& !failed ==> events.last().event_type == "execution.completed"@
                    && json::text_field(events.last().payload, "output"@) == Some(
                    glued(recorded(items, "type"@)),
                ) && json::text_field(events.last().payload, "modelId"@) == Some(model_id)
                &&& forall|j: int|
                    0 <= j < events.len() ==> is_of_run(
                        #[trigger] events[j],
                        request,
                        "http-custom"@,
                    )
            },
            Err(_) => true,
        },
{
    lemma_types_differ();
    lemma_keys_differ();
    reveal_with_fuel(json::member, 3);
    let start = fixture::started("http-custom"@, request, "http-custom-fixture"@);
    let first = fixture::RunView { events: seq![start], output: seq![], ended: false };
    let none = Seq::<json::JsonTree>::empty();
    lemma_told_push(seq![], start);
    assert(first.events =~= Seq::<event::EventView>::empty().push(start));
    assert(recorded(none, "type"@) =~= seq![]);
    assert(told(first.events) =~= recorded(none, "type"@));
    assert(first.output =~= glued(recorded(none, "type"@)));
    assert(follows(first, none, request));
    lemma_http_items(first, none, items, request);
    assert(none + items =~= items);
    if let Ok(run) = fixture::http_items_run(first, request, items) {
        if has_item(items, "type"@, "execution.failed"@) {
            let i = choose|i: int|
                0 <= i < items.len() && is_of(#[trigger] items[i], "type"@, "execution.failed"@);
            assert(exists|j: int|
                0 <= j < run.events.len() && (#[trigger] run.events[j]).event_type
                    == "execution.failed"@);
            assert(fixture::has_failed(run.events));
        } else {
            assert(!fixture::has_failed(run.events));
        }
        if let Ok(events) = fixture::http_value_events(request, model_id, value) {
            if !fixture::has_failed(run.events) {
                let e = events.last();
                assert(events =~= run.events.push(e));
                lemma_told_push(run.events, e);
                assert(events[events.len() - 1].event_type == "execution.completed"@);
                assert(events[0] == run.events[0]);
                assert forall|j: int| 0 <= j < events.len() - 1 implies (#[trigger]
                events[j]).event_type != "execution.failed"@ by {
                    assert(events[j] == run.events[j]);
                }
                assert forall|j: int| 0 <= j < events.len() implies is_of_run(
                    #[trigger] events[j],
                    request,
                    "http-custom"@,
                ) by {
                    if j < run.events.len() {
                        assert(events[j] == run.events[j]);
                    }
                }
            }
        }
    }
}

proof fn lemma_http_item_refused(
    run: fixture::RunView,
    request: &RuntimeRequest,
    items: Seq<json::JsonTree>,
    i: int,
)
    requires
        0 <= i < items.len(),
        ({
            let kind = json::text_field(items[i], "type"@);
            ||| kind is None
            ||| kind == Some("output.delta"@) && json::text_field(items[i], "delta"@) is None
            ||| kind != Some("output.delta"@) && kind != Some("execution.completed"@) && kind
                != Some("execution.failed"@)
        }),
    ensures
        fixture::http_items_run(run, request, items) is Err,
    decreases items.len(),
{
    lemma_types_differ();
    if i > 0 {
        if let Ok(next) = fixture::http_item_step(run, request, items[0]) {
            lemma_http_item_refused(next, request, items.drop_first(), i - 1);
        }
    }
}

/// A body that lists an event without a type, a piece of output without a text or an
/// event of any other type is refused.
pub proof fn law_broken_listed_event_is_refused(
    request: &RuntimeRequest,
    model_id: Seq<char>,
    value: json::JsonTree,
    items: Seq<json::JsonTree>,
    i: int,
)
    requires
        json::list_value(json::field(value, "events"@)) == Some(items),
        0 <= i < items.len(),
        ({
            let kind = json::text_field(items[i], "type"@);
            ||| kind is None
            ||| kind == Some("output.delta"@) && json::text_field(items[i], "delta"@) is None
            ||| kind != Some("output.delta"@) && kind != Some("execution.completed"@) && kind
                != Some("execution.failed"@)
        }),
    ensures
        fixture::http_value_events(request, model_id, value) matches Err(error::ErrorView::Protocol(
            _,
        )),
{
    let first = fixture::RunView {
        events: seq![fixture::started("http-custom"@, request, "http-custom-fixture"@)],
        output: seq![],
        ended: false,
    };
    lemma_http_item_refused(first, request, items, i);
    lemma_http_errors(first, request, items);
}

proof fn lemma_http_errors(
    run: fixture::RunView,
    request: &RuntimeRequest,
    items: Seq<json::JsonTree>,
)
    ensures
        fixture::http_items_run(run, request, items) matches Err(e) ==> e is Protocol,
    decreases items.len(),
{
    if items.len() > 0 {
        if let Ok(next) = fixture::http_item_step(run, request, items[0]) {
            lemma_http_errors(next, request, items.drop_first());
        }
    }
}

/// A body that holds its whole output is told as one piece and a completion, if it
/// says that it is complete, and is refused if it does not say so. So is a body
/// without any output.
pub proof fn law_whole_output_is_told(
    request: &RuntimeRequest,
    model_id: Seq<char>,
    value: json::JsonTree,
)
    requires
        json::list_value(json::field(value, "events"@)) is None,
    ensures
        ({
            let a = json::text_field(value, "outputText"@);
            let b = json::text_field(value, "content"@);
            let output = if a is Some {
                a
            } else {
                b
            };
            let complete = json::field(value, "completed"@) == Some(json::JsonTree::Bool(true))
                || json::text_field(value, "status"@) == Some("completed"@);
            match fixture::http_value_events(request, model_id, value) {
                Ok(events) => {
                    &&& complete && output is Some
                    &&& events.len() == 3
                    &&& events[0].event_type == "runtime.started"@
                    &&& events[1].event_type == "output.delta"@
                    &&& json::text_field(events[1].payload, "delta"@) == output
                    &&& events[2].event_type == "execution.completed"@
                    &&& json::text_field(events[2].payload, "output"@) == output
                    &&& json::text_field(events[2].payload, "modelId"@) == Some(model_id)
                },
                Err(e) => (!complete || output is None) && e is Protocol,
            }
        }),
{
    lemma_types_differ();
    lemma_keys_differ();
    reveal_with_fuel(json::member, 3);
}

/// Nothing is read for a request that may write: none of these providers may.
pub proof fn law_write_access_is_refused(
    request: &RuntimeRequest,
    model_id: Seq<char>,
    body: Seq<char>,
    chunks: Seq<Seq<char>>,
)
    ensures
        request.workspace_access == WorkspaceAccess::WorkspaceWrite ==> fixture::http_events(
            request,
            model_id,
            body,
        ) == Err::<Seq<event::EventView>, error::ErrorView>(error::ErrorView::Permission)
            && fixture::sse_events(request, model_id, chunks) == Err::<
            Seq<event::EventView>,
            error::ErrorView,
        >(error::ErrorView::Permission),
        request.workspace_access != WorkspaceAccess::WorkspaceWrite ==> (fixture::http_events(
            request,
            model_id,
            body,
        ) matches Err(e) ==> e is Protocol),
{
    if let Ok(value) = json::json_text(body) {
        let first = fixture::RunView {
            events: seq![fixture::started("http-custom"@, request, "http-custom-fixture"@)],
            output: seq![],
            ended: false,
        };
        if let Some(items) = json::list_value(json::field(value, "events"@)) {
            lemma_http_errors(first, request, items);
        }
    }
}

/// The output that a server-sent value carries, in the first of its places.
pub open spec fn carries(value: json::JsonTree, s: Seq<char>) -> bool {
    let choices = json::field(value, "choices"@);
    let a = json::text_value(
        json::then_field(json::then_field(json::then_element(choices, 0), "delta"@), "content"@),
    );
    let b = json::text_field(value, "output_text"@);
    a == Some(s) || (a is None && b == Some(s))
}

/// The pieces of output that frames carry; a frame that carries none, or an empty
/// one, adds nothing.
pub open spec fn sent(frames: Seq<Seq<char>>) -> Seq<Seq<char>>
    decreases frames.len(),
{
    if frames.len() == 0 {
        seq![]
    } else {
        let before = sent(frames.drop_last());
        let frame = frames.last();
        if frame != "[DONE]"@ && exists|s: Seq<char>|
            s.len() > 0 && #[trigger] frame_carries(frame, s) {
            before.push(choose|s: Seq<char>| s.len() > 0 && #[trigger] frame_carries(frame, s))
        } else {
            before
        }
    }
}

/// Whether a frame carries a piece of output.
pub open spec fn frame_carries(frame: Seq<char>, s: Seq<char>) -> bool {
    json::json_text(frame) matches Ok(value) && carries(value, s)
}

spec fn sse_follows(
    run: fixture::RunView,
    frames: Seq<Seq<char>>,
    request: &RuntimeRequest,
) -> bool {
    &&& run.events.len() > 0
    &&& run.events[0].event_type == "runtime.started"@
    &&& told(run.events) == sent(frames)
    &&& run.output == glued(sent(frames))
    &&& run.ended <==> frames.contains("[DONE]"@)
    &&& forall|j: int|
        0 <= j < run.events.len() ==> {
            let kind = (#[trigger] run.events[j]).event_type;
            &&& kind == "runtime.started"@ || kind == "output.delta"@
            &&& is_of_run(run.events[j], request, "openai-compatible"@)
        }
}

#[verifier::rlimit(40)]
proof fn lemma_sse_frame(
    run: fixture::RunView,
    done: Seq<Seq<char>>,
    frame: Seq<char>,
    request: &RuntimeRequest,
)
    requires
        sse_follows(run, done, request),
    ensures
        fixture::sse_frame_step(run, request, frame) matches Ok(next) ==> sse_follows(
            next,
            done.push(frame),
            request,
        ),
{
    lemma_types_differ();
    lemma_keys_differ();
    reveal_with_fuel(json::member, 2);
    let all = done.push(frame);
    assert(all.drop_last() =~= done);
    assert(all.contains("[DONE]"@) <==> done.contains("[DONE]"@) || frame == "[DONE]"@) by {
        assert(all[done.len() as int] == frame);
        if done.contains("[DONE]"@) {
            let i = choose|i: int| 0 <= i < done.len() && done[i] == "[DONE]"@;
            assert(all[i] == done[i]);
        }
        if all.contains("[DONE]"@) {
            let i = choose|i: int| 0 <= i < all.len() && all[i] == "[DONE]"@;
            if i < done.len() {
                assert(done[i] == all[i]);
            }
        }
    }
    if let Ok(next) = fixture::sse_frame_step(run, request, frame) {
        if frame != "[DONE]"@ {
            let value = json::json_text(frame)->Ok_0;
            let d = fixture::sse_delta(value);
            if d.len() > 0 {
                assert(frame_carries(frame, d));
                let x = choose|s: Seq<char>| s.len() > 0 && #[trigger] frame_carries(frame, s);
                assert(x == d);
                let e = next.events.last();
                assert(next.events =~= run.events.push(e));
                lemma_told_push(run.events, e);
                lemma_glued_push(sent(done), d);
                assert forall|j: int| 0 <= j < next.events.len() implies {
                    let kind = (#[trigger] next.events[j]).event_type;
                    &&& kind == "runtime.started"@ || kind == "output.delta"@
                    &&& is_of_run(next.events[j], request, "openai-compatible"@)
                } by {
                    if j < run.events.len() {
                        assert(next.events[j] == run.events[j]);
                    }
                }
                assert(next.events[0] == run.events[0]);
            } else {
                assert forall|s: Seq<char>| s.len() > 0 implies !(#[trigger] frame_carries(
                    frame,
                    s,
                )) by {}
            }
        }
    }
}

proof fn lemma_sse_frames(
    run: fixture::RunView,
    done: Seq<Seq<char>>,
    frames: Seq<Seq<char>>,
    request: &RuntimeRequest,
)
    requires
        sse_follows(run, done, request),
    ensures
        fixture::sse_frames_run(run, request, frames) matches Ok(last) ==> sse_follows(
            last,
            done + frames,
            request,
        ),
    decreases frames.len(),
{
    if frames.len() == 0 {
        assert(done + frames =~= done);
    } else {
        lemma_sse_frame(run, done, frames[0], request);
        if let Ok(next) = fixture::sse_frame_step(run, request, frames[0]) {
            lemma_sse_frames(next, done.push(frames[0]), frames.drop_first(), request);
            assert(done.push(frames[0]) + frames.drop_first() =~= done + frames);
        }
    }
}

/// The events of a server-sent run tell what was sent: each piece of output in its
/// order, and then a completion with the whole output. A run that is not marked as
/// done is refused.
pub proof fn law_sent_output_is_told(
    request: &RuntimeRequest,
    model_id: Seq<char>,
    chunks: Seq<Seq<char>>,
)
    ensures
        ({
            let frames = fixture::sse_frames(seq![], chunks);
            match fixture::sse_events(request, model_id, chunks) {
                Ok(events) => {
                    &&& frames.contains("[DONE]"@)
                    &&& events.len() >= 2
                    &&& events[0].event_type == "runtime.started"@
                    &&& told(events) == sent(frames)
                    &&& events.last().event_type == "execution.completed"@
                    &&& json::text_field(events.last().payload, "output"@) == Some(
                        glued(sent(frames)),
                    )
                    &&& json::text_field(events.last().payload, "modelId"@) == Some(model_id)
                    &&& forall|j: int|
                        0 <= j < events.len() - 1 ==> (#[trigger] events[j]).event_type
                            == "runtime.started"@ || events[j].event_type == "output.delta"@
                    &&& forall|j: int|
                        0 <= j < events.len() ==> is_of_run(
                            #[trigger] events[j],
                            request,
                            "openai-compatible"@,
                        )
                },
                Err(_) => true,
            }
        }),
{
    lemma_types_differ();
    lemma_keys_differ();
    reveal_with_fuel(json::member, 3);
    let frames = fixture::sse_frames(seq![], chunks);
    let start = fixture::started("openai-compatible"@, request, "openai-compatible"@);
    let first = fixture::RunView { events: seq![start], output: seq![], ended: false };
    let none = Seq::<Seq<char>>::empty();
    lemma_told_push(seq![], start);
    assert(first.events =~= Seq::<event::EventView>::empty().push(start));
    assert(sent(none) =~= seq![]);
    assert(told(first.events) =~= sent(none));
    assert(first.output =~= glued(sent(none)));
    assert(sse_follows(first, none, request));
    lemma_sse_frames(first, none, frames, request);
    assert(none + frames =~= frames);
    if let Ok(run) = fixture::sse_frames_run(first, request, frames) {
        if let Ok(events) = fixture::sse_events(request, model_id, chunks) {
            let e = events.last();
            assert(events =~= run.events.push(e));
            lemma_told_push(run.events, e);
            assert(events[0] == run.events[0]);
            assert forall|j: int| 0 <= j < events.len() implies is_of_run(
                #[trigger] events[j],
                request,
                "openai-compatible"@,
            ) && (j < events.len() - 1 ==> events[j].event_type == "runtime.started"@
                || events[j].event_type == "output.delta"@) by {
                if j < run.events.len() {
                    assert(events[j] == run.events[j]);
                }
            }
        }
    }
}

proof fn lemma_sse_broken(
    run: fixture::RunView,
    request: &RuntimeRequest,
    frames: Seq<Seq<char>>,
    i: int,
)
    requires
        0 <= i < frames.len(),
        frames[i] != "[DONE]"@,
        json::json_text(frames[i]) is Err,
    ensures
        fixture::sse_frames_run(run, request, frames) is Err,
    decreases frames.len(),
{
    if i > 0 {
        if let Ok(next) = fixture::sse_frame_step(run, request, frames[0]) {
            lemma_sse_broken(next, request, frames.drop_first(), i - 1);
        }
    }
}

/// A server-sent run with a frame that is no JSON, or without the mark that it is
/// done, is refused.
pub proof fn law_broken_stream_is_refused(
    request: &RuntimeRequest,
    model_id: Seq<char>,
    chunks: Seq<Seq<char>>,
    i: int,
)
    requires
        ({
            let frames = fixture::sse_frames(seq![], chunks);
            !frames.contains("[DONE]"@) || (0 <= i < frames.len() && frames[i] != "[DONE]"@
                && json::json_text(frames[i]) is Err)
        }),
    ensures
        fixture::sse_events(request, model_id, chunks) is Err,
{
    let frames = fixture::sse_frames(seq![], chunks);
    law_sent_output_is_told(request, model_id, chunks);
    if frames.contains("[DONE]"@) {
        let first = fixture::RunView {
            events: seq![fixture::started("openai-compatible"@, request, "openai-compatible"@)],
            output: seq![],
            ended: false,
        };
        lemma_sse_broken(first, request, frames, i);
    }
}

spec fn acp_follows(run: fixture::RunView, items: Seq<json::JsonTree>, request: &RuntimeRequest) -> bool {
    &&& run.events.len() > 0
    &&& run.events[0].event_type == "runtime.started"@
    &&& told(run.events) == recorded(items, "kind"@)
    &&& run.ended <==> has_item(items, "kind"@, "turn.completed"@) || has_item(
        items,
        "kind"@,
        "execution.completed"@,
    )
    &&& forall|j: int|
        0 <= j < run.events.len() ==> {
            let kind = (#[trigger] run.events[j]).event_type;
            &&& kind == "runtime.started"@ || kind == "output.delta"@
            &&& is_of_run(run.events[j], request, "acp-mock"@)
        }
}

#[verifier::rlimit(40)]
proof fn lemma_acp_items(
    run: fixture::RunView,
    done: Seq<json::JsonTree>,
    items: Seq<json::JsonTree>,
    request: &RuntimeRequest,
    index: nat,
)
    requires
        acp_follows(run, done, request),
    ensures
        fixture::acp_items_run(run, request, index, items) matches Ok(last) ==> acp_follows(
            last,
            done + items,
            request,
        ),
    decreases items.len(),
{
    lemma_types_differ();
    lemma_keys_differ();
    reveal_with_fuel(json::member, 2);
    if items.len() == 0 {
        assert(done + items =~= done);
    } else {
        let item = items[0];
        lemma_recorded_push(done, item, "kind"@);
        lemma_has_item_push(done, item, "kind"@, "turn.completed"@);
        lemma_has_item_push(done, item, "kind"@, "execution.completed"@);
        if let Ok(next) = fixture::acp_item_step(run, request, index, item) {
            if next.events.len() > run.events.len() {
                let e = next.events.last();
                assert(next.events =~= run.events.push(e));
                lemma_told_push(run.events, e);
            }
            assert forall|j: int| 0 <= j < next.events.len() implies {
                let kind = (#[trigger] next.events[j]).event_type;
                &&& kind == "runtime.started"@ || kind == "output.delta"@
                &&& is_of_run(next.events[j], request, "acp-mock"@)
            } by {
                if j < run.events.len() {
                    assert(next.events[j] == run.events[j]);
                }
            }
            assert(next.events[0] == run.events[0]);
            lemma_acp_items(next, done.push(item), items.drop_first(), request, index + 1);
            assert(done.push(item) + items.drop_first() =~= done + items);
        }
    }
}

proof fn lemma_acp_refused(
    run: fixture::RunView,
    request: &RuntimeRequest,
    index: nat,
    items: Seq<json::JsonTree>,
    i: int,
)
    requires
        0 <= i < items.len(),
        ({
            let kind = json::text_field(items[i], "kind"@);
            ||| kind is None
            ||| kind == Some("output.delta"@) && json::text_field(items[i], "delta"@) is None
            ||| kind != Some("session.started"@) && kind != Some("output.delta"@) && kind != Some(
                "turn.completed"@,
            ) && kind != Some("execution.completed"@)
        }),
    ensures
        fixture::acp_items_run(run, request, index, items) is Err,
    decreases items.len(),
{
    lemma_types_differ();
    if i > 0 {
        if let Ok(next) = fixture::acp_item_step(run, request, index, items[0]) {
            lemma_acp_refused(next, request, index + 1, items.drop_first(), i - 1);
        }
    }
}

/// The events of a recorded session tell each recorded piece of output in its order
/// and then a completion. A recording without an end, or with an item that is of no
/// known kind or has lost its text, is refused.
pub proof fn law_recorded_session_is_told(
    request: &RuntimeRequest,
    values: Seq<json::JsonTree>,
    i: int,
)
    ensures
        match fixture::acp_value_events(request, values) {
            Ok(events) => {
                &&& has_item(values, "kind"@, "turn.completed"@) || has_item(
                    values,
                    "kind"@,
                    "execution.completed"@,
                )
                &&& 0 <= i < values.len() ==> {
                    let kind = json::text_field(values[i], "kind"@);
                    ||| kind == Some("session.started"@)
                    ||| kind == Some("output.delta"@) && json::text_field(values[i], "delta"@)
                        is Some
                    ||| kind == Some("turn.completed"@)
                    ||| kind == Some("execution.completed"@)
                }
                &&& events.len() >= 2
                &&& events[0].event_type == "runtime.started"@
                &&& told(events) == recorded(values, "kind"@)
                &&& events.last().event_type == "execution.completed"@
                &&& forall|j: int|
                    0 <= j < events.len() ==> is_of_run(#[trigger] events[j], request, "acp-mock"@)
            },
            Err(_) => true,
        },
{
    lemma_types_differ();
    lemma_keys_differ();
    reveal_with_fuel(json::member, 2);
    let start = fixture::started("acp-mock"@, request, "acp-fixture"@);
    let first = fixture::RunView { events: seq![start], output: seq![], ended: false };
    let none = Seq::<json::JsonTree>::empty();
    lemma_told_push(seq![], start);
    assert(first.events =~= Seq::<event::EventView>::empty().push(start));
    assert(told(first.events) =~= recorded(none, "kind"@));
    assert(acp_follows(first, none, request));
    lemma_acp_items(first, none, values, request, 0);
    assert(none + values =~= values);
    if let Ok(run) = fixture::acp_items_run(first, request, 0, values) {
        if let Ok(events) = fixture::acp_value_events(request, values) {
            let e = events.last();
            assert(events =~= run.events.push(e));
            lemma_told_push(run.events, e);
            assert(events[0] == run.events[0]);
            assert forall|j: int| 0 <= j < events.len() implies is_of_run(
                #[trigger] events[j],
                request,
                "acp-mock"@,
            ) by {
                if j < run.events.len() {
                    assert(events[j] == run.events[j]);
                }
            }
            if 0 <= i < values.len() {
                let kind = json::text_field(values[i], "kind"@);
                if kind is None || (kind == Some("output.delta"@) && json::text_field(
                    values[i],
                    "delta"@,
                ) is None) || (kind != Some("session.started"@) && kind != Some("output.delta"@)
                    && kind != Some("turn.completed"@) && kind != Some("execution.completed"@)) {
                    lemma_acp_refused(first, request, 0, values, i);
                }
            }
        }
    }
}

/// Whether an item of a body can be read.
pub open spec fn is_good_item(item: json::JsonTree) -> bool {
    ||| is_of(item, "type"@, "output.delta"@) && json::text_field(item, "delta"@) is Some
    ||| is_of(item, "type"@, "execution.completed"@)
    ||| is_of(item, "type"@, "execution.failed"@)
}

proof fn lemma_good_items(
    run: fixture::RunView,
    request: &RuntimeRequest,
    items: Seq<json::JsonTree>,
)
    requires
        forall|i: int| 0 <= i < items.len() ==> is_good_item(#[trigger] items[i]),
    ensures
        fixture::http_items_run(run, request, items) is Ok,
        run.ended ==> fixture::http_items_run(run, request, items)->Ok_0.ended,
        has_item(items, "type"@, "execution.completed"@) || has_item(
            items,
            "type"@,
            "execution.failed"@,
        ) ==> fixture::http_items_run(run, request, items)->Ok_0.ended,
    decreases items.len(),
{
    lemma_types_differ();
    if items.len() > 0 {
        let rest = items.drop_first();
        assert(is_good_item(items[0]));
        assert(forall|i: int| 0 <= i < rest.len() ==> #[trigger] rest[i] == items[i + 1]);
        let next = fixture::http_item_step(run, request, items[0])->Ok_0;
        lemma_good_items(next, request, rest);
        if has_item(items, "type"@, "execution.completed"@) {
            let i = choose|i: int|
                0 <= i < items.len() && is_of(#[trigger] items[i], "type"@, "execution.completed"@);
            if i > 0 {
                assert(rest[i - 1] == items[i]);
            }
        }
        if has_item(items, "type"@, "execution.failed"@) {
            let i = choose|i: int|
                0 <= i < items.len() && is_of(#[trigger] items[i], "type"@, "execution.failed"@);
            if i > 0 {
                assert(rest[i - 1] == items[i]);
            }
        }
    }
}

/// A body whose items can all be read, with an end among them, is taken.
pub proof fn law_good_list_is_taken(
    request: &RuntimeRequest,
    model_id: Seq<char>,
    body: Seq<char>,
    value: json::JsonTree,
    items: Seq<json::JsonTree>,
)
    requires
        request.workspace_access != WorkspaceAccess::WorkspaceWrite,
        json::json_text(body) == Ok::<json::JsonTree, Seq<char>>(value),
        json::list_value(json::field(value, "events"@)) == Some(items),
        forall|i: int| 0 <= i < items.len() ==> is_good_item(#[trigger] items[i]),
        has_item(items, "type"@, "execution.completed"@) || has_item(
            items,
            "type"@,
            "execution.failed"@,
        ),
    ensures
        fixture::http_events(request, model_id, body) is Ok,
{
    let first = fixture::RunView {
        events: seq![fixture::started("http-custom"@, request, "http-custom-fixture"@)],
        output: seq![],
        ended: false,
    };
    lemma_good_items(first, request, items);
}

proof fn lemma_good_frames(
    run: fixture::RunView,
    request: &RuntimeRequest,
    frames: Seq<Seq<char>>,
)
    requires
        forall|i: int|
            0 <= i < frames.len() ==> (#[trigger] frames[i]) == "[DONE]"@ || json::json_text(
                frames[i],
            ) is Ok,
    ensures
        fixture::sse_frames_run(run, request, frames) is Ok,
        run.ended || frames.contains("[DONE]"@) ==> fixture::sse_frames_run(
            run,
            request,
            frames,
        )->Ok_0.ended,
    decreases frames.len(),
{
    if frames.len() > 0 {
        let rest = frames.drop_first();
        assert(frames[0] == "[DONE]"@ || json::json_text(frames[0]) is Ok);
        assert(forall|i: int| 0 <= i < rest.len() ==> #[trigger] rest[i] == frames[i + 1]);
        let next = fixture::sse_frame_step(run, request, frames[0])->Ok_0;
        lemma_good_frames(next, request, rest);
        if frames.contains("[DONE]"@) {
            let i = choose|i: int| 0 <= i < frames.len() && frames[i] == "[DONE]"@;
            if i > 0 {
                assert(rest[i - 1] == frames[i]);
            }
        }
    }
}

/// A server-sent run whose frames can all be read and that is marked as done is
/// taken.
pub proof fn law_good_stream_is_taken(
    request: &RuntimeRequest,
    model_id: Seq<char>,
    chunks: Seq<Seq<char>>,
)
    requires
        request.workspace_access != WorkspaceAccess::WorkspaceWrite,
        ({
            let frames = fixture::sse_frames(seq![], chunks);
            &&& frames.contains("[DONE]"@)
            &&& forall|i: int|
                0 <= i < frames.len() ==> (#[trigger] frames[i]) == "[DONE]"@ || json::json_text(
                    frames[i],
                ) is Ok
        }),
    ensures
        fixture::sse_events(request, model_id, chunks) is Ok,
{
    let first = fixture::RunView {
        events: seq![fixture::started("openai-compatible"@, request, "openai-compatible"@)],
        output: seq![],
        ended: false,
    };
    lemma_good_frames(first, request, fixture::sse_frames(seq![], chunks));
}

/// Whether an item of a session can be read.
pub open spec fn is_good_step(item: json::JsonTree) -> bool {
    ||| is_of(item, "kind"@, "session.started"@)
    ||| is_of(item, "kind"@, "output.delta"@) && json::text_field(item, "delta"@) is Some
    ||| is_of(item, "kind"@, "turn.completed"@)
    ||| is_of(item, "kind"@, "execution.completed"@)
}

proof fn lemma_good_steps(
    run: fixture::RunView,
    request: &RuntimeRequest,
    index: nat,
    items: Seq<json::JsonTree>,
    k: int,
)
    requires
        forall|i: int| 0 <= i < items.len() ==> is_good_step(#[trigger] items[i]),
        run.ended || (0 <= k < items.len() && (is_of(items[k], "kind"@, "turn.completed"@) || is_of(
            items[k],
            "kind"@,
            "execution.completed"@,
        ))),
    ensures
        fixture::acp_items_run(run, request, index, items) matches Ok(last) && last.ended,
    decreases items.len(),
{
    lemma_types_differ();
    if items.len() > 0 {
        let rest = items.drop_first();
        assert(is_good_step(items[0]));
        assert(forall|i: int| 0 <= i < rest.len() ==> #[trigger] rest[i] == items[i + 1]);
        let next = fixture::acp_item_step(run, request, index, items[0])->Ok_0;
        lemma_good_steps(next, request, index + 1, rest, k - 1);
    }
}

/// A recorded session whose items can all be read, with an end among them, is taken.
pub proof fn law_good_session_is_taken(
    request: &RuntimeRequest,
    values: Seq<json::JsonTree>,
    k: int,
)
    requires
        forall|i: int| 0 <= i < values.len() ==> is_good_step(#[trigger] values[i]),
        0 <= k < values.len(),
        is_of(values[k], "kind"@, "turn.completed"@) || is_of(
            values[k],
            "kind"@,
            "execution.completed"@,
        ),
    ensures
        fixture::acp_value_events(request, values) is Ok,
{
    let first = fixture::RunView {
        events: seq![fixture::started("acp-mock"@, request, "acp-fixture"@)],
        output: seq![],
        ended: false,
    };
    lemma_good_steps(first, request, 0, values, k);
}

} // verus!
