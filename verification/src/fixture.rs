//! Runs that are read from a recorded text: the events that an HTTP body, a
//! server-sent event stream, an agent protocol recording or a connector
//! recording stands for.

use vstd::prelude::*;
use vstd::string::*;

use crate::error;
use crate::error::RuntimeError;
use crate::event;
use crate::event::{
    object1, object2, run_index_text, run_text, text_json, RuntimeEvent, RuntimeRequest,
    WorkspaceAccess,
};
use crate::json;
use crate::json::{parse_json, parse_json_list, Json};
use crate::sse;
use crate::sse::{SseFrame, SseParser};
use crate::text;
use crate::text::{joined, same_text};

verus! {

/// A run while it is read: its events, its output, and whether it has ended.
#[verifier::ext_equal]
pub struct RunView {
    pub events: Seq<event::EventView>,
    pub output: Seq<char>,
    pub ended: bool,
}

/// A run while it is read.
pub struct FixtureRun {
    pub events: Vec<RuntimeEvent>,
    pub output: String,
    pub ended: bool,
}

impl View for FixtureRun {
    type V = RunView;

    open spec fn view(&self) -> RunView {
        RunView {
            events: event::event_views(self.events@),
            output: self.output@,
            ended: self.ended,
        }
    }
}

impl RunView {
    pub open spec fn with_event(self, e: event::EventView) -> RunView {
        RunView { events: self.events.push(e), ..self }
    }
}

impl FixtureRun {
    /// A run that has begun.
    pub fn begin(first: RuntimeEvent) -> (r: Self)
        ensures
            r@ == (RunView { events: seq![first@], output: seq![], ended: false }),
    {
        let mut events: Vec<RuntimeEvent> = Vec::new();
        events.push(first);
        let r = FixtureRun { events, output: String::new(), ended: false };
        assert(r@.events =~= seq![first@]);
        r
    }

    fn push_event(&mut self, e: RuntimeEvent)
        ensures
            final(self)@ == old(self)@.with_event(e@),
    {
        proof {
            event::lemma_event_views_push(self.events@, e);
        }
        self.events.push(e);
    }
}

/// An event of a turn that has no thread.
pub open spec fn turn_event(
    event_id: Seq<char>,
    runtime_id: Seq<char>,
    request: &RuntimeRequest,
    thread_id: Option<Seq<char>>,
    event_type: Seq<char>,
    timestamp_ms: i64,
    payload: json::JsonTree,
) -> event::EventView {
    event::EventView {
        event_id,
        execution_run_id: request.execution_run_id@,
        runtime_id,
        thread_id,
        turn_id: Some("turn-1"@),
        sequence: 0,
        event_type,
        timestamp_ms,
        payload,
    }
}

pub fn new_turn_event(
    event_id: String,
    runtime_id: &str,
    request: &RuntimeRequest,
    thread_id: Option<String>,
    event_type: &str,
    timestamp_ms: i64,
    payload: Json,
) -> (r: RuntimeEvent)
    ensures
        r@ == turn_event(
            event_id@,
            runtime_id@,
            request,
            text::opt_text(thread_id),
            event_type@,
            timestamp_ms,
            payload.tree(),
        ),
{
    RuntimeEvent {
        event_id,
        execution_run_id: request.execution_run_id.clone(),
        runtime_id: runtime_id.to_owned(),
        thread_id,
        turn_id: Some("turn-1".to_owned()),
        sequence: 0,
        event_type: event_type.to_owned(),
        timestamp_ms,
        payload,
    }
}

/// The payload of an output event.
pub open spec fn delta_payload(delta: Seq<char>) -> json::JsonTree {
    json::JsonTree::Object(seq![("delta"@, json::JsonTree::Text(delta))])
}

/// `prefix`, the run's id, a hyphen and a number.
pub open spec fn numbered(prefix: Seq<char>, request: &RuntimeRequest, index: nat) -> Seq<char> {
    prefix + request.execution_run_id@ + "-"@ + text::decimal(index)
}

/// The event that begins a recorded run.
pub open spec fn started(
    runtime_id: Seq<char>,
    request: &RuntimeRequest,
    source: Seq<char>,
) -> event::EventView {
    turn_event(
        "runtime-started-"@ + request.execution_run_id@,
        runtime_id,
        request,
        None,
        "runtime.started"@,
        0,
        json::JsonTree::Object(
            seq![
                ("manifestId"@, json::JsonTree::Text(request.context_manifest_id@)),
                ("source"@, json::JsonTree::Text(source)),
            ],
        ),
    )
}

pub fn runtime_started(runtime_id: &str, request: &RuntimeRequest, source: &str) -> (r: RuntimeEvent)
    ensures
        r@ == started(runtime_id@, request, source@),
{
    new_turn_event(
        run_text("runtime-started-", request),
        runtime_id,
        request,
        None,
        "runtime.started",
        0,
        object2(
            "manifestId",
            text_json(request.context_manifest_id.as_str()),
            "source",
            text_json(source),
        ),
    )
}

/// The payload of the event that completes a run with its output.
pub open spec fn output_payload(output: Seq<char>, model_id: Seq<char>) -> json::JsonTree {
    json::JsonTree::Object(
        seq![
            ("modelId"@, json::JsonTree::Text(model_id)),
            ("output"@, json::JsonTree::Text(output)),
        ],
    )
}

// ---------------------------------------------------------------------------
// Server-sent events of an OpenAI-compatible provider.

/// The output that a server-sent value carries; it may be empty.
pub open spec fn sse_delta(value: json::JsonTree) -> Seq<char> {
    match json::first_of(
        json::text_value(
            json::then_field(
                json::then_field(
                    json::then_element(json::field(value, "choices"@), 0),
                    "delta"@,
                ),
                "content"@,
            ),
        ),
        json::text_field(value, "output_text"@),
    ) {
        Some(delta) => delta,
        None => seq![],
    }
}

/// A run after one more server-sent value.
pub open spec fn sse_value_step(
    run: RunView,
    request: &RuntimeRequest,
    value: json::JsonTree,
) -> RunView {
    let delta = sse_delta(value);
    if delta.len() == 0 {
        run
    } else {
        RunView {
            output: run.output + delta,
            ..run.with_event(
                turn_event(
                    numbered("output-"@, request, run.events.len()),
                    "openai-compatible"@,
                    request,
                    None,
                    "output.delta"@,
                    run.events.len() as i64,
                    delta_payload(delta),
                ),
            )
        }
    }
}

/// Takes one server-sent value into a run.
pub fn append_sse_value(run: &mut FixtureRun, request: &RuntimeRequest, value: &Json)
    ensures
        final(run)@ == sse_value_step(old(run)@, request, value.tree()),
{
    let choice = match value.get("choices") {
        Some(choices) => match choices.at(0) {
            Some(first) => match first.get("delta") {
                Some(delta) => delta.get_str("content"),
                None => None,
            },
            None => None,
        },
        None => None,
    };
    let delta = match choice {
        Some(delta) => delta,
        None => match value.get_str("output_text") {
            Some(delta) => delta,
            None => "",
        },
    };
    proof {
        reveal_strlit("");
        assert(delta@ =~= sse_delta(value.tree()));
    }
    if !delta.is_empty() {
        run.output.append(delta);
        let index = run.events.len();
        let e = new_turn_event(
            run_index_text("output-", request, index as u64),
            "openai-compatible",
            request,
            None,
            "output.delta",
            index as i64,
            object1("delta", text_json(delta)),
        );
        run.push_event(e);
    }
}

/// A run after one more frame, or the error of a frame that is no JSON.
pub open spec fn sse_frame_step(
    run: RunView,
    request: &RuntimeRequest,
    frame: Seq<char>,
) -> Result<RunView, error::ErrorView> {
    if frame == "[DONE]"@ {
        Ok(RunView { ended: true, ..run })
    } else {
        match json::json_text(frame) {
            Ok(value) => Ok(sse_value_step(run, request, value)),
            Err(message) => Err(error::ErrorView::Protocol(message)),
        }
    }
}

/// Takes one frame into a run.
pub fn append_sse_event(run: &mut FixtureRun, request: &RuntimeRequest, frame: &SseFrame) -> (r:
    Result<(), RuntimeError>)
    ensures
        match r {
            Ok(_) => sse_frame_step(old(run)@, request, frame.data@) == Ok::<
                RunView,
                error::ErrorView,
            >(final(run)@),
            Err(e) => sse_frame_step(old(run)@, request, frame.data@) == Err::<
                RunView,
                error::ErrorView,
            >(e@),
        },
{
    if same_text(frame.data.as_str(), "[DONE]") {
        run.ended = true;
        return Ok(());
    }
    match parse_json(frame.data.as_str()) {
        Ok(value) => {
            append_sse_value(run, request, &value);
            Ok(())
        },
        Err(message) => Err(RuntimeError::Protocol(message)),
    }
}

/// A run after some frames, up to the first one that is an error.
pub open spec fn sse_frames_run(
    run: RunView,
    request: &RuntimeRequest,
    frames: Seq<Seq<char>>,
) -> Result<RunView, error::ErrorView>
    decreases frames.len(),
{
    if frames.len() == 0 {
        Ok(run)
    } else {
        match sse_frame_step(run, request, frames[0]) {
            Ok(next) => sse_frames_run(next, request, frames.drop_first()),
            Err(e) => Err(e),
        }
    }
}

/// The frames of a text that arrives in pieces, and of what is left at its end.
pub open spec fn sse_frames(held: Seq<char>, chunks: Seq<Seq<char>>) -> Seq<Seq<char>>
    decreases chunks.len(),
{
    if chunks.len() == 0 {
        match sse::block_data(held) {
            Some(data) => seq![data],
            None => seq![],
        }
    } else {
        let (frames, rest) = sse::split_frames(held + chunks[0]);
        frames + sse_frames(rest, chunks.drop_first())
    }
}

pub open spec fn chunk_texts(chunks: Seq<&str>) -> Seq<Seq<char>> {
    Seq::new(chunks.len(), |i: int| chunks[i]@)
}

/// The event that completes a server-sent run.
pub open spec fn sse_completed(
    run: RunView,
    request: &RuntimeRequest,
    model_id: Seq<char>,
) -> event::EventView {
    turn_event(
        "completed-"@ + request.execution_run_id@,
        "openai-compatible"@,
        request,
        None,
        "execution.completed"@,
        run.events.len() as i64,
        output_payload(run.output, model_id),
    )
}

/// The events of a server-sent run.
pub open spec fn sse_events(
    request: &RuntimeRequest,
    model_id: Seq<char>,
    chunks: Seq<Seq<char>>,
) -> Result<Seq<event::EventView>, error::ErrorView> {
    if request.workspace_access == WorkspaceAccess::WorkspaceWrite {
        Err(error::ErrorView::Permission)
    } else {
        let first = RunView {
            events: seq![started("openai-compatible"@, request, "openai-compatible"@)],
            output: seq![],
            ended: false,
        };
        match sse_frames_run(first, request, sse_frames(seq![], chunks)) {
            Err(e) => Err(e),
            Ok(run) => if run.ended {
                Ok(run.events.push(sse_completed(run, request, model_id)))
            } else {
                Err(error::ErrorView::Protocol("SSE stream ended without [DONE]"@))
            },
        }
    }
}

/// Takes frames into a run, up to the first one that is an error.
fn append_sse_frames(run: &mut FixtureRun, request: &RuntimeRequest, frames: &Vec<SseFrame>) -> (r:
    Result<(), RuntimeError>)
    ensures
        match r {
            Ok(_) => sse_frames_run(old(run)@, request, sse::frame_data(frames@)) == Ok::<
                RunView,
                error::ErrorView,
            >(final(run)@),
            Err(e) => sse_frames_run(old(run)@, request, sse::frame_data(frames@)) == Err::<
                RunView,
                error::ErrorView,
            >(e@),
        },
{
    let ghost all = sse::frame_data(frames@);
    let ghost goal = sse_frames_run(run@, request, all);
    let mut i: usize = 0;
    assert(all.skip(0) =~= all);
    while i < frames.len()
        invariant
            i <= frames@.len(),
            all == sse::frame_data(frames@),
            goal == sse_frames_run(old(run)@, request, all),
            goal == sse_frames_run(run@, request, all.skip(i as int)),
        decreases frames@.len() - i,
    {
        assert(all.skip(i as int)[0] == frames@[i as int].data@);
        assert(all.skip(i as int).drop_first() =~= all.skip(i + 1));
        match append_sse_event(run, request, &frames[i]) {
            Ok(_) => {},
            Err(e) => {
                return Err(e);
            },
        }
        i += 1;
    }
    Ok(())
}

proof fn lemma_sse_frames_run_concat(
    run: RunView,
    request: &RuntimeRequest,
    a: Seq<Seq<char>>,
    b: Seq<Seq<char>>,
)
    ensures
        sse_frames_run(run, request, a + b) == match sse_frames_run(run, request, a) {
            Ok(next) => sse_frames_run(next, request, b),
            Err(e) => Err(e),
        },
    decreases a.len(),
{
    if a.len() == 0 {
        assert(a + b =~= b);
    } else {
        assert((a + b).drop_first() =~= a.drop_first() + b);
        match sse_frame_step(run, request, a[0]) {
            Ok(next) => {
                lemma_sse_frames_run_concat(next, request, a.drop_first(), b);
            },
            Err(_) => {},
        }
    }
}

/// Reads a server-sent run.
pub fn run_from_sse(request: &RuntimeRequest, model_id: &str, chunks: &[&str]) -> (r: Result<
    Vec<RuntimeEvent>,
    RuntimeError,
>)
    ensures
        match r {
            Ok(events) => sse_events(request, model_id@, chunk_texts(chunks@)) == Ok::<
                Seq<event::EventView>,
                error::ErrorView,
            >(event::event_views(events@)),
            Err(e) => sse_events(request, model_id@, chunk_texts(chunks@)) == Err::<
                Seq<event::EventView>,
                error::ErrorView,
            >(e@),
        },
{
    if request.workspace_access == WorkspaceAccess::WorkspaceWrite {
        return Err(RuntimeError::Permission);
    }
    let mut parser = SseParser::new();
    let mut run = FixtureRun::begin(
        runtime_started("openai-compatible", request, "openai-compatible"),
    );
    let ghost all = chunk_texts(chunks@);
    let ghost goal = sse_frames_run(run@, request, sse_frames(seq![], all));
    let mut i: usize = 0;
    assert(all.skip(0) =~= all);
    while i < chunks.len()
        invariant
            i <= chunks@.len(),
            all == chunk_texts(chunks@),
            request.workspace_access != WorkspaceAccess::WorkspaceWrite,
            goal == sse_frames_run(run@, request, sse_frames(parser@, all.skip(i as int))),
            goal == sse_frames_run(
                RunView {
                    events: seq![started("openai-compatible"@, request, "openai-compatible"@)],
                    output: seq![],
                    ended: false,
                },
                request,
                sse_frames(seq![], all),
            ),
        decreases chunks@.len() - i,
    {
        let ghost held = parser@;
        let ghost before = run@;
        proof {
            assert(all.skip(i as int)[0] == chunks@[i as int]@);
            assert(all.skip(i as int).drop_first() =~= all.skip(i + 1));
        }
        let frames = parser.push(chunks[i]);
        proof {
            lemma_sse_frames_run_concat(
                before,
                request,
                sse::frame_data(frames@),
                sse_frames(parser@, all.skip(i + 1)),
            );
        }
        match append_sse_frames(&mut run, request, &frames) {
            Ok(_) => {},
            Err(e) => {
                return Err(e);
            },
        }
        i += 1;
    }
    assert(all.skip(i as int) =~= seq![]);
    let frames = parser.finish();
    match append_sse_frames(&mut run, request, &frames) {
        Ok(_) => {},
        Err(e) => {
            return Err(e);
        },
    }
    if !run.ended {
        return Err(RuntimeError::protocol("SSE stream ended without [DONE]"));
    }
    let output = run.output.clone();
    let count = run.events.len();
    let e = new_turn_event(
        run_text("completed-", request),
        "openai-compatible",
        request,
        None,
        "execution.completed",
        count as i64,
        object2("modelId", text_json(model_id), "output", Json::Text(output)),
    );
    run.push_event(e);
    Ok(run.events)
}

// ---------------------------------------------------------------------------
// Bodies of a custom HTTP provider.

/// A run after one more recorded event of an HTTP body.
pub open spec fn http_item_step(
    run: RunView,
    request: &RuntimeRequest,
    item: json::JsonTree,
) -> Result<RunView, error::ErrorView> {
    match json::text_field(item, "type"@) {
        None => Err(error::ErrorView::Protocol("fixture event type is missing"@)),
        Some(kind) => if kind == "output.delta"@ {
            match json::text_field(item, "delta"@) {
                None => Err(error::ErrorView::Protocol("fixture delta is missing"@)),
                Some(delta) => Ok(
                    RunView {
                        output: run.output + delta,
                        ..run.with_event(
                            turn_event(
                                numbered("http-output-"@, request, run.events.len()),
                                "http-custom"@,
                                request,
                                None,
                                "output.delta"@,
                                run.events.len() as i64,
                                delta_payload(delta),
                            ),
                        )
                    },
                ),
            }
        } else if kind == "execution.completed"@ {
            Ok(RunView { ended: true, ..run })
        } else if kind == "execution.failed"@ {
            Ok(
                RunView {
                    ended: true,
                    ..run.with_event(
                        turn_event(
                            "http-failed-"@ + request.execution_run_id@,
                            "http-custom"@,
                            request,
                            None,
                            "execution.failed"@,
                            run.events.len() as i64,
                            item,
                        ),
                    )
                },
            )
        } else {
            Err(
                error::ErrorView::Protocol("unsupported HTTP/Custom fixture event "@ + kind),
            )
        },
    }
}

fn append_http_item(run: &mut FixtureRun, request: &RuntimeRequest, item: &Json) -> (r: Result<
    (),
    RuntimeError,
>)
    ensures
        match r {
            Ok(_) => http_item_step(old(run)@, request, item.tree()) == Ok::<
                RunView,
                error::ErrorView,
            >(final(run)@),
            Err(e) => http_item_step(old(run)@, request, item.tree()) == Err::<
                RunView,
                error::ErrorView,
            >(e@),
        },
{
    let kind = match item.get_str("type") {
        Some(kind) => kind,
        None => {
            return Err(RuntimeError::protocol("fixture event type is missing"));
        },
    };
    let index = run.events.len();
    if same_text(kind, "output.delta") {
        let delta = match item.get_str("delta") {
            Some(delta) => delta,
            None => {
                return Err(RuntimeError::protocol("fixture delta is missing"));
            },
        };
        run.output.append(delta);
        let e = new_turn_event(
            run_index_text("http-output-", request, index as u64),
            "http-custom",
            request,
            None,
            "output.delta",
            index as i64,
            object1("delta", text_json(delta)),
        );
        run.push_event(e);
        Ok(())
    } else if same_text(kind, "execution.completed") {
        run.ended = true;
        Ok(())
    } else if same_text(kind, "execution.failed") {
        run.ended = true;
        let e = new_turn_event(
            run_text("http-failed-", request),
            "http-custom",
            request,
            None,
            "execution.failed",
            index as i64,
            item.clone(),
        );
        run.push_event(e);
        Ok(())
    } else {
        Err(RuntimeError::Protocol(joined("unsupported HTTP/Custom fixture event ", kind)))
    }
}

/// A run after the recorded events of an HTTP body, up to the first error.
pub open spec fn http_items_run(
    run: RunView,
    request: &RuntimeRequest,
    items: Seq<json::JsonTree>,
) -> Result<RunView, error::ErrorView>
    decreases items.len(),
{
    if items.len() == 0 {
        Ok(run)
    } else {
        match http_item_step(run, request, items[0]) {
            Ok(next) => http_items_run(next, request, items.drop_first()),
            Err(e) => Err(e),
        }
    }
}

/// The run of an HTTP body that lists events, or holds its whole output.
pub open spec fn http_run(
    request: &RuntimeRequest,
    value: json::JsonTree,
) -> Result<RunView, error::ErrorView> {
    let first = RunView {
        events: seq![started("http-custom"@, request, "http-custom-fixture"@)],
        output: seq![],
        ended: false,
    };
    match json::list_value(json::field(value, "events"@)) {
        Some(items) => http_items_run(first, request, items),
        None => match json::first_of(
            json::text_field(value, "outputText"@),
            json::text_field(value, "content"@),
        ) {
            Some(output) => Ok(
                RunView {
                    output,
                    ended: json::bool_value(json::field(value, "completed"@)) == Some(true)
                        || json::text_field(value, "status"@) == Some("completed"@),
                    ..first.with_event(
                        turn_event(
                            "http-output-"@ + request.execution_run_id@ + "-1"@,
                            "http-custom"@,
                            request,
                            None,
                            "output.delta"@,
                            1,
                            delta_payload(output),
                        ),
                    )
                },
            ),
            None => Ok(first),
        },
    }
}

/// Whether a run has an event that says that it failed.
pub open spec fn has_failed(events: Seq<event::EventView>) -> bool {
    exists|i: int|
        0 <= i < events.len() && (#[trigger] events[i]).event_type == "execution.failed"@
}

/// The events of an HTTP body. A body that ends no run is refused, and a run that
/// did not fail is completed.
pub open spec fn http_value_events(
    request: &RuntimeRequest,
    model_id: Seq<char>,
    value: json::JsonTree,
) -> Result<Seq<event::EventView>, error::ErrorView> {
    match http_run(request, value) {
        Err(e) => Err(e),
        Ok(run) => if !run.ended {
            Err(
                error::ErrorView::Protocol(
                    "HTTP/Custom fixture is missing an explicit terminal event"@,
                ),
            )
        } else if has_failed(run.events) {
            Ok(run.events)
        } else {
            Ok(
                run.events.push(
                    turn_event(
                        "http-completed-"@ + request.execution_run_id@,
                        "http-custom"@,
                        request,
                        None,
                        "execution.completed"@,
                        run.events.len() as i64,
                        output_payload(run.output, model_id),
                    ),
                ),
            )
        },
    }
}

/// The events of an HTTP body as it arrives.
pub open spec fn http_events(
    request: &RuntimeRequest,
    model_id: Seq<char>,
    body: Seq<char>,
) -> Result<Seq<event::EventView>, error::ErrorView> {
    if request.workspace_access == WorkspaceAccess::WorkspaceWrite {
        Err(error::ErrorView::Permission)
    } else {
        match json::json_text(body) {
            Err(message) => Err(error::ErrorView::Protocol(message)),
            Ok(value) => http_value_events(request, model_id, value),
        }
    }
}

/// Reads the run of an HTTP body that was parsed.
pub fn run_from_http_value(request: &RuntimeRequest, model_id: &str, value: &Json) -> (r: Result<
    Vec<RuntimeEvent>,
    RuntimeError,
>)
    ensures
        match r {
            Ok(events) => http_value_events(request, model_id@, value.tree()) == Ok::<
                Seq<event::EventView>,
                error::ErrorView,
            >(event::event_views(events@)),
            Err(e) => http_value_events(request, model_id@, value.tree()) == Err::<
                Seq<event::EventView>,
                error::ErrorView,
            >(e@),
        },
{
    let mut run = FixtureRun::begin(
        runtime_started("http-custom", request, "http-custom-fixture"),
    );
    let ghost first = run@;
    let events = match value.get("events") {
        Some(items) => items.as_array(),
        None => None,
    };
    match events {
        Some(items) => {
            let ghost all = json::trees(items@);
            let ghost goal = http_items_run(first, request, all);
            let mut i: usize = 0;
            assert(all.skip(0) =~= all);
            while i < items.len()
                invariant
                    i <= items@.len(),
                    all == json::trees(items@),
                    goal == http_items_run(run@, request, all.skip(i as int)),
                    goal == http_run(request, value.tree()),
                decreases items@.len() - i,
            {
                assert(all.skip(i as int)[0] == items@[i as int].tree());
                assert(all.skip(i as int).drop_first() =~= all.skip(i + 1));
                match append_http_item(&mut run, request, &items[i]) {
                    Ok(_) => {},
                    Err(e) => {
                        return Err(e);
                    },
                }
                i += 1;
            }
        },
        None => {
            let output = match value.get_str("outputText") {
                Some(output) => Some(output),
                None => value.get_str("content"),
            };
            match output {
                Some(output) => {
                    run.output.append(output);
                    let mut id = run_text("http-output-", request);
                    id.append("-1");
                    let e = new_turn_event(
                        id,
                        "http-custom",
                        request,
                        None,
                        "output.delta",
                        1,
                        object1("delta", text_json(output)),
                    );
                    run.push_event(e);
                    let completed = match value.get("completed") {
                        Some(flag) => flag.as_bool(),
                        None => None,
                    };
                    let status = match value.get_str("status") {
                        Some(status) => same_text(status, "completed"),
                        None => false,
                    };
                    run.ended = completed == Some(true) || status;
                    assert(run@.output =~= output@);
                },
                None => {},
            }
        },
    }
    assert(http_run(request, value.tree()) == Ok::<RunView, error::ErrorView>(run@));
    if !run.ended {
        return Err(
            RuntimeError::protocol("HTTP/Custom fixture is missing an explicit terminal event"),
        );
    }
    let mut failed = false;
    let mut i: usize = 0;
    while i < run.events.len()
        invariant
            i <= run.events@.len(),
            failed == exists|k: int|
                0 <= k < i && (#[trigger] run@.events[k]).event_type == "execution.failed"@,
        decreases run.events@.len() - i,
    {
        let this = same_text(run.events[i].event_type.as_str(), "execution.failed");
        assert(run@.events[i as int].event_type == run.events@[i as int].event_type@);
        failed = failed || this;
        i += 1;
    }
    if !failed {
        let output = run.output.clone();
        let count = run.events.len();
        let e = new_turn_event(
            run_text("http-completed-", request),
            "http-custom",
            request,
            None,
            "execution.completed",
            count as i64,
            object2("modelId", text_json(model_id), "output", Json::Text(output)),
        );
        run.push_event(e);
    }
    Ok(run.events)
}

/// Reads the run of an HTTP body.
pub fn run_from_http_body(request: &RuntimeRequest, model_id: &str, body: &str) -> (r: Result<
    Vec<RuntimeEvent>,
    RuntimeError,
>)
    ensures
        match r {
            Ok(events) => http_events(request, model_id@, body@) == Ok::<
                Seq<event::EventView>,
                error::ErrorView,
            >(event::event_views(events@)),
            Err(e) => http_events(request, model_id@, body@) == Err::<
                Seq<event::EventView>,
                error::ErrorView,
            >(e@),
        },
{
    if request.workspace_access == WorkspaceAccess::WorkspaceWrite {
        return Err(RuntimeError::Permission);
    }
    match parse_json(body) {
        Ok(value) => run_from_http_value(request, model_id, &value),
        Err(message) => Err(RuntimeError::Protocol(message)),
    }
}

// ---------------------------------------------------------------------------
// Recordings of an agent protocol session.

pub open spec fn acp_thread(request: &RuntimeRequest) -> Option<Seq<char>> {
    Some("acp-session-"@ + request.execution_run_id@)
}

/// A run after one more recorded value, the one at `index`.
pub open spec fn acp_item_step(
    run: RunView,
    request: &RuntimeRequest,
    index: nat,
    value: json::JsonTree,
) -> Result<RunView, error::ErrorView> {
    match json::text_field(value, "kind"@) {
        None => Err(error::ErrorView::Protocol("ACP fixture kind is missing"@)),
        Some(kind) => if kind == "session.started"@ {
            Ok(run)
        } else if kind == "output.delta"@ {
            match json::text_field(value, "delta"@) {
                None => Err(error::ErrorView::Protocol("ACP fixture delta is missing"@)),
                Some(delta) => Ok(
                    run.with_event(
                        turn_event(
                            numbered("acp-output-"@, request, index),
                            "acp-mock"@,
                            request,
                            acp_thread(request),
                            "output.delta"@,
                            run.events.len() as i64,
                            delta_payload(delta),
                        ),
                    ),
                ),
            }
        } else if kind == "turn.completed"@ || kind == "execution.completed"@ {
            Ok(RunView { ended: true, ..run })
        } else {
            Err(error::ErrorView::Protocol("unsupported ACP fixture event "@ + kind))
        },
    }
}

/// A run after the recorded values from `index` on, up to the first error.
pub open spec fn acp_items_run(
    run: RunView,
    request: &RuntimeRequest,
    index: nat,
    values: Seq<json::JsonTree>,
) -> Result<RunView, error::ErrorView>
    decreases values.len(),
{
    if values.len() == 0 {
        Ok(run)
    } else {
        match acp_item_step(run, request, index, values[0]) {
            Ok(next) => acp_items_run(next, request, index + 1, values.drop_first()),
            Err(e) => Err(e),
        }
    }
}

/// The event that completes a run of an agent protocol.
pub open spec fn acp_completed(request: &RuntimeRequest, timestamp_ms: i64) -> event::EventView {
    turn_event(
        "acp-completed-"@ + request.execution_run_id@,
        "acp-mock"@,
        request,
        acp_thread(request),
        "execution.completed"@,
        timestamp_ms,
        json::JsonTree::Object(seq![("source"@, json::JsonTree::Text("acp-fixture"@))]),
    )
}

/// The events of a list of recorded values.
pub open spec fn acp_value_events(
    request: &RuntimeRequest,
    values: Seq<json::JsonTree>,
) -> Result<Seq<event::EventView>, error::ErrorView> {
    let first = RunView {
        events: seq![started("acp-mock"@, request, "acp-fixture"@)],
        output: seq![],
        ended: false,
    };
    match acp_items_run(first, request, 0, values) {
        Err(e) => Err(e),
        Ok(run) => if run.ended {
            Ok(run.events.push(acp_completed(request, run.events.len() as i64)))
        } else {
            Err(
                error::ErrorView::Protocol("ACP fixture is missing an explicit terminal event"@),
            )
        },
    }
}

/// The events of a recording.
pub open spec fn acp_events(
    request: &RuntimeRequest,
    fixture: Seq<char>,
) -> Result<Seq<event::EventView>, error::ErrorView> {
    match json::json_list_text(fixture) {
        Err(message) => Err(error::ErrorView::Protocol(message)),
        Ok(values) => acp_value_events(request, values),
    }
}

fn acp_thread_id(request: &RuntimeRequest) -> (r: Option<String>)
    ensures
        text::opt_text(r) == acp_thread(request),
{
    Some(run_text("acp-session-", request))
}

fn append_acp_item(
    run: &mut FixtureRun,
    request: &RuntimeRequest,
    index: usize,
    value: &Json,
) -> (r: Result<(), RuntimeError>)
    ensures
        match r {
            Ok(_) => acp_item_step(old(run)@, request, index as nat, value.tree()) == Ok::<
                RunView,
                error::ErrorView,
            >(final(run)@),
            Err(e) => acp_item_step(old(run)@, request, index as nat, value.tree()) == Err::<
                RunView,
                error::ErrorView,
            >(e@),
        },
{
    let kind = match value.get_str("kind") {
        Some(kind) => kind,
        None => {
            return Err(RuntimeError::protocol("ACP fixture kind is missing"));
        },
    };
    if same_text(kind, "session.started") {
        Ok(())
    } else if same_text(kind, "output.delta") {
        let delta = match value.get_str("delta") {
            Some(delta) => delta,
            None => {
                return Err(RuntimeError::protocol("ACP fixture delta is missing"));
            },
        };
        let count = run.events.len();
        let e = new_turn_event(
            run_index_text("acp-output-", request, index as u64),
            "acp-mock",
            request,
            acp_thread_id(request),
            "output.delta",
            count as i64,
            object1("delta", text_json(delta)),
        );
        run.push_event(e);
        Ok(())
    } else if same_text(kind, "turn.completed") || same_text(kind, "execution.completed") {
        run.ended = true;
        Ok(())
    } else {
        Err(RuntimeError::Protocol(joined("unsupported ACP fixture event ", kind)))
    }
}

/// The event that completes a run of an agent protocol.
pub fn acp_completed_event(request: &RuntimeRequest, timestamp_ms: i64) -> (r: RuntimeEvent)
    ensures
        r@ == acp_completed(request, timestamp_ms),
{
    new_turn_event(
        run_text("acp-completed-", request),
        "acp-mock",
        request,
        acp_thread_id(request),
        "execution.completed",
        timestamp_ms,
        object1("source", text_json("acp-fixture")),
    )
}

/// Reads the run of recorded values.
pub fn run_from_acp_values(request: &RuntimeRequest, values: &Vec<Json>) -> (r: Result<
    Vec<RuntimeEvent>,
    RuntimeError,
>)
    ensures
        match r {
            Ok(events) => acp_value_events(request, json::trees(values@)) == Ok::<
                Seq<event::EventView>,
                error::ErrorView,
            >(event::event_views(events@)),
            Err(e) => acp_value_events(request, json::trees(values@)) == Err::<
                Seq<event::EventView>,
                error::ErrorView,
            >(e@),
        },
{
    let mut run = FixtureRun::begin(runtime_started("acp-mock", request, "acp-fixture"));
    let ghost all = json::trees(values@);
    let ghost first = run@;
    let ghost goal = acp_items_run(first, request, 0, all);
    let mut i: usize = 0;
    assert(all.skip(0) =~= all);
    while i < values.len()
        invariant
            i <= values@.len(),
            all == json::trees(values@),
            goal == acp_items_run(run@, request, i as nat, all.skip(i as int)),
            goal == acp_items_run(
                RunView {
                    events: seq![started("acp-mock"@, request, "acp-fixture"@)],
                    output: seq![],
                    ended: false,
                },
                request,
                0,
                all,
            ),
        decreases values@.len() - i,
    {
        assert(all.skip(i as int)[0] == values@[i as int].tree());
        assert(all.skip(i as int).drop_first() =~= all.skip(i + 1));
        match append_acp_item(&mut run, request, i, &values[i]) {
            Ok(_) => {},
            Err(e) => {
                return Err(e);
            },
        }
        i += 1;
    }
    if !run.ended {
        return Err(RuntimeError::protocol("ACP fixture is missing an explicit terminal event"));
    }
    let count = run.events.len();
    let e = acp_completed_event(request, count as i64);
    run.push_event(e);
    Ok(run.events)
}

/// Reads the run of a recording.
pub fn run_from_acp_fixture(request: &RuntimeRequest, fixture: &str) -> (r: Result<
    Vec<RuntimeEvent>,
    RuntimeError,
>)
    ensures
        match r {
            Ok(events) => acp_events(request, fixture@) == Ok::<
                Seq<event::EventView>,
                error::ErrorView,
            >(event::event_views(events@)),
            Err(e) => acp_events(request, fixture@) == Err::<
                Seq<event::EventView>,
                error::ErrorView,
            >(e@),
        },
{
    match parse_json_list(fixture) {
        Ok(values) => run_from_acp_values(request, &values),
        Err(message) => Err(RuntimeError::Protocol(message)),
    }
}

} // verus!
