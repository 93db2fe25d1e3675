//! Connector runtimes that replay a recording.

use vstd::prelude::*;
use vstd::string::*;

use crate::error;
use crate::error::RuntimeError;
use crate::event;
use crate::event::{
    object1, object2, run_index_text, run_text, text_json, with_member, RuntimeCapabilities,
    RuntimeEvent, RuntimeRequest, WorkspaceAccess,
};
use crate::fixture;
use crate::fixture::{new_turn_event, FixtureRun};
use crate::json;
use crate::json::{parse_json, parse_json_list, Json};
use crate::text;
use crate::text::{joined, lines_of, lowered, replace_text, same_text, text_starts_with, trimmed};

verus! {

/// A connector that replays a recording.
#[derive(Clone, Debug)]
pub struct FixtureConnectorRuntime {
    pub runtime_id: String,
    pub runtime_version: String,
    pub model_ids: Vec<String>,
    pub provider_type: String,
    pub fixture: Option<String>,
    pub capabilities: RuntimeCapabilities,
    pub inter_event_delay_ns: u128,
}

/// The model ids that are left when white space around them is dropped.
pub open spec fn trimmed_ids(ids: Seq<Seq<char>>) -> Seq<Seq<char>>
    decreases ids.len(),
{
    if ids.len() == 0 {
        seq![]
    } else {
        let before = trimmed_ids(ids.drop_last());
        let id = text::trim(ids.last());
        if id.len() == 0 {
            before
        } else {
            before.push(id)
        }
    }
}

/// The values of the lines of a recording that are not blank, or the error of the
/// first line that is no JSON.
pub open spec fn line_values(lines: Seq<Seq<char>>) -> Result<Seq<json::JsonTree>, error::ErrorView>
    decreases lines.len(),
{
    if lines.len() == 0 {
        Ok(seq![])
    } else {
        match line_values(lines.drop_last()) {
            Err(e) => Err(e),
            Ok(values) => if text::trim(lines.last()).len() == 0 {
                Ok(values)
            } else {
                match json::json_text(lines.last()) {
                    Ok(value) => Ok(values.push(value)),
                    Err(message) => Err(error::ErrorView::Protocol(message)),
                }
            },
        }
    }
}

/// The values of a recording: a JSON list, or one value on each line.
pub open spec fn recorded_values(fixture: Seq<char>) -> Result<
    Seq<json::JsonTree>,
    error::ErrorView,
> {
    let t = text::trim(fixture);
    if t.len() == 0 {
        Err(error::ErrorView::Protocol("connector fixture is empty"@))
    } else if text::starts_with(t, "["@) {
        match json::json_list_text(t) {
            Ok(values) => Ok(values),
            Err(message) => Err(error::ErrorView::Protocol(message)),
        }
    } else {
        line_values(text::lines(t))
    }
}

/// The model that a request is served by: the one it names, or else the first.
pub open spec fn selected_model(
    model_ids: Seq<Seq<char>>,
    requested: Option<Seq<char>>,
) -> Option<Seq<char>> {
    let id = match requested {
        Some(id) => id,
        None => if model_ids.len() > 0 {
            model_ids[0]
        } else {
            seq![]
        },
    };
    if id.len() > 0 && model_ids.contains(id) {
        Some(id)
    } else {
        None
    }
}

/// The kinds of recorded values that say nothing of the run's output or end.
pub open spec fn is_preamble(kind: Seq<char>) -> bool {
    ||| kind == "session.started"@
    ||| kind == "thread.started"@
    ||| kind == "turn.started"@
    ||| kind == "response.created"@
    ||| kind == "response.in_progress"@
}

/// The kinds of recorded values that carry output.
pub open spec fn is_delta(kind: Seq<char>) -> bool {
    ||| kind == "output.delta"@
    ||| kind == "content.delta"@
    ||| kind == "item/agentmessage/delta"@
    ||| kind == "response.output_text.delta"@
}

/// The kinds of recorded values that complete a run.
pub open spec fn is_completion(kind: Seq<char>) -> bool {
    ||| kind == "execution.completed"@
    ||| kind == "turn.completed"@
    ||| kind == "response.completed"@
    ||| kind == "result.completed"@
}

/// The kinds of recorded values that fail a run.
pub open spec fn is_failure(kind: Seq<char>) -> bool {
    ||| kind == "execution.failed"@
    ||| kind == "turn.failed"@
    ||| kind == "response.failed"@
    ||| kind == "error"@
    ||| kind == "provider.error"@
}

/// The kind of a recorded value.
pub open spec fn recorded_kind(value: json::JsonTree) -> Option<Seq<char>> {
    json::first_of(
        json::text_field(value, "type"@),
        json::first_of(json::text_field(value, "kind"@), json::text_field(value, "method"@)),
    )
}

/// The output of a recorded value.
pub open spec fn recorded_delta(value: json::JsonTree) -> Option<Seq<char>> {
    let params = json::field(value, "params"@);
    json::first_of(
        json::text_field(value, "delta"@),
        json::first_of(
            json::text_value(json::then_field(params, "delta"@)),
            json::first_of(
                json::text_field(value, "text"@),
                json::text_value(json::then_field(params, "text"@)),
            ),
        ),
    )
}

/// The payload that names the connector and the model.
pub open spec fn connector_payload(request: &RuntimeRequest, model_id: Seq<char>) -> json::JsonTree {
    json::JsonTree::Object(
        seq![
            ("connectorId"@, json::JsonTree::Text(request.connector_id@)),
            ("modelId"@, json::JsonTree::Text(model_id)),
        ],
    )
}

/// A run after one more recorded value.
pub open spec fn recorded_step(
    run: fixture::RunView,
    runtime_id: Seq<char>,
    request: &RuntimeRequest,
    model_id: Seq<char>,
    value: json::JsonTree,
) -> Result<fixture::RunView, error::ErrorView> {
    let thread = Some(runtime_id + "-thread-"@ + request.execution_run_id@);
    let index = run.events.len();
    if run.ended {
        Err(
            error::ErrorView::Protocol("connector fixture emitted data after terminal event"@),
        )
    } else {
        match recorded_kind(value) {
            None => Err(error::ErrorView::Protocol("connector fixture kind is missing"@)),
            Some(raw) => {
                let kind = text::lower(raw);
                if is_preamble(kind) {
                    Ok(run)
                } else if is_delta(kind) {
                    match recorded_delta(value) {
                        None => Err(error::ErrorView::Protocol("connector delta is missing"@)),
                        Some(delta) => Ok(
                            run.with_event(
                                fixture::turn_event(
                                    fixture::numbered("output-"@, request, index),
                                    runtime_id,
                                    request,
                                    thread,
                                    "output.delta"@,
                                    index as i64,
                                    fixture::delta_payload(
                                        text::replaced(delta, "{modelId}"@, model_id),
                                    ),
                                ),
                            ),
                        ),
                    }
                } else if is_completion(kind) {
                    Ok(
                        fixture::RunView {
                            ended: true,
                            ..run.with_event(
                                fixture::turn_event(
                                    "completed-"@ + request.execution_run_id@,
                                    runtime_id,
                                    request,
                                    thread,
                                    "execution.completed"@,
                                    index as i64,
                                    connector_payload(request, model_id),
                                ),
                            )
                        },
                    )
                } else if is_failure(kind) {
                    Ok(
                        fixture::RunView {
                            ended: true,
                            ..run.with_event(
                                fixture::turn_event(
                                    "failed-"@ + request.execution_run_id@,
                                    runtime_id,
                                    request,
                                    thread,
                                    "execution.failed"@,
                                    index as i64,
                                    json::JsonTree::Object(
                                        seq![
                                            (
                                                "reason"@,
                                                json::JsonTree::Text("provider_error"@),
                                            ),
                                        ],
                                    ),
                                ),
                            )
                        },
                    )
                } else {
                    Err(
                        error::ErrorView::Protocol("unsupported connector fixture event "@ + raw),
                    )
                }
            },
        }
    }
}

/// A run after the recorded values, up to the first error.
pub open spec fn recorded_run(
    run: fixture::RunView,
    runtime_id: Seq<char>,
    request: &RuntimeRequest,
    model_id: Seq<char>,
    values: Seq<json::JsonTree>,
) -> Result<fixture::RunView, error::ErrorView>
    decreases values.len(),
{
    if values.len() == 0 {
        Ok(run)
    } else {
        match recorded_step(run, runtime_id, request, model_id, values[0]) {
            Ok(next) => recorded_run(next, runtime_id, request, model_id, values.drop_first()),
            Err(e) => Err(e),
        }
    }
}

/// The run before any recorded value.
pub open spec fn recorded_start(
    runtime_id: Seq<char>,
    provider_type: Seq<char>,
    request: &RuntimeRequest,
    model_id: Seq<char>,
) -> fixture::RunView {
    let thread = Some(runtime_id + "-thread-"@ + request.execution_run_id@);
    fixture::RunView {
        events: seq![
            fixture::turn_event(
                "connector-started-"@ + request.execution_run_id@,
                runtime_id,
                request,
                thread,
                "connector.started"@,
                0,
                connector_payload(request, model_id),
            ),
            fixture::turn_event(
                "runtime-started-"@ + request.execution_run_id@,
                runtime_id,
                request,
                thread,
                "runtime.started"@,
                0,
                json::JsonTree::Object(
                    seq![
                        ("connectorId"@, json::JsonTree::Text(request.connector_id@)),
                        ("manifestId"@, json::JsonTree::Text(request.context_manifest_id@)),
                        ("modelId"@, json::JsonTree::Text(model_id)),
                        ("source"@, json::JsonTree::Text(provider_type)),
                    ],
                ),
            ),
        ],
        output: seq![],
        ended: false,
    }
}

/// The events of recorded values that are served by a model.
pub open spec fn recorded_events(
    runtime_id: Seq<char>,
    provider_type: Seq<char>,
    request: &RuntimeRequest,
    model_id: Seq<char>,
    values: Seq<json::JsonTree>,
) -> Result<Seq<event::EventView>, error::ErrorView> {
    match recorded_run(
        recorded_start(runtime_id, provider_type, request, model_id),
        runtime_id,
        request,
        model_id,
        values,
    ) {
        Err(e) => Err(e),
        Ok(run) => if run.ended {
            Ok(run.events)
        } else {
            Err(
                error::ErrorView::Protocol(
                    "connector fixture is missing an explicit terminal event"@,
                ),
            )
        },
    }
}

fn preamble(kind: &str) -> (r: bool)
    ensures
        r == is_preamble(kind@),
{
    same_text(kind, "session.started") || same_text(kind, "thread.started") || same_text(
        kind,
        "turn.started",
    ) || same_text(kind, "response.created") || same_text(kind, "response.in_progress")
}

fn delta_kind(kind: &str) -> (r: bool)
    ensures
        r == is_delta(kind@),
{
    same_text(kind, "output.delta") || same_text(kind, "content.delta") || same_text(
        kind,
        "item/agentmessage/delta",
    ) || same_text(kind, "response.output_text.delta")
}

fn completion_kind(kind: &str) -> (r: bool)
    ensures
        r == is_completion(kind@),
{
    same_text(kind, "execution.completed") || same_text(kind, "turn.completed") || same_text(
        kind,
        "response.completed",
    ) || same_text(kind, "result.completed")
}

fn failure_kind(kind: &str) -> (r: bool)
    ensures
        r == is_failure(kind@),
{
    same_text(kind, "execution.failed") || same_text(kind, "turn.failed") || same_text(
        kind,
        "response.failed",
    ) || same_text(kind, "error") || same_text(kind, "provider.error")
}

fn kind_of(value: &Json) -> (r: Option<&str>)
    ensures
        match r {
            Some(kind) => recorded_kind(value.tree()) == Some(kind@),
            None => recorded_kind(value.tree()) is None,
        },
{
    match value.get_str("type") {
        Some(kind) => Some(kind),
        None => match value.get_str("kind") {
            Some(kind) => Some(kind),
            None => value.get_str("method"),
        },
    }
}

fn params_text<'a>(value: &'a Json, key: &str) -> (r: Option<&'a str>)
    ensures
        match r {
            Some(s) => json::text_value(
                json::then_field(json::field(value.tree(), "params"@), key@),
            ) == Some(s@),
            None => json::text_value(
                json::then_field(json::field(value.tree(), "params"@), key@),
            ) is None,
        },
{
    match value.get("params") {
        Some(params) => params.get_str(key),
        None => None,
    }
}

fn delta_of(value: &Json) -> (r: Option<&str>)
    ensures
        match r {
            Some(delta) => recorded_delta(value.tree()) == Some(delta@),
            None => recorded_delta(value.tree()) is None,
        },
{
    match value.get_str("delta") {
        Some(delta) => Some(delta),
        None => match params_text(value, "delta") {
            Some(delta) => Some(delta),
            None => match value.get_str("text") {
                Some(delta) => Some(delta),
                None => params_text(value, "text"),
            },
        },
    }
}

fn connector_json(request: &RuntimeRequest, model_id: &str) -> (r: Json)
    ensures
        r.tree() == connector_payload(request, model_id@),
{
    object2(
        "connectorId",
        text_json(request.connector_id.as_str()),
        "modelId",
        text_json(model_id),
    )
}

fn thread_of(runtime_id: &str, request: &RuntimeRequest) -> (r: Option<String>)
    ensures
        text::opt_text(r) == Some(runtime_id@ + "-thread-"@ + request.execution_run_id@),
{
    let mut thread = joined(runtime_id, "-thread-");
    thread.append(request.execution_run_id.as_str());
    Some(thread)
}

fn push_run_event(run: &mut FixtureRun, e: RuntimeEvent)
    ensures
        final(run)@ == old(run)@.with_event(e@),
{
    proof {
        event::lemma_event_views_push(run.events@, e);
    }
    run.events.push(e);
}

/// Takes one recorded value into a run.
fn append_recorded(
    run: &mut FixtureRun,
    runtime_id: &str,
    request: &RuntimeRequest,
    model_id: &str,
    value: &Json,
) -> (r: Result<(), RuntimeError>)
    ensures
        match r {
            Ok(_) => recorded_step(old(run)@, runtime_id@, request, model_id@, value.tree())
                == Ok::<fixture::RunView, error::ErrorView>(final(run)@),
            Err(e) => recorded_step(old(run)@, runtime_id@, request, model_id@, value.tree())
                == Err::<fixture::RunView, error::ErrorView>(e@),
        },
{
    if run.ended {
        return Err(
            RuntimeError::protocol("connector fixture emitted data after terminal event"),
        );
    }
    let raw = match kind_of(value) {
        Some(raw) => raw,
        None => {
            return Err(RuntimeError::protocol("connector fixture kind is missing"));
        },
    };
    let kind = lowered(raw);
    let index = run.events.len();
    if preamble(kind.as_str()) {
        return Ok(());
    }
    if delta_kind(kind.as_str()) {
        let delta = match delta_of(value) {
            Some(delta) => delta,
            None => {
                return Err(RuntimeError::protocol("connector delta is missing"));
            },
        };
        proof {
            reveal_strlit("{modelId}");
        }
        let output = replace_text(delta, "{modelId}", model_id);
        let e = new_turn_event(
            run_index_text("output-", request, index as u64),
            runtime_id,
            request,
            thread_of(runtime_id, request),
            "output.delta",
            index as i64,
            object1("delta", Json::Text(output)),
        );
        push_run_event(run, e);
        return Ok(());
    }
    if completion_kind(kind.as_str()) {
        let e = new_turn_event(
            run_text("completed-", request),
            runtime_id,
            request,
            thread_of(runtime_id, request),
            "execution.completed",
            index as i64,
            connector_json(request, model_id),
        );
        push_run_event(run, e);
        run.ended = true;
        return Ok(());
    }
    if failure_kind(kind.as_str()) {
        let e = new_turn_event(
            run_text("failed-", request),
            runtime_id,
            request,
            thread_of(runtime_id, request),
            "execution.failed",
            index as i64,
            object1("reason", text_json("provider_error")),
        );
        push_run_event(run, e);
        run.ended = true;
        return Ok(());
    }
    Err(RuntimeError::Protocol(joined("unsupported connector fixture event ", raw)))
}

proof fn lemma_line_error_stays(lines: Seq<Seq<char>>, n: int)
    requires
        0 <= n <= lines.len(),
        line_values(lines.take(n)) is Err,
    ensures
        line_values(lines) == line_values(lines.take(n)),
    decreases lines.len(),
{
    if n == lines.len() {
        assert(lines.take(n) =~= lines);
    } else {
        assert(lines.drop_last().take(n) =~= lines.take(n));
        lemma_line_error_stays(lines.drop_last(), n);
    }
}

/// Reads the values of a recording.
pub fn fixture_values(fixture: &str) -> (r: Result<Vec<Json>, RuntimeError>)
    ensures
        match r {
            Ok(values) => recorded_values(fixture@) == Ok::<
                Seq<json::JsonTree>,
                error::ErrorView,
            >(json::trees(values@)),
            Err(e) => recorded_values(fixture@) == Err::<Seq<json::JsonTree>, error::ErrorView>(
                e@,
            ),
        },
{
    let whole = trimmed(fixture);
    if whole.as_str().is_empty() {
        return Err(RuntimeError::protocol("connector fixture is empty"));
    }
    if text_starts_with(whole.as_str(), "[") {
        return match parse_json_list(whole.as_str()) {
            Ok(values) => Ok(values),
            Err(message) => Err(RuntimeError::Protocol(message)),
        };
    }
    let lines = lines_of(whole.as_str());
    let ghost all = text::lines(whole@);
    let mut values: Vec<Json> = Vec::new();
    let mut i: usize = 0;
    assert(json::trees(values@) =~= seq![]);
    while i < lines.len()
        invariant
            i <= lines@.len(),
            text::texts(lines@) == all,
            recorded_values(fixture@) == line_values(all),
            line_values(all.take(i as int)) == Ok::<Seq<json::JsonTree>, error::ErrorView>(
                json::trees(values@),
            ),
        decreases lines@.len() - i,
    {
        proof {
            assert(all.take(i + 1).drop_last() =~= all.take(i as int));
            assert(all.take(i + 1).last() == lines@[i as int]@);
        }
        if !trimmed(lines[i].as_str()).as_str().is_empty() {
            match parse_json(lines[i].as_str()) {
                Ok(value) => {
                    proof {
                        json::lemma_trees_push(values@, value);
                    }
                    values.push(value);
                },
                Err(message) => {
                    proof {
                        lemma_line_error_stays(all, i + 1);
                    }
                    return Err(RuntimeError::Protocol(message));
                },
            }
        }
        i += 1;
    }
    assert(all.take(i as int) =~= all);
    Ok(values)
}

impl FixtureConnectorRuntime {
    pub open spec fn models(&self) -> Seq<Seq<char>> {
        text::texts(self.model_ids@)
    }

    /// The events that the connector answers a request with, for recorded values.
    pub open spec fn value_events(
        &self,
        request: &RuntimeRequest,
        values: Seq<json::JsonTree>,
    ) -> Result<Seq<event::EventView>, error::ErrorView> {
        if request.workspace_access == WorkspaceAccess::WorkspaceWrite
            && !self.capabilities.filesystem {
            Err(error::ErrorView::Permission)
        } else {
            match selected_model(self.models(), text::opt_text(request.model_id)) {
                None => Err(
                    error::ErrorView::Protocol(
                        "requested model is not in this connector fixture catalog"@,
                    ),
                ),
                Some(model_id) => recorded_events(
                    self.runtime_id@,
                    self.provider_type@,
                    request,
                    model_id,
                    values,
                ),
            }
        }
    }

    /// The events that the connector answers a request with, for a recording.
    pub open spec fn fixture_events(
        &self,
        request: &RuntimeRequest,
        fixture: Seq<char>,
    ) -> Result<Seq<event::EventView>, error::ErrorView> {
        if request.workspace_access == WorkspaceAccess::WorkspaceWrite
            && !self.capabilities.filesystem {
            Err(error::ErrorView::Permission)
        } else if selected_model(self.models(), text::opt_text(request.model_id)) is None {
            Err(
                error::ErrorView::Protocol(
                    "requested model is not in this connector fixture catalog"@,
                ),
            )
        } else {
            match recorded_values(fixture) {
                Err(e) => Err(e),
                Ok(values) => self.value_events(request, values),
            }
        }
    }

    /// A connector that serves one model and has no recording yet.
    pub fn new(
        runtime_id: &str,
        runtime_version: &str,
        provider_type: &str,
        model_id: String,
        capabilities: RuntimeCapabilities,
    ) -> (r: Self)
        ensures
            r.runtime_id@ == runtime_id@,
            r.runtime_version@ == runtime_version@,
            r.models() == seq![model_id@],
            r.provider_type@ == provider_type@,
            r.fixture is None,
            r.capabilities == capabilities,
            r.inter_event_delay_ns == 0,
    {
        let mut model_ids: Vec<String> = Vec::new();
        model_ids.push(model_id);
        assert(text::texts(model_ids@) =~= seq![model_id@]);
        FixtureConnectorRuntime {
            runtime_id: runtime_id.to_owned(),
            runtime_version: runtime_version.to_owned(),
            model_ids,
            provider_type: provider_type.to_owned(),
            fixture: None,
            capabilities,
            inter_event_delay_ns: 0,
        }
    }

    /// The same connector with a recording.
    pub fn with_fixture(self, fixture: String) -> (r: Self)
        ensures
            r == (FixtureConnectorRuntime { fixture: Some(fixture), ..self }),
    {
        let mut this = self;
        this.fixture = Some(fixture);
        this
    }

    /// The same connector with other models; a list without any is not taken.
    pub fn with_models(self, model_ids: Vec<String>) -> (r: Self)
        ensures
            r.runtime_id == self.runtime_id,
            r.runtime_version == self.runtime_version,
            r.provider_type == self.provider_type,
            r.fixture == self.fixture,
            r.capabilities == self.capabilities,
            r.inter_event_delay_ns == self.inter_event_delay_ns,
            r.models() == if trimmed_ids(text::texts(model_ids@)).len() == 0 {
                self.models()
            } else {
                trimmed_ids(text::texts(model_ids@))
            },
    {
        let ghost all = text::texts(model_ids@);
        let mut kept: Vec<String> = Vec::new();
        let mut i: usize = 0;
        assert(text::texts(kept@) =~= seq![]);
        while i < model_ids.len()
            invariant
                i <= model_ids@.len(),
                all == text::texts(model_ids@),
                text::texts(kept@) == trimmed_ids(all.take(i as int)),
            decreases model_ids@.len() - i,
        {
            let id = trimmed(model_ids[i].as_str());
            proof {
                assert(all.take(i + 1).drop_last() =~= all.take(i as int));
                assert(all.take(i + 1).last() == model_ids@[i as int]@);
                assert(text::texts(kept@.push(id)) =~= text::texts(kept@).push(id@));
            }
            if !id.as_str().is_empty() {
                kept.push(id);
            }
            i += 1;
        }
        assert(all.take(i as int) =~= all);
        let mut this = self;
        if kept.len() > 0 {
            this.model_ids = kept;
        }
        this
    }

    /// The same connector with a pause between its events.
    pub fn with_inter_event_delay(self, delay_ns: u128) -> (r: Self)
        ensures
            r == (FixtureConnectorRuntime { inter_event_delay_ns: delay_ns, ..self }),
    {
        let mut this = self;
        this.inter_event_delay_ns = delay_ns;
        this
    }

    /// The model that a request is served by.
    #[verifier::loop_isolation(false)]
    fn model_for(&self, request: &RuntimeRequest) -> (r: Option<String>)
        ensures
            text::opt_text(r) == selected_model(self.models(), text::opt_text(request.model_id)),
    {
        let id: &str = match &request.model_id {
            Some(id) => id.as_str(),
            None => if self.model_ids.len() > 0 {
                self.model_ids[0].as_str()
            } else {
                ""
            },
        };
        proof {
            reveal_strlit("");
            assert(request.model_id is None && self.models().len() == 0 ==> id@ =~= seq![]);
        }
        if id.is_empty() {
            return None;
        }
        let mut i: usize = 0;
        while i < self.model_ids.len()
            invariant
                i <= self.model_ids@.len(),
                forall|k: int| 0 <= k < i ==> self.models()[k] != id@,
            decreases self.model_ids@.len() - i,
        {
            if same_text(self.model_ids[i].as_str(), id) {
                assert(self.models()[i as int] == id@);
                return Some(id.to_owned());
            }
            i += 1;
        }
        None
    }

    /// Answers a request from recorded values.
    pub fn execute_values(&self, request: &RuntimeRequest, values: &Vec<Json>) -> (r: Result<
        Vec<RuntimeEvent>,
        RuntimeError,
    >)
        ensures
            match r {
                Ok(events) => self.value_events(request, json::trees(values@)) == Ok::<
                    Seq<event::EventView>,
                    error::ErrorView,
                >(event::event_views(events@)),
                Err(e) => self.value_events(request, json::trees(values@)) == Err::<
                    Seq<event::EventView>,
                    error::ErrorView,
                >(e@),
            },
    {
        if request.workspace_access == WorkspaceAccess::WorkspaceWrite
            && !self.capabilities.filesystem {
            return Err(RuntimeError::Permission);
        }
        let model_id = match self.model_for(request) {
            Some(model_id) => model_id,
            None => {
                return Err(
                    RuntimeError::protocol(
                        "requested model is not in this connector fixture catalog",
                    ),
                );
            },
        };
        let runtime_id = self.runtime_id.as_str();
        let first = new_turn_event(
            run_text("connector-started-", request),
            runtime_id,
            request,
            thread_of(runtime_id, request),
            "connector.started",
            0,
            connector_json(request, model_id.as_str()),
        );
        let payload = object2(
            "connectorId",
            text_json(request.connector_id.as_str()),
            "manifestId",
            text_json(request.context_manifest_id.as_str()),
        );
        let payload = with_member(payload, "modelId", text_json(model_id.as_str()));
        let payload = with_member(payload, "source", text_json(self.provider_type.as_str()));
        proof {
            assert(payload.tree()->Object_0 =~= seq![
                ("connectorId"@, json::JsonTree::Text(request.connector_id@)),
                ("manifestId"@, json::JsonTree::Text(request.context_manifest_id@)),
                ("modelId"@, json::JsonTree::Text(model_id@)),
                ("source"@, json::JsonTree::Text(self.provider_type@)),
            ]);
        }
        let second = new_turn_event(
            run_text("runtime-started-", request),
            runtime_id,
            request,
            thread_of(runtime_id, request),
            "runtime.started",
            0,
            payload,
        );
        let mut run = FixtureRun::begin(first);
        push_run_event(&mut run, second);
        let ghost start = recorded_start(
            self.runtime_id@,
            self.provider_type@,
            request,
            model_id@,
        );
        assert(run@ =~= start);
        let ghost all = json::trees(values@);
        let ghost goal = recorded_run(start, self.runtime_id@, request, model_id@, all);
        let mut i: usize = 0;
        assert(all.skip(0) =~= all);
        while i < values.len()
            invariant
                i <= values@.len(),
                all == json::trees(values@),
                runtime_id@ == self.runtime_id@,
                goal == recorded_run(
                    run@,
                    self.runtime_id@,
                    request,
                    model_id@,
                    all.skip(i as int),
                ),
                goal is Err ==> self.value_events(request, all) == Err::<
                    Seq<event::EventView>,
                    error::ErrorView,
                >(goal->Err_0),
            decreases values@.len() - i,
        {
            assert(all.skip(i as int)[0] == values@[i as int].tree());
            assert(all.skip(i as int).drop_first() =~= all.skip(i + 1));
            match append_recorded(&mut run, runtime_id, request, model_id.as_str(), &values[i]) {
                Ok(_) => {},
                Err(e) => {
                    return Err(e);
                },
            }
            i += 1;
        }
        if !run.ended {
            return Err(
                RuntimeError::protocol("connector fixture is missing an explicit terminal event"),
            );
        }
        Ok(run.events)
    }

    /// Answers a request from a recording.
    pub fn execute_fixture(&self, request: &RuntimeRequest, fixture: &str) -> (r: Result<
        Vec<RuntimeEvent>,
        RuntimeError,
    >)
        ensures
            match r {
                Ok(events) => self.fixture_events(request, fixture@) == Ok::<
                    Seq<event::EventView>,
                    error::ErrorView,
                >(event::event_views(events@)),
                Err(e) => self.fixture_events(request, fixture@) == Err::<
                    Seq<event::EventView>,
                    error::ErrorView,
                >(e@),
            },
    {
        if request.workspace_access == WorkspaceAccess::WorkspaceWrite
            && !self.capabilities.filesystem {
            return Err(RuntimeError::Permission);
        }
        if self.model_for(request).is_none() {
            return Err(
                RuntimeError::protocol("requested model is not in this connector fixture catalog"),
            );
        }
        match fixture_values(fixture) {
            Ok(values) => self.execute_values(request, &values),
            Err(e) => Err(e),
        }
    }

    /// Answers a request from the connector's own recording.
    pub fn execute_configured(&self, request: &RuntimeRequest) -> (r: Result<
        Vec<RuntimeEvent>,
        RuntimeError,
    >)
        ensures
            match self.fixture {
                Some(fixture) => match r {
                    Ok(events) => self.fixture_events(request, fixture@) == Ok::<
                        Seq<event::EventView>,
                        error::ErrorView,
                    >(event::event_views(events@)),
                    Err(e) => self.fixture_events(request, fixture@) == Err::<
                        Seq<event::EventView>,
                        error::ErrorView,
                    >(e@),
                },
                None => r matches Err(e) && e@ == error::ErrorView::Unsupported,
            },
    {
        match &self.fixture {
            Some(fixture) => self.execute_fixture(request, fixture.as_str()),
            None => Err(RuntimeError::Unsupported),
        }
    }
}

/// In a run, exactly the last event is terminal when it has ended, and none is
/// while it has not.
pub open spec fn ends_once(run: fixture::RunView) -> bool {
    forall|i: int|
        0 <= i < run.events.len() ==> (event::is_terminal_type(
            (#[trigger] run.events[i]).event_type,
        ) <==> run.ended && i == run.events.len() - 1)
}

proof fn lemma_event_types()
    ensures
        !event::is_terminal_type("connector.started"@),
        !event::is_terminal_type("runtime.started"@),
        !event::is_terminal_type("output.delta"@),
{
    reveal_strlit("connector.started");
    reveal_strlit("runtime.started");
    reveal_strlit("output.delta");
    reveal_strlit("execution.completed");
    reveal_strlit("execution.failed");
    reveal_strlit("execution.cancelled");
    reveal_strlit("execution.interrupted");
    assert("connector.started"@.len() == 17);
    assert("runtime.started"@.len() == 15);
    assert("output.delta"@.len() == 12);
    assert("execution.completed"@.len() == 19);
    assert("execution.failed"@.len() == 16);
    assert("execution.cancelled"@.len() == 19);
    assert("execution.interrupted"@.len() == 21);
}

proof fn lemma_recorded_run_ends_once(
    run: fixture::RunView,
    runtime_id: Seq<char>,
    request: &RuntimeRequest,
    model_id: Seq<char>,
    values: Seq<json::JsonTree>,
)
    requires
        ends_once(run),
    ensures
        recorded_run(run, runtime_id, request, model_id, values) matches Ok(last) ==> ends_once(
            last,
        ) && last.events.len() >= run.events.len(),
    decreases values.len(),
{
    lemma_event_types();
    if values.len() > 0 {
        match recorded_step(run, runtime_id, request, model_id, values[0]) {
            Ok(next) => {
                assert forall|i: int| 0 <= i < next.events.len() implies (event::is_terminal_type(
                    (#[trigger] next.events[i]).event_type,
                ) <==> next.ended && i == next.events.len() - 1) by {
                    if i < run.events.len() {
                        assert(next.events[i] == run.events[i]);
                    }
                }
                lemma_recorded_run_ends_once(
                    next,
                    runtime_id,
                    request,
                    model_id,
                    values.drop_first(),
                );
            },
            Err(_) => {},
        }
    }
}

/// A recording that is replayed gives exactly one terminal event, and it is the
/// last one. A recording without one, or with more behind it, is refused.
pub proof fn law_replay_ends_once(
    runtime_id: Seq<char>,
    provider_type: Seq<char>,
    request: &RuntimeRequest,
    model_id: Seq<char>,
    values: Seq<json::JsonTree>,
)
    ensures
        recorded_events(runtime_id, provider_type, request, model_id, values) matches Ok(events)
            ==> events.len() > 0 && forall|i: int|
            0 <= i < events.len() ==> (event::is_terminal_type((#[trigger] events[i]).event_type)
                <==> i == events.len() - 1),
{
    let start = recorded_start(runtime_id, provider_type, request, model_id);
    lemma_event_types();
    assert(ends_once(start));
    lemma_recorded_run_ends_once(start, runtime_id, request, model_id, values);
}

} // verus!
