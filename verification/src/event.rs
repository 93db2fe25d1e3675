//! Runtime requests and the events that answer them.

use vstd::prelude::*;
use vstd::string::*;

use crate::json::Json;
use crate::json;
use crate::redact;
use crate::redact::redact_external_text;
use crate::text;
use crate::text::{chars_of, decimal_text, joined, same_text, text_of};

verus! {

pub const DEFAULT_RUNTIME_STREAM_CAPACITY: usize = 16;

pub const DEFAULT_RUNTIME_TIMEOUT_MS: u64 = 120_000;

pub const MAX_RUNTIME_TIMEOUT_MS: u64 = 3_600_000;

/// What a run may do in the workspace.
#[derive(Clone, Copy, Debug, PartialEq, Eq, Structural)]
pub enum WorkspaceAccess {
    NoAccess,
    ReadOnly,
    WorkspaceWrite,
}

/// One execution that a runtime is asked for.
#[derive(Debug)]
pub struct RuntimeRequest {
    pub execution_run_id: String,
    pub agent_identity_id: String,
    pub connector_id: String,
    pub model_id: Option<String>,
    pub context_manifest_id: String,
    pub rendered_context: String,
    pub canonical_cwd: Option<String>,
    pub workspace_access: WorkspaceAccess,
    pub timeout_ms: u64,
    pub thread_policy: String,
    /// A deterministic local scope digest, not a cryptographic external signature.
    pub signed_scope: String,
}

/// An optional text, copied.
pub fn copy_text(value: &Option<String>) -> (r: Option<String>)
    ensures
        text::opt_text(r) == text::opt_text(*value),
{
    match value {
        Some(s) => Some(s.clone()),
        None => None,
    }
}

impl RuntimeRequest {
    /// Two requests ask for the same.
    pub open spec fn same_as(&self, other: &RuntimeRequest) -> bool {
        &&& self.execution_run_id@ == other.execution_run_id@
        &&& self.agent_identity_id@ == other.agent_identity_id@
        &&& self.connector_id@ == other.connector_id@
        &&& text::opt_text(self.model_id) == text::opt_text(other.model_id)
        &&& self.context_manifest_id@ == other.context_manifest_id@
        &&& self.rendered_context@ == other.rendered_context@
        &&& text::opt_text(self.canonical_cwd) == text::opt_text(other.canonical_cwd)
        &&& self.workspace_access == other.workspace_access
        &&& self.timeout_ms == other.timeout_ms
        &&& self.thread_policy@ == other.thread_policy@
        &&& self.signed_scope@ == other.signed_scope@
    }

    /// A working directory without any access to the workspace.
    pub open spec fn cwd_without_access(&self) -> bool {
        self.workspace_access == WorkspaceAccess::NoAccess && self.canonical_cwd is Some
    }

    pub fn has_cwd_without_access(&self) -> (r: bool)
        ensures
            r == self.cwd_without_access(),
    {
        self.workspace_access == WorkspaceAccess::NoAccess && self.canonical_cwd.is_some()
    }
}

impl Clone for RuntimeRequest {
    fn clone(&self) -> (r: Self)
        ensures
            r.same_as(self),
    {
        RuntimeRequest {
            execution_run_id: self.execution_run_id.clone(),
            agent_identity_id: self.agent_identity_id.clone(),
            connector_id: self.connector_id.clone(),
            model_id: copy_text(&self.model_id),
            context_manifest_id: self.context_manifest_id.clone(),
            rendered_context: self.rendered_context.clone(),
            canonical_cwd: copy_text(&self.canonical_cwd),
            workspace_access: self.workspace_access,
            timeout_ms: self.timeout_ms,
            thread_policy: self.thread_policy.clone(),
            signed_scope: self.signed_scope.clone(),
        }
    }
}

/// What a runtime can do.
#[derive(Clone, Copy, Debug, PartialEq, Eq, Structural)]
pub struct RuntimeCapabilities {
    pub streaming: bool,
    pub cancel: bool,
    pub filesystem: bool,
    pub shell: bool,
}

#[derive(Clone, Debug, PartialEq, Eq)]
pub struct RuntimeDiscovery {
    pub runtime_id: String,
    pub version: Option<String>,
    pub owned: bool,
}

#[derive(Debug, PartialEq, Eq)]
pub struct RuntimeHealth {
    pub runtime_id: String,
    pub status: String,
    pub detail: Option<String>,
}

impl RuntimeHealth {
    pub open spec fn is(
        &self,
        runtime_id: Seq<char>,
        status: Seq<char>,
        detail: Option<Seq<char>>,
    ) -> bool {
        &&& self.runtime_id@ == runtime_id
        &&& self.status@ == status
        &&& text::opt_text(self.detail) == detail
    }

    pub fn new(runtime_id: &str, status: &str, detail: Option<&str>) -> (r: Self)
        ensures
            r.is(
                runtime_id@,
                status@,
                match detail {
                    Some(d) => Some(d@),
                    None => None,
                },
            ),
    {
        RuntimeHealth {
            runtime_id: runtime_id.to_owned(),
            status: status.to_owned(),
            detail: match detail {
                Some(d) => Some(d.to_owned()),
                None => None,
            },
        }
    }
}

impl Clone for RuntimeHealth {
    fn clone(&self) -> (r: Self)
        ensures
            r.is(self.runtime_id@, self.status@, text::opt_text(self.detail)),
    {
        RuntimeHealth {
            runtime_id: self.runtime_id.clone(),
            status: self.status.clone(),
            detail: copy_text(&self.detail),
        }
    }
}

#[derive(Clone, Copy, Debug, PartialEq, Eq, Structural)]
pub struct ProviderUsage {
    pub input_tokens: Option<u64>,
    pub output_tokens: Option<u64>,
    pub cost_micros: Option<u64>,
}

/// One event of a run.
#[derive(Debug, PartialEq, Eq)]
pub struct RuntimeEvent {
    pub event_id: String,
    pub execution_run_id: String,
    pub runtime_id: String,
    pub thread_id: Option<String>,
    pub turn_id: Option<String>,
    pub sequence: u64,
    pub event_type: String,
    pub timestamp_ms: i64,
    pub payload: Json,
}

/// An event with its texts as sequences of characters and its payload as a tree.
#[verifier::ext_equal]
pub struct EventView {
    pub event_id: Seq<char>,
    pub execution_run_id: Seq<char>,
    pub runtime_id: Seq<char>,
    pub thread_id: Option<Seq<char>>,
    pub turn_id: Option<Seq<char>>,
    pub sequence: u64,
    pub event_type: Seq<char>,
    pub timestamp_ms: i64,
    pub payload: json::JsonTree,
}

impl View for RuntimeEvent {
    type V = EventView;

    open spec fn view(&self) -> EventView {
        EventView {
            event_id: self.event_id@,
            execution_run_id: self.execution_run_id@,
            runtime_id: self.runtime_id@,
            thread_id: text::opt_text(self.thread_id),
            turn_id: text::opt_text(self.turn_id),
            sequence: self.sequence,
            event_type: self.event_type@,
            timestamp_ms: self.timestamp_ms,
            payload: self.payload.tree(),
        }
    }
}

impl Clone for RuntimeEvent {
    fn clone(&self) -> (r: Self)
        ensures
            r@ == self@,
    {
        RuntimeEvent {
            event_id: self.event_id.clone(),
            execution_run_id: self.execution_run_id.clone(),
            runtime_id: self.runtime_id.clone(),
            thread_id: copy_text(&self.thread_id),
            turn_id: copy_text(&self.turn_id),
            sequence: self.sequence,
            event_type: self.event_type.clone(),
            timestamp_ms: self.timestamp_ms,
            payload: self.payload.clone(),
        }
    }
}

/// The views of a list of events.
pub open spec fn event_views(events: Seq<RuntimeEvent>) -> Seq<EventView> {
    Seq::new(events.len(), |i: int| events[i]@)
}

pub proof fn lemma_event_views_push(events: Seq<RuntimeEvent>, event: RuntimeEvent)
    ensures
        event_views(events.push(event)) == event_views(events).push(event@),
{
    assert(event_views(events.push(event)) =~= event_views(events).push(event@));
}

/// The types of the events that end a run.
pub open spec fn is_terminal_type(event_type: Seq<char>) -> bool {
    ||| event_type == "execution.completed"@
    ||| event_type == "execution.failed"@
    ||| event_type == "execution.cancelled"@
    ||| event_type == "execution.interrupted"@
}

/// Whether an event ends its run.
pub fn is_terminal_event(event: &RuntimeEvent) -> (r: bool)
    ensures
        r == is_terminal_type(event@.event_type),
{
    same_text(event.event_type.as_str(), "execution.completed") || same_text(
        event.event_type.as_str(),
        "execution.failed",
    ) || same_text(event.event_type.as_str(), "execution.cancelled") || same_text(
        event.event_type.as_str(),
        "execution.interrupted",
    )
}

/// An object with one member.
pub fn object1(key: &str, value: Json) -> (r: Json)
    ensures
        r.tree() == json::JsonTree::Object(seq![(key@, value.tree())]),
{
    let mut entries: Vec<(String, Json)> = Vec::new();
    entries.push((key.to_owned(), value));
    assert(json::entry_trees(entries@) =~= seq![(key@, value.tree())]);
    let r = Json::Object(entries);
    proof {
        r.lemma_list();
    }
    r
}

/// An object with two members.
pub fn object2(key1: &str, value1: Json, key2: &str, value2: Json) -> (r: Json)
    ensures
        r.tree() == json::JsonTree::Object(
            seq![(key1@, value1.tree()), (key2@, value2.tree())],
        ),
{
    let mut entries: Vec<(String, Json)> = Vec::new();
    entries.push((key1.to_owned(), value1));
    entries.push((key2.to_owned(), value2));
    assert(json::entry_trees(entries@) =~= seq![(key1@, value1.tree()), (key2@, value2.tree())]);
    let r = Json::Object(entries);
    proof {
        r.lemma_list();
    }
    r
}

/// The object with one more member behind the others; another value is kept.
pub fn with_member(value: Json, key: &str, member: Json) -> (r: Json)
    ensures
        value.tree() matches json::JsonTree::Object(entries) ==> r.tree()
            == json::JsonTree::Object(entries.push((key@, member.tree()))),
        !(value.tree() is Object) ==> r == value,
{
    proof {
        value.lemma_list();
    }
    match value {
        Json::Object(entries) => {
            let mut entries = entries;
            let key = key.to_owned();
            proof {
                json::lemma_entry_trees_push(entries@, key, member);
            }
            entries.push((key, member));
            let r = Json::Object(entries);
            proof {
                r.lemma_list();
            }
            r
        },
        other => other,
    }
}

/// A string value.
pub fn text_json(value: &str) -> (r: Json)
    ensures
        r.tree() == json::JsonTree::Text(value@),
{
    Json::Text(value.to_owned())
}

/// A string value, or null.
pub open spec fn opt_tree(value: Option<Seq<char>>) -> json::JsonTree {
    match value {
        Some(s) => json::JsonTree::Text(s),
        None => json::JsonTree::Null,
    }
}

pub fn opt_json(value: &Option<String>) -> (r: Json)
    ensures
        r.tree() == opt_tree(text::opt_text(*value)),
{
    match value {
        Some(s) => Json::Text(s.clone()),
        None => Json::Null,
    }
}

/// `prefix`, then the run's id.
pub fn run_text(prefix: &str, request: &RuntimeRequest) -> (r: String)
    ensures
        r@ == prefix@ + request.execution_run_id@,
{
    joined(prefix, request.execution_run_id.as_str())
}

/// `prefix`, then the run's id, a hyphen and the decimal form of a number.
pub fn run_index_text(prefix: &str, request: &RuntimeRequest, index: u64) -> (r: String)
    ensures
        r@ == prefix@ + request.execution_run_id@ + "-"@ + text::decimal(index as nat),
{
    let mut r = run_text(prefix, request);
    r.append("-");
    r.append(decimal_text(index).as_str());
    r
}

/// The event that says that a connector has begun to serve a request.
pub open spec fn connector_started(
    runtime_id: Seq<char>,
    request: &RuntimeRequest,
    thread_id: Option<Seq<char>>,
    turn_id: Option<Seq<char>>,
) -> EventView {
    EventView {
        event_id: "connector-started-"@ + request.execution_run_id@,
        execution_run_id: request.execution_run_id@,
        runtime_id,
        thread_id,
        turn_id,
        sequence: 0,
        event_type: "connector.started"@,
        timestamp_ms: 0,
        payload: json::JsonTree::Object(
            seq![
                ("connectorId"@, json::JsonTree::Text(request.connector_id@)),
                ("modelId"@, opt_tree(text::opt_text(request.model_id))),
            ],
        ),
    }
}

pub fn connector_started_event(
    runtime_id: &str,
    request: &RuntimeRequest,
    thread_id: Option<String>,
    turn_id: Option<String>,
) -> (r: RuntimeEvent)
    ensures
        r@ == connector_started(
            runtime_id@,
            request,
            text::opt_text(thread_id),
            text::opt_text(turn_id),
        ),
{
    RuntimeEvent {
        event_id: run_text("connector-started-", request),
        execution_run_id: request.execution_run_id.clone(),
        runtime_id: runtime_id.to_owned(),
        thread_id,
        turn_id,
        sequence: 0,
        event_type: "connector.started".to_owned(),
        timestamp_ms: 0,
        payload: object2(
            "connectorId",
            text_json(request.connector_id.as_str()),
            "modelId",
            opt_json(&request.model_id),
        ),
    }
}

/// The event that says that the runtime has begun the turn.
pub open spec fn runtime_started_turn(
    runtime_id: Seq<char>,
    source: Seq<char>,
    request: &RuntimeRequest,
    thread_id: Option<Seq<char>>,
    turn_id: Option<Seq<char>>,
) -> EventView {
    EventView {
        event_id: "runtime-started-"@ + request.execution_run_id@,
        execution_run_id: request.execution_run_id@,
        runtime_id,
        thread_id,
        turn_id,
        sequence: 0,
        event_type: "runtime.started"@,
        timestamp_ms: 0,
        payload: json::JsonTree::Object(
            seq![
                ("connectorId"@, json::JsonTree::Text(request.connector_id@)),
                ("manifestId"@, json::JsonTree::Text(request.context_manifest_id@)),
                ("modelId"@, opt_tree(text::opt_text(request.model_id))),
                ("source"@, json::JsonTree::Text(source)),
            ],
        ),
    }
}

pub fn runtime_started_event(
    runtime_id: &str,
    source: &str,
    request: &RuntimeRequest,
    thread_id: Option<String>,
    turn_id: Option<String>,
) -> (r: RuntimeEvent)
    ensures
        r@ == runtime_started_turn(
            runtime_id@,
            source@,
            request,
            text::opt_text(thread_id),
            text::opt_text(turn_id),
        ),
{
    let payload = object2(
        "connectorId",
        text_json(request.connector_id.as_str()),
        "manifestId",
        text_json(request.context_manifest_id.as_str()),
    );
    let payload = with_member(payload, "modelId", opt_json(&request.model_id));
    let payload = with_member(payload, "source", text_json(source));
    proof {
        assert(payload.tree()->Object_0 =~= seq![
            ("connectorId"@, json::JsonTree::Text(request.connector_id@)),
            ("manifestId"@, json::JsonTree::Text(request.context_manifest_id@)),
            ("modelId"@, opt_tree(text::opt_text(request.model_id))),
            ("source"@, json::JsonTree::Text(source@)),
        ]);
    }
    RuntimeEvent {
        event_id: run_text("runtime-started-", request),
        execution_run_id: request.execution_run_id.clone(),
        runtime_id: runtime_id.to_owned(),
        thread_id,
        turn_id,
        sequence: 0,
        event_type: "runtime.started".to_owned(),
        timestamp_ms: 0,
        payload,
    }
}

/// The event for a piece of output, whose text is redacted.
pub open spec fn output_delta(
    runtime_id: Seq<char>,
    request: &RuntimeRequest,
    thread_id: Option<Seq<char>>,
    turn_id: Option<Seq<char>>,
    index: u64,
    delta: Seq<char>,
) -> EventView {
    EventView {
        event_id: "output-"@ + request.execution_run_id@ + "-"@ + text::decimal(index as nat),
        execution_run_id: request.execution_run_id@,
        runtime_id,
        thread_id,
        turn_id,
        sequence: 0,
        event_type: "output.delta"@,
        timestamp_ms: index as i64,
        payload: json::JsonTree::Object(
            seq![("delta"@, json::JsonTree::Text(redact::redacted(delta)))],
        ),
    }
}

pub fn output_delta_event(
    runtime_id: &str,
    request: &RuntimeRequest,
    thread_id: Option<String>,
    turn_id: Option<String>,
    index: u64,
    delta: &str,
) -> (r: RuntimeEvent)
    ensures
        r@ == output_delta(
            runtime_id@,
            request,
            text::opt_text(thread_id),
            text::opt_text(turn_id),
            index,
            delta@,
        ),
{
    RuntimeEvent {
        event_id: run_index_text("output-", request, index),
        execution_run_id: request.execution_run_id.clone(),
        runtime_id: runtime_id.to_owned(),
        thread_id,
        turn_id,
        sequence: 0,
        event_type: "output.delta".to_owned(),
        timestamp_ms: index as i64,
        payload: object1("delta", Json::Text(redact_external_text(delta))),
    }
}

/// A text with a hyphen for each full stop.
pub open spec fn hyphenated(s: Seq<char>) -> Seq<char> {
    Seq::new(
        s.len(),
        |i: int|
            if s[i] == '.' {
                '-'
            } else {
                s[i]
            },
    )
}

pub fn hyphenate(s: &str) -> (r: String)
    ensures
        r@ == hyphenated(s@),
{
    let cs = chars_of(s);
    let mut out: Vec<char> = Vec::new();
    let mut i: usize = 0;
    while i < cs.len()
        invariant
            i <= cs@.len(),
            cs@ == s@,
            out@ == hyphenated(s@).take(i as int),
        decreases cs@.len() - i,
    {
        out.push(
            if cs[i] == '.' {
                '-'
            } else {
                cs[i]
            },
        );
        i += 1;
        assert(out@ =~= hyphenated(s@).take(i as int));
    }
    assert(out@ =~= hyphenated(s@));
    text_of(&out)
}

/// The event that ends a run.
pub open spec fn terminal(
    runtime_id: Seq<char>,
    event_type: Seq<char>,
    request: &RuntimeRequest,
    thread_id: Option<Seq<char>>,
    turn_id: Option<Seq<char>>,
    index: u64,
    reason: Option<Seq<char>>,
) -> EventView {
    EventView {
        event_id: hyphenated(event_type) + "-"@ + request.execution_run_id@,
        execution_run_id: request.execution_run_id@,
        runtime_id,
        thread_id,
        turn_id,
        sequence: 0,
        event_type,
        timestamp_ms: index as i64,
        payload: json::JsonTree::Object(
            match reason {
                Some(reason) => seq![
                    ("connectorId"@, json::JsonTree::Text(request.connector_id@)),
                    ("modelId"@, opt_tree(text::opt_text(request.model_id))),
                    ("reason"@, json::JsonTree::Text(reason)),
                ],
                None => seq![
                    ("connectorId"@, json::JsonTree::Text(request.connector_id@)),
                    ("modelId"@, opt_tree(text::opt_text(request.model_id))),
                ],
            },
        ),
    }
}

pub fn terminal_event(
    runtime_id: &str,
    event_type: &str,
    request: &RuntimeRequest,
    thread_id: Option<String>,
    turn_id: Option<String>,
    index: u64,
    reason: Option<&str>,
) -> (r: RuntimeEvent)
    ensures
        r@ == terminal(
            runtime_id@,
            event_type@,
            request,
            text::opt_text(thread_id),
            text::opt_text(turn_id),
            index,
            match reason {
                Some(s) => Some(s@),
                None => None,
            },
        ),
{
    let payload = object2(
        "connectorId",
        text_json(request.connector_id.as_str()),
        "modelId",
        opt_json(&request.model_id),
    );
    let payload = match reason {
        Some(reason) => {
            let p = with_member(payload, "reason", text_json(reason));
            proof {
                assert(p.tree()->Object_0 =~= seq![
                    ("connectorId"@, json::JsonTree::Text(request.connector_id@)),
                    ("modelId"@, opt_tree(text::opt_text(request.model_id))),
                    ("reason"@, json::JsonTree::Text(reason@)),
                ]);
            }
            p
        },
        None => payload,
    };
    let mut event_id = hyphenate(event_type);
    event_id.append("-");
    event_id.append(request.execution_run_id.as_str());
    RuntimeEvent {
        event_id,
        execution_run_id: request.execution_run_id.clone(),
        runtime_id: runtime_id.to_owned(),
        thread_id,
        turn_id,
        sequence: 0,
        event_type: event_type.to_owned(),
        timestamp_ms: index as i64,
        payload,
    }
}

/// The event for a cancelled run.
pub open spec fn cancelled(
    runtime_id: Seq<char>,
    request: &RuntimeRequest,
    thread_id: Option<Seq<char>>,
    turn_id: Option<Seq<char>>,
) -> EventView {
    terminal(
        runtime_id,
        "execution.cancelled"@,
        request,
        thread_id,
        turn_id,
        0,
        Some("user_cancelled"@),
    )
}

pub fn cancelled_event(
    runtime_id: &str,
    request: &RuntimeRequest,
    thread_id: Option<String>,
    turn_id: Option<String>,
) -> (r: RuntimeEvent)
    ensures
        r@ == cancelled(
            runtime_id@,
            request,
            text::opt_text(thread_id),
            text::opt_text(turn_id),
        ),
{
    terminal_event(
        runtime_id,
        "execution.cancelled",
        request,
        thread_id,
        turn_id,
        0,
        Some("user_cancelled"),
    )
}

/// The time that a request may take: what it asks for, but at least one
/// millisecond and at most an hour.
pub open spec fn bounded_timeout(timeout_ms: u64) -> u64 {
    if timeout_ms < 1 {
        1
    } else if timeout_ms > MAX_RUNTIME_TIMEOUT_MS {
        MAX_RUNTIME_TIMEOUT_MS
    } else {
        timeout_ms
    }
}

pub fn bounded_request_timeout(timeout_ms: u64) -> (r: u64)
    ensures
        r == bounded_timeout(timeout_ms),
{
    if timeout_ms < 1 {
        1
    } else if timeout_ms > MAX_RUNTIME_TIMEOUT_MS {
        MAX_RUNTIME_TIMEOUT_MS
    } else {
        timeout_ms
    }
}

} // verus!
