//! The runtimes that a caller can configure, behind one interface.

use vstd::prelude::*;
use vstd::string::*;

use crate::catalog::RuntimeModelMetadata;
use crate::error;
use crate::error::{class_of_error, RuntimeError, RuntimeErrorClass};
use crate::event;
use crate::event::{
    copy_text, object1, run_index_text, run_text, text_json, ProviderUsage, RuntimeCapabilities,
    RuntimeDiscovery, RuntimeEvent, RuntimeHealth, RuntimeRequest, WorkspaceAccess,
};
use crate::fixture;
use crate::fixture::{
    acp_completed_event, new_turn_event, run_from_acp_fixture, run_from_http_body, run_from_sse,
    runtime_started,
};
use crate::json;
use crate::json::{string_literal, Json};
use crate::text;
use crate::text::{join_texts, joined, safe_model_identifier, same_text};

verus! {

impl RuntimeDiscovery {
    pub open spec fn is(
        &self,
        runtime_id: Seq<char>,
        version: Option<Seq<char>>,
        owned: bool,
    ) -> bool {
        &&& self.runtime_id@ == runtime_id
        &&& text::opt_text(self.version) == version
        &&& self.owned == owned
    }

    pub fn new(runtime_id: &str, version: Option<String>, owned: bool) -> (r: Self)
        ensures
            r.is(runtime_id@, text::opt_text(version), owned),
    {
        RuntimeDiscovery { runtime_id: runtime_id.to_owned(), version, owned }
    }
}

/// The health states in which a runtime can be used.
pub open spec fn is_available_status(status: Seq<char>) -> bool {
    status == "available"@ || status == "ready"@ || status == "healthy"@
}

/// Whether a runtime in the given state of health can be used.
pub fn availability_of(status: &str) -> (r: Result<(), RuntimeError>)
    ensures
        match r {
            Ok(_) => is_available_status(status@),
            Err(e) => !is_available_status(status@) && e@ == error::ErrorView::Transport(
                "runtime_unavailable"@,
            ),
        },
{
    if same_text(status, "available") || same_text(status, "ready") || same_text(
        status,
        "healthy",
    ) {
        Ok(())
    } else {
        Err(RuntimeError::transport("runtime_unavailable"))
    }
}

/// What a runtime offers. A runtime that can do more than the least overrides the
/// methods that have a body here.
pub trait RuntimeAdapter {
    /// The runtime's id.
    spec fn id_text(&self) -> Seq<char>;

    fn id(&self) -> (r: &str)
        ensures
            r@ == self.id_text(),
    ;

    fn capabilities(&self) -> RuntimeCapabilities;

    fn discover(&self) -> (r: RuntimeDiscovery)
        default_ensures
            r.is(self.id_text(), None, false),
    {
        RuntimeDiscovery::new(self.id(), None, false)
    }

    fn health(&self) -> (r: RuntimeHealth)
        default_ensures
            r.is(self.id_text(), "unknown"@, None),
    {
        RuntimeHealth::new(self.id(), "unknown", None)
    }

    /// The probe that is required before a catalog or an execution.
    fn ensure_available(&self) -> (r: Result<(), RuntimeError>)
        default_ensures
            exists|h: RuntimeHealth| #[trigger]
                call_ensures(Self::health, (self,), h) && match r {
                    Ok(_) => is_available_status(h.status@),
                    Err(e) => !is_available_status(h.status@) && e@ == error::ErrorView::Transport(
                        "runtime_unavailable"@,
                    ),
                },
    {
        availability_of(self.health().status.as_str())
    }

    fn list_models(&self) -> (r: Vec<String>)
        default_ensures
            r@.len() == 0,
    {
        Vec::new()
    }

    /// The models, or why there are none.
    fn list_models_checked(&self) -> (r: Result<Vec<String>, RuntimeError>)
        default_ensures
            r matches Ok(models) && call_ensures(Self::list_models, (self,), models),
    {
        Ok(self.list_models())
    }

    /// The revision of the catalog, where the runtime has one.
    fn catalog_revision(&self) -> (r: Option<u64>)
        default_ensures
            r is None,
    {
        None
    }

    /// The model that the runtime declares to be its default. The order of a
    /// catalog never stands in for it.
    fn catalog_default_model_id(&self) -> (r: Option<String>)
        default_ensures
            r is None,
    {
        None
    }

    fn catalog_model_metadata(&self, model_id: &str) -> (r: Option<RuntimeModelMetadata>)
        default_ensures
            r is None,
    {
        None
    }

    fn execute(&self, request: &RuntimeRequest) -> Result<Vec<RuntimeEvent>, RuntimeError>;

    /// The events that a stream of the answer carries. A runtime that only answers in
    /// one piece has no stream.
    fn stream_script(&self, request: &RuntimeRequest) -> (r: Result<
        Vec<RuntimeEvent>,
        RuntimeError,
    >)
        default_ensures
            r matches Err(e) && e@ == error::ErrorView::Unsupported,
    {
        Err(RuntimeError::Unsupported)
    }

    fn cancel(&self, request: &RuntimeRequest) -> Result<RuntimeEvent, RuntimeError>;

    fn shutdown_owned(&self) -> (r: Result<(), RuntimeError>)
        default_ensures
            r is Ok,
    {
        Ok(())
    }

    fn version(&self) -> (r: Option<String>)
        default_ensures
            exists|d: RuntimeDiscovery| #[trigger]
                call_ensures(Self::discover, (self,), d) && r == d.version,
    {
        self.discover().version
    }

    fn usage(&self) -> (r: ProviderUsage)
        default_ensures
            r == (ProviderUsage { input_tokens: None, output_tokens: None, cost_micros: None }),
    {
        ProviderUsage { input_tokens: None, output_tokens: None, cost_micros: None }
    }

    fn classify_error(&self, e: &RuntimeError) -> (r: RuntimeErrorClass)
        default_ensures
            r == error::error_class(e@),
    {
        class_of_error(e)
    }
}

/// The default when no runtime is configured: it has no models, and neither
/// executes nor cancels a turn.
#[derive(Clone, Copy, Debug, Default)]
pub struct UnconfiguredRuntime;

impl RuntimeAdapter for UnconfiguredRuntime {
    open spec fn id_text(&self) -> Seq<char> {
        "unconfigured"@
    }

    fn id(&self) -> (r: &str) {
        "unconfigured"
    }

    fn capabilities(&self) -> (r: RuntimeCapabilities)
        ensures
            r == (RuntimeCapabilities {
                streaming: false,
                cancel: false,
                filesystem: false,
                shell: false,
            }),
    {
        RuntimeCapabilities { streaming: false, cancel: false, filesystem: false, shell: false }
    }

    fn discover(&self) -> (r: RuntimeDiscovery)
        ensures
            r.is("unconfigured"@, Some("unconfigured-v1"@), false),
    {
        RuntimeDiscovery::new("unconfigured", Some("unconfigured-v1".to_owned()), false)
    }

    fn health(&self) -> (r: RuntimeHealth)
        ensures
            r.is("unconfigured"@, "unavailable"@, Some("no RuntimeAdapter is configured"@)),
    {
        RuntimeHealth::new(
            "unconfigured",
            "unavailable",
            Some("no RuntimeAdapter is configured"),
        )
    }

    fn execute(&self, request: &RuntimeRequest) -> (r: Result<Vec<RuntimeEvent>, RuntimeError>)
        ensures
            r matches Err(e) && e@ == error::ErrorView::NotConfigured,
    {
        Err(RuntimeError::NotConfigured)
    }

    fn cancel(&self, request: &RuntimeRequest) -> (r: Result<RuntimeEvent, RuntimeError>)
        ensures
            r matches Err(e) && e@ == error::ErrorView::NotConfigured,
    {
        Err(RuntimeError::NotConfigured)
    }
}

/// A runtime that answers every request with the same output.
#[derive(Clone, Debug)]
pub struct MockRuntime {
    pub chunks: Vec<String>,
}

impl Default for MockRuntime {
    fn default() -> (r: Self)
        ensures
            text::texts(r.chunks@) == seq!["mock "@, "output"@],
    {
        let mut chunks: Vec<String> = Vec::new();
        chunks.push("mock ".to_owned());
        chunks.push("output".to_owned());
        assert(text::texts(chunks@) =~= seq!["mock "@, "output"@]);
        MockRuntime { chunks }
    }
}

pub open spec fn mock_thread(request: &RuntimeRequest) -> Option<Seq<char>> {
    Some("mock-thread-"@ + request.execution_run_id@)
}

pub open spec fn mock_started(request: &RuntimeRequest) -> event::EventView {
    fixture::turn_event(
        "runtime-started-"@ + request.execution_run_id@,
        "mock"@,
        request,
        mock_thread(request),
        "runtime.started"@,
        0,
        json::JsonTree::Object(
            seq![("manifestId"@, json::JsonTree::Text(request.context_manifest_id@))],
        ),
    )
}

pub open spec fn mock_delta(
    request: &RuntimeRequest,
    index: int,
    chunk: Seq<char>,
) -> event::EventView {
    fixture::turn_event(
        fixture::numbered("output-"@, request, index as nat),
        "mock"@,
        request,
        mock_thread(request),
        "output.delta"@,
        (index + 1) as i64,
        fixture::delta_payload(chunk),
    )
}

pub open spec fn mock_completed(
    request: &RuntimeRequest,
    count: int,
    key: Seq<char>,
    value: Seq<char>,
) -> event::EventView {
    fixture::turn_event(
        "completed-"@ + request.execution_run_id@,
        "mock"@,
        request,
        mock_thread(request),
        "execution.completed"@,
        (count + 1) as i64,
        json::JsonTree::Object(seq![(key, json::JsonTree::Text(value))]),
    )
}

/// The events of a run with the given output: its begin, one event for each
/// piece, and its completion.
pub open spec fn mock_events(
    request: &RuntimeRequest,
    chunks: Seq<Seq<char>>,
    completed: event::EventView,
) -> Seq<event::EventView> {
    seq![mock_started(request)] + Seq::new(
        chunks.len(),
        |i: int| mock_delta(request, i, chunks[i]),
    ) + seq![completed]
}

impl MockRuntime {
    fn thread(&self, request: &RuntimeRequest) -> (r: Option<String>)
        ensures
            text::opt_text(r) == mock_thread(request),
    {
        Some(run_text("mock-thread-", request))
    }

    /// The events of a run whose completion carries the given member.
    fn events(&self, request: &RuntimeRequest, key: &str, value: String) -> (r: Vec<RuntimeEvent>)
        ensures
            event::event_views(r@) == mock_events(
                request,
                text::texts(self.chunks@),
                mock_completed(request, self.chunks@.len() as int, key@, value@),
            ),
    {
        let ghost deltas = Seq::new(
            self.chunks@.len(),
            |i: int| mock_delta(request, i, self.chunks@[i]@),
        );
        let mut events: Vec<RuntimeEvent> = Vec::new();
        events.push(
            new_turn_event(
                run_text("runtime-started-", request),
                "mock",
                request,
                self.thread(request),
                "runtime.started",
                0,
                object1("manifestId", text_json(request.context_manifest_id.as_str())),
            ),
        );
        let mut i: usize = 0;
        assert(event::event_views(events@) =~= seq![mock_started(request)] + deltas.take(0));
        while i < self.chunks.len()
            invariant
                i <= self.chunks@.len(),
                deltas == Seq::new(
                    self.chunks@.len(),
                    |i: int| mock_delta(request, i, self.chunks@[i]@),
                ),
                event::event_views(events@) == seq![mock_started(request)] + deltas.take(i as int),
            decreases self.chunks@.len() - i,
        {
            let e = new_turn_event(
                run_index_text("output-", request, i as u64),
                "mock",
                request,
                self.thread(request),
                "output.delta",
                (i + 1) as i64,
                object1("delta", text_json(self.chunks[i].as_str())),
            );
            proof {
                event::lemma_event_views_push(events@, e);
                assert((seq![mock_started(request)] + deltas.take(i as int)).push(e@) =~= seq![
                    mock_started(request),
                ] + deltas.take(i + 1));
            }
            events.push(e);
            i += 1;
        }
        let e = new_turn_event(
            run_text("completed-", request),
            "mock",
            request,
            self.thread(request),
            "execution.completed",
            (self.chunks.len() as u128 + 1) as i64,
            object1(key, Json::Text(value)),
        );
        proof {
            event::lemma_event_views_push(events@, e);
            assert(deltas.take(i as int) =~= deltas);
            assert(deltas =~= Seq::new(
                text::texts(self.chunks@).len(),
                |i: int| mock_delta(request, i, text::texts(self.chunks@)[i]),
            ));
            assert((seq![mock_started(request)] + deltas).push(e@) =~= seq![mock_started(request)]
                + deltas + seq![e@]);
        }
        events.push(e);
        events
    }
}

impl RuntimeAdapter for MockRuntime {
    open spec fn id_text(&self) -> Seq<char> {
        "mock"@
    }

    fn id(&self) -> (r: &str) {
        "mock"
    }

    fn capabilities(&self) -> (r: RuntimeCapabilities)
        ensures
            r == (RuntimeCapabilities {
                streaming: true,
                cancel: true,
                filesystem: false,
                shell: false,
            }),
    {
        RuntimeCapabilities { streaming: true, cancel: true, filesystem: false, shell: false }
    }

    fn discover(&self) -> (r: RuntimeDiscovery)
        ensures
            r.is("mock"@, Some("mock-1"@), true),
    {
        RuntimeDiscovery::new("mock", Some("mock-1".to_owned()), true)
    }

    fn health(&self) -> (r: RuntimeHealth)
        ensures
            r.is("mock"@, "ready"@, None),
    {
        RuntimeHealth::new("mock", "ready", None)
    }

    fn list_models(&self) -> (r: Vec<String>)
        ensures
            text::texts(r@) == seq!["mock-default"@],
    {
        let mut r: Vec<String> = Vec::new();
        r.push("mock-default".to_owned());
        assert(text::texts(r@) =~= seq!["mock-default"@]);
        r
    }

    fn catalog_default_model_id(&self) -> (r: Option<String>)
        ensures
            text::opt_text(r) == Some("mock-default"@),
    {
        Some("mock-default".to_owned())
    }

    fn execute(&self, request: &RuntimeRequest) -> (r: Result<Vec<RuntimeEvent>, RuntimeError>)
        ensures
            match r {
                Ok(events) => !request.cwd_without_access() && event::event_views(events@)
                    == mock_events(
                    request,
                    text::texts(self.chunks@),
                    mock_completed(
                        request,
                        self.chunks@.len() as int,
                        "output"@,
                        text::join(text::texts(self.chunks@), ""@),
                    ),
                ),
                Err(e) => request.cwd_without_access() && e@ == error::ErrorView::InvalidWorkspace,
            },
    {
        if request.has_cwd_without_access() {
            return Err(RuntimeError::InvalidWorkspace);
        }
        Ok(self.events(request, "output", join_texts(&self.chunks, "")))
    }

    fn stream_script(&self, request: &RuntimeRequest) -> (r: Result<
        Vec<RuntimeEvent>,
        RuntimeError,
    >)
        ensures
            match r {
                Ok(events) => !request.cwd_without_access() && event::event_views(events@)
                    == mock_events(
                    request,
                    text::texts(self.chunks@),
                    mock_completed(
                        request,
                        self.chunks@.len() as int,
                        "source"@,
                        "mock-stream"@,
                    ),
                ),
                Err(e) => request.cwd_without_access() && e@ == error::ErrorView::InvalidWorkspace,
            },
    {
        if request.has_cwd_without_access() {
            return Err(RuntimeError::InvalidWorkspace);
        }
        Ok(self.events(request, "source", "mock-stream".to_owned()))
    }

    fn cancel(&self, request: &RuntimeRequest) -> (r: Result<RuntimeEvent, RuntimeError>)
        ensures
            r matches Ok(e) && e@ == (event::EventView {
                event_id: "cancelled-"@ + request.execution_run_id@,
                execution_run_id: request.execution_run_id@,
                runtime_id: "mock"@,
                thread_id: None,
                turn_id: None,
                sequence: 0,
                event_type: "execution.cancelled"@,
                timestamp_ms: 0,
                payload: json::JsonTree::Object(
                    seq![("reason"@, json::JsonTree::Text("user_cancelled"@))],
                ),
            }),
    {
        Ok(
            RuntimeEvent {
                event_id: run_text("cancelled-", request),
                execution_run_id: request.execution_run_id.clone(),
                runtime_id: "mock".to_owned(),
                thread_id: None,
                turn_id: None,
                sequence: 0,
                event_type: "execution.cancelled".to_owned(),
                timestamp_ms: 0,
                payload: object1("reason", text_json("user_cancelled")),
            },
        )
    }
}

/// A provider that speaks the server-sent events of the OpenAI interface.
#[derive(Clone, Debug)]
pub struct OpenAiCompatibleRuntime {
    pub model_id: String,
}

impl OpenAiCompatibleRuntime {
    pub fn new(model_id: String) -> (r: Self)
        ensures
            r.model_id == model_id,
    {
        OpenAiCompatibleRuntime { model_id }
    }

    /// Reads the run that the pieces of a server-sent stream stand for.
    pub fn execute_from_sse(&self, request: &RuntimeRequest, chunks: &[&str]) -> (r: Result<
        Vec<RuntimeEvent>,
        RuntimeError,
    >)
        ensures
            match r {
                Ok(events) => fixture::sse_events(
                    request,
                    self.model_id@,
                    fixture::chunk_texts(chunks@),
                ) == Ok::<Seq<event::EventView>, error::ErrorView>(event::event_views(events@)),
                Err(e) => fixture::sse_events(
                    request,
                    self.model_id@,
                    fixture::chunk_texts(chunks@),
                ) == Err::<Seq<event::EventView>, error::ErrorView>(e@),
            },
    {
        run_from_sse(request, self.model_id.as_str(), chunks)
    }
}

fn one_model(model_id: &String) -> (r: Vec<String>)
    ensures
        text::texts(r@) == seq![model_id@],
{
    let mut r: Vec<String> = Vec::new();
    r.push(model_id.clone());
    assert(text::texts(r@) =~= seq![model_id@]);
    r
}

impl RuntimeAdapter for OpenAiCompatibleRuntime {
    open spec fn id_text(&self) -> Seq<char> {
        "openai-compatible"@
    }

    fn id(&self) -> (r: &str) {
        "openai-compatible"
    }

    fn capabilities(&self) -> (r: RuntimeCapabilities)
        ensures
            r == (RuntimeCapabilities {
                streaming: true,
                cancel: true,
                filesystem: false,
                shell: false,
            }),
    {
        RuntimeCapabilities { streaming: true, cancel: true, filesystem: false, shell: false }
    }

    fn discover(&self) -> (r: RuntimeDiscovery)
        ensures
            r.is("openai-compatible"@, Some("sse-adapter-v1"@), false),
    {
        RuntimeDiscovery::new("openai-compatible", Some("sse-adapter-v1".to_owned()), false)
    }

    fn health(&self) -> (r: RuntimeHealth)
        ensures
            r.is("openai-compatible"@, "configured"@, None),
    {
        RuntimeHealth::new("openai-compatible", "configured", None)
    }

    fn list_models(&self) -> (r: Vec<String>)
        ensures
            text::texts(r@) == seq![self.model_id@],
    {
        one_model(&self.model_id)
    }

    fn catalog_default_model_id(&self) -> (r: Option<String>)
        ensures
            text::opt_text(r) == text::safe_identifier(self.model_id@),
    {
        safe_model_identifier(self.model_id.as_str())
    }

    fn execute(&self, request: &RuntimeRequest) -> (r: Result<Vec<RuntimeEvent>, RuntimeError>)
        ensures
            r matches Err(e) && e@ == error::ErrorView::Unsupported,
    {
        Err(RuntimeError::Unsupported)
    }

    /// Without a live transport there is nothing to cancel, and no event is made
    /// up that looks like an acknowledgement of the provider.
    fn cancel(&self, request: &RuntimeRequest) -> (r: Result<RuntimeEvent, RuntimeError>)
        ensures
            r matches Err(e) && e@ == error::ErrorView::Unsupported,
    {
        Err(RuntimeError::Unsupported)
    }
}

/// A provider with its own HTTP interface.
#[derive(Clone, Debug)]
pub struct HttpCustomRuntime {
    pub model_id: String,
}

impl HttpCustomRuntime {
    pub fn new(model_id: String) -> (r: Self)
        ensures
            r.model_id == model_id,
    {
        HttpCustomRuntime { model_id }
    }

    /// Reads the run that a body stands for.
    pub fn execute_from_json(&self, request: &RuntimeRequest, body: &str) -> (r: Result<
        Vec<RuntimeEvent>,
        RuntimeError,
    >)
        ensures
            match r {
                Ok(events) => fixture::http_events(request, self.model_id@, body@) == Ok::<
                    Seq<event::EventView>,
                    error::ErrorView,
                >(event::event_views(events@)),
                Err(e) => fixture::http_events(request, self.model_id@, body@) == Err::<
                    Seq<event::EventView>,
                    error::ErrorView,
                >(e@),
            },
    {
        run_from_http_body(request, self.model_id.as_str(), body)
    }
}

impl RuntimeAdapter for HttpCustomRuntime {
    open spec fn id_text(&self) -> Seq<char> {
        "http-custom"@
    }

    fn id(&self) -> (r: &str) {
        "http-custom"
    }

    fn capabilities(&self) -> (r: RuntimeCapabilities)
        ensures
            r == (RuntimeCapabilities {
                streaming: true,
                cancel: false,
                filesystem: false,
                shell: false,
            }),
    {
        RuntimeCapabilities { streaming: true, cancel: false, filesystem: false, shell: false }
    }

    fn discover(&self) -> (r: RuntimeDiscovery)
        ensures
            r.is("http-custom"@, Some("fixture-contract-v1"@), false),
    {
        RuntimeDiscovery::new("http-custom", Some("fixture-contract-v1".to_owned()), false)
    }

    fn health(&self) -> (r: RuntimeHealth)
        ensures
            r.is(
                "http-custom"@,
                "fixture-ready"@,
                Some("live HTTP transport remains an Owner Gate"@),
            ),
    {
        RuntimeHealth::new(
            "http-custom",
            "fixture-ready",
            Some("live HTTP transport remains an Owner Gate"),
        )
    }

    fn list_models(&self) -> (r: Vec<String>)
        ensures
            text::texts(r@) == seq![self.model_id@],
    {
        one_model(&self.model_id)
    }

    fn execute(&self, request: &RuntimeRequest) -> (r: Result<Vec<RuntimeEvent>, RuntimeError>)
        ensures
            r matches Err(e) && e@ == error::ErrorView::Unsupported,
    {
        Err(RuntimeError::Unsupported)
    }

    fn cancel(&self, request: &RuntimeRequest) -> (r: Result<RuntimeEvent, RuntimeError>)
        ensures
            r matches Err(e) && e@ == error::ErrorView::Unsupported,
    {
        Err(RuntimeError::Unsupported)
    }
}

/// A runtime that plays an agent protocol session.
#[derive(Clone, Debug)]
pub struct AcpMockRuntime {
    pub chunks: Vec<String>,
}

impl Default for AcpMockRuntime {
    fn default() -> (r: Self)
        ensures
            r.chunks@.len() == 0,
    {
        AcpMockRuntime { chunks: Vec::new() }
    }
}

/// The recording of one piece of output.
pub open spec fn acp_delta_text(chunk: Seq<char>) -> Seq<char> {
    "{\"kind\":\"output.delta\",\"delta\":"@ + json::json_literal(chunk) + "}"@
}

/// The pieces that are played: those of the runtime, or one of its own.
pub open spec fn acp_chunks(chunks: Seq<Seq<char>>) -> Seq<Seq<char>> {
    if chunks.len() == 0 {
        seq!["acp mock output"@]
    } else {
        chunks
    }
}

/// The recording of a session with the given output.
pub open spec fn acp_recording(chunks: Seq<Seq<char>>) -> Seq<char> {
    "[{\"kind\":\"session.started\"},"@ + text::join(
        Seq::new(chunks.len(), |i: int| acp_delta_text(chunks[i])),
        ","@,
    ) + ",{\"kind\":\"turn.completed\"}]"@
}

/// The events that a stream of a session with the given output carries.
pub open spec fn acp_script(
    request: &RuntimeRequest,
    chunks: Seq<Seq<char>>,
) -> Seq<event::EventView> {
    seq![fixture::started("acp-mock"@, request, "acp-fixture"@)] + Seq::new(
        chunks.len(),
        |i: int| acp_script_delta(request, i, chunks[i]),
    ) + seq![fixture::acp_completed(request, (chunks.len() + 1) as i64)]
}

pub open spec fn acp_script_delta(
    request: &RuntimeRequest,
    index: int,
    chunk: Seq<char>,
) -> event::EventView {
    fixture::turn_event(
        fixture::numbered("acp-output-"@, request, index as nat),
        "acp-mock"@,
        request,
        fixture::acp_thread(request),
        "output.delta"@,
        (index + 1) as i64,
        fixture::delta_payload(chunk),
    )
}

impl AcpMockRuntime {
    pub fn new(chunks: Vec<String>) -> (r: Self)
        ensures
            r.chunks == chunks,
    {
        AcpMockRuntime { chunks }
    }

    /// Reads the run that a recording stands for.
    pub fn execute_from_fixture(&self, request: &RuntimeRequest, fixture: &str) -> (r: Result<
        Vec<RuntimeEvent>,
        RuntimeError,
    >)
        ensures
            match r {
                Ok(events) => fixture::acp_events(request, fixture@) == Ok::<
                    Seq<event::EventView>,
                    error::ErrorView,
                >(event::event_views(events@)),
                Err(e) => fixture::acp_events(request, fixture@) == Err::<
                    Seq<event::EventView>,
                    error::ErrorView,
                >(e@),
            },
    {
        run_from_acp_fixture(request, fixture)
    }

    fn played(&self) -> (r: Vec<String>)
        ensures
            text::texts(r@) == acp_chunks(text::texts(self.chunks@)),
    {
        let mut r: Vec<String> = Vec::new();
        if self.chunks.len() == 0 {
            r.push("acp mock output".to_owned());
            assert(text::texts(r@) =~= seq!["acp mock output"@]);
            return r;
        }
        let mut i: usize = 0;
        assert(text::texts(r@) =~= text::texts(self.chunks@).take(0));
        while i < self.chunks.len()
            invariant
                i <= self.chunks@.len(),
                text::texts(r@) == text::texts(self.chunks@).take(i as int),
            decreases self.chunks@.len() - i,
        {
            let chunk = self.chunks[i].clone();
            proof {
                assert(text::texts(r@.push(chunk)) =~= text::texts(r@).push(chunk@));
                assert(text::texts(self.chunks@).take(i + 1) =~= text::texts(self.chunks@).take(
                    i as int,
                ).push(self.chunks@[i as int]@));
            }
            r.push(chunk);
            i += 1;
        }
        assert(text::texts(self.chunks@).take(i as int) =~= text::texts(self.chunks@));
        r
    }

    /// The recording that the runtime plays.
    pub fn recording(&self) -> (r: String)
        ensures
            r@ == acp_recording(acp_chunks(text::texts(self.chunks@))),
    {
        let chunks = self.played();
        let ghost all = text::texts(chunks@);
        let ghost wanted = Seq::new(all.len(), |i: int| acp_delta_text(all[i]));
        let mut parts: Vec<String> = Vec::new();
        let mut i: usize = 0;
        assert(text::texts(parts@) =~= wanted.take(0));
        while i < chunks.len()
            invariant
                i <= chunks@.len(),
                all == text::texts(chunks@),
                wanted == Seq::new(all.len(), |i: int| acp_delta_text(all[i])),
                text::texts(parts@) == wanted.take(i as int),
            decreases chunks@.len() - i,
        {
            let mut part = joined(
                "{\"kind\":\"output.delta\",\"delta\":",
                string_literal(chunks[i].as_str()).as_str(),
            );
            part.append("}");
            proof {
                assert(text::texts(parts@.push(part)) =~= text::texts(parts@).push(part@));
                assert(wanted.take(i + 1) =~= wanted.take(i as int).push(part@));
            }
            parts.push(part);
            i += 1;
        }
        assert(wanted.take(i as int) =~= wanted);
        let mut r = joined(
            "[{\"kind\":\"session.started\"},",
            join_texts(&parts, ",").as_str(),
        );
        r.append(",{\"kind\":\"turn.completed\"}]");
        r
    }

    fn script(&self, request: &RuntimeRequest) -> (r: Vec<RuntimeEvent>)
        ensures
            event::event_views(r@) == acp_script(
                request,
                acp_chunks(text::texts(self.chunks@)),
            ),
    {
        let chunks = self.played();
        let ghost all = text::texts(chunks@);
        let ghost deltas = Seq::new(all.len(), |i: int| acp_script_delta(request, i, all[i]));
        let ghost first = fixture::started("acp-mock"@, request, "acp-fixture"@);
        let mut events: Vec<RuntimeEvent> = Vec::new();
        events.push(runtime_started("acp-mock", request, "acp-fixture"));
        let mut i: usize = 0;
        assert(event::event_views(events@) =~= seq![first] + deltas.take(0));
        while i < chunks.len()
            invariant
                i <= chunks@.len(),
                all == text::texts(chunks@),
                deltas == Seq::new(all.len(), |i: int| acp_script_delta(request, i, all[i])),
                event::event_views(events@) == seq![first] + deltas.take(i as int),
            decreases chunks@.len() - i,
        {
            let e = new_turn_event(
                run_index_text("acp-output-", request, i as u64),
                "acp-mock",
                request,
                Some(run_text("acp-session-", request)),
                "output.delta",
                (i + 1) as i64,
                object1("delta", text_json(chunks[i].as_str())),
            );
            proof {
                event::lemma_event_views_push(events@, e);
                assert((seq![first] + deltas.take(i as int)).push(e@) =~= seq![first]
                    + deltas.take(i + 1));
            }
            events.push(e);
            i += 1;
        }
        let e = acp_completed_event(request, (chunks.len() as u128 + 1) as i64);
        proof {
            event::lemma_event_views_push(events@, e);
            assert(deltas.take(i as int) =~= deltas);
            assert((seq![first] + deltas).push(e@) =~= seq![first] + deltas + seq![e@]);
        }
        events.push(e);
        events
    }
}

impl RuntimeAdapter for AcpMockRuntime {
    open spec fn id_text(&self) -> Seq<char> {
        "acp-mock"@
    }

    fn id(&self) -> (r: &str) {
        "acp-mock"
    }

    fn capabilities(&self) -> (r: RuntimeCapabilities)
        ensures
            r == (RuntimeCapabilities {
                streaming: true,
                cancel: true,
                filesystem: false,
                shell: false,
            }),
    {
        RuntimeCapabilities { streaming: true, cancel: true, filesystem: false, shell: false }
    }

    fn discover(&self) -> (r: RuntimeDiscovery)
        ensures
            r.is("acp-mock"@, Some("mock-contract-v1"@), true),
    {
        RuntimeDiscovery::new("acp-mock", Some("mock-contract-v1".to_owned()), true)
    }

    fn health(&self) -> (r: RuntimeHealth)
        ensures
            r.is("acp-mock"@, "ready"@, Some("ACP mock fixture only"@)),
    {
        RuntimeHealth::new("acp-mock", "ready", Some("ACP mock fixture only"))
    }

    fn execute(&self, request: &RuntimeRequest) -> (r: Result<Vec<RuntimeEvent>, RuntimeError>)
        ensures
            ({
                let recording = acp_recording(acp_chunks(text::texts(self.chunks@)));
                match r {
                    Ok(events) => fixture::acp_events(request, recording) == Ok::<
                        Seq<event::EventView>,
                        error::ErrorView,
                    >(event::event_views(events@)),
                    Err(e) => fixture::acp_events(request, recording) == Err::<
                        Seq<event::EventView>,
                        error::ErrorView,
                    >(e@),
                }
            }),
    {
        let recording = self.recording();
        self.execute_from_fixture(request, recording.as_str())
    }

    fn stream_script(&self, request: &RuntimeRequest) -> (r: Result<
        Vec<RuntimeEvent>,
        RuntimeError,
    >)
        ensures
            r matches Ok(events) && event::event_views(events@) == acp_script(
                request,
                acp_chunks(text::texts(self.chunks@)),
            ),
    {
        Ok(self.script(request))
    }

    fn cancel(&self, request: &RuntimeRequest) -> (r: Result<RuntimeEvent, RuntimeError>)
        ensures
            r matches Ok(e) && e@ == fixture::turn_event(
                "acp-cancelled-"@ + request.execution_run_id@,
                "acp-mock"@,
                request,
                fixture::acp_thread(request),
                "execution.cancelled"@,
                0,
                json::JsonTree::Object(
                    seq![("reason"@, json::JsonTree::Text("user_cancelled"@))],
                ),
            ),
    {
        Ok(
            new_turn_event(
                run_text("acp-cancelled-", request),
                "acp-mock",
                request,
                Some(run_text("acp-session-", request)),
                "execution.cancelled",
                0,
                object1("reason", text_json("user_cancelled")),
            ),
        )
    }
}

/// A runtime that is known by its configuration only: no provider is called.
#[derive(Clone, Debug)]
pub struct ConfiguredAdapter {
    pub runtime_id: String,
    pub runtime_version: Option<String>,
    pub adapter_capabilities: RuntimeCapabilities,
}

impl ConfiguredAdapter {
    pub open spec fn is(
        &self,
        runtime_id: Seq<char>,
        version: Option<Seq<char>>,
        capabilities: RuntimeCapabilities,
    ) -> bool {
        &&& self.runtime_id@ == runtime_id
        &&& text::opt_text(self.runtime_version) == version
        &&& self.adapter_capabilities == capabilities
    }

    pub fn kun() -> (r: Self)
        ensures
            r.is(
                "kun"@,
                None,
                (RuntimeCapabilities {
                    streaming: true,
                    cancel: true,
                    filesystem: true,
                    shell: true,
                }),
            ),
    {
        ConfiguredAdapter {
            runtime_id: "kun".to_owned(),
            runtime_version: None,
            adapter_capabilities: RuntimeCapabilities {
                streaming: true,
                cancel: true,
                filesystem: true,
                shell: true,
            },
        }
    }

    pub fn codex() -> (r: Self)
        ensures
            r.is(
                "codex"@,
                None,
                (RuntimeCapabilities {
                    streaming: true,
                    cancel: true,
                    filesystem: true,
                    shell: true,
                }),
            ),
    {
        ConfiguredAdapter {
            runtime_id: "codex".to_owned(),
            runtime_version: None,
            adapter_capabilities: RuntimeCapabilities {
                streaming: true,
                cancel: true,
                filesystem: true,
                shell: true,
            },
        }
    }

    pub fn http_custom() -> (r: Self)
        ensures
            r.is(
                "http-custom"@,
                None,
                (RuntimeCapabilities {
                    streaming: true,
                    cancel: false,
                    filesystem: false,
                    shell: false,
                }),
            ),
    {
        ConfiguredAdapter {
            runtime_id: "http-custom".to_owned(),
            runtime_version: None,
            adapter_capabilities: RuntimeCapabilities {
                streaming: true,
                cancel: false,
                filesystem: false,
                shell: false,
            },
        }
    }

    pub fn openai_compatible() -> (r: Self)
        ensures
            r.is(
                "openai-compatible"@,
                Some("sse-adapter-v1"@),
                (RuntimeCapabilities {
                    streaming: true,
                    cancel: true,
                    filesystem: false,
                    shell: false,
                }),
            ),
    {
        ConfiguredAdapter {
            runtime_id: "openai-compatible".to_owned(),
            runtime_version: Some("sse-adapter-v1".to_owned()),
            adapter_capabilities: RuntimeCapabilities {
                streaming: true,
                cancel: true,
                filesystem: false,
                shell: false,
            },
        }
    }

    pub fn acp_mock() -> (r: Self)
        ensures
            r.is(
                "acp-mock"@,
                Some("mock-contract-v1"@),
                (RuntimeCapabilities {
                    streaming: true,
                    cancel: true,
                    filesystem: false,
                    shell: false,
                }),
            ),
    {
        ConfiguredAdapter {
            runtime_id: "acp-mock".to_owned(),
            runtime_version: Some("mock-contract-v1".to_owned()),
            adapter_capabilities: RuntimeCapabilities {
                streaming: true,
                cancel: true,
                filesystem: false,
                shell: false,
            },
        }
    }
}

impl RuntimeAdapter for ConfiguredAdapter {
    open spec fn id_text(&self) -> Seq<char> {
        self.runtime_id@
    }

    fn id(&self) -> (r: &str) {
        self.runtime_id.as_str()
    }

    fn capabilities(&self) -> (r: RuntimeCapabilities)
        ensures
            r == self.adapter_capabilities,
    {
        self.adapter_capabilities
    }

    fn discover(&self) -> (r: RuntimeDiscovery)
        ensures
            r.is(
                self.runtime_id@,
                text::opt_text(self.runtime_version),
                self.runtime_id@ == "codex"@,
            ),
    {
        RuntimeDiscovery::new(
            self.runtime_id.as_str(),
            copy_text(&self.runtime_version),
            same_text(self.runtime_id.as_str(), "codex"),
        )
    }

    fn health(&self) -> (r: RuntimeHealth)
        ensures
            r.is(
                self.runtime_id@,
                "unverified"@,
                Some("live adapter contract reserved; no provider call performed"@),
            ),
    {
        RuntimeHealth::new(
            self.runtime_id.as_str(),
            "unverified",
            Some("live adapter contract reserved; no provider call performed"),
        )
    }

    fn execute(&self, request: &RuntimeRequest) -> (r: Result<Vec<RuntimeEvent>, RuntimeError>)
        ensures
            r matches Err(e) && e@ == if request.workspace_access
                == WorkspaceAccess::WorkspaceWrite && !self.adapter_capabilities.filesystem {
                error::ErrorView::Permission
            } else {
                error::ErrorView::Unsupported
            },
    {
        if request.workspace_access == WorkspaceAccess::WorkspaceWrite
            && !self.adapter_capabilities.filesystem {
            return Err(RuntimeError::Permission);
        }
        Err(RuntimeError::Unsupported)
    }

    fn cancel(&self, request: &RuntimeRequest) -> (r: Result<RuntimeEvent, RuntimeError>)
        ensures
            r matches Err(e) && e@ == error::ErrorView::Unsupported,
    {
        Err(RuntimeError::Unsupported)
    }
}

} // verus!
