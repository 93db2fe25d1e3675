//! A run of a Codex app server: what is sent to it, what its messages mean, and
//! when the run ends.

use vstd::prelude::*;
use vstd::string::*;

use crate::catalog;
use crate::catalog::RuntimeModelCatalog;
use crate::error;
use crate::error::{RuntimeError, CODEX_MODEL_UNAVAILABLE, CODEX_PROTOCOL_ERROR};
use crate::event;
use crate::event::{
    connector_started_event, object2, output_delta_event, runtime_started_event,
    terminal_event, text_json, with_member, RuntimeEvent, RuntimeRequest, WorkspaceAccess,
};
use crate::json;
use crate::json::Json;
use crate::rpc;
use crate::rpc::{is_jsonrpc_server_request, reply_to_server_request};
use crate::text;
use crate::text::{safe_model_identifier, same_text, trimmed};

verus! {

/// A text that serves as an identifier, if there is one.
pub open spec fn identifier(value: Option<json::JsonTree>) -> Option<Seq<char>> {
    match json::text_value(value) {
        Some(s) => text::safe_identifier(s),
        None => None,
    }
}

/// The first of four places that holds an identifier: three members, and the
/// member `id` of the member `outer`.
pub open spec fn identifier_at(
    value: json::JsonTree,
    a: Seq<char>,
    b: Seq<char>,
    c: Seq<char>,
    outer: Seq<char>,
) -> Option<Seq<char>> {
    json::first_of(
        identifier(json::field(value, a)),
        json::first_of(
            identifier(json::field(value, b)),
            json::first_of(
                identifier(json::field(value, c)),
                identifier(json::then_field(json::field(value, outer), "id"@)),
            ),
        ),
    )
}

pub(crate) fn identifier_in(value: &Json, key: &str) -> (r: Option<String>)
    ensures
        text::opt_text(r) == identifier(json::field(value.tree(), key@)),
{
    match value.get_str(key) {
        Some(s) => safe_model_identifier(s),
        None => None,
    }
}

fn first_identifier(value: &Json, a: &str, b: &str, c: &str, outer: &str) -> (r: Option<String>)
    ensures
        text::opt_text(r) == identifier_at(value.tree(), a@, b@, c@, outer@),
{
    if let Some(id) = identifier_in(value, a) {
        return Some(id);
    }
    if let Some(id) = identifier_in(value, b) {
        return Some(id);
    }
    if let Some(id) = identifier_in(value, c) {
        return Some(id);
    }
    match value.get(outer) {
        Some(inner) => identifier_in(inner, "id"),
        None => None,
    }
}

/// Whether the parameters of a notification name this thread and this turn.
pub open spec fn of_turn(
    params: json::JsonTree,
    thread_id: Seq<char>,
    turn_id: Seq<char>,
) -> bool {
    &&& json::first_of(
        json::text_field(params, "threadId"@),
        json::text_field(params, "thread_id"@),
    ) == Some(thread_id)
    &&& json::first_of(
        json::text_field(params, "turnId"@),
        json::first_of(
            json::text_field(params, "turn_id"@),
            json::text_value(json::then_field(json::field(params, "turn"@), "id"@)),
        ),
    ) == Some(turn_id)
}

fn nested_text<'a>(value: &'a Json, outer: &str, inner: &str) -> (r: Option<&'a str>)
    ensures
        match r {
            Some(s) => json::text_value(
                json::then_field(json::field(value.tree(), outer@), inner@),
            ) == Some(s@),
            None => json::text_value(
                json::then_field(json::field(value.tree(), outer@), inner@),
            ) is None,
        },
{
    match value.get(outer) {
        Some(v) => v.get_str(inner),
        None => None,
    }
}

pub fn notification_matches_turn(value: &Json, thread_id: &str, turn_id: &str) -> (r: bool)
    ensures
        r == of_turn(value.tree(), thread_id@, turn_id@),
{
    let event_thread_id = match value.get_str("threadId") {
        Some(s) => Some(s),
        None => value.get_str("thread_id"),
    };
    let event_turn_id = match value.get_str("turnId") {
        Some(s) => Some(s),
        None => match value.get_str("turn_id") {
            Some(s) => Some(s),
            None => nested_text(value, "turn", "id"),
        },
    };
    let thread_matches = match event_thread_id {
        Some(s) => same_text(s, thread_id),
        None => false,
    };
    let turn_matches = match event_turn_id {
        Some(s) => same_text(s, turn_id),
        None => false,
    };
    thread_matches && turn_matches
}

/// The piece of output that a notification carries.
pub open spec fn delta_of(params: json::JsonTree) -> Option<Seq<char>> {
    json::first_of(
        json::text_field(params, "delta"@),
        json::first_of(
            json::text_field(params, "text"@),
            json::first_of(
                json::text_value(json::then_field(json::field(params, "item"@), "text"@)),
                json::text_value(json::then_field(json::field(params, "content"@), "text"@)),
            ),
        ),
    )
}

pub fn notification_delta(value: &Json) -> (r: Option<&str>)
    ensures
        match r {
            Some(s) => delta_of(value.tree()) == Some(s@),
            None => delta_of(value.tree()) is None,
        },
{
    match value.get_str("delta") {
        Some(s) => Some(s),
        None => match value.get_str("text") {
            Some(s) => Some(s),
            None => match nested_text(value, "item", "text") {
                Some(s) => Some(s),
                None => nested_text(value, "content", "text"),
            },
        },
    }
}

/// Whether an error notification says that the server will try again.
pub open spec fn will_retry(params: json::JsonTree) -> bool {
    match json::first_of(
        json::bool_value(json::field(params, "willRetry"@)),
        json::first_of(
            json::bool_value(json::field(params, "will_retry"@)),
            json::bool_value(json::then_field(json::field(params, "error"@), "willRetry"@)),
        ),
    ) {
        Some(b) => b,
        None => false,
    }
}

pub fn codex_error_will_retry(params: &Json) -> (r: bool)
    ensures
        r == will_retry(params.tree()),
{
    let first = match params.get("willRetry") {
        Some(v) => v.as_bool(),
        None => None,
    };
    if let Some(b) = first {
        return b;
    }
    let second = match params.get("will_retry") {
        Some(v) => v.as_bool(),
        None => None,
    };
    if let Some(b) = second {
        return b;
    }
    let third = match params.get("error") {
        Some(e) => match e.get("willRetry") {
            Some(v) => v.as_bool(),
            None => None,
        },
        None => None,
    };
    match third {
        Some(b) => b,
        None => false,
    }
}

/// The parameters that start a thread. A run that may not write gets a sandbox
/// that only reads.
pub open spec fn thread_params(
    cwd: Seq<char>,
    model: Seq<char>,
    access: WorkspaceAccess,
) -> json::JsonTree {
    json::JsonTree::Object(
        seq![
            ("approvalPolicy"@, json::JsonTree::Text("never"@)),
            ("cwd"@, json::JsonTree::Text(cwd)),
            ("ephemeral"@, json::JsonTree::Bool(true)),
            ("model"@, json::JsonTree::Text(model)),
            (
                "sandbox"@,
                json::JsonTree::Text(
                    if access == WorkspaceAccess::WorkspaceWrite {
                        "workspace-write"@
                    } else {
                        "read-only"@
                    },
                ),
            ),
        ],
    )
}

fn thread_params_json(cwd: &str, model: &str, access: WorkspaceAccess) -> (r: Json)
    ensures
        r.tree() == thread_params(cwd@, model@, access),
{
    let sandbox = match access {
        WorkspaceAccess::WorkspaceWrite => "workspace-write",
        WorkspaceAccess::ReadOnly => "read-only",
        WorkspaceAccess::NoAccess => "read-only",
    };
    let value = object2("approvalPolicy", text_json("never"), "cwd", text_json(cwd));
    let value = with_member(value, "ephemeral", Json::Bool(true));
    let value = with_member(value, "model", text_json(model));
    let value = with_member(value, "sandbox", text_json(sandbox));
    proof {
        assert(value.tree()->Object_0 =~= thread_params(cwd@, model@, access)->Object_0);
    }
    value
}

/// The parameters that start a turn with a text.
pub open spec fn turn_params(thread_id: Seq<char>, input: Seq<char>) -> json::JsonTree {
    json::JsonTree::Object(
        seq![
            (
                "input"@,
                json::JsonTree::List(
                    seq![
                        json::JsonTree::Object(
                            seq![
                                ("text"@, json::JsonTree::Text(input)),
                                ("type"@, json::JsonTree::Text("text"@)),
                            ],
                        ),
                    ],
                ),
            ),
            ("threadId"@, json::JsonTree::Text(thread_id)),
        ],
    )
}

fn turn_params_json(thread_id: &str, input: &str) -> (r: Json)
    ensures
        r.tree() == turn_params(thread_id@, input@),
{
    let item = object2("text", text_json(input), "type", text_json("text"));
    let ghost item_tree = item.tree();
    let mut items: Vec<Json> = Vec::new();
    items.push(item);
    let list = Json::List(items);
    proof {
        list.lemma_list();
        assert(list.tree()->List_0 =~= seq![item_tree]);
    }
    object2("input", list, "threadId", text_json(thread_id))
}

/// The parameters that interrupt a turn.
pub open spec fn interrupt_params(thread_id: Seq<char>, turn_id: Seq<char>) -> json::JsonTree {
    json::JsonTree::Object(
        seq![
            ("threadId"@, json::JsonTree::Text(thread_id)),
            ("turnId"@, json::JsonTree::Text(turn_id)),
        ],
    )
}

/// The request that interrupts a turn.
pub fn interrupt_request(id: u64, thread_id: &str, turn_id: &str) -> (r: Json)
    ensures
        r.tree() == rpc::request_message(
            id,
            "turn/interrupt"@,
            interrupt_params(thread_id@, turn_id@),
        ),
{
    let params = object2("threadId", text_json(thread_id), "turnId", text_json(turn_id));
    rpc::request_json(id, "turn/interrupt", params)
}

/// Where a run stands.
#[derive(Clone, Copy, Debug, PartialEq, Eq, Structural)]
pub enum CodexPhase {
    /// The catalog is being read.
    Catalog,
    /// A session is being opened.
    Session,
    /// A thread is being started.
    Thread,
    /// A turn is being started.
    Turn,
    /// The turn is running.
    Running,
    /// The terminal event is being handed over.
    Closing,
    Ended,
}

/// What came of the action before.
#[derive(Debug)]
pub enum CodexInput {
    Failed(RuntimeError),
    Catalog(RuntimeModelCatalog),
    Done,
    Answer(Json),
    Message(Json),
    Silence,
}

pub enum CodexInputView {
    Failed(error::ErrorView),
    Catalog(catalog::CatalogView),
    Done,
    Answer(json::JsonTree),
    Message(json::JsonTree),
    Silence,
}

impl View for CodexInput {
    type V = CodexInputView;

    open spec fn view(&self) -> CodexInputView {
        match self {
            CodexInput::Failed(e) => CodexInputView::Failed(e@),
            CodexInput::Catalog(c) => CodexInputView::Catalog(c@),
            CodexInput::Done => CodexInputView::Done,
            CodexInput::Answer(v) => CodexInputView::Answer(v.tree()),
            CodexInput::Message(v) => CodexInputView::Message(v.tree()),
            CodexInput::Silence => CodexInputView::Silence,
        }
    }
}

/// What is to be done next.
#[derive(Debug)]
pub enum CodexAction {
    LoadCatalog,
    OpenSession,
    /// Send a request and wait for the answer.
    Call { method: &'static str, params: Json },
    /// Hand over events.
    Emit(Vec<RuntimeEvent>),
    /// Send a message.
    Reply(Json),
    /// Wait for a message, for a while.
    Receive,
    /// Interrupt the turn, then end the run with the error.
    Interrupt { thread_id: String, turn_id: String, error: RuntimeError },
    Finish(Result<(), RuntimeError>),
}

pub enum CodexActionView {
    LoadCatalog,
    OpenSession,
    Call(Seq<char>, json::JsonTree),
    Emit(Seq<event::EventView>),
    Reply(json::JsonTree),
    Receive,
    Interrupt(Seq<char>, Seq<char>, error::ErrorView),
    Finish(Result<(), error::ErrorView>),
}

impl View for CodexAction {
    type V = CodexActionView;

    open spec fn view(&self) -> CodexActionView {
        match self {
            CodexAction::LoadCatalog => CodexActionView::LoadCatalog,
            CodexAction::OpenSession => CodexActionView::OpenSession,
            CodexAction::Call { method, params } => CodexActionView::Call(method@, params.tree()),
            CodexAction::Emit(events) => CodexActionView::Emit(event::event_views(events@)),
            CodexAction::Reply(v) => CodexActionView::Reply(v.tree()),
            CodexAction::Receive => CodexActionView::Receive,
            CodexAction::Interrupt { thread_id, turn_id, error } => CodexActionView::Interrupt(
                thread_id@,
                turn_id@,
                error@,
            ),
            CodexAction::Finish(r) => CodexActionView::Finish(
                match r {
                    Ok(_) => Ok(()),
                    Err(e) => Err(e@),
                },
            ),
        }
    }
}

/// The state of a run.
#[verifier::ext_equal]
pub struct CodexRunView {
    pub phase: CodexPhase,
    pub thread_id: Seq<char>,
    pub turn_id: Seq<char>,
    pub index: u64,
}

/// What is present and not blank.
pub open spec fn filled(value: Option<String>) -> Option<Seq<char>> {
    match value {
        Some(s) => if text::trim(s@).len() > 0 {
            Some(s@)
        } else {
            None
        },
        None => None,
    }
}

pub(crate) fn filled_text(value: &Option<String>) -> (r: Option<&str>)
    ensures
        match r {
            Some(s) => filled(*value) == Some(s@),
            None => filled(*value) is None,
        },
{
    match value {
        Some(s) => if trimmed(s.as_str()).as_str().is_empty() {
            None
        } else {
            Some(s.as_str())
        },
        None => None,
    }
}

/// What a request must have before anything is started.
pub open spec fn preflight(request: &RuntimeRequest, cancelled: bool) -> Result<
    (),
    error::ErrorView,
> {
    if cancelled {
        Err(error::ErrorView::Cancelled)
    } else if filled(request.canonical_cwd) is None {
        Err(error::ErrorView::InvalidWorkspace)
    } else if filled(request.model_id) is None {
        Err(error::ErrorView::Protocol(CODEX_MODEL_UNAVAILABLE@))
    } else {
        Ok(())
    }
}

/// The end of a run.
pub open spec fn finished(s: CodexRunView, result: Result<(), error::ErrorView>) -> (
    CodexRunView,
    CodexActionView,
) {
    (CodexRunView { phase: CodexPhase::Ended, ..s }, CodexActionView::Finish(result))
}

/// The end of a run whose turn is to be interrupted.
pub open spec fn interrupted(s: CodexRunView, e: error::ErrorView) -> (
    CodexRunView,
    CodexActionView,
) {
    (
        CodexRunView { phase: CodexPhase::Ended, ..s },
        CodexActionView::Interrupt(s.thread_id, s.turn_id, e),
    )
}

/// Before each message: the turn of a cancelled run is interrupted, and so is that
/// of a run whose time is over.
pub open spec fn listen(s: CodexRunView, cancelled: bool, expired: bool) -> (
    CodexRunView,
    CodexActionView,
) {
    if cancelled {
        interrupted(s, error::ErrorView::Cancelled)
    } else if expired {
        interrupted(s, error::ErrorView::Timeout)
    } else {
        (s, CodexActionView::Receive)
    }
}

pub open spec fn is_delta_method(method: Seq<char>) -> bool {
    ||| method == "item/agentMessage/delta"@
    ||| method == "response.output_text.delta"@
    ||| method == "output.delta"@
    ||| method == "content.delta"@
}

pub open spec fn is_completion_method(method: Seq<char>) -> bool {
    ||| method == "turn/completed"@
    ||| method == "response.completed"@
    ||| method == "execution.completed"@
}

/// The terminal event type for the status of a turn that is over.
pub open spec fn completion_type(params: json::JsonTree) -> Seq<char> {
    let status = json::first_of(
        json::text_value(json::then_field(json::field(params, "turn"@), "status"@)),
        json::text_field(params, "status"@),
    );
    if status == Some("failed"@) || status == Some("error"@) {
        "execution.failed"@
    } else if status == Some("cancelled"@) || status == Some("canceled"@) {
        "execution.cancelled"@
    } else if status == Some("interrupted"@) {
        "execution.interrupted"@
    } else {
        "execution.completed"@
    }
}

/// What a message means for a run.
pub enum Meaning {
    /// A request of the server.
    Request,
    /// A piece of output.
    Output(Seq<char>),
    /// The end of the turn, with the type of the event and a reason.
    End(Seq<char>, Option<Seq<char>>),
    /// Nothing for this run.
    Other,
}

pub open spec fn meaning(s: CodexRunView, message: json::JsonTree) -> Meaning {
    let params = match json::field(message, "params"@) {
        Some(p) => p,
        None => json::JsonTree::Null,
    };
    if rpc::is_server_request(message) {
        Meaning::Request
    } else {
        match json::text_field(message, "method"@) {
            None => Meaning::Other,
            Some(method) => if method == "error"@ {
                if will_retry(params) {
                    Meaning::Other
                } else {
                    Meaning::End("execution.failed"@, Some("provider_error"@))
                }
            } else if !of_turn(params, s.thread_id, s.turn_id) {
                Meaning::Other
            } else if is_delta_method(method) {
                match delta_of(params) {
                    Some(delta) => Meaning::Output(delta),
                    None => Meaning::Other,
                }
            } else if is_completion_method(method) {
                let event_type = completion_type(params);
                Meaning::End(
                    event_type,
                    if event_type == "execution.failed"@ {
                        Some("provider_error"@)
                    } else {
                        None
                    },
                )
            } else {
                Meaning::Other
            },
        }
    }
}

/// A run after a message.
pub open spec fn on_message(
    s: CodexRunView,
    request: &RuntimeRequest,
    message: json::JsonTree,
    cancelled: bool,
    expired: bool,
) -> (CodexRunView, CodexActionView) {
    let next = (s.index + 1) as u64;
    match meaning(s, message) {
        Meaning::Request => (s, CodexActionView::Reply(rpc::reply_message(message))),
        Meaning::Output(delta) => (
            CodexRunView { index: next, ..s },
            CodexActionView::Emit(
                seq![
                    event::output_delta(
                        "codex"@,
                        request,
                        Some(s.thread_id),
                        Some(s.turn_id),
                        next,
                        delta,
                    ),
                ],
            ),
        ),
        Meaning::End(event_type, reason) => (
            CodexRunView { phase: CodexPhase::Closing, index: next, ..s },
            CodexActionView::Emit(
                seq![
                    event::terminal(
                        "codex"@,
                        event_type,
                        request,
                        Some(s.thread_id),
                        Some(s.turn_id),
                        next,
                        reason,
                    ),
                ],
            ),
        ),
        Meaning::Other => listen(s, cancelled, expired),
    }
}

/// The events that open a run.
pub open spec fn opening(
    request: &RuntimeRequest,
    thread_id: Seq<char>,
    turn_id: Seq<char>,
) -> Seq<event::EventView> {
    seq![
        event::connector_started("codex"@, request, Some(thread_id), Some(turn_id)),
        event::runtime_started_turn(
            "codex"@,
            "codex-app-server"@,
            request,
            Some(thread_id),
            Some(turn_id),
        ),
    ]
}

/// Whether an input can follow in a state.
pub open spec fn fits(s: CodexRunView, input: CodexInputView) -> bool {
    match s.phase {
        CodexPhase::Catalog => input is Failed || input is Catalog,
        CodexPhase::Session => input is Failed || input is Done,
        CodexPhase::Thread => input is Failed || input is Answer,
        CodexPhase::Turn => input is Failed || input is Answer,
        CodexPhase::Running => input is Failed || input is Done || input is Message
            || input is Silence,
        CodexPhase::Closing => input is Failed || input is Done,
        CodexPhase::Ended => false,
    }
}

/// The first state of a run and the first action.
pub open spec fn begin(request: &RuntimeRequest, cancelled: bool) -> (
    CodexRunView,
    CodexActionView,
) {
    let s = CodexRunView {
        phase: CodexPhase::Catalog,
        thread_id: seq![],
        turn_id: seq![],
        index: 2,
    };
    match preflight(request, cancelled) {
        Ok(_) => (s, CodexActionView::LoadCatalog),
        Err(e) => finished(s, Err(e)),
    }
}

/// One step of a run.
pub open spec fn step(
    s: CodexRunView,
    request: &RuntimeRequest,
    input: CodexInputView,
    cancelled: bool,
    expired: bool,
) -> (CodexRunView, CodexActionView) {
    match input {
        CodexInputView::Failed(e) => finished(s, Err(e)),
        CodexInputView::Catalog(c) => if cancelled {
            finished(s, Err(error::ErrorView::Cancelled))
        } else if filled(request.model_id) is None || !c.models.contains(
            filled(request.model_id)->0,
        ) {
            finished(s, Err(error::ErrorView::Protocol(CODEX_MODEL_UNAVAILABLE@)))
        } else {
            (CodexRunView { phase: CodexPhase::Session, ..s }, CodexActionView::OpenSession)
        },
        CodexInputView::Done => if s.phase == CodexPhase::Closing {
            finished(s, Ok(()))
        } else if s.phase == CodexPhase::Running {
            listen(s, cancelled, expired)
        } else if cancelled {
            finished(s, Err(error::ErrorView::Cancelled))
        } else {
            match (filled(request.canonical_cwd), filled(request.model_id)) {
                (Some(cwd), Some(model)) => (
                    CodexRunView { phase: CodexPhase::Thread, ..s },
                    CodexActionView::Call(
                        "thread/start"@,
                        thread_params(cwd, model, request.workspace_access),
                    ),
                ),
                _ => finished(s, Err(error::ErrorView::InvalidWorkspace)),
            }
        },
        CodexInputView::Answer(v) => if s.phase == CodexPhase::Thread {
            match identifier_at(v, "id"@, "threadId"@, "thread_id"@, "thread"@) {
                None => finished(s, Err(error::ErrorView::Protocol(CODEX_PROTOCOL_ERROR@))),
                Some(thread_id) => if cancelled {
                    finished(s, Err(error::ErrorView::Cancelled))
                } else {
                    (
                        CodexRunView { phase: CodexPhase::Turn, thread_id, ..s },
                        CodexActionView::Call(
                            "turn/start"@,
                            turn_params(thread_id, request.rendered_context@),
                        ),
                    )
                },
            }
        } else {
            match identifier_at(v, "id"@, "turnId"@, "turn_id"@, "turn"@) {
                None => finished(s, Err(error::ErrorView::Protocol(CODEX_PROTOCOL_ERROR@))),
                Some(turn_id) => (
                    CodexRunView { phase: CodexPhase::Running, turn_id, ..s },
                    CodexActionView::Emit(opening(request, s.thread_id, turn_id)),
                ),
            }
        },
        CodexInputView::Message(v) => on_message(s, request, v, cancelled, expired),
        CodexInputView::Silence => listen(s, cancelled, expired),
    }
}

/// A run of a Codex app server. It says what is to be done next; the caller does
/// it and hands back what came of it.
pub struct CodexRun {
    request: RuntimeRequest,
    phase: CodexPhase,
    thread_id: String,
    turn_id: String,
    index: u64,
}

impl CodexRun {
    pub closed spec fn view(&self) -> CodexRunView {
        CodexRunView {
            phase: self.phase,
            thread_id: self.thread_id@,
            turn_id: self.turn_id@,
            index: self.index,
        }
    }

    pub closed spec fn serves(&self) -> RuntimeRequest {
        self.request
    }

    /// Begins a run.
    pub fn new(request: &RuntimeRequest, cancelled: bool) -> (r: (Self, CodexAction))
        ensures
            (r.0@, r.1@) == begin(request, cancelled),
            r.0.serves().same_as(request),
    {
        let mut run = CodexRun {
            request: request.clone(),
            phase: CodexPhase::Catalog,
            thread_id: String::new(),
            turn_id: String::new(),
            index: 2,
        };
        assert(run.thread_id@ =~= seq![]);
        assert(run.turn_id@ =~= seq![]);
        if cancelled {
            return run.finish(Err(RuntimeError::Cancelled));
        }
        if filled_text(&request.canonical_cwd).is_none() {
            return run.finish(Err(RuntimeError::InvalidWorkspace));
        }
        if filled_text(&request.model_id).is_none() {
            return run.finish(Err(RuntimeError::protocol(CODEX_MODEL_UNAVAILABLE)));
        }
        (run, CodexAction::LoadCatalog)
    }

    fn finish(self, result: Result<(), RuntimeError>) -> (r: (Self, CodexAction))
        ensures
            (r.0@, r.1@) == finished(
                self@,
                match result {
                    Ok(_) => Ok(()),
                    Err(e) => Err(e@),
                },
            ),
            r.0.serves() == self.serves(),
    {
        let mut run = self;
        run.phase = CodexPhase::Ended;
        (run, CodexAction::Finish(result))
    }

    /// The thread and the turn that run, once they do.
    pub fn active(&self) -> (r: Option<(String, String)>)
        ensures
            match r {
                Some((thread_id, turn_id)) => self@.phase == CodexPhase::Running && thread_id@
                    == self@.thread_id && turn_id@ == self@.turn_id,
                None => self@.phase != CodexPhase::Running,
            },
    {
        if self.phase == CodexPhase::Running {
            Some((self.thread_id.clone(), self.turn_id.clone()))
        } else {
            None
        }
    }

    fn end(&mut self, result: Result<(), RuntimeError>) -> (r: CodexAction)
        ensures
            (final(self)@, r@) == finished(
                old(self)@,
                match result {
                    Ok(_) => Ok(()),
                    Err(e) => Err(e@),
                },
            ),
            final(self).serves() == old(self).serves(),
    {
        self.phase = CodexPhase::Ended;
        CodexAction::Finish(result)
    }

    fn listen(&mut self, cancelled: bool, expired: bool) -> (r: CodexAction)
        ensures
            (final(self)@, r@) == listen(old(self)@, cancelled, expired),
            final(self).serves() == old(self).serves(),
    {
        if cancelled {
            return self.interrupt(RuntimeError::Cancelled);
        }
        if expired {
            return self.interrupt(RuntimeError::Timeout);
        }
        CodexAction::Receive
    }

    fn interrupt(&mut self, error: RuntimeError) -> (r: CodexAction)
        ensures
            (final(self)@, r@) == interrupted(old(self)@, error@),
            final(self).serves() == old(self).serves(),
    {
        self.phase = CodexPhase::Ended;
        CodexAction::Interrupt {
            thread_id: self.thread_id.clone(),
            turn_id: self.turn_id.clone(),
            error,
        }
    }

    fn emit_end(&mut self, event_type: &str, reason: Option<&str>) -> (r: CodexAction)
        requires
            old(self)@.index < u64::MAX,
        ensures
            final(self).serves() == old(self).serves(),
            final(self)@ == (CodexRunView {
                phase: CodexPhase::Closing,
                index: (old(self)@.index + 1) as u64,
                ..old(self)@
            }),
            r@ == CodexActionView::Emit(
                seq![
                    event::terminal(
                        "codex"@,
                        event_type@,
                        &old(self).serves(),
                        Some(old(self)@.thread_id),
                        Some(old(self)@.turn_id),
                        (old(self)@.index + 1) as u64,
                        match reason {
                            Some(s) => Some(s@),
                            None => None,
                        },
                    ),
                ],
            ),
    {
        self.index = self.index + 1;
        self.phase = CodexPhase::Closing;
        let e = terminal_event(
            "codex",
            event_type,
            &self.request,
            Some(self.thread_id.clone()),
            Some(self.turn_id.clone()),
            self.index,
            reason,
        );
        let ghost view = e@;
        let mut events: Vec<RuntimeEvent> = Vec::new();
        events.push(e);
        assert(event::event_views(events@) =~= seq![view]);
        CodexAction::Emit(events)
    }

    fn on_message(&mut self, message: &Json, cancelled: bool, expired: bool) -> (r: CodexAction)
        requires
            old(self)@.index < u64::MAX,
        ensures
            (final(self)@, r@) == on_message(
                old(self)@,
                &old(self).serves(),
                message.tree(),
                cancelled,
                expired,
            ),
            final(self).serves() == old(self).serves(),
    {
        if is_jsonrpc_server_request(message) {
            return CodexAction::Reply(reply_to_server_request(message));
        }
        let method = match message.get_str("method") {
            Some(m) => m,
            None => {
                return self.listen(cancelled, expired);
            },
        };
        let none = Json::Null;
        let params = match message.get("params") {
            Some(p) => p,
            None => &none,
        };
        if same_text(method, "error") {
            if codex_error_will_retry(params) {
                return self.listen(cancelled, expired);
            }
            return self.emit_end("execution.failed", Some("provider_error"));
        }
        if !notification_matches_turn(params, self.thread_id.as_str(), self.turn_id.as_str()) {
            return self.listen(cancelled, expired);
        }
        if same_text(method, "item/agentMessage/delta") || same_text(
            method,
            "response.output_text.delta",
        ) || same_text(method, "output.delta") || same_text(method, "content.delta") {
            return match notification_delta(params) {
                Some(delta) => {
                    self.index = self.index + 1;
                    let e = output_delta_event(
                        "codex",
                        &self.request,
                        Some(self.thread_id.clone()),
                        Some(self.turn_id.clone()),
                        self.index,
                        delta,
                    );
                    let ghost view = e@;
                    let mut events: Vec<RuntimeEvent> = Vec::new();
                    events.push(e);
                    assert(event::event_views(events@) =~= seq![view]);
                    CodexAction::Emit(events)
                },
                None => self.listen(cancelled, expired),
            };
        }
        if same_text(method, "turn/completed") || same_text(method, "response.completed")
            || same_text(method, "execution.completed") {
            let status = match nested_text(params, "turn", "status") {
                Some(s) => Some(s),
                None => params.get_str("status"),
            };
            let event_type = match status {
                Some(s) => if same_text(s, "failed") || same_text(s, "error") {
                    "execution.failed"
                } else if same_text(s, "cancelled") || same_text(s, "canceled") {
                    "execution.cancelled"
                } else if same_text(s, "interrupted") {
                    "execution.interrupted"
                } else {
                    "execution.completed"
                },
                None => "execution.completed",
            };
            let reason = if same_text(event_type, "execution.failed") {
                Some("provider_error")
            } else {
                None
            };
            return self.emit_end(event_type, reason);
        }
        self.listen(cancelled, expired)
    }

    /// Takes what came of the action before and says what is to be done next.
    pub fn advance(&mut self, input: CodexInput, cancelled: bool, expired: bool) -> (r: CodexAction)
        requires
            fits(old(self)@, input@),
            old(self)@.index < u64::MAX,
        ensures
            (final(self)@, r@) == step(
                old(self)@,
                &old(self).serves(),
                input@,
                cancelled,
                expired,
            ),
            final(self).serves() == old(self).serves(),
    {
        match input {
            CodexInput::Failed(e) => self.end(Err(e)),
            CodexInput::Catalog(c) => {
                if cancelled {
                    return self.end(Err(RuntimeError::Cancelled));
                }
                let listed = match filled_text(&self.request.model_id) {
                    Some(model) => listed_model(&c.models, model),
                    None => false,
                };
                if !listed {
                    return self.end(Err(RuntimeError::protocol(CODEX_MODEL_UNAVAILABLE)));
                }
                self.phase = CodexPhase::Session;
                CodexAction::OpenSession
            },
            CodexInput::Done => {
                if self.phase == CodexPhase::Closing {
                    return self.end(Ok(()));
                }
                if self.phase == CodexPhase::Running {
                    return self.listen(cancelled, expired);
                }
                if cancelled {
                    return self.end(Err(RuntimeError::Cancelled));
                }
                let params = match (
                    filled_text(&self.request.canonical_cwd),
                    filled_text(&self.request.model_id),
                ) {
                    (Some(cwd), Some(model)) => Some(
                        thread_params_json(cwd, model, self.request.workspace_access),
                    ),
                    _ => None,
                };
                match params {
                    Some(params) => {
                        self.phase = CodexPhase::Thread;
                        CodexAction::Call { method: "thread/start", params }
                    },
                    None => self.end(Err(RuntimeError::InvalidWorkspace)),
                }
            },
            CodexInput::Answer(v) => {
                if self.phase == CodexPhase::Thread {
                    match first_identifier(&v, "id", "threadId", "thread_id", "thread") {
                        None => self.end(Err(RuntimeError::protocol(CODEX_PROTOCOL_ERROR))),
                        Some(thread_id) => {
                            if cancelled {
                                return self.end(Err(RuntimeError::Cancelled));
                            }
                            let params = turn_params_json(
                                thread_id.as_str(),
                                self.request.rendered_context.as_str(),
                            );
                            self.thread_id = thread_id;
                            self.phase = CodexPhase::Turn;
                            CodexAction::Call { method: "turn/start", params }
                        },
                    }
                } else {
                    match first_identifier(&v, "id", "turnId", "turn_id", "turn") {
                        None => self.end(Err(RuntimeError::protocol(CODEX_PROTOCOL_ERROR))),
                        Some(turn_id) => {
                            self.turn_id = turn_id;
                            self.phase = CodexPhase::Running;
                            CodexAction::Emit(self.opening())
                        },
                    }
                }
            },
            CodexInput::Message(v) => self.on_message(&v, cancelled, expired),
            CodexInput::Silence => self.listen(cancelled, expired),
        }
    }

    fn opening(&self) -> (r: Vec<RuntimeEvent>)
        ensures
            event::event_views(r@) == opening(
                &self.serves(),
                self@.thread_id,
                self@.turn_id,
            ),
    {
        let mut events: Vec<RuntimeEvent> = Vec::new();
        events.push(
            connector_started_event(
                "codex",
                &self.request,
                Some(self.thread_id.clone()),
                Some(self.turn_id.clone()),
            ),
        );
        events.push(
            runtime_started_event(
                "codex",
                "codex-app-server",
                &self.request,
                Some(self.thread_id.clone()),
                Some(self.turn_id.clone()),
            ),
        );
        assert(event::event_views(events@) =~= opening(
            &self.serves(),
            self@.thread_id,
            self@.turn_id,
        ));
        events
    }
}

/// Whether a model is among those of a catalog.
pub fn listed_model(models: &Vec<String>, model: &str) -> (r: bool)
    ensures
        r == text::texts(models@).contains(model@),
{
    let mut i: usize = 0;
    while i < models.len()
        invariant
            i <= models@.len(),
            forall|k: int| 0 <= k < i ==> text::texts(models@)[k] != model@,
        decreases models@.len() - i,
    {
        if same_text(models[i].as_str(), model) {
            assert(text::texts(models@)[i as int] == model@);
            return true;
        }
        i += 1;
    }
    false
}

/// The course of a run: the events that it hands over and its result, if it ends,
/// for a list of inputs with the flags that were seen with each. It stops at an
/// input that cannot follow.
pub open spec fn course(
    s: CodexRunView,
    request: &RuntimeRequest,
    inputs: Seq<(CodexInputView, bool, bool)>,
) -> (Seq<event::EventView>, Option<Result<(), error::ErrorView>>)
    decreases inputs.len(),
{
    if inputs.len() == 0 || !fits(s, inputs[0].0) {
        (seq![], None)
    } else {
        let (next, action) = step(s, request, inputs[0].0, inputs[0].1, inputs[0].2);
        let (events, result) = course(next, request, inputs.drop_first());
        match action {
            CodexActionView::Emit(new) => (new + events, result),
            CodexActionView::Finish(r) => (seq![], Some(r)),
            CodexActionView::Interrupt(_, _, e) => (seq![], Some(Err(e))),
            _ => (events, result),
        }
    }
}

proof fn lemma_types_differ()
    ensures
        !event::is_terminal_type("output.delta"@),
        !event::is_terminal_type("connector.started"@),
        !event::is_terminal_type("runtime.started"@),
        event::is_terminal_type("execution.failed"@),
        forall|params: json::JsonTree| event::is_terminal_type(#[trigger] completion_type(params)),
{
    reveal_strlit("output.delta");
    reveal_strlit("connector.started");
    reveal_strlit("runtime.started");
    reveal_strlit("execution.completed");
    reveal_strlit("execution.failed");
    reveal_strlit("execution.cancelled");
    reveal_strlit("execution.interrupted");
    assert("output.delta"@.len() == 12);
    assert("connector.started"@[0] == 'c');
    assert("runtime.started"@[0] == 'r');
    assert("execution.completed"@[0] == 'e');
    assert("execution.failed"@[0] == 'e');
    assert("execution.cancelled"@[0] == 'e');
    assert("execution.interrupted"@[0] == 'e');
    assert("output.delta"@[0] == 'o');
}

/// A run hands over at most one terminal event, and nothing behind it; it
/// succeeds only once its terminal event has been taken.
pub proof fn law_codex_run_ends_once(
    s: CodexRunView,
    request: &RuntimeRequest,
    inputs: Seq<(CodexInputView, bool, bool)>,
)
    ensures
        ({
            let (events, result) = course(s, request, inputs);
            &&& forall|i: int|
                0 <= i < events.len() - 1 ==> !event::is_terminal_type(
                    (#[trigger] events[i]).event_type,
                )
            &&& s.phase == CodexPhase::Closing || s.phase == CodexPhase::Ended ==> events.len()
                == 0
            &&& result == Some(Ok::<(), error::ErrorView>(())) && s.phase != CodexPhase::Closing
                ==> events.len() > 0 && event::is_terminal_type(events.last().event_type)
        }),
    decreases inputs.len(),
{
    lemma_types_differ();
    if inputs.len() > 0 && fits(s, inputs[0].0) {
        let (next, action) = step(s, request, inputs[0].0, inputs[0].1, inputs[0].2);
        law_codex_run_ends_once(next, request, inputs.drop_first());
        let rest = course(next, request, inputs.drop_first()).0;
        if let CodexActionView::Emit(new) = action {
            assert((new + rest).last() == if rest.len() > 0 {
                rest.last()
            } else {
                new.last()
            });
        }
    }
}

/// The events of a run begin with the two that open it.
pub proof fn law_codex_run_opens(
    s: CodexRunView,
    request: &RuntimeRequest,
    inputs: Seq<(CodexInputView, bool, bool)>,
)
    requires
        s.phase == CodexPhase::Catalog || s.phase == CodexPhase::Session || s.phase
            == CodexPhase::Thread || s.phase == CodexPhase::Turn,
    ensures
        ({
            let events = course(s, request, inputs).0;
            events.len() > 0 ==> exists|thread_id: Seq<char>, turn_id: Seq<char>|
                events.len() >= 2 && events.take(2) == #[trigger] opening(
                    request,
                    thread_id,
                    turn_id,
                )
        }),
    decreases inputs.len(),
{
    if inputs.len() > 0 && fits(s, inputs[0].0) {
        let (next, action) = step(s, request, inputs[0].0, inputs[0].1, inputs[0].2);
        if s.phase == CodexPhase::Turn {
            let rest = course(next, request, inputs.drop_first()).0;
            if let CodexActionView::Emit(new) = action {
                assert((new + rest).take(2) =~= opening(request, s.thread_id, next.turn_id));
            }
        } else if next.phase != CodexPhase::Ended {
            law_codex_run_opens(next, request, inputs.drop_first());
        }
    }
}

/// Whether events are pieces of output with at most one terminal event behind them.
pub open spec fn is_output(events: Seq<event::EventView>) -> bool {
    &&& forall|i: int|
        0 <= i < events.len() - 1 ==> (#[trigger] events[i]).event_type == "output.delta"@
    &&& events.len() > 0 ==> events.last().event_type == "output.delta"@
        || event::is_terminal_type(events.last().event_type)
}

/// Whether events are those of a run from its beginning: none, or the two that open
/// it and the output.
pub open spec fn is_run(events: Seq<event::EventView>) -> bool {
    events.len() > 0 ==> {
        &&& events.len() >= 2
        &&& events[0].event_type == "connector.started"@
        &&& events[1].event_type == "runtime.started"@
        &&& is_output(events.skip(2))
    }
}

/// What a run hands over from where it stands.
proof fn lemma_course_keeps_order(
    s: CodexRunView,
    request: &RuntimeRequest,
    inputs: Seq<(CodexInputView, bool, bool)>,
)
    ensures
        ({
            let events = course(s, request, inputs).0;
            if s.phase == CodexPhase::Running {
                is_output(events)
            } else if s.phase == CodexPhase::Closing || s.phase == CodexPhase::Ended {
                events.len() == 0
            } else {
                is_run(events)
            }
        }),
    decreases inputs.len(),
{
    lemma_types_differ();
    if inputs.len() > 0 && fits(s, inputs[0].0) {
        let (next, action) = step(s, request, inputs[0].0, inputs[0].1, inputs[0].2);
        lemma_course_keeps_order(next, request, inputs.drop_first());
        let rest = course(next, request, inputs.drop_first()).0;
        if let CodexActionView::Emit(new) = action {
            let events = new + rest;
            if s.phase == CodexPhase::Running {
                assert(new.len() == 1);
                assert forall|i: int| 0 <= i < events.len() - 1 implies (#[trigger]
                events[i]).event_type == "output.delta"@ by {
                    if i > 0 {
                        assert(events[i] == rest[i - 1]);
                    } else {
                        assert(events[i] == new[0]);
                    }
                }
                assert(events.last() == if rest.len() > 0 {
                    rest.last()
                } else {
                    new.last()
                });
            } else {
                assert(events.skip(2) =~= rest);
            }
        }
    }
}

/// The events of a run are none, or the two that open it, pieces of output, and
/// then at most one terminal event, whatever the server sends.
pub proof fn law_codex_run_has_its_shape(
    request: &RuntimeRequest,
    cancelled: bool,
    inputs: Seq<(CodexInputView, bool, bool)>,
)
    ensures
        is_run(course(begin(request, cancelled).0, request, inputs).0),
{
    lemma_course_keeps_order(begin(request, cancelled).0, request, inputs);
}

/// A run whose turn is running is ended by a cancellation, or when its time is over,
/// with that turn to be interrupted, unless a message calls for an event or a reply.
pub proof fn law_running_turn_is_interrupted(
    s: CodexRunView,
    request: &RuntimeRequest,
    input: CodexInputView,
    cancelled: bool,
    expired: bool,
)
    requires
        s.phase == CodexPhase::Running,
        input is Done || input is Silence || (input matches CodexInputView::Message(m)
            && meaning(s, m) is Other),
        cancelled || expired,
    ensures
        step(s, request, input, cancelled, expired).1 == CodexActionView::Interrupt(
            s.thread_id,
            s.turn_id,
            if cancelled {
                error::ErrorView::Cancelled
            } else {
                error::ErrorView::Timeout
            },
        ),
{
}

/// An error that the server will try again does not end a run.
pub proof fn law_retried_error_is_not_terminal(s: CodexRunView, message: json::JsonTree)
    requires
        json::text_field(message, "method"@) == Some("error"@),
        json::field(message, "params"@) matches Some(params) && will_retry(params),
    ensures
        !(meaning(s, message) is End),
{
}

} // verus!
