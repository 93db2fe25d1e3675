//! What holds of every run of a Codex app server, in terms of the messages that come
//! and the events that are handed over.

use vstd::prelude::*;
use vstd::string::*;

use crate::catalog;
use crate::codex;
use crate::error;
use crate::event;
use crate::event::{RuntimeRequest, WorkspaceAccess};
use crate::event_laws;
use crate::json;
use crate::redact;
use crate::text;

verus! {

/// The methods of notifications are different.
proof fn lemma_methods_differ()
    ensures
        "turn/completed"@.len() == 14,
        "response.completed"@.len() == 18,
        "execution.completed"@.len() == 19,
        "error"@.len() == 5,
        "item/agentMessage/delta"@.len() == 23,
        "response.output_text.delta"@.len() == 26,
        "output.delta"@.len() == 12,
        "content.delta"@.len() == 13,
{
    reveal_strlit("turn/completed");
    reveal_strlit("response.completed");
    reveal_strlit("execution.completed");
    reveal_strlit("error");
    reveal_strlit("item/agentMessage/delta");
    reveal_strlit("response.output_text.delta");
    reveal_strlit("output.delta");
    reveal_strlit("content.delta");
}

/// The keys of a terminal payload are different.
proof fn lemma_keys_differ()
    ensures
        "connectorId"@.len() == 11,
        "modelId"@.len() == 7,
        "reason"@.len() == 6,
{
    reveal_strlit("connectorId");
    reveal_strlit("modelId");
    reveal_strlit("reason");
}

/// The states of a turn are different.
proof fn lemma_statuses_differ()
    ensures
        "failed"@.len() == 6,
        "error"@.len() == 5,
        "cancelled"@.len() == 9,
        "canceled"@.len() == 8,
        "interrupted"@.len() == 11,
{
    reveal_strlit("failed");
    reveal_strlit("error");
    reveal_strlit("cancelled");
    reveal_strlit("canceled");
    reveal_strlit("interrupted");
}

/// The types of events are different.
proof fn lemma_types_differ()
    ensures
        "execution.completed"@.len() == 19,
        "execution.failed"@.len() == 16,
        "execution.cancelled"@.len() == 19,
        "execution.interrupted"@.len() == 21,
        "output.delta"@.len() == 12,
        "connector.started"@.len() == 17,
        "runtime.started"@.len() == 15,
        "execution.completed"@[11] != "execution.cancelled"@[11],
{
    reveal_strlit("execution.completed");
    reveal_strlit("execution.failed");
    reveal_strlit("execution.cancelled");
    reveal_strlit("execution.interrupted");
    reveal_strlit("output.delta");
    reveal_strlit("connector.started");
    reveal_strlit("runtime.started");
}

/// The keys of parameters are different.
proof fn lemma_params_differ()
    ensures
        "approvalPolicy"@.len() == 14,
        "cwd"@.len() == 3,
        "ephemeral"@.len() == 9,
        "model"@.len() == 5,
        "sandbox"@.len() == 7,
        "read-only"@.len() == 9,
        "workspace-write"@.len() == 15,
        "input"@.len() == 5,
        "threadId"@.len() == 8,
        "text"@.len() == 4,
        "type"@.len() == 4,
        "turnId"@.len() == 6,
        "ephemeral"@[0] != "read-only"@[0],
        "model"@[0] != "input"@[0],
        "text"@[1] != "type"@[1],
{
    reveal_strlit("approvalPolicy");
    reveal_strlit("cwd");
    reveal_strlit("ephemeral");
    reveal_strlit("model");
    reveal_strlit("sandbox");
    reveal_strlit("read-only");
    reveal_strlit("workspace-write");
    reveal_strlit("input");
    reveal_strlit("threadId");
    reveal_strlit("text");
    reveal_strlit("type");
    reveal_strlit("turnId");
}

/// The words of replies are different.
proof fn lemma_reply_words_differ()
    ensures
        "id"@.len() == 2,
        "jsonrpc"@.len() == 7,
        "result"@.len() == 6,
        "error"@.len() == 5,
        "decision"@.len() == 8,
        "accept"@.len() == 6,
        "approved"@.len() == 8,
        "decline"@.len() == 7,
        "abort"@.len() == 5,
        "action"@.len() == 6,
        "answers"@.len() == 7,
        "permissions"@.len() == 11,
        "scope"@.len() == 5,
        "strictAutoReview"@.len() == 16,
        "jsonrpc"@[0] != "decline"@[0],
        "jsonrpc"@[0] != "answers"@[0],
        "result"@[0] != "accept"@[0],
        "result"@[0] != "action"@[0],
        "error"@[0] != "abort"@[0],
        "error"@[0] != "scope"@[0],
        "decision"@[0] != "approved"@[0],
        "accept"@[2] != "action"@[2],
        "decline"@[0] != "answers"@[0],
        "abort"@[0] != "scope"@[0],
{
    reveal_strlit("id");
    reveal_strlit("jsonrpc");
    reveal_strlit("result");
    reveal_strlit("error");
    reveal_strlit("decision");
    reveal_strlit("accept");
    reveal_strlit("approved");
    reveal_strlit("decline");
    reveal_strlit("abort");
    reveal_strlit("action");
    reveal_strlit("answers");
    reveal_strlit("permissions");
    reveal_strlit("scope");
    reveal_strlit("strictAutoReview");
}

/// A notification: a message with a method and parameters that asks for no answer.
pub open spec fn notifies(m: json::JsonTree, method: Seq<char>, p: json::JsonTree) -> bool {
    &&& json::text_field(m, "method"@) == Some(method)
    &&& json::field(m, "params"@) == Some(p)
    &&& json::field(m, "id"@) is None
}

/// The parameters name a thread and a turn, in either spelling.
pub open spec fn names_turn(p: json::JsonTree, thread_id: Seq<char>, turn_id: Seq<char>) -> bool {
    &&& json::text_field(p, "threadId"@) == Some(thread_id) || (json::text_field(p, "threadId"@)
        is None && json::text_field(p, "thread_id"@) == Some(thread_id))
    &&& json::text_field(p, "turnId"@) == Some(turn_id) || (json::text_field(p, "turnId"@) is None
        && (json::text_field(p, "turn_id"@) == Some(turn_id) || (json::text_field(p, "turn_id"@)
        is None && json::text_value(json::then_field(json::field(p, "turn"@), "id"@)) == Some(
        turn_id,
    ))))
}

/// The state that the parameters tell of a turn: that of the turn itself, or one
/// beside it.
pub open spec fn told_status(p: json::JsonTree, status: Seq<char>) -> bool {
    let own = json::text_value(json::then_field(json::field(p, "turn"@), "status"@));
    own == Some(status) || (own is None && json::text_field(p, "status"@) == Some(status))
}

/// A method that tells the end of a turn.
pub open spec fn tells_end(method: Seq<char>) -> bool {
    method == "turn/completed"@ || method == "response.completed"@ || method
        == "execution.completed"@
}

/// A method that carries a piece of output.
pub open spec fn tells_output(method: Seq<char>) -> bool {
    method == "item/agentMessage/delta"@ || method == "response.output_text.delta"@ || method
        == "output.delta"@ || method == "content.delta"@
}

/// The step hands over one event of the turn, of this type and with this reason.
pub open spec fn tells(
    s: codex::CodexRunView,
    request: &RuntimeRequest,
    r: (codex::CodexRunView, codex::CodexActionView),
    event_type: Seq<char>,
    reason: Option<Seq<char>>,
) -> bool {
    r.1 matches codex::CodexActionView::Emit(events) && events.len() == 1 && {
        let e = events[0];
        &&& e.event_type == event_type
        &&& json::text_field(e.payload, "reason"@) == reason
        &&& json::text_field(e.payload, "connectorId"@) == Some(request.connector_id@)
        &&& e.execution_run_id == request.execution_run_id@
        &&& e.runtime_id == "codex"@
        &&& e.thread_id == Some(s.thread_id)
        &&& e.turn_id == Some(s.turn_id)
    }
}

/// The payload of a terminal event tells its reason and its connector.
proof fn lemma_terminal(
    event_type: Seq<char>,
    request: &RuntimeRequest,
    thread_id: Option<Seq<char>>,
    turn_id: Option<Seq<char>>,
    index: u64,
    reason: Option<Seq<char>>,
)
    ensures
        ({
            let e = event::terminal(
                "codex"@,
                event_type,
                request,
                thread_id,
                turn_id,
                index,
                reason,
            );
            &&& json::text_field(e.payload, "reason"@) == reason
            &&& json::text_field(e.payload, "connectorId"@) == Some(request.connector_id@)
        }),
{
    lemma_keys_differ();
    reveal_with_fuel(json::member, 4);
}

/// A turn that failed, was cancelled or was interrupted is never told as a success:
/// the terminal event of a run follows the state that its turn is told to be in, and
/// a failure is told with its reason.
pub proof fn law_end_of_a_turn_is_told_as_it_is(
    s: codex::CodexRunView,
    request: &RuntimeRequest,
    m: json::JsonTree,
    method: Seq<char>,
    p: json::JsonTree,
    cancelled: bool,
    expired: bool,
)
    requires
        s.phase == codex::CodexPhase::Running,
        notifies(m, method, p),
        names_turn(p, s.thread_id, s.turn_id),
        tells_end(method),
    ensures
        ({
            let r = codex::step(
                s,
                request,
                codex::CodexInputView::Message(m),
                cancelled,
                expired,
            );
            let failed = told_status(p, "failed"@) || told_status(p, "error"@);
            let stopped = told_status(p, "cancelled"@) || told_status(p, "canceled"@);
            let interrupted = told_status(p, "interrupted"@);
            &&& r.0.phase == codex::CodexPhase::Closing
            &&& failed ==> tells(s, request, r, "execution.failed"@, Some("provider_error"@))
            &&& stopped ==> tells(s, request, r, "execution.cancelled"@, None)
            &&& interrupted ==> tells(s, request, r, "execution.interrupted"@, None)
            &&& !failed && !stopped && !interrupted ==> tells(
                s,
                request,
                r,
                "execution.completed"@,
                None,
            )
        }),
{
    lemma_methods_differ();
    lemma_statuses_differ();
    lemma_types_differ();
    if let codex::CodexActionView::Emit(events) = codex::step(
        s,
        request,
        codex::CodexInputView::Message(m),
        cancelled,
        expired,
    ).1 {
        let e = events[0];
        let next = (s.index + 1) as u64;
        let reason = json::text_field(e.payload, "reason"@);
        lemma_terminal(
            e.event_type,
            request,
            Some(s.thread_id),
            Some(s.turn_id),
            next,
            Some("provider_error"@),
        );
        lemma_terminal(e.event_type, request, Some(s.thread_id), Some(s.turn_id), next, None);
    }
}

/// The server says itself whether it will try again.
pub open spec fn tries_again(p: json::JsonTree) -> bool {
    let first = json::bool_value(json::field(p, "willRetry"@));
    let second = json::bool_value(json::field(p, "will_retry"@));
    first == Some(true) || (first is None && (second == Some(true) || (second is None
        && json::bool_value(json::then_field(json::field(p, "error"@), "willRetry"@)) == Some(
        true,
    ))))
}

/// An error fails the run, unless the server says that it will try again; then the
/// run goes on as if nothing had come.
pub proof fn law_error_fails_unless_it_is_tried_again(
    s: codex::CodexRunView,
    request: &RuntimeRequest,
    m: json::JsonTree,
    p: json::JsonTree,
    cancelled: bool,
    expired: bool,
)
    requires
        s.phase == codex::CodexPhase::Running,
        notifies(m, "error"@, p),
    ensures
        ({
            let r = codex::step(
                s,
                request,
                codex::CodexInputView::Message(m),
                cancelled,
                expired,
            );
            &&& !tries_again(p) ==> r.0.phase == codex::CodexPhase::Closing && tells(
                s,
                request,
                r,
                "execution.failed"@,
                Some("provider_error"@),
            )
            &&& tries_again(p) ==> r == codex::step(
                s,
                request,
                codex::CodexInputView::Silence,
                cancelled,
                expired,
            )
        }),
{
    lemma_methods_differ();
    lemma_terminal(
        "execution.failed"@,
        request,
        Some(s.thread_id),
        Some(s.turn_id),
        (s.index + 1) as u64,
        Some("provider_error"@),
    );
}

/// The text that the parameters carry, in the first of its places.
pub open spec fn carries(p: json::JsonTree, text: Seq<char>) -> bool {
    let a = json::text_field(p, "delta"@);
    let b = json::text_field(p, "text"@);
    let c = json::text_value(json::then_field(json::field(p, "item"@), "text"@));
    let d = json::text_value(json::then_field(json::field(p, "content"@), "text"@));
    a == Some(text) || (a is None && (b == Some(text) || (b is None && (c == Some(text) || (c
        is None && d == Some(text))))))
}

/// A piece of output of the turn is handed over, with its credentials removed and
/// nothing else changed; the turn goes on.
pub proof fn law_output_is_handed_over(
    s: codex::CodexRunView,
    request: &RuntimeRequest,
    m: json::JsonTree,
    method: Seq<char>,
    p: json::JsonTree,
    delta: Seq<char>,
    cancelled: bool,
    expired: bool,
)
    requires
        s.phase == codex::CodexPhase::Running,
        notifies(m, method, p),
        names_turn(p, s.thread_id, s.turn_id),
        tells_output(method),
        carries(p, delta),
    ensures
        ({
            let r = codex::step(
                s,
                request,
                codex::CodexInputView::Message(m),
                cancelled,
                expired,
            );
            &&& r.1 matches codex::CodexActionView::Emit(events) && events.len() == 1 && {
                let e = events[0];
                &&& e.event_type == "output.delta"@
                &&& json::text_field(e.payload, "delta"@) == Some(redact::redacted(delta))
                &&& e.execution_run_id == request.execution_run_id@
                &&& e.runtime_id == "codex"@
                &&& e.thread_id == Some(s.thread_id)
                &&& e.turn_id == Some(s.turn_id)
            }
            &&& r.0.phase == codex::CodexPhase::Running
            &&& r.0.thread_id == s.thread_id
            &&& r.0.turn_id == s.turn_id
        }),
{
    lemma_methods_differ();
}

/// What is told of another thread or of another turn changes nothing: the run goes
/// on as if nothing had come.
pub proof fn law_other_turns_are_passed_over(
    s: codex::CodexRunView,
    request: &RuntimeRequest,
    m: json::JsonTree,
    method: Seq<char>,
    p: json::JsonTree,
    cancelled: bool,
    expired: bool,
)
    requires
        s.phase == codex::CodexPhase::Running,
        notifies(m, method, p),
        method != "error"@,
        !names_turn(p, s.thread_id, s.turn_id),
    ensures
        codex::step(s, request, codex::CodexInputView::Message(m), cancelled, expired)
            == codex::step(s, request, codex::CodexInputView::Silence, cancelled, expired),
{
}

/// A method that tells neither output, nor an end, nor an error changes nothing.
pub proof fn law_unknown_methods_are_passed_over(
    s: codex::CodexRunView,
    request: &RuntimeRequest,
    m: json::JsonTree,
    method: Seq<char>,
    p: json::JsonTree,
    cancelled: bool,
    expired: bool,
)
    requires
        s.phase == codex::CodexPhase::Running,
        notifies(m, method, p),
        method != "error"@,
        !tells_output(method),
        !tells_end(method),
    ensures
        codex::step(s, request, codex::CodexInputView::Message(m), cancelled, expired)
            == codex::step(s, request, codex::CodexInputView::Silence, cancelled, expired),
{
}

/// Whether an input is what a success rests on: a notification of the end of a turn
/// that tells no failure, no cancellation and no interruption.
pub open spec fn is_success(input: codex::CodexInputView) -> bool {
    input matches codex::CodexInputView::Message(m) && {
        let p = match json::field(m, "params"@) {
            Some(p) => p,
            None => json::JsonTree::Null,
        };
        &&& json::text_field(m, "method"@) matches Some(method) && tells_end(method)
        &&& !told_status(p, "failed"@)
        &&& !told_status(p, "error"@)
        &&& !told_status(p, "cancelled"@)
        &&& !told_status(p, "canceled"@)
        &&& !told_status(p, "interrupted"@)
    }
}

/// A run is told as completed only if the server told that the turn came to a good
/// end.
pub proof fn law_success_is_earned(
    s: codex::CodexRunView,
    request: &RuntimeRequest,
    inputs: Seq<(codex::CodexInputView, bool, bool)>,
    k: int,
)
    requires
        ({
            let events = codex::course(s, request, inputs).0;
            0 <= k < events.len() && events[k].event_type == "execution.completed"@
        }),
    ensures
        exists|i: int| 0 <= i < inputs.len() && is_success((#[trigger] inputs[i]).0),
    decreases inputs.len(),
{
    lemma_methods_differ();
    lemma_statuses_differ();
    lemma_types_differ();
    let (next, action) = codex::step(s, request, inputs[0].0, inputs[0].1, inputs[0].2);
    let rest = inputs.drop_first();
    let later = codex::course(next, request, rest).0;
    let n: int = match action {
        codex::CodexActionView::Emit(new) => new.len() as int,
        _ => 0,
    };
    if k >= n {
        assert(later[k - n].event_type == "execution.completed"@);
        law_success_is_earned(next, request, rest, k - n);
        let i = choose|i: int| 0 <= i < rest.len() && is_success((#[trigger] rest[i]).0);
        assert(inputs[i + 1] == rest[i]);
    } else {
        assert(is_success(inputs[0].0));
    }
}

/// Every request of the server is answered with its own id, and none is granted.
pub proof fn law_server_request_is_answered(
    s: codex::CodexRunView,
    request: &RuntimeRequest,
    m: json::JsonTree,
    cancelled: bool,
    expired: bool,
)
    requires
        s.phase == codex::CodexPhase::Running,
        json::field(m, "id"@) is Some,
        json::text_field(m, "method"@) is Some,
        json::field(m, "result"@) is None,
        json::field(m, "error"@) is None,
    ensures
        ({
            let r = codex::step(
                s,
                request,
                codex::CodexInputView::Message(m),
                cancelled,
                expired,
            );
            &&& r.0 == s
            &&& r.1 matches codex::CodexActionView::Reply(reply) && {
                &&& json::field(reply, "id"@) == json::field(m, "id"@)
                &&& json::text_field(reply, "jsonrpc"@) == Some("2.0"@)
                &&& json::field(reply, "result"@) is Some <==> json::field(reply, "error"@) is None
                &&& json::text_value(
                    json::then_field(json::field(reply, "result"@), "decision"@),
                ) != Some("accept"@)
                &&& json::text_value(
                    json::then_field(json::field(reply, "result"@), "decision"@),
                ) != Some("approved"@)
            }
        }),
{
    reveal_with_fuel(json::member, 4);
    lemma_reply_words_differ();
}

/// A text that is present and not blank.
pub open spec fn has_text(value: Option<String>, s: Seq<char>) -> bool {
    value matches Some(v) && v@ == s && text::trim(s).len() > 0
}

pub open spec fn has_none(value: Option<String>) -> bool {
    value matches Some(v) ==> text::trim(v@).len() == 0
}

/// Nothing is started for a request that was cancelled, that has no workspace or
/// that names no model, and the error says which.
pub proof fn law_request_is_checked_first(request: &RuntimeRequest, cancelled: bool)
    ensures
        ({
            let action = codex::begin(request, cancelled).1;
            &&& cancelled ==> action == codex::CodexActionView::Finish(
                Err(error::ErrorView::Cancelled),
            )
            &&& !cancelled && has_none(request.canonical_cwd) ==> action
                == codex::CodexActionView::Finish(Err(error::ErrorView::InvalidWorkspace))
            &&& !cancelled && !has_none(request.canonical_cwd) && has_none(request.model_id)
                ==> action == codex::CodexActionView::Finish(
                Err(error::ErrorView::Protocol("codex_model_unavailable"@)),
            )
            &&& !cancelled && !has_none(request.canonical_cwd) && !has_none(request.model_id)
                ==> action == codex::CodexActionView::LoadCatalog
        }),
{
}

/// A session is opened only for a model that the catalog lists.
pub proof fn law_model_must_be_listed(
    s: codex::CodexRunView,
    request: &RuntimeRequest,
    c: catalog::CatalogView,
    model: Seq<char>,
    expired: bool,
)
    requires
        s.phase == codex::CodexPhase::Catalog,
        has_text(request.model_id, model),
    ensures
        ({
            let r = codex::step(
                s,
                request,
                codex::CodexInputView::Catalog(c),
                false,
                expired,
            );
            if exists|i: int| 0 <= i < c.models.len() && #[trigger] c.models[i] == model {
                r.0.phase == codex::CodexPhase::Session && r.1
                    == codex::CodexActionView::OpenSession
            } else {
                r.0.phase == codex::CodexPhase::Ended && r.1 == codex::CodexActionView::Finish(
                    Err(error::ErrorView::Protocol("codex_model_unavailable"@)),
                )
            }
        }),
{
}

/// The thread is started in the workspace and with the model of the request. Only a
/// run that may write gets a sandbox that writes, and nothing is ever approved.
pub proof fn law_thread_is_started_as_asked(
    s: codex::CodexRunView,
    request: &RuntimeRequest,
    cwd: Seq<char>,
    model: Seq<char>,
    expired: bool,
)
    requires
        s.phase == codex::CodexPhase::Session,
        has_text(request.canonical_cwd, cwd),
        has_text(request.model_id, model),
    ensures
        ({
            let r = codex::step(s, request, codex::CodexInputView::Done, false, expired);
            &&& r.0.phase == codex::CodexPhase::Thread
            &&& r.1 matches codex::CodexActionView::Call(method, p) && {
                &&& method == "thread/start"@
                &&& json::text_field(p, "cwd"@) == Some(cwd)
                &&& json::text_field(p, "model"@) == Some(model)
                &&& json::text_field(p, "approvalPolicy"@) == Some("never"@)
                &&& json::bool_value(json::field(p, "ephemeral"@)) == Some(true)
                &&& json::text_field(p, "sandbox"@) == Some("workspace-write"@)
                    <==> request.workspace_access == WorkspaceAccess::WorkspaceWrite
                &&& json::text_field(p, "sandbox"@) == Some("read-only"@)
                    <==> request.workspace_access != WorkspaceAccess::WorkspaceWrite
            }
        }),
{
    lemma_params_differ();
    reveal_with_fuel(json::member, 6);
}

/// The turn is started in the thread that was created, with the context of the
/// request as its only input, unless the run was cancelled.
pub proof fn law_turn_is_started_as_asked(
    s: codex::CodexRunView,
    request: &RuntimeRequest,
    answer: json::JsonTree,
    cancelled: bool,
    expired: bool,
)
    requires
        s.phase == codex::CodexPhase::Thread,
    ensures
        ({
            let r = codex::step(
                s,
                request,
                codex::CodexInputView::Answer(answer),
                cancelled,
                expired,
            );
            &&& cancelled ==> r.0.phase == codex::CodexPhase::Ended
            &&& r.1 matches codex::CodexActionView::Call(method, p) ==> {
                let input = json::list_value(json::field(p, "input"@));
                &&& method == "turn/start"@
                &&& !cancelled
                &&& r.0.phase == codex::CodexPhase::Turn
                &&& json::text_field(p, "threadId"@) == Some(r.0.thread_id)
                &&& input matches Some(items) && items.len() == 1 && json::text_field(
                    items[0],
                    "text"@,
                ) == Some(request.rendered_context@) && json::text_field(items[0], "type"@)
                    == Some("text"@)
            }
        }),
{
    lemma_params_differ();
    reveal_with_fuel(json::member, 3);
}

/// The id that an answer gives: the first of its places that holds a usable text.
pub open spec fn gives_id(
    answer: json::JsonTree,
    a: Seq<char>,
    b: Seq<char>,
    c: Seq<char>,
    outer: Seq<char>,
    id: Seq<char>,
) -> bool {
    let x = catalog::safe(json::text_field(answer, a));
    let y = catalog::safe(json::text_field(answer, b));
    let z = catalog::safe(json::text_field(answer, c));
    let w = catalog::safe(json::text_value(json::then_field(json::field(answer, outer), "id"@)));
    x == Some(id) || (x is None && (y == Some(id) || (y is None && (z == Some(id) || (z is None && w
        == Some(id))))))
}

/// A turn runs in the thread and under the id that the server gave, and the events
/// that open the run tell both.
pub proof fn law_run_keeps_the_ids_it_was_given(
    s: codex::CodexRunView,
    request: &RuntimeRequest,
    answer: json::JsonTree,
    id: Seq<char>,
    cancelled: bool,
    expired: bool,
)
    ensures
        ({
            let r = codex::step(
                s,
                request,
                codex::CodexInputView::Answer(answer),
                cancelled,
                expired,
            );
            &&& s.phase == codex::CodexPhase::Thread && !cancelled && gives_id(
                answer,
                "id"@,
                "threadId"@,
                "thread_id"@,
                "thread"@,
                id,
            ) ==> r.0.thread_id == id && r.1 is Call
            &&& s.phase == codex::CodexPhase::Turn && gives_id(
                answer,
                "id"@,
                "turnId"@,
                "turn_id"@,
                "turn"@,
                id,
            ) ==> {
                &&& r.0.phase == codex::CodexPhase::Running
                &&& r.0.thread_id == s.thread_id
                &&& r.0.turn_id == id
                &&& r.1 matches codex::CodexActionView::Emit(events) && events.len() == 2
                    && events[0].event_type == "connector.started"@ && events[1].event_type
                    == "runtime.started"@ && (forall|i: int|
                    0 <= i < 2 ==> (#[trigger] events[i]).thread_id == Some(s.thread_id)
                        && events[i].turn_id == Some(id) && events[i].runtime_id == "codex"@
                        && events[i].execution_run_id == request.execution_run_id@)
            }
        }),
{
}

/// A run begins with the catalog, before any thread or turn, and behind the two events that
/// open it.
pub proof fn law_run_begins_with_the_catalog(request: &RuntimeRequest, cancelled: bool)
    ensures
        ({
            let (s, action) = codex::begin(request, cancelled);
            &&& s.thread_id.len() == 0
            &&& s.turn_id.len() == 0
            &&& s.index == 2
            &&& action is LoadCatalog ==> s.phase is Catalog
        }),
{
}

/// The events of a turn are numbered one after the other: a message that hands over an
/// event counts one up and gives the event that number, and no other message counts.
pub proof fn law_events_of_a_turn_are_numbered(
    s: codex::CodexRunView,
    request: &RuntimeRequest,
    m: json::JsonTree,
    cancelled: bool,
    expired: bool,
)
    requires
        s.index < i64::MAX,
    ensures
        ({
            let r = codex::step(
                s,
                request,
                codex::CodexInputView::Message(m),
                cancelled,
                expired,
            );
            &&& r.1 matches codex::CodexActionView::Emit(events) ==> events.len() == 1
                && events[0].timestamp_ms == s.index + 1 && r.0.index == s.index + 1
            &&& !(r.1 is Emit) ==> r.0.index == s.index
        }),
{
}

/// A run is opened by two events of its thread and turn: that the connector has started, and
/// that the runtime has, which names where it runs.
pub proof fn law_run_is_opened_by_two_events(
    request: &RuntimeRequest,
    thread_id: Seq<char>,
    turn_id: Seq<char>,
)
    ensures
        ({
            let events = codex::opening(request, thread_id, turn_id);
            &&& events.len() == 2
            &&& events[0].event_type == "connector.started"@
            &&& events[1].event_type == "runtime.started"@
            &&& json::text_field(events[1].payload, "source"@) == Some("codex-app-server"@)
            &&& forall|i: int|
                0 <= i < 2 ==> (#[trigger] events[i]).runtime_id == "codex"@ && events[i].thread_id
                    == Some(thread_id) && events[i].turn_id == Some(turn_id)
                    && events[i].execution_run_id == request.execution_run_id@
                    && events[i].timestamp_ms == 0
        }),
{
    event_laws::law_opening_events_are_of_their_run(
        "codex"@,
        "codex-app-server"@,
        request,
        Some(thread_id),
        Some(turn_id),
    );
}

} // verus!
