//! How messages are written, and that every message of this library can be.

use vstd::prelude::*;

use crate::codex;
use crate::error;
use crate::error::{RuntimeError, CODEX_PROTOCOL_ERROR};
use crate::event::WorkspaceAccess;
use crate::json;
use crate::json::{encode_json, Json};
use crate::kun_frames;
use crate::order;
use crate::rpc;

verus! {

/// What came of waiting for a message.
pub enum Received {
    Value(Json),
    /// The reader of messages has failed.
    Failed(RuntimeError),
    TimedOut,
    /// There will be no more messages.
    Closed,
}

/// A message that had to come.
pub fn received_value(r: Received) -> (out: Result<Json, RuntimeError>)
    ensures
        match r {
            Received::Value(v) => out == Ok::<Json, RuntimeError>(v),
            Received::Failed(e) => out == Err::<Json, RuntimeError>(e),
            Received::TimedOut => out matches Err(x) && x@ == error::ErrorView::Timeout,
            Received::Closed => out matches Err(x) && x@ == error::ErrorView::TransportClosed,
        },
{
    match r {
        Received::Value(v) => Ok(v),
        Received::Failed(e) => Err(e),
        Received::TimedOut => Err(RuntimeError::Timeout),
        Received::Closed => Err(RuntimeError::TransportClosed),
    }
}

/// A message that may come.
pub fn received_optional(r: Received) -> (out: Result<Option<Json>, RuntimeError>)
    ensures
        match r {
            Received::Value(v) => out == Ok::<Option<Json>, RuntimeError>(Some(v)),
            Received::Failed(e) => out == Err::<Option<Json>, RuntimeError>(e),
            Received::TimedOut => out == Ok::<Option<Json>, RuntimeError>(None),
            Received::Closed => out matches Err(x) && x@ == error::ErrorView::TransportClosed,
        },
{
    match r {
        Received::Value(v) => Ok(Some(v)),
        Received::Failed(e) => Err(e),
        Received::TimedOut => Ok(None),
        Received::Closed => Err(RuntimeError::TransportClosed),
    }
}

/// The line that carries a message to an app server.
pub fn encoded_line(value: &Json) -> (r: Result<String, RuntimeError>)
    ensures
        match r {
            Ok(s) => json::canonical(value.tree()) ==> s@ == json::json_encoding(
                value.tree(),
            ).push('\n'),
            Err(e) => !json::canonical(value.tree()) && e@ == error::ErrorView::Protocol(
                CODEX_PROTOCOL_ERROR@,
            ),
        },
{
    match encode_json(value) {
        Some(s) => {
            let mut s = s;
            s.push('\n');
            Ok(s)
        },
        None => Err(RuntimeError::protocol(CODEX_PROTOCOL_ERROR)),
    }
}

/// The body that carries a message to a shared runtime.
pub fn encoded_body(value: &Json) -> (r: Result<String, RuntimeError>)
    ensures
        match r {
            Ok(s) => json::canonical(value.tree()) ==> s@ == json::json_encoding(value.tree()),
            Err(e) => !json::canonical(value.tree()) && e@ == error::ErrorView::Protocol(
                "transport_json"@,
            ),
        },
{
    match encode_json(value) {
        Some(s) => Ok(s),
        None => Err(RuntimeError::protocol("transport_json")),
    }
}

// ---------------------------------------------------------------------------
// What can be written.

proof fn lemma_less_at(a: Seq<char>, b: Seq<char>, i: int)
    requires
        0 <= i < a.len(),
        i < b.len(),
        forall|k: int| 0 <= k < i ==> a[k] == b[k],
        a[i] < b[i],
    ensures
        order::text_less(a, b),
    decreases a.len(),
{
    if i > 0 {
        let x = a.drop_first();
        let y = b.drop_first();
        assert forall|k: int| 0 <= k < i - 1 implies x[k] == y[k] by {
            assert(x[k] == a[k + 1] && y[k] == b[k + 1]);
        }
        lemma_less_at(x, y, i - 1);
    }
}

proof fn lemma_prefix_less(a: Seq<char>, b: Seq<char>)
    requires
        a.len() < b.len(),
        forall|k: int| 0 <= k < a.len() ==> a[k] == b[k],
    ensures
        order::text_less(a, b),
    decreases a.len(),
{
    if a.len() > 0 {
        let x = a.drop_first();
        let y = b.drop_first();
        assert forall|k: int| 0 <= k < x.len() implies x[k] == y[k] by {
            assert(x[k] == a[k + 1] && y[k] == b[k + 1]);
        }
        lemma_prefix_less(x, y);
    }
}

/// Whether each key stands before the next one.
spec fn steps_up(entries: Seq<(Seq<char>, json::JsonTree)>) -> bool {
    forall|i: int|
        0 <= i < entries.len() - 1 ==> order::text_less(
            (#[trigger] entries[i]).0,
            entries[i + 1].0,
        )
}

proof fn lemma_far_apart(entries: Seq<(Seq<char>, json::JsonTree)>, i: int, j: int)
    requires
        steps_up(entries),
        0 <= i < j < entries.len(),
    ensures
        order::text_less(entries[i].0, entries[j].0),
    decreases j - i,
{
    if j > i + 1 {
        lemma_far_apart(entries, i, j - 1);
        order::lemma_less_transitive(entries[i].0, entries[j - 1].0, entries[j].0);
    }
}

proof fn lemma_object(entries: Seq<(Seq<char>, json::JsonTree)>)
    requires
        steps_up(entries),
        forall|i: int| 0 <= i < entries.len() ==> json::canonical((#[trigger] entries[i]).1),
    ensures
        json::canonical(json::JsonTree::Object(entries)),
{
    let t = json::JsonTree::Object(entries);
    assert(t->Object_0 == entries);
    assert forall|i: int, j: int| 0 <= i < j < entries.len() implies order::text_less(
        (#[trigger] entries[i]).0,
        (#[trigger] entries[j]).0,
    ) by {
        lemma_far_apart(entries, i, j);
    }
}

proof fn lemma_member(key: Seq<char>, t: json::JsonTree)
    requires
        json::canonical(t),
    ensures
        json::canonical(json::JsonTree::Object(seq![(key, t)])),
{
    lemma_object(seq![(key, t)]);
}

/// A request can be written where its parameters can.
pub proof fn law_request_can_be_written(id: u64, method: Seq<char>, params: json::JsonTree)
    requires
        json::canonical(params),
    ensures
        json::canonical(rpc::request_message(id, method, params)),
{
    reveal_strlit("id");
    reveal_strlit("jsonrpc");
    reveal_strlit("method");
    reveal_strlit("params");
    lemma_less_at("id"@, "jsonrpc"@, 0);
    lemma_less_at("jsonrpc"@, "method"@, 0);
    lemma_less_at("method"@, "params"@, 0);
    lemma_object(rpc::request_message(id, method, params)->Object_0);
}

/// The parameters that start a thread of an app server can be written.
pub proof fn law_thread_params_can_be_written(
    cwd: Seq<char>,
    model: Seq<char>,
    access: WorkspaceAccess,
)
    ensures
        json::canonical(codex::thread_params(cwd, model, access)),
{
    reveal_strlit("approvalPolicy");
    reveal_strlit("cwd");
    reveal_strlit("ephemeral");
    reveal_strlit("model");
    reveal_strlit("sandbox");
    lemma_less_at("approvalPolicy"@, "cwd"@, 0);
    lemma_less_at("cwd"@, "ephemeral"@, 0);
    lemma_less_at("ephemeral"@, "model"@, 0);
    lemma_less_at("model"@, "sandbox"@, 0);
    lemma_object(codex::thread_params(cwd, model, access)->Object_0);
}

/// The parameters that start and interrupt a turn of an app server can be written.
pub proof fn law_turn_params_can_be_written(
    thread_id: Seq<char>,
    turn_id: Seq<char>,
    input: Seq<char>,
)
    ensures
        json::canonical(codex::turn_params(thread_id, input)),
        json::canonical(codex::interrupt_params(thread_id, turn_id)),
{
    reveal_strlit("text");
    reveal_strlit("type");
    reveal_strlit("input");
    reveal_strlit("threadId");
    reveal_strlit("turnId");
    lemma_less_at("text"@, "type"@, 1);
    lemma_less_at("input"@, "threadId"@, 0);
    lemma_less_at("threadId"@, "turnId"@, 1);
    let params = codex::turn_params(thread_id, input)->Object_0;
    let items = params[0].1->List_0;
    lemma_object(items[0]->Object_0);
    assert(json::JsonTree::List(items)->List_0 == items);
    assert(json::canonical(json::JsonTree::List(items)));
    lemma_object(params);
    lemma_object(codex::interrupt_params(thread_id, turn_id)->Object_0);
}

/// The bodies that start a thread and a turn of a shared runtime can be written.
pub proof fn law_bodies_can_be_written(
    workspace: Seq<char>,
    model: Seq<char>,
    access: WorkspaceAccess,
    prompt: Seq<char>,
)
    ensures
        json::canonical(kun_frames::thread_body(workspace, model, access)),
        json::canonical(kun_frames::turn_body(prompt, model)),
{
    reveal_strlit("approvalPolicy");
    reveal_strlit("mode");
    reveal_strlit("model");
    reveal_strlit("sandboxMode");
    reveal_strlit("title");
    reveal_strlit("titleAuto");
    reveal_strlit("workspace");
    reveal_strlit("disableUserInput");
    reveal_strlit("prompt");
    lemma_less_at("approvalPolicy"@, "mode"@, 0);
    lemma_prefix_less("mode"@, "model"@);
    lemma_less_at("model"@, "sandboxMode"@, 0);
    lemma_less_at("sandboxMode"@, "title"@, 0);
    lemma_prefix_less("title"@, "titleAuto"@);
    lemma_less_at("titleAuto"@, "workspace"@, 0);
    lemma_object(kun_frames::thread_body(workspace, model, access)->Object_0);
    lemma_less_at("disableUserInput"@, "mode"@, 0);
    lemma_less_at("model"@, "prompt"@, 0);
    lemma_object(kun_frames::turn_body(prompt, model)->Object_0);
}

/// An answer to a request of the server can be written, for every request that was
/// read.
pub proof fn law_reply_can_be_written(request: json::JsonTree)
    requires
        json::canonical(request),
    ensures
        json::canonical(rpc::reply_message(request)),
{
    json::lemma_canonical_field(request, "id"@);
    reveal_strlit("id");
    reveal_strlit("jsonrpc");
    reveal_strlit("result");
    reveal_strlit("error");
    reveal_strlit("code");
    reveal_strlit("message");
    reveal_strlit("permissions");
    reveal_strlit("scope");
    reveal_strlit("strictAutoReview");
    lemma_less_at("id"@, "jsonrpc"@, 0);
    lemma_less_at("jsonrpc"@, "result"@, 0);
    lemma_less_at("error"@, "id"@, 0);
    lemma_less_at("code"@, "message"@, 0);
    lemma_less_at("permissions"@, "scope"@, 0);
    lemma_less_at("scope"@, "strictAutoReview"@, 1);
    let method = match json::text_field(request, "method"@) {
        Some(m) => m,
        None => seq![],
    };
    lemma_object(seq![]);
    match rpc::server_reply(method) {
        rpc::ReplyView::Result(result) => {
            lemma_member("decision"@, json::JsonTree::Text("decline"@));
            lemma_member("decision"@, json::JsonTree::Text("abort"@));
            lemma_member("action"@, json::JsonTree::Text("cancel"@));
            lemma_member("answers"@, rpc::empty_object());
            let granted = seq![
                ("permissions"@, rpc::empty_object()),
                ("scope"@, json::JsonTree::Text("turn"@)),
                ("strictAutoReview"@, json::JsonTree::Bool(false)),
            ];
            lemma_object(granted);
            assert(json::canonical(result));
            lemma_object(rpc::reply_message(request)->Object_0);
        },
        rpc::ReplyView::Error(code, message) => {
            let told = rpc::reply_message(request)->Object_0;
            lemma_object(told[0].1->Object_0);
            lemma_object(told);
        },
    }
}

} // verus!
