//! What is sent to a Kun runtime for a run, and what its answers and frames mean.

use vstd::prelude::*;
use vstd::string::*;
use vstd::utf8::*;

use crate::catalog;
use crate::catalog::{find_metadata, RuntimeModelCatalog};
use crate::codex;
use crate::codex::{identifier_in, listed_model};
use crate::error;
use crate::error::RuntimeError;
use crate::event::{object1, object2, text_json, with_member, WorkspaceAccess};
use crate::http;
use crate::http::{
    encode_path_component, failure_for, is_success, kun_provider_authentication_value,
    HttpFailureKind, MAX_TRANSPORT_BODY_BYTES,
};
use crate::json;
use crate::json::{parse_json, parse_json_bytes, Json};
use crate::text;
use crate::text::{bytes_len, same_text, utf8_prefix};

verus! {

/// A text as a component of a path.
pub open spec fn component(s: Seq<char>) -> Seq<char> {
    http::path_bytes(encode_utf8(s))
}

pub open spec fn threads_path() -> Seq<char> {
    "/v1/threads"@
}

pub open spec fn turns_path(thread_id: Seq<char>) -> Seq<char> {
    "/v1/threads/"@ + component(thread_id) + "/turns"@
}

pub open spec fn events_path(thread_id: Seq<char>) -> Seq<char> {
    "/v1/threads/"@ + component(thread_id) + "/events?since_seq=0"@
}

pub open spec fn turn_path(thread_id: Seq<char>, turn_id: Seq<char>) -> Seq<char> {
    "/v1/threads/"@ + component(thread_id) + "/turns/"@ + component(turn_id)
}

pub open spec fn interrupt_path(thread_id: Seq<char>, turn_id: Seq<char>) -> Seq<char> {
    turn_path(thread_id, turn_id) + "/interrupt"@
}

fn thread_path_text(thread_id: &str, tail: &str) -> (r: String)
    ensures
        r@ == "/v1/threads/"@ + component(thread_id@) + tail@,
{
    let mut r = "/v1/threads/".to_owned();
    r.append(encode_path_component(thread_id).as_str());
    r.append(tail);
    r
}

pub fn turns_path_text(thread_id: &str) -> (r: String)
    ensures
        r@ == turns_path(thread_id@),
{
    thread_path_text(thread_id, "/turns")
}

pub fn events_path_text(thread_id: &str) -> (r: String)
    ensures
        r@ == events_path(thread_id@),
{
    thread_path_text(thread_id, "/events?since_seq=0")
}

pub fn turn_path_text(thread_id: &str, turn_id: &str) -> (r: String)
    ensures
        r@ == turn_path(thread_id@, turn_id@),
{
    let mut r = thread_path_text(thread_id, "/turns/");
    r.append(encode_path_component(turn_id).as_str());
    r
}

pub fn interrupt_path_text(thread_id: &str, turn_id: &str) -> (r: String)
    ensures
        r@ == interrupt_path(thread_id@, turn_id@),
{
    let mut r = turn_path_text(thread_id, turn_id);
    r.append("/interrupt");
    r
}

/// The body of an interrupt.
pub fn interrupt_body() -> (r: Json)
    ensures
        r.tree() == json::JsonTree::Object(seq![("discard"@, json::JsonTree::Bool(false))]),
{
    object1("discard", Json::Bool(false))
}

/// The body that creates a thread. A run that may not write gets a sandbox that
/// only reads.
pub open spec fn thread_body(
    workspace: Seq<char>,
    model: Seq<char>,
    access: WorkspaceAccess,
) -> json::JsonTree {
    json::JsonTree::Object(
        seq![
            ("approvalPolicy"@, json::JsonTree::Text("auto"@)),
            ("mode"@, json::JsonTree::Text("agent"@)),
            ("model"@, json::JsonTree::Text(model)),
            (
                "sandboxMode"@,
                json::JsonTree::Text(
                    if access == WorkspaceAccess::WorkspaceWrite {
                        "workspace-write"@
                    } else {
                        "read-only"@
                    },
                ),
            ),
            ("title"@, json::JsonTree::Text("AgentTalk"@)),
            ("titleAuto"@, json::JsonTree::Bool(true)),
            ("workspace"@, json::JsonTree::Text(workspace)),
        ],
    )
}

pub fn thread_body_json(workspace: &str, model: &str, access: WorkspaceAccess) -> (r: Json)
    ensures
        r.tree() == thread_body(workspace@, model@, access),
{
    let sandbox = match access {
        WorkspaceAccess::WorkspaceWrite => "workspace-write",
        WorkspaceAccess::ReadOnly => "read-only",
        WorkspaceAccess::NoAccess => "read-only",
    };
    let value = object2("approvalPolicy", text_json("auto"), "mode", text_json("agent"));
    let value = with_member(value, "model", text_json(model));
    let value = with_member(value, "sandboxMode", text_json(sandbox));
    let value = with_member(value, "title", text_json("AgentTalk"));
    let value = with_member(value, "titleAuto", Json::Bool(true));
    let value = with_member(value, "workspace", text_json(workspace));
    proof {
        assert(value.tree()->Object_0 =~= thread_body(workspace@, model@, access)->Object_0);
    }
    value
}

/// The body that starts a turn.
pub open spec fn turn_body(prompt: Seq<char>, model: Seq<char>) -> json::JsonTree {
    json::JsonTree::Object(
        seq![
            ("disableUserInput"@, json::JsonTree::Bool(true)),
            ("mode"@, json::JsonTree::Text("agent"@)),
            ("model"@, json::JsonTree::Text(model)),
            ("prompt"@, json::JsonTree::Text(prompt)),
        ],
    )
}

pub fn turn_body_json(prompt: &str, model: &str) -> (r: Json)
    ensures
        r.tree() == turn_body(prompt@, model@),
{
    let value = object2("disableUserInput", Json::Bool(true), "mode", text_json("agent"));
    let value = with_member(value, "model", text_json(model));
    let value = with_member(value, "prompt", text_json(prompt));
    proof {
        assert(value.tree()->Object_0 =~= turn_body(prompt@, model@)->Object_0);
    }
    value
}

/// What an answer to a request says, where `value` is what its body holds.
pub open spec fn answered(
    status: u16,
    kind: HttpFailureKind,
    value: Result<json::JsonTree, Seq<char>>,
) -> Result<json::JsonTree, error::ErrorView> {
    if 200 <= status < 300 {
        match value {
            Ok(t) => Ok(t),
            Err(_) => Err(error::ErrorView::Protocol("kun_protocol_error"@)),
        }
    } else {
        Err(
            http::http_failure(
                status,
                kind,
                match value {
                    Ok(t) => http::provider_authentication(t),
                    Err(_) => false,
                },
            ),
        )
    }
}

/// Reads the answer to a request whose body has been read before.
pub fn answer_of_value(status: u16, kind: HttpFailureKind, value: Option<Json>) -> (r: Result<
    Json,
    RuntimeError,
>)
    ensures
        ({
            let read: Result<json::JsonTree, Seq<char>> = match value {
                Some(v) => Ok(v.tree()),
                None => Err(seq![]),
            };
            match r {
                Ok(v) => answered(status, kind, read) == Ok::<json::JsonTree, error::ErrorView>(
                    v.tree(),
                ),
                Err(e) => answered(status, kind, read) == Err::<json::JsonTree, error::ErrorView>(
                    e@,
                ),
            }
        }),
{
    if !is_success(status) {
        let authentication = match &value {
            Some(v) => kun_provider_authentication_value(v),
            None => false,
        };
        return Err(failure_for(status, kind, authentication));
    }
    match value {
        Some(v) => Ok(v),
        None => Err(RuntimeError::protocol("kun_protocol_error")),
    }
}

/// Reads the answer to a request.
pub fn read_answer(status: u16, kind: HttpFailureKind, body: &[u8]) -> (r: Result<
    Json,
    RuntimeError,
>)
    ensures
        match r {
            Ok(value) => answered(status, kind, json::json_bytes(body@)) == Ok::<
                json::JsonTree,
                error::ErrorView,
            >(value.tree()),
            Err(e) => answered(status, kind, json::json_bytes(body@)) == Err::<
                json::JsonTree,
                error::ErrorView,
            >(e@),
        },
{
    match parse_json_bytes(body) {
        Ok(value) => answer_of_value(status, kind, Some(value)),
        Err(_) => answer_of_value(status, kind, None),
    }
}

/// The result of an interrupt, by its status.
pub fn interrupt_result(status: u16) -> (r: Result<(), RuntimeError>)
    ensures
        match r {
            Ok(_) => 200 <= status < 300,
            Err(e) => !(200 <= status < 300) && e@ == http::http_failure(
                status,
                HttpFailureKind::Runtime,
                false,
            ),
        },
{
    if is_success(status) {
        Ok(())
    } else {
        Err(failure_for(status, HttpFailureKind::Runtime, false))
    }
}

/// Whether a catalog offers a model: it lists it, and does not say that it cannot
/// be used.
pub open spec fn offers(c: catalog::CatalogView, model: Seq<char>) -> bool {
    &&& c.models.contains(model)
    &&& match catalog::table_get(c.model_metadata, model) {
        Some(m) => m.available && m.enabled,
        None => true,
    }
}

pub fn catalog_offers(c: &RuntimeModelCatalog, model: &str) -> (r: bool)
    ensures
        r == offers(c@, model@),
{
    if !listed_model(&c.models, model) {
        return false;
    }
    match find_metadata(&c.model_metadata, model) {
        Some(m) => m.available && m.enabled,
        None => true,
    }
}

/// The id of a thread that was created.
pub open spec fn thread_id_of(t: json::JsonTree) -> Option<Seq<char>> {
    json::first_of(
        codex::identifier(json::field(t, "id"@)),
        json::first_of(
            codex::identifier(json::field(t, "threadId"@)),
            codex::identifier(json::field(t, "thread_id"@)),
        ),
    )
}

pub fn thread_id_in(value: &Json) -> (r: Option<String>)
    ensures
        text::opt_text(r) == thread_id_of(value.tree()),
{
    match identifier_in(value, "id") {
        Some(s) => Some(s),
        None => match identifier_in(value, "threadId") {
            Some(s) => Some(s),
            None => identifier_in(value, "thread_id"),
        },
    }
}

/// The id of a turn that was started.
pub open spec fn turn_id_of(t: json::JsonTree) -> Option<Seq<char>> {
    json::first_of(
        codex::identifier(json::field(t, "turnId"@)),
        json::first_of(
            codex::identifier(json::field(t, "turn_id"@)),
            json::first_of(
                codex::identifier(json::then_field(json::field(t, "turn"@), "id"@)),
                codex::identifier(json::field(t, "id"@)),
            ),
        ),
    )
}

pub fn turn_id_in(value: &Json) -> (r: Option<String>)
    ensures
        text::opt_text(r) == turn_id_of(value.tree()),
{
    if let Some(s) = identifier_in(value, "turnId") {
        return Some(s);
    }
    if let Some(s) = identifier_in(value, "turn_id") {
        return Some(s);
    }
    let nested = match value.get("turn") {
        Some(turn) => identifier_in(turn, "id"),
        None => None,
    };
    match nested {
        Some(s) => Some(s),
        None => identifier_in(value, "id"),
    }
}

/// What a frame means for a turn.
#[derive(Debug)]
pub enum KunFrame {
    /// Nothing for this turn.
    Other,
    /// It is no JSON.
    Broken,
    /// A provider refused the credential.
    Refused,
    /// A piece of output.
    Delta(String),
    Completed,
    Cancelled,
    Failed,
}

pub enum FrameView {
    Other,
    Broken,
    Refused,
    Delta(Seq<char>),
    Completed,
    Cancelled,
    Failed,
}

impl View for KunFrame {
    type V = FrameView;

    open spec fn view(&self) -> FrameView {
        match self {
            KunFrame::Other => FrameView::Other,
            KunFrame::Broken => FrameView::Broken,
            KunFrame::Refused => FrameView::Refused,
            KunFrame::Delta(s) => FrameView::Delta(s@),
            KunFrame::Completed => FrameView::Completed,
            KunFrame::Cancelled => FrameView::Cancelled,
            KunFrame::Failed => FrameView::Failed,
        }
    }
}

/// What the value of a frame means for a turn. A frame that names no turn is meant
/// for this one.
pub open spec fn value_meaning(t: json::JsonTree, turn_id: Seq<char>) -> FrameView {
    let kind = match json::first_of(json::text_field(t, "kind"@), json::text_field(t, "type"@)) {
        Some(k) => k,
        None => seq![],
    };
    let turn = json::first_of(json::text_field(t, "turnId"@), json::text_field(t, "turn_id"@));
    if turn is Some && turn != Some(turn_id) {
        FrameView::Other
    } else if kind == "assistant_text_delta"@ || kind == "output.delta"@ || kind
        == "content.delta"@ {
        match json::first_of(
            json::text_value(json::then_field(json::field(t, "item"@), "text"@)),
            json::first_of(json::text_field(t, "delta"@), json::text_field(t, "text"@)),
        ) {
            Some(delta) => FrameView::Delta(delta),
            None => FrameView::Other,
        }
    } else if kind == "turn_completed"@ || kind == "execution.completed"@ {
        FrameView::Completed
    } else if kind == "turn_cancelled"@ || kind == "turn_canceled"@ || kind
        == "execution.cancelled"@ {
        FrameView::Cancelled
    } else if kind == "turn_failed"@ || kind == "error"@ || kind == "execution.failed"@ {
        if http::provider_authentication(t) {
            FrameView::Refused
        } else {
            FrameView::Failed
        }
    } else {
        FrameView::Other
    }
}

/// What the value of a frame means for a turn.
pub fn meaning_of_value(value: &Json, turn_id: &str) -> (r: KunFrame)
    ensures
        r@ == value_meaning(value.tree(), turn_id@),
{
    let kind = match value.get_str("kind") {
        Some(k) => k,
        None => match value.get_str("type") {
            Some(k) => k,
            None => "",
        },
    };
    proof {
        reveal_strlit("");
        assert(kind@ =~= match json::first_of(
            json::text_field(value.tree(), "kind"@),
            json::text_field(value.tree(), "type"@),
        ) {
            Some(k) => k,
            None => seq![],
        });
    }
    let turn = match value.get_str("turnId") {
        Some(s) => Some(s),
        None => value.get_str("turn_id"),
    };
    if let Some(s) = turn {
        if !same_text(s, turn_id) {
            return KunFrame::Other;
        }
    }
    if same_text(kind, "assistant_text_delta") || same_text(kind, "output.delta") || same_text(
        kind,
        "content.delta",
    ) {
        let nested = match value.get("item") {
            Some(item) => item.get_str("text"),
            None => None,
        };
        let delta = match nested {
            Some(s) => Some(s),
            None => match value.get_str("delta") {
                Some(s) => Some(s),
                None => value.get_str("text"),
            },
        };
        return match delta {
            Some(s) => KunFrame::Delta(s.to_owned()),
            None => KunFrame::Other,
        };
    }
    if same_text(kind, "turn_completed") || same_text(kind, "execution.completed") {
        return KunFrame::Completed;
    }
    if same_text(kind, "turn_cancelled") || same_text(kind, "turn_canceled") || same_text(
        kind,
        "execution.cancelled",
    ) {
        return KunFrame::Cancelled;
    }
    if same_text(kind, "turn_failed") || same_text(kind, "error") || same_text(
        kind,
        "execution.failed",
    ) {
        return if kun_provider_authentication_value(value) {
            KunFrame::Refused
        } else {
            KunFrame::Failed
        };
    }
    KunFrame::Other
}

/// What the data of a frame means for a turn.
pub open spec fn frame_meaning(data: Seq<char>, turn_id: Seq<char>) -> FrameView {
    match json::json_text(data) {
        Ok(t) => value_meaning(t, turn_id),
        Err(_) => FrameView::Broken,
    }
}

pub fn meaning_of_frame(data: &str, turn_id: &str) -> (r: KunFrame)
    ensures
        r@ == frame_meaning(data@, turn_id@),
{
    match parse_json(data) {
        Ok(value) => meaning_of_value(&value, turn_id),
        Err(_) => KunFrame::Broken,
    }
}

/// The items of a turn.
pub open spec fn turn_items(t: json::JsonTree) -> Seq<json::JsonTree> {
    match json::first_of(
        json::list_value(json::field(t, "items"@)),
        json::first_of(
            json::list_value(json::then_field(json::field(t, "turn"@), "items"@)),
            json::list_value(json::field(t, "messages"@)),
        ),
    ) {
        Some(items) => items,
        None => seq![],
    }
}

/// What the assistant said in an item.
pub open spec fn assistant_text(item: json::JsonTree) -> Option<Seq<char>> {
    let role = json::first_of(json::text_field(item, "role"@), json::text_field(item, "author"@));
    let kind = json::first_of(json::text_field(item, "kind"@), json::text_field(item, "type"@));
    if role != Some("assistant"@) && kind != Some("assistant_text"@) {
        None
    } else {
        json::first_of(
            json::text_field(item, "text"@),
            json::first_of(
                json::text_value(json::then_field(json::field(item, "content"@), "text"@)),
                json::text_value(json::then_field(json::field(item, "item"@), "text"@)),
            ),
        )
    }
}

/// What the assistant said in some items, behind a text: one line for each item.
/// What is too long is cut off, and what follows is not read.
pub open spec fn said(before: Seq<char>, items: Seq<json::JsonTree>) -> Seq<char>
    decreases items.len(),
{
    if items.len() == 0 {
        before
    } else {
        match assistant_text(items[0]) {
            None => said(before, items.drop_first()),
            Some(s) => {
                let after = (if before.len() > 0 {
                    before + "\n"@
                } else {
                    before
                }) + s;
                if text::byte_len(after) > MAX_TRANSPORT_BODY_BYTES {
                    text::bounded_prefix(after, MAX_TRANSPORT_BODY_BYTES as nat)
                } else {
                    said(after, items.drop_first())
                }
            },
        }
    }
}

/// What the assistant said in a turn that did not stream it.
pub open spec fn recovered(t: json::JsonTree) -> Option<Seq<char>> {
    let s = said(seq![], turn_items(t));
    if s.len() == 0 {
        None
    } else {
        Some(s)
    }
}

fn list_in<'a>(value: &'a Json, key: &str) -> (r: Option<&'a Vec<Json>>)
    ensures
        match r {
            Some(items) => json::list_value(json::field(value.tree(), key@)) == Some(
                json::trees(items@),
            ),
            None => json::list_value(json::field(value.tree(), key@)) is None,
        },
{
    match value.get(key) {
        Some(v) => v.as_array(),
        None => None,
    }
}

fn is_str(value: Option<&str>, s: &str) -> (r: bool)
    ensures
        r == (value is Some && value->0@ == s@),
{
    match value {
        Some(v) => same_text(v, s),
        None => false,
    }
}

fn said_in(item: &Json) -> (r: Option<&str>)
    ensures
        match r {
            Some(s) => assistant_text(item.tree()) == Some(s@),
            None => assistant_text(item.tree()) is None,
        },
{
    let role = match item.get_str("role") {
        Some(s) => Some(s),
        None => item.get_str("author"),
    };
    let kind = match item.get_str("kind") {
        Some(s) => Some(s),
        None => item.get_str("type"),
    };
    if !is_str(role, "assistant") && !is_str(kind, "assistant_text") {
        return None;
    }
    if let Some(s) = item.get_str("text") {
        return Some(s);
    }
    let content = match item.get("content") {
        Some(v) => v.get_str("text"),
        None => None,
    };
    match content {
        Some(s) => Some(s),
        None => match item.get("item") {
            Some(v) => v.get_str("text"),
            None => None,
        },
    }
}

/// Reads what the assistant said in a turn.
pub fn recover_assistant_text(turn: &Json) -> (r: Result<String, RuntimeError>)
    ensures
        match r {
            Ok(s) => recovered(turn.tree()) == Some(s@),
            Err(e) => recovered(turn.tree()) is None && e@ == error::ErrorView::Protocol(
                "kun_protocol_error"@,
            ),
        },
{
    let nested = match turn.get("turn") {
        Some(v) => list_in(v, "items"),
        None => None,
    };
    let items = match list_in(turn, "items") {
        Some(items) => Some(items),
        None => match nested {
            Some(items) => Some(items),
            None => list_in(turn, "messages"),
        },
    };
    let mut out = String::new();
    assert(out@ =~= seq![]);
    match items {
        None => {
            assert(said(seq![], turn_items(turn.tree())).len() == 0);
        },
        Some(items) => {
            let ghost all = json::trees(items@);
            let mut i: usize = 0;
            let mut cut = false;
            assert(all.skip(0) =~= all);
            while i < items.len() && !cut
                invariant
                    i <= items@.len(),
                    all == json::trees(items@),
                    all == turn_items(turn.tree()),
                    cut ==> said(seq![], all) == out@,
                    !cut ==> said(seq![], all) == said(out@, all.skip(i as int)),
                decreases items@.len() - i,
            {
                proof {
                    assert(all.skip(i as int)[0] == items@[i as int].tree());
                    assert(all.skip(i as int).drop_first() =~= all.skip(i + 1));
                }
                if let Some(s) = said_in(&items[i]) {
                    let ghost before = out@;
                    if !out.as_str().is_empty() {
                        out.append("\n");
                    }
                    out.append(s);
                    if bytes_len(out.as_str()) > MAX_TRANSPORT_BODY_BYTES {
                        out = utf8_prefix(out.as_str(), MAX_TRANSPORT_BODY_BYTES).to_owned();
                        cut = true;
                    }
                }
                i += 1;
            }
            proof {
                if !cut {
                    assert(all.skip(i as int) =~= seq![]);
                }
            }
        },
    }
    if out.as_str().is_empty() {
        Err(RuntimeError::protocol("kun_protocol_error"))
    } else {
        Ok(out)
    }
}

} // verus!
