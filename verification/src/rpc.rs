//! The JSON-RPC dialect of an app server that is spoken to over its standard
//! input and output, one message on each line.

use std::collections::VecDeque;
use vstd::prelude::*;
use vstd::string::*;

use crate::error;
use crate::error::{RuntimeError, CODEX_PROTOCOL_ERROR};
use crate::event::{object1, object2, text_json, with_member};
use crate::json;
use crate::json::{parse_json, Json};
use crate::redact;
use crate::redact::{redact_external_text, MAX_TRANSPORT_LINE_BYTES};
use crate::text;
use crate::text::{
    bytes_len, joined, lowered, parse_u64, same_text, text_contains, trimmed, utf8_tail,
};

verus! {

/// The most messages that are kept while an answer is waited for.
pub const MAX_BACKLOG: usize = 128;

/// The most bytes that are kept of what an app server writes as diagnostics.
pub const MAX_REDACTED_DIAGNOSTIC_BYTES: usize = 1024;

/// The id of the request that a message answers, if it is an answer. An id may be
/// a number or its text.
pub open spec fn response_id(value: json::JsonTree) -> Option<u64> {
    if json::field(value, "result"@) is None && json::field(value, "error"@) is None {
        None
    } else {
        json::first_of(
            json::u64_value(json::field(value, "id"@)),
            match json::text_field(value, "id"@) {
                Some(s) => text::unsigned_value(s),
                None => None,
            },
        )
    }
}

pub fn jsonrpc_response_id(value: &Json) -> (r: Option<u64>)
    ensures
        r == response_id(value.tree()),
{
    if value.get("result").is_none() && value.get("error").is_none() {
        return None;
    }
    let number = match value.get("id") {
        Some(id) => id.as_u64(),
        None => None,
    };
    match number {
        Some(n) => Some(n),
        None => match value.get_str("id") {
            Some(s) => parse_u64(s),
            None => None,
        },
    }
}

/// Whether the message of an error says that the server is not signed in.
pub open spec fn is_sign_in_message(message: Seq<char>) -> bool {
    let m = text::lower(message);
    ||| text::contains_text(m, "auth"@)
    ||| text::contains_text(m, "login"@)
    ||| text::contains_text(m, "api key"@)
    ||| text::contains_text(m, "unauthorized"@)
}

/// What an answer says: its result, or a classified error. The text of an error
/// is not passed on.
pub open spec fn response_result(value: json::JsonTree) -> Result<
    json::JsonTree,
    error::ErrorView,
> {
    match json::field(value, "error"@) {
        Some(e) => {
            let message = match json::text_field(e, "message"@) {
                Some(m) => m,
                None => seq![],
            };
            if is_sign_in_message(message) {
                Err(error::ErrorView::Authentication)
            } else {
                Err(error::ErrorView::Provider("codex_provider_rejected"@))
            }
        },
        None => match json::field(value, "result"@) {
            Some(result) => Ok(result),
            None => Err(error::ErrorView::Protocol(CODEX_PROTOCOL_ERROR@)),
        },
    }
}

pub fn rpc_response_result(value: &Json) -> (r: Result<Json, RuntimeError>)
    ensures
        match r {
            Ok(result) => response_result(value.tree()) == Ok::<
                json::JsonTree,
                error::ErrorView,
            >(result.tree()),
            Err(e) => response_result(value.tree()) == Err::<json::JsonTree, error::ErrorView>(e@),
        },
{
    match value.get("error") {
        Some(e) => {
            let message = match e.get_str("message") {
                Some(m) => m,
                None => "",
            };
            proof {
                reveal_strlit("");
                assert(message@ =~= match json::text_field(e.tree(), "message"@) {
                    Some(m) => m,
                    None => seq![],
                });
            }
            let m = lowered(message);
            if text_contains(m.as_str(), "auth") || text_contains(m.as_str(), "login")
                || text_contains(m.as_str(), "api key") || text_contains(
                m.as_str(),
                "unauthorized",
            ) {
                return Err(RuntimeError::Authentication);
            }
            Err(RuntimeError::provider("codex_provider_rejected"))
        },
        None => match value.get("result") {
            Some(result) => Ok(result.clone()),
            None => Err(RuntimeError::protocol(CODEX_PROTOCOL_ERROR)),
        },
    }
}

/// Whether a message is a request of the server.
pub open spec fn is_server_request(value: json::JsonTree) -> bool {
    &&& json::field(value, "id"@) is Some
    &&& json::text_field(value, "method"@) is Some
    &&& json::field(value, "result"@) is None
    &&& json::field(value, "error"@) is None
}

pub fn is_jsonrpc_server_request(value: &Json) -> (r: bool)
    ensures
        r == is_server_request(value.tree()),
{
    value.get("id").is_some() && value.get_str("method").is_some() && value.get("result").is_none()
        && value.get("error").is_none()
}

/// What a request of the server is answered.
pub enum CodexServerRequestResponse {
    Result(Json),
    Error { code: i64, message: &'static str },
}

pub enum ReplyView {
    Result(json::JsonTree),
    Error(i64, Seq<char>),
}

impl View for CodexServerRequestResponse {
    type V = ReplyView;

    open spec fn view(&self) -> ReplyView {
        match self {
            CodexServerRequestResponse::Result(value) => ReplyView::Result(value.tree()),
            CodexServerRequestResponse::Error { code, message } => ReplyView::Error(
                *code,
                message@,
            ),
        }
    }
}

pub open spec fn empty_object() -> json::JsonTree {
    json::JsonTree::Object(seq![])
}

pub open spec fn one_text(key: Seq<char>, value: Seq<char>) -> json::JsonTree {
    json::JsonTree::Object(seq![(key, json::JsonTree::Text(value))])
}

/// The answer to each request that a server may make. Nothing is ever approved;
/// what is not known is answered by an error.
pub open spec fn server_reply(method: Seq<char>) -> ReplyView {
    if method == "item/commandExecution/requestApproval"@ || method
        == "item/fileChange/requestApproval"@ {
        ReplyView::Result(one_text("decision"@, "decline"@))
    } else if method == "item/permissions/requestApproval"@ {
        ReplyView::Result(
            json::JsonTree::Object(
                seq![
                    ("permissions"@, empty_object()),
                    ("scope"@, json::JsonTree::Text("turn"@)),
                    ("strictAutoReview"@, json::JsonTree::Bool(false)),
                ],
            ),
        )
    } else if method == "applyPatchApproval"@ || method == "execCommandApproval"@ {
        ReplyView::Result(one_text("decision"@, "abort"@))
    } else if method == "item/tool/requestUserInput"@ {
        ReplyView::Result(json::JsonTree::Object(seq![("answers"@, empty_object())]))
    } else if method == "mcpServer/elicitation/request"@ {
        ReplyView::Result(one_text("action"@, "cancel"@))
    } else if method == "item/tool/call"@ {
        ReplyView::Error(-32031i64, "dynamic tools are disabled by AgentTalk Core"@)
    } else if method == "account/chatgptAuthTokens/refresh"@ {
        ReplyView::Error(-32032i64, "authentication refresh is unavailable to AgentTalk Core"@)
    } else if method == "attestation/generate"@ {
        ReplyView::Error(-32033i64, "attestation is unavailable to AgentTalk Core"@)
    } else {
        ReplyView::Error(-32601i64, "Method not found"@)
    }
}

/// An object without members.
pub fn empty_json() -> (r: Json)
    ensures
        r.tree() == empty_object(),
{
    let r = Json::Object(Vec::new());
    proof {
        r.lemma_list();
        assert(r.tree()->Object_0 =~= seq![]);
    }
    r
}

pub fn codex_server_request_response(method: &str) -> (r: CodexServerRequestResponse)
    ensures
        r@ == server_reply(method@),
{
    if same_text(method, "item/commandExecution/requestApproval") || same_text(
        method,
        "item/fileChange/requestApproval",
    ) {
        CodexServerRequestResponse::Result(object1("decision", text_json("decline")))
    } else if same_text(method, "item/permissions/requestApproval") {
        let value = object2("permissions", empty_json(), "scope", text_json("turn"));
        let value = with_member(value, "strictAutoReview", Json::Bool(false));
        proof {
            assert(value.tree()->Object_0 =~= seq![
                ("permissions"@, empty_object()),
                ("scope"@, json::JsonTree::Text("turn"@)),
                ("strictAutoReview"@, json::JsonTree::Bool(false)),
            ]);
        }
        CodexServerRequestResponse::Result(value)
    } else if same_text(method, "applyPatchApproval") || same_text(method, "execCommandApproval") {
        CodexServerRequestResponse::Result(object1("decision", text_json("abort")))
    } else if same_text(method, "item/tool/requestUserInput") {
        CodexServerRequestResponse::Result(object1("answers", empty_json()))
    } else if same_text(method, "mcpServer/elicitation/request") {
        CodexServerRequestResponse::Result(object1("action", text_json("cancel")))
    } else if same_text(method, "item/tool/call") {
        CodexServerRequestResponse::Error {
            code: -32031,
            message: "dynamic tools are disabled by AgentTalk Core",
        }
    } else if same_text(method, "account/chatgptAuthTokens/refresh") {
        CodexServerRequestResponse::Error {
            code: -32032,
            message: "authentication refresh is unavailable to AgentTalk Core",
        }
    } else if same_text(method, "attestation/generate") {
        CodexServerRequestResponse::Error {
            code: -32033,
            message: "attestation is unavailable to AgentTalk Core",
        }
    } else {
        CodexServerRequestResponse::Error { code: -32601, message: "Method not found" }
    }
}

/// The message that answers a request of the server.
pub open spec fn reply_message(request: json::JsonTree) -> json::JsonTree {
    let id = match json::field(request, "id"@) {
        Some(id) => id,
        None => json::JsonTree::Null,
    };
    let method = match json::text_field(request, "method"@) {
        Some(m) => m,
        None => seq![],
    };
    match server_reply(method) {
        ReplyView::Result(result) => json::JsonTree::Object(
            seq![("id"@, id), ("jsonrpc"@, json::JsonTree::Text("2.0"@)), ("result"@, result)],
        ),
        ReplyView::Error(code, message) => json::JsonTree::Object(
            seq![
                (
                    "error"@,
                    json::JsonTree::Object(
                        seq![
                            ("code"@, json::JsonTree::Negative(code)),
                            ("message"@, json::JsonTree::Text(message)),
                        ],
                    ),
                ),
                ("id"@, id),
                ("jsonrpc"@, json::JsonTree::Text("2.0"@)),
            ],
        ),
    }
}

/// Answers a request of the server.
pub fn reply_to_server_request(request: &Json) -> (r: Json)
    ensures
        r.tree() == reply_message(request.tree()),
{
    let id = match request.get("id") {
        Some(id) => id.clone(),
        None => Json::Null,
    };
    let method = match request.get_str("method") {
        Some(m) => m,
        None => "",
    };
    proof {
        reveal_strlit("");
        assert(method@ =~= match json::text_field(request.tree(), "method"@) {
            Some(m) => m,
            None => seq![],
        });
    }
    match codex_server_request_response(method) {
        CodexServerRequestResponse::Result(result) => {
            let ghost id_tree = id.tree();
            let ghost result_tree = result.tree();
            let value = object2("id", id, "jsonrpc", text_json("2.0"));
            let value = with_member(value, "result", result);
            proof {
                assert(value.tree()->Object_0 =~= seq![
                    ("id"@, id_tree),
                    ("jsonrpc"@, json::JsonTree::Text("2.0"@)),
                    ("result"@, result_tree),
                ]);
            }
            value
        },
        CodexServerRequestResponse::Error { code, message } => {
            let ghost id_tree = id.tree();
            let e = object2("code", Json::Negative(code), "message", text_json(message));
            let ghost e_tree = e.tree();
            let value = object2("error", e, "id", id);
            let value = with_member(value, "jsonrpc", text_json("2.0"));
            proof {
                assert(value.tree()->Object_0 =~= seq![
                    ("error"@, e_tree),
                    ("id"@, id_tree),
                    ("jsonrpc"@, json::JsonTree::Text("2.0"@)),
                ]);
            }
            value
        },
    }
}

/// A request message.
pub open spec fn request_message(id: u64, method: Seq<char>, params: json::JsonTree) -> json::JsonTree {
    json::JsonTree::Object(
        seq![
            ("id"@, json::JsonTree::Unsigned(id)),
            ("jsonrpc"@, json::JsonTree::Text("2.0"@)),
            ("method"@, json::JsonTree::Text(method)),
            ("params"@, params),
        ],
    )
}

pub fn request_json(id: u64, method: &str, params: Json) -> (r: Json)
    ensures
        r.tree() == request_message(id, method@, params.tree()),
{
    let ghost p = params.tree();
    let value = object2("id", Json::Unsigned(id), "jsonrpc", text_json("2.0"));
    let value = with_member(value, "method", text_json(method));
    let value = with_member(value, "params", params);
    proof {
        assert(value.tree()->Object_0 =~= seq![
            ("id"@, json::JsonTree::Unsigned(id)),
            ("jsonrpc"@, json::JsonTree::Text("2.0"@)),
            ("method"@, json::JsonTree::Text(method@)),
            ("params"@, p),
        ]);
    }
    value
}

/// A message that asks for no answer.
pub fn notification_json(method: &str, params: Json) -> (r: Json)
    ensures
        r.tree() == json::JsonTree::Object(
            seq![
                ("jsonrpc"@, json::JsonTree::Text("2.0"@)),
                ("method"@, json::JsonTree::Text(method@)),
                ("params"@, params.tree()),
            ],
        ),
{
    let ghost p = params.tree();
    let value = object2("jsonrpc", text_json("2.0"), "method", text_json(method));
    let value = with_member(value, "params", params);
    proof {
        assert(value.tree()->Object_0 =~= seq![
            ("jsonrpc"@, json::JsonTree::Text("2.0"@)),
            ("method"@, json::JsonTree::Text(method@)),
            ("params"@, p),
        ]);
    }
    value
}

/// The parameters of the first request to an app server.
pub fn initialize_params() -> (r: Json)
    ensures
        r.tree() == json::JsonTree::Object(
            seq![
                (
                    "capabilities"@,
                    json::JsonTree::Object(
                        seq![("experimentalApi"@, json::JsonTree::Bool(true))],
                    ),
                ),
                (
                    "clientInfo"@,
                    json::JsonTree::Object(
                        seq![
                            ("name"@, json::JsonTree::Text("AgentTalk Core"@)),
                            ("version"@, json::JsonTree::Text("1"@)),
                        ],
                    ),
                ),
            ],
        ),
{
    object2(
        "capabilities",
        object1("experimentalApi", Json::Bool(true)),
        "clientInfo",
        object2("name", text_json("AgentTalk Core"), "version", text_json("1")),
    )
}

/// The version that an app server reports of itself.
pub open spec fn server_version(initialized: json::JsonTree) -> Option<Seq<char>> {
    match json::first_of(
        json::text_value(json::then_field(json::field(initialized, "serverInfo"@), "version"@)),
        json::text_field(initialized, "version"@),
    ) {
        Some(s) => text::safe_identifier(s),
        None => None,
    }
}

pub fn server_version_of(initialized: &Json) -> (r: Option<String>)
    ensures
        text::opt_text(r) == server_version(initialized.tree()),
{
    let nested = match initialized.get("serverInfo") {
        Some(info) => info.get_str("version"),
        None => None,
    };
    let found = match nested {
        Some(s) => Some(s),
        None => initialized.get_str("version"),
    };
    match found {
        Some(s) => text::safe_model_identifier(s),
        None => None,
    }
}

/// What a line that an app server wrote holds.
pub enum StdioLine {
    Blank,
    Value(Json),
    Broken,
}

/// Reads a line that an app server wrote. A line that is too long or no JSON
/// breaks the protocol.
pub fn read_stdio_line(line: &str) -> (r: StdioLine)
    ensures
        match r {
            StdioLine::Blank => text::byte_len(line@) <= MAX_TRANSPORT_LINE_BYTES && text::trim(
                line@,
            ).len() == 0,
            StdioLine::Value(value) => text::byte_len(line@) <= MAX_TRANSPORT_LINE_BYTES
                && text::trim(line@).len() > 0 && json::json_text(text::trim(line@)) == Ok::<
                json::JsonTree,
                Seq<char>,
            >(value.tree()),
            StdioLine::Broken => text::byte_len(line@) > MAX_TRANSPORT_LINE_BYTES || (text::trim(
                line@,
            ).len() > 0 && json::json_text(text::trim(line@)) is Err),
        },
{
    if bytes_len(line) > MAX_TRANSPORT_LINE_BYTES {
        return StdioLine::Broken;
    }
    let content = trimmed(line);
    if content.as_str().is_empty() {
        return StdioLine::Blank;
    }
    match parse_json(content.as_str()) {
        Ok(value) => StdioLine::Value(value),
        Err(_) => StdioLine::Broken,
    }
}

/// What is kept of an app server's diagnostics after more of them: the end, with
/// the values of credentials removed.
pub fn append_diagnostic(current: &str, more: &str) -> (r: String)
    ensures
        r@ == text::bounded_tail(
            current@ + redact::redacted(more@),
            MAX_REDACTED_DIAGNOSTIC_BYTES as nat,
        ),
{
    let whole = joined(current, redact_external_text(more).as_str());
    utf8_tail(whole.as_str(), MAX_REDACTED_DIAGNOSTIC_BYTES)
}

/// What the receiver of a message does with it while it waits for an answer.
pub enum RpcStep {
    /// It is the answer.
    Answer(Result<Json, RuntimeError>),
    /// It is a request of the server, which is answered.
    Reply(Json),
    /// It is kept for later.
    Keep,
}

/// Decides on a message that comes while the answer to request `id` is waited
/// for.
pub fn rpc_message(id: u64, value: &Json) -> (r: RpcStep)
    ensures
        match r {
            RpcStep::Answer(answer) => response_id(value.tree()) == Some(id) && match answer {
                Ok(result) => response_result(value.tree()) == Ok::<
                    json::JsonTree,
                    error::ErrorView,
                >(result.tree()),
                Err(e) => response_result(value.tree()) == Err::<
                    json::JsonTree,
                    error::ErrorView,
                >(e@),
            },
            RpcStep::Reply(reply) => response_id(value.tree()) != Some(id) && is_server_request(
                value.tree(),
            ) && reply.tree() == reply_message(value.tree()),
            RpcStep::Keep => response_id(value.tree()) != Some(id) && !is_server_request(
                value.tree(),
            ),
        },
{
    if jsonrpc_response_id(value) == Some(id) {
        return RpcStep::Answer(rpc_response_result(value));
    }
    if is_jsonrpc_server_request(value) {
        RpcStep::Reply(reply_to_server_request(value))
    } else {
        RpcStep::Keep
    }
}

/// The messages that came while an answer was waited for.
pub struct Backlog {
    queue: VecDeque<Json>,
}

/// The index of the first message that answers request `id`.
pub open spec fn answer_index(queue: Seq<json::JsonTree>, id: u64) -> Option<int>
    decreases queue.len(),
{
    if queue.len() == 0 {
        None
    } else if response_id(queue[0]) == Some(id) {
        Some(0)
    } else {
        match answer_index(queue.drop_first(), id) {
            Some(i) => Some(i + 1),
            None => None,
        }
    }
}

impl Backlog {
    pub closed spec fn view(&self) -> Seq<json::JsonTree> {
        json::trees(self.queue@)
    }

    pub fn new() -> (r: Self)
        ensures
            r@ == Seq::<json::JsonTree>::empty(),
    {
        let r = Backlog { queue: VecDeque::new() };
        assert(r@ =~= Seq::empty());
        r
    }

    /// Keeps a message; what is too much is dropped.
    pub fn push(&mut self, value: Json)
        ensures
            final(self)@ == if old(self)@.len() < MAX_BACKLOG {
                old(self)@.push(value.tree())
            } else {
                old(self)@
            },
    {
        if self.queue.len() < MAX_BACKLOG {
            proof {
                json::lemma_trees_push(self.queue@, value);
            }
            self.queue.push_back(value);
        }
    }

    /// Takes the oldest message.
    pub fn pop(&mut self) -> (r: Option<Json>)
        ensures
            match r {
                Some(value) => old(self)@.len() > 0 && value.tree() == old(self)@[0]
                    && final(self)@ == old(self)@.drop_first(),
                None => old(self)@.len() == 0 && final(self)@ == old(self)@,
            },
    {
        let ghost before = self@;
        let r = self.queue.pop_front();
        proof {
            if r is Some {
                assert(self@ =~= before.drop_first());
            }
        }
        r
    }

    /// Takes the answer to request `id`, if it has come already.
    pub fn take_response(&mut self, id: u64) -> (r: Option<Json>)
        ensures
            match r {
                Some(value) => answer_index(old(self)@, id) matches Some(i) && 0 <= i
                    < old(self)@.len() && value.tree() == old(self)@[i] && final(self)@ == old(
                    self,
                )@.remove(i),
                None => answer_index(old(self)@, id) is None && final(self)@ == old(self)@,
            },
    {
        let ghost all = self@;
        let mut i: usize = 0;
        assert(all.skip(0) =~= all);
        while i < self.queue.len()
            invariant
                i <= self.queue@.len(),
                all == self@,
                self.queue == old(self).queue,
                answer_index(all, id) == match answer_index(all.skip(i as int), id) {
                    Some(k) => Some(k + i),
                    None => None,
                },
            decreases self.queue@.len() - i,
        {
            proof {
                assert(all.skip(i as int)[0] == self.queue@[i as int].tree());
                assert(all.skip(i as int).drop_first() =~= all.skip(i + 1));
            }
            if jsonrpc_response_id(&self.queue[i]) == Some(id) {
                let r = self.queue.remove(i);
                assert(self@ =~= all.remove(i as int));
                return r;
            }
            i += 1;
        }
        None
    }
}

/// The server is never granted anything: whatever it asks for, the answer is no
/// approval, and a request that is not known gets an error.
pub proof fn law_server_requests_are_refused(method: Seq<char>)
    ensures
        match server_reply(method) {
            ReplyView::Result(value) => {
                ||| value == one_text("decision"@, "decline"@)
                ||| value == one_text("decision"@, "abort"@)
                ||| value == one_text("action"@, "cancel"@)
                ||| value == json::JsonTree::Object(seq![("answers"@, empty_object())])
                ||| json::field(value, "permissions"@) == Some(empty_object())
            },
            ReplyView::Error(code, _) => code == -32031 || code == -32032 || code == -32033 || code
                == -32601,
        },
{
    let perm = json::JsonTree::Object(
        seq![
            ("permissions"@, empty_object()),
            ("scope"@, json::JsonTree::Text("turn"@)),
            ("strictAutoReview"@, json::JsonTree::Bool(false)),
        ],
    );
    assert(json::field(perm, "permissions"@) == Some(empty_object()));
}

} // verus!
