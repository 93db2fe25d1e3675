//! What holds of every JSON-RPC message, in terms of its members.

use vstd::prelude::*;
use vstd::string::*;

use crate::error;
use crate::json;
use crate::rpc;
use crate::text;

verus! {

/// The methods of a server are different.
proof fn lemma_methods_differ()
    ensures
        "item/commandExecution/requestApproval"@.len() == 37,
        "item/fileChange/requestApproval"@.len() == 31,
        "item/permissions/requestApproval"@.len() == 32,
        "applyPatchApproval"@.len() == 18,
        "execCommandApproval"@.len() == 19,
        "item/tool/requestUserInput"@.len() == 26,
        "mcpServer/elicitation/request"@.len() == 29,
        "item/tool/call"@.len() == 14,
        "account/chatgptAuthTokens/refresh"@.len() == 33,
        "attestation/generate"@.len() == 20,
{
    reveal_strlit("item/commandExecution/requestApproval");
    reveal_strlit("item/fileChange/requestApproval");
    reveal_strlit("item/permissions/requestApproval");
    reveal_strlit("applyPatchApproval");
    reveal_strlit("execCommandApproval");
    reveal_strlit("item/tool/requestUserInput");
    reveal_strlit("mcpServer/elicitation/request");
    reveal_strlit("item/tool/call");
    reveal_strlit("account/chatgptAuthTokens/refresh");
    reveal_strlit("attestation/generate");
}

/// The members of messages are different.
proof fn lemma_members_differ()
    ensures
        "id"@.len() == 2,
        "jsonrpc"@.len() == 7,
        "result"@.len() == 6,
        "error"@.len() == 5,
        "code"@.len() == 4,
        "message"@.len() == 7,
        "method"@.len() == 6,
        "params"@.len() == 6,
        "decision"@.len() == 8,
        "permissions"@.len() == 11,
        "scope"@.len() == 5,
        "strictAutoReview"@.len() == 16,
        "answers"@.len() == 7,
        "action"@.len() == 6,
        "jsonrpc"@[0] != "message"@[0],
        "jsonrpc"@[0] != "answers"@[0],
        "result"@[0] != "method"@[0],
        "result"@[0] != "params"@[0],
        "result"@[0] != "action"@[0],
        "error"@[0] != "scope"@[0],
        "message"@[0] != "answers"@[0],
        "method"@[0] != "params"@[0],
        "method"@[0] != "action"@[0],
        "params"@[0] != "action"@[0],
{
    reveal_strlit("id");
    reveal_strlit("jsonrpc");
    reveal_strlit("result");
    reveal_strlit("error");
    reveal_strlit("code");
    reveal_strlit("message");
    reveal_strlit("method");
    reveal_strlit("params");
    reveal_strlit("decision");
    reveal_strlit("permissions");
    reveal_strlit("scope");
    reveal_strlit("strictAutoReview");
    reveal_strlit("answers");
    reveal_strlit("action");
}

/// An answer to a request: it has a result or an error.
pub open spec fn answers(m: json::JsonTree) -> bool {
    json::field(m, "result"@) is Some || json::field(m, "error"@) is Some
}

/// A message is the answer to the request with the number that it has as its id, as a
/// number or in digits. What has neither a result nor an error answers no request, and
/// no more does what has another id.
pub proof fn law_answers_are_known_by_their_id(m: json::JsonTree, n: u64, s: Seq<char>)
    ensures
        !answers(m) ==> rpc::response_id(m) is None,
        answers(m) && json::field(m, "id"@) == Some(json::JsonTree::Unsigned(n))
            ==> rpc::response_id(m) == Some(n),
        answers(m) && json::field(m, "id"@) == Some(json::JsonTree::Text(s)) ==> rpc::response_id(m)
            == text::unsigned_value(s),
        json::field(m, "id"@) is None ==> rpc::response_id(m) is None,
        rpc::response_id(m) == Some(n) ==> answers(m) && (json::field(m, "id"@) == Some(
            json::JsonTree::Unsigned(n),
        ) || (json::field(m, "id"@) matches Some(json::JsonTree::Text(t)) && text::unsigned_value(t)
            == Some(n))),
{
}

/// A word stands in a text, in whatever letters.
pub open spec fn speaks_of(message: Seq<char>, word: Seq<char>) -> bool {
    exists|i: int| text::occurs_at(text::lower(message), word, i)
}

/// An error is never taken for a result. One that speaks of signing in is a refused
/// sign-in; any other is a refusal of the provider. A result is handed over as it is.
pub proof fn law_errors_are_no_results(m: json::JsonTree, message: Seq<char>)
    ensures
        json::field(m, "error"@) is Some ==> rpc::response_result(m) is Err,
        json::field(m, "error"@) matches Some(e) ==> (json::text_field(e, "message"@) == Some(
            message,
        ) ==> {
            &&& speaks_of(message, "auth"@) || speaks_of(message, "login"@) || speaks_of(
                message,
                "api key"@,
            ) || speaks_of(message, "unauthorized"@) ==> rpc::response_result(m) == Err::<
                json::JsonTree,
                error::ErrorView,
            >(error::ErrorView::Authentication)
            &&& !speaks_of(message, "auth"@) && !speaks_of(message, "login"@) && !speaks_of(
                message,
                "api key"@,
            ) && !speaks_of(message, "unauthorized"@) ==> rpc::response_result(m) == Err::<
                json::JsonTree,
                error::ErrorView,
            >(error::ErrorView::Provider("codex_provider_rejected"@))
        }),
        json::field(m, "error"@) is None && json::field(m, "result"@) is Some
            ==> rpc::response_result(m) == Ok::<json::JsonTree, error::ErrorView>(
            json::field(m, "result"@)->0,
        ),
        json::field(m, "error"@) is None && json::field(m, "result"@) is None
            ==> rpc::response_result(m) == Err::<json::JsonTree, error::ErrorView>(
            error::ErrorView::Protocol("codex_protocol_error"@),
        ),
{
}

/// An error without a text of its own is a refusal of the provider.
pub proof fn law_silent_errors_are_refusals(m: json::JsonTree)
    requires
        json::field(m, "error"@) matches Some(e) && json::text_field(e, "message"@) is None,
    ensures
        rpc::response_result(m) == Err::<json::JsonTree, error::ErrorView>(
            error::ErrorView::Provider("codex_provider_rejected"@),
        ),
{
    reveal_strlit("auth");
    reveal_strlit("login");
    reveal_strlit("api key");
    reveal_strlit("unauthorized");
    assert(text::lower(seq![]).len() == 0);
}

/// A message is a request of the server exactly if it has an id and a method, and is no
/// answer.
pub proof fn law_server_requests_have_an_id_and_a_method(m: json::JsonTree)
    ensures
        rpc::is_server_request(m) <==> json::field(m, "id"@) is Some && json::text_field(
            m,
            "method"@,
        ) is Some && !answers(m),
        rpc::is_server_request(m) ==> rpc::response_id(m) is None,
{
}

/// What a server asks for is never granted: an approval is declined, a patch or a command
/// aborted, a permission left empty, a question left unanswered, and what is not known is
/// refused as such.
pub proof fn law_requests_are_not_granted(method: Seq<char>)
    ensures
        method == "item/commandExecution/requestApproval"@ || method
            == "item/fileChange/requestApproval"@ ==> (rpc::server_reply(
            method,
        ) matches rpc::ReplyView::Result(v) && json::text_field(v, "decision"@) == Some(
            "decline"@,
        )),
        method == "applyPatchApproval"@ || method == "execCommandApproval"@ ==> (rpc::server_reply(
            method,
        ) matches rpc::ReplyView::Result(v) && json::text_field(v, "decision"@) == Some("abort"@)),
        method == "item/permissions/requestApproval"@ ==> (rpc::server_reply(
            method,
        ) matches rpc::ReplyView::Result(v) && json::field(v, "permissions"@) == Some(
            json::JsonTree::Object(seq![]),
        ) && json::text_field(v, "scope"@) == Some("turn"@) && json::field(v, "strictAutoReview"@)
            == Some(json::JsonTree::Bool(false))),
        method == "item/tool/requestUserInput"@ ==> (rpc::server_reply(
            method,
        ) matches rpc::ReplyView::Result(v) && json::field(v, "answers"@) == Some(
            json::JsonTree::Object(seq![]),
        )),
        method == "mcpServer/elicitation/request"@ ==> (rpc::server_reply(
            method,
        ) matches rpc::ReplyView::Result(v) && json::text_field(v, "action"@) == Some("cancel"@)),
        method == "item/tool/call"@ ==> (rpc::server_reply(
            method,
        ) matches rpc::ReplyView::Error(code, _) && code == -32031),
        method == "account/chatgptAuthTokens/refresh"@ ==> (rpc::server_reply(
            method,
        ) matches rpc::ReplyView::Error(code, _) && code == -32032),
        method == "attestation/generate"@ ==> (rpc::server_reply(
            method,
        ) matches rpc::ReplyView::Error(code, _) && code == -32033),
        method != "item/commandExecution/requestApproval"@ && method != "item/fileChange/requestApproval"@ && method != "item/permissions/requestApproval"@ && method != "applyPatchApproval"@ && method != "execCommandApproval"@ && method != "item/tool/requestUserInput"@ && method != "mcpServer/elicitation/request"@ && method != "item/tool/call"@ && method != "account/chatgptAuthTokens/refresh"@ && method != "attestation/generate"@ ==> rpc::server_reply(method) == rpc::ReplyView::Error(-32601i64, "Method not found"@),
{
    lemma_methods_differ();
    lemma_members_differ();
    reveal_with_fuel(json::member, 4);
}

/// The reply to a request has the request's id, and either the result or the error that
/// is given for its method.
pub proof fn law_reply_goes_to_its_request(request: json::JsonTree, method: Seq<char>)
    requires
        json::field(request, "id"@) is Some,
        json::text_field(request, "method"@) == Some(method),
    ensures
        ({
            let r = rpc::reply_message(request);
            &&& json::field(r, "id"@) == json::field(request, "id"@)
            &&& json::text_field(r, "jsonrpc"@) == Some("2.0"@)
            &&& match rpc::server_reply(method) {
                rpc::ReplyView::Result(v) => json::field(r, "result"@) == Some(v) && json::field(
                    r,
                    "error"@,
                ) is None,
                rpc::ReplyView::Error(code, message) => json::field(r, "result"@) is None
                    && json::then_field(json::field(r, "error"@), "code"@) == Some(
                    json::JsonTree::Negative(code),
                ) && json::then_field(json::field(r, "error"@), "message"@) == Some(
                    json::JsonTree::Text(message),
                ),
            }
        }),
{
    lemma_members_differ();
    reveal_with_fuel(json::member, 4);
}

/// The answer to a request that is sent with an id comes back under that id: a request
/// holds its id, method and parameters, and is itself no answer.
pub proof fn law_request_holds_what_it_asks(
    id: u64,
    method: Seq<char>,
    params: json::JsonTree,
    result: json::JsonTree,
)
    ensures
        ({
            let r = rpc::request_message(id, method, params);
            &&& json::field(r, "id"@) == Some(json::JsonTree::Unsigned(id))
            &&& json::text_field(r, "jsonrpc"@) == Some("2.0"@)
            &&& json::text_field(r, "method"@) == Some(method)
            &&& json::field(r, "params"@) == Some(params)
            &&& !answers(r)
        }),
        rpc::response_id(
            json::JsonTree::Object(
                seq![("id"@, json::JsonTree::Unsigned(id)), ("result"@, result)],
            ),
        ) == Some(id),
{
    lemma_members_differ();
    reveal_with_fuel(json::member, 5);
}

/// The version of a server is the one that it gives for itself, or else its own member.
pub proof fn law_server_gives_its_version(m: json::JsonTree, s: Seq<char>)
    ensures
        json::then_field(json::field(m, "serverInfo"@), "version"@) == Some(json::JsonTree::Text(s))
            ==> rpc::server_version(m) == text::safe_identifier(s),
        json::field(m, "serverInfo"@) is None && json::field(m, "version"@) == Some(
            json::JsonTree::Text(s),
        ) ==> rpc::server_version(m) == text::safe_identifier(s),
        json::field(m, "serverInfo"@) is None && json::field(m, "version"@) is None
            ==> rpc::server_version(m) is None,
{
}

/// Of the messages that were kept, the answer to a request is the first with its id.
pub proof fn law_first_answer_is_taken(queue: Seq<json::JsonTree>, id: u64)
    ensures
        match rpc::answer_index(queue, id) {
            Some(i) => 0 <= i < queue.len() && rpc::response_id(queue[i]) == Some(id) && (forall|
                j: int,
            |
                0 <= j < i ==> rpc::response_id(#[trigger] queue[j]) != Some(id)),
            None => forall|j: int|
                0 <= j < queue.len() ==> rpc::response_id(#[trigger] queue[j]) != Some(id),
        },
    decreases queue.len(),
{
    if queue.len() > 0 && rpc::response_id(queue[0]) != Some(id) {
        let rest = queue.drop_first();
        law_first_answer_is_taken(rest, id);
        assert forall|j: int|
            0 < j < queue.len() && (rpc::answer_index(rest, id) matches Some(i) ==> j
                <= i) implies rpc::response_id(#[trigger] queue[j]) != Some(id) by {
            assert(rest[j - 1] == queue[j]);
        }
    }
}

} // verus!
