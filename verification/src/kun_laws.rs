//! What holds of every run of a shared Kun runtime, in terms of the frames and answers
//! that come and the events that are handed over.

use vstd::prelude::*;
use vstd::string::*;

use crate::catalog;
use crate::error;
use crate::event;
use crate::event::{RuntimeRequest, WorkspaceAccess};
use crate::http;
use crate::http::HttpFailureKind;
use crate::json;
use crate::kun_cancel;
use crate::kun_frames;
use crate::kun_stream;
use crate::redact;
use crate::text;

verus! {

/// The kinds of frames are different.
proof fn lemma_kinds_differ()
    ensures
        "assistant_text_delta"@.len() == 20,
        "output.delta"@.len() == 12,
        "content.delta"@.len() == 13,
        "turn_completed"@.len() == 14,
        "execution.completed"@.len() == 19,
        "turn_cancelled"@.len() == 14,
        "turn_canceled"@.len() == 13,
        "execution.cancelled"@.len() == 19,
        "turn_failed"@.len() == 11,
        "error"@.len() == 5,
        "execution.failed"@.len() == 16,
        "content.delta"@[0] != "turn_canceled"@[0],
        "turn_completed"@[6] != "turn_cancelled"@[6],
        "execution.completed"@[11] != "execution.cancelled"@[11],
{
    reveal_strlit("assistant_text_delta");
    reveal_strlit("output.delta");
    reveal_strlit("content.delta");
    reveal_strlit("turn_completed");
    reveal_strlit("execution.completed");
    reveal_strlit("turn_cancelled");
    reveal_strlit("turn_canceled");
    reveal_strlit("execution.cancelled");
    reveal_strlit("turn_failed");
    reveal_strlit("error");
    reveal_strlit("execution.failed");
}

/// The keys of payloads are different.
proof fn lemma_keys_differ()
    ensures
        "connectorId"@.len() == 11,
        "modelId"@.len() == 7,
        "reason"@.len() == 6,
        "delta"@.len() == 5,
{
    reveal_strlit("connectorId");
    reveal_strlit("modelId");
    reveal_strlit("reason");
    reveal_strlit("delta");
}

/// The words of bodies are different.
proof fn lemma_body_words_differ()
    ensures
        "approvalPolicy"@.len() == 14,
        "mode"@.len() == 4,
        "model"@.len() == 5,
        "sandboxMode"@.len() == 11,
        "title"@.len() == 5,
        "titleAuto"@.len() == 9,
        "workspace"@.len() == 9,
        "disableUserInput"@.len() == 16,
        "prompt"@.len() == 6,
        "workspace-write"@.len() == 15,
        "read-only"@.len() == 9,
        "model"@[0] != "title"@[0],
        "titleAuto"@[0] != "workspace"@[0],
        "titleAuto"@[0] != "read-only"@[0],
        "workspace"@[0] != "read-only"@[0],
{
    reveal_strlit("approvalPolicy");
    reveal_strlit("mode");
    reveal_strlit("model");
    reveal_strlit("sandboxMode");
    reveal_strlit("title");
    reveal_strlit("titleAuto");
    reveal_strlit("workspace");
    reveal_strlit("disableUserInput");
    reveal_strlit("prompt");
    reveal_strlit("workspace-write");
    reveal_strlit("read-only");
}

/// The kind of a frame, in either spelling.
pub open spec fn has_kind(t: json::JsonTree, kind: Seq<char>) -> bool {
    json::text_field(t, "kind"@) == Some(kind) || (json::text_field(t, "kind"@) is None
        && json::text_field(t, "type"@) == Some(kind))
}

/// A frame names this turn, or none.
pub open spec fn is_for(t: json::JsonTree, turn_id: Seq<char>) -> bool {
    json::text_field(t, "turnId"@) == Some(turn_id) || (json::text_field(t, "turnId"@) is None && (
    json::text_field(t, "turn_id"@) is None || json::text_field(t, "turn_id"@) == Some(turn_id)))
}

pub open spec fn tells_output(t: json::JsonTree) -> bool {
    has_kind(t, "assistant_text_delta"@) || has_kind(t, "output.delta"@) || has_kind(
        t,
        "content.delta"@,
    )
}

pub open spec fn tells_success(t: json::JsonTree) -> bool {
    has_kind(t, "turn_completed"@) || has_kind(t, "execution.completed"@)
}

pub open spec fn tells_cancellation(t: json::JsonTree) -> bool {
    has_kind(t, "turn_cancelled"@) || has_kind(t, "turn_canceled"@) || has_kind(
        t,
        "execution.cancelled"@,
    )
}

pub open spec fn tells_failure(t: json::JsonTree) -> bool {
    has_kind(t, "turn_failed"@) || has_kind(t, "error"@) || has_kind(t, "execution.failed"@)
}

/// A code that says that a provider refused the credential; the case of its letters
/// does not matter.
pub open spec fn refuses_credential(code: Seq<char>) -> bool {
    let c = text::lower(code);
    ||| c == "provider_authentication_failed"@
    ||| c == "provider_unauthorized"@
    ||| c == "invalid_api_key"@
    ||| c == "invalid_api_key_error"@
    ||| c == "authentication_error"@
}

/// A value tells such a code, in the first of its places.
pub open spec fn tells_refusal(t: json::JsonTree) -> bool {
    let a = json::text_value(json::then_field(json::field(t, "error"@), "code"@));
    let b = json::text_value(json::then_field(json::field(t, "error"@), "type"@));
    let c = json::text_field(t, "code"@);
    ||| a matches Some(x) && refuses_credential(x)
    ||| a is None && (b matches Some(x) && refuses_credential(x))
    ||| a is None && b is None && (c matches Some(x) && refuses_credential(x))
}

/// The text that a frame carries, in the first of its places.
pub open spec fn carries(t: json::JsonTree, text: Seq<char>) -> bool {
    let a = json::text_value(json::then_field(json::field(t, "item"@), "text"@));
    let b = json::text_field(t, "delta"@);
    let c = json::text_field(t, "text"@);
    a == Some(text) || (a is None && (b == Some(text) || (b is None && c == Some(text))))
}

/// A frame of a failure never means a success: only a frame that says so means that
/// the turn is completed. A frame of another turn means nothing.
pub proof fn law_frames_mean_what_they_say(t: json::JsonTree, turn_id: Seq<char>)
    ensures
        ({
            let v = kun_frames::value_meaning(t, turn_id);
            &&& !is_for(t, turn_id) ==> v is Other
            &&& v is Completed <==> is_for(t, turn_id) && tells_success(t)
            &&& v is Cancelled <==> is_for(t, turn_id) && tells_cancellation(t)
            &&& is_for(t, turn_id) && tells_failure(t) ==> if tells_refusal(t) {
                v is Refused
            } else {
                v is Failed
            }
            &&& v is Failed ==> tells_failure(t)
            &&& v is Refused ==> tells_failure(t) && tells_refusal(t)
            &&& forall|s: Seq<char>|
                is_for(t, turn_id) && tells_output(t) && #[trigger] carries(t, s) ==> v
                    == kun_frames::FrameView::Delta(s)
            &&& v matches kun_frames::FrameView::Delta(s) ==> tells_output(t) && carries(t, s)
        }),
{
    lemma_kinds_differ();
}

/// An event of the turn with this type and this reason.
pub open spec fn is_end(
    e: event::EventView,
    s: kun_stream::KunRunView,
    request: &RuntimeRequest,
    event_type: Seq<char>,
    reason: Option<Seq<char>>,
) -> bool {
    &&& e.event_type == event_type
    &&& json::text_field(e.payload, "reason"@) == reason
    &&& json::text_field(e.payload, "connectorId"@) == Some(request.connector_id@)
    &&& e.execution_run_id == request.execution_run_id@
    &&& e.runtime_id == "kun"@
    &&& e.thread_id == Some(s.thread_id)
    &&& e.turn_id == Some(s.turn_id)
}

/// A piece of output of the turn.
pub open spec fn is_piece(
    e: event::EventView,
    s: kun_stream::KunRunView,
    request: &RuntimeRequest,
    delta: Seq<char>,
) -> bool {
    &&& e.event_type == "output.delta"@
    &&& json::text_field(e.payload, "delta"@) == Some(redact::redacted(delta))
    &&& e.execution_run_id == request.execution_run_id@
    &&& e.runtime_id == "kun"@
    &&& e.thread_id == Some(s.thread_id)
    &&& e.turn_id == Some(s.turn_id)
}

proof fn lemma_terminal(
    event_type: Seq<char>,
    request: &RuntimeRequest,
    thread_id: Option<Seq<char>>,
    turn_id: Option<Seq<char>>,
    index: u64,
    reason: Option<Seq<char>>,
)
    ensures
        ({
            let e = event::terminal("kun"@, event_type, request, thread_id, turn_id, index, reason);
            &&& json::text_field(e.payload, "reason"@) == reason
            &&& json::text_field(e.payload, "connectorId"@) == Some(request.connector_id@)
        }),
{
    lemma_keys_differ();
    reveal_with_fuel(json::member, 4);
}

/// What the next frame of a run says is what the run does: a piece of output is
/// handed over, a failure ends the run as failed or with the refusal of a
/// credential, a cancellation as cancelled, and a success as completed, once there
/// is output; a success without output has the text of the turn fetched.
pub proof fn law_next_frame_decides(
    s: kun_stream::KunRunView,
    f: kun_cancel::RunFacts,
    request: &RuntimeRequest,
    t: json::JsonTree,
    cancelled: bool,
    expired: bool,
)
    requires
        s.phase == kun_stream::KunPhase::Emitting,
        s.frames.len() > 0,
        json::json_text(s.frames[0]) == Ok::<json::JsonTree, Seq<char>>(t),
        is_for(t, s.turn_id),
    ensures
        ({
            let (next, g, action) = kun_stream::step(
                s,
                f,
                request,
                kun_stream::KunInputView::Done,
                cancelled,
                expired,
            );
            &&& tells_failure(t) && tells_refusal(t) ==> next.phase == kun_stream::KunPhase::Ended
                && action == kun_stream::KunActionView::Finish(
                Err(error::ErrorView::Provider("kun_provider_authentication_failed"@)),
            )
            &&& tells_failure(t) && !tells_refusal(t) ==> next.phase
                == kun_stream::KunPhase::Closing && (action matches
                kun_stream::KunActionView::Emit(events) && events.len() == 1 && is_end(
                events[0],
                s,
                request,
                "execution.failed"@,
                Some("provider_error"@),
            ))
            &&& tells_cancellation(t) ==> next.phase == kun_stream::KunPhase::Closing && (action
                matches kun_stream::KunActionView::Emit(events) && events.len() == 1 && is_end(
                events[0],
                s,
                request,
                "execution.cancelled"@,
                Some("provider_cancelled"@),
            ))
            &&& tells_success(t) && s.streamed ==> next.phase == kun_stream::KunPhase::Closing && (
            action matches kun_stream::KunActionView::Emit(events) && events.len() == 1 && is_end(
                events[0],
                s,
                request,
                "execution.completed"@,
                None,
            ))
            &&& tells_success(t) && !s.streamed ==> next.phase == kun_stream::KunPhase::Recovering
                && action is Fetch
            &&& forall|d: Seq<char>|
                tells_output(t) && #[trigger] carries(t, d) ==> next.phase
                    == kun_stream::KunPhase::Emitting && next.streamed && (action matches
                    kun_stream::KunActionView::Emit(events) && events.len() == 1 && is_piece(
                    events[0],
                    s,
                    request,
                    d,
                ))
        }),
{
    lemma_kinds_differ();
    lemma_keys_differ();
    reveal_with_fuel(json::member, 2);
    law_frames_mean_what_they_say(t, s.turn_id);
    let i = kun_stream::next_index(s.index);
    lemma_terminal(
        "execution.failed"@,
        request,
        Some(s.thread_id),
        Some(s.turn_id),
        i,
        Some("provider_error"@),
    );
    lemma_terminal(
        "execution.cancelled"@,
        request,
        Some(s.thread_id),
        Some(s.turn_id),
        i,
        Some("provider_cancelled"@),
    );
    lemma_terminal(
        "execution.completed"@,
        request,
        Some(s.thread_id),
        Some(s.turn_id),
        i,
        None,
    );
}

/// A frame that is not for this turn, or of no known kind, is passed over: the run
/// goes on as if it had not come.
pub proof fn law_foreign_frames_are_passed_over(
    s: kun_stream::KunRunView,
    f: kun_cancel::RunFacts,
    request: &RuntimeRequest,
    t: json::JsonTree,
    cancelled: bool,
    expired: bool,
)
    requires
        s.phase == kun_stream::KunPhase::Emitting,
        s.frames.len() > 0,
        json::json_text(s.frames[0]) == Ok::<json::JsonTree, Seq<char>>(t),
        !is_for(t, s.turn_id) || (!tells_output(t) && !tells_success(t) && !tells_cancellation(t)
            && !tells_failure(t)),
    ensures
        kun_stream::step(s, f, request, kun_stream::KunInputView::Done, cancelled, expired)
            == kun_stream::step(
            kun_stream::KunRunView { frames: s.frames.drop_first(), ..s },
            f,
            request,
            kun_stream::KunInputView::Done,
            cancelled,
            expired,
        ),
{
    lemma_kinds_differ();
    law_frames_mean_what_they_say(t, s.turn_id);
}

/// A frame that is no JSON ends the run with a protocol error.
pub proof fn law_broken_frame_ends_the_run(
    s: kun_stream::KunRunView,
    f: kun_cancel::RunFacts,
    request: &RuntimeRequest,
    cancelled: bool,
    expired: bool,
)
    requires
        s.phase == kun_stream::KunPhase::Emitting,
        s.frames.len() > 0,
        json::json_text(s.frames[0]) is Err,
    ensures
        kun_stream::step(s, f, request, kun_stream::KunInputView::Done, cancelled, expired).2
            == kun_stream::KunActionView::Finish(
            Err(error::ErrorView::Protocol("kun_protocol_error"@)),
        ),
{
}

/// Whether a frame says that this turn came to a good end.
pub open spec fn is_success(data: Seq<char>, turn_id: Seq<char>) -> bool {
    json::json_text(data) matches Ok(t) && is_for(t, turn_id) && tells_success(t)
}

proof fn lemma_pump_success(
    s: kun_stream::KunRunView,
    f: kun_cancel::RunFacts,
    request: &RuntimeRequest,
    cancelled: bool,
    expired: bool,
    k: int,
)
    ensures
        ({
            let (next, g, action) = kun_stream::pump(s, f, request, cancelled, expired);
            let told = action matches kun_stream::KunActionView::Emit(events) && 0 <= k
                < events.len() && events[k].event_type == "execution.completed"@;
            told || next.phase == kun_stream::KunPhase::Recovering ==> exists|i: int|
                0 <= i < s.frames.len() && is_success(#[trigger] s.frames[i], s.turn_id)
        }),
    decreases s.frames.len(),
{
    lemma_kinds_differ();
    if s.frames.len() > 0 {
        let rest = kun_stream::KunRunView { frames: s.frames.drop_first(), ..s };
        lemma_pump_success(rest, f, request, cancelled, expired, k);
        if let Ok(t) = json::json_text(s.frames[0]) {
            law_frames_mean_what_they_say(t, s.turn_id);
        }
        if exists|i: int|
            0 <= i < rest.frames.len() && is_success(#[trigger] rest.frames[i], s.turn_id) {
            let i = choose|i: int|
                0 <= i < rest.frames.len() && is_success(#[trigger] rest.frames[i], s.turn_id);
            assert(s.frames[i + 1] == rest.frames[i]);
        }
        assert(is_success(s.frames[0], s.turn_id) ==> s.frames.len() > 0);
    }
}

/// While frames are looked at, a run is told as completed, or has its text fetched,
/// only if one of the frames says that the turn came to a good end.
pub proof fn law_success_is_earned(
    s: kun_stream::KunRunView,
    f: kun_cancel::RunFacts,
    request: &RuntimeRequest,
    cancelled: bool,
    expired: bool,
    k: int,
)
    requires
        s.phase == kun_stream::KunPhase::Emitting,
        ({
            let (next, g, action) = kun_stream::step(
                s,
                f,
                request,
                kun_stream::KunInputView::Done,
                cancelled,
                expired,
            );
            next.phase == kun_stream::KunPhase::Recovering || (action matches
                kun_stream::KunActionView::Emit(events) && 0 <= k < events.len()
                && events[k].event_type == "execution.completed"@)
        }),
    ensures
        exists|i: int|
            0 <= i < s.frames.len() && is_success(#[trigger] s.frames[i], s.turn_id),
{
    lemma_pump_success(s, f, request, cancelled, expired, k);
}

/// A stream that is over without a frame that ends the run is an error, and never a
/// success.
pub proof fn law_silent_end_is_an_error(
    s: kun_stream::KunRunView,
    f: kun_cancel::RunFacts,
    request: &RuntimeRequest,
    cancelled: bool,
    expired: bool,
)
    requires
        s.phase == kun_stream::KunPhase::Emitting,
        s.frames.len() == 0,
        s.over,
    ensures
        kun_stream::step(s, f, request, kun_stream::KunInputView::Done, cancelled, expired).2
            == kun_stream::KunActionView::Finish(Err(error::ErrorView::StreamTerminalMissing)),
{
}

/// Before each read a run whose cancellation the runtime refused ends with that
/// error, a cancelled run has its turn interrupted, and a run whose time is over
/// ends; only otherwise more is read.
pub proof fn law_run_listens_only_while_it_may(
    s: kun_stream::KunRunView,
    f: kun_cancel::RunFacts,
    request: &RuntimeRequest,
    cancelled: bool,
    expired: bool,
)
    requires
        s.phase == kun_stream::KunPhase::Reading,
    ensures
        ({
            let (next, g, action) = kun_stream::step(
                s,
                f,
                request,
                kun_stream::KunInputView::Silence,
                cancelled,
                expired,
            );
            let refused = f.cancellation matches Some(kun_cancel::CancelView::Failed(_));
            let asked = cancelled || f.cancellation is Some;
            &&& f.cancellation matches Some(kun_cancel::CancelView::Failed(e)) ==> action
                == kun_stream::KunActionView::Finish(Err(e))
            &&& !refused && asked && (f.turn matches Some(turn)) ==> action
                == kun_stream::KunActionView::Interrupt(f.turn->0) && next.phase
                == kun_stream::KunPhase::Interrupting
            &&& !asked && expired ==> action == kun_stream::KunActionView::Finish(
                Err(error::ErrorView::Timeout),
            )
            &&& action is Read <==> !asked && !expired
        }),
{
}

/// A turn that was interrupted ends the run as cancelled, and no event is handed
/// over.
pub proof fn law_interrupted_run_is_cancelled(
    s: kun_stream::KunRunView,
    f: kun_cancel::RunFacts,
    request: &RuntimeRequest,
    cancelled: bool,
    expired: bool,
)
    requires
        s.phase == kun_stream::KunPhase::Interrupting,
    ensures
        kun_stream::step(s, f, request, kun_stream::KunInputView::Done, cancelled, expired).2
            == kun_stream::KunActionView::Finish(Err(error::ErrorView::Cancelled)),
{
}

/// A thread is created with the model and in the workspace of the request, only if
/// the catalog offers that model. Only a run that may write gets a sandbox that
/// writes.
pub proof fn law_thread_is_created_as_asked(
    s: kun_stream::KunRunView,
    f: kun_cancel::RunFacts,
    request: &RuntimeRequest,
    c: catalog::CatalogView,
    expired: bool,
    workspace: String,
    model: String,
)
    requires
        s.phase == kun_stream::KunPhase::Catalog,
        request.canonical_cwd == Some(workspace),
        request.model_id == Some(model),
        text::trim(workspace@).len() > 0,
        text::trim(model@).len() > 0,
    ensures
        ({
            let (next, g, action) = kun_stream::step(
                s,
                f,
                request,
                kun_stream::KunInputView::Catalog(c),
                false,
                expired,
            );
            &&& !kun_frames::offers(c, model@) ==> action == kun_stream::KunActionView::Finish(
                Err(error::ErrorView::Protocol("kun_model_unavailable"@)),
            )
            &&& kun_frames::offers(c, model@) ==> next.phase == kun_stream::KunPhase::Thread && (
            action matches kun_stream::KunActionView::Post(path, body) && {
                &&& path == "/v1/threads"@
                &&& json::text_field(body, "model"@) == Some(model@)
                &&& json::text_field(body, "workspace"@) == Some(workspace@)
                &&& json::text_field(body, "sandboxMode"@) == Some("workspace-write"@)
                    <==> request.workspace_access == WorkspaceAccess::WorkspaceWrite
                &&& json::text_field(body, "sandboxMode"@) == Some("read-only"@)
                    <==> request.workspace_access != WorkspaceAccess::WorkspaceWrite
            })
        }),
{
    lemma_body_words_differ();
    reveal_with_fuel(json::member, 8);
}

/// A model that is not listed, or that is listed as unavailable or switched off, is
/// not offered for a run; any other listed model is.
pub proof fn law_only_usable_models_are_offered(c: catalog::CatalogView, model: Seq<char>)
    ensures
        kun_frames::offers(c, model) ==> exists|i: int|
            0 <= i < c.models.len() && #[trigger] c.models[i] == model,
        (forall|i: int|
            0 <= i < c.model_metadata.len() && (#[trigger] c.model_metadata[i]).model_id == model
                ==> !c.model_metadata[i].available || !c.model_metadata[i].enabled) && (exists|i: int|
            0 <= i < c.model_metadata.len() && (#[trigger] c.model_metadata[i]).model_id == model)
            ==> !kun_frames::offers(c, model),
        c.models.contains(model) && (forall|i: int|
            0 <= i < c.model_metadata.len() && (#[trigger] c.model_metadata[i]).model_id == model
                ==> c.model_metadata[i].available && c.model_metadata[i].enabled)
            ==> kun_frames::offers(c, model),
{
    lemma_table_get(c.model_metadata, model);
}

proof fn lemma_table_get(table: Seq<catalog::MetaView>, id: Seq<char>)
    ensures
        match catalog::table_get(table, id) {
            Some(m) => exists|i: int|
                0 <= i < table.len() && #[trigger] table[i] == m && m.model_id == id,
            None => forall|i: int| 0 <= i < table.len() ==> (#[trigger] table[i]).model_id != id,
        },
    decreases table.len(),
{
    if table.len() > 0 && table[0].model_id != id {
        let rest = table.drop_first();
        lemma_table_get(rest, id);
        assert(forall|i: int| 0 <= i < rest.len() ==> #[trigger] rest[i] == table[i + 1]);
        if let Some(m) = catalog::table_get(rest, id) {
            let i = choose|i: int| 0 <= i < rest.len() && #[trigger] rest[i] == m;
            assert(table[i + 1] == m);
        } else {
            assert forall|i: int| 0 <= i < table.len() implies (#[trigger] table[i]).model_id
                != id by {
                if i > 0 {
                    assert(rest[i - 1] == table[i]);
                }
            }
        }
    } else if table.len() > 0 {
        assert(table[0] == catalog::table_get(table, id)->0);
    }
}

/// A turn is started in the thread that was created, with the context of the request
/// as its prompt and with its model.
pub proof fn law_turn_is_started_as_asked(
    s: kun_stream::KunRunView,
    f: kun_cancel::RunFacts,
    request: &RuntimeRequest,
    answer: json::JsonTree,
    cancelled: bool,
    expired: bool,
    model: String,
)
    requires
        s.phase == kun_stream::KunPhase::Thread,
        request.model_id == Some(model),
        text::trim(model@).len() > 0,
    ensures
        ({
            let (next, g, action) = kun_stream::step(
                s,
                f,
                request,
                kun_stream::KunInputView::Answer(answer),
                cancelled,
                expired,
            );
            action matches kun_stream::KunActionView::Post(path, body) ==> {
                &&& !expired
                &&& !cancelled
                &&& f.cancellation is None
                &&& g.starting
                &&& next.phase == kun_stream::KunPhase::Turn
                &&& path == "/v1/threads/"@ + kun_frames::component(next.thread_id) + "/turns"@
                &&& json::text_field(body, "prompt"@) == Some(request.rendered_context@)
                &&& json::text_field(body, "model"@) == Some(model@)
                &&& json::bool_value(json::field(body, "disableUserInput"@)) == Some(true)
            }
        }),
{
    lemma_body_words_differ();
    reveal_with_fuel(json::member, 5);
}

/// A request succeeds if and only if its status says so and its body can be read. A
/// refused credential is told as such, and any other failure by what was asked for.
pub proof fn law_answers_are_told_by_their_status(
    status: u16,
    kind: HttpFailureKind,
    value: Result<json::JsonTree, Seq<char>>,
)
    ensures
        ({
            let r = kun_frames::answered(status, kind, value);
            &&& r is Ok <==> 200 <= status <= 299 && value is Ok
            &&& r is Ok ==> r->Ok_0 == value->Ok_0
            &&& 200 <= status <= 299 && value is Err ==> r == Err::<
                json::JsonTree,
                error::ErrorView,
            >(error::ErrorView::Protocol("kun_protocol_error"@))
            &&& status == 401 || status == 403 ==> r == Err::<json::JsonTree, error::ErrorView>(
                error::ErrorView::Authentication,
            )
            &&& !(200 <= status <= 299) && status != 401 && status != 403 ==> r == Err::<
                json::JsonTree,
                error::ErrorView,
            >(
                match kind {
                    HttpFailureKind::Catalog => error::ErrorView::Transport(
                        "kun_catalog_unavailable"@,
                    ),
                    HttpFailureKind::Runtime => error::ErrorView::Transport(
                        "kun_shared_runtime_unavailable"@,
                    ),
                    HttpFailureKind::Provider => error::ErrorView::Provider(
                        if value is Ok && tells_refusal(value->Ok_0) {
                            "kun_provider_authentication_failed"@
                        } else {
                            "kun_provider_rejected"@
                        },
                    ),
                },
            )
        }),
{
}

/// Whether an item holds what the assistant said.
pub open spec fn is_of_assistant(item: json::JsonTree) -> bool {
    let role = json::text_field(item, "role"@);
    let author = json::text_field(item, "author"@);
    ||| role == Some("assistant"@)
    ||| role is None && author == Some("assistant"@)
    ||| has_kind(item, "assistant_text"@)
}

/// The text of an item, in the first of its places.
pub open spec fn holds_text(item: json::JsonTree, s: Seq<char>) -> bool {
    let a = json::text_field(item, "text"@);
    let b = json::text_value(json::then_field(json::field(item, "content"@), "text"@));
    let c = json::text_value(json::then_field(json::field(item, "item"@), "text"@));
    a == Some(s) || (a is None && (b == Some(s) || (b is None && c == Some(s))))
}

/// What others than the assistant said is left out of the text of a turn.
pub proof fn law_only_the_assistant_is_told(
    before: Seq<char>,
    items: Seq<json::JsonTree>,
    item: json::JsonTree,
)
    requires
        !is_of_assistant(item),
    ensures
        kun_frames::said(before, seq![item] + items) == kun_frames::said(before, items),
        kun_frames::said(before, items.push(item)) == kun_frames::said(before, items),
    decreases items.len(),
{
    assert((seq![item] + items).drop_first() =~= items);
    if items.len() > 0 {
        assert(items.push(item).drop_first() =~= items.drop_first().push(item));
        let after = match kun_frames::assistant_text(items[0]) {
            None => before,
            Some(s) => (if before.len() > 0 {
                before + "\n"@
            } else {
                before
            }) + s,
        };
        law_only_the_assistant_is_told(after, items.drop_first(), item);
    } else {
        assert(items.push(item).drop_first() =~= items);
        assert(items =~= seq![]);
    }
}

/// What the assistant said last stands at the end of the text of a turn, on a line of
/// its own, as long as nothing had to be cut off.
pub proof fn law_what_is_said_last_stands_last(
    before: Seq<char>,
    items: Seq<json::JsonTree>,
    item: json::JsonTree,
    s: Seq<char>,
)
    requires
        is_of_assistant(item),
        holds_text(item, s),
        text::byte_len(kun_frames::said(before, items)) < 524_284,
        text::byte_len(kun_frames::said(before, items)) + 1 + text::byte_len(s) <= 524_288,
    ensures
        kun_frames::said(before, items.push(item)) == kun_frames::said(before, items) + (
        if kun_frames::said(before, items).len() > 0 {
            "\n"@
        } else {
            seq![]
        }) + s,
    decreases items.len(),
{
    let rest = items.drop_first();
    if items.len() > 0 {
        assert(items.push(item).drop_first() =~= rest.push(item));
        match kun_frames::assistant_text(items[0]) {
            None => {
                law_what_is_said_last_stands_last(before, rest, item, s);
            },
            Some(x) => {
                let after = (if before.len() > 0 {
                    before + "\n"@
                } else {
                    before
                }) + x;
                if text::byte_len(after) > http::MAX_TRANSPORT_BODY_BYTES {
                    lemma_cut_is_long(after);
                } else {
                    law_what_is_said_last_stands_last(after, rest, item, s);
                }
            },
        }
    } else {
        assert(items.push(item).drop_first() =~= seq![]);
        assert(kun_frames::said(before, items) == before);
        let with_line = if before.len() > 0 {
            before + "\n"@
        } else {
            before
        };
        reveal_strlit("\n");
        text::lemma_byte_len_one('\n');
        text::lemma_encode_concat(before, "\n"@);
        text::lemma_encode_concat(with_line, s);
        assert("\n"@ =~= seq!['\n']);
        assert(before.len() == 0 ==> before + seq![] =~= before);
        assert(kun_frames::said(with_line + s, seq![]) == with_line + s);
    }
}

/// What was cut fills the limit but for the bytes of one character.
proof fn lemma_cut_is_long(s: Seq<char>)
    requires
        text::byte_len(s) > http::MAX_TRANSPORT_BODY_BYTES,
    ensures
        text::byte_len(text::bounded_prefix(s, http::MAX_TRANSPORT_BODY_BYTES as nat)) >= 524_284,
{
    let p = text::bounded_prefix(s, http::MAX_TRANSPORT_BODY_BYTES as nat);
    text::law_bounded_prefix(s, http::MAX_TRANSPORT_BODY_BYTES as nat);
    if p.len() == s.len() {
        assert(p =~= s);
    }
    let c = s[p.len() as int];
    assert(s.take(p.len() as int + 1) =~= p + seq![c]);
    text::lemma_encode_concat(p, seq![c]);
    text::lemma_byte_len_one(c);
}

} // verus!
