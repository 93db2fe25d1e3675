//! What holds of every step of a run in a shared Kun runtime, and of the frames that it
//! reads, in terms of what comes in and what is done next.

use vstd::prelude::*;
use vstd::string::*;

use crate::decode;
use crate::error;
use crate::event::RuntimeRequest;
use crate::event_laws;
use crate::json;
use crate::kun_cancel;
use crate::kun_frames;
use crate::kun_stream;
use crate::kun_stream::{KunActionView, KunInputView, KunPhase};
use crate::redact;
use crate::sse;
use crate::text;
use crate::text_laws;

verus! {

/// A text that is present and not blank.
pub open spec fn is_filled(value: Option<String>) -> bool {
    value matches Some(s) && text::trim(s@).len() > 0
}

/// A value holds a text under a key that stands for an identifier.
pub open spec fn gives(t: Option<json::JsonTree>, key: Seq<char>, id: Seq<char>) -> bool {
    json::then_field(t, key) matches Some(json::JsonTree::Text(s)) && text::safe_identifier(s)
        == Some(id)
}

/// A value holds no identifier under a key.
pub open spec fn gives_no(t: Option<json::JsonTree>, key: Seq<char>) -> bool {
    forall|id: Seq<char>| !#[trigger] gives(t, key, id)
}

/// A run that was cancelled before it began ends as cancelled; one without a workspace is
/// refused; every other one looks for its runtime first.
pub proof fn law_run_begins_by_connecting(
    request: &RuntimeRequest,
    f: kun_cancel::RunFacts,
    cancelled: bool,
)
    ensures
        ({
            let (s, _, action) = kun_stream::begin(request, f, cancelled);
            &&& cancelled || f.requested() ==> s.phase == KunPhase::Ended && action
                == KunActionView::Finish(Err(error::ErrorView::Cancelled))
            &&& !cancelled && !f.requested() && !is_filled(request.canonical_cwd) ==> s.phase
                == KunPhase::Ended && action == KunActionView::Finish(
                Err(error::ErrorView::InvalidWorkspace),
            )
            &&& !cancelled && !f.requested() && is_filled(request.canonical_cwd) ==> s.phase
                == KunPhase::Connecting && action == KunActionView::Connect && !s.streamed && !s.over
                && s.frames.len() == 0
        }),
{
}

/// What fails ends the run with its error, at whatever point.
pub proof fn law_failure_ends_the_run(
    s: kun_stream::KunRunView,
    f: kun_cancel::RunFacts,
    request: &RuntimeRequest,
    e: error::ErrorView,
    cancelled: bool,
    expired: bool,
)
    ensures
        ({
            let (after, _, action) = kun_stream::step(
                s,
                f,
                request,
                KunInputView::Failed(e),
                cancelled,
                expired,
            );
            after.phase == KunPhase::Ended && action == KunActionView::Finish(Err(e))
        }),
{
}

/// The stages of a run follow each other: the catalog is read once the runtime was found,
/// the events are asked for once the run was opened, and a run succeeds once its end was
/// handed over. A turn that was interrupted ends the run as cancelled.
pub proof fn law_stages_follow_each_other(
    s: kun_stream::KunRunView,
    f: kun_cancel::RunFacts,
    request: &RuntimeRequest,
    cancelled: bool,
    expired: bool,
)
    ensures
        ({
            let (after, _, action) = kun_stream::step(
                s,
                f,
                request,
                KunInputView::Done,
                cancelled,
                expired,
            );
            &&& s.phase == KunPhase::Connecting && !cancelled ==> action
                == KunActionView::LoadCatalog && after.phase == KunPhase::Catalog
            &&& s.phase == KunPhase::Connecting && cancelled ==> action == KunActionView::Finish(
                Err(error::ErrorView::Cancelled),
            )
            &&& s.phase == KunPhase::Interrupting ==> action == KunActionView::Finish(
                Err(error::ErrorView::Cancelled),
            ) && after.phase == KunPhase::Ended
            &&& s.phase == KunPhase::Opening ==> after.phase == KunPhase::Subscribing && action
                == KunActionView::Subscribe(
                "/v1/threads/"@ + kun_frames::component(s.thread_id) + "/events?since_seq=0"@,
            )
            &&& s.phase == KunPhase::Closing ==> action == KunActionView::Finish(Ok(()))
                && after.phase == KunPhase::Ended
        }),
{
}

/// The thread that was created is the one whose id the answer gives; the turn is started in
/// it. An answer without an id is no answer, and a run that was cancelled meanwhile or is
/// out of time starts no turn.
pub proof fn law_turn_is_started_in_the_thread(
    s: kun_stream::KunRunView,
    f: kun_cancel::RunFacts,
    request: &RuntimeRequest,
    v: json::JsonTree,
    id: Seq<char>,
    cancelled: bool,
    expired: bool,
)
    requires
        s.phase == KunPhase::Thread,
    ensures
        ({
            let (after, g, action) = kun_stream::step(
                s,
                f,
                request,
                KunInputView::Answer(v),
                cancelled,
                expired,
            );
            let t = Some(v);
            let named = gives(t, "id"@, id) || gives_no(t, "id"@) && gives(t, "threadId"@, id)
                || gives_no(t, "id"@) && gives_no(t, "threadId"@) && gives(t, "thread_id"@, id);
            &&& expired ==> action == KunActionView::Finish(Err(error::ErrorView::Timeout))
            &&& !expired && gives_no(t, "id"@) && gives_no(t, "threadId"@) && gives_no(
                t,
                "thread_id"@,
            ) ==> action == KunActionView::Finish(
                Err(error::ErrorView::Protocol("kun_protocol_error"@)),
            )
            &&& !expired && named && f.cancellation is None && !cancelled ==> {
                &&& after.phase == KunPhase::Turn
                &&& after.thread_id == id
                &&& g.starting
                &&& action matches KunActionView::Post(path, body) && path == "/v1/threads/"@
                    + kun_frames::component(id) + "/turns"@
            }
            &&& !expired && named && f.cancellation is None && cancelled ==> action
                == KunActionView::Finish(Err(error::ErrorView::Cancelled))
            &&& !expired && named && f.requested() ==> action == KunActionView::Finish(
                Err(error::ErrorView::Cancelled),
            )
        }),
{
    lemma_identifiers(Some(v), "id"@);
    lemma_identifiers(Some(v), "threadId"@);
    lemma_identifiers(Some(v), "thread_id"@);
}

proof fn lemma_identifiers(t: Option<json::JsonTree>, key: Seq<char>)
    ensures
        match crate::codex::identifier(json::then_field(t, key)) {
            Some(id) => gives(t, key, id),
            None => gives_no(t, key),
        },
        forall|id: Seq<char>| #[trigger]
            gives(t, key, id) ==> crate::codex::identifier(json::then_field(t, key)) == Some(id),
{
}

/// The turn that was started is the one whose id the answer gives; the two events that
/// open the run are handed over with the ids of its thread and turn. One that was cancelled
/// meanwhile is interrupted instead.
pub proof fn law_started_turn_opens_the_run(
    s: kun_stream::KunRunView,
    f: kun_cancel::RunFacts,
    request: &RuntimeRequest,
    v: json::JsonTree,
    id: Seq<char>,
    cancelled: bool,
    expired: bool,
)
    requires
        s.phase == KunPhase::Turn,
    ensures
        ({
            let (after, g, action) = kun_stream::step(
                s,
                f,
                request,
                KunInputView::Answer(v),
                cancelled,
                expired,
            );
            let t = Some(v);
            let nested = json::field(v, "turn"@);
            let named = gives(t, "turnId"@, id) || gives_no(t, "turnId"@) && gives(t, "turn_id"@, id)
                || gives_no(t, "turnId"@) && gives_no(t, "turn_id"@) && gives(nested, "id"@, id)
                || gives_no(t, "turnId"@) && gives_no(t, "turn_id"@) && gives_no(nested, "id"@)
                && gives(t, "id"@, id);
            let turn = kun_cancel::TurnView { thread_id: s.thread_id, turn_id: id };
            &&& expired ==> action == KunActionView::Finish(Err(error::ErrorView::Timeout))
            &&& !expired && gives_no(t, "turnId"@) && gives_no(t, "turn_id"@) && gives_no(
                nested,
                "id"@,
            ) && gives_no(t, "id"@) ==> action == KunActionView::Finish(
                Err(error::ErrorView::Protocol("kun_protocol_error"@)),
            )
            &&& !expired && named && f.failure() is None ==> after.turn_id == id && g.turn == Some(
                turn,
            )
            &&& !expired && named && f.failure() is None && (cancelled || f.requested()) ==> action
                == KunActionView::Interrupt(turn) && after.phase == KunPhase::Interrupting
            &&& !expired && named && f.failure() is None && !cancelled && !f.requested() ==> {
                &&& after.phase == KunPhase::Opening
                &&& action matches KunActionView::Emit(events) && {
                    &&& events.len() == 2
                    &&& events[0].event_type == "connector.started"@
                    &&& events[1].event_type == "runtime.started"@
                    &&& forall|i: int|
                        0 <= i < 2 ==> (#[trigger] events[i]).runtime_id == "kun"@
                            && events[i].execution_run_id == request.execution_run_id@
                            && events[i].thread_id == Some(s.thread_id) && events[i].turn_id == Some(
                            id,
                        )
                }
            }
            &&& !expired && named ==> (f.failure() matches Some(e) ==> action
                == KunActionView::Finish(Err(e)))
        }),
{
    lemma_identifiers(Some(v), "turnId"@);
    lemma_identifiers(Some(v), "turn_id"@);
    lemma_identifiers(Some(v), "id"@);
    lemma_identifiers(json::field(v, "turn"@), "id"@);
}

/// A turn that completed without streaming is told by its text: one piece of output, then
/// its completion, in this order. Where there is no text, the run fails.
pub proof fn law_recovered_text_is_told_before_the_end(
    s: kun_stream::KunRunView,
    f: kun_cancel::RunFacts,
    request: &RuntimeRequest,
    v: json::JsonTree,
    cancelled: bool,
    expired: bool,
)
    requires
        s.phase == KunPhase::Recovering,
        s.index < u64::MAX - 2,
    ensures
        ({
            let (after, _, action) = kun_stream::step(
                s,
                f,
                request,
                KunInputView::Answer(v),
                cancelled,
                expired,
            );
            match kun_frames::recovered(v) {
                None => action == KunActionView::Finish(
                    Err(error::ErrorView::Protocol("kun_protocol_error"@)),
                ),
                Some(delta) => {
                    &&& after.phase == KunPhase::Closing
                    &&& after.index == s.index + 2
                    &&& action matches KunActionView::Emit(events) && {
                        &&& events.len() == 2
                        &&& events[0].event_type == "output.delta"@
                        &&& json::text_field(events[0].payload, "delta"@) == Some(
                            redact::redacted(delta),
                        )
                        &&& events[1].event_type == "execution.completed"@
                        &&& json::field(events[1].payload, "reason"@) is None
                        &&& forall|i: int|
                            0 <= i < 2 ==> (#[trigger] events[i]).execution_run_id
                                == request.execution_run_id@ && events[i].thread_id == Some(
                                s.thread_id,
                            ) && events[i].turn_id == Some(s.turn_id)
                    }
                },
            }
        }),
{
    reveal_with_fuel(json::member, 4);
    reveal_strlit("connectorId");
    reveal_strlit("modelId");
    reveal_strlit("reason");
    assert("connectorId"@.len() == 11);
    assert("modelId"@.len() == 7);
    assert("reason"@.len() == 6);
    if let Some(delta) = kun_frames::recovered(v) {
        let (after, _, action) = kun_stream::step(
            s,
            f,
            request,
            KunInputView::Answer(v),
            cancelled,
            expired,
        );
        let events = action->Emit_0;
        assert(events[0].event_type == "output.delta"@);
        assert(events[1].event_type == "execution.completed"@);
        assert(json::text_field(events[0].payload, "delta"@) == Some(redact::redacted(delta)));
        assert(json::field(events[1].payload, "reason"@) is None);
    }
}

/// Bytes that are no UTF-8, a frame that grows beyond 524288 bytes, and a stream that ends
/// within a character end the run with an error of the protocol.
pub proof fn law_broken_bytes_end_the_run(
    s: kun_stream::KunRunView,
    f: kun_cancel::RunFacts,
    request: &RuntimeRequest,
    bytes: Seq<u8>,
    cancelled: bool,
    expired: bool,
)
    requires
        s.phase == KunPhase::Reading,
    ensures
        decode::decode_step(s.bytes, bytes).0 is None ==> kun_stream::step(
            s,
            f,
            request,
            KunInputView::Bytes(bytes),
            cancelled,
            expired,
        ).2 == KunActionView::Finish(Err(error::ErrorView::Protocol("kun_protocol_error"@))),
        decode::decode_step(s.bytes, bytes).0 matches Some(chunk) ==> (text::byte_len(s.rest)
            + text::byte_len(chunk) > 524_288 ==> kun_stream::step(
            s,
            f,
            request,
            KunInputView::Bytes(bytes),
            cancelled,
            expired,
        ).2 == KunActionView::Finish(Err(error::ErrorView::Protocol("sse_frame_too_large"@)))),
        s.bytes.len() > 0 ==> kun_stream::step(
            s,
            f,
            request,
            KunInputView::EndOfStream,
            cancelled,
            expired,
        ).2 == KunActionView::Finish(Err(error::ErrorView::Protocol("kun_protocol_error"@))),
{
}

/// The paths of a thread and of a turn in it.
pub proof fn law_paths_name_thread_and_turn(thread: Seq<char>, turn: Seq<char>)
    ensures
        kun_frames::threads_path() == "/v1/threads"@,
        kun_frames::turns_path(thread) == "/v1/threads/"@ + kun_frames::component(thread)
            + "/turns"@,
        kun_frames::turn_path(thread, turn) == "/v1/threads/"@ + kun_frames::component(thread)
            + "/turns/"@ + kun_frames::component(turn),
        kun_frames::interrupt_path(thread, turn) == "/v1/threads/"@ + kun_frames::component(thread)
            + "/turns/"@ + kun_frames::component(turn) + "/interrupt"@,
{
}

/// The data of lines, from the first one on.
proof fn lemma_data_first(line: Seq<char>, rest: Seq<Seq<char>>)
    ensures
        sse::data_lines(seq![line] + rest) == (match sse::line_data(line) {
            Some(d) => seq![d],
            None => seq![],
        }) + sse::data_lines(rest),
    decreases rest.len(),
{
    let all = seq![line] + rest;
    if rest.len() == 0 {
        assert(all =~= seq![line]);
        assert(all.last() == line);
        assert(all.drop_last() =~= seq![]);
        assert(sse::data_lines(all.drop_last()) =~= seq![]);
        assert(sse::data_lines(rest) =~= seq![]);
        if let Some(d) = sse::line_data(line) {
            assert(sse::data_lines(all) =~= seq![d]);
        }
    } else {
        assert(all.last() == rest.last());
        assert(all.drop_last() =~= seq![line] + rest.drop_last());
        lemma_data_first(line, rest.drop_last());
        let head = match sse::line_data(line) {
            Some(d) => seq![d],
            None => Seq::<Seq<char>>::empty(),
        };
        assert(sse::data_lines(all) =~= head + sse::data_lines(rest));
    }
}

/// The data of a block are what stands behind "data:" in its lines, one line for each;
/// other lines do not count, and a block without such a line is no frame.
pub proof fn law_frame_holds_its_data(line: Seq<char>, rest: Seq<char>)
    requires
        !line.contains('\n'),
        line.len() > 0,
        line.last() != '\r',
    ensures
        !text::starts_with(line, "data:"@) ==> sse::block_data(line) is None && sse::block_data(
            line + seq!['\n'] + rest,
        ) == sse::block_data(rest),
        forall|x: Seq<char>|
            line == "data:"@ + x ==> {
                &&& sse::block_data(line) == Some(#[trigger] text::trim_start(x))
                &&& sse::block_data(line + seq!['\n'] + rest) == Some(
                    match sse::block_data(rest) {
                        Some(d) => text::trim_start(x) + "\n"@ + d,
                        None => text::trim_start(x),
                    },
                )
            },
{
    text_laws::law_lines_end_at_line_feeds(line, rest);
    let ls = text::lines(rest);
    lemma_data_first(line, seq![]);
    lemma_data_first(line, ls);
    assert(seq![line] + Seq::<Seq<char>>::empty() =~= seq![line]);
    assert(sse::data_lines(seq![]) =~= seq![]);
    let none = Seq::<Seq<char>>::empty();
    if !text::starts_with(line, "data:"@) {
        assert(none + sse::data_lines(ls) =~= sse::data_lines(ls));
    }
    assert forall|x: Seq<char>| line == "data:"@ + x implies {
        &&& sse::block_data(line) == Some(#[trigger] text::trim_start(x))
        &&& sse::block_data(line + seq!['\n'] + rest) == Some(
            match sse::block_data(rest) {
                Some(d) => text::trim_start(x) + "\n"@ + d,
                None => text::trim_start(x),
            },
        )
    } by {
        text_laws::law_texts_stand_in_texts(x, "data:"@, x);
        assert(line.subrange("data:"@.len() as int, line.len() as int) =~= x);
        let d = text::trim_start(x);
        assert(sse::line_data(line) == Some(d));
        assert(seq![d] + none =~= seq![d]);
        assert(text::join(seq![d], "\n"@) == d);
        let tail = sse::data_lines(ls);
        if tail.len() > 0 {
            text_laws::lemma_join_first(d, tail, "\n"@);
        } else {
            assert(seq![d] + tail =~= seq![d]);
        }
    }
}

/// A block ends at the first blank line, and is a frame if it holds data; the frames after
/// it are those of the rest. Text without a blank line waits.
pub proof fn law_frames_end_at_blank_lines(block: Seq<char>, rest: Seq<char>)
    requires
        !text::contains_text(block, "\n\n"@),
        block.len() > 0,
        block.last() != '\n',
    ensures
        sse::split_frames(block + "\n\n"@ + rest).1 == sse::split_frames(rest).1,
        sse::split_frames(block + "\n\n"@ + rest).0 == (match sse::block_data(block) {
            Some(d) => seq![d],
            None => seq![],
        }) + sse::split_frames(rest).0,
        !text::contains_text(block, "\r\n\r\n"@) ==> sse::split_frames(block) == (
            Seq::<Seq<char>>::empty(),
            block,
        ),
{
    reveal_strlit("\n\n");
    reveal_strlit("\r\n\r\n");
    let p = "\n\n"@;
    let s = block + p + rest;
    let n = block.len() as int;
    text_laws::law_texts_stand_in_texts(block, p, rest);
    assert(s.subrange(n, n + 2) =~= p);
    assert(text::occurs_at(s, p, n));
    text::lemma_find_from(s, p, 0);
    let i = text::find(s, p)->0;
    if i < n {
        assert(s.subrange(i, i + 2)[0] == '\n');
        assert(s.subrange(i, i + 2)[1] == '\n');
        if i + 2 <= n {
            assert(block.subrange(i, i + 2) =~= s.subrange(i, i + 2));
            assert(text::occurs_at(block, p, i));
        } else {
            assert(s[i] == block[n - 1]);
        }
    }
    assert(i == n);
    assert(s.take(n) =~= block);
    assert(s.skip(n + 2) =~= rest);
    let none = Seq::<Seq<char>>::empty();
    assert(none + sse::split_frames(rest).0 =~= sse::split_frames(rest).0);
    text::lemma_find_from(block, p, 0);
    text::lemma_find_from(block, "\r\n\r\n"@, 0);
    if text::find(block, p) is Some {
        assert(text::occurs_at(block, p, text::find(block, p)->0));
    }
    if text::find(block, "\r\n\r\n"@) is Some {
        assert(text::occurs_at(block, "\r\n\r\n"@, text::find(block, "\r\n\r\n"@)->0));
    }
}

/// The events of a turn are numbered one after the other: frames that hand over an event
/// count one up and give the event that number, and no other frames count.
pub proof fn law_events_of_a_turn_are_numbered(
    s: kun_stream::KunRunView,
    f: kun_cancel::RunFacts,
    request: &RuntimeRequest,
    cancelled: bool,
    expired: bool,
)
    requires
        s.index < i64::MAX,
    ensures
        ({
            let r = kun_stream::pump(s, f, request, cancelled, expired);
            &&& r.2 matches kun_stream::KunActionView::Emit(events) ==> events.len() == 1
                && events[0].timestamp_ms == s.index + 1 && r.0.index == s.index + 1
            &&& !(r.2 is Emit) ==> r.0.index == s.index
        }),
    decreases s.frames.len(),
{
    if s.frames.len() > 0 {
        let t = kun_stream::KunRunView { frames: s.frames.drop_first(), ..s };
        law_events_of_a_turn_are_numbered(t, f, request, cancelled, expired);
    }
}

/// A turn whose text was fetched in one piece hands over that piece and then its end, in
/// this order and numbered one after the other.
pub proof fn law_fetched_text_is_told_before_the_end(
    s: kun_stream::KunRunView,
    f: kun_cancel::RunFacts,
    request: &RuntimeRequest,
    v: json::JsonTree,
)
    requires
        s.index < i64::MAX - 1,
    ensures
        ({
            let r = kun_stream::on_recovered(s, f, request, v);
            &&& kun_frames::recovered(v) is None ==> !(r.2 is Emit)
            &&& kun_frames::recovered(v) is Some ==> (r.2 matches kun_stream::KunActionView::Emit(
                events,
            ) && events.len() == 2 && events[0].event_type == "output.delta"@
                && events[1].event_type == "execution.completed"@ && events[0].timestamp_ms
                == s.index + 1 && events[1].timestamp_ms == s.index + 2 && r.0.index == s.index + 2)
        }),
{
}

/// Where no line ends by a line feed alone, a block ends at the first blank line that ends
/// by carriage return and line feed, and the frames after it are those of the rest.
pub proof fn law_frames_end_at_returned_blank_lines(block: Seq<char>, rest: Seq<char>)
    requires
        !text::contains_text(block + "\r\n\r\n"@ + rest, "\n\n"@),
        !text::contains_text(block, "\r\n\r\n"@),
        block.len() > 0,
        block.last() != '\n',
    ensures
        sse::split_frames(block + "\r\n\r\n"@ + rest).1 == sse::split_frames(rest).1,
        sse::split_frames(block + "\r\n\r\n"@ + rest).0 == (match sse::block_data(block) {
            Some(d) => seq![d],
            None => seq![],
        }) + sse::split_frames(rest).0,
{
    reveal_strlit("\n\n");
    reveal_strlit("\r\n\r\n");
    let p = "\r\n\r\n"@;
    let s = block + p + rest;
    let n = block.len() as int;
    text_laws::law_texts_stand_in_texts(block, p, rest);
    assert(s.subrange(n, n + 4) =~= p);
    assert(text::occurs_at(s, p, n));
    text::lemma_find_from(s, p, 0);
    text::lemma_find_from(s, "\n\n"@, 0);
    if text::find(s, "\n\n"@) is Some {
        assert(text::occurs_at(s, "\n\n"@, text::find(s, "\n\n"@)->0));
    }
    let i = text::find(s, p)->0;
    if i < n {
        assert(s.subrange(i, i + 4)[0] == '\r');
        assert(s.subrange(i, i + 4)[1] == '\n');
        assert(s.subrange(i, i + 4)[2] == '\r');
        assert(s.subrange(i, i + 4)[3] == '\n');
        if i + 4 <= n {
            assert(block.subrange(i, i + 4) =~= s.subrange(i, i + 4));
            assert(text::occurs_at(block, p, i));
        } else {
            assert(s[n] == '\r' && s[n + 1] == '\n' && s[n + 2] == '\r');
            assert(s[n - 1] == block[n - 1]);
        }
    }
    assert(i == n);
    assert(s.take(n) =~= block);
    assert(s.skip(n + 4) =~= rest);
    let none = Seq::<Seq<char>>::empty();
    assert(none + sse::split_frames(rest).0 =~= sse::split_frames(rest).0);
}

/// A run is opened by two events of its thread and turn: that the connector has started, and
/// that the runtime has, which names where it runs.
pub proof fn law_run_is_opened_by_two_events(
    request: &RuntimeRequest,
    thread_id: Seq<char>,
    turn_id: Seq<char>,
)
    ensures
        ({
            let events = kun_stream::opening(request, thread_id, turn_id);
            &&& events.len() == 2
            &&& events[0].event_type == "connector.started"@
            &&& events[1].event_type == "runtime.started"@
            &&& json::text_field(events[1].payload, "source"@) == Some("kun-shared-runtime"@)
            &&& forall|i: int|
                0 <= i < 2 ==> (#[trigger] events[i]).runtime_id == "kun"@ && events[i].thread_id
                    == Some(thread_id) && events[i].turn_id == Some(turn_id)
                    && events[i].execution_run_id == request.execution_run_id@
                    && events[i].timestamp_ms == 0
        }),
{
    event_laws::law_opening_events_are_of_their_run(
        "kun"@,
        "kun-shared-runtime"@,
        request,
        Some(thread_id),
        Some(turn_id),
    );
}

/// A run begins before any thread or turn, with nothing read and nothing handed over.
pub proof fn law_run_begins_with_nothing_read(
    request: &RuntimeRequest,
    f: kun_cancel::RunFacts,
    cancelled: bool,
)
    ensures
        ({
            let s = kun_stream::begin(request, f, cancelled).0;
            &&& s.thread_id.len() == 0
            &&& s.turn_id.len() == 0
            &&& s.index == 2
            &&& !s.streamed
            &&& !s.over
            &&& s.frames.len() == 0
            &&& s.rest.len() == 0
            &&& s.bytes.len() == 0
        }),
{
}

} // verus!
