//! What holds of every step of a stream of events, and of the events that the runtimes
//! without a provider hand out.

use vstd::prelude::*;
use vstd::string::*;

use crate::adapters;
use crate::error;
use crate::event;
use crate::event::RuntimeRequest;
use crate::fixture;
use crate::json;
use crate::stream;
use crate::stream::{CloseView, StreamAnswer, StreamOp};
use crate::text;

verus! {

/// An event that ends a run.
pub open spec fn ends(e: event::EventView) -> bool {
    e.event_type == "execution.completed"@ || e.event_type == "execution.failed"@ || e.event_type
        == "execution.cancelled"@ || e.event_type == "execution.interrupted"@
}

/// An open stream takes an event at its end while it has room for it, and is closed by one
/// that ends the run; a full one takes none and says how much room it has.
pub proof fn law_open_stream_takes_events(s: stream::StreamView, e: event::EventView)
    requires
        !s.cancelled,
        s.closed is None,
        s.capacity <= usize::MAX,
    ensures
        ({
            let (after, answer) = s.step(StreamOp::Push(e));
            &&& s.queue.len() != s.capacity ==> {
                &&& answer == StreamAnswer::Done
                &&& after.queue == s.queue.push(e)
                &&& after.capacity == s.capacity
                &&& !after.cancelled
                &&& ends(e) ==> after.closed == Some(CloseView::Terminal)
                &&& !ends(e) ==> after.closed is None
            }
            &&& s.queue.len() == s.capacity ==> after == s && answer == StreamAnswer::Error(
                error::ErrorView::StreamBufferFull(s.capacity as usize),
            )
        }),
{
}

/// A stream that was cancelled, has had its last event, or was closed by an error takes
/// nothing more, and says which.
pub proof fn law_closed_stream_takes_nothing(
    s: stream::StreamView,
    e: event::EventView,
    x: error::ErrorView,
)
    ensures
        s.cancelled ==> s.step(StreamOp::Push(e)) == (
            s,
            StreamAnswer::Error(error::ErrorView::Cancelled),
        ) && s.step(StreamOp::Fail(x)) == (s, StreamAnswer::Error(error::ErrorView::Cancelled))
            && s.step(StreamOp::Finish) == (s, StreamAnswer::Error(error::ErrorView::Cancelled))
            && s.step(StreamOp::CloseTransport) == (
            s,
            StreamAnswer::Error(error::ErrorView::Cancelled),
        ),
        !s.cancelled && s.closed == Some(CloseView::Terminal) ==> s.step(StreamOp::Push(e)) == (
            s,
            StreamAnswer::Error(error::ErrorView::StreamTerminal),
        ) && s.step(StreamOp::Finish) == (s, StreamAnswer::Done) && s.step(
            StreamOp::CloseTransport,
        ) == (s, StreamAnswer::Done) && s.step(StreamOp::Cancel) == (
            s,
            StreamAnswer::Error(error::ErrorView::StreamTerminal),
        ),
        !s.cancelled && s.closed == Some(CloseView::Error(x)) ==> s.step(StreamOp::Push(e)) == (
            s,
            StreamAnswer::Error(x),
        ) && s.step(StreamOp::Finish) == (s, StreamAnswer::Error(x)) && s.step(StreamOp::Cancel) == (
            s,
            StreamAnswer::Error(x),
        ),
{
}

/// A stream that ends without an event that ends the run says so: to finish it then is an
/// error, and so it is to read on.
pub proof fn law_missing_end_is_an_error(s: stream::StreamView, x: error::ErrorView)
    requires
        !s.cancelled,
        s.closed is None,
    ensures
        s.step(StreamOp::Finish).1 == StreamAnswer::Error(error::ErrorView::StreamTerminalMissing),
        s.step(StreamOp::Finish).0.closed == Some(
            CloseView::Error(error::ErrorView::StreamTerminalMissing),
        ),
        s.step(StreamOp::CloseTransport).1 == StreamAnswer::Done,
        s.step(StreamOp::CloseTransport).0.closed == Some(
            CloseView::Error(error::ErrorView::TransportClosed),
        ),
        s.step(StreamOp::Fail(x)).1 == StreamAnswer::Error(x),
        s.step(StreamOp::Fail(x)).0.closed == Some(CloseView::Error(x)),
        s.step(StreamOp::Finish).0.queue == s.queue,
        s.step(StreamOp::CloseTransport).0.queue == s.queue,
        s.step(StreamOp::Fail(x)).0.queue == s.queue,
        s.queue.len() == 0 ==> s.step(StreamOp::Fail(x)).0.step(StreamOp::Next).1
            == StreamAnswer::Error(x),
        s.queue.len() == 0 ==> s.step(StreamOp::CloseTransport).0.step(StreamOp::Next).1
            == StreamAnswer::Error(error::ErrorView::TransportClosed),
{
}

/// The events come out in the order in which they went in; an empty open stream has nothing
/// to hand out, and one that was cancelled says so.
pub proof fn law_first_event_comes_out_first(s: stream::StreamView)
    ensures
        s.queue.len() > 0 ==> s.step(StreamOp::Next).1 == StreamAnswer::Event(s.queue[0]) && s.step(
            StreamOp::Next,
        ).0.queue == s.queue.drop_first() && s.step(StreamOp::Next).0.closed == s.closed,
        s.queue.len() == 0 && s.cancelled ==> s.step(StreamOp::Next) == (
            s,
            StreamAnswer::Error(error::ErrorView::Cancelled),
        ),
        s.queue.len() == 0 && !s.cancelled && (s.closed is None || s.closed == Some(
            CloseView::Terminal,
        )) ==> s.step(StreamOp::Next) == (s, StreamAnswer::Nothing),
{
}

/// To cancel an open stream is to empty it; what was in it is not handed out any more.
pub proof fn law_cancelling_empties_the_stream(s: stream::StreamView)
    requires
        s.closed is None,
    ensures
        s.step(StreamOp::Cancel).1 == StreamAnswer::Done,
        s.step(StreamOp::Cancel).0.cancelled,
        s.step(StreamOp::Cancel).0.queue.len() == 0,
        s.step(StreamOp::Cancel).0.capacity == s.capacity,
        s.step(StreamOp::Cancel).0.step(StreamOp::Next).1 == StreamAnswer::Error(
            error::ErrorView::Cancelled,
        ),
{
}

/// A new stream is open and empty, and has the room that was asked for.
pub proof fn law_new_stream_is_empty(capacity: nat)
    ensures
        ({
            let s = stream::fresh_stream(capacity);
            s.capacity == capacity && s.queue.len() == 0 && !s.cancelled && s.closed is None
        }),
{
}

/// The mock runtime says that it has begun, hands over its pieces in their order, and says
/// that it is done; all of it of the run that it was asked for.
pub proof fn law_mock_hands_over_its_pieces(
    request: &RuntimeRequest,
    chunks: Seq<Seq<char>>,
    key: Seq<char>,
    value: Seq<char>,
)
    requires
        chunks.len() < i64::MAX,
    ensures
        ({
            let n = chunks.len() as int;
            let events = adapters::mock_events(
                request,
                chunks,
                adapters::mock_completed(request, n, key, value),
            );
            &&& events.len() == n + 2
            &&& events[0].event_type == "runtime.started"@
            &&& json::text_field(events[0].payload, "manifestId"@) == Some(
                request.context_manifest_id@,
            )
            &&& forall|i: int|
                0 <= i < n ==> (#[trigger] events[i + 1]).event_type == "output.delta"@
                    && json::text_field(events[i + 1].payload, "delta"@) == Some(chunks[i])
                    && events[i + 1].timestamp_ms == i + 1
            &&& events[n + 1].event_type == "execution.completed"@
            &&& json::text_field(events[n + 1].payload, key) == Some(value)
            &&& events[n + 1].timestamp_ms == n + 1
            &&& forall|i: int|
                0 <= i < n + 2 ==> (#[trigger] events[i]).execution_run_id
                    == request.execution_run_id@ && events[i].runtime_id == "mock"@
        }),
{
    reveal_with_fuel(json::member, 2);
    let n = chunks.len() as int;
    let events = adapters::mock_events(
        request,
        chunks,
        adapters::mock_completed(request, n, key, value),
    );
    assert forall|i: int| 0 <= i < n implies (#[trigger] events[i + 1]).event_type
        == "output.delta"@ && json::text_field(events[i + 1].payload, "delta"@) == Some(chunks[i])
        && events[i + 1].timestamp_ms == i + 1 by {
        assert(events[i + 1] == adapters::mock_delta(request, i, chunks[i]));
    }
    assert forall|i: int| 0 <= i < n + 2 implies (#[trigger] events[i]).execution_run_id
        == request.execution_run_id@ && events[i].runtime_id == "mock"@ by {
        if 0 < i < n + 1 {
            assert(events[i] == adapters::mock_delta(request, i - 1, chunks[i - 1]));
        }
    }
}

/// The script of the ACP mock begins, hands over its pieces in their order, or one of its
/// own where it was given none, and is completed.
pub proof fn law_acp_mock_hands_over_its_pieces(
    request: &RuntimeRequest,
    given: Seq<Seq<char>>,
)
    requires
        given.len() < i64::MAX,
    ensures
        given.len() == 0 ==> adapters::acp_chunks(given) == seq!["acp mock output"@],
        given.len() > 0 ==> adapters::acp_chunks(given) == given,
        ({
            let n = given.len() as int;
            let events = adapters::acp_script(request, given);
            &&& events.len() == n + 2
            &&& events[0].event_type == "runtime.started"@
            &&& forall|i: int|
                0 <= i < n ==> (#[trigger] events[i + 1]).event_type == "output.delta"@
                    && json::text_field(events[i + 1].payload, "delta"@) == Some(given[i])
            &&& events[n + 1].event_type == "execution.completed"@
            &&& forall|i: int|
                0 <= i < n + 2 ==> (#[trigger] events[i]).execution_run_id
                    == request.execution_run_id@ && events[i].runtime_id == "acp-mock"@
        }),
{
    reveal_with_fuel(json::member, 2);
    let n = given.len() as int;
    let events = adapters::acp_script(request, given);
    assert forall|i: int| 0 <= i < n implies (#[trigger] events[i + 1]).event_type
        == "output.delta"@ && json::text_field(events[i + 1].payload, "delta"@) == Some(
        given[i],
    ) by {
        assert(events[i + 1] == adapters::acp_script_delta(request, i, given[i]));
    }
    assert forall|i: int| 0 <= i < n + 2 implies (#[trigger] events[i]).execution_run_id
        == request.execution_run_id@ && events[i].runtime_id == "acp-mock"@ by {
        if 0 < i < n + 1 {
            assert(events[i] == adapters::acp_script_delta(request, i - 1, given[i - 1]));
        }
    }
}

/// Every event of a script has an id that names its run, and its place where there are more
/// of its sort; all but the first are of the one turn of the script's own thread.
pub proof fn law_scripted_events_have_ids(
    request: &RuntimeRequest,
    index: nat,
    other: nat,
    chunk: Seq<char>,
    key: Seq<char>,
    value: Seq<char>,
)
    ensures
        ({
            let run = request.execution_run_id@;
            let place = run + seq!['-'] + text::decimal(index);
            let d = adapters::mock_delta(request, index as int, chunk);
            let c = adapters::mock_completed(request, index as int, key, value);
            let a = adapters::acp_script_delta(request, index as int, chunk);
            let e = fixture::acp_completed(request, 0);
            &&& d.event_id == "output-"@ + place
            &&& c.event_id == "completed-"@ + run
            &&& a.event_id == "acp-output-"@ + place
            &&& e.event_id == "acp-completed-"@ + run
            &&& d.thread_id == Some("mock-thread-"@ + run)
            &&& c.thread_id == d.thread_id
            &&& a.thread_id == Some("acp-session-"@ + run)
            &&& e.thread_id == a.thread_id
            &&& d.turn_id == Some("turn-1"@)
            &&& c.turn_id == d.turn_id
            &&& a.turn_id == d.turn_id
            &&& e.turn_id == d.turn_id
            &&& d.sequence == 0 && c.sequence == 0 && a.sequence == 0 && e.sequence == 0
            &&& json::text_field(e.payload, "source"@) == Some("acp-fixture"@)
        }),
        adapters::mock_delta(request, index as int, chunk).event_id == adapters::mock_delta(
            request,
            other as int,
            chunk,
        ).event_id ==> index == other,
        ({
            let s = fixture::started(key, request, value);
            &&& s.event_id == "runtime-started-"@ + request.execution_run_id@
            &&& s.event_type == "runtime.started"@
            &&& s.runtime_id == key
            &&& s.thread_id is None
            &&& s.timestamp_ms == 0
            &&& json::text_field(s.payload, "manifestId"@) == Some(request.context_manifest_id@)
            &&& json::text_field(s.payload, "source"@) == Some(value)
        }),
        adapters::acp_script(request, seq![])[0] == fixture::started(
            "acp-mock"@,
            request,
            "acp-fixture"@,
        ),
{
    reveal_strlit("-");
    reveal_strlit("manifestId");
    reveal_strlit("source");
    assert("-"@ =~= seq!['-']);
    reveal_with_fuel(json::member, 3);
    assert("source"@.len() != "manifestId"@.len());
    let started = fixture::started(key, request, value);
    assert(json::field(started.payload, "manifestId"@) == Some(
        json::JsonTree::Text(request.context_manifest_id@),
    ));
    assert(json::field(started.payload, "source"@) == Some(json::JsonTree::Text(value)));
    let run = request.execution_run_id@;
    let place = run + seq!['-'] + text::decimal(index);
    assert(fixture::numbered("output-"@, request, index) =~= "output-"@ + place);
    assert(fixture::numbered("acp-output-"@, request, index) =~= "acp-output-"@ + place);
    let front = "output-"@ + run + "-"@;
    let m = fixture::numbered("output-"@, request, index);
    let n = fixture::numbered("output-"@, request, other);
    if m == n {
        assert(m.skip(front.len() as int) =~= text::decimal(index));
        assert(n.skip(front.len() as int) =~= text::decimal(other));
        text::law_decimal_reads_back(index);
        text::law_decimal_reads_back(other);
    }
}

} // verus!
