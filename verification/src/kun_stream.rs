//! A run of a Kun runtime: what is done in which order, what its frames come to,
//! and when the run ends.

use std::collections::VecDeque;
use vstd::prelude::*;
use vstd::string::*;

use crate::catalog;
use crate::catalog::RuntimeModelCatalog;
use crate::codex;
use crate::decode;
use crate::decode::IncrementalUtf8Decoder;
use crate::error;
use crate::error::{RuntimeError, KUN_MODEL_UNAVAILABLE, KUN_PROVIDER_AUTHENTICATION_FAILED};
use crate::error::KUN_SHARED_RUNTIME_UNAVAILABLE;
use crate::event;
use crate::event::{
    connector_started_event, output_delta_event, runtime_started_event, terminal_event,
    RuntimeEvent, RuntimeRequest,
};
use crate::http::MAX_TRANSPORT_BODY_BYTES;
use crate::json;
use crate::json::Json;
use crate::kun_cancel;
use crate::kun_cancel::{BeforeTurnStart, KunTransportState, KunTurn};
use crate::kun_frames;
use crate::kun_frames::{
    catalog_offers, events_path_text, meaning_of_frame, recover_assistant_text, thread_body_json,
    thread_id_in, turn_body_json, turn_id_in, turn_path_text, turns_path_text, KunFrame,
};
use crate::sse;
use crate::sse::{SseFrame, SseParser};
use crate::text;

verus! {

/// Where a run stands.
#[derive(Clone, Copy, Debug, PartialEq, Eq, Structural)]
pub enum KunPhase {
    /// The runtime is being found.
    Connecting,
    /// The catalog is being read.
    Catalog,
    /// A thread is being created.
    Thread,
    /// A turn is being started.
    Turn,
    /// The turn is being interrupted.
    Interrupting,
    /// The events that open the run are being handed over.
    Opening,
    /// The events of the thread are being asked for.
    Subscribing,
    /// Frames are being read.
    Reading,
    /// A piece of output is being handed over.
    Emitting,
    /// The text of a turn that streamed none is being fetched.
    Recovering,
    /// The terminal event is being handed over.
    Closing,
    Ended,
}

/// What came of the action before.
#[derive(Debug)]
pub enum KunInput {
    Failed(RuntimeError),
    Done,
    Catalog(RuntimeModelCatalog),
    Answer(Json),
    Bytes(Vec<u8>),
    Silence,
    EndOfStream,
}

pub enum KunInputView {
    Failed(error::ErrorView),
    Done,
    Catalog(catalog::CatalogView),
    Answer(json::JsonTree),
    Bytes(Seq<u8>),
    Silence,
    EndOfStream,
}

impl View for KunInput {
    type V = KunInputView;

    open spec fn view(&self) -> KunInputView {
        match self {
            KunInput::Failed(e) => KunInputView::Failed(e@),
            KunInput::Done => KunInputView::Done,
            KunInput::Catalog(c) => KunInputView::Catalog(c@),
            KunInput::Answer(v) => KunInputView::Answer(v.tree()),
            KunInput::Bytes(b) => KunInputView::Bytes(b@),
            KunInput::Silence => KunInputView::Silence,
            KunInput::EndOfStream => KunInputView::EndOfStream,
        }
    }
}

/// What is to be done next.
#[derive(Debug)]
pub enum KunAction {
    /// Find the runtime and check that it is the right one.
    Connect,
    LoadCatalog,
    /// Send a body to a path and wait for the answer.
    Post { path: String, body: Json },
    /// Hand over events.
    Emit(Vec<RuntimeEvent>),
    /// Ask for the events under a path.
    Subscribe { path: String },
    /// Read bytes, for a while.
    Read,
    /// Have the turn interrupted.
    Interrupt(KunTurn),
    /// Ask for the turn under a path.
    Fetch { path: String },
    Finish(Result<(), RuntimeError>),
}

pub enum KunActionView {
    Connect,
    LoadCatalog,
    Post(Seq<char>, json::JsonTree),
    Emit(Seq<event::EventView>),
    Subscribe(Seq<char>),
    Read,
    Interrupt(kun_cancel::TurnView),
    Fetch(Seq<char>),
    Finish(Result<(), error::ErrorView>),
}

impl View for KunAction {
    type V = KunActionView;

    open spec fn view(&self) -> KunActionView {
        match self {
            KunAction::Connect => KunActionView::Connect,
            KunAction::LoadCatalog => KunActionView::LoadCatalog,
            KunAction::Post { path, body } => KunActionView::Post(path@, body.tree()),
            KunAction::Emit(events) => KunActionView::Emit(event::event_views(events@)),
            KunAction::Subscribe { path } => KunActionView::Subscribe(path@),
            KunAction::Read => KunActionView::Read,
            KunAction::Interrupt(turn) => KunActionView::Interrupt(turn@),
            KunAction::Fetch { path } => KunActionView::Fetch(path@),
            KunAction::Finish(r) => KunActionView::Finish(kun_cancel::result_view(*r)),
        }
    }
}

/// The state of a run.
#[verifier::ext_equal]
pub struct KunRunView {
    pub phase: KunPhase,
    pub thread_id: Seq<char>,
    pub turn_id: Seq<char>,
    pub index: u64,
    /// Output was streamed.
    pub streamed: bool,
    /// The frames that are still to be looked at.
    pub frames: Seq<Seq<char>>,
    /// The text behind the last frame.
    pub rest: Seq<char>,
    /// The bytes of a character that is not whole.
    pub bytes: Seq<u8>,
    /// The stream of bytes is over.
    pub over: bool,
}

/// A state, what is known of the run, and what is to be done.
pub type KunStep = (KunRunView, kun_cancel::RunFacts, KunActionView);

/// The end of a run that has left no trace.
pub open spec fn quit(
    s: KunRunView,
    f: kun_cancel::RunFacts,
    result: Result<(), error::ErrorView>,
) -> KunStep {
    (KunRunView { phase: KunPhase::Ended, ..s }, f, KunActionView::Finish(result))
}

/// The end of a run; what is known of it is dropped.
pub open spec fn finished(
    s: KunRunView,
    f: kun_cancel::RunFacts,
    result: Result<(), error::ErrorView>,
) -> KunStep {
    (KunRunView { phase: KunPhase::Ended, ..s }, f.cleared(), KunActionView::Finish(result))
}

/// Before each read: a failed cancellation ends the run with its error, a
/// cancelled run is interrupted, and a run whose time is over ends.
pub open spec fn listen(
    s: KunRunView,
    f: kun_cancel::RunFacts,
    cancelled: bool,
    expired: bool,
) -> KunStep {
    match f.failure() {
        Some(e) => finished(s, f, Err(e)),
        None => if cancelled || f.requested() {
            match f.turn {
                Some(turn) => (
                    KunRunView { phase: KunPhase::Interrupting, ..s },
                    f,
                    KunActionView::Interrupt(turn),
                ),
                None => finished(
                    s,
                    f,
                    Err(error::ErrorView::Transport(KUN_SHARED_RUNTIME_UNAVAILABLE@)),
                ),
            }
        } else if expired {
            finished(s, f, Err(error::ErrorView::Timeout))
        } else {
            (KunRunView { phase: KunPhase::Reading, ..s }, f, KunActionView::Read)
        },
    }
}

pub open spec fn next_index(i: u64) -> u64 {
    (i + 1) as u64
}

/// The terminal event of a run.
pub open spec fn ending(
    s: KunRunView,
    request: &RuntimeRequest,
    event_type: Seq<char>,
    index: u64,
    reason: Option<Seq<char>>,
) -> event::EventView {
    event::terminal(
        "kun"@,
        event_type,
        request,
        Some(s.thread_id),
        Some(s.turn_id),
        index,
        reason,
    )
}

/// A piece of output of a run.
pub open spec fn piece(
    s: KunRunView,
    request: &RuntimeRequest,
    index: u64,
    delta: Seq<char>,
) -> event::EventView {
    event::output_delta("kun"@, request, Some(s.thread_id), Some(s.turn_id), index, delta)
}

/// Hands over a terminal event.
pub open spec fn close(
    s: KunRunView,
    f: kun_cancel::RunFacts,
    request: &RuntimeRequest,
    event_type: Seq<char>,
    reason: Option<Seq<char>>,
) -> KunStep {
    let index = next_index(s.index);
    (
        KunRunView { phase: KunPhase::Closing, index, ..s },
        f,
        KunActionView::Emit(seq![ending(s, request, event_type, index, reason)]),
    )
}

/// Looks at the frames that have come, up to the first one that calls for
/// something.
pub open spec fn pump(
    s: KunRunView,
    f: kun_cancel::RunFacts,
    request: &RuntimeRequest,
    cancelled: bool,
    expired: bool,
) -> KunStep
    decreases s.frames.len(),
{
    if s.frames.len() == 0 {
        if s.over {
            finished(s, f, Err(error::ErrorView::StreamTerminalMissing))
        } else {
            listen(s, f, cancelled, expired)
        }
    } else {
        let t = KunRunView { frames: s.frames.drop_first(), ..s };
        match kun_frames::frame_meaning(s.frames[0], s.turn_id) {
            kun_frames::FrameView::Other => pump(t, f, request, cancelled, expired),
            kun_frames::FrameView::Broken => finished(
                t,
                f,
                Err(error::ErrorView::Protocol("kun_protocol_error"@)),
            ),
            kun_frames::FrameView::Refused => finished(
                t,
                f,
                Err(error::ErrorView::Provider(KUN_PROVIDER_AUTHENTICATION_FAILED@)),
            ),
            kun_frames::FrameView::Delta(delta) => (
                KunRunView {
                    phase: KunPhase::Emitting,
                    index: next_index(s.index),
                    streamed: true,
                    ..t
                },
                f,
                KunActionView::Emit(seq![piece(s, request, next_index(s.index), delta)]),
            ),
            kun_frames::FrameView::Completed => if s.streamed {
                close(t, f, request, "execution.completed"@, None)
            } else {
                (
                    KunRunView { phase: KunPhase::Recovering, ..t },
                    f,
                    KunActionView::Fetch(kun_frames::turn_path(s.thread_id, s.turn_id)),
                )
            },
            kun_frames::FrameView::Cancelled => close(
                t,
                f,
                request,
                "execution.cancelled"@,
                Some("provider_cancelled"@),
            ),
            kun_frames::FrameView::Failed => close(
                t,
                f,
                request,
                "execution.failed"@,
                Some("provider_error"@),
            ),
        }
    }
}

/// The events that open a run.
pub open spec fn opening(
    request: &RuntimeRequest,
    thread_id: Seq<char>,
    turn_id: Seq<char>,
) -> Seq<event::EventView> {
    seq![
        event::connector_started("kun"@, request, Some(thread_id), Some(turn_id)),
        event::runtime_started_turn(
            "kun"@,
            "kun-shared-runtime"@,
            request,
            Some(thread_id),
            Some(turn_id),
        ),
    ]
}

/// The first state of a run, and the first action.
pub open spec fn begin(request: &RuntimeRequest, f: kun_cancel::RunFacts, cancelled: bool) -> KunStep {
    let s = KunRunView {
        phase: KunPhase::Connecting,
        thread_id: seq![],
        turn_id: seq![],
        index: 2,
        streamed: false,
        frames: seq![],
        rest: seq![],
        bytes: seq![],
        over: false,
    };
    if cancelled || f.requested() {
        finished(s, f, Err(error::ErrorView::Cancelled))
    } else if codex::filled(request.canonical_cwd) is None {
        quit(s, f, Err(error::ErrorView::InvalidWorkspace))
    } else {
        (s, f, KunActionView::Connect)
    }
}

/// A run after the catalog.
pub open spec fn on_catalog(
    s: KunRunView,
    f: kun_cancel::RunFacts,
    request: &RuntimeRequest,
    c: catalog::CatalogView,
    cancelled: bool,
) -> KunStep {
    if cancelled {
        finished(s, f, Err(error::ErrorView::Cancelled))
    } else {
        match (codex::filled(request.canonical_cwd), codex::filled(request.model_id)) {
            (Some(workspace), Some(model)) => if kun_frames::offers(c, model) {
                (
                    KunRunView { phase: KunPhase::Thread, ..s },
                    f,
                    KunActionView::Post(
                        kun_frames::threads_path(),
                        kun_frames::thread_body(workspace, model, request.workspace_access),
                    ),
                )
            } else {
                quit(s, f, Err(error::ErrorView::Protocol(KUN_MODEL_UNAVAILABLE@)))
            },
            _ => quit(s, f, Err(error::ErrorView::Protocol(KUN_MODEL_UNAVAILABLE@))),
        }
    }
}

/// A run after its thread was created. Whether the turn is started is decided
/// together with taking note of it.
pub open spec fn on_thread(
    s: KunRunView,
    f: kun_cancel::RunFacts,
    request: &RuntimeRequest,
    v: json::JsonTree,
    cancelled: bool,
    expired: bool,
) -> KunStep {
    if expired {
        quit(s, f, Err(error::ErrorView::Timeout))
    } else {
        match kun_frames::thread_id_of(v) {
            None => quit(s, f, Err(error::ErrorView::Protocol("kun_protocol_error"@))),
            Some(thread_id) => {
                let (g, decision) = f.before_turn(cancelled);
                match decision {
                    kun_cancel::BeforeTurnView::Cancelled => finished(
                        s,
                        g,
                        Err(error::ErrorView::Cancelled),
                    ),
                    kun_cancel::BeforeTurnView::Failed(e) => finished(s, g, Err(e)),
                    kun_cancel::BeforeTurnView::Start => (
                        KunRunView { phase: KunPhase::Turn, thread_id, ..s },
                        g,
                        KunActionView::Post(
                            kun_frames::turns_path(thread_id),
                            kun_frames::turn_body(
                                request.rendered_context@,
                                match codex::filled(request.model_id) {
                                    Some(model) => model,
                                    None => seq![],
                                },
                            ),
                        ),
                    ),
                }
            },
        }
    }
}

/// A run after its turn was started. A cancellation that came meanwhile is served
/// before any event is handed over.
pub open spec fn on_turn(
    s: KunRunView,
    f: kun_cancel::RunFacts,
    request: &RuntimeRequest,
    v: json::JsonTree,
    cancelled: bool,
    expired: bool,
) -> KunStep {
    if expired {
        finished(s, f, Err(error::ErrorView::Timeout))
    } else {
        match kun_frames::turn_id_of(v) {
            None => finished(s, f, Err(error::ErrorView::Protocol("kun_protocol_error"@))),
            Some(turn_id) => {
                let turn = kun_cancel::TurnView { thread_id: s.thread_id, turn_id };
                let g = f.started(turn);
                let t = KunRunView { turn_id, ..s };
                match g.failure() {
                    Some(e) => finished(t, g, Err(e)),
                    None => if cancelled || g.requested() {
                        (
                            KunRunView { phase: KunPhase::Interrupting, ..t },
                            g,
                            KunActionView::Interrupt(turn),
                        )
                    } else {
                        (
                            KunRunView { phase: KunPhase::Opening, ..t },
                            g,
                            KunActionView::Emit(opening(request, s.thread_id, turn_id)),
                        )
                    },
                }
            },
        }
    }
}

/// A run after bytes of its stream.
pub open spec fn on_bytes(
    s: KunRunView,
    f: kun_cancel::RunFacts,
    request: &RuntimeRequest,
    bytes: Seq<u8>,
    cancelled: bool,
    expired: bool,
) -> KunStep {
    let (decoded, pending) = decode::decode_step(s.bytes, bytes);
    let t = KunRunView { bytes: pending, ..s };
    match decoded {
        None => finished(t, f, Err(error::ErrorView::Protocol("kun_protocol_error"@))),
        Some(chunk) => if text::byte_len(s.rest) + text::byte_len(chunk)
            > MAX_TRANSPORT_BODY_BYTES {
            finished(
                KunRunView { rest: seq![], ..t },
                f,
                Err(error::ErrorView::Protocol("sse_frame_too_large"@)),
            )
        } else {
            let (frames, rest) = sse::split_frames(s.rest + chunk);
            pump(KunRunView { frames: s.frames + frames, rest, ..t }, f, request, cancelled, expired)
        },
    }
}

/// A run after the end of its stream.
pub open spec fn on_end(
    s: KunRunView,
    f: kun_cancel::RunFacts,
    request: &RuntimeRequest,
    cancelled: bool,
    expired: bool,
) -> KunStep {
    if s.bytes.len() > 0 {
        finished(s, f, Err(error::ErrorView::Protocol("kun_protocol_error"@)))
    } else {
        let last = match sse::block_data(s.rest) {
            Some(data) => seq![data],
            None => seq![],
        };
        pump(
            KunRunView { frames: s.frames + last, rest: seq![], over: true, ..s },
            f,
            request,
            cancelled,
            expired,
        )
    }
}

/// A run after a turn whose text was not streamed was fetched.
pub open spec fn on_recovered(
    s: KunRunView,
    f: kun_cancel::RunFacts,
    request: &RuntimeRequest,
    v: json::JsonTree,
) -> KunStep {
    match kun_frames::recovered(v) {
        None => finished(s, f, Err(error::ErrorView::Protocol("kun_protocol_error"@))),
        Some(delta) => {
            let first = next_index(s.index);
            let second = next_index(first);
            (
                KunRunView { phase: KunPhase::Closing, index: second, ..s },
                f,
                KunActionView::Emit(
                    seq![
                        piece(s, request, first, delta),
                        ending(s, request, "execution.completed"@, second, None),
                    ],
                ),
            )
        },
    }
}

/// Whether an input can follow in a state.
pub open spec fn fits(s: KunRunView, input: KunInputView) -> bool {
    match s.phase {
        KunPhase::Connecting => input is Failed || input is Done,
        KunPhase::Catalog => input is Failed || input is Catalog,
        KunPhase::Thread => input is Failed || input is Answer,
        KunPhase::Turn => input is Failed || input is Answer,
        KunPhase::Interrupting => input is Failed || input is Done,
        KunPhase::Opening => input is Failed || input is Done,
        KunPhase::Subscribing => input is Failed || input is Done,
        KunPhase::Reading => input is Failed || input is Bytes || input is Silence
            || input is EndOfStream,
        KunPhase::Emitting => input is Failed || input is Done,
        KunPhase::Recovering => input is Failed || input is Answer,
        KunPhase::Closing => input is Failed || input is Done,
        KunPhase::Ended => false,
    }
}

/// Whether a run has left a trace that its end has to drop.
pub open spec fn is_known(phase: KunPhase) -> bool {
    phase != KunPhase::Connecting && phase != KunPhase::Catalog && phase != KunPhase::Thread
}

/// One step of a run.
pub open spec fn step(
    s: KunRunView,
    f: kun_cancel::RunFacts,
    request: &RuntimeRequest,
    input: KunInputView,
    cancelled: bool,
    expired: bool,
) -> KunStep {
    match input {
        KunInputView::Failed(e) => if is_known(s.phase) {
            finished(s, f, Err(e))
        } else {
            quit(s, f, Err(e))
        },
        KunInputView::Done => match s.phase {
            KunPhase::Connecting => if cancelled {
                finished(s, f, Err(error::ErrorView::Cancelled))
            } else {
                (KunRunView { phase: KunPhase::Catalog, ..s }, f, KunActionView::LoadCatalog)
            },
            KunPhase::Interrupting => finished(s, f, Err(error::ErrorView::Cancelled)),
            KunPhase::Opening => (
                KunRunView { phase: KunPhase::Subscribing, ..s },
                f,
                KunActionView::Subscribe(kun_frames::events_path(s.thread_id)),
            ),
            KunPhase::Subscribing => listen(s, f, cancelled, expired),
            KunPhase::Closing => finished(s, f, Ok(())),
            _ => pump(s, f, request, cancelled, expired),
        },
        KunInputView::Catalog(c) => on_catalog(s, f, request, c, cancelled),
        KunInputView::Answer(v) => match s.phase {
            KunPhase::Thread => on_thread(s, f, request, v, cancelled, expired),
            KunPhase::Turn => on_turn(s, f, request, v, cancelled, expired),
            _ => on_recovered(s, f, request, v),
        },
        KunInputView::Bytes(b) => on_bytes(s, f, request, b, cancelled, expired),
        KunInputView::Silence => listen(s, f, cancelled, expired),
        KunInputView::EndOfStream => on_end(s, f, request, cancelled, expired),
    }
}

/// A run of a Kun runtime. It says what is to be done next; the caller does it and
/// hands back what came of it.
pub struct KunRun {
    request: RuntimeRequest,
    phase: KunPhase,
    thread_id: String,
    turn_id: String,
    index: u64,
    streamed: bool,
    frames: VecDeque<SseFrame>,
    parser: SseParser,
    decoder: IncrementalUtf8Decoder,
    over: bool,
}

proof fn lemma_with_run(
    facts: kun_cancel::Facts,
    run: Seq<char>,
    a: kun_cancel::RunFacts,
    b: kun_cancel::RunFacts,
)
    ensures
        kun_cancel::with_run(kun_cancel::with_run(facts, run, a), run, b) == kun_cancel::with_run(
            facts,
            run,
            b,
        ),
        kun_cancel::with_run(facts, run, facts(run)) == facts,
{
    assert(kun_cancel::with_run(kun_cancel::with_run(facts, run, a), run, b)
        =~= kun_cancel::with_run(facts, run, b));
    assert(kun_cancel::with_run(facts, run, facts(run)) =~= facts);
}

impl KunRun {
    pub closed spec fn view(&self) -> KunRunView {
        KunRunView {
            phase: self.phase,
            thread_id: self.thread_id@,
            turn_id: self.turn_id@,
            index: self.index,
            streamed: self.streamed,
            frames: sse::frame_data(self.frames@),
            rest: self.parser@,
            bytes: self.decoder@,
            over: self.over,
        }
    }

    pub closed spec fn serves(&self) -> RuntimeRequest {
        self.request
    }

    /// The id of the run.
    pub open spec fn run(&self) -> Seq<char> {
        self.serves().execution_run_id@
    }

    /// What holds of a step of this run: it leads to this state and to these facts,
    /// and nothing else is known of other runs.
    pub open spec fn stepped(
        &self,
        before: &KunRun,
        shared: &KunTransportState,
        old_shared: &KunTransportState,
        action: KunActionView,
        goal: KunStep,
    ) -> bool {
        &&& (self@, shared.facts(before.run()), action) == goal
        &&& self.serves() == before.serves()
        &&& shared@ == kun_cancel::with_run(
            old_shared@,
            before.run(),
            shared.facts(before.run()),
        )
    }

    /// Begins a run.
    pub fn new(request: &RuntimeRequest, shared: &mut KunTransportState, cancelled: bool) -> (r: (
        Self,
        KunAction,
    ))
        ensures
            ({
                let run = request.execution_run_id@;
                &&& (r.0@, final(shared).facts(run), r.1@) == begin(
                    request,
                    old(shared).facts(run),
                    cancelled,
                )
                &&& r.0.serves().same_as(request)
                &&& final(shared)@ == kun_cancel::with_run(
                    old(shared)@,
                    run,
                    final(shared).facts(run),
                )
            }),
    {
        let mut run = KunRun {
            request: request.clone(),
            phase: KunPhase::Connecting,
            thread_id: String::new(),
            turn_id: String::new(),
            index: 2,
            streamed: false,
            frames: VecDeque::new(),
            parser: SseParser::new(),
            decoder: IncrementalUtf8Decoder::new(),
            over: false,
        };
        proof {
            assert(run.thread_id@ =~= seq![]);
            assert(run.turn_id@ =~= seq![]);
            assert(sse::frame_data(run.frames@) =~= seq![]);
            lemma_with_run(
                shared@,
                request.execution_run_id@,
                kun_cancel::no_facts(),
                kun_cancel::no_facts(),
            );
        }
        if cancelled || shared.cancellation_requested(request.execution_run_id.as_str()) {
            let action = run.finish(shared, Err(RuntimeError::Cancelled));
            return (run, action);
        }
        if codex::filled_text(&request.canonical_cwd).is_none() {
            run.phase = KunPhase::Ended;
            return (run, KunAction::Finish(Err(RuntimeError::InvalidWorkspace)));
        }
        (run, KunAction::Connect)
    }

    fn finish(&mut self, shared: &mut KunTransportState, result: Result<(), RuntimeError>) -> (r:
        KunAction)
        ensures
            final(self).stepped(
                old(self),
                final(shared),
                old(shared),
                r@,
                finished(
                    old(self)@,
                    old(shared).facts(old(self).run()),
                    kun_cancel::result_view(result),
                ),
            ),
    {
        shared.clear_run_state(self.request.execution_run_id.as_str());
        self.phase = KunPhase::Ended;
        KunAction::Finish(result)
    }

    fn quit(&mut self, shared: &mut KunTransportState, result: Result<(), RuntimeError>) -> (r:
        KunAction)
        ensures
            final(self).stepped(
                old(self),
                final(shared),
                old(shared),
                r@,
                quit(
                    old(self)@,
                    old(shared).facts(old(self).run()),
                    kun_cancel::result_view(result),
                ),
            ),
    {
        proof {
            let f = shared.facts(self.run());
            lemma_with_run(shared@, self.run(), f, f);
        }
        self.phase = KunPhase::Ended;
        KunAction::Finish(result)
    }

    fn listen(&mut self, shared: &mut KunTransportState, cancelled: bool, expired: bool) -> (r:
        KunAction)
        ensures
            final(self).stepped(
                old(self),
                final(shared),
                old(shared),
                r@,
                listen(old(self)@, old(shared).facts(old(self).run()), cancelled, expired),
            ),
    {
        proof {
            let f = shared.facts(self.run());
            lemma_with_run(shared@, self.run(), f, f);
        }
        if let Some(e) = shared.cancellation_failure(self.request.execution_run_id.as_str()) {
            return self.finish(shared, Err(e));
        }
        if cancelled || shared.cancellation_requested(self.request.execution_run_id.as_str()) {
            return match shared.active_turn(self.request.execution_run_id.as_str()) {
                Some(turn) => {
                    self.phase = KunPhase::Interrupting;
                    KunAction::Interrupt(turn)
                },
                None => self.finish(
                    shared,
                    Err(RuntimeError::transport(KUN_SHARED_RUNTIME_UNAVAILABLE)),
                ),
            };
        }
        if expired {
            return self.finish(shared, Err(RuntimeError::Timeout));
        }
        self.phase = KunPhase::Reading;
        KunAction::Read
    }

    fn ending(&self, event_type: &str, reason: Option<&str>) -> (r: RuntimeEvent)
        ensures
            r@ == ending(
                self@,
                &self.serves(),
                event_type@,
                self@.index,
                match reason {
                    Some(s) => Some(s@),
                    None => None,
                },
            ),
    {
        terminal_event(
            "kun",
            event_type,
            &self.request,
            Some(self.thread_id.clone()),
            Some(self.turn_id.clone()),
            self.index,
            reason,
        )
    }

    fn piece(&self, delta: &str) -> (r: RuntimeEvent)
        ensures
            r@ == piece(self@, &self.serves(), self@.index, delta@),
    {
        output_delta_event(
            "kun",
            &self.request,
            Some(self.thread_id.clone()),
            Some(self.turn_id.clone()),
            self.index,
            delta,
        )
    }

    fn close(&mut self, shared: &mut KunTransportState, event_type: &str, reason: Option<&str>) -> (
        r: KunAction)
        requires
            old(self)@.index < u64::MAX,
        ensures
            final(self).stepped(
                old(self),
                final(shared),
                old(shared),
                r@,
                close(
                    old(self)@,
                    old(shared).facts(old(self).run()),
                    &old(self).serves(),
                    event_type@,
                    match reason {
                        Some(s) => Some(s@),
                        None => None,
                    },
                ),
            ),
    {
        proof {
            let f = shared.facts(self.run());
            lemma_with_run(shared@, self.run(), f, f);
        }
        self.index = self.index + 1;
        self.phase = KunPhase::Closing;
        let e = self.ending(event_type, reason);
        let ghost view = e@;
        let mut events: Vec<RuntimeEvent> = Vec::new();
        events.push(e);
        assert(event::event_views(events@) =~= seq![view]);
        KunAction::Emit(events)
    }

    fn pump(&mut self, shared: &mut KunTransportState, cancelled: bool, expired: bool) -> (r:
        KunAction)
        requires
            old(self)@.index < u64::MAX,
        ensures
            final(self).stepped(
                old(self),
                final(shared),
                old(shared),
                r@,
                pump(
                    old(self)@,
                    old(shared).facts(old(self).run()),
                    &old(self).serves(),
                    cancelled,
                    expired,
                ),
            ),
    {
        proof {
            let f = shared.facts(self.run());
            lemma_with_run(shared@, self.run(), f, f);
        }
        let ghost first = *self;
        let ghost facts = shared.facts(self.run());
        let ghost goal = pump(self@, facts, &self.serves(), cancelled, expired);
        loop
            invariant
                self.serves() == first.serves(),
                self@.index == first@.index,
                self@.index < u64::MAX,
                *shared == *old(shared),
                *old(self) == first,
                facts == old(shared).facts(first.run()),
                kun_cancel::with_run(old(shared)@, first.run(), facts) == old(shared)@,
                goal == pump(first@, facts, &first.serves(), cancelled, expired),
                goal == pump(self@, facts, &first.serves(), cancelled, expired),
            decreases self@.frames.len(),
        {
            let ghost before = *self;
            let frame = match self.frames.pop_front() {
                None => {
                    assert(before@.frames.len() == 0);
                    return if self.over {
                        self.finish(shared, Err(RuntimeError::StreamTerminalMissing))
                    } else {
                        self.listen(shared, cancelled, expired)
                    };
                },
                Some(frame) => frame,
            };
            proof {
                assert(before@.frames.len() > 0);
                assert(before@.frames[0] == frame.data@);
                assert(self@.frames =~= before@.frames.drop_first());
                assert(self@ =~= (KunRunView { frames: before@.frames.drop_first(), ..before@ }));
            }
            match meaning_of_frame(frame.data.as_str(), self.turn_id.as_str()) {
                KunFrame::Other => {},
                KunFrame::Broken => {
                    return self.finish(shared, Err(RuntimeError::protocol("kun_protocol_error")));
                },
                KunFrame::Refused => {
                    return self.finish(
                        shared,
                        Err(RuntimeError::provider(KUN_PROVIDER_AUTHENTICATION_FAILED)),
                    );
                },
                KunFrame::Delta(delta) => {
                    self.index = self.index + 1;
                    self.streamed = true;
                    self.phase = KunPhase::Emitting;
                    let e = self.piece(delta.as_str());
                    let ghost view = e@;
                    let mut events: Vec<RuntimeEvent> = Vec::new();
                    events.push(e);
                    assert(event::event_views(events@) =~= seq![view]);
                    return KunAction::Emit(events);
                },
                KunFrame::Completed => {
                    if self.streamed {
                        return self.close(shared, "execution.completed", None);
                    }
                    self.phase = KunPhase::Recovering;
                    return KunAction::Fetch {
                        path: turn_path_text(self.thread_id.as_str(), self.turn_id.as_str()),
                    };
                },
                KunFrame::Cancelled => {
                    return self.close(shared, "execution.cancelled", Some("provider_cancelled"));
                },
                KunFrame::Failed => {
                    return self.close(shared, "execution.failed", Some("provider_error"));
                },
            }
        }
    }

    fn on_catalog(
        &mut self,
        shared: &mut KunTransportState,
        c: &RuntimeModelCatalog,
        cancelled: bool,
    ) -> (r: KunAction)
        ensures
            final(self).stepped(
                old(self),
                final(shared),
                old(shared),
                r@,
                on_catalog(
                    old(self)@,
                    old(shared).facts(old(self).run()),
                    &old(self).serves(),
                    c@,
                    cancelled,
                ),
            ),
    {
        proof {
            let f = shared.facts(self.run());
            lemma_with_run(shared@, self.run(), f, f);
        }
        if cancelled {
            return self.finish(shared, Err(RuntimeError::Cancelled));
        }
        let body = match (
            codex::filled_text(&self.request.canonical_cwd),
            codex::filled_text(&self.request.model_id),
        ) {
            (Some(workspace), Some(model)) => if catalog_offers(c, model) {
                Some(thread_body_json(workspace, model, self.request.workspace_access))
            } else {
                None
            },
            _ => None,
        };
        match body {
            Some(body) => {
                self.phase = KunPhase::Thread;
                KunAction::Post { path: "/v1/threads".to_owned(), body }
            },
            None => self.quit(shared, Err(RuntimeError::protocol(KUN_MODEL_UNAVAILABLE))),
        }
    }

    fn on_thread(
        &mut self,
        shared: &mut KunTransportState,
        v: &Json,
        cancelled: bool,
        expired: bool,
    ) -> (r: KunAction)
        ensures
            final(self).stepped(
                old(self),
                final(shared),
                old(shared),
                r@,
                on_thread(
                    old(self)@,
                    old(shared).facts(old(self).run()),
                    &old(self).serves(),
                    v.tree(),
                    cancelled,
                    expired,
                ),
            ),
    {
        if expired {
            return self.quit(shared, Err(RuntimeError::Timeout));
        }
        let thread_id = match thread_id_in(v) {
            Some(s) => s,
            None => {
                return self.quit(shared, Err(RuntimeError::protocol("kun_protocol_error")));
            },
        };
        let ghost first = shared@;
        match shared.before_turn_start(self.request.execution_run_id.as_str(), cancelled) {
            BeforeTurnStart::Cancelled => {
                let ghost second = *shared;
                let r = self.finish(shared, Err(RuntimeError::Cancelled));
                proof {
                    let run = self.run();
                    lemma_with_run(first, run, second.facts(run), shared.facts(run));
                }
                r
            },
            BeforeTurnStart::Failed(e) => {
                let ghost second = *shared;
                let r = self.finish(shared, Err(e));
                proof {
                    let run = self.run();
                    lemma_with_run(first, run, second.facts(run), shared.facts(run));
                }
                r
            },
            BeforeTurnStart::Start => {
                let model = match codex::filled_text(&self.request.model_id) {
                    Some(m) => m,
                    None => "",
                };
                proof {
                    reveal_strlit("");
                    assert(model@ =~= match codex::filled(self.request.model_id) {
                        Some(m) => m,
                        None => seq![],
                    });
                }
                let body = turn_body_json(self.request.rendered_context.as_str(), model);
                let path = turns_path_text(thread_id.as_str());
                self.thread_id = thread_id;
                self.phase = KunPhase::Turn;
                KunAction::Post { path, body }
            },
        }
    }

    fn on_turn(
        &mut self,
        shared: &mut KunTransportState,
        v: &Json,
        cancelled: bool,
        expired: bool,
    ) -> (r: KunAction)
        ensures
            final(self).stepped(
                old(self),
                final(shared),
                old(shared),
                r@,
                on_turn(
                    old(self)@,
                    old(shared).facts(old(self).run()),
                    &old(self).serves(),
                    v.tree(),
                    cancelled,
                    expired,
                ),
            ),
    {
        if expired {
            return self.finish(shared, Err(RuntimeError::Timeout));
        }
        let turn_id = match turn_id_in(v) {
            Some(s) => s,
            None => {
                return self.finish(shared, Err(RuntimeError::protocol("kun_protocol_error")));
            },
        };
        let turn = KunTurn { thread_id: self.thread_id.clone(), turn_id: turn_id.clone() };
        let copy = turn.clone();
        self.turn_id = turn_id;
        let ghost first = shared@;
        shared.turn_started(self.request.execution_run_id.as_str(), turn);
        let ghost second = *shared;
        if let Some(e) = shared.cancellation_failure(self.request.execution_run_id.as_str()) {
            let r = self.finish(shared, Err(e));
            proof {
                let run = self.run();
                lemma_with_run(first, run, second.facts(run), shared.facts(run));
            }
            return r;
        }
        if cancelled || shared.cancellation_requested(self.request.execution_run_id.as_str()) {
            self.phase = KunPhase::Interrupting;
            return KunAction::Interrupt(copy);
        }
        self.phase = KunPhase::Opening;
        let mut events: Vec<RuntimeEvent> = Vec::new();
        events.push(
            connector_started_event(
                "kun",
                &self.request,
                Some(self.thread_id.clone()),
                Some(self.turn_id.clone()),
            ),
        );
        events.push(
            runtime_started_event(
                "kun",
                "kun-shared-runtime",
                &self.request,
                Some(self.thread_id.clone()),
                Some(self.turn_id.clone()),
            ),
        );
        assert(event::event_views(events@) =~= opening(
            &self.serves(),
            self@.thread_id,
            self@.turn_id,
        ));
        KunAction::Emit(events)
    }

    fn take_frames(&mut self, frames: Vec<SseFrame>)
        ensures
            final(self).serves() == old(self).serves(),
            final(self)@ == (KunRunView {
                frames: old(self)@.frames + sse::frame_data(frames@),
                ..old(self)@
            }),
    {
        let ghost before = *self;
        let ghost all = frames@;
        for frame in it: frames
            invariant
                it.seq() == all,
                self.serves() == before.serves(),
                self@ == (KunRunView {
                    frames: before@.frames + sse::frame_data(all.take(it.index() as int)),
                    ..before@
                }),
        {
            let ghost i = it.index() as int;
            let ghost here = self@.frames;
            self.frames.push_back(frame);
            proof {
                assert(self@.frames =~= here.push(frame.data@));
                assert(sse::frame_data(all.take(i + 1)) =~= sse::frame_data(all.take(i)).push(
                    frame.data@,
                ));
                assert(self@ =~= (KunRunView {
                    frames: before@.frames + sse::frame_data(all.take(i + 1)),
                    ..before@
                }));
            }
        }
        assert(all.take(all.len() as int) =~= all);
    }

    fn on_bytes(
        &mut self,
        shared: &mut KunTransportState,
        bytes: &Vec<u8>,
        cancelled: bool,
        expired: bool,
    ) -> (r: KunAction)
        requires
            old(self)@.index < u64::MAX,
        ensures
            final(self).stepped(
                old(self),
                final(shared),
                old(shared),
                r@,
                on_bytes(
                    old(self)@,
                    old(shared).facts(old(self).run()),
                    &old(self).serves(),
                    bytes@,
                    cancelled,
                    expired,
                ),
            ),
    {
        let ghost before = *self;
        let ghost pending = decode::decode_step(before@.bytes, bytes@).1;
        match self.decoder.push(bytes.as_slice()) {
            Err(e) => {
                assert(self@ =~= (KunRunView { bytes: pending, ..before@ }));
                self.finish(shared, Err(e))
            },
            Ok(chunk) => match self.parser.push_bounded(chunk.as_str(), MAX_TRANSPORT_BODY_BYTES) {
                Err(e) => {
                    assert(self@ =~= (KunRunView { bytes: pending, rest: seq![], ..before@ }));
                    self.finish(shared, Err(e))
                },
                Ok(frames) => {
                    self.take_frames(frames);
                    assert(self@ =~= (KunRunView {
                        bytes: pending,
                        frames: before@.frames + sse::split_frames(before@.rest + chunk@).0,
                        rest: sse::split_frames(before@.rest + chunk@).1,
                        ..before@
                    }));
                    self.pump(shared, cancelled, expired)
                },
            },
        }
    }

    fn on_end(&mut self, shared: &mut KunTransportState, cancelled: bool, expired: bool) -> (r:
        KunAction)
        requires
            old(self)@.index < u64::MAX,
        ensures
            final(self).stepped(
                old(self),
                final(shared),
                old(shared),
                r@,
                on_end(
                    old(self)@,
                    old(shared).facts(old(self).run()),
                    &old(self).serves(),
                    cancelled,
                    expired,
                ),
            ),
    {
        let ghost before = *self;
        if let Err(e) = self.decoder.finish() {
            return self.finish(shared, Err(e));
        }
        let frames = self.parser.finish();
        self.take_frames(frames);
        self.over = true;
        assert(self@ =~= (KunRunView {
            frames: before@.frames + match sse::block_data(before@.rest) {
                Some(data) => seq![data],
                None => seq![],
            },
            rest: seq![],
            over: true,
            ..before@
        }));
        self.pump(shared, cancelled, expired)
    }

    fn on_recovered(&mut self, shared: &mut KunTransportState, v: &Json) -> (r: KunAction)
        requires
            old(self)@.index < u64::MAX - 1,
        ensures
            final(self).stepped(
                old(self),
                final(shared),
                old(shared),
                r@,
                on_recovered(
                    old(self)@,
                    old(shared).facts(old(self).run()),
                    &old(self).serves(),
                    v.tree(),
                ),
            ),
    {
        proof {
            let f = shared.facts(self.run());
            lemma_with_run(shared@, self.run(), f, f);
        }
        match recover_assistant_text(v) {
            Err(e) => self.finish(shared, Err(e)),
            Ok(delta) => {
                let ghost before = self@;
                let mut events: Vec<RuntimeEvent> = Vec::new();
                self.index = self.index + 1;
                events.push(self.piece(delta.as_str()));
                self.index = self.index + 1;
                events.push(self.ending("execution.completed", None));
                self.phase = KunPhase::Closing;
                proof {
                    let first = next_index(before.index);
                    let second = next_index(first);
                    assert(event::event_views(events@) =~= seq![
                        piece(before, &self.serves(), first, delta@),
                        ending(before, &self.serves(), "execution.completed"@, second, None),
                    ]);
                }
                KunAction::Emit(events)
            },
        }
    }

    /// Takes what came of the action before and says what is to be done next. What
    /// is known of the run is changed along with it.
    pub fn advance(
        &mut self,
        shared: &mut KunTransportState,
        input: KunInput,
        cancelled: bool,
        expired: bool,
    ) -> (r: KunAction)
        requires
            fits(old(self)@, input@),
            old(self)@.index < u64::MAX - 1,
        ensures
            final(self).stepped(
                old(self),
                final(shared),
                old(shared),
                r@,
                step(
                    old(self)@,
                    old(shared).facts(old(self).run()),
                    &old(self).serves(),
                    input@,
                    cancelled,
                    expired,
                ),
            ),
    {
        proof {
            let f = shared.facts(self.run());
            lemma_with_run(shared@, self.run(), f, f);
        }
        match input {
            KunInput::Failed(e) => {
                if self.phase == KunPhase::Connecting || self.phase == KunPhase::Catalog
                    || self.phase == KunPhase::Thread {
                    self.quit(shared, Err(e))
                } else {
                    self.finish(shared, Err(e))
                }
            },
            KunInput::Done => match self.phase {
                KunPhase::Connecting => {
                    if cancelled {
                        return self.finish(shared, Err(RuntimeError::Cancelled));
                    }
                    self.phase = KunPhase::Catalog;
                    KunAction::LoadCatalog
                },
                KunPhase::Interrupting => self.finish(shared, Err(RuntimeError::Cancelled)),
                KunPhase::Opening => {
                    self.phase = KunPhase::Subscribing;
                    KunAction::Subscribe { path: events_path_text(self.thread_id.as_str()) }
                },
                KunPhase::Subscribing => self.listen(shared, cancelled, expired),
                KunPhase::Closing => self.finish(shared, Ok(())),
                _ => self.pump(shared, cancelled, expired),
            },
            KunInput::Catalog(c) => self.on_catalog(shared, &c, cancelled),
            KunInput::Answer(v) => match self.phase {
                KunPhase::Thread => self.on_thread(shared, &v, cancelled, expired),
                KunPhase::Turn => self.on_turn(shared, &v, cancelled, expired),
                _ => self.on_recovered(shared, &v),
            },
            KunInput::Bytes(b) => self.on_bytes(shared, &b, cancelled, expired),
            KunInput::Silence => self.listen(shared, cancelled, expired),
            KunInput::EndOfStream => self.on_end(shared, cancelled, expired),
        }
    }
}

/// The course of a run: the events that it hands over and its result, if it ends,
/// for a list of inputs, with what was known of the run at each and the flags that
/// were seen. It stops at an input that cannot follow.
pub open spec fn course(
    s: KunRunView,
    request: &RuntimeRequest,
    inputs: Seq<(KunInputView, kun_cancel::RunFacts, bool, bool)>,
) -> (Seq<event::EventView>, Option<Result<(), error::ErrorView>>)
    decreases inputs.len(),
{
    if inputs.len() == 0 || !fits(s, inputs[0].0) {
        (seq![], None)
    } else {
        let (input, facts, cancelled, expired) = inputs[0];
        let (next, _, action) = step(s, facts, request, input, cancelled, expired);
        let (events, result) = course(next, request, inputs.drop_first());
        match action {
            KunActionView::Emit(new) => (new + events, result),
            KunActionView::Finish(r) => (seq![], Some(r)),
            _ => (events, result),
        }
    }
}

proof fn lemma_types_differ()
    ensures
        !event::is_terminal_type("output.delta"@),
        !event::is_terminal_type("connector.started"@),
        !event::is_terminal_type("runtime.started"@),
{
    reveal_strlit("output.delta");
    reveal_strlit("connector.started");
    reveal_strlit("runtime.started");
    reveal_strlit("execution.completed");
    reveal_strlit("execution.failed");
    reveal_strlit("execution.cancelled");
    reveal_strlit("execution.interrupted");
    assert("output.delta"@[0] == 'o');
    assert("connector.started"@[0] == 'c');
    assert("runtime.started"@[0] == 'r');
    assert("execution.completed"@[0] == 'e');
    assert("execution.failed"@[0] == 'e');
    assert("execution.cancelled"@[0] == 'e');
    assert("execution.interrupted"@[0] == 'e');
}

/// Whether a step hands over a terminal event exactly when it leads to the end.
spec fn is_orderly(result: KunStep) -> bool {
    let (next, _, action) = result;
    match action {
        KunActionView::Emit(new) => {
            &&& new.len() > 0
            &&& forall|i: int|
                0 <= i < new.len() - 1 ==> !event::is_terminal_type(
                    (#[trigger] new[i]).event_type,
                )
            &&& event::is_terminal_type(new.last().event_type) <==> next.phase
                == KunPhase::Closing
        },
        KunActionView::Finish(r) => next.phase == KunPhase::Ended && r is Err,
        _ => next.phase != KunPhase::Closing && next.phase != KunPhase::Ended,
    }
}

proof fn lemma_pump_is_orderly(
    s: KunRunView,
    f: kun_cancel::RunFacts,
    request: &RuntimeRequest,
    cancelled: bool,
    expired: bool,
)
    ensures
        is_orderly(pump(s, f, request, cancelled, expired)),
    decreases s.frames.len(),
{
    lemma_types_differ();
    if s.frames.len() > 0 {
        let t = KunRunView { frames: s.frames.drop_first(), ..s };
        lemma_pump_is_orderly(t, f, request, cancelled, expired);
    }
}

proof fn lemma_step_is_orderly(
    s: KunRunView,
    f: kun_cancel::RunFacts,
    request: &RuntimeRequest,
    input: KunInputView,
    cancelled: bool,
    expired: bool,
)
    requires
        fits(s, input),
        s.phase != KunPhase::Closing,
    ensures
        is_orderly(step(s, f, request, input, cancelled, expired)),
{
    lemma_types_differ();
    match input {
        KunInputView::Done => {
            lemma_pump_is_orderly(s, f, request, cancelled, expired);
        },
        KunInputView::Bytes(b) => {
            let (decoded, pending) = decode::decode_step(s.bytes, b);
            if let Some(chunk) = decoded {
                let (frames, rest) = sse::split_frames(s.rest + chunk);
                lemma_pump_is_orderly(
                    KunRunView { bytes: pending, frames: s.frames + frames, rest, ..s },
                    f,
                    request,
                    cancelled,
                    expired,
                );
            }
        },
        KunInputView::EndOfStream => {
            let last = match sse::block_data(s.rest) {
                Some(data) => seq![data],
                None => seq![],
            };
            lemma_pump_is_orderly(
                KunRunView { frames: s.frames + last, rest: seq![], over: true, ..s },
                f,
                request,
                cancelled,
                expired,
            );
        },
        _ => {},
    }
}

/// A run hands over at most one terminal event, and nothing behind it; it succeeds
/// only once its terminal event has been taken. This holds whatever cancellations
/// come from elsewhere.
pub proof fn law_kun_run_ends_once(
    s: KunRunView,
    request: &RuntimeRequest,
    inputs: Seq<(KunInputView, kun_cancel::RunFacts, bool, bool)>,
)
    ensures
        ({
            let (events, result) = course(s, request, inputs);
            &&& forall|i: int|
                0 <= i < events.len() - 1 ==> !event::is_terminal_type(
                    (#[trigger] events[i]).event_type,
                )
            &&& s.phase == KunPhase::Closing || s.phase == KunPhase::Ended ==> events.len() == 0
            &&& result == Some(Ok::<(), error::ErrorView>(())) && s.phase != KunPhase::Closing
                ==> events.len() > 0 && event::is_terminal_type(events.last().event_type)
        }),
    decreases inputs.len(),
{
    if inputs.len() > 0 && fits(s, inputs[0].0) {
        let (input, facts, cancelled, expired) = inputs[0];
        let (next, _, action) = step(s, facts, request, input, cancelled, expired);
        law_kun_run_ends_once(next, request, inputs.drop_first());
        if s.phase != KunPhase::Closing {
            lemma_step_is_orderly(s, facts, request, input, cancelled, expired);
        }
        let rest = course(next, request, inputs.drop_first()).0;
        if let KunActionView::Emit(new) = action {
            assert((new + rest).last() == if rest.len() > 0 {
                rest.last()
            } else {
                new.last()
            });
        }
    }
}

/// Whether a run in a phase has handed over no event yet.
pub open spec fn is_before_opening(phase: KunPhase) -> bool {
    ||| phase == KunPhase::Connecting
    ||| phase == KunPhase::Catalog
    ||| phase == KunPhase::Thread
    ||| phase == KunPhase::Turn
}

/// Whether a run in a phase has been opened and may still hand over events.
pub open spec fn is_open(phase: KunPhase) -> bool {
    ||| phase == KunPhase::Opening
    ||| phase == KunPhase::Subscribing
    ||| phase == KunPhase::Reading
    ||| phase == KunPhase::Emitting
    ||| phase == KunPhase::Recovering
}

/// Whether events are pieces of output with at most one terminal event behind
/// them. A run is completed only after a piece of output, be it one of these or
/// one that was streamed before.
pub open spec fn is_output(events: Seq<event::EventView>, streamed: bool) -> bool {
    &&& forall|i: int|
        0 <= i < events.len() - 1 ==> (#[trigger] events[i]).event_type == "output.delta"@
    &&& events.len() > 0 ==> {
        let last = events.last().event_type;
        &&& last == "output.delta"@ || event::is_terminal_type(last)
        &&& last == "execution.completed"@ ==> streamed || events.len() >= 2
    }
}

/// Whether events are those of a run from its beginning: none, or the two that open
/// it and the output.
pub open spec fn is_run(events: Seq<event::EventView>) -> bool {
    events.len() > 0 ==> {
        &&& events.len() >= 2
        &&& events[0].event_type == "connector.started"@
        &&& events[1].event_type == "runtime.started"@
        &&& is_output(events.skip(2), false)
    }
}

/// Whether a step of a run that is open keeps the order of its events.
spec fn keeps_order(s: KunRunView, result: KunStep) -> bool {
    let (next, _, action) = result;
    match action {
        KunActionView::Emit(new) => {
            &&& new.len() > 0
            &&& is_output(new, s.streamed)
            &&& next.phase == KunPhase::Closing || next.phase == KunPhase::Emitting && next.streamed
                && new.last().event_type == "output.delta"@
        },
        KunActionView::Finish(_) => next.phase == KunPhase::Ended,
        _ => next.phase == KunPhase::Interrupting || is_open(next.phase) && next.streamed
            == s.streamed,
    }
}

proof fn lemma_pump_keeps_order(
    s: KunRunView,
    f: kun_cancel::RunFacts,
    request: &RuntimeRequest,
    cancelled: bool,
    expired: bool,
)
    ensures
        keeps_order(s, pump(s, f, request, cancelled, expired)),
    decreases s.frames.len(),
{
    lemma_ends_differ();
    if s.frames.len() > 0 {
        let t = KunRunView { frames: s.frames.drop_first(), ..s };
        lemma_pump_keeps_order(t, f, request, cancelled, expired);
    }
}

proof fn lemma_ends_differ()
    ensures
        "output.delta"@ != "execution.completed"@,
        "execution.cancelled"@ != "execution.completed"@,
        "execution.failed"@ != "execution.completed"@,
{
    reveal_strlit("output.delta");
    reveal_strlit("execution.completed");
    reveal_strlit("execution.cancelled");
    reveal_strlit("execution.failed");
    assert("output.delta"@[0] == 'o');
    assert("execution.completed"@[0] == 'e');
    assert("execution.completed"@[11] == 'o');
    assert("execution.cancelled"@[11] == 'a');
    assert("execution.failed"@[10] == 'f');
    assert("execution.completed"@[10] == 'c');
}

proof fn lemma_step_keeps_order(
    s: KunRunView,
    f: kun_cancel::RunFacts,
    request: &RuntimeRequest,
    input: KunInputView,
    cancelled: bool,
    expired: bool,
)
    requires
        fits(s, input),
        is_open(s.phase),
    ensures
        keeps_order(s, step(s, f, request, input, cancelled, expired)),
{
    match input {
        KunInputView::Done => {
            lemma_pump_keeps_order(s, f, request, cancelled, expired);
        },
        KunInputView::Bytes(b) => {
            let (decoded, pending) = decode::decode_step(s.bytes, b);
            if let Some(chunk) = decoded {
                let (frames, rest) = sse::split_frames(s.rest + chunk);
                lemma_pump_keeps_order(
                    KunRunView { bytes: pending, frames: s.frames + frames, rest, ..s },
                    f,
                    request,
                    cancelled,
                    expired,
                );
            }
        },
        KunInputView::EndOfStream => {
            let last = match sse::block_data(s.rest) {
                Some(data) => seq![data],
                None => seq![],
            };
            lemma_pump_keeps_order(
                KunRunView { frames: s.frames + last, rest: seq![], over: true, ..s },
                f,
                request,
                cancelled,
                expired,
            );
        },
        _ => {},
    }
}

/// What a run hands over from where it stands.
proof fn lemma_course_keeps_order(
    s: KunRunView,
    request: &RuntimeRequest,
    inputs: Seq<(KunInputView, kun_cancel::RunFacts, bool, bool)>,
)
    requires
        is_before_opening(s.phase) ==> !s.streamed,
    ensures
        ({
            let events = course(s, request, inputs).0;
            if is_before_opening(s.phase) {
                is_run(events)
            } else if is_open(s.phase) {
                is_output(events, s.streamed)
            } else {
                events.len() == 0
            }
        }),
    decreases inputs.len(),
{
    if inputs.len() > 0 && fits(s, inputs[0].0) {
        let (input, facts, cancelled, expired) = inputs[0];
        let (next, _, action) = step(s, facts, request, input, cancelled, expired);
        if is_open(s.phase) {
            lemma_step_keeps_order(s, facts, request, input, cancelled, expired);
        }
        lemma_course_keeps_order(next, request, inputs.drop_first());
        let rest = course(next, request, inputs.drop_first()).0;
        let events = course(s, request, inputs).0;
        if is_open(s.phase) {
            lemma_ends_differ();
            if let KunActionView::Emit(new) = action {
                assert(events == new + rest);
                assert forall|i: int| 0 <= i < events.len() - 1 implies (#[trigger]
                events[i]).event_type == "output.delta"@ by {
                    if i < new.len() {
                        assert(events[i] == new[i]);
                    } else {
                        assert(events[i] == rest[i - new.len()]);
                    }
                }
                assert(events.last() == if rest.len() > 0 {
                    rest.last()
                } else {
                    new.last()
                });
            }
        } else if is_before_opening(s.phase) {
            if let KunActionView::Emit(new) = action {
                assert(events.skip(2) =~= rest);
            }
        }
    }
}

/// The events of a run are none, or the two that open it, pieces of output, and
/// then at most one terminal event. A run that completes has handed over at least
/// one piece of output. This holds whatever the runtime answers and whatever
/// cancellations come.
pub proof fn law_kun_run_has_its_shape(
    request: &RuntimeRequest,
    f: kun_cancel::RunFacts,
    cancelled: bool,
    inputs: Seq<(KunInputView, kun_cancel::RunFacts, bool, bool)>,
)
    ensures
        is_run(course(begin(request, f, cancelled).0, request, inputs).0),
{
    lemma_course_keeps_order(begin(request, f, cancelled).0, request, inputs);
}

proof fn lemma_pump_drops(
    s: KunRunView,
    f: kun_cancel::RunFacts,
    request: &RuntimeRequest,
    cancelled: bool,
    expired: bool,
)
    ensures
        pump(s, f, request, cancelled, expired).2 is Finish ==> {
            let g = pump(s, f, request, cancelled, expired).1;
            g == f.cleared()
        },
    decreases s.frames.len(),
{
    if s.frames.len() > 0 {
        let t = KunRunView { frames: s.frames.drop_first(), ..s };
        lemma_pump_drops(t, f, request, cancelled, expired);
    }
}

/// A run that ends after its turn was begun leaves no turn behind, and nothing but
/// the outcome of an interrupt.
pub proof fn law_ended_run_is_dropped(
    s: KunRunView,
    f: kun_cancel::RunFacts,
    request: &RuntimeRequest,
    input: KunInputView,
    cancelled: bool,
    expired: bool,
)
    requires
        fits(s, input),
        is_known(s.phase),
        step(s, f, request, input, cancelled, expired).2 is Finish,
    ensures
        ({
            let g = step(s, f, request, input, cancelled, expired).1;
            &&& g.turn is None
            &&& !g.starting
            &&& g.cancellation is Some ==> g.outcome() is Some && g.outcome() == f.outcome()
        }),
{
    match input {
        KunInputView::Done => {
            lemma_pump_drops(s, f, request, cancelled, expired);
        },
        KunInputView::Bytes(b) => {
            let (decoded, pending) = decode::decode_step(s.bytes, b);
            if let Some(chunk) = decoded {
                let (frames, rest) = sse::split_frames(s.rest + chunk);
                lemma_pump_drops(
                    KunRunView { bytes: pending, frames: s.frames + frames, rest, ..s },
                    f,
                    request,
                    cancelled,
                    expired,
                );
            }
        },
        KunInputView::EndOfStream => {
            let last = match sse::block_data(s.rest) {
                Some(data) => seq![data],
                None => seq![],
            };
            lemma_pump_drops(
                KunRunView { frames: s.frames + last, rest: seq![], over: true, ..s },
                f,
                request,
                cancelled,
                expired,
            );
        },
        _ => {},
    }
}

/// No turn is started for a run that was cancelled before.
pub proof fn law_cancelled_run_posts_no_turn(
    s: KunRunView,
    f: kun_cancel::RunFacts,
    request: &RuntimeRequest,
    v: json::JsonTree,
    cancelled: bool,
    expired: bool,
)
    requires
        s.phase == KunPhase::Thread,
        cancelled || f.cancellation is Some,
    ensures
        step(s, f, request, KunInputView::Answer(v), cancelled, expired).2 is Finish,
{
}

/// A cancellation that the runtime refused ends the run with its error, and never
/// as a cancelled run.
pub proof fn law_refused_cancellation_is_told(
    s: KunRunView,
    f: kun_cancel::RunFacts,
    request: &RuntimeRequest,
    cancelled: bool,
    expired: bool,
)
    requires
        s.phase == KunPhase::Reading,
        f.failure() is Some,
    ensures
        step(s, f, request, KunInputView::Silence, cancelled, expired).2 == KunActionView::Finish(
            Err(f.failure()->0),
        ),
{
}

} // verus!
