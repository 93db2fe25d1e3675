//! The bounded event stream between a runtime that produces the events of a run
//! and the caller that takes them.
//!
//! The state below decides every operation. A shared stream holds it behind a
//! lock, waits while [`RuntimeEventStreamState::push_waits`] or
//! [`RuntimeEventStreamState::next_waits`] says so, and then performs the
//! operation.

use std::collections::VecDeque;
use vstd::prelude::*;

use crate::error;
use crate::error::RuntimeError;
use crate::event;
use crate::event::{is_terminal_event, RuntimeEvent};

verus! {

/// How a stream was closed.
#[derive(Debug)]
pub enum StreamClose {
    Terminal,
    Error(RuntimeError),
}

/// The state of a bounded event stream.
#[derive(Debug)]
pub struct RuntimeEventStreamState {
    capacity: usize,
    queue: VecDeque<RuntimeEvent>,
    cancelled: bool,
    closed: Option<StreamClose>,
}

pub enum CloseView {
    Terminal,
    Error(error::ErrorView),
}

/// What the state of a stream stands for.
pub struct StreamView {
    pub capacity: nat,
    pub queue: Seq<event::EventView>,
    pub cancelled: bool,
    pub closed: Option<CloseView>,
}

/// What a caller asks of a stream.
pub enum StreamOp {
    Push(event::EventView),
    Finish,
    CloseTransport,
    Fail(error::ErrorView),
    Next,
    Cancel,
}

/// What a stream answers: done, an event, nothing yet or no more, or an error.
pub enum StreamAnswer {
    Done,
    Event(event::EventView),
    Nothing,
    Error(error::ErrorView),
}

impl StreamView {
    /// The error of a stream that was closed by one.
    pub open spec fn close_error(self) -> Option<error::ErrorView> {
        match self.closed {
            Some(CloseView::Error(e)) => Some(e),
            _ => None,
        }
    }

    /// The answer of a stream that accepts nothing any more, if it is one.
    pub open spec fn refusal(self) -> Option<error::ErrorView> {
        if self.cancelled {
            Some(error::ErrorView::Cancelled)
        } else {
            match self.closed {
                Some(CloseView::Terminal) => Some(error::ErrorView::StreamTerminal),
                Some(CloseView::Error(e)) => Some(e),
                None => None,
            }
        }
    }

    pub open spec fn is_open(self) -> bool {
        !self.cancelled && self.closed is None
    }

    /// A closed stream, with the events that it still holds.
    pub open spec fn close(self, how: CloseView) -> StreamView {
        StreamView { closed: Some(how), ..self }
    }

    /// One operation: the next state and the answer.
    pub open spec fn step(self, op: StreamOp) -> (StreamView, StreamAnswer) {
        match op {
            StreamOp::Push(e) => match self.refusal() {
                Some(r) => (self, StreamAnswer::Error(r)),
                None => if self.queue.len() == self.capacity {
                    (
                        self,
                        StreamAnswer::Error(
                            error::ErrorView::StreamBufferFull(self.capacity as usize),
                        ),
                    )
                } else {
                    let next = StreamView { queue: self.queue.push(e), ..self };
                    if event::is_terminal_type(e.event_type) {
                        (next.close(CloseView::Terminal), StreamAnswer::Done)
                    } else {
                        (next, StreamAnswer::Done)
                    }
                },
            },
            StreamOp::Finish => if self.closed == Some(CloseView::Terminal) && !self.cancelled {
                (self, StreamAnswer::Done)
            } else {
                match self.refusal() {
                    Some(r) => (self, StreamAnswer::Error(r)),
                    None => (
                        self.close(CloseView::Error(error::ErrorView::StreamTerminalMissing)),
                        StreamAnswer::Error(error::ErrorView::StreamTerminalMissing),
                    ),
                }
            },
            StreamOp::CloseTransport => if self.closed == Some(CloseView::Terminal)
                && !self.cancelled {
                (self, StreamAnswer::Done)
            } else {
                match self.refusal() {
                    Some(r) => (self, StreamAnswer::Error(r)),
                    None => (
                        self.close(CloseView::Error(error::ErrorView::TransportClosed)),
                        StreamAnswer::Done,
                    ),
                }
            },
            StreamOp::Fail(e) => match self.refusal() {
                Some(r) => (self, StreamAnswer::Error(r)),
                None => (self.close(CloseView::Error(e)), StreamAnswer::Error(e)),
            },
            StreamOp::Next => if self.queue.len() > 0 {
                (
                    StreamView { queue: self.queue.drop_first(), ..self },
                    StreamAnswer::Event(self.queue[0]),
                )
            } else if self.cancelled {
                (self, StreamAnswer::Error(error::ErrorView::Cancelled))
            } else {
                match self.close_error() {
                    Some(e) => (self, StreamAnswer::Error(e)),
                    None => (self, StreamAnswer::Nothing),
                }
            },
            StreamOp::Cancel => match self.closed {
                Some(CloseView::Terminal) => (
                    self,
                    StreamAnswer::Error(error::ErrorView::StreamTerminal),
                ),
                Some(CloseView::Error(e)) => (self, StreamAnswer::Error(e)),
                None => (
                    StreamView { queue: Seq::empty(), cancelled: true, ..self },
                    StreamAnswer::Done,
                ),
            },
        }
    }

    /// What holds of every stream: it has room for an event, holds no more than
    /// it has room for, holds nothing when it was cancelled, and a terminal event
    /// in it is the last one and has closed it.
    pub open spec fn valid(self) -> bool {
        &&& self.capacity > 0
        &&& self.queue.len() <= self.capacity
        &&& self.cancelled ==> self.queue.len() == 0 && self.closed is None
        &&& forall|i: int|
            0 <= i < self.queue.len() && event::is_terminal_type(
                #[trigger] self.queue[i].event_type,
            ) ==> i == self.queue.len() - 1 && self.closed == Some(CloseView::Terminal)
    }
}

/// A new stream with room for `capacity` events.
pub open spec fn fresh_stream(capacity: nat) -> StreamView {
    StreamView { capacity, queue: Seq::empty(), cancelled: false, closed: None }
}

impl RuntimeEventStreamState {
    pub closed spec fn view(&self) -> StreamView {
        StreamView {
            capacity: self.capacity as nat,
            queue: event::event_views(self.queue@),
            cancelled: self.cancelled,
            closed: match self.closed {
                Some(StreamClose::Terminal) => Some(CloseView::Terminal),
                Some(StreamClose::Error(e)) => Some(CloseView::Error(e@)),
                None => None,
            },
        }
    }

    /// A stream with room for `capacity` events; there is none without room.
    pub fn with_capacity(capacity: usize) -> (r: Result<Self, RuntimeError>)
        ensures
            match r {
                Ok(state) => capacity > 0 && state@ == fresh_stream(capacity as nat)
                    && state@.valid(),
                Err(e) => capacity == 0 && e@ == error::ErrorView::InvalidStreamCapacity,
            },
    {
        if capacity == 0 {
            return Err(RuntimeError::InvalidStreamCapacity);
        }
        let state = RuntimeEventStreamState {
            capacity,
            queue: VecDeque::new(),
            cancelled: false,
            closed: None,
        };
        assert(state@.queue =~= Seq::empty());
        Ok(state)
    }

    /// The error by which an operation is refused.
    fn refused(&self) -> (r: Option<RuntimeError>)
        ensures
            match r {
                Some(e) => self@.refusal() == Some(e@),
                None => self@.refusal() is None,
            },
    {
        if self.cancelled {
            return Some(RuntimeError::Cancelled);
        }
        match &self.closed {
            Some(StreamClose::Terminal) => Some(RuntimeError::StreamTerminal),
            Some(StreamClose::Error(e)) => Some(e.clone()),
            None => None,
        }
    }

    /// Whether a terminal event has closed the stream.
    pub fn terminal_is_closed(&self) -> (r: bool)
        ensures
            r == (self@.closed == Some(CloseView::Terminal)),
    {
        match &self.closed {
            Some(StreamClose::Terminal) => true,
            _ => false,
        }
    }

    /// Whether a producer that may wait has to.
    pub fn push_waits(&self) -> (r: bool)
        ensures
            r == (self@.queue.len() == self@.capacity && self@.is_open()),
    {
        self.queue.len() == self.capacity && !self.cancelled && self.closed.is_none()
    }

    /// Whether a consumer that may wait has to.
    pub fn next_waits(&self) -> (r: bool)
        ensures
            r == (self@.queue.len() == 0 && self@.is_open()),
    {
        self.queue.len() == 0 && !self.cancelled && self.closed.is_none()
    }

    /// Takes an event without waiting. A full buffer is the signal that the
    /// producer is over its limit and leaves the event out.
    pub fn try_push(&mut self, e: RuntimeEvent) -> (r: Result<(), RuntimeError>)
        requires
            old(self)@.valid(),
        ensures
            final(self)@.valid(),
            final(self)@ == old(self)@.step(StreamOp::Push(e@)).0,
            match r {
                Ok(_) => old(self)@.step(StreamOp::Push(e@)).1 == StreamAnswer::Done,
                Err(x) => old(self)@.step(StreamOp::Push(e@)).1 == StreamAnswer::Error(x@),
            },
    {
        match self.refused() {
            Some(x) => {
                return Err(x);
            },
            None => {},
        }
        if self.queue.len() == self.capacity {
            return Err(RuntimeError::StreamBufferFull { capacity: self.capacity });
        }
        let is_terminal = is_terminal_event(&e);
        proof {
            event::lemma_event_views_push(self.queue@, e);
        }
        self.queue.push_back(e);
        if is_terminal {
            self.closed = Some(StreamClose::Terminal);
        }
        Ok(())
    }

    /// Says that the producer is done. A stream can complete only after it has
    /// taken a terminal event.
    pub fn finish(&mut self) -> (r: Result<(), RuntimeError>)
        requires
            old(self)@.valid(),
        ensures
            final(self)@.valid(),
            final(self)@ == old(self)@.step(StreamOp::Finish).0,
            match r {
                Ok(_) => old(self)@.step(StreamOp::Finish).1 == StreamAnswer::Done,
                Err(x) => old(self)@.step(StreamOp::Finish).1 == StreamAnswer::Error(x@),
            },
    {
        if !self.cancelled && self.terminal_is_closed() {
            return Ok(());
        }
        match self.refused() {
            Some(x) => Err(x),
            None => {
                self.closed = Some(StreamClose::Error(RuntimeError::StreamTerminalMissing));
                Err(RuntimeError::StreamTerminalMissing)
            },
        }
    }

    /// Closes the transport without making up a terminal event. Consumers get
    /// `TransportClosed` after they have taken the events that are buffered.
    pub fn close_transport(&mut self) -> (r: Result<(), RuntimeError>)
        requires
            old(self)@.valid(),
        ensures
            final(self)@.valid(),
            final(self)@ == old(self)@.step(StreamOp::CloseTransport).0,
            match r {
                Ok(_) => old(self)@.step(StreamOp::CloseTransport).1 == StreamAnswer::Done,
                Err(x) => old(self)@.step(StreamOp::CloseTransport).1 == StreamAnswer::Error(x@),
            },
    {
        if !self.cancelled && self.terminal_is_closed() {
            return Ok(());
        }
        match self.refused() {
            Some(x) => Err(x),
            None => {
                self.closed = Some(StreamClose::Error(RuntimeError::TransportClosed));
                Ok(())
            },
        }
    }

    /// Closes the stream by an error of its producer.
    pub fn fail(&mut self, e: RuntimeError) -> (r: Result<(), RuntimeError>)
        requires
            old(self)@.valid(),
        ensures
            final(self)@.valid(),
            final(self)@ == old(self)@.step(StreamOp::Fail(e@)).0,
            match r {
                Ok(_) => false,
                Err(x) => old(self)@.step(StreamOp::Fail(e@)).1 == StreamAnswer::Error(x@),
            },
    {
        match self.refused() {
            Some(x) => Err(x),
            None => {
                self.closed = Some(StreamClose::Error(e.clone()));
                Err(e)
            },
        }
    }

    /// The next event, without waiting.
    pub fn try_next(&mut self) -> (r: Result<Option<RuntimeEvent>, RuntimeError>)
        requires
            old(self)@.valid(),
        ensures
            final(self)@.valid(),
            final(self)@ == old(self)@.step(StreamOp::Next).0,
            match r {
                Ok(Some(e)) => old(self)@.step(StreamOp::Next).1 == StreamAnswer::Event(e@),
                Ok(None) => old(self)@.step(StreamOp::Next).1 == StreamAnswer::Nothing,
                Err(x) => old(self)@.step(StreamOp::Next).1 == StreamAnswer::Error(x@),
            },
    {
        let ghost before = *self;
        match self.queue.pop_front() {
            Some(e) => {
                proof {
                    assert(self@.queue =~= before@.queue.drop_first());
                    assert forall|i: int|
                        0 <= i < self@.queue.len() && event::is_terminal_type(
                            #[trigger] self@.queue[i].event_type,
                        ) implies i == self@.queue.len() - 1 && self@.closed == Some(
                        CloseView::Terminal,
                    ) by {
                        assert(before@.queue[i + 1] == self@.queue[i]);
                    }
                }
                Ok(Some(e))
            },
            None => {
                assert(self@.queue =~= before@.queue);
                if self.cancelled {
                    return Err(RuntimeError::Cancelled);
                }
                match &self.closed {
                    Some(StreamClose::Error(e)) => Err(e.clone()),
                    _ => Ok(None),
                }
            },
        }
    }

    /// The next event after a wait that has a deadline: when there is still
    /// nothing, the deadline has elapsed. No terminal event is made up.
    pub fn next_after_deadline(&mut self) -> (r: Result<Option<RuntimeEvent>, RuntimeError>)
        requires
            old(self)@.valid(),
        ensures
            final(self)@.valid(),
            final(self)@ == old(self)@.step(StreamOp::Next).0,
            match r {
                Ok(Some(e)) => old(self)@.step(StreamOp::Next).1 == StreamAnswer::Event(e@),
                Ok(None) => old(self)@.queue.len() == 0 && old(self)@.closed == Some(
                    CloseView::Terminal,
                ),
                Err(x) => if old(self)@.queue.len() == 0 && old(self)@.is_open() {
                    x@ == error::ErrorView::Timeout
                } else {
                    old(self)@.step(StreamOp::Next).1 == StreamAnswer::Error(x@)
                },
            },
    {
        if self.next_waits() {
            return Err(RuntimeError::Timeout);
        }
        self.try_next()
    }

    /// Cancels the stream: what is buffered is dropped. The result says whether
    /// this call is the one that cancelled it.
    pub fn cancel(&mut self) -> (r: Result<bool, RuntimeError>)
        requires
            old(self)@.valid(),
        ensures
            final(self)@.valid(),
            final(self)@ == old(self)@.step(StreamOp::Cancel).0,
            match r {
                Ok(first) => old(self)@.step(StreamOp::Cancel).1 == StreamAnswer::Done && first
                    == !old(self)@.cancelled,
                Err(x) => old(self)@.step(StreamOp::Cancel).1 == StreamAnswer::Error(x@),
            },
    {
        match &self.closed {
            Some(StreamClose::Terminal) => {
                return Err(RuntimeError::StreamTerminal);
            },
            Some(StreamClose::Error(e)) => {
                return Err(e.clone());
            },
            None => {},
        }
        let first = !self.cancelled;
        if first {
            self.cancelled = true;
            self.queue.clear();
        }
        assert(self@.queue =~= Seq::empty());
        Ok(first)
    }

    pub fn capacity(&self) -> (r: usize)
        ensures
            r == self@.capacity,
    {
        self.capacity
    }

    pub fn buffered_len(&self) -> (r: usize)
        ensures
            r == self@.queue.len(),
    {
        self.queue.len()
    }
}

/// The state after a number of operations on a stream.
pub open spec fn run(s: StreamView, ops: Seq<StreamOp>) -> StreamView
    decreases ops.len(),
{
    if ops.len() == 0 {
        s
    } else {
        run(s, ops.drop_last()).step(ops.last()).0
    }
}

/// The events that a stream has taken in, in order.
pub open spec fn accepted(s: StreamView, ops: Seq<StreamOp>) -> Seq<event::EventView>
    decreases ops.len(),
{
    if ops.len() == 0 {
        seq![]
    } else {
        let before = accepted(s, ops.drop_last());
        match ops.last() {
            StreamOp::Push(e) => if run(s, ops.drop_last()).step(ops.last()).1
                == StreamAnswer::Done {
                before.push(e)
            } else {
                before
            },
            _ => before,
        }
    }
}

/// The events that a stream has handed out, in order.
pub open spec fn delivered(s: StreamView, ops: Seq<StreamOp>) -> Seq<event::EventView>
    decreases ops.len(),
{
    if ops.len() == 0 {
        seq![]
    } else {
        let before = delivered(s, ops.drop_last());
        match run(s, ops.drop_last()).step(ops.last()).1 {
            StreamAnswer::Event(e) => before.push(e),
            _ => before,
        }
    }
}

/// Whatever is asked of a stream, it stays valid: in particular it never holds
/// more events than it has room for.
pub proof fn law_stream_stays_valid(capacity: nat, ops: Seq<StreamOp>)
    requires
        capacity > 0,
    ensures
        run(fresh_stream(capacity), ops).valid(),
        run(fresh_stream(capacity), ops).capacity == capacity,
    decreases ops.len(),
{
    if ops.len() > 0 {
        let before = run(fresh_stream(capacity), ops.drop_last());
        law_stream_stays_valid(capacity, ops.drop_last());
        let after = before.step(ops.last()).0;
        assert forall|i: int|
            0 <= i < after.queue.len() && event::is_terminal_type(
                #[trigger] after.queue[i].event_type,
            ) implies i == after.queue.len() - 1 && after.closed == Some(CloseView::Terminal) by {
            match ops.last() {
                StreamOp::Next => {
                    if before.queue.len() > 0 {
                        assert(before.queue[i + 1] == after.queue[i]);
                    }
                },
                StreamOp::Push(e) => {
                    if i < before.queue.len() {
                        assert(before.queue[i] == after.queue[i]);
                    }
                },
                _ => {},
            }
        }
    }
}

/// A stream that was not cancelled hands out every event that it has taken in,
/// in order and once: what it has handed out, then what it still holds, is what
/// it has taken in. A cancelled stream has handed out a prefix of that.
pub proof fn law_stream_keeps_order(capacity: nat, ops: Seq<StreamOp>)
    requires
        capacity > 0,
    ensures
        ({
            let s = fresh_stream(capacity);
            let d = delivered(s, ops);
            &&& !run(s, ops).cancelled ==> accepted(s, ops) == d + run(s, ops).queue
            &&& d.is_prefix_of(accepted(s, ops))
        }),
    decreases ops.len(),
{
    let s = fresh_stream(capacity);
    if ops.len() > 0 {
        law_stream_keeps_order(capacity, ops.drop_last());
        law_stream_stays_valid(capacity, ops.drop_last());
        let before = run(s, ops.drop_last());
        let after = before.step(ops.last()).0;
        let d0 = delivered(s, ops.drop_last());
        let a0 = accepted(s, ops.drop_last());
        match ops.last() {
            StreamOp::Push(e) => {
                if before.step(ops.last()).1 == StreamAnswer::Done {
                    assert(d0 + before.queue.push(e) =~= (d0 + before.queue).push(e));
                }
            },
            StreamOp::Next => {
                if before.queue.len() > 0 {
                    assert(d0 + before.queue =~= d0.push(before.queue[0])
                        + before.queue.drop_first());
                }
            },
            _ => {},
        }
    } else {
        assert(accepted(s, ops) =~= delivered(s, ops) + run(s, ops).queue);
    }
}

/// A stream takes in at most one terminal event, and nothing after it; when it
/// has taken one in, it is closed by it.
pub proof fn law_one_terminal_event(capacity: nat, ops: Seq<StreamOp>)
    requires
        capacity > 0,
    ensures
        ({
            let a = accepted(fresh_stream(capacity), ops);
            forall|i: int|
                0 <= i < a.len() && event::is_terminal_type(#[trigger] a[i].event_type) ==> i
                    == a.len() - 1 && run(fresh_stream(capacity), ops).closed == Some(
                    CloseView::Terminal,
                )
        }),
    decreases ops.len(),
{
    if ops.len() > 0 {
        law_one_terminal_event(capacity, ops.drop_last());
        law_stream_stays_valid(capacity, ops.drop_last());
        let s = fresh_stream(capacity);
        let a0 = accepted(s, ops.drop_last());
        let a = accepted(s, ops);
        assert forall|i: int|
            0 <= i < a.len() && event::is_terminal_type(#[trigger] a[i].event_type) implies i
            == a.len() - 1 && run(s, ops).closed == Some(CloseView::Terminal) by {
            if i < a0.len() {
                assert(a0[i] == a[i]);
            }
        }
    }
}

/// After a stream was cancelled, it takes in nothing and hands out nothing:
/// every operation of the producer and every wait for an event answers that the
/// stream is cancelled.
pub proof fn law_cancelled_stream_is_silent(s: StreamView, ops: Seq<StreamOp>, op: StreamOp)
    requires
        s.valid(),
        s.cancelled,
    ensures
        run(s, ops) == s,
        !(op is Cancel) ==> s.step(op).1 == StreamAnswer::Error(error::ErrorView::Cancelled),
        op is Cancel ==> s.step(op).1 == StreamAnswer::Done,
        s.step(op).0 == s,
    decreases ops.len(),
{
    assert(s.queue =~= Seq::empty());
    if ops.len() > 0 {
        law_cancelled_stream_is_silent(s, ops.drop_last(), ops.last());
    }
}

/// A stream that was closed hands out what it still holds before it answers how
/// it was closed, and what closed it stays.
pub proof fn law_closed_stream_drains(s: StreamView, op: StreamOp)
    requires
        s.valid(),
        s.closed is Some,
    ensures
        s.step(op).0.closed == s.closed,
        s.queue.len() > 0 ==> s.step(StreamOp::Next).1 == StreamAnswer::Event(s.queue[0]),
        s.queue.len() == 0 ==> s.step(StreamOp::Next).1 == match s.closed->0 {
            CloseView::Terminal => StreamAnswer::Nothing,
            CloseView::Error(e) => StreamAnswer::Error(e),
        },
{
}

} // verus!
