//! The exporter's batching rule.
//!
//! [`Batcher::step`] takes one thing that happened and says what to do next. The caller owns the
//! channel and the clock: it performs the action and reports the next event.

use crate::constant::{BATCH_MAX_SIZE, BATCH_TIMEOUT_MS};
use crate::exporter::event::LogEvent;
use vstd::prelude::*;

verus! {

/// What the exporter waits for.
pub enum ExporterEvent {
    /// The channel delivered an event.
    Received(LogEvent),
    /// The flush timeout ran out.
    TimeoutExpired,
    /// The channel is closed and empty.
    ChannelClosed,
}

/// Why a batch is flushed.
#[derive(Clone, Copy, Debug, PartialEq, Eq, Structural)]
pub enum FlushReason {
    /// The batch is full.
    MaxBatchSize,
    /// The flush timeout ran out.
    Timeout,
    /// The exporter stops.
    Shutdown,
}

/// What the exporter does next.
#[derive(Debug)]
pub enum ExporterAction {
    /// Wait for the next event.
    Wait,
    /// Start the flush timeout, then wait.
    StartTimeout { timeout_ms: u64 },
    /// Deliver a batch, after cancelling the flush timeout if it still runs, then wait.
    Flush { reason: FlushReason, cancel_timeout: bool, events: Vec<LogEvent> },
    /// Leave the loop.
    Stop,
}

/// An [`ExporterAction`] with its batch as a sequence.
pub enum ActionView {
    Wait,
    StartTimeout { timeout_ms: u64 },
    Flush { reason: FlushReason, cancel_timeout: bool, events: Seq<LogEvent> },
    Stop,
}

impl View for ExporterAction {
    type V = ActionView;

    open spec fn view(&self) -> ActionView {
        match self {
            ExporterAction::Wait => ActionView::Wait,
            ExporterAction::StartTimeout { timeout_ms } => ActionView::StartTimeout {
                timeout_ms: *timeout_ms,
            },
            ExporterAction::Flush { reason, cancel_timeout, events } => ActionView::Flush {
                reason: *reason,
                cancel_timeout: *cancel_timeout,
                events: events@,
            },
            ExporterAction::Stop => ActionView::Stop,
        }
    }
}

/// The state of a [`Batcher`]: the buffered events, oldest first, and whether the flush timeout
/// runs.
pub struct BatchState {
    pub events: Seq<LogEvent>,
    pub timeout_running: bool,
}

impl BatchState {
    /// Nothing is buffered and no timeout runs.
    pub open spec fn empty() -> BatchState {
        BatchState { events: Seq::empty(), timeout_running: false }
    }

    /// The buffer is never full between two steps, and the timeout runs exactly while it holds
    /// something.
    pub open spec fn valid(self) -> bool {
        &&& self.events.len() < BATCH_MAX_SIZE
        &&& self.timeout_running <==> self.events.len() > 0
    }

    /// The buffer with one more event would be full.
    pub open spec fn fills_up(self) -> bool {
        self.events.len() + 1 >= BATCH_MAX_SIZE
    }

    /// The state after `event`.
    pub open spec fn after(self, event: ExporterEvent) -> BatchState {
        match event {
            ExporterEvent::Received(received) => if self.fills_up() {
                BatchState::empty()
            } else {
                BatchState { events: self.events.push(received), timeout_running: true }
            },
            ExporterEvent::TimeoutExpired => if self.timeout_running {
                BatchState::empty()
            } else {
                self
            },
            ExporterEvent::ChannelClosed => self,
        }
    }

    /// What `event` calls for.
    pub open spec fn action(self, event: ExporterEvent) -> ActionView {
        match event {
            ExporterEvent::Received(received) => if self.fills_up() {
                ActionView::Flush {
                    reason: FlushReason::MaxBatchSize,
                    cancel_timeout: self.timeout_running,
                    events: self.events.push(received),
                }
            } else if self.events.len() == 0 {
                ActionView::StartTimeout { timeout_ms: BATCH_TIMEOUT_MS }
            } else {
                ActionView::Wait
            },
            ExporterEvent::TimeoutExpired => if self.timeout_running {
                ActionView::Flush {
                    reason: FlushReason::Timeout,
                    cancel_timeout: false,
                    events: self.events,
                }
            } else {
                ActionView::Wait
            },
            ExporterEvent::ChannelClosed => ActionView::Stop,
        }
    }

    /// What is left to deliver when the exporter stops, or `None` where nothing is.
    pub open spec fn remaining(self) -> Option<Seq<LogEvent>> {
        if self.events.len() == 0 {
            None
        } else {
            Some(self.events)
        }
    }
}

/// The exporter's buffer of events that wait for delivery.
#[derive(Debug)]
pub struct Batcher {
    events: Vec<LogEvent>,
    timeout_running: bool,
}

impl View for Batcher {
    type V = BatchState;

    closed spec fn view(&self) -> BatchState {
        BatchState { events: self.events@, timeout_running: self.timeout_running }
    }
}

impl Batcher {
    /// A batcher with nothing buffered.
    pub fn new() -> (batcher: Batcher)
        ensures
            batcher@ == BatchState::empty(),
            batcher@.valid(),
    {
        let batcher = Batcher {
            events: Vec::with_capacity(BATCH_MAX_SIZE),
            timeout_running: false,
        };
        assert(batcher@.events =~= Seq::empty());
        batcher
    }

    /// Number of buffered events.
    pub fn len(&self) -> (len: usize)
        ensures
            len == self@.events.len(),
    {
        self.events.len()
    }

    /// Whether the flush timeout is running.
    pub fn timeout_running(&self) -> (running: bool)
        ensures
            running == self@.timeout_running,
    {
        self.timeout_running
    }

    /// Takes account of `event` and says what to do next.
    ///
    /// An event that arrives in an empty buffer starts the flush timeout. An event that fills the
    /// buffer, or the end of the timeout, hands the whole buffer out for delivery. When the channel
    /// closes, the exporter stops, and [`Batcher::finish`] hands out what is left.
    pub fn step(&mut self, event: ExporterEvent) -> (action: ExporterAction)
        requires
            old(self)@.valid(),
        ensures
            final(self)@ == old(self)@.after(event),
            final(self)@.valid(),
            action@ == old(self)@.action(event),
    {
        match event {
            ExporterEvent::Received(received) => {
                let starts = self.events.len() == 0;
                if starts {
                    self.timeout_running = true;
                }
                self.events.push(received);
                if self.events.len() >= BATCH_MAX_SIZE {
                    let cancel_timeout = self.timeout_running;
                    self.timeout_running = false;
                    let events = self.take_events();
                    ExporterAction::Flush {
                        reason: FlushReason::MaxBatchSize,
                        cancel_timeout,
                        events,
                    }
                } else if starts {
                    ExporterAction::StartTimeout { timeout_ms: BATCH_TIMEOUT_MS }
                } else {
                    ExporterAction::Wait
                }
            },
            ExporterEvent::TimeoutExpired => {
                if self.timeout_running {
                    self.timeout_running = false;
                    let events = self.take_events();
                    ExporterAction::Flush {
                        reason: FlushReason::Timeout,
                        cancel_timeout: false,
                        events,
                    }
                } else {
                    ExporterAction::Wait
                }
            },
            ExporterEvent::ChannelClosed => ExporterAction::Stop,
        }
    }

    /// Hands out what is still buffered when the exporter stops, for the flush at shutdown, or
    /// `None` where nothing is.
    pub fn finish(self) -> (remaining: Option<Vec<LogEvent>>)
        ensures
            match remaining {
                Some(events) => self@.remaining() == Some(events@),
                None => self@.remaining() is None,
            },
    {
        if self.events.len() == 0 {
            None
        } else {
            Some(self.events)
        }
    }

    /// Empties the buffer and returns what it held.
    fn take_events(&mut self) -> (events: Vec<LogEvent>)
        ensures
            events@ == old(self)@.events,
            final(self)@ == (BatchState { events: Seq::empty(), ..old(self)@ }),
    {
        let mut events: Vec<LogEvent> = Vec::with_capacity(BATCH_MAX_SIZE);
        std::mem::swap(&mut events, &mut self.events);
        assert(self@.events =~= Seq::empty());
        events
    }
}

/// The events that a history delivered through the channel, in order.
pub open spec fn received(history: Seq<ExporterEvent>) -> Seq<LogEvent>
    decreases history.len(),
{
    if history.len() == 0 {
        Seq::empty()
    } else {
        match history.last() {
            ExporterEvent::Received(event) => received(history.drop_last()).push(event),
            _ => received(history.drop_last()),
        }
    }
}

/// The state that a history leads to from an empty buffer.
pub open spec fn state_after(history: Seq<ExporterEvent>) -> BatchState
    decreases history.len(),
{
    if history.len() == 0 {
        BatchState::empty()
    } else {
        state_after(history.drop_last()).after(history.last())
    }
}

/// The events that the steps of a history handed out for delivery, in order.
pub open spec fn handed_out(history: Seq<ExporterEvent>) -> Seq<LogEvent>
    decreases history.len(),
{
    if history.len() == 0 {
        Seq::empty()
    } else {
        let before = handed_out(history.drop_last());
        match state_after(history.drop_last()).action(history.last()) {
            ActionView::Flush { events, .. } => before + events,
            _ => before,
        }
    }
}

/// Whatever happens, every event that was received is handed out for delivery exactly once and in
/// the order of arrival, or still waits in the buffer; and the state stays valid.
pub proof fn law_every_event_leaves_once_and_in_order(history: Seq<ExporterEvent>)
    ensures
        handed_out(history) + state_after(history).events == received(history),
        state_after(history).valid(),
    decreases history.len(),
{
    if history.len() > 0 {
        let prior = history.drop_last();
        law_every_event_leaves_once_and_in_order(prior);
        let state = state_after(prior);
        match history.last() {
            ExporterEvent::Received(event) => {
                assert(handed_out(prior) + state.events.push(event) =~= received(prior).push(
                    event,
                ));
                if state.fills_up() {
                    assert(handed_out(history) + state_after(history).events =~= handed_out(history));
                }
            },
            ExporterEvent::TimeoutExpired => {
                if state.timeout_running {
                    assert(handed_out(history) + state_after(history).events =~= handed_out(history));
                }
            },
            ExporterEvent::ChannelClosed => {},
        }
    } else {
        assert(handed_out(history) + state_after(history).events =~= received(history));
    }
}

/// A batch that is handed out holds at least one event and at most [`BATCH_MAX_SIZE`]; one handed
/// out for its size holds exactly that many.
pub proof fn law_batch_sizes(state: BatchState, event: ExporterEvent)
    requires
        state.valid(),
    ensures
        match state.action(event) {
            ActionView::Flush { reason, events, .. } => {
                &&& 1 <= events.len() <= BATCH_MAX_SIZE
                &&& reason == FlushReason::MaxBatchSize ==> events.len() == BATCH_MAX_SIZE
            },
            _ => true,
        },
{
}

/// The flush timeout is started exactly when an event arrives in an empty buffer, and it runs
/// exactly while something is buffered.
pub proof fn law_timeout_covers_the_batch(state: BatchState, event: ExporterEvent)
    requires
        state.valid(),
    ensures
        state.action(event) is StartTimeout <==> state.events.len() == 0 && event is Received,
        state.after(event).timeout_running <==> state.after(event).events.len() > 0,
{
}

/// The exporter stops exactly when the channel closes, whatever is buffered and whether or not the
/// timeout runs.
pub proof fn law_stops_when_the_channel_closes(state: BatchState, event: ExporterEvent)
    ensures
        state.action(event) is Stop <==> event is ChannelClosed,
        state.after(ExporterEvent::ChannelClosed) == state,
{
}

/// Nothing is lost at shutdown: whenever the exporter stops, what it handed out before, followed by
/// what [`Batcher::finish`] hands out, is everything that it received, once and in order.
pub proof fn law_shutdown_hands_out_the_rest(history: Seq<ExporterEvent>)
    ensures
        received(history) == handed_out(history) + (match state_after(history).remaining() {
            Some(events) => events,
            None => Seq::empty(),
        }),
{
    law_every_event_leaves_once_and_in_order(history);
    assert(state_after(history).events.len() == 0 ==> state_after(history).events
        =~= Seq::<LogEvent>::empty());
}

/// A history in which each event carries the time in milliseconds at which it was reported.
pub open spec fn untimed(history: Seq<(int, ExporterEvent)>) -> Seq<ExporterEvent> {
    history.map_values(|entry: (int, ExporterEvent)| entry.1)
}

/// When the events arrived that are buffered at the end of a history, oldest first.
pub open spec fn arrivals(history: Seq<(int, ExporterEvent)>) -> Seq<int>
    decreases history.len(),
{
    if history.len() == 0 {
        Seq::empty()
    } else {
        let before = arrivals(history.drop_last());
        let state = state_after(untimed(history.drop_last()));
        match history.last().1 {
            ExporterEvent::Received(_) => if state.fills_up() {
                Seq::empty()
            } else {
                before.push(history.last().0)
            },
            ExporterEvent::TimeoutExpired => if state.timeout_running {
                Seq::empty()
            } else {
                before
            },
            ExporterEvent::ChannelClosed => before,
        }
    }
}

/// When the timeout that was started last in a history runs out.
pub open spec fn deadline(history: Seq<(int, ExporterEvent)>) -> int
    decreases history.len(),
{
    if history.len() == 0 {
        0
    } else {
        match state_after(untimed(history.drop_last())).action(history.last().1) {
            ActionView::StartTimeout { timeout_ms } => history.last().0 + timeout_ms,
            _ => deadline(history.drop_last()),
        }
    }
}

/// Time does not run backwards, and nothing is reported after the end of a running timeout before
/// that end itself is.
pub open spec fn punctual(history: Seq<(int, ExporterEvent)>) -> bool
    decreases history.len(),
{
    if history.len() == 0 {
        true
    } else {
        let prior = history.drop_last();
        &&& punctual(prior)
        &&& prior.len() > 0 ==> prior.last().0 <= history.last().0
        &&& state_after(untimed(prior)).timeout_running ==> history.last().0 <= deadline(prior)
    }
}

/// In a punctual history the oldest buffered event started the running timeout, and the others came
/// after it.
proof fn lemma_deadline_of_oldest(history: Seq<(int, ExporterEvent)>)
    requires
        punctual(history),
    ensures
        state_after(untimed(history)).valid(),
        arrivals(history).len() == state_after(untimed(history)).events.len(),
        arrivals(history).len() > 0 ==> deadline(history) == arrivals(history)[0]
            + BATCH_TIMEOUT_MS,
        forall|i: int|
            0 <= i < arrivals(history).len() ==> arrivals(history)[0] <= #[trigger] arrivals(
                history,
            )[i] <= history.last().0,
    decreases history.len(),
{
    law_every_event_leaves_once_and_in_order(untimed(history));
    if history.len() > 0 {
        let prior = history.drop_last();
        lemma_deadline_of_oldest(prior);
        assert(untimed(history).drop_last() =~= untimed(prior));
        assert(untimed(history).last() == history.last().1);
    }
}

/// No event waits longer than [`BATCH_TIMEOUT_MS`]: whenever something is reported in a punctual
/// history, which includes every moment at which a batch is handed out, each buffered event arrived
/// at most that long ago.
pub proof fn law_no_event_waits_longer_than_the_timeout(history: Seq<(int, ExporterEvent)>)
    requires
        punctual(history),
        history.len() > 0,
    ensures
        arrivals(history.drop_last()).len() == state_after(
            untimed(history.drop_last()),
        ).events.len(),
        forall|i: int|
            0 <= i < arrivals(history.drop_last()).len() ==> history.last().0 - #[trigger] arrivals(
                history.drop_last(),
            )[i] <= BATCH_TIMEOUT_MS,
{
    lemma_deadline_of_oldest(history.drop_last());
}

/// An event that arrives joins the buffer behind the others. Up to 99 of them wait, and the timeout
/// runs. The event number 100 empties the buffer: all 100 are handed out, and a running timeout is
/// cancelled.
pub proof fn law_arriving_event_joins_the_batch(state: BatchState, event: LogEvent)
    requires
        state.valid(),
    ensures
        ({
            let after = state.after(ExporterEvent::Received(event));
            let action = state.action(ExporterEvent::Received(event));
            if state.events.len() < 99 {
                &&& after.events == state.events.push(event)
                &&& after.timeout_running
                &&& !(action is Flush) && !(action is Stop)
                &&& action == (ActionView::StartTimeout { timeout_ms: 10000 })
                    <==> state.events.len() == 0
            } else {
                &&& state.events.len() == 99
                &&& after.events.len() == 0 && !after.timeout_running
                &&& action == (ActionView::Flush {
                    reason: FlushReason::MaxBatchSize,
                    cancel_timeout: true,
                    events: state.events.push(event),
                })
            }
        }),
{
}

/// When a running timeout ends, everything that is buffered is handed out, and nothing stays. Without
/// one, its end changes nothing.
pub proof fn law_timeout_empties_the_buffer(state: BatchState)
    requires
        state.valid(),
    ensures
        ({
            let after = state.after(ExporterEvent::TimeoutExpired);
            let action = state.action(ExporterEvent::TimeoutExpired);
            if state.events.len() > 0 {
                &&& after.events.len() == 0 && !after.timeout_running
                &&& action == (ActionView::Flush {
                    reason: FlushReason::Timeout,
                    cancel_timeout: false,
                    events: state.events,
                })
            } else {
                after == state && action is Wait
            }
        }),
{
}

/// What is left at shutdown is the whole buffer, and there is something left exactly where the buffer
/// is not empty.
pub proof fn law_remaining_is_the_buffer(state: BatchState)
    ensures
        state.remaining() is None <==> state.events.len() == 0,
        state.events.len() > 0 ==> state.remaining() == Some(state.events),
{
}

} // verus!
