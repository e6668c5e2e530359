//! The collector: it buffers the samples of the current window and, on
//! request, summarizes and forwards them.

use crate::metrics::{aggregate, aggregate_of, Measurement};
use crate::{CollectorMessage, MEASUREMENT_PERIOD_MS};
use vstd::prelude::*;

verus! {

/// Whether the collector still works.
#[derive(Clone, Copy, Debug, PartialEq, Eq, Structural)]
pub enum CollectorState {
    Running,
    /// Terminal: a stopped collector never runs again.
    Stopped,
}

/// What a look at the control queue found, without waiting.
#[derive(Clone, Copy, Debug, PartialEq, Eq, Structural)]
pub enum ControlPoll {
    Message(CollectorMessage),
    /// No message is waiting.
    Empty,
    /// Every sender of the queue is gone.
    Disconnected,
}

/// What the collector's driver does next.
#[derive(Clone, Copy, Debug, PartialEq, Eq)]
pub enum CollectorAction {
    /// Wait for this many milliseconds, then take the next tick.
    Sleep(u64),
    /// Hand the summary to the publisher's queue, then report with
    /// `Collector::forwarded` whether the queue took it.
    Forward(Measurement),
    /// Leave the loop.
    Exit,
}

/// The collector's state: the samples of the current window, oldest first,
/// and whether it still runs.
pub struct Collector {
    series: Vec<Measurement>,
    state: CollectorState,
}

/// The buffer after a sample was offered: a running collector appends it, a
/// stopped one ignores it.
pub open spec fn record_of(
    state: CollectorState,
    buffer: Seq<Measurement>,
    sample: Measurement,
) -> Seq<Measurement> {
    match state {
        CollectorState::Running => buffer.push(sample),
        CollectorState::Stopped => buffer,
    }
}

/// State, buffer and action after a look at the control queue.
///
/// A running collector that is asked for a summary forwards the summary of
/// its buffer and empties the buffer, unless the buffer is empty; asked to
/// quit, it stops and leaves the buffer as it is; with nothing asked, it
/// goes on; in each case but the first it waits for one sampling period
/// before the next tick. A stopped collector stays stopped.
pub open spec fn control_of(
    state: CollectorState,
    buffer: Seq<Measurement>,
    polled: ControlPoll,
) -> (CollectorState, Seq<Measurement>, CollectorAction) {
    match state {
        CollectorState::Stopped => (CollectorState::Stopped, buffer, CollectorAction::Exit),
        CollectorState::Running => match polled {
            ControlPoll::Message(CollectorMessage::Aggregation) => match aggregate_of(buffer) {
                Some(summary) => (
                    CollectorState::Running,
                    Seq::empty(),
                    CollectorAction::Forward(summary),
                ),
                None => (
                    CollectorState::Running,
                    buffer,
                    CollectorAction::Sleep(MEASUREMENT_PERIOD_MS),
                ),
            },
            ControlPoll::Message(CollectorMessage::Quit) => (
                CollectorState::Stopped,
                buffer,
                CollectorAction::Exit,
            ),
            ControlPoll::Empty | ControlPoll::Disconnected => (
                CollectorState::Running,
                buffer,
                CollectorAction::Sleep(MEASUREMENT_PERIOD_MS),
            ),
        },
    }
}

/// State and action after the publisher's queue took a summary or refused it:
/// a refusal stops the collector.
pub open spec fn forwarded_of(state: CollectorState, delivered: bool) -> (
    CollectorState,
    CollectorAction,
) {
    match state {
        CollectorState::Running if delivered => (
            CollectorState::Running,
            CollectorAction::Sleep(MEASUREMENT_PERIOD_MS),
        ),
        _ => (CollectorState::Stopped, CollectorAction::Exit),
    }
}

impl Collector {
    /// The samples of the current window, oldest first.
    pub closed spec fn buffer(&self) -> Seq<Measurement> {
        self.series@
    }

    /// Whether the collector still works.
    pub closed spec fn state(&self) -> CollectorState {
        self.state
    }

    /// A running collector with an empty buffer.
    pub fn new() -> (collector: Collector)
        ensures
            collector.state() == CollectorState::Running,
            collector.buffer() == Seq::<Measurement>::empty(),
    {
        Collector { series: Vec::new(), state: CollectorState::Running }
    }

    /// Whether the collector still works.
    pub fn is_running(&self) -> (running: bool)
        ensures
            running == (self.state() == CollectorState::Running),
    {
        match self.state {
            CollectorState::Running => true,
            CollectorState::Stopped => false,
        }
    }

    /// The number of samples in the current window.
    pub fn buffered(&self) -> (count: usize)
        ensures
            count == self.buffer().len(),
    {
        self.series.len()
    }

    /// Takes the sample of a tick into the current window.
    pub fn record(&mut self, sample: Measurement)
        ensures
            final(self).state() == old(self).state(),
            final(self).buffer() == record_of(old(self).state(), old(self).buffer(), sample),
    {
        match self.state {
            CollectorState::Running => {
                self.series.push(sample);
            },
            CollectorState::Stopped => {},
        }
    }

    /// Acts on what a look at the control queue found.
    pub fn control(&mut self, polled: ControlPoll) -> (action: CollectorAction)
        requires
            old(self).buffer().len() <= u32::MAX,
        ensures
            (final(self).state(), final(self).buffer(), action) == control_of(
                old(self).state(),
                old(self).buffer(),
                polled,
            ),
    {
        match self.state {
            CollectorState::Stopped => CollectorAction::Exit,
            CollectorState::Running => match polled {
                ControlPoll::Message(CollectorMessage::Aggregation) => {
                    match aggregate(self.series.as_slice()) {
                        Some(summary) => {
                            self.series.clear();
                            CollectorAction::Forward(summary)
                        },
                        None => CollectorAction::Sleep(MEASUREMENT_PERIOD_MS),
                    }
                },
                ControlPoll::Message(CollectorMessage::Quit) => {
                    self.state = CollectorState::Stopped;
                    CollectorAction::Exit
                },
                ControlPoll::Empty | ControlPoll::Disconnected => CollectorAction::Sleep(
                    MEASUREMENT_PERIOD_MS,
                ),
            },
        }
    }

    /// Acts on whether the publisher's queue took the summary that the last
    /// `Forward` handed out.
    pub fn forwarded(&mut self, delivered: bool) -> (action: CollectorAction)
        ensures
            (final(self).state(), action) == forwarded_of(old(self).state(), delivered),
            final(self).buffer() == old(self).buffer(),
    {
        match self.state {
            CollectorState::Running if delivered => CollectorAction::Sleep(MEASUREMENT_PERIOD_MS),
            _ => {
                self.state = CollectorState::Stopped;
                CollectorAction::Exit
            },
        }
    }
}

/// What one tick brings: the sample taken, what the look at the control
/// queue found, and whether the publisher's queue takes a summary, should
/// the tick forward one.
pub struct Tick {
    pub sample: Measurement,
    pub polled: ControlPoll,
    pub delivered: bool,
}

/// What a run of ticks comes to.
pub struct Run {
    /// The collector's state after the run.
    pub state: CollectorState,
    /// The collector's buffer after the run.
    pub buffer: Seq<Measurement>,
    /// The summaries handed to the publisher's queue, in the order of their
    /// making.
    pub forwarded: Seq<Measurement>,
    /// The number of samples taken into the buffer.
    pub sampled: nat,
    /// The number of requests for a summary that reached the collector while
    /// it ran.
    pub requested: nat,
}

/// State and buffer after one tick of the loop, and the summary that the
/// tick forwarded: the sample is recorded, then the control queue is looked
/// at, then a summary is handed on. A stopped collector does nothing.
pub open spec fn tick_of(state: CollectorState, buffer: Seq<Measurement>, tick: Tick) -> (
    CollectorState,
    Seq<Measurement>,
    Option<Measurement>,
) {
    let recorded = record_of(state, buffer, tick.sample);
    let (polled_state, polled_buffer, action) = control_of(state, recorded, tick.polled);
    match action {
        CollectorAction::Forward(summary) => (
            forwarded_of(polled_state, tick.delivered).0,
            polled_buffer,
            Some(summary),
        ),
        _ => (polled_state, polled_buffer, None),
    }
}

/// What the loop comes to when it is driven through `ticks`, one after the
/// other, from `state` and `buffer`.
pub open spec fn run_of(state: CollectorState, buffer: Seq<Measurement>, ticks: Seq<Tick>) -> Run
    decreases ticks.len(),
{
    if ticks.len() == 0 {
        Run { state, buffer, forwarded: Seq::empty(), sampled: 0, requested: 0 }
    } else {
        let first = ticks.first();
        let (next_state, next_buffer, summary) = tick_of(state, buffer, first);
        let rest = run_of(next_state, next_buffer, ticks.drop_first());
        let running = state == CollectorState::Running;
        Run {
            state: rest.state,
            buffer: rest.buffer,
            forwarded: match summary {
                Some(summary) => seq![summary] + rest.forwarded,
                None => rest.forwarded,
            },
            sampled: rest.sampled + if running {
                1nat
            } else {
                0nat
            },
            requested: rest.requested + if running && first.polled == ControlPoll::Message(
                CollectorMessage::Aggregation,
            ) {
                1nat
            } else {
                0nat
            },
        }
    }
}

/// The number of samples that `summaries` count in all.
pub open spec fn samples_counted(summaries: Seq<Measurement>) -> nat
    decreases summaries.len(),
{
    if summaries.len() == 0 {
        0
    } else {
        summaries.first().sample_count as nat + samples_counted(summaries.drop_first())
    }
}

/// A stopped collector stays stopped: whatever the ticks bring, it forwards
/// nothing, takes no sample and keeps its buffer.
pub proof fn lemma_stopped_is_terminal(buffer: Seq<Measurement>, ticks: Seq<Tick>)
    ensures
        run_of(CollectorState::Stopped, buffer, ticks) == (Run {
            state: CollectorState::Stopped,
            buffer,
            forwarded: Seq::empty(),
            sampled: 0,
            requested: 0,
        }),
    decreases ticks.len(),
{
    if ticks.len() > 0 {
        lemma_stopped_is_terminal(buffer, ticks.drop_first());
    }
}

/// Every request for a summary that reaches a running collector in the
/// course of `ticks` is answered by exactly one summary, and every summary
/// counts at least one sample.
pub proof fn lemma_one_summary_per_request(
    state: CollectorState,
    buffer: Seq<Measurement>,
    ticks: Seq<Tick>,
)
    requires
        buffer.len() + ticks.len() <= u32::MAX,
    ensures
        run_of(state, buffer, ticks).forwarded.len() == run_of(state, buffer, ticks).requested,
        forall|i: int|
            0 <= i < run_of(state, buffer, ticks).forwarded.len() ==> run_of(
                state,
                buffer,
                ticks,
            ).forwarded[i].sample_count >= 1,
    decreases ticks.len(),
{
    if ticks.len() > 0 {
        let first = ticks.first();
        let (next_state, next_buffer, summary) = tick_of(state, buffer, first);
        lemma_one_summary_per_request(next_state, next_buffer, ticks.drop_first());
        let rest = run_of(next_state, next_buffer, ticks.drop_first());
        let whole = run_of(state, buffer, ticks);
        match summary {
            Some(made) => {
                assert(whole.forwarded == seq![made] + rest.forwarded);
                assert forall|i: int|
                    0 <= i < whole.forwarded.len() implies whole.forwarded[i].sample_count
                    >= 1 by {
                    if i > 0 {
                        assert(whole.forwarded[i] == rest.forwarded[i - 1]);
                    }
                }
            },
            None => {},
        }
    }
}

/// No sample is lost or counted twice: the samples that the forwarded
/// summaries count and those still in the buffer are the samples that the
/// buffer held at first and those taken in the course of `ticks`.
pub proof fn lemma_samples_conserved(
    state: CollectorState,
    buffer: Seq<Measurement>,
    ticks: Seq<Tick>,
)
    requires
        buffer.len() + ticks.len() <= u32::MAX,
    ensures
        samples_counted(run_of(state, buffer, ticks).forwarded) + run_of(
            state,
            buffer,
            ticks,
        ).buffer.len() == buffer.len() + run_of(state, buffer, ticks).sampled,
    decreases ticks.len(),
{
    if ticks.len() > 0 {
        let first = ticks.first();
        let (next_state, next_buffer, summary) = tick_of(state, buffer, first);
        lemma_samples_conserved(next_state, next_buffer, ticks.drop_first());
        let rest = run_of(next_state, next_buffer, ticks.drop_first());
        let whole = run_of(state, buffer, ticks);
        match summary {
            Some(made) => {
                assert(whole.forwarded == seq![made] + rest.forwarded);
                assert(whole.forwarded.drop_first() =~= rest.forwarded);
            },
            None => {},
        }
    }
}

} // verus!
