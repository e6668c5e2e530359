//! The pipeline as a whole: heartbeat, collector, publisher and shutdown
//! coordinator, each taking its steps in any order, joined by two queues.
//!
//! The model takes the tasks' steps from the state machines of this crate
//! and proves of every order of steps that a completed shutdown has lost no
//! summary.
//!
//! A step is taken at once, and a queue holds as many messages as are put
//! into it: a bound on a queue makes its sender wait for room, which delays
//! the sender's step.

use crate::collector::{tick_of, CollectorState, ControlPoll, Tick};
use crate::metrics::Measurement;
use crate::publisher::{received_of, sent_of, PublisherAction, PublisherState};
use crate::shutdown::{advance_of, DrainStep, ShutdownAction, ShutdownState};
use crate::{CollectorMessage, PublisherMessage};
use vstd::prelude::*;

verus! {

/// The state of the pipeline.
pub struct Pipeline {
    /// How far the shutdown has come.
    pub coordinator: ShutdownState,
    /// Whether the collector still works.
    pub collector: CollectorState,
    /// The samples of the collector's current window.
    pub buffer: Seq<Measurement>,
    /// Whether the publisher still works.
    pub publisher: PublisherState,
    /// Every message that was put into the collector's control queue, oldest
    /// first.
    pub requested: Seq<CollectorMessage>,
    /// How many of them the collector has taken out of the queue.
    pub polled: nat,
    /// The messages that wait in the publisher's queue, oldest first.
    pub queued: Seq<PublisherMessage>,
    /// Every summary that the collector put into the publisher's queue, oldest
    /// first.
    pub forwarded: Seq<Measurement>,
    /// Every summary that the sink was handed, oldest first.
    pub sink: Seq<Measurement>,
}

/// One step of one task.
pub enum Event {
    /// The heartbeat fires.
    Heartbeat,
    /// The collector ticks and takes this sample.
    Tick(Measurement),
    /// The publisher takes the next message of its queue; the sink takes the
    /// summary that it is handed, or fails.
    Publish(bool),
    /// The coordinator takes its next step: at the first reason to shut
    /// down, and then when the action under way is done.
    Shutdown,
}

/// The pipeline at its start: both tasks run, the queues are empty, no
/// reason to shut down has occurred.
pub open spec fn initial() -> Pipeline {
    Pipeline {
        coordinator: ShutdownState::Idle,
        collector: CollectorState::Running,
        buffer: Seq::empty(),
        publisher: PublisherState::Running,
        requested: Seq::empty(),
        polled: 0,
        queued: Seq::empty(),
        forwarded: Seq::empty(),
        sink: Seq::empty(),
    }
}

/// What a look at the control queue finds.
pub open spec fn waiting(p: Pipeline) -> ControlPoll {
    if p.polled < p.requested.len() {
        ControlPoll::Message(p.requested[p.polled as int])
    } else {
        ControlPoll::Empty
    }
}

/// Whether the action of the shutdown that is under way is done: a message
/// is sent at once, a task is joined when it has stopped.
pub open spec fn action_done(p: Pipeline) -> bool {
    match p.coordinator {
        ShutdownState::Draining(DrainStep::CollectorJoin) => p.collector == CollectorState::Stopped,
        ShutdownState::Draining(DrainStep::PublisherJoin) => p.publisher == PublisherState::Stopped,
        _ => true,
    }
}

/// The pipeline after the heartbeat fired: a request for a summary is in the
/// control queue, unless the collector, and with it the queue, is gone.
pub open spec fn after_heartbeat(p: Pipeline) -> Pipeline {
    match p.collector {
        CollectorState::Running => Pipeline {
            requested: p.requested.push(CollectorMessage::Aggregation),
            ..p
        },
        CollectorState::Stopped => p,
    }
}

/// The pipeline after a tick of the collector: it takes the sample, looks at
/// the control queue and puts the summary, if it makes one, into the
/// publisher's queue, which takes it as long as the publisher runs.
pub open spec fn after_tick(p: Pipeline, sample: Measurement) -> Pipeline {
    match p.collector {
        CollectorState::Stopped => p,
        CollectorState::Running => {
            let tick = Tick {
                sample,
                polled: waiting(p),
                delivered: p.publisher == PublisherState::Running,
            };
            let (collector, buffer, summary) = tick_of(p.collector, p.buffer, tick);
            let polled = if p.polled < p.requested.len() {
                p.polled + 1
            } else {
                p.polled
            };
            match summary {
                Some(summary) if tick.delivered => Pipeline {
                    collector,
                    buffer,
                    polled,
                    queued: p.queued.push(PublisherMessage::Metric(summary)),
                    forwarded: p.forwarded.push(summary),
                    ..p
                },
                _ => Pipeline { collector, buffer, polled, ..p },
            }
        },
    }
}

/// The pipeline after a step of the publisher: it takes the oldest message
/// of its queue, if it runs and one waits, and hands a summary to the sink.
pub open spec fn after_publish(p: Pipeline, delivered: bool) -> Pipeline {
    if p.publisher == PublisherState::Running && p.queued.len() > 0 {
        let (received, action) = received_of(p.publisher, Some(p.queued.first()));
        match action {
            PublisherAction::Send(summary) => Pipeline {
                publisher: sent_of(received, delivered).0,
                queued: p.queued.drop_first(),
                sink: p.sink.push(summary),
                ..p
            },
            _ => Pipeline { publisher: received, queued: p.queued.drop_first(), ..p },
        }
    } else {
        p
    }
}

/// The pipeline after a step of the coordinator, which it takes only when
/// the action under way is done: a message that the step sends is in its
/// queue.
pub open spec fn after_shutdown(p: Pipeline) -> Pipeline {
    if action_done(p) {
        let (coordinator, action) = advance_of(p.coordinator);
        match action {
            ShutdownAction::SendCollector(message) => Pipeline {
                coordinator,
                requested: p.requested.push(message),
                ..p
            },
            ShutdownAction::SendPublisher(message) => Pipeline {
                coordinator,
                queued: p.queued.push(message),
                ..p
            },
            _ => Pipeline { coordinator, ..p },
        }
    } else {
        p
    }
}

/// The pipeline after one step of one task.
pub open spec fn step(p: Pipeline, event: Event) -> Pipeline {
    match event {
        Event::Heartbeat => after_heartbeat(p),
        Event::Tick(sample) => after_tick(p, sample),
        Event::Publish(delivered) => after_publish(p, delivered),
        Event::Shutdown => after_shutdown(p),
    }
}

/// The pipeline after the steps `events`, taken one after the other.
pub open spec fn run(p: Pipeline, events: Seq<Event>) -> Pipeline
    decreases events.len(),
{
    if events.len() == 0 {
        p
    } else {
        step(run(p, events.drop_last()), events.last())
    }
}

/// The summaries among `messages`, in their order.
pub open spec fn summaries_of(messages: Seq<PublisherMessage>) -> Seq<Measurement>
    decreases messages.len(),
{
    if messages.len() == 0 {
        Seq::empty()
    } else {
        match messages.last() {
            PublisherMessage::Metric(summary) => summaries_of(messages.drop_last()).push(summary),
            PublisherMessage::Quit => summaries_of(messages.drop_last()),
        }
    }
}

/// The number of messages of `requested` that come before its first request
/// to quit: all of them, where it holds no such request.
pub open spec fn requests_before_quit(requested: Seq<CollectorMessage>) -> nat
    decreases requested.len(),
{
    if requested.len() == 0 || requested.first() == CollectorMessage::Quit {
        0
    } else {
        1 + requests_before_quit(requested.drop_first())
    }
}

/// The publisher has been asked to quit.
pub open spec fn quit_sent(p: Pipeline) -> bool {
    match p.coordinator {
        ShutdownState::Draining(DrainStep::PublisherQuit)
        | ShutdownState::Draining(DrainStep::PublisherJoin)
        | ShutdownState::Done => true,
        _ => false,
    }
}

/// What holds of the pipeline whatever steps were taken.
pub open spec fn consistent(p: Pipeline) -> bool {
    // The collector takes no more out of its queue than was put in.
    &&& p.polled <= p.requested.len()
    // Before the coordinator has asked the collector to quit, nobody has.
    &&& (p.coordinator == ShutdownState::Idle || p.coordinator == ShutdownState::Draining(
        DrainStep::FinalAggregation,
    )) ==> forall|i: int|
        0 <= i < p.requested.len() ==> p.requested[i] == CollectorMessage::Aggregation
    // A running collector has met requests for a summary only, and has
    // answered each with one summary.
    &&& p.collector == CollectorState::Running ==> {
        &&& forall|i: int| 0 <= i < p.polled ==> p.requested[i] == CollectorMessage::Aggregation
        &&& p.forwarded.len() == p.polled
    }
    // A stopped collector met the request to quit last, after it had
    // answered every request before it.
    &&& p.collector == CollectorState::Stopped ==> {
        &&& p.polled >= 1
        &&& p.requested[p.polled - 1] == CollectorMessage::Quit
        &&& forall|i: int|
            0 <= i < p.polled - 1 ==> p.requested[i] == CollectorMessage::Aggregation
        &&& p.forwarded.len() == p.polled - 1
    }
    // Until the publisher is asked to quit it runs, and only summaries wait
    // for it.
    &&& !quit_sent(p) ==> {
        &&& p.publisher == PublisherState::Running
        &&& forall|i: int| 0 <= i < p.queued.len() ==> p.queued[i] is Metric
    }
    // The publisher is asked to quit when the collector has stopped, and the
    // request is the last message of its queue.
    &&& quit_sent(p) ==> {
        &&& p.collector == CollectorState::Stopped
        &&& p.publisher == PublisherState::Running ==> {
            &&& p.queued.len() > 0
            &&& p.queued.last() == PublisherMessage::Quit
            &&& forall|i: int| 0 <= i < p.queued.len() - 1 ==> p.queued[i] is Metric
        }
        &&& p.publisher == PublisherState::Stopped ==> p.queued.len() == 0
    }
    // The shutdown is done only when the publisher has stopped.
    &&& p.coordinator == ShutdownState::Done ==> p.publisher == PublisherState::Stopped
    // Every summary that the collector forwarded has reached the sink or
    // waits in the queue, in the order of its making.
    &&& p.forwarded == p.sink + summaries_of(p.queued)
}

/// The summaries of a queue whose oldest message is taken away.
proof fn lemma_summaries_of_rest(messages: Seq<PublisherMessage>)
    requires
        messages.len() > 0,
    ensures
        summaries_of(messages) == match messages.first() {
            PublisherMessage::Metric(summary) => seq![summary] + summaries_of(
                messages.drop_first(),
            ),
            PublisherMessage::Quit => summaries_of(messages.drop_first()),
        },
    decreases messages.len(),
{
    if messages.len() == 1 {
        assert(messages.drop_last() =~= Seq::<PublisherMessage>::empty());
        assert(messages.drop_first() =~= Seq::<PublisherMessage>::empty());
        assert(messages.last() == messages.first());
        assert(summaries_of(messages.drop_last()) =~= Seq::<Measurement>::empty());
        match messages.first() {
            PublisherMessage::Metric(summary) => {
                assert(summaries_of(messages) =~= seq![summary]);
                assert(seq![summary] + Seq::<Measurement>::empty() =~= seq![summary]);
            },
            PublisherMessage::Quit => {},
        }
    } else {
        let init = messages.drop_last();
        lemma_summaries_of_rest(init);
        assert(init.first() == messages.first());
        assert(init.drop_first() =~= messages.drop_first().drop_last());
        assert(messages.drop_first().last() == messages.last());
        let rest = summaries_of(init.drop_first());
        match (messages.first(), messages.last()) {
            (PublisherMessage::Metric(a), PublisherMessage::Metric(b)) => {
                assert((seq![a] + rest).push(b) =~= seq![a] + rest.push(b));
            },
            _ => {},
        }
    }
}

/// Among requests of which the first `n` ask for a summary and the next asks
/// to quit, `n` come before the first request to quit.
proof fn lemma_requests_before_quit(requested: Seq<CollectorMessage>, n: nat)
    requires
        n < requested.len(),
        requested[n as int] == CollectorMessage::Quit,
        forall|i: int| 0 <= i < n ==> requested[i] == CollectorMessage::Aggregation,
    ensures
        requests_before_quit(requested) == n,
    decreases n,
{
    if n > 0 {
        let rest = requested.drop_first();
        assert(requested.first() == requested[0]);
        assert(rest[n - 1] == requested[n as int]);
        assert forall|i: int| 0 <= i < n - 1 implies rest[i] == CollectorMessage::Aggregation by {
            assert(rest[i] == requested[i + 1]);
        }
        lemma_requests_before_quit(rest, (n - 1) as nat);
    }
}

/// Every step of every task keeps the pipeline consistent.
pub proof fn lemma_step_keeps_consistent(p: Pipeline, event: Event)
    requires
        consistent(p),
    ensures
        consistent(step(p, event)),
{
    let next = step(p, event);
    match event {
        Event::Heartbeat => {},
        Event::Tick(sample) => {
            if p.collector == CollectorState::Running {
                match waiting(p) {
                    ControlPoll::Message(CollectorMessage::Aggregation) => {
                        assert(!quit_sent(p));
                        assert(p.buffer.push(sample).len() > 0);
                        assert(next.queued.drop_last() =~= p.queued);
                        assert(next.forwarded =~= p.sink + summaries_of(next.queued));
                    },
                    _ => {},
                }
            }
        },
        Event::Publish(delivered) => {
            if p.publisher == PublisherState::Running && p.queued.len() > 0 {
                lemma_summaries_of_rest(p.queued);
                match p.queued.first() {
                    PublisherMessage::Metric(summary) => {
                        assert(p.sink.push(summary) + summaries_of(p.queued.drop_first())
                            =~= p.sink + (seq![summary] + summaries_of(p.queued.drop_first())));
                        if quit_sent(p) {
                            assert(p.queued.len() >= 2);
                            assert(next.queued.last() == p.queued.last());
                            assert forall|i: int|
                                0 <= i < next.queued.len() - 1 implies next.queued[i] is Metric by {
                                assert(next.queued[i] == p.queued[i + 1]);
                            }
                        } else {
                            assert forall|i: int|
                                0 <= i < next.queued.len() implies next.queued[i] is Metric by {
                                assert(next.queued[i] == p.queued[i + 1]);
                            }
                        }
                    },
                    PublisherMessage::Quit => {
                        assert(p.queued[0] == PublisherMessage::Quit);
                        assert(quit_sent(p));
                        assert(p.queued.len() == 1);
                        assert(p.queued.drop_first() =~= Seq::<PublisherMessage>::empty());
                    },
                }
            }
        },
        Event::Shutdown => {
            if action_done(p) {
                match p.coordinator {
                    ShutdownState::Draining(DrainStep::CollectorJoin) => {
                        assert(next.queued.drop_last() =~= p.queued);
                        assert forall|i: int|
                            0 <= i < next.queued.len() - 1 implies next.queued[i] is Metric by {
                            assert(next.queued[i] == p.queued[i]);
                        }
                    },
                    _ => {},
                }
            }
        },
    }
}

/// The pipeline is consistent after any steps from its start.
pub proof fn lemma_run_is_consistent(events: Seq<Event>)
    ensures
        consistent(run(initial(), events)),
    decreases events.len(),
{
    if events.len() == 0 {
        assert(initial().sink + summaries_of(initial().queued) =~= initial().forwarded);
    } else {
        lemma_run_is_consistent(events.drop_last());
        lemma_step_keeps_consistent(run(initial(), events.drop_last()), events.last());
    }
}

/// A completed shutdown has lost nothing. Whatever steps the tasks took and
/// in whatever order, and whatever the sink answered: once the coordinator is
/// done, collector and publisher have stopped, every request for a summary
/// that was queued before the request to quit has been answered with one
/// summary, and the sink has been handed every summary, in the order of
/// their making.
pub proof fn lemma_shutdown_loses_nothing(events: Seq<Event>)
    requires
        run(initial(), events).coordinator == ShutdownState::Done,
    ensures
        run(initial(), events).collector == CollectorState::Stopped,
        run(initial(), events).publisher == PublisherState::Stopped,
        run(initial(), events).sink == run(initial(), events).forwarded,
        run(initial(), events).sink.len() == requests_before_quit(
            run(initial(), events).requested,
        ),
{
    let end = run(initial(), events);
    lemma_run_is_consistent(events);
    assert(quit_sent(end));
    assert(end.queued =~= Seq::<PublisherMessage>::empty());
    assert(end.sink + summaries_of(end.queued) =~= end.sink);
    lemma_requests_before_quit(end.requested, (end.polled - 1) as nat);
}

/// The coordinator never writes to a queue that nobody reads: when it sends
/// a message to the collector the collector runs, and when it sends one to
/// the publisher the publisher runs.
pub proof fn lemma_shutdown_finds_its_tasks(events: Seq<Event>)
    ensures
        ({
            let p = run(initial(), events);
            action_done(p) ==> match advance_of(p.coordinator).1 {
                ShutdownAction::SendCollector(_) => p.collector == CollectorState::Running,
                ShutdownAction::SendPublisher(_) => p.publisher == PublisherState::Running,
                _ => true,
            }
        }),
{
    lemma_run_is_consistent(events);
    let p = run(initial(), events);
    if p.collector == CollectorState::Stopped {
        assert(p.requested[p.polled - 1] == CollectorMessage::Quit);
    }
}

/// The shortest shutdown: the coordinator sends its two messages to the
/// collector and waits for it, the collector ticks twice, the coordinator
/// sends its message to the publisher and waits for it, the publisher takes
/// two messages, the coordinator finishes.
pub open spec fn shortest_shutdown(first: Measurement, second: Measurement) -> Seq<Event> {
    seq![
        Event::Shutdown,
        Event::Shutdown,
        Event::Shutdown,
        Event::Tick(first),
        Event::Tick(second),
        Event::Shutdown,
        Event::Shutdown,
        Event::Publish(true),
        Event::Publish(true),
        Event::Shutdown,
    ]
}

/// A shutdown can be completed: the steps of `shortest_shutdown` lead from
/// the start to the end of it, and the sink is handed the one summary of the
/// last flush, which counts the sample of the tick that met the request.
pub proof fn lemma_shutdown_can_complete(first: Measurement, second: Measurement)
    ensures
        run(initial(), shortest_shutdown(first, second)).coordinator == ShutdownState::Done,
        run(initial(), shortest_shutdown(first, second)).sink.len() == 1,
        run(initial(), shortest_shutdown(first, second)).sink[0].sample_count == 1,
        run(initial(), shortest_shutdown(first, second)).sink[0].timestamp == first.timestamp,
{
    let events = shortest_shutdown(first, second);
    let start = initial();
    let flush_asked = step(start, Event::Shutdown);
    let quit_asked = step(flush_asked, Event::Shutdown);
    let joining = step(quit_asked, Event::Shutdown);
    let flushed = step(joining, Event::Tick(first));
    let stopped = step(flushed, Event::Tick(second));
    let publisher_asked = step(stopped, Event::Shutdown);
    let awaiting = step(publisher_asked, Event::Shutdown);
    let handed = step(awaiting, Event::Publish(true));
    let drained = step(handed, Event::Publish(true));
    let done = step(drained, Event::Shutdown);
    assert(run(start, events) == done) by {
        lemma_run_unfolds(start, events, 10);
        lemma_run_unfolds(start, events, 9);
        lemma_run_unfolds(start, events, 8);
        lemma_run_unfolds(start, events, 7);
        lemma_run_unfolds(start, events, 6);
        lemma_run_unfolds(start, events, 5);
        lemma_run_unfolds(start, events, 4);
        lemma_run_unfolds(start, events, 3);
        lemma_run_unfolds(start, events, 2);
        lemma_run_unfolds(start, events, 1);
        assert(events.subrange(0, 0) =~= Seq::<Event>::empty());
        assert(events.subrange(0, 10) =~= events);
    }
    assert(joining.coordinator == ShutdownState::Draining(DrainStep::CollectorJoin));
    assert(joining.requested =~= seq![CollectorMessage::Aggregation, CollectorMessage::Quit]);
    let window = seq![first];
    assert(joining.buffer.push(first) =~= window);
    let summary = crate::metrics::aggregate_of(window).unwrap();
    assert(flushed.collector == CollectorState::Running);
    assert(flushed.polled == 1);
    assert(flushed.queued =~= seq![PublisherMessage::Metric(summary)]);
    assert(stopped.collector == CollectorState::Stopped);
    assert(publisher_asked.coordinator == ShutdownState::Draining(DrainStep::PublisherQuit));
    assert(publisher_asked.queued =~= seq![
        PublisherMessage::Metric(summary),
        PublisherMessage::Quit,
    ]);
    assert(awaiting.coordinator == ShutdownState::Draining(DrainStep::PublisherJoin));
    assert(handed.sink =~= seq![summary]);
    assert(handed.queued =~= seq![PublisherMessage::Quit]);
    assert(handed.publisher == PublisherState::Running);
    assert(drained.publisher == PublisherState::Stopped);
    assert(done.coordinator == ShutdownState::Done);
    assert(done.sink =~= seq![summary]);
}

/// The pipeline after the first `n` of `events` is the pipeline after the
/// first `n - 1` of them and one step more.
proof fn lemma_run_unfolds(p: Pipeline, events: Seq<Event>, n: int)
    requires
        0 < n <= events.len(),
    ensures
        run(p, events.subrange(0, n)) == step(run(p, events.subrange(0, n - 1)), events[n - 1]),
{
    assert(events.subrange(0, n).drop_last() =~= events.subrange(0, n - 1));
}

} // verus!
