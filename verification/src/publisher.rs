//! The publisher: it hands each summary that it receives to the sink, and a
//! failure of the sink does not stop it.

use crate::metrics::Measurement;
use crate::PublisherMessage;
use vstd::prelude::*;

verus! {

/// Whether the publisher still works.
#[derive(Clone, Copy, Debug, PartialEq, Eq, Structural)]
pub enum PublisherState {
    Running,
    /// Terminal: a stopped publisher never runs again.
    Stopped,
}

/// What the publisher's driver does next.
#[derive(Clone, Copy, Debug, PartialEq, Eq)]
pub enum PublisherAction {
    /// Wait for the next message of the queue.
    Receive,
    /// Hand the summary to the sink, then report with `Publisher::sent`
    /// whether the sink took it.
    Send(Measurement),
    /// Leave the loop.
    Exit,
}

/// The publisher's state.
pub struct Publisher {
    state: PublisherState,
}

/// State and action after the queue gave `message`, or `None` where it is
/// closed and empty: a summary goes to the sink; the request to quit and the
/// end of the queue stop the publisher.
pub open spec fn received_of(state: PublisherState, message: Option<PublisherMessage>) -> (
    PublisherState,
    PublisherAction,
) {
    match state {
        PublisherState::Stopped => (PublisherState::Stopped, PublisherAction::Exit),
        PublisherState::Running => match message {
            Some(PublisherMessage::Metric(summary)) => (
                PublisherState::Running,
                PublisherAction::Send(summary),
            ),
            Some(PublisherMessage::Quit) | None => (PublisherState::Stopped, PublisherAction::Exit),
        },
    }
}

/// State and action after the sink took a summary or failed: either way a
/// running publisher goes on to the next message.
pub open spec fn sent_of(state: PublisherState, delivered: bool) -> (
    PublisherState,
    PublisherAction,
) {
    match state {
        PublisherState::Running => (PublisherState::Running, PublisherAction::Receive),
        PublisherState::Stopped => (PublisherState::Stopped, PublisherAction::Exit),
    }
}

impl Publisher {
    /// Whether the publisher still works.
    pub closed spec fn state(&self) -> PublisherState {
        self.state
    }

    /// A running publisher.
    pub fn new() -> (publisher: Publisher)
        ensures
            publisher.state() == PublisherState::Running,
    {
        Publisher { state: PublisherState::Running }
    }

    /// Whether the publisher still works.
    pub fn is_running(&self) -> (running: bool)
        ensures
            running == (self.state() == PublisherState::Running),
    {
        match self.state {
            PublisherState::Running => true,
            PublisherState::Stopped => false,
        }
    }

    /// Acts on what the queue gave: `None` where it is closed and empty.
    pub fn received(&mut self, message: Option<PublisherMessage>) -> (action: PublisherAction)
        ensures
            (final(self).state(), action) == received_of(old(self).state(), message),
    {
        match self.state {
            PublisherState::Stopped => PublisherAction::Exit,
            PublisherState::Running => match message {
                Some(PublisherMessage::Metric(summary)) => PublisherAction::Send(summary),
                Some(PublisherMessage::Quit) | None => {
                    self.state = PublisherState::Stopped;
                    PublisherAction::Exit
                },
            },
        }
    }

    /// Acts on whether the sink took the summary that the last `Send` handed
    /// out.
    pub fn sent(&mut self, delivered: bool) -> (action: PublisherAction)
        ensures
            (final(self).state(), action) == sent_of(old(self).state(), delivered),
    {
        match self.state {
            PublisherState::Running => PublisherAction::Receive,
            PublisherState::Stopped => PublisherAction::Exit,
        }
    }
}

/// The summaries that the sink is handed while the publisher is driven from
/// `state` through `steps`: each step gives what the queue yields and
/// whether the sink takes a summary, should the step hand it one.
pub open spec fn handed_to_sink(
    state: PublisherState,
    steps: Seq<(Option<PublisherMessage>, bool)>,
) -> Seq<Measurement>
    decreases steps.len(),
{
    if steps.len() == 0 {
        Seq::empty()
    } else {
        let (message, delivered) = steps.first();
        let (next, action) = received_of(state, message);
        match action {
            PublisherAction::Send(summary) => seq![summary] + handed_to_sink(
                sent_of(next, delivered).0,
                steps.drop_first(),
            ),
            _ => handed_to_sink(next, steps.drop_first()),
        }
    }
}

/// The summaries of `steps` that come before the first request to quit and
/// before the first end of the queue, in their order.
pub open spec fn queued_before_quit(steps: Seq<(Option<PublisherMessage>, bool)>) -> Seq<
    Measurement,
>
    decreases steps.len(),
{
    if steps.len() == 0 {
        Seq::empty()
    } else {
        match steps.first().0 {
            Some(PublisherMessage::Metric(summary)) => seq![summary] + queued_before_quit(
                steps.drop_first(),
            ),
            _ => Seq::empty(),
        }
    }
}

/// A stopped publisher hands the sink nothing, whatever the queue yields.
pub proof fn lemma_stopped_publishes_nothing(steps: Seq<(Option<PublisherMessage>, bool)>)
    ensures
        handed_to_sink(PublisherState::Stopped, steps) == Seq::<Measurement>::empty(),
    decreases steps.len(),
{
    if steps.len() > 0 {
        lemma_stopped_publishes_nothing(steps.drop_first());
    }
}

/// Failures of the sink change nothing of what it is handed: a running
/// publisher hands it every summary queued before the first request to quit,
/// in the order of the queue, and nothing that is queued behind that request.
pub proof fn lemma_failures_are_isolated(steps: Seq<(Option<PublisherMessage>, bool)>)
    ensures
        handed_to_sink(PublisherState::Running, steps) == queued_before_quit(steps),
    decreases steps.len(),
{
    if steps.len() > 0 {
        match steps.first().0 {
            Some(PublisherMessage::Metric(summary)) => {
                lemma_failures_are_isolated(steps.drop_first());
            },
            _ => {
                lemma_stopped_publishes_nothing(steps.drop_first());
            },
        }
    }
}

} // verus!
