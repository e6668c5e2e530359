//! The shutdown coordinator: it stops the collector, then the publisher, and
//! takes each step only when the one before is done.

use crate::{CollectorMessage, PublisherMessage};
use vstd::prelude::*;

verus! {

/// How far the shutdown has come.
#[derive(Clone, Copy, Debug, PartialEq, Eq, Structural)]
pub enum ShutdownState {
    /// No reason to shut down has occurred.
    Idle,
    /// The tasks are being stopped; the step says which action is under way.
    Draining(DrainStep),
    /// Collector and publisher have both ended.
    Done,
}

/// The action of the shutdown that is under way.
#[derive(Clone, Copy, Debug, PartialEq, Eq, Structural)]
pub enum DrainStep {
    /// The collector is being asked for a last summary.
    FinalAggregation,
    /// The collector is being asked to quit.
    CollectorQuit,
    /// The collector's end is awaited.
    CollectorJoin,
    /// The publisher is being asked to quit.
    PublisherQuit,
    /// The publisher's end is awaited.
    PublisherJoin,
}

/// What the coordinator's driver does next. When it is done, the driver asks
/// `ShutdownCoordinator::advance` for the next action.
#[derive(Clone, Copy, Debug, PartialEq, Eq)]
pub enum ShutdownAction {
    /// Put the message into the collector's control queue.
    SendCollector(CollectorMessage),
    /// Wait until the collector's task has ended.
    JoinCollector,
    /// Put the message into the publisher's queue.
    SendPublisher(PublisherMessage),
    /// Wait until the publisher's task has ended.
    JoinPublisher,
    /// Report that the shutdown is complete.
    Complete,
}

/// The coordinator's state.
pub struct ShutdownCoordinator {
    state: ShutdownState,
}

/// The state that follows `state`, and the action that begins with it.
///
/// From `Idle` the step is taken when the first reason to shut down occurs,
/// from a draining state when the action under way is done.
pub open spec fn advance_of(state: ShutdownState) -> (ShutdownState, ShutdownAction) {
    match state {
        ShutdownState::Idle => (
            ShutdownState::Draining(DrainStep::FinalAggregation),
            ShutdownAction::SendCollector(CollectorMessage::Aggregation),
        ),
        ShutdownState::Draining(DrainStep::FinalAggregation) => (
            ShutdownState::Draining(DrainStep::CollectorQuit),
            ShutdownAction::SendCollector(CollectorMessage::Quit),
        ),
        ShutdownState::Draining(DrainStep::CollectorQuit) => (
            ShutdownState::Draining(DrainStep::CollectorJoin),
            ShutdownAction::JoinCollector,
        ),
        ShutdownState::Draining(DrainStep::CollectorJoin) => (
            ShutdownState::Draining(DrainStep::PublisherQuit),
            ShutdownAction::SendPublisher(PublisherMessage::Quit),
        ),
        ShutdownState::Draining(DrainStep::PublisherQuit) => (
            ShutdownState::Draining(DrainStep::PublisherJoin),
            ShutdownAction::JoinPublisher,
        ),
        ShutdownState::Draining(DrainStep::PublisherJoin) => (
            ShutdownState::Done,
            ShutdownAction::Complete,
        ),
        ShutdownState::Done => (ShutdownState::Done, ShutdownAction::Complete),
    }
}

impl ShutdownCoordinator {
    /// How far the shutdown has come.
    pub closed spec fn state(&self) -> ShutdownState {
        self.state
    }

    /// A coordinator that waits for a reason to shut down.
    pub fn new() -> (coordinator: ShutdownCoordinator)
        ensures
            coordinator.state() == ShutdownState::Idle,
    {
        ShutdownCoordinator { state: ShutdownState::Idle }
    }

    /// How far the shutdown has come.
    pub fn current(&self) -> (state: ShutdownState)
        ensures
            state == self.state(),
    {
        self.state
    }

    /// Whether collector and publisher have both ended.
    pub fn is_done(&self) -> (done: bool)
        ensures
            done == (self.state() == ShutdownState::Done),
    {
        match self.state {
            ShutdownState::Done => true,
            _ => false,
        }
    }

    /// Takes the next step of the shutdown and says what to do for it. It is
    /// called when the first reason to shut down occurs, and then each time
    /// the action that it handed out last is done.
    pub fn advance(&mut self) -> (action: ShutdownAction)
        ensures
            (final(self).state(), action) == advance_of(old(self).state()),
    {
        let (next, action) = match self.state {
            ShutdownState::Idle => (
                ShutdownState::Draining(DrainStep::FinalAggregation),
                ShutdownAction::SendCollector(CollectorMessage::Aggregation),
            ),
            ShutdownState::Draining(DrainStep::FinalAggregation) => (
                ShutdownState::Draining(DrainStep::CollectorQuit),
                ShutdownAction::SendCollector(CollectorMessage::Quit),
            ),
            ShutdownState::Draining(DrainStep::CollectorQuit) => (
                ShutdownState::Draining(DrainStep::CollectorJoin),
                ShutdownAction::JoinCollector,
            ),
            ShutdownState::Draining(DrainStep::CollectorJoin) => (
                ShutdownState::Draining(DrainStep::PublisherQuit),
                ShutdownAction::SendPublisher(PublisherMessage::Quit),
            ),
            ShutdownState::Draining(DrainStep::PublisherQuit) => (
                ShutdownState::Draining(DrainStep::PublisherJoin),
                ShutdownAction::JoinPublisher,
            ),
            ShutdownState::Draining(DrainStep::PublisherJoin) => (
                ShutdownState::Done,
                ShutdownAction::Complete,
            ),
            ShutdownState::Done => (ShutdownState::Done, ShutdownAction::Complete),
        };
        self.state = next;
        action
    }
}

/// The coordinator's state after `steps` steps from `Idle`.
pub open spec fn state_after(steps: nat) -> ShutdownState
    decreases steps,
{
    if steps == 0 {
        ShutdownState::Idle
    } else {
        advance_of(state_after((steps - 1) as nat)).0
    }
}

/// The action that the step after `steps` steps hands out.
pub open spec fn action_after(steps: nat) -> ShutdownAction {
    advance_of(state_after(steps)).1
}

/// The shutdown runs in one order: the collector is asked for a last
/// summary, then to quit, and is awaited; only then is the publisher asked
/// to quit, and awaited; only then is the shutdown complete. It is done
/// after six steps, not before, and stays done.
pub proof fn lemma_shutdown_order()
    ensures
        action_after(0) == ShutdownAction::SendCollector(CollectorMessage::Aggregation),
        action_after(1) == ShutdownAction::SendCollector(CollectorMessage::Quit),
        action_after(2) == ShutdownAction::JoinCollector,
        action_after(3) == ShutdownAction::SendPublisher(PublisherMessage::Quit),
        action_after(4) == ShutdownAction::JoinPublisher,
        action_after(5) == ShutdownAction::Complete,
        forall|steps: nat| steps >= 6 <==> #[trigger] state_after(steps) == ShutdownState::Done,
        forall|steps: nat|
            steps >= 5 ==> #[trigger] action_after(steps) == ShutdownAction::Complete,
{
    reveal_with_fuel(state_after, 8);
    assert forall|steps: nat| steps >= 6 <==> #[trigger] state_after(steps)
        == ShutdownState::Done by {
        lemma_done_from_six(steps);
    }
    assert forall|steps: nat| steps >= 5 implies #[trigger] action_after(steps)
        == ShutdownAction::Complete by {
        lemma_done_from_six(steps);
        lemma_done_from_six(steps + 1);
    }
}

/// The coordinator is done after six steps or more, and not before.
proof fn lemma_done_from_six(steps: nat)
    ensures
        steps >= 6 <==> state_after(steps) == ShutdownState::Done,
        steps == 5 ==> state_after(steps) == ShutdownState::Draining(DrainStep::PublisherJoin),
    decreases steps,
{
    reveal_with_fuel(state_after, 8);
    if steps > 6 {
        lemma_done_from_six((steps - 1) as nat);
    }
}

} // verus!
