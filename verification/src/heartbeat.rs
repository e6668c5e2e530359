//! The heartbeat: the timer that asks the collector for a summary once in
//! every publish period.

use crate::CollectorMessage;
use vstd::prelude::*;

verus! {

/// What the heartbeat's driver does next.
#[derive(Clone, Copy, Debug, PartialEq, Eq, Structural)]
pub enum HeartbeatAction {
    /// Wait for this many seconds, then report with `Heartbeat::elapsed`.
    Sleep(u64),
    /// Put the message into the collector's control queue, then report with
    /// `Heartbeat::sent` whether the queue took it.
    Send(CollectorMessage),
}

/// The heartbeat's setting: the publish period in seconds.
#[derive(Clone, Copy, Debug, PartialEq, Eq, Structural)]
pub struct Heartbeat {
    pub period_secs: u32,
}

impl Heartbeat {
    /// A heartbeat that fires once in every `period_secs` seconds.
    pub fn new(period_secs: u32) -> (heartbeat: Heartbeat)
        ensures
            heartbeat.period_secs == period_secs,
    {
        Heartbeat { period_secs }
    }

    /// What to do first: wait for one period.
    pub fn start(&self) -> (action: HeartbeatAction)
        ensures
            action == HeartbeatAction::Sleep(self.period_secs as u64),
    {
        HeartbeatAction::Sleep(self.period_secs as u64)
    }

    /// What to do when a period has elapsed: ask the collector for a summary.
    pub fn elapsed(&self) -> (action: HeartbeatAction)
        ensures
            action == HeartbeatAction::Send(CollectorMessage::Aggregation),
    {
        HeartbeatAction::Send(CollectorMessage::Aggregation)
    }

    /// What to do when the request was put into the queue or refused: either
    /// way, wait for the next period.
    pub fn sent(&self, delivered: bool) -> (action: HeartbeatAction)
        ensures
            action == HeartbeatAction::Sleep(self.period_secs as u64),
    {
        HeartbeatAction::Sleep(self.period_secs as u64)
    }
}

} // verus!
