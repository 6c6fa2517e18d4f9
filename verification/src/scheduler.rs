//! The reset scheduler: when the usage counters are swept, and what follows
//! a sweep.
//!
//! The scheduler sleeps for a fixed period, sweeps, and sleeps again. A
//! sweep that fails is reported and changes nothing about the schedule.

use crate::db::StoreError;
use vstd::prelude::*;

verus! {

/// The time between two sweeps, in seconds.
pub const RESET_INTERVAL_SECONDS: u64 = 600;

/// What happened to the scheduler.
#[derive(Clone, Copy, Debug, PartialEq, Eq)]
pub enum SweepEvent {
    /// The scheduler was started.
    Started,
    /// The time to sleep is over.
    Woke,
    /// A sweep has ended, well or not.
    Swept(Result<(), StoreError>),
}

/// What the scheduler does next.
#[derive(Clone, Copy, Debug, PartialEq, Eq, Structural)]
pub enum SweepAction {
    /// Set every usage counter that is not zero to zero, in one operation.
    Sweep,
    /// Report `failure`, if there is one, then sleep for `seconds`.
    Sleep { seconds: u64, failure: Option<StoreError> },
}

/// What the scheduler does after `event`.
pub open spec fn spec_next_sweep_action(event: SweepEvent) -> SweepAction {
    match event {
        SweepEvent::Started | SweepEvent::Swept(Ok(_)) => SweepAction::Sleep {
            seconds: RESET_INTERVAL_SECONDS,
            failure: None,
        },
        SweepEvent::Woke => SweepAction::Sweep,
        SweepEvent::Swept(Err(error)) => SweepAction::Sleep {
            seconds: RESET_INTERVAL_SECONDS,
            failure: Some(error),
        },
    }
}

/// Decides what the scheduler does after `event`. Every sweep is followed by
/// a sleep of the full period, whether it went well or not, and every sleep
/// by a sweep: the schedule never ends.
pub fn next_sweep_action(event: SweepEvent) -> (action: SweepAction)
    ensures
        action == spec_next_sweep_action(event),
        event is Swept ==> action is Sleep && action->seconds == RESET_INTERVAL_SECONDS,
        event is Woke <==> action is Sweep,
{
    match event {
        SweepEvent::Started | SweepEvent::Swept(Ok(_)) => SweepAction::Sleep {
            seconds: RESET_INTERVAL_SECONDS,
            failure: None,
        },
        SweepEvent::Woke => SweepAction::Sweep,
        SweepEvent::Swept(Err(error)) => SweepAction::Sleep {
            seconds: RESET_INTERVAL_SECONDS,
            failure: Some(error),
        },
    }
}

} // verus!
