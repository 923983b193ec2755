//! The pause and stop requests that a running conversion answers to.
//!
//! The front end shares one `ConversionControl` between the window and the worker behind a lock.
//! A worker that `must_wait` sleeps until a waking operation changes the state.

use crate::time::{smaller, Duration};
use vstd::prelude::*;

verus! {

/// What a worker does next at a checkpoint.
#[derive(Debug, Clone, Copy, PartialEq, Eq, Structural)]
pub enum ControlDecision {
    Continue,
    StopCurrent,
    StopAll,
}

/// What a worker does next while it waits to try a file again.
#[derive(Debug, Clone, Copy, PartialEq, Eq, Structural)]
pub enum WaitStep {
    /// The wait is over.
    Done,
    /// The conversion was stopped while it waited.
    Cancelled,
    /// Sleep for this long, and look again.
    Sleep(Duration),
}

/// How long a waiting worker sleeps before it looks at the requests again.
pub const WAIT_SLICE_NANOS: u128 = 100_000_000;

/// The next step of a wait of which this much is left; a stop request ends it.
pub open spec fn wait_step(left: Duration, decision: ControlDecision) -> WaitStep {
    if left.nanos == 0 {
        WaitStep::Done
    } else if decision != ControlDecision::Continue {
        WaitStep::Cancelled
    } else {
        WaitStep::Sleep(
            Duration { nanos: smaller(left.nanos as int, WAIT_SLICE_NANOS as int) as u128 },
        )
    }
}

/// What a worker that waits to try again does next: `left` is what is left of the wait, and `decision`
/// what the checkpoint says.
pub fn retry_wait_step(left: Duration, decision: ControlDecision) -> (r: WaitStep)
    ensures
        r == wait_step(left, decision),
{
    if left.nanos == 0 {
        WaitStep::Done
    } else if decision != ControlDecision::Continue {
        WaitStep::Cancelled
    } else if left.nanos <= WAIT_SLICE_NANOS {
        WaitStep::Sleep(left)
    } else {
        WaitStep::Sleep(Duration { nanos: WAIT_SLICE_NANOS })
    }
}

/// The strongest stop request that is in force.
#[derive(Debug, Clone, Copy, PartialEq, Eq, Structural)]
pub enum StopRequest {
    Nothing,
    Current,
    All,
}

/// The requests made of a running conversion.
#[derive(Debug, Clone, Copy, PartialEq, Eq, Structural)]
pub struct ConversionControl {
    pub paused: bool,
    pub pause_after_current: bool,
    pub preview_enabled: bool,
    pub cpu_thread_limit: usize,
    pub stop: StopRequest,
}

/// The decision that a stop request stands for.
pub open spec fn decision_of(stop: StopRequest) -> ControlDecision {
    match stop {
        StopRequest::Nothing => ControlDecision::Continue,
        StopRequest::Current => ControlDecision::StopCurrent,
        StopRequest::All => ControlDecision::StopAll,
    }
}

impl ConversionControl {
    /// A worker at a checkpoint sleeps while this holds: paused, and nothing asks it to stop.
    pub open spec fn waiting(self) -> bool {
        self.paused && self.stop == StopRequest::Nothing
    }

    pub open spec fn initial() -> ConversionControl {
        ConversionControl {
            paused: false,
            pause_after_current: false,
            preview_enabled: false,
            cpu_thread_limit: 0,
            stop: StopRequest::Nothing,
        }
    }

    pub open spec fn after_complete_current(self) -> ConversionControl {
        ConversionControl {
            paused: self.paused || self.pause_after_current,
            pause_after_current: false,
            stop: if self.stop == StopRequest::Current {
                StopRequest::Nothing
            } else {
                self.stop
            },
            ..self
        }
    }

    pub open spec fn after_stop_current(self) -> ConversionControl {
        ConversionControl {
            stop: if self.stop == StopRequest::All {
                StopRequest::All
            } else {
                StopRequest::Current
            },
            ..self
        }
    }

    pub open spec fn after_stop_all(self) -> ConversionControl {
        ConversionControl { stop: StopRequest::All, paused: false, ..self }
    }

    pub fn new() -> (r: Self)
        ensures
            r == ConversionControl::initial(),
    {
        ConversionControl {
            paused: false,
            pause_after_current: false,
            preview_enabled: false,
            cpu_thread_limit: 0,
            stop: StopRequest::Nothing,
        }
    }

    pub fn pause(&mut self)
        ensures
            *final(self) == (ConversionControl { paused: true, ..*old(self) }),
    {
        self.paused = true;
    }

    pub fn pause_after_current(&mut self)
        ensures
            *final(self) == (ConversionControl { pause_after_current: true, ..*old(self) }),
    {
        self.pause_after_current = true;
    }

    /// Marks the boundary between two files: a stop of the current file is used up, and a scheduled
    /// pause begins.
    pub fn complete_current(&mut self)
        ensures
            *final(self) == old(self).after_complete_current(),
    {
        if self.stop == StopRequest::Current {
            self.stop = StopRequest::Nothing;
        }
        if self.pause_after_current {
            self.pause_after_current = false;
            self.paused = true;
        }
    }

    /// Ends a pause and wakes a sleeping worker.
    pub fn resume(&mut self)
        ensures
            *final(self) == (ConversionControl { paused: false, ..*old(self) }),
    {
        self.paused = false;
    }

    /// Asks for the current file to stop and wakes a sleeping worker; a stop of everything stays.
    pub fn stop_current(&mut self)
        ensures
            *final(self) == old(self).after_stop_current(),
    {
        if self.stop != StopRequest::All {
            self.stop = StopRequest::Current;
        }
    }

    /// Asks for everything to stop, ends a pause, and wakes a sleeping worker.
    pub fn stop_all(&mut self)
        ensures
            *final(self) == old(self).after_stop_all(),
    {
        self.stop = StopRequest::All;
        self.paused = false;
    }

    pub fn set_preview_enabled(&mut self, enabled: bool)
        ensures
            *final(self) == (ConversionControl { preview_enabled: enabled, ..*old(self) }),
    {
        self.preview_enabled = enabled;
    }

    pub fn set_cpu_thread_limit(&mut self, threads: usize)
        ensures
            *final(self) == (ConversionControl { cpu_thread_limit: threads, ..*old(self) }),
    {
        self.cpu_thread_limit = threads;
    }

    pub fn cpu_thread_limit(&self) -> (r: usize)
        ensures
            r == self.cpu_thread_limit,
    {
        self.cpu_thread_limit
    }

    pub fn preview_enabled(&self) -> (r: bool)
        ensures
            r == self.preview_enabled,
    {
        self.preview_enabled
    }

    pub fn is_paused(&self) -> (r: bool)
        ensures
            r == self.paused,
    {
        self.paused
    }

    /// Whether a worker at a checkpoint has to sleep until it is woken.
    pub fn must_wait(&self) -> (r: bool)
        ensures
            r == self.waiting(),
    {
        self.paused && self.stop == StopRequest::Nothing
    }

    /// What a worker that need not wait does next.
    pub fn checkpoint(&self) -> (r: ControlDecision)
        requires
            !self.waiting(),
        ensures
            r == decision_of(self.stop),
            r == ControlDecision::Continue ==> !self.paused,
    {
        match self.stop {
            StopRequest::Nothing => ControlDecision::Continue,
            StopRequest::Current => ControlDecision::StopCurrent,
            StopRequest::All => ControlDecision::StopAll,
        }
    }
}

impl Default for ConversionControl {
    fn default() -> (r: Self)
        ensures
            r == ConversionControl::initial(),
    {
        ConversionControl::new()
    }
}

/// A stop of everything outlives the current file and every later request to stop the current file.
pub proof fn law_stop_all_takes_priority(c: ConversionControl)
    ensures
        decision_of(c.after_stop_all().stop) == ControlDecision::StopAll,
        c.after_stop_current().after_stop_all().stop == StopRequest::All,
        c.after_stop_all().after_stop_current().stop == StopRequest::All,
        c.after_stop_all().after_complete_current().stop == StopRequest::All,
        !c.after_stop_all().waiting(),
        !c.after_stop_all().after_stop_current().waiting(),
        !c.after_stop_all().after_complete_current().waiting(),
{
}

/// A stop of the current file ends with that file.
pub proof fn law_stop_current_is_used_up(c: ConversionControl)
    requires
        c.stop != StopRequest::All,
    ensures
        decision_of(c.after_stop_current().stop) == ControlDecision::StopCurrent,
        decision_of(c.after_stop_current().after_complete_current().stop)
            == ControlDecision::Continue,
{
}

/// A scheduled pause leaves the current file alone, begins at its end, and begins only once.
pub proof fn law_scheduled_pause_is_one_shot(c: ConversionControl)
    requires
        !c.paused,
        c.stop == StopRequest::Nothing,
    ensures
        !(ConversionControl { pause_after_current: true, ..c }).waiting(),
        (ConversionControl { pause_after_current: true, ..c }).after_complete_current().waiting(),
        !(ConversionControl {
            paused: false,
            ..(ConversionControl { pause_after_current: true, ..c }).after_complete_current()
        }).after_complete_current().paused,
{
}

/// Only resuming and the two stops can end a wait; the other operations leave a sleeping worker asleep.
pub proof fn law_only_waking_operations_end_a_wait(c: ConversionControl, enabled: bool, threads: usize)
    requires
        c.waiting(),
    ensures
        (ConversionControl { paused: true, ..c }).waiting(),
        (ConversionControl { pause_after_current: true, ..c }).waiting(),
        (ConversionControl { preview_enabled: enabled, ..c }).waiting(),
        (ConversionControl { cpu_thread_limit: threads, ..c }).waiting(),
        c.after_complete_current().waiting(),
        !(ConversionControl { paused: false, ..c }).waiting(),
        !c.after_stop_current().waiting(),
        !c.after_stop_all().waiting(),
{
}

} // verus!
