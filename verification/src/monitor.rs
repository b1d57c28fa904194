//! The control loop's decisions: when to ask the sensor, what to keep, and
//! how to redraw.
//!
//! The loop itself runs outside: it does what an action says and reports
//! back with an event. All that lasts from one round to the next, the
//! history and the count of updates, is kept in a `Monitor`.

use crate::history::{spec_push, History};
use crate::refresh::{spec_mode, spec_next_count, RefreshMode, RefreshState};
use crate::scd30::{Error, Measurement};
use vstd::prelude::*;

verus! {

/// What the loop does next.
#[derive(Debug, Copy, Clone, Eq, PartialEq)]
pub enum LoopAction {
    /// Ask the sensor whether a measurement waits.
    Poll,
    /// Read the measurement that waits.
    Fetch,
    /// Bring the picture up to date in the given mode.
    Redraw(RefreshMode),
    /// Nothing more to do in this round: sleep until the next tick.
    Wait,
}

/// What happened in the loop.
#[derive(Debug, Eq, PartialEq)]
pub enum LoopEvent<E> {
    /// The timer fired: a new round begins.
    Tick,
    /// The sensor was asked whether a measurement waits.
    Polled(Result<bool, Error<E>>),
    /// The sensor was asked for the measurement.
    Measured(Result<Measurement, Error<E>>),
    /// The picture was brought up to date.
    Drawn,
}

/// The state of the control loop.
pub struct Monitor {
    history: History,
    refresh: RefreshState,
}

impl Monitor {
    /// The measurements kept, oldest first.
    pub closed spec fn spec_history(&self) -> Seq<Measurement> {
        self.history@
    }

    /// The number of measurements kept at most.
    pub closed spec fn spec_capacity(&self) -> nat {
        self.history.spec_capacity()
    }

    /// The number of updates drawn so far.
    pub closed spec fn spec_update_count(&self) -> nat {
        self.refresh.spec_update_count()
    }

    /// The number of updates from one full redraw to the next.
    pub closed spec fn spec_period(&self) -> nat {
        self.refresh.spec_period()
    }

    /// The history after an event: a measurement that was read well is
    /// taken in, and nothing else changes what is kept.
    pub open spec fn spec_history_after<E>(&self, event: LoopEvent<E>) -> Seq<Measurement> {
        match event {
            LoopEvent::Measured(Ok(measurement)) => spec_push(
                self.spec_history(),
                self.spec_capacity(),
                measurement,
            ),
            _ => self.spec_history(),
        }
    }

    /// The count of updates after an event: it goes up by one when a
    /// picture was drawn, and at no other time.
    pub open spec fn spec_count_after<E>(&self, event: LoopEvent<E>) -> nat {
        match event {
            LoopEvent::Drawn => spec_next_count(self.spec_update_count()),
            _ => self.spec_update_count(),
        }
    }

    /// What the loop does after an event. A failed exchange with the
    /// sensor is no reason to stop: the round ends without a new
    /// measurement and the next tick tries again.
    pub open spec fn spec_action_after<E>(&self, event: LoopEvent<E>) -> LoopAction {
        match event {
            LoopEvent::Tick => LoopAction::Poll,
            LoopEvent::Polled(Ok(ready)) => if ready {
                LoopAction::Fetch
            } else {
                LoopAction::Wait
            },
            LoopEvent::Polled(Err(_)) => LoopAction::Wait,
            LoopEvent::Measured(Ok(_)) => LoopAction::Redraw(
                spec_mode(self.spec_update_count(), self.spec_period()),
            ),
            LoopEvent::Measured(Err(_)) => LoopAction::Wait,
            LoopEvent::Drawn => LoopAction::Wait,
        }
    }

    /// Makes the state for a loop that keeps the last `capacity`
    /// measurements and redraws in full on every `period`-th update, or
    /// nothing if a history or a scheduler cannot be made with these.
    pub fn new(capacity: usize, period: usize) -> (monitor: Option<Monitor>)
        ensures
            monitor is Some <==> 1 <= capacity <= crate::history::MAX_CAPACITY && period >= 1,
            monitor matches Some(m) ==> m.spec_history() == Seq::<Measurement>::empty()
                && m.spec_capacity() == capacity && m.spec_update_count() == 0 && m.spec_period()
                == period,
    {
        match (History::new(capacity), RefreshState::new(period)) {
            (Some(history), Some(refresh)) => Some(Monitor { history, refresh }),
            _ => None,
        }
    }

    /// The measurements kept.
    pub fn history(&self) -> (history: &History)
        ensures
            history@ == self.spec_history(),
            history.spec_capacity() == self.spec_capacity(),
    {
        &self.history
    }

    /// The number of updates drawn so far.
    pub fn update_count(&self) -> (count: usize)
        ensures
            count == self.spec_update_count(),
    {
        self.refresh.update_count()
    }

    /// The newest measurement, if any was taken in yet.
    pub fn latest(&self) -> (latest: Option<Measurement>)
        ensures
            latest == if self.spec_history().len() == 0 {
                None
            } else {
                Some(self.spec_history().last())
            },
    {
        let items = self.history.iter();
        if items.len() == 0 {
            None
        } else {
            Some(items[items.len() - 1])
        }
    }

    /// Takes in what happened and tells what to do next.
    pub fn on_event<E>(&mut self, event: LoopEvent<E>) -> (action: LoopAction)
        ensures
            action == old(self).spec_action_after(event),
            final(self).spec_history() == old(self).spec_history_after(event),
            final(self).spec_update_count() == old(self).spec_count_after(event),
            final(self).spec_capacity() == old(self).spec_capacity(),
            final(self).spec_period() == old(self).spec_period(),
    {
        match event {
            LoopEvent::Tick => LoopAction::Poll,
            LoopEvent::Polled(Ok(ready)) => {
                if ready {
                    LoopAction::Fetch
                } else {
                    LoopAction::Wait
                }
            },
            LoopEvent::Polled(Err(_)) => LoopAction::Wait,
            LoopEvent::Measured(Ok(measurement)) => {
                self.history.push(measurement);
                LoopAction::Redraw(self.refresh.mode())
            },
            LoopEvent::Measured(Err(_)) => LoopAction::Wait,
            LoopEvent::Drawn => {
                let _ = self.refresh.advance();
                LoopAction::Wait
            },
        }
    }
}

} // verus!
