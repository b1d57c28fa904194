//! When to redraw the whole panel and when a partial update will do.
//!
//! A bistable panel shows ghosts of earlier pictures after too many partial
//! updates, and a full redraw is slow and flickers. The scheduler counts
//! the updates and asks for a full redraw on every `period`-th one,
//! starting with the very first.

use vstd::prelude::*;

verus! {

/// Number of updates from one full redraw to the next.
pub const MAX_QUICK_UPDATES: usize = 10;

/// How the panel is to bring up a new picture.
#[derive(Debug, Copy, Clone, PartialEq, Eq)]
pub enum RefreshMode {
    /// Redraw everything; the panel forgets the picture it showed before.
    Full,
    /// Change only what differs from the picture shown before.
    Quick,
}

/// One thing the control loop asks of the panel or of the renderer while a
/// new picture is brought up.
#[derive(Debug, Copy, Clone, PartialEq, Eq)]
pub enum PanelStep {
    /// Wake the panel from deep sleep.
    WakeUp,
    /// Select the waveform for a full redraw.
    SelectFull,
    /// Select the waveform for a partial update.
    SelectQuick,
    /// Hand the frame buffer to the panel as the picture it shows now.
    LoadOldFrame,
    /// Clear the frame buffer and draw the new picture into it.
    Render,
    /// Hand the frame buffer to the panel as the only picture.
    LoadFrame,
    /// Hand the frame buffer to the panel as the picture to change to.
    LoadNewFrame,
    /// Show the picture loaded with `LoadFrame`.
    ShowFrame,
    /// Show the picture loaded with `LoadNewFrame`.
    ShowNewFrame,
    /// Send the panel back to deep sleep.
    Sleep,
}

/// The mode for the update that follows `update_count` earlier ones.
pub open spec fn spec_mode(update_count: nat, period: nat) -> RefreshMode {
    if update_count % period == 0 {
        RefreshMode::Full
    } else {
        RefreshMode::Quick
    }
}

/// The count of updates after one more, starting over after the largest
/// number a word can hold.
pub open spec fn spec_next_count(update_count: nat) -> nat {
    if update_count == usize::MAX {
        0
    } else {
        update_count + 1
    }
}

/// What is done, in order, to bring up a picture in the given mode. For a
/// partial update the frame buffer still holds the picture on the panel
/// when it is loaded as the old frame, and is drawn over only after that.
pub open spec fn spec_steps(mode: RefreshMode) -> Seq<PanelStep> {
    match mode {
        RefreshMode::Full => seq![
            PanelStep::WakeUp,
            PanelStep::Render,
            PanelStep::SelectFull,
            PanelStep::LoadFrame,
            PanelStep::ShowFrame,
            PanelStep::Sleep,
        ],
        RefreshMode::Quick => seq![
            PanelStep::WakeUp,
            PanelStep::SelectQuick,
            PanelStep::LoadOldFrame,
            PanelStep::Render,
            PanelStep::LoadNewFrame,
            PanelStep::ShowNewFrame,
            PanelStep::Sleep,
        ],
    }
}

impl RefreshMode {
    /// Lists what is done, in order, to bring up a picture in this mode.
    pub fn steps(self) -> (steps: Vec<PanelStep>)
        ensures
            steps@ == spec_steps(self),
    {
        let mut steps: Vec<PanelStep> = Vec::new();
        steps.push(PanelStep::WakeUp);
        match self {
            RefreshMode::Full => {
                steps.push(PanelStep::Render);
                steps.push(PanelStep::SelectFull);
                steps.push(PanelStep::LoadFrame);
                steps.push(PanelStep::ShowFrame);
            },
            RefreshMode::Quick => {
                steps.push(PanelStep::SelectQuick);
                steps.push(PanelStep::LoadOldFrame);
                steps.push(PanelStep::Render);
                steps.push(PanelStep::LoadNewFrame);
                steps.push(PanelStep::ShowNewFrame);
            },
        }
        steps.push(PanelStep::Sleep);
        assert(steps@ =~= spec_steps(self));
        steps
    }
}

/// The scheduler's state: how many updates were made, and how often a full
/// redraw is due.
#[derive(Debug, Copy, Clone, PartialEq, Eq)]
pub struct RefreshState {
    update_count: usize,
    period: usize,
}

impl RefreshState {
    /// Number of updates made so far, counted modulo the word size.
    pub closed spec fn spec_update_count(&self) -> nat {
        self.update_count as nat
    }

    /// Number of updates from one full redraw to the next.
    pub closed spec fn spec_period(&self) -> nat {
        self.period as nat
    }

    #[verifier::type_invariant]
    spec fn valid(&self) -> bool {
        self.period >= 1
    }

    /// Makes a scheduler that has made no update yet, or nothing if
    /// `period` is zero.
    pub fn new(period: usize) -> (state: Option<RefreshState>)
        ensures
            state is Some <==> period >= 1,
            state matches Some(s) ==> s.spec_update_count() == 0 && s.spec_period() == period,
    {
        if period == 0 {
            None
        } else {
            Some(RefreshState { update_count: 0, period })
        }
    }

    /// Number of updates made so far.
    pub fn update_count(&self) -> (count: usize)
        ensures
            count == self.spec_update_count(),
    {
        self.update_count
    }

    /// Number of updates from one full redraw to the next.
    pub fn period(&self) -> (period: usize)
        ensures
            period == self.spec_period(),
            period >= 1,
    {
        proof {
            use_type_invariant(self);
        }
        self.period
    }

    /// The mode for the next update.
    pub fn mode(&self) -> (mode: RefreshMode)
        ensures
            mode == spec_mode(self.spec_update_count(), self.spec_period()),
    {
        proof {
            use_type_invariant(self);
        }
        if self.update_count % self.period == 0 {
            RefreshMode::Full
        } else {
            RefreshMode::Quick
        }
    }

    /// Counts one update as made and tells which mode it had. The count
    /// starts over from zero after the largest number a word can hold.
    pub fn advance(&mut self) -> (mode: RefreshMode)
        ensures
            mode == spec_mode(old(self).spec_update_count(), old(self).spec_period()),
            final(self).spec_period() == old(self).spec_period(),
            final(self).spec_update_count() == spec_next_count(old(self).spec_update_count()),
    {
        let mode = self.mode();
        proof {
            use_type_invariant(&*self);
        }
        self.update_count = self.update_count.wrapping_add(1);
        mode
    }
}

/// The first update is a full redraw, whatever the period.
pub proof fn lemma_first_update_is_full(period: nat)
    requires
        period >= 1,
    ensures
        spec_mode(0, period) == RefreshMode::Full,
{
}

/// Of every `period` updates in a row the first is a full redraw and the
/// others are partial: the update that follows `rounds * period + offset`
/// earlier ones is full exactly when `offset` is zero.
pub proof fn lemma_full_on_multiples(rounds: nat, offset: nat, period: nat)
    requires
        period >= 1,
        offset < period,
    ensures
        spec_mode(rounds * period + offset, period) == if offset == 0 {
            RefreshMode::Full
        } else {
            RefreshMode::Quick
        },
{
    vstd::arithmetic::div_mod::lemma_mod_multiples_vanish(
        rounds as int,
        offset as int,
        period as int,
    );
    vstd::arithmetic::div_mod::lemma_small_mod(offset, period);
    assert(rounds * period + offset == period * rounds + offset) by (nonlinear_arith);
}

} // verus!
