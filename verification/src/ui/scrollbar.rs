//! Overlay scroll indicators: whether a bar is showing.
//!
//! A bar is shown while a surface is being scrolled and taken down a moment after
//! it stops. The owner of the surface runs the timer; the state here tells a
//! timer that is still due from one that a later movement has replaced.
use vstd::prelude::*;

verus! {

/// How long the thumb stays up after the last movement, in seconds.
pub const HIDE_AFTER_SECS: u64 = 2;

/// Which edge of its container a bar rides.
#[derive(Debug, Clone, Copy, PartialEq, Eq, Structural)]
pub enum ScrollbarAxis {
    /// Along the bottom edge, for a surface that scrolls sideways.
    Horizontal,
    /// Down the right-hand edge, for a surface that scrolls up and down.
    Vertical,
}

/// Whether a surface's bar is showing, and for how much longer.
///
/// Movement is noticed by comparing offsets between renders, so whatever moves a
/// surface is caught. A drag is the one exception, because a pointer held still
/// on the thumb moves nothing and must still keep the bar up.
#[derive(Debug)]
pub struct ScrollbarState {
    /// Offset at the last look, or `None` before the first one.
    pub seen: Option<u32>,
    /// Which showing this is. A timer carries the epoch it was armed at and
    /// stands down if a later movement has replaced it.
    pub epoch: u64,
    /// Whether a pointer is holding the thumb. No timer may fire while it is.
    pub held: bool,
    /// Whether the bar is drawn.
    pub up: bool,
}

/// The epoch after an epoch.
pub open spec fn next_epoch(epoch: u64) -> u64 {
    if epoch == u64::MAX {
        0
    } else {
        (epoch + 1) as u64
    }
}

impl Default for ScrollbarState {
    fn default() -> (state: ScrollbarState)
        ensures
            state == (ScrollbarState { seen: None, epoch: 0, held: false, up: false }),
    {
        ScrollbarState { seen: None, epoch: 0, held: false, up: false }
    }
}

impl ScrollbarState {
    /// A bar that is not showing.
    pub fn new() -> (state: ScrollbarState)
        ensures
            state == (ScrollbarState { seen: None, epoch: 0, held: false, up: false }),
    {
        ScrollbarState::default()
    }

    /// The surface sits somewhere else than at the last look; the first look never
    /// counts as movement.
    pub open spec fn has_moved(self, scrolled: u32) -> bool {
        self.seen matches Some(seen) && seen != scrolled
    }

    /// Notes where the surface is scrolled to now. `scrolled` tells offsets apart
    /// and says nothing else of them.
    ///
    /// Returns the epoch to arm a timer with when the surface moved since the last
    /// look, and `None` when it sat still or when a drag has the bar, which arms
    /// its own timer when it lets go.
    pub fn moved(&mut self, scrolled: u32) -> (epoch: Option<u64>)
        ensures
            final(self).seen == Some(scrolled),
            final(self).held == old(self).held,
            if old(self).has_moved(scrolled) && !old(self).held {
                &&& final(self).epoch == next_epoch(old(self).epoch)
                &&& final(self).up
                &&& epoch == Some(final(self).epoch)
            } else {
                &&& final(self).epoch == old(self).epoch
                &&& final(self).up == old(self).up
                &&& epoch is None
            },
    {
        let moved = match self.seen {
            Some(seen) => seen != scrolled,
            None => false,
        };
        self.seen = Some(scrolled);
        if !moved || self.held {
            return None;
        }
        self.epoch = self.epoch.wrapping_add(1);
        self.up = true;
        Some(self.epoch)
    }

    /// Keeps the bar up while a pointer holds the thumb. Arms nothing: a drag would
    /// otherwise leave a timer behind for every move it made.
    pub fn hold(&mut self)
        ensures
            *final(self) == (ScrollbarState {
                epoch: next_epoch(old(self).epoch),
                held: true,
                up: true,
                ..*old(self)
            }),
    {
        self.epoch = self.epoch.wrapping_add(1);
        self.held = true;
        self.up = true;
    }

    /// Lets go of the thumb, returning the epoch to arm the timer with. `None`
    /// when nothing was holding it.
    pub fn release(&mut self) -> (epoch: Option<u64>)
        ensures
            old(self).held ==> *final(self) == (ScrollbarState {
                epoch: next_epoch(old(self).epoch),
                held: false,
                ..*old(self)
            }) && epoch == Some(final(self).epoch),
            !old(self).held ==> *final(self) == *old(self) && epoch is None,
    {
        if !self.held {
            return None;
        }
        self.held = false;
        self.epoch = self.epoch.wrapping_add(1);
        Some(self.epoch)
    }

    /// Whether the bar should be drawn.
    pub fn showing(&self) -> (showing: bool)
        ensures
            showing == self.up,
    {
        self.up
    }

    /// The state after a timer of an epoch fires.
    pub open spec fn after_timer(self, epoch: u64) -> ScrollbarState {
        if self.held || self.epoch != epoch {
            self
        } else {
            ScrollbarState { up: false, ..self }
        }
    }

    /// Takes the bar down, unless a newer movement has since put it up or a
    /// pointer is holding it. Whether anything changed.
    pub fn take_down(&mut self, epoch: u64) -> (changed: bool)
        ensures
            *final(self) == old(self).after_timer(epoch),
            changed == (final(self).up != old(self).up),
    {
        if self.held || self.epoch != epoch || !self.up {
            return false;
        }
        self.up = false;
        true
    }
}

/// A timer that was armed before the last movement or the last drag leaves the bar
/// alone, and so does any timer while a pointer holds the thumb.
pub proof fn stale_timers_change_nothing(state: ScrollbarState, armed: u64)
    ensures
        state.held ==> state.after_timer(armed) == state,
        armed != state.epoch ==> state.after_timer(armed) == state,
        next_epoch(armed) != armed,
{
}

/// A timer that fires twice changes nothing the second time.
pub proof fn hiding_twice_is_hiding_once(state: ScrollbarState, armed: u64)
    ensures
        state.after_timer(armed).after_timer(armed) == state.after_timer(armed),
{
}

/// A scroll bar comes up for a position it has not seen, but not for the first one; its
/// timer takes it down unless it is held or moved again.
pub proof fn bars_come_and_go(state: ScrollbarState, scrolled: u32, epoch: u64)
    ensures
        state.seen is None ==> !state.has_moved(scrolled),
        state.seen == Some(scrolled) ==> !state.has_moved(scrolled),
        state.seen matches Some(seen) ==> (seen != scrolled ==> state.has_moved(scrolled)),
        !state.held && state.epoch == epoch ==> !state.after_timer(epoch).up,
        state.after_timer(epoch).seen == state.seen,
        state.after_timer(epoch).epoch == state.epoch,
        state.after_timer(epoch).held == state.held,
        epoch < u64::MAX ==> next_epoch(epoch) == epoch + 1,
        next_epoch(u64::MAX) == 0,
{
}

} // verus!
