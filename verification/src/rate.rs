//! The rate controller: the pair (target frequency, pause flag) owned by the
//! presentation side. The slot is last-write-wins — a burst of updates
//! between two reads leaves exactly the last value — and every requested
//! frequency is clamped into the valid band instead of being rejected.

use vstd::prelude::*;

verus! {

/// A requested frequency forced into the valid band `[1, max]`: zero or
/// negative requests become the floor 1, too-large requests become `max`.
pub open spec fn clamp_rate(f: int, max: int) -> int
    recommends
        max >= 1,
{
    if f < 1 {
        1
    } else if f > max {
        max
    } else {
        f
    }
}

/// The frequency that holds after a burst of updates is applied in order to
/// a slot that starts at `initial`.
pub open spec fn rate_after(initial: int, max: int, updates: Seq<int>) -> int
    decreases updates.len(),
{
    if updates.len() == 0 {
        initial
    } else {
        rate_after(clamp_rate(updates[0], max), max, updates.drop_first())
    }
}

/// Last write wins: after any non-empty burst of updates, the slot holds
/// exactly the clamp of the last value written, never an earlier one, and
/// never anything of the starting value.
pub proof fn lemma_last_write_wins(initial: int, max: int, updates: Seq<int>)
    requires
        updates.len() > 0,
    ensures
        rate_after(initial, max, updates) == clamp_rate(updates.last(), max),
    decreases updates.len(),
{
    if updates.len() == 1 {
        assert(rate_after(clamp_rate(updates[0], max), max, updates.drop_first()) == clamp_rate(
            updates[0],
            max,
        ));
    } else {
        lemma_last_write_wins(clamp_rate(updates[0], max), max, updates.drop_first());
        assert(updates.drop_first().last() == updates.last());
    }
}

/// Forces a requested frequency into `[1, max_fps]`.
pub fn clamp_frequency(requested: usize, max_fps: usize) -> (f: usize)
    requires
        max_fps >= 1,
    ensures
        f as int == clamp_rate(requested as int, max_fps as int),
{
    if requested < 1 {
        1
    } else if requested > max_fps {
        max_fps
    } else {
        requested
    }
}

/// The most recently requested simulation frequency and pause flag, with the
/// band the frequency is kept in.
pub struct RateController {
    target_fps: usize,
    max_fps: usize,
    paused: bool,
}

impl RateController {
    /// The current target frequency.
    pub closed spec fn rate(self) -> int {
        self.target_fps as int
    }

    /// The top of the valid frequency band.
    pub closed spec fn max_rate(self) -> int {
        self.max_fps as int
    }

    /// The current pause flag.
    pub closed spec fn is_paused(self) -> bool {
        self.paused
    }

    /// Well-formed: the target frequency sits inside the valid band.
    pub open spec fn wf(self) -> bool {
        1 <= self.rate() <= self.max_rate()
    }

    /// A controller running (not paused) at the clamp of `initial_fps`.
    pub fn new(initial_fps: usize, max_fps: usize) -> (c: Self)
        requires
            max_fps >= 1,
        ensures
            c.wf(),
            c.max_rate() == max_fps as int,
            c.rate() == clamp_rate(initial_fps as int, max_fps as int),
            !c.is_paused(),
    {
        RateController { target_fps: clamp_frequency(initial_fps, max_fps), max_fps, paused: false }
    }

    /// Replaces the target frequency with the clamp of the request; invalid
    /// requests are clamped, never rejected.
    pub fn set_rate(&mut self, requested: usize)
        requires
            old(self).wf(),
        ensures
            final(self).wf(),
            final(self).rate() == clamp_rate(requested as int, old(self).max_rate()),
            final(self).max_rate() == old(self).max_rate(),
            final(self).is_paused() == old(self).is_paused(),
    {
        self.target_fps = clamp_frequency(requested, self.max_fps);
    }

    /// Raises the target frequency by one, stopping at the top of the band.
    pub fn increase(&mut self)
        requires
            old(self).wf(),
        ensures
            final(self).wf(),
            final(self).rate() == clamp_rate(old(self).rate() + 1, old(self).max_rate()),
            final(self).max_rate() == old(self).max_rate(),
            final(self).is_paused() == old(self).is_paused(),
    {
        if self.target_fps < self.max_fps {
            self.target_fps = self.target_fps + 1;
        }
    }

    /// Lowers the target frequency by one, stopping at the floor 1.
    pub fn decrease(&mut self)
        requires
            old(self).wf(),
        ensures
            final(self).wf(),
            final(self).rate() == clamp_rate(old(self).rate() - 1, old(self).max_rate()),
            final(self).max_rate() == old(self).max_rate(),
            final(self).is_paused() == old(self).is_paused(),
    {
        if self.target_fps > 1 {
            self.target_fps = self.target_fps - 1;
        }
    }

    /// Sets the pause flag.
    pub fn set_paused(&mut self, p: bool)
        requires
            old(self).wf(),
        ensures
            final(self).wf(),
            final(self).is_paused() == p,
            final(self).rate() == old(self).rate(),
            final(self).max_rate() == old(self).max_rate(),
    {
        self.paused = p;
    }

    /// Flips the pause flag.
    pub fn toggle_pause(&mut self)
        requires
            old(self).wf(),
        ensures
            final(self).wf(),
            final(self).is_paused() == !old(self).is_paused(),
            final(self).rate() == old(self).rate(),
            final(self).max_rate() == old(self).max_rate(),
    {
        self.paused = !self.paused;
    }

    /// The most recently written target frequency.
    pub fn latest_rate(&self) -> (f: usize)
        ensures
            f as int == self.rate(),
    {
        self.target_fps
    }

    /// The most recently written pause flag.
    pub fn latest_paused(&self) -> (p: bool)
        ensures
            p == self.is_paused(),
    {
        self.paused
    }
}

} // verus!
