//! The decisions of the two loops, as pure state transitions: pacing for
//! the simulation loop, and the handling of each user input event for the
//! presentation loop. The loops themselves (window polling, sleeping) stay
//! outside; they only perform what these functions decide.

use vstd::prelude::*;
use crate::channel::{update_bool, update_usize};
use crate::grid::{cell_at, set_cell, Chunk};
use crate::rate::{clamp_rate, RateController};

verus! {

/// The shortest allowed spacing between two generation steps at the given
/// frequency, in microseconds.
pub open spec fn step_interval_micros(fps: int) -> int
    recommends
        fps >= 1,
{
    1_000_000int / fps
}

/// How much longer the simulation loop must sleep so that steps are spaced
/// at least one interval apart: the remainder of the interval, and zero once
/// the interval has already passed (never a negative sleep).
pub fn pacing_delay_micros(elapsed_micros: u64, fps: usize) -> (sleep_micros: u64)
    requires
        fps >= 1,
    ensures
        sleep_micros as int == if elapsed_micros < step_interval_micros(fps as int) {
            step_interval_micros(fps as int) - elapsed_micros
        } else {
            0
        },
{
    let interval: u64 = 1_000_000u64 / (fps as u64);
    if elapsed_micros < interval {
        interval - elapsed_micros
    } else {
        0
    }
}

/// One user input event, as the presentation loop reports it.
pub enum Command {
    /// Ask for one more step per second, up to the band's top.
    RaiseRate,
    /// Ask for one step per second less, down to the floor 1.
    LowerRate,
    /// Flip the pause flag.
    TogglePause,
    /// Kill every cell on the board.
    ClearGrid,
    /// Make one cell alive (the cursor's cell); out of range does nothing.
    SetCell { row: usize, col: usize },
}

/// Applies one input event: mutates the rate controller or the grid, and
/// publishes a changed frequency or pause flag through its channel. A push
/// whose receiving loop is gone is dropped silently; the local state still
/// changes as stated.
pub fn apply_command(
    ctrl: &mut RateController,
    grid: &mut Chunk,
    cmd: Command,
    fps_tx: &single_value_channel::Updater<usize>,
    paused_tx: &single_value_channel::Updater<bool>,
)
    requires
        old(ctrl).wf(),
        old(grid).wf(),
    ensures
        final(ctrl).wf(),
        final(grid).wf(),
        final(ctrl).max_rate() == old(ctrl).max_rate(),
        match cmd {
            Command::RaiseRate => {
                &&& final(ctrl).rate() == clamp_rate(old(ctrl).rate() + 1, old(ctrl).max_rate())
                &&& final(ctrl).is_paused() == old(ctrl).is_paused()
                &&& final(grid)@ == old(grid)@
            },
            Command::LowerRate => {
                &&& final(ctrl).rate() == clamp_rate(old(ctrl).rate() - 1, old(ctrl).max_rate())
                &&& final(ctrl).is_paused() == old(ctrl).is_paused()
                &&& final(grid)@ == old(grid)@
            },
            Command::TogglePause => {
                &&& final(ctrl).rate() == old(ctrl).rate()
                &&& final(ctrl).is_paused() == !old(ctrl).is_paused()
                &&& final(grid)@ == old(grid)@
            },
            Command::ClearGrid => {
                &&& final(ctrl).rate() == old(ctrl).rate()
                &&& final(ctrl).is_paused() == old(ctrl).is_paused()
                &&& forall|i: int, j: int| !(#[trigger] cell_at(final(grid)@, i, j))
            },
            Command::SetCell { row, col } => {
                &&& final(ctrl).rate() == old(ctrl).rate()
                &&& final(ctrl).is_paused() == old(ctrl).is_paused()
                &&& final(grid)@ == set_cell(old(grid)@, row as int, col as int, true)
            },
        },
{
    match cmd {
        Command::RaiseRate => {
            ctrl.increase();
            update_usize(fps_tx, ctrl.latest_rate());
        },
        Command::LowerRate => {
            ctrl.decrease();
            update_usize(fps_tx, ctrl.latest_rate());
        },
        Command::TogglePause => {
            ctrl.toggle_pause();
            update_bool(paused_tx, ctrl.latest_paused());
        },
        Command::ClearGrid => {
            grid.clear();
        },
        Command::SetCell { row, col } => {
            grid.set(row, col);
        },
    }
}

} // verus!
