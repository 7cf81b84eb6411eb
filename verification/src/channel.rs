//! The cross-thread side of the rate controller: the two single-slot,
//! last-write-wins channels (pause flag and target frequency) that carry the
//! presentation side's decisions to the simulation loop. The channel itself
//! is `single_value_channel`; its calls stand behind trusted wrappers, and
//! every value read out of a channel is clamped by verified code before it
//! is acted on, since the writing thread may have stored anything.

use vstd::prelude::*;
use crate::rate::clamp_frequency;

verus! {

#[verifier::external_type_specification]
#[verifier::external_body]
#[verifier::reject_recursive_types(T)]
pub struct ExReceiver<T>(single_value_channel::Receiver<T>);

#[verifier::external_type_specification]
#[verifier::external_body]
#[verifier::reject_recursive_types(T)]
pub struct ExUpdater<T>(single_value_channel::Updater<T>);

/// Relies on single_value_channel::channel_starting_with: makes a linked
/// receiver/updater pair whose slot starts at `initial`. What `latest` later
/// returns depends on the updater's thread, so nothing is claimed of the
/// pair.
#[verifier::external_body]
fn channel_bool(initial: bool) -> (single_value_channel::Receiver<bool>, single_value_channel::Updater<bool>) {
    single_value_channel::channel_starting_with(initial)
}

/// Relies on single_value_channel::channel_starting_with: makes a linked
/// receiver/updater pair whose slot starts at `initial`.
#[verifier::external_body]
fn channel_usize(initial: usize) -> (single_value_channel::Receiver<usize>, single_value_channel::Updater<usize>) {
    single_value_channel::channel_starting_with(initial)
}

/// Relies on single_value_channel::Receiver::latest: hands out the most
/// recently written value, or the initial one if none was written. Another
/// thread holds the updater, so no particular value can be promised of the
/// result.
#[verifier::external_body]
fn latest_bool(rx: &mut single_value_channel::Receiver<bool>) -> bool {
    *rx.latest()
}

/// Relies on single_value_channel::Receiver::latest: hands out the most
/// recently written value, or the initial one if none was written.
#[verifier::external_body]
fn latest_usize(rx: &mut single_value_channel::Receiver<usize>) -> usize {
    *rx.latest()
}

/// Relies on single_value_channel::Updater::update: overwrites the slot with
/// `value`, replacing — never queuing — what was there. It fails exactly
/// when the receiving end was dropped, which only the other thread decides,
/// so only the success flag comes back and a failed push is a no-op.
#[verifier::external_body]
pub(crate) fn update_bool(tx: &single_value_channel::Updater<bool>, value: bool) -> bool {
    tx.update(value).is_ok()
}

/// Relies on single_value_channel::Updater::update: overwrites the slot with
/// `value`, replacing — never queuing — what was there.
#[verifier::external_body]
pub(crate) fn update_usize(tx: &single_value_channel::Updater<usize>, value: usize) -> bool {
    tx.update(value).is_ok()
}

/// Creates the two control channels, pause flag first: the slots start at
/// `start_paused` and at the clamp of `initial_fps` into `[1, max_fps]`, so
/// the simulation loop never sees an out-of-band starting frequency.
pub fn new_controls(start_paused: bool, initial_fps: usize, max_fps: usize) -> (chans: (
    single_value_channel::Receiver<bool>,
    single_value_channel::Updater<bool>,
    single_value_channel::Receiver<usize>,
    single_value_channel::Updater<usize>,
))
    requires
        max_fps >= 1,
{
    let fps = clamp_frequency(initial_fps, max_fps);
    let (paused_rx, paused_tx) = channel_bool(start_paused);
    let (fps_rx, fps_tx) = channel_usize(fps);
    (paused_rx, paused_tx, fps_rx, fps_tx)
}

/// One control read of the simulation loop: the latest pause flag and the
/// latest requested frequency. Whatever value the writing thread put in the
/// slot, the frequency handed on is its clamp into `[1, max_fps]` — an
/// invalid rate is clamped, never an error.
pub fn poll_controls(
    paused_rx: &mut single_value_channel::Receiver<bool>,
    fps_rx: &mut single_value_channel::Receiver<usize>,
    max_fps: usize,
) -> (r: (bool, usize))
    requires
        max_fps >= 1,
    ensures
        1 <= r.1 <= max_fps,
{
    let paused = latest_bool(paused_rx);
    let requested = latest_usize(fps_rx);
    let fps = clamp_frequency(requested, max_fps);
    (paused, fps)
}

} // verus!
