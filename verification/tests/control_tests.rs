use game_of_life::channel::{new_controls, poll_controls};
use game_of_life::control::{apply_command, pacing_delay_micros, Command};
use game_of_life::grid::Chunk;
use game_of_life::rate::{clamp_frequency, RateController};

#[test]
fn controller_clamps_and_remembers_the_last_write() {
    let mut ctrl = RateController::new(30, 500);
    assert_eq!(ctrl.latest_rate(), 30);
    assert!(!ctrl.latest_paused());

    // A burst of distinct updates: only the last one is observable.
    ctrl.set_rate(100);
    ctrl.set_rate(7);
    ctrl.set_rate(250);
    ctrl.set_rate(42);
    assert_eq!(ctrl.latest_rate(), 42);

    // Invalid requests are clamped, never rejected.
    ctrl.set_rate(0);
    assert_eq!(ctrl.latest_rate(), 1);
    ctrl.set_rate(100_000);
    assert_eq!(ctrl.latest_rate(), 500);
}

#[test]
fn controller_steps_stop_at_the_band_edges() {
    let mut ctrl = RateController::new(499, 500);
    ctrl.increase();
    assert_eq!(ctrl.latest_rate(), 500);
    ctrl.increase();
    assert_eq!(ctrl.latest_rate(), 500);

    let mut ctrl = RateController::new(2, 500);
    ctrl.decrease();
    assert_eq!(ctrl.latest_rate(), 1);
    ctrl.decrease();
    assert_eq!(ctrl.latest_rate(), 1);
}

#[test]
fn controller_pause_toggles() {
    let mut ctrl = RateController::new(30, 500);
    ctrl.toggle_pause();
    assert!(ctrl.latest_paused());
    ctrl.toggle_pause();
    assert!(!ctrl.latest_paused());
    ctrl.set_paused(true);
    assert!(ctrl.latest_paused());
}

#[test]
fn clamp_frequency_floor_and_ceiling() {
    assert_eq!(clamp_frequency(0, 500), 1);
    assert_eq!(clamp_frequency(1, 500), 1);
    assert_eq!(clamp_frequency(30, 500), 30);
    assert_eq!(clamp_frequency(500, 500), 500);
    assert_eq!(clamp_frequency(501, 500), 500);
}

#[test]
fn pacing_delay_exact_values() {
    assert_eq!(pacing_delay_micros(0, 1), 1_000_000);
    assert_eq!(pacing_delay_micros(0, 30), 33_333);
    assert_eq!(pacing_delay_micros(30_000, 30), 3_333);
    assert_eq!(pacing_delay_micros(33_333, 30), 0);
    assert_eq!(pacing_delay_micros(1_000_000, 30), 0);
    assert_eq!(pacing_delay_micros(0, 500), 2_000);
}

#[test]
fn channel_burst_returns_exactly_the_last_value() {
    let (mut paused_rx, _paused_tx, mut fps_rx, fps_tx) = new_controls(false, 30, 500);

    // The initial value is readable before any update.
    let (paused, fps) = poll_controls(&mut paused_rx, &mut fps_rx, 500);
    assert!(!paused);
    assert_eq!(fps, 30);

    // N rapid updates with distinct values: latest() sees only the last.
    for v in [3usize, 99, 7, 250, 111, 42] {
        fps_tx.update(v).unwrap();
    }
    let (_, fps) = poll_controls(&mut paused_rx, &mut fps_rx, 500);
    assert_eq!(fps, 42);
}

#[test]
fn polled_rate_is_clamped_into_the_band() {
    let (mut paused_rx, paused_tx, mut fps_rx, fps_tx) = new_controls(false, 30, 500);
    fps_tx.update(0).unwrap();
    let (_, fps) = poll_controls(&mut paused_rx, &mut fps_rx, 500);
    assert_eq!(fps, 1);

    fps_tx.update(100_000).unwrap();
    let (_, fps) = poll_controls(&mut paused_rx, &mut fps_rx, 500);
    assert_eq!(fps, 500);

    paused_tx.update(true).unwrap();
    let (paused, _) = poll_controls(&mut paused_rx, &mut fps_rx, 500);
    assert!(paused);
}

#[test]
fn commands_drive_controller_grid_and_channels() {
    let (mut paused_rx, paused_tx, mut fps_rx, fps_tx) = new_controls(false, 30, 500);
    let mut ctrl = RateController::new(30, 500);
    let mut grid = Chunk::new();

    apply_command(&mut ctrl, &mut grid, Command::RaiseRate, &fps_tx, &paused_tx);
    apply_command(&mut ctrl, &mut grid, Command::RaiseRate, &fps_tx, &paused_tx);
    apply_command(&mut ctrl, &mut grid, Command::LowerRate, &fps_tx, &paused_tx);
    assert_eq!(ctrl.latest_rate(), 31);
    let (paused, fps) = poll_controls(&mut paused_rx, &mut fps_rx, 500);
    assert!(!paused);
    assert_eq!(fps, 31);

    apply_command(&mut ctrl, &mut grid, Command::TogglePause, &fps_tx, &paused_tx);
    let (paused, _) = poll_controls(&mut paused_rx, &mut fps_rx, 500);
    assert!(paused);

    apply_command(
        &mut ctrl,
        &mut grid,
        Command::SetCell { row: 4, col: 9 },
        &fps_tx,
        &paused_tx,
    );
    assert!(grid.get(4, 9));

    // Out-of-range edits do nothing.
    apply_command(
        &mut ctrl,
        &mut grid,
        Command::SetCell { row: 40, col: 9 },
        &fps_tx,
        &paused_tx,
    );
    let frame = grid.to_u32_array();
    assert_eq!(frame.iter().filter(|v| **v == u32::MAX).count(), 1);

    apply_command(&mut ctrl, &mut grid, Command::ClearGrid, &fps_tx, &paused_tx);
    let frame = grid.to_u32_array();
    assert!(frame.iter().all(|v| *v == 0));
}

#[test]
fn push_to_a_dropped_receiver_is_a_silent_no_op() {
    let (paused_rx, paused_tx, fps_rx, fps_tx) = new_controls(false, 30, 500);
    drop(paused_rx);
    drop(fps_rx);

    // The updater end reports the loss as an error value, never a panic.
    assert!(fps_tx.update(99).is_err());

    // Through the library the push is dropped silently and the local
    // controller still advances.
    let mut ctrl = RateController::new(30, 500);
    let mut grid = Chunk::new();
    apply_command(&mut ctrl, &mut grid, Command::RaiseRate, &fps_tx, &paused_tx);
    assert_eq!(ctrl.latest_rate(), 31);
    apply_command(&mut ctrl, &mut grid, Command::TogglePause, &fps_tx, &paused_tx);
    assert!(ctrl.latest_paused());
}
