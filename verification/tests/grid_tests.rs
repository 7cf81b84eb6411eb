use game_of_life::grid::Chunk;

#[test]
fn debug() {
    let mut chunk = Chunk::new();
    chunk.set(0, 0);
    assert!(chunk.get(0, 0));

    chunk.unset(0, 0);
    assert!(!chunk.get(0, 0));

    chunk.toggle(0, 0);
    assert!(chunk.get(0, 0));

    chunk.toggle(0, 0);
    assert!(!chunk.get(0, 0));

    chunk.toggle(31, 31);
    chunk.toggle(30, 30);
    chunk.toggle(29, 29);
    println!("{chunk:?}");
    assert!(chunk.get(31, 31));
    assert!(chunk.get(30, 30));
    assert!(chunk.get(29, 29));
}

#[test]
fn get_after_set_and_unset_any_prior_state() {
    // Both prior states for set: the cell ends alive either way.
    let mut a = Chunk::new();
    a.set(3, 7);
    assert!(a.get(3, 7));
    a.set(3, 7);
    assert!(a.get(3, 7));

    // Both prior states for unset: the cell ends dead either way.
    a.unset(3, 7);
    assert!(!a.get(3, 7));
    a.unset(3, 7);
    assert!(!a.get(3, 7));
}

#[test]
fn set_leaves_other_cells_alone() {
    let mut a = Chunk::new();
    a.set(4, 4);
    a.set(4, 5);
    a.set(0, 31);
    assert!(a.get(4, 4));
    assert!(a.get(4, 5));
    assert!(a.get(0, 31));
    a.unset(4, 5);
    assert!(a.get(4, 4));
    assert!(!a.get(4, 5));
    assert!(a.get(0, 31));
}

#[test]
fn toggle_twice_restores() {
    let mut a = Chunk::new();
    a.set(2, 2);
    a.set(9, 30);

    // From alive back to alive, and from dead back to dead.
    a.toggle(2, 2);
    a.toggle(2, 2);
    assert!(a.get(2, 2));
    a.toggle(5, 5);
    a.toggle(5, 5);
    assert!(!a.get(5, 5));

    // The rest of the board is untouched.
    assert!(a.get(9, 30));
    let frame = a.to_u32_array();
    let mut live: usize = 0;
    for v in &frame {
        if *v == u32::MAX {
            live += 1;
        }
    }
    assert_eq!(live, 2);
}

#[test]
fn out_of_range_reads_dead_and_writes_are_no_ops() {
    let mut a = Chunk::new();
    assert!(!a.get(32, 0));
    assert!(!a.get(0, 32));
    assert!(!a.get(1000, 1000));

    a.set(32, 0);
    a.set(0, 32);
    a.toggle(32, 32);
    a.unset(99, 99);
    let frame = a.to_u32_array();
    assert!(frame.iter().all(|v| *v == 0));
}

#[test]
fn frame_is_row_major_with_sentinel() {
    let mut a = Chunk::new();
    a.set(0, 0);
    a.set(1, 2);
    a.set(31, 31);
    let frame = a.to_u32_array();
    assert_eq!(frame.len(), 1024);
    assert_eq!(frame[0], u32::MAX);
    assert_eq!(frame[32 + 2], u32::MAX);
    assert_eq!(frame[31 * 32 + 31], u32::MAX);
    let live = frame.iter().filter(|v| **v == u32::MAX).count();
    assert_eq!(live, 3);
    assert!(frame.iter().all(|v| *v == 0 || *v == u32::MAX));
}

#[test]
fn frame_round_trip() {
    let mut frame = vec![0u32; 1024];
    frame[5 * 32 + 6] = u32::MAX;
    frame[17 * 32] = 1; // any nonzero value counts as alive
    let chunk = Chunk::from_u32_array(&frame);
    assert!(chunk.get(5, 6));
    assert!(chunk.get(17, 0));
    assert!(!chunk.get(5, 7));

    let back = chunk.to_u32_array();
    assert_eq!(back[5 * 32 + 6], u32::MAX);
    assert_eq!(back[17 * 32], u32::MAX);
    let live = back.iter().filter(|v| **v == u32::MAX).count();
    assert_eq!(live, 2);
}

#[test]
fn clear_kills_every_cell() {
    let mut a = Chunk::new();
    for k in 0..32 {
        a.set(k, (k * 7) % 32);
    }
    a.clear();
    let frame = a.to_u32_array();
    assert!(frame.iter().all(|v| *v == 0));
}

#[test]
fn default_is_all_dead() {
    let a = Chunk::default();
    let frame = a.to_u32_array();
    assert!(frame.iter().all(|v| *v == 0));
}
