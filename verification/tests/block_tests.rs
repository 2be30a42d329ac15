use block_grid::{Block, BlockState, GridError, GridMaster, Position};

fn occupied_count(gm: &GridMaster) -> usize {
    let mut n = 0;
    for c in 0..gm.cols() {
        for r in 0..gm.rows() {
            if gm.get(c, r) == Some(true) {
                n += 1;
            }
        }
    }
    n
}

#[test]
fn new_block_is_idle() {
    let b = Block::new(Position(2, 1, 0));
    assert_eq!(b.cur_location, Position(2, 1, 0));
    assert_eq!(b.next_location, None);
    assert_eq!(b.state, BlockState::Idle);
}

#[test]
fn idle_block_stays_put_outside_dispatch_window() {
    let mut gm = GridMaster::new(3, 3);
    assert_eq!(gm.occupy(&Position(1, 1, 0)), Ok(()));
    let mut b = Block::new(Position(1, 1, 0));
    assert!(!b.try_start_move(&mut gm));
    assert_eq!(b.state, BlockState::Idle);
    assert_eq!(b.next_location, None);
    assert_eq!(occupied_count(&gm), 1);
}

#[test]
fn full_move_cycle_conserves_occupancy() {
    // one row of three cells, the occupant on the left end: the only move
    // is into the middle, and after the cycle the count is back where it was.
    let mut gm = GridMaster::new(1, 3);
    assert_eq!(gm.occupy(&Position(0, 0, 0)), Ok(()));
    let mut b = Block::new(Position(0, 0, 0));
    gm.clock.dispatch = true;

    assert!(b.try_start_move(&mut gm));
    assert_eq!(b.state, BlockState::Animating);
    assert_eq!(b.next_location, Some(Position(1, 0, 0)));
    assert_eq!(b.cur_location, Position(0, 0, 0));
    assert_eq!(occupied_count(&gm), 2);

    // the host's animation lands; the block steps over and frees its old cell
    assert_eq!(b.finish_move(&mut gm), Ok(()));
    assert_eq!(b.state, BlockState::Idle);
    assert_eq!(b.cur_location, Position(1, 0, 0));
    assert_eq!(b.next_location, None);
    assert_eq!(gm.get(0, 0), Some(false));
    assert_eq!(gm.get(1, 0), Some(true));
    assert_eq!(occupied_count(&gm), 1);
}

#[test]
fn blocked_in_block_keeps_retrying() {
    let mut gm = GridMaster::new(1, 2);
    assert_eq!(gm.occupy(&Position(0, 0, 0)), Ok(()));
    assert_eq!(gm.occupy(&Position(1, 0, 0)), Ok(()));
    let mut b = Block::new(Position(0, 0, 0));
    gm.clock.dispatch = true;
    assert!(!b.try_start_move(&mut gm));
    assert!(!b.try_start_move(&mut gm));
    assert_eq!(b.state, BlockState::Idle);
}

#[test]
fn finishing_over_a_free_cell_reports() {
    // the block believes it owns (0,0), but that cell was never occupied:
    // a caller contract violation, reported instead of aborting.
    let mut gm = GridMaster::new(2, 2);
    let mut b = Block::new(Position(0, 0, 0));
    b.next_location = Some(Position(1, 0, 0));
    b.state = BlockState::Animating;
    assert_eq!(b.finish_move(&mut gm), Err(GridError::AlreadyFree));
    assert_eq!(b.state, BlockState::Animating);
    assert_eq!(b.cur_location, Position(0, 0, 0));
}

#[test]
fn two_blocks_never_share_a_reservation() {
    // 2x2 grid with occupants in two corners; each asks once in the same
    // window. whatever is granted, the two reservations differ.
    let mut gm = GridMaster::new(2, 2);
    assert_eq!(gm.occupy(&Position(0, 0, 0)), Ok(()));
    assert_eq!(gm.occupy(&Position(1, 1, 0)), Ok(()));
    let mut a = Block::new(Position(0, 0, 0));
    let mut b = Block::new(Position(1, 1, 0));
    gm.clock.dispatch = true;
    let a_started = a.try_start_move(&mut gm);
    let b_started = b.try_start_move(&mut gm);
    if a_started && b_started {
        assert_ne!(a.next_location.unwrap(), b.next_location.unwrap());
    }
    // two free cells, so the first request always finds one
    assert!(a_started);
}
