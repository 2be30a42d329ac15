use block_grid::{GridDaddy, GridError, Position};

#[test]
fn new_builds_one_master_per_layer() {
    let gd = GridDaddy::new(2, 3, 4, 7);
    assert_eq!(gd.grids.len(), 4);
    for (i, gm) in gd.grids.iter().enumerate() {
        assert_eq!(gm.layer, i);
        assert_eq!(gm.rows(), 2);
        assert_eq!(gm.cols(), 3);
        assert_eq!(gm.clock.time, 0);
        assert_eq!(gm.clock.interval, 7);
        assert!(!gm.clock.dispatch);
        for c in 0..3 {
            for r in 0..2 {
                assert_eq!(gm.get(c, r), Some(false));
            }
        }
    }
}

#[test]
fn tick_all_advances_every_clock() {
    let mut gd = GridDaddy::new(2, 2, 3, 10);
    gd.tick_all(4);
    for gm in gd.grids.iter() {
        assert_eq!(gm.clock.time, 4);
        assert!(!gm.clock.dispatch);
    }
    gd.tick_all(6);
    for gm in gd.grids.iter() {
        assert_eq!(gm.clock.time, 0);
        assert!(gm.clock.dispatch);
    }
}

#[test]
fn tick_all_leaves_cells_alone() {
    let mut gd = GridDaddy::new(2, 2, 2, 10);
    assert_eq!(gd.grids[1].occupy(&Position(0, 1, 1)), Ok(()));
    gd.tick_all(3);
    assert_eq!(gd.grids[1].get(0, 1), Some(true));
    assert_eq!(gd.grids[0].get(0, 1), Some(false));
}

#[test]
fn request_move_routes_to_the_positions_layer() {
    let mut gd = GridDaddy::new(3, 3, 2, 1);
    assert_eq!(gd.grids[1].occupy(&Position(1, 1, 1)), Ok(()));
    gd.grids[1].clock.dispatch = true;
    let q = gd.request_move(&Position(1, 1, 1)).expect("layer 1 dispatches");
    assert_eq!(q.2, 1);
    assert_eq!(gd.grids[1].get(q.0, q.1), Some(true));
    // layer 0 never saw the request
    for c in 0..3 {
        for r in 0..3 {
            assert_eq!(gd.grids[0].get(c, r), Some(false));
        }
    }
}

#[test]
fn request_move_respects_each_layers_clock() {
    let mut gd = GridDaddy::new(3, 3, 2, 1);
    assert_eq!(gd.grids[0].occupy(&Position(1, 1, 0)), Ok(()));
    gd.grids[1].clock.dispatch = true;  // the other layer's window is open
    assert_eq!(gd.request_move(&Position(1, 1, 0)), None);
}

#[test]
fn release_routes_and_reports_missing_layer() {
    let mut gd = GridDaddy::new(2, 2, 2, 1);
    assert_eq!(gd.grids[0].occupy(&Position(1, 0, 0)), Ok(()));
    assert_eq!(gd.release(&Position(1, 0, 0)), Ok(()));
    assert_eq!(gd.grids[0].get(1, 0), Some(false));
    assert_eq!(gd.release(&Position(0, 0, 5)), Err(GridError::OutOfBounds));
    assert_eq!(gd.release(&Position(0, 0, 1)), Err(GridError::AlreadyFree));
}
