use game_of_life::grid::{Grid, GridError};

#[test]
fn new_grid_is_all_dead() {
    let g = Grid::new(4, 3).unwrap();
    assert_eq!(g.width(), 4);
    assert_eq!(g.height(), 3);
    for x in 0..4 {
        for y in 0..3 {
            assert_eq!(g.get(x, y), Ok(false));
        }
    }
}

#[test]
fn new_rejects_zero_width() {
    assert_eq!(Grid::new(0, 5).err(), Some(GridError::InvalidDimension));
}

#[test]
fn new_rejects_zero_height() {
    assert_eq!(Grid::new(5, 0).err(), Some(GridError::InvalidDimension));
}

#[test]
fn get_rejects_out_of_range() {
    let g = Grid::new(3, 3).unwrap();
    assert_eq!(g.get(3, 0), Err(GridError::OutOfRange));
    assert_eq!(g.get(0, 3), Err(GridError::OutOfRange));
    assert_eq!(g.get(10, 10), Err(GridError::OutOfRange));
}

#[test]
fn set_rejects_out_of_range() {
    let mut g = Grid::new(3, 3).unwrap();
    assert_eq!(g.set(3, 1, true), Err(GridError::OutOfRange));
    assert_eq!(g.set(1, 3, true), Err(GridError::OutOfRange));
    for x in 0..3 {
        for y in 0..3 {
            assert_eq!(g.get(x, y), Ok(false));
        }
    }
}

#[test]
fn set_changes_only_the_named_cell() {
    let mut g = Grid::new(4, 4).unwrap();
    assert_eq!(g.set(2, 1, true), Ok(()));
    for x in 0..4 {
        for y in 0..4 {
            assert_eq!(g.get(x, y), Ok(x == 2 && y == 1));
        }
    }
    assert_eq!(g.set(2, 1, false), Ok(()));
    assert_eq!(g.get(2, 1), Ok(false));
}
