use buddhabrot::grid::{Grid, Pixel};

#[test]
fn grid_rejects_empty_dimensions() {
    assert!(Grid::new(0, 10).is_none());
    assert!(Grid::new(10, 0).is_none());
    assert!(Grid::new(0, 0).is_none());
    assert!(Grid::new(10, 10).is_some());
    assert!(Grid::new(1, 1).is_some());
}

#[test]
fn grid_rejects_more_cells_than_can_be_counted() {
    assert!(Grid::new(usize::MAX, 2).is_none());
    assert!(Grid::new(2, usize::MAX).is_none());
    assert!(Grid::new(usize::MAX, 1).is_some());
}

#[test]
fn grid_reports_its_dimensions() {
    let grid = Grid::new(7, 3).unwrap();
    assert_eq!(grid.width(), 7);
    assert_eq!(grid.height(), 3);
    assert_eq!(grid.cell_count(), 21);
}

#[test]
fn grids_are_the_same_by_dimensions() {
    let grid = Grid::new(7, 3).unwrap();
    assert!(grid.same_as(&Grid::new(7, 3).unwrap()));
    assert!(!grid.same_as(&Grid::new(3, 7).unwrap()));
    assert!(!grid.same_as(&Grid::new(7, 4).unwrap()));
}

#[test]
fn pixel_at_is_none_outside_the_grid() {
    let grid = Grid::new(10, 10).unwrap();
    assert_eq!(grid.pixel_at(10, 0), None);
    assert_eq!(grid.pixel_at(0, 10), None);
    assert_eq!(grid.pixel_at(10, 10), None);
    assert_eq!(grid.pixel_at(usize::MAX, 3), None);
    assert_eq!(grid.pixel_at(3, usize::MAX), None);
}

#[test]
fn pixel_at_keeps_every_index_inside_the_grid() {
    let grid = Grid::new(4, 3).unwrap();
    for row in 0..6 {
        for col in 0..8 {
            match grid.pixel_at(col, row) {
                Some(pixel) => {
                    assert!(col < 4 && row < 3);
                    assert_eq!(pixel, Pixel { x: col, y: row });
                    assert!(grid.contains(pixel));
                }
                None => assert!(col >= 4 || row >= 3),
            }
        }
    }
}

#[test]
fn pixel_at_takes_the_corners() {
    let grid = Grid::new(10, 10).unwrap();
    assert_eq!(grid.pixel_at(0, 0), Some(Pixel { x: 0, y: 0 }));
    assert_eq!(grid.pixel_at(9, 0), Some(Pixel { x: 9, y: 0 }));
    assert_eq!(grid.pixel_at(0, 9), Some(Pixel { x: 0, y: 9 }));
    assert_eq!(grid.pixel_at(9, 9), Some(Pixel { x: 9, y: 9 }));
}

#[test]
fn index_of_is_row_major() {
    let grid = Grid::new(5, 4).unwrap();
    assert_eq!(grid.index_of(Pixel { x: 0, y: 0 }), Some(0));
    assert_eq!(grid.index_of(Pixel { x: 4, y: 0 }), Some(4));
    assert_eq!(grid.index_of(Pixel { x: 0, y: 1 }), Some(5));
    assert_eq!(grid.index_of(Pixel { x: 2, y: 3 }), Some(17));
    assert_eq!(grid.index_of(Pixel { x: 4, y: 3 }), Some(19));
    assert_eq!(grid.index_of(Pixel { x: 5, y: 0 }), None);
    assert_eq!(grid.index_of(Pixel { x: 0, y: 4 }), None);
}

#[test]
fn index_of_gives_every_pixel_its_own_place() {
    let grid = Grid::new(6, 5).unwrap();
    let mut seen = vec![false; grid.cell_count()];
    for y in 0..5 {
        for x in 0..6 {
            let place = grid.index_of(Pixel { x, y }).unwrap();
            assert!(!seen[place]);
            seen[place] = true;
        }
    }
    assert!(seen.iter().all(|&taken| taken));
}
