use servicepoint2::ByteGrid;
use servicepoint2::DataRef;
use servicepoint2::Grid;
use servicepoint2::PixelGrid;

#[test]
fn byte_grid_fill() {
    let mut grid = ByteGrid::new(2, 2);
    assert_eq!(grid.data_ref(), [0x00, 0x00, 0x00, 0x00]);

    grid.fill(42);
    assert_eq!(grid.data_ref(), [42; 4]);
}

#[test]
fn byte_grid_get_set() {
    let mut grid = ByteGrid::new(2, 2);
    assert_eq!(grid.get(0, 0), 0);
    assert_eq!(grid.get(1, 1), 0);

    grid.set(0, 0, 42);
    grid.set(1, 0, 23);
    assert_eq!(grid.data_ref(), [42, 23, 0, 0]);

    assert_eq!(grid.get(0, 0), 42);
    assert_eq!(grid.get(1, 0), 23);
    assert_eq!(grid.get(1, 1), 0);
}

#[test]
fn byte_grid_load() {
    let mut grid = ByteGrid::new(2, 3);
    for x in 0..grid.width() {
        for y in 0..grid.height() {
            grid.set(x, y, (x + y) as u8);
        }
    }

    assert_eq!(grid.data_ref(), [0, 1, 1, 2, 2, 3]);

    let data: Vec<u8> = grid.into_data();

    let grid = ByteGrid::load(2, 3, &data);
    assert_eq!(grid.data_ref(), [0, 1, 1, 2, 2, 3]);
}

#[test]
fn mut_data_ref() {
    let mut vec = ByteGrid::new(2, 2);

    let data_ref = vec.data_ref_mut();
    data_ref.copy_from_slice(&[1, 2, 3, 4]);

    assert_eq!(vec.data_ref(), [1, 2, 3, 4]);
    assert_eq!(vec.get(1, 0), 2)
}

#[test]
fn pixel_grid_fill() {
    let mut grid = PixelGrid::new(8, 2);
    assert_eq!(grid.data_ref(), [0x00, 0x00]);

    grid.fill(true);
    assert_eq!(grid.data_ref(), [0xFF, 0xFF]);

    grid.fill(false);
    assert_eq!(grid.data_ref(), [0x00, 0x00]);
}

#[test]
fn pixel_grid_get_set() {
    let mut grid = PixelGrid::new(8, 2);
    assert!(!grid.get(0, 0));
    assert!(!grid.get(1, 1));

    grid.set(5, 0, true);
    grid.set(1, 1, true);
    assert_eq!(grid.data_ref(), [0x04, 0x40]);

    assert!(grid.get(5, 0));
    assert!(grid.get(1, 1));
    assert!(!grid.get(1, 0));
}

#[test]
fn pixel_grid_load() {
    let mut grid = PixelGrid::new(8, 3);
    for x in 0..grid.width() {
        for y in 0..grid.height() {
            grid.set(x, y, (x + y) % 2 == 0);
        }
    }

    assert_eq!(grid.data_ref(), [0xAA, 0x55, 0xAA]);

    let data: Vec<u8> = grid.into_data();

    let grid = PixelGrid::load(8, 3, &data);
    assert_eq!(grid.data_ref(), [0xAA, 0x55, 0xAA]);
}

#[test]
fn pixel_grid_load_round_trips_cells() {
    let mut grid = PixelGrid::new(16, 2);
    grid.set(0, 0, true);
    grid.set(9, 0, true);
    grid.set(15, 1, true);

    let width = grid.width();
    let height = grid.height();
    let data: Vec<u8> = grid.into_data();
    let loaded = PixelGrid::load(width, height, &data);

    for x in 0..width {
        for y in 0..height {
            let expected = (x, y) == (0, 0) || (x, y) == (9, 0) || (x, y) == (15, 1);
            assert_eq!(loaded.get(x, y), expected);
        }
    }
}

#[test]
fn byte_grid_set_returns_previous_value() {
    let mut grid = ByteGrid::new(3, 3);
    assert_eq!(grid.set(2, 1, 7), 0);
    assert_eq!(grid.set(2, 1, 9), 7);
    assert_eq!(grid.get(2, 1), 9);
}

#[test]
fn byte_grid_full_window_equals_source() {
    let mut grid = ByteGrid::new(3, 2);
    for x in 0..3 {
        for y in 0..2 {
            grid.set(x, y, (10 * x + y) as u8);
        }
    }

    let win = grid.window(0, 0, 3, 2);
    assert_eq!(win.width(), 3);
    assert_eq!(win.height(), 2);
    assert_eq!(win, grid);
}

#[test]
fn byte_grid_sub_window() {
    let grid = ByteGrid::load(3, 2, &[1, 2, 3, 4, 5, 6]);
    let win = grid.window(1, 0, 2, 2);
    assert_eq!(win.data_ref(), [2, 3, 5, 6]);
}

#[test]
fn pixel_grid_full_window_equals_source() {
    let mut grid = PixelGrid::new(8, 2);
    grid.set(3, 0, true);
    grid.set(7, 1, true);

    let win = grid.window(0, 0, 8, 2);
    assert_eq!(win.width(), 8);
    assert_eq!(win.height(), 2);
    assert_eq!(win, grid);
}

#[test]
fn pixel_grid_fill_sets_every_cell() {
    let mut grid = PixelGrid::new(8, 3);
    grid.fill(true);
    for x in 0..8 {
        for y in 0..3 {
            assert!(grid.get(x, y));
        }
    }
}

#[test]
fn byte_grid_fill_sets_every_cell() {
    let mut grid = ByteGrid::new(4, 3);
    grid.fill(0x5A);
    for x in 0..4 {
        for y in 0..3 {
            assert_eq!(grid.get(x, y), 0x5A);
        }
    }
}

#[test]
fn max_sized_covers_whole_screen() {
    let grid = PixelGrid::max_sized();
    assert_eq!(grid.width(), 448);
    assert_eq!(grid.height(), 160);
    assert_eq!(grid.data_ref().len(), 448 * 160 / 8);
}
