use termbuffer::frame::OutOfBounds;
use termbuffer::{Char, Color, Frame};

#[test]
fn new_frame_is_blank_at_its_size() {
    let frame = Frame::new(4, 3);
    assert_eq!(frame.rows(), 4);
    assert_eq!(frame.columns(), 3);
    assert_eq!(frame.dims(), (4, 3));
    for row in 0..4 {
        for col in 0..3 {
            assert_eq!(frame.get(row, col), Char::default());
        }
    }
}

#[test]
fn frame_may_have_no_cells() {
    let frame = Frame::new(0, 5);
    assert_eq!(frame.dims(), (0, 5));
    let frame = Frame::new(5, 0);
    assert_eq!(frame.dims(), (5, 0));
}

#[test]
fn get_after_set_returns_what_was_set() {
    let mut frame = Frame::new(4, 3);
    let cell = Char::with_colors('A', Color::Red, Color::Rgb(1, 2, 3));
    for row in 0..4 {
        for col in 0..3 {
            frame.set(row, col, cell);
            assert_eq!(frame.get(row, col), cell);
        }
    }
}

#[test]
fn set_leaves_every_other_cell_alone() {
    let mut frame = Frame::new(4, 3);
    let mut shadow = vec![vec![Char::default(); 3]; 4];
    let writes = [(1usize, 2usize, 'a'), (3, 0, 'b'), (0, 0, 'c'), (1, 2, 'd'), (3, 2, 'e')];
    for (row, col, glyph) in writes {
        let cell = Char::with_fg(glyph, Color::Green);
        frame.set(row, col, cell);
        shadow[row][col] = cell;
        for r in 0..4 {
            for c in 0..3 {
                assert_eq!(frame.get(r, c), shadow[r][c]);
            }
        }
        assert_eq!(frame.dims(), (4, 3));
    }
}

#[test]
fn distinct_cells_never_share_storage() {
    let mut frame = Frame::new(3, 5);
    for row in 0..3 {
        for col in 0..5 {
            let glyph = char::from_u32(0x41 + (row * 5 + col) as u32).unwrap();
            frame.set(row, col, Char::new(glyph));
        }
    }
    for row in 0..3 {
        for col in 0..5 {
            let glyph = char::from_u32(0x41 + (row * 5 + col) as u32).unwrap();
            assert_eq!(frame.get(row, col), Char::new(glyph));
        }
    }
}

#[test]
fn reset_blanks_and_resizes() {
    let mut frame = Frame::new(2, 2);
    frame.set(1, 1, Char::with_fg('x', Color::Blue));
    frame.reset(3, 4);
    assert_eq!(frame.dims(), (3, 4));
    for row in 0..3 {
        for col in 0..4 {
            assert_eq!(frame.get(row, col), Char::default());
        }
    }
    frame.set(2, 3, Char::new('y'));
    frame.reset(1, 1);
    assert_eq!(frame.dims(), (1, 1));
    assert_eq!(frame.get(0, 0), Char::default());
}

#[test]
fn prev_row_col_of_origin_is_none() {
    let frame = Frame::new(4, 3);
    assert_eq!(frame.prev_row_col(0, 0), None);
    let empty = Frame::new(0, 0);
    assert_eq!(empty.prev_row_col(0, 0), None);
}

#[test]
fn prev_row_col_in_first_column_wraps_to_row_above() {
    let frame = Frame::new(4, 3);
    assert_eq!(frame.prev_row_col(1, 0), Some((0, 2)));
    assert_eq!(frame.prev_row_col(2, 0), Some((1, 2)));
    assert_eq!(frame.prev_row_col(3, 0), Some((2, 2)));
    let narrow = Frame::new(2, 1);
    assert_eq!(narrow.prev_row_col(1, 0), Some((0, 0)));
}

#[test]
fn prev_row_col_elsewhere_is_the_cell_to_the_left() {
    let frame = Frame::new(4, 3);
    assert_eq!(frame.prev_row_col(0, 1), Some((0, 0)));
    assert_eq!(frame.prev_row_col(0, 2), Some((0, 1)));
    assert_eq!(frame.prev_row_col(3, 2), Some((3, 1)));
    assert_eq!(frame.prev_row_col(2, 1), Some((2, 0)));
}

#[test]
fn check_dims_accepts_every_cell_of_the_frame() {
    let frame = Frame::new(4, 3);
    for row in 0..4 {
        for col in 0..3 {
            assert_eq!(frame.check_dims(row, col), Ok(()));
        }
    }
}

#[test]
fn check_dims_reports_a_row_out_of_bounds_first() {
    let frame = Frame::new(4, 3);
    assert_eq!(frame.check_dims(4, 0), Err(OutOfBounds::Row { row: 4, rows: 4 }));
    assert_eq!(frame.check_dims(4, 3), Err(OutOfBounds::Row { row: 4, rows: 4 }));
    assert_eq!(
        frame.check_dims(usize::MAX, 9),
        Err(OutOfBounds::Row { row: usize::MAX, rows: 4 })
    );
}

#[test]
fn check_dims_reports_a_column_out_of_bounds() {
    let frame = Frame::new(4, 3);
    assert_eq!(frame.check_dims(0, 3), Err(OutOfBounds::Column { col: 3, cols: 3 }));
    assert_eq!(frame.check_dims(3, 7), Err(OutOfBounds::Column { col: 7, cols: 3 }));
}

#[test]
fn check_dims_rejects_everything_in_a_frame_without_cells() {
    let frame = Frame::new(0, 3);
    assert_eq!(frame.check_dims(0, 0), Err(OutOfBounds::Row { row: 0, rows: 0 }));
    let frame = Frame::new(3, 0);
    assert_eq!(frame.check_dims(0, 0), Err(OutOfBounds::Column { col: 0, cols: 0 }));
}

#[test]
fn clone_of_a_frame_holds_the_same_cells() {
    let mut frame = Frame::new(2, 3);
    frame.set(1, 2, Char::with_fg('k', Color::Magenta));
    let copy = frame.clone();
    assert_eq!(copy.dims(), (2, 3));
    for row in 0..2 {
        for col in 0..3 {
            assert_eq!(copy.get(row, col), frame.get(row, col));
        }
    }
    frame.set(0, 0, Char::new('m'));
    assert_eq!(copy.get(0, 0), Char::default());
}

#[test]
fn try_set_writes_a_cell_of_the_frame() {
    let mut frame = Frame::new(4, 3);
    let cell = Char::with_fg('t', Color::Cyan);
    assert_eq!(frame.try_set(3, 2, cell), Ok(()));
    assert_eq!(frame.get(3, 2), cell);
    assert_eq!(frame.try_get(3, 2), Ok(cell));
    assert_eq!(frame.try_get(0, 0), Ok(Char::default()));
}

#[test]
fn try_set_out_of_range_reports_the_fault_and_changes_nothing() {
    let mut frame = Frame::new(4, 3);
    let mark = Char::with_fg('m', Color::Red);
    for row in 0..4 {
        for col in 0..3 {
            frame.set(row, col, mark);
        }
    }
    let before = frame.clone();
    let cell = Char::new('x');
    assert_eq!(frame.try_set(4, 0, cell), Err(OutOfBounds::Row { row: 4, rows: 4 }));
    assert_eq!(frame.try_set(5, 0, cell), Err(OutOfBounds::Row { row: 5, rows: 4 }));
    assert_eq!(frame.try_set(9, 9, cell), Err(OutOfBounds::Row { row: 9, rows: 4 }));
    assert_eq!(frame.try_set(0, 3, cell), Err(OutOfBounds::Column { col: 3, cols: 3 }));
    assert_eq!(frame.try_set(1, 4, cell), Err(OutOfBounds::Column { col: 4, cols: 3 }));
    assert_eq!(
        frame.try_set(usize::MAX, usize::MAX, cell),
        Err(OutOfBounds::Row { row: usize::MAX, rows: 4 })
    );
    assert!(frame == before);
}

#[test]
fn try_get_out_of_range_reports_the_fault() {
    let mut frame = Frame::new(4, 3);
    frame.set(1, 1, Char::new('w'));
    assert_eq!(frame.try_get(5, 0), Err(OutOfBounds::Row { row: 5, rows: 4 }));
    assert_eq!(frame.try_get(4, 3), Err(OutOfBounds::Row { row: 4, rows: 4 }));
    assert_eq!(frame.try_get(1, 4), Err(OutOfBounds::Column { col: 4, cols: 3 }));
    assert_eq!(frame.try_get(0, usize::MAX), Err(OutOfBounds::Column { col: usize::MAX, cols: 3 }));
}

#[test]
fn frames_are_equal_when_size_and_cells_agree() {
    let mut a = Frame::new(2, 3);
    let mut b = Frame::new(2, 3);
    assert!(a == b);
    a.set(1, 2, Char::new('e'));
    assert!(a != b);
    b.set(1, 2, Char::new('e'));
    assert!(a == b);
    assert!(Frame::new(2, 3) != Frame::new(3, 2));
    assert!(Frame::new(0, 3) != Frame::new(0, 4));
}
