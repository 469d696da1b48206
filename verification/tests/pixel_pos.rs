use image_processing::pixel_pos::PixelPos;

#[test]
fn ctor_one_produces_one_one() {
    let one = PixelPos::one();
    assert_eq!(one, PixelPos::new(1, 1));
}

#[test]
fn row_vec_and_col_vec() {
    let pos = PixelPos::new(4, 5);

    let row_vec = pos.row_vec();
    assert_eq!(row_vec, PixelPos::new(pos.row, 0));

    let col_vec = pos.col_vec();
    assert_eq!(col_vec, PixelPos::new(0, pos.col));
}

#[test]
fn with_row_and_with_col_ctors() {
    let pos = PixelPos::new(4, 5);

    let v1 = pos.with_col(3);
    assert_eq!(v1, PixelPos::new(pos.row, 3));

    let v1 = pos.with_row(2);
    assert_eq!(v1, PixelPos::new(2, pos.col));
}

#[test]
fn neighbours() {
    const ROW: usize = 4;
    const COL: usize = 5;
    let pos = PixelPos::new(ROW, COL);

    let p = pos.lefter();
    assert_eq!(p, PixelPos::new(ROW, COL - 1));

    let p = pos.upper_lefter();
    assert_eq!(p, PixelPos::new(ROW - 1, COL - 1));

    let p = pos.upper();
    assert_eq!(p, PixelPos::new(ROW - 1, COL));

    let p = pos.upper_righter();
    assert_eq!(p, PixelPos::new(ROW - 1, COL + 1));

    let p = pos.righter();
    assert_eq!(p, PixelPos::new(ROW, COL + 1));

    let p = pos.downer_righter();
    assert_eq!(p, PixelPos::new(ROW + 1, COL + 1));

    let p = pos.downer();
    assert_eq!(p, PixelPos::new(ROW + 1, COL));

    let p = pos.downer_lefter();
    assert_eq!(p, PixelPos::new(ROW + 1, COL - 1));
}

#[test]
fn default_is_zero_zero() {
    let pos = PixelPos::default();
    assert_eq!(pos, PixelPos::new(0, 0));
}

#[test]
fn operators() {
    let mut pos1 = PixelPos::new(3, 4);
    let pos2 = PixelPos::new(1, 2);

    assert_eq!(pos1 + pos2, PixelPos::new(4, 6));
    assert_eq!(pos1 - pos2, PixelPos::new(2, 2));

    pos1 += pos2;
    assert_eq!(pos1, PixelPos::new(4, 6));

    pos1 -= pos2;
    assert_eq!(pos1, PixelPos::new(3, 4));
}

#[test]
fn adding_then_subtracting_gives_the_position_back() {
    let a = PixelPos::new(7, 11);
    let b = PixelPos::new(30, 2);
    assert_eq!((a + b) - b, a);
}

#[test]
fn negative_if_substract_compares_rows_with_the_column() {
    let a = PixelPos::new(5, 5);
    assert!(!a.negative_if_substract(PixelPos::new(2, 3)));
    assert!(a.negative_if_substract(PixelPos::new(0, 6)));
    // the row is compared with the other position's column
    assert!(a.negative_if_substract(PixelPos::new(0, 5)) == false);
    assert!(PixelPos::new(2, 9).negative_if_substract(PixelPos::new(0, 3)));
}
