use image_processing::matrix2d::{ExtendValue, Matrix2D};
use image_processing::pixel_pos::PixelPos;
use image_processing::pixels_area::PixelsArea;

fn numbered(w: usize, h: usize) -> Matrix2D<u8> {
    Matrix2D::generate(w, h, |p: PixelPos| (p.row * w + p.col + 1) as u8)
}

#[test]
fn ctor_empty_with_size() {
    let m: Matrix2D<u8> = Matrix2D::empty_with_size(2, 3);

    assert_eq!(m.w(), 2);
    assert_eq!(m.h(), 3);

    for v in m.pixels() {
        assert_eq!(*v, 0);
    }
}

#[test]
fn ctor_empty_size_of() {
    let m: Matrix2D<u8> = Matrix2D::empty_with_size(2, 3);
    let m2: Matrix2D<u8> = Matrix2D::empty_size_of(&m);

    assert_eq!(m2.w(), m.w());
    assert_eq!(m2.h(), m.h());

    for v in m2.pixels() {
        assert_eq!(*v, 0);
    }
}

#[test]
fn ctor_generate() {
    let m: Matrix2D<f64> = Matrix2D::generate(2, 3, |p: PixelPos| (p.row * 2 + p.col) as f64);

    let positions: [PixelPos; 6] = [
        PixelPos::new(0, 0),
        PixelPos::new(0, 1),
        PixelPos::new(1, 0),
        PixelPos::new(1, 1),
        PixelPos::new(2, 0),
        PixelPos::new(2, 1),
    ];

    for i in 0..positions.len() {
        let pos = positions[i];

        assert_eq!(m.get(pos), m.pixels()[i]);
        assert_eq!(m.pixels()[i], i as f64);
    }
}

#[test]
fn w_h_size_vec_max_col_max_row() {
    const W: usize = 2;
    const H: usize = 3;
    let m: Matrix2D<f64> = Matrix2D::empty_with_size(W, H);
    assert_eq!(m.w(), W);
    assert_eq!(m.h(), H);
    assert_eq!(m.size_vec(), PixelPos::new(H, W));
    assert_eq!(m.max_col(), W - 1);
    assert_eq!(m.max_row(), H - 1);
}

#[test]
fn fits() {
    const W: usize = 2;
    const H: usize = 3;
    let m: Matrix2D<f64> = Matrix2D::empty_with_size(W, H);

    let area = PixelsArea::with_size(4, 5);
    let mut iter = area.get_pixels_iter();
    while let Some(pos) = iter.next() {
        let fits: bool = pos.col < W && pos.row < H;
        assert_eq!(m.fits(pos), fits);
    }
}

#[test]
fn area() {
    const W: usize = 2;
    const H: usize = 3;
    let m: Matrix2D<f64> = Matrix2D::empty_with_size(W, H);
    assert_eq!(m.area(), PixelsArea::new(PixelPos::new(0, 0), PixelPos::new(H - 1, W - 1)));
}

#[test]
fn scalar_transform_self_area() {
    const W: usize = 2;
    const H: usize = 3;
    let m = numbered(W, H);
    let mut m2 = m.duplicate();
    m2.scalar_transform_self_area(m.area(), |val: u8, _pos: PixelPos| val.wrapping_mul(2));

    for (ind, p) in m.pixels().iter().enumerate() {
        assert_eq!(m2.pixels()[ind], *p * 2);
    }
}

#[test]
fn scalar_transform_self_area_keeps_values_outside() {
    let m = numbered(3, 3);
    let mut m2 = m.duplicate();
    let area = PixelsArea::new(PixelPos::new(1, 1), PixelPos::new(2, 2));
    m2.scalar_transform_self_area(area, |_val: u8, pos: PixelPos| (pos.row * 10 + pos.col) as u8);
    assert_eq!(m2.get(PixelPos::new(0, 0)), m.get(PixelPos::new(0, 0)));
    assert_eq!(m2.get(PixelPos::new(1, 0)), m.get(PixelPos::new(1, 0)));
    assert_eq!(m2.get(PixelPos::new(1, 1)), 11);
    assert_eq!(m2.get(PixelPos::new(2, 2)), 22);
}

#[test]
fn get_max() {
    const W: usize = 2;
    const H: usize = 3;
    let mat = numbered(W, H);
    assert_eq!(mat.get_max(), (W * H) as u8);
}

#[test]
fn extended_for_window_filter() {
    let m = numbered(3, 2);
    let ext = m.extended_for_window_filter(3, 5, ExtendValue::Closest);
    assert_eq!(ext.w(), 3 + 2);
    assert_eq!(ext.h(), 2 + 4);
    // the matrix sits one column and two rows in
    assert_eq!(ext.get(PixelPos::new(2, 1)), m.get(PixelPos::new(0, 0)));
    assert_eq!(ext.get(PixelPos::new(3, 3)), m.get(PixelPos::new(1, 2)));
    // the border repeats the closest value
    assert_eq!(ext.get(PixelPos::new(0, 0)), m.get(PixelPos::new(0, 0)));
    assert_eq!(ext.get(PixelPos::new(5, 4)), m.get(PixelPos::new(1, 2)));

    let ext0 = m.extended_for_window_filter(3, 3, ExtendValue::Given(0));
    assert_eq!(ext0.get(PixelPos::new(0, 0)), 0);
    assert_eq!(ext0.get(PixelPos::new(1, 1)), m.get(PixelPos::new(0, 0)));
}

#[test]
fn matrix2d_extended() {
    let m = numbered(2, 2);
    // 1 2
    // 3 4
    let ext = m.extended(ExtendValue::Closest, 1, 2, 3, 1);
    assert_eq!(ext.w(), 1 + 2 + 3);
    assert_eq!(ext.h(), 2 + 2 + 1);
    let expected: [[u8; 6]; 5] = [
        [1, 1, 2, 2, 2, 2],
        [1, 1, 2, 2, 2, 2],
        [1, 1, 2, 2, 2, 2],
        [3, 3, 4, 4, 4, 4],
        [3, 3, 4, 4, 4, 4],
    ];
    for row in 0..5 {
        for col in 0..6 {
            assert_eq!(ext.get(PixelPos::new(row, col)), expected[row][col]);
        }
    }

    let given = m.extended(ExtendValue::Given(9), 1, 0, 0, 1);
    let expected: [[u8; 3]; 3] = [[9, 1, 2], [9, 3, 4], [9, 9, 9]];
    for row in 0..3 {
        for col in 0..3 {
            assert_eq!(given.get(PixelPos::new(row, col)), expected[row][col]);
        }
    }
}

#[test]
fn set_rect() {
    let mut m: Matrix2D<u8> = Matrix2D::empty_with_size(4, 3);
    m.set_rect(PixelsArea::new(PixelPos::new(1, 1), PixelPos::new(2, 2)), 7);
    for row in 0..3 {
        for col in 0..4 {
            let inside = (1..=2).contains(&row) && (1..=2).contains(&col);
            assert_eq!(m.get(PixelPos::new(row, col)), if inside { 7 } else { 0 });
        }
    }
}

#[test]
fn has_the_same_values_as() {
    let a = numbered(3, 2);
    let b = numbered(3, 2);
    assert!(a.has_the_same_values_as(&b));

    let mut c = numbered(3, 2);
    c.set(PixelPos::new(1, 2), 100);
    assert!(!a.has_the_same_values_as(&c));

    let d = numbered(2, 3);
    assert!(!a.has_the_same_values_as(&d));
}

#[test]
fn map_and_set() {
    let m = numbered(2, 2);
    let doubled: Matrix2D<u16> = m.map(|v: u8| v as u16 * 2);
    assert_eq!(doubled.get(PixelPos::new(1, 1)), 8);
    let mut m2 = m.duplicate();
    m2.set(PixelPos::new(0, 1), 50);
    assert_eq!(m2.get(PixelPos::new(0, 1)), 50);
    assert_eq!(m2.get(PixelPos::new(0, 0)), 1);
}

#[test]
fn extended_empty_matrix_with_given_value() {
    let m: Matrix2D<u8> = Matrix2D::empty_with_size(0, 0);
    let ext = m.extended(ExtendValue::Given(7), 1, 2, 1, 0);
    assert_eq!(ext.w(), 2);
    assert_eq!(ext.h(), 2);
    for row in 0..2 {
        for col in 0..2 {
            assert_eq!(ext.get(PixelPos::new(row, col)), 7);
        }
    }
}
