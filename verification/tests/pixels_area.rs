use image_processing::pixel_pos::PixelPos;
use image_processing::pixels_area::{Margin, PixelsArea};

#[test]
fn can_create_area_with_zero_dimensions() {
    PixelsArea::new(PixelPos::new(3, 4), PixelPos::new(3, 5));

    PixelsArea::new(PixelPos::new(3, 4), PixelPos::new(4, 4));

    PixelsArea::new(PixelPos::new(3, 4), PixelPos::new(3, 4));
}

#[test]
fn with_size() {
    let area = PixelsArea::with_size(4, 3);

    assert_eq!(area.top_left(), PixelPos::new(0, 0));
    assert_eq!(area.bottom_right(), PixelPos::new(3, 2));
}

#[test]
fn with_pos() {
    let area = PixelsArea::with_size(4, 3);
    assert_eq!(area.top_left(), PixelPos::new(0, 0));
    assert_eq!(area.bottom_right(), PixelPos::new(3, 2));

    let area2 = area.with_pos(1, 2);
    assert_eq!(area2.top_left(), PixelPos::new(1, 2));
    assert_eq!(area2.bottom_right(), PixelPos::new(4, 4));
}

#[test]
fn apply_margin() {
    let area = PixelsArea::with_size(12, 11);
    {
        let area2 = area.apply_margin(Margin::All(2));
        assert_eq!(area2.top_left(), PixelPos::new(2, 2));
        assert_eq!(area2.bottom_right(), PixelPos::new(12 - 1 - 2, 11 - 1 - 2));
    }
    {
        let m = Margin::Sides { left: 1, top: 2, right: 3, bottom: 4 };
        let area2 = area.apply_margin(m);
        assert_eq!(area2.top_left(), PixelPos::new(2, 1));
        assert_eq!(area2.bottom_right(), PixelPos::new(12 - 1 - 4, 11 - 1 - 3));
    }
    {
        let top_left = PixelPos::new(2, 1);
        let bottom_right = PixelPos::new(4, 3);
        let m = Margin::TwoPoints { top_left, bottom_right };
        let area2 = area.apply_margin(m);
        assert_eq!(area2.top_left(), PixelPos::new(2, 1));
        assert_eq!(area2.bottom_right(), PixelPos::new(12 - 1 - 4, 11 - 1 - 3));
    }
}

#[test]
fn contains() {
    let area = PixelsArea::new(PixelPos::new(1, 2), PixelPos::new(3, 4));

    assert!(!area.contains(PixelPos::new(0, 1)));
    assert!(!area.contains(PixelPos::new(0, 2)));
    assert!(!area.contains(PixelPos::new(0, 3)));
    assert!(!area.contains(PixelPos::new(0, 4)));
    assert!(!area.contains(PixelPos::new(0, 5)));

    assert!(!area.contains(PixelPos::new(1, 1)));
    assert!(area.contains(PixelPos::new(1, 2)));
    assert!(area.contains(PixelPos::new(1, 3)));
    assert!(area.contains(PixelPos::new(1, 4)));
    assert!(!area.contains(PixelPos::new(1, 5)));

    assert!(!area.contains(PixelPos::new(2, 1)));
    assert!(area.contains(PixelPos::new(2, 2)));
    assert!(area.contains(PixelPos::new(2, 3)));
    assert!(area.contains(PixelPos::new(2, 4)));
    assert!(!area.contains(PixelPos::new(2, 5)));

    assert!(!area.contains(PixelPos::new(3, 1)));
    assert!(area.contains(PixelPos::new(3, 2)));
    assert!(area.contains(PixelPos::new(3, 3)));
    assert!(area.contains(PixelPos::new(3, 4)));
    assert!(!area.contains(PixelPos::new(3, 5)));

    assert!(!area.contains(PixelPos::new(4, 1)));
    assert!(!area.contains(PixelPos::new(4, 2)));
    assert!(!area.contains(PixelPos::new(4, 3)));
    assert!(!area.contains(PixelPos::new(4, 4)));
    assert!(!area.contains(PixelPos::new(4, 5)));
}

#[test]
fn top_left_bottom_right() {
    let area = PixelsArea::new(PixelPos::new(1, 2), PixelPos::new(3, 4));

    assert_eq!(area.top_left(), PixelPos::new(1, 2));
    assert_eq!(area.bottom_right(), PixelPos::new(3, 4));
}

#[test]
fn w_h() {
    let area = PixelsArea::new(PixelPos::new(1, 2), PixelPos::new(3, 5));

    assert_eq!(area.w(), 4);
    assert_eq!(area.h(), 3);
}

#[test]
fn get_rows_range_get_cols_range() {
    let area = PixelsArea::new(PixelPos::new(1, 2), PixelPos::new(3, 4));

    let mut rows_range = area.get_rows_range();
    assert_eq!(rows_range.next(), Some(1));
    assert_eq!(rows_range.next(), Some(2));
    assert_eq!(rows_range.next(), Some(3));
    assert_eq!(rows_range.next(), None);

    let mut cols_range = area.get_cols_range();
    assert_eq!(cols_range.next(), Some(2));
    assert_eq!(cols_range.next(), Some(3));
    assert_eq!(cols_range.next(), Some(4));
    assert_eq!(cols_range.next(), None);
}

#[test]
fn get_pixels_iter() {
    let area = PixelsArea::new(PixelPos::new(1, 2), PixelPos::new(3, 4));

    let mut iter = area.get_pixels_iter();

    assert_eq!(iter.next(), Some(PixelPos::new(1, 2)));
    assert_eq!(iter.next(), Some(PixelPos::new(1, 3)));
    assert_eq!(iter.next(), Some(PixelPos::new(1, 4)));

    assert_eq!(iter.next(), Some(PixelPos::new(2, 2)));
    assert_eq!(iter.next(), Some(PixelPos::new(2, 3)));
    assert_eq!(iter.next(), Some(PixelPos::new(2, 4)));

    assert_eq!(iter.next(), Some(PixelPos::new(3, 2)));
    assert_eq!(iter.next(), Some(PixelPos::new(3, 3)));
    assert_eq!(iter.next(), Some(PixelPos::new(3, 4)));

    assert_eq!(iter.next(), None);
}

#[test]
fn from_zero_to_and_is_inside_of() {
    let outer = PixelsArea::from_zero_to(5, 6);
    assert_eq!(outer.top_left(), PixelPos::new(0, 0));
    assert_eq!(outer.bottom_right(), PixelPos::new(5, 6));
    let inner = PixelsArea::new(PixelPos::new(1, 1), PixelPos::new(5, 6));
    assert!(inner.is_inside_of(&outer));
    assert!(!outer.is_inside_of(&inner));
}

#[test]
fn margin_of_zero_keeps_the_area() {
    let area = PixelsArea::new(PixelPos::new(2, 3), PixelPos::new(8, 9));
    assert_eq!(area.apply_margin(Margin::All(0)), area);
}
