use image_processing::img::{ColorDepth, Img};
use image_processing::layers_iter::LayersIterator;
use image_processing::matrix2d::Matrix2D;
use image_processing::pixel_pos::PixelPos;
use image_processing::pixels_area::PixelsArea;
use image_processing::pixels_iter::{
    ImgIterator, Matrix2DIterator, PixelsAreaIter, PixelsIter, PixelsIterator, ProgressStep,
};

#[test]
fn pixels_iter_for_area_returns_all_positions() {
    let mut iter = PixelsIterator::for_rect_area(PixelPos::new(0, 0), PixelPos::new(3, 3));

    assert_eq!(iter.next().unwrap(), PixelPos::new(0, 0));
    assert_eq!(iter.next().unwrap(), PixelPos::new(0, 1));
    assert_eq!(iter.next().unwrap(), PixelPos::new(0, 2));

    assert_eq!(iter.next().unwrap(), PixelPos::new(1, 0));
    assert_eq!(iter.next().unwrap(), PixelPos::new(1, 1));
    assert_eq!(iter.next().unwrap(), PixelPos::new(1, 2));

    assert_eq!(iter.next().unwrap(), PixelPos::new(2, 0));
    assert_eq!(iter.next().unwrap(), PixelPos::new(2, 1));
    assert_eq!(iter.next().unwrap(), PixelPos::new(2, 2));

    assert_eq!(iter.next(), None);
}

#[test]
fn for_area() {
    let top_left = PixelPos::new(1, 2);
    let bottom_right = PixelPos::new(3, 5);
    let area = PixelsArea::new(top_left, bottom_right);

    let iter = PixelsIter::for_area(&area);
    assert_eq!(iter.area(), &area);
    assert_eq!(iter.cur_pos(), area.top_left());
}

#[test]
fn progress_iter() {
    let area = PixelsArea::new(PixelPos::new(1, 2), PixelPos::new(3, 4));
    let mut iter = area.get_pixels_iter().track_progress();

    let mut completed_rows = 0;
    let mut positions = Vec::new();
    loop {
        match iter.next() {
            ProgressStep::Pixel { pos, row_completed } => {
                if row_completed {
                    completed_rows += 1;
                }
                positions.push(pos);
            },
            ProgressStep::Finished => break,
        }
    }
    assert_eq!(completed_rows, 2);
    assert_eq!(positions.len(), 9);
    assert_eq!(positions[0], PixelPos::new(1, 2));
    assert_eq!(positions[3], PixelPos::new(2, 2));
    assert_eq!(positions[8], PixelPos::new(3, 4));
}

#[test]
fn progress_iter_marks_the_first_pixel_of_each_new_row() {
    let area = PixelsArea::new(PixelPos::new(1, 2), PixelPos::new(2, 3));
    let mut iter = area.get_pixels_iter().track_progress();
    assert_eq!(iter.next(), ProgressStep::Pixel { pos: PixelPos::new(1, 2), row_completed: false });
    assert_eq!(iter.next(), ProgressStep::Pixel { pos: PixelPos::new(1, 3), row_completed: false });
    assert_eq!(iter.next(), ProgressStep::Pixel { pos: PixelPos::new(2, 2), row_completed: true });
    assert_eq!(iter.next(), ProgressStep::Pixel { pos: PixelPos::new(2, 3), row_completed: false });
    assert_eq!(iter.next(), ProgressStep::Finished);
    assert_eq!(iter.next(), ProgressStep::Finished);
}

#[test]
fn pixels_iterator_fits_excludes_bottom_right() {
    let iter = PixelsIterator::for_rect_area(PixelPos::new(1, 1), PixelPos::new(3, 4));
    assert!(iter.fits(PixelPos::new(1, 1)));
    assert!(iter.fits(PixelPos::new(2, 3)));
    assert!(!iter.fits(PixelPos::new(3, 3)));
    assert!(!iter.fits(PixelPos::new(2, 4)));
    assert!(!iter.fits(PixelPos::new(0, 2)));
}

#[test]
fn matrix_walk_leaves_out_the_last_position_and_starts_over() {
    let mut iter = Matrix2DIterator::for_rect_area(PixelPos::new(0, 0), PixelPos::new(2, 2));
    assert_eq!(iter.next(), Some(PixelPos::new(0, 0)));
    assert_eq!(iter.next(), Some(PixelPos::new(0, 1)));
    assert_eq!(iter.next(), Some(PixelPos::new(1, 0)));
    assert_eq!(iter.next(), None);
    assert_eq!(iter.next(), Some(PixelPos::new(0, 0)));
    assert!(iter.fits(PixelPos::new(100, 100)));
}

#[test]
fn matrix_walk_over_a_whole_matrix() {
    let m: Matrix2D<u8> = Matrix2D::empty_with_size(3, 1);
    let mut iter = m.get_iterator();
    assert_eq!(iter.next(), Some(PixelPos::new(0, 0)));
    assert_eq!(iter.next(), Some(PixelPos::new(0, 1)));
    assert_eq!(iter.next(), None);

    let mut area_iter = m.get_area_iter(PixelPos::new(0, 1), PixelPos::new(1, 3));
    assert_eq!(area_iter.next(), Some(PixelPos::new(0, 1)));
    assert_eq!(area_iter.next(), None);
}

#[test]
fn image_walk_goes_as_the_matrix_walk() {
    let img: Img<u8> = Img::empty_with_size(2, 2, ColorDepth::L8);
    let mut iter = ImgIterator::for_full_image(&img);
    assert_eq!(iter.next(), Some(PixelPos::new(0, 0)));
    assert_eq!(iter.next(), Some(PixelPos::new(0, 1)));
    assert_eq!(iter.next(), Some(PixelPos::new(1, 0)));
    assert_eq!(iter.next(), None);
    assert!(iter.fits(PixelPos::new(7, 7)));

    let mut rect = ImgIterator::for_rect_area(&img, PixelPos::new(1, 0), PixelPos::new(2, 2));
    assert_eq!(rect.next(), Some(PixelPos::new(1, 0)));
    assert_eq!(rect.next(), None);
}

#[test]
fn layers_iterator_walks_the_layers_then_starts_over() {
    let img: Img<u8> = Img::empty_with_size(2, 2, ColorDepth::Rgba8);
    let mut iter = LayersIterator::new(&img);
    let mut count = 0;
    while let Some(layer) = iter.next() {
        assert_eq!(layer.channel(), img.layer(count).channel());
        count += 1;
    }
    assert_eq!(count, 4);
    assert!(iter.next().is_some());
}
