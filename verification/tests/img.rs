use image_processing::filter::MedianFilter;
use image_processing::filter_option::ImgChannel;
use image_processing::img_ops::{copy_with_extended_borders, extend_matrix, extend_matrix_for_window_filter};
use image_processing::img::{layers_fit_depth, ColorDepth, Img, ImgLayer};
use image_processing::matrix2d::{ExtendValue, Matrix2D};
use image_processing::pixel_pos::PixelPos;
use image_processing::pixels_area::PixelsArea;

const DEPTHS: [ColorDepth; 4] = [ColorDepth::L8, ColorDepth::La8, ColorDepth::Rgb8, ColorDepth::Rgba8];

fn numbered_pixels(w: usize, h: usize, depth: ColorDepth) -> Vec<u8> {
    (1..=w * h * depth.count()).map(|v| v as u8).collect()
}

fn assert_all_pixels_are_0(matrix: &Matrix2D<f64>) {
    assert!(matrix.pixels().iter().all(|p| p.abs() <= f64::EPSILON));
}

#[test]
fn empty_with_size_ctor() {
    let img: Img<f64> = Img::empty_with_size(3, 3, ColorDepth::L8);
    assert_eq!(img.color_depth(), ColorDepth::L8);
    assert_eq!(img.w(), 3);
    assert_eq!(img.h(), 3);
    assert_eq!(img.layers().len(), 1);
    assert_all_pixels_are_0(img.layer(0).matrix());
    assert_eq!(img.layer(0).channel(), ImgChannel::L);

    let img: Img<f64> = Img::empty_with_size(3, 3, ColorDepth::La8);
    assert_eq!(img.color_depth(), ColorDepth::La8);
    assert_eq!(img.w(), 3);
    assert_eq!(img.h(), 3);
    assert_eq!(img.layers().len(), 2);
    assert_all_pixels_are_0(img.layer(0).matrix());
    assert_eq!(img.layer(0).channel(), ImgChannel::L);
    assert_eq!(img.layer(1).channel(), ImgChannel::A);

    let img: Img<f64> = Img::empty_with_size(3, 3, ColorDepth::Rgb8);
    assert_eq!(img.color_depth(), ColorDepth::Rgb8);
    assert_eq!(img.w(), 3);
    assert_eq!(img.h(), 3);
    assert_eq!(img.layers().len(), 3);
    assert_all_pixels_are_0(img.layer(0).matrix());
    assert_all_pixels_are_0(img.layer(1).matrix());
    assert_all_pixels_are_0(img.layer(2).matrix());
    assert_eq!(img.layer(0).channel(), ImgChannel::R);
    assert_eq!(img.layer(1).channel(), ImgChannel::G);
    assert_eq!(img.layer(2).channel(), ImgChannel::B);

    let img: Img<f64> = Img::empty_with_size(3, 3, ColorDepth::Rgba8);
    assert_eq!(img.color_depth(), ColorDepth::Rgba8);
    assert_eq!(img.w(), 3);
    assert_eq!(img.h(), 3);
    assert_eq!(img.layers().len(), 4);
    assert_all_pixels_are_0(img.layer(0).matrix());
    assert_all_pixels_are_0(img.layer(1).matrix());
    assert_all_pixels_are_0(img.layer(2).matrix());
    assert_eq!(img.layer(0).channel(), ImgChannel::R);
    assert_eq!(img.layer(1).channel(), ImgChannel::G);
    assert_eq!(img.layer(2).channel(), ImgChannel::B);
    assert_eq!(img.layer(3).channel(), ImgChannel::A);
}

#[test]
fn from_pixels_ctor() {
    const W: usize = 4;
    const H: usize = 5;

    for depth in DEPTHS.iter() {
        let pixels = numbered_pixels(W, H, *depth);

        let img = Img::from_pixels(W, H, *depth, pixels.clone());

        assert_eq!(img.w(), W);
        assert_eq!(img.h(), H);
        assert_eq!(img.color_depth(), *depth);
        assert_eq!(img.layers().len(), depth.count());

        for (ind, p) in pixels.iter().enumerate() {
            let d = depth.count();
            let layer_ind: usize = ind % d;
            let row: usize = ind / d / W;
            let col = ind / d % W;
            let p_img: u8 = img.layer(layer_ind).matrix().get(PixelPos::new(row, col));

            assert_eq!(p_img, *p);
        }
        assert_eq!(img.layers().len(), depth.count());
    }
}

#[test]
fn w_h_d_color_depth() {
    const W: usize = 4;
    const H: usize = 5;

    for depth in DEPTHS.iter() {
        let pixels = numbered_pixels(W, H, *depth);

        let img = Img::from_pixels(W, H, *depth, pixels.clone());

        assert_eq!(img.w(), W);
        assert_eq!(img.h(), H);
        assert_eq!(img.color_depth(), *depth);
        assert_eq!(img.d(), depth.count());
    }
}

#[test]
fn layer_by_channel() {
    const W: usize = 4;
    const H: usize = 5;

    for depth in DEPTHS.iter() {
        let pixels = numbered_pixels(W, H, *depth);

        let img = Img::from_pixels(W, H, *depth, pixels.clone());

        match *depth {
            ColorDepth::L8 => {
                let l = img.layer_by_channel(ImgChannel::L).unwrap();
                assert_eq!(l.channel(), ImgChannel::L);
            },
            ColorDepth::La8 => {
                let l = img.layer_by_channel(ImgChannel::L).unwrap();
                assert_eq!(l.channel(), ImgChannel::L);
                let l = img.layer_by_channel(ImgChannel::A).unwrap();
                assert_eq!(l.channel(), ImgChannel::A);
            },
            ColorDepth::Rgb8 => {
                let l = img.layer_by_channel(ImgChannel::R).unwrap();
                assert_eq!(l.channel(), ImgChannel::R);
                let l = img.layer_by_channel(ImgChannel::G).unwrap();
                assert_eq!(l.channel(), ImgChannel::G);
                let l = img.layer_by_channel(ImgChannel::B).unwrap();
                assert_eq!(l.channel(), ImgChannel::B);
            },
            ColorDepth::Rgba8 => {
                let l = img.layer_by_channel(ImgChannel::R).unwrap();
                assert_eq!(l.channel(), ImgChannel::R);
                let l = img.layer_by_channel(ImgChannel::G).unwrap();
                assert_eq!(l.channel(), ImgChannel::G);
                let l = img.layer_by_channel(ImgChannel::B).unwrap();
                assert_eq!(l.channel(), ImgChannel::B);
                let l = img.layer_by_channel(ImgChannel::A).unwrap();
                assert_eq!(l.channel(), ImgChannel::A);
            },
        }
    }
}

#[test]
fn layer_by_channel_finds_nothing_for_a_missing_channel() {
    let img: Img<u8> = Img::empty_with_size(2, 2, ColorDepth::Rgb8);
    assert!(img.layer_by_channel(ImgChannel::A).is_none());
    assert!(img.layer_by_channel(ImgChannel::L).is_none());
}

#[test]
fn get_cropped_copy() {
    const W: usize = 9;
    const H: usize = 10;

    for depth in DEPTHS.iter() {
        let pixels = numbered_pixels(W, H, *depth);

        let img = Img::from_pixels(W, H, *depth, pixels.clone());

        let crop_tl = PixelPos::new(3, 4);

        let crop_area = PixelsArea::new(crop_tl, PixelPos::new(7, 8));

        let cropped = img.get_cropped_copy(crop_area);
        assert_eq!(cropped.w(), 5);
        assert_eq!(cropped.h(), 5);

        let mut iter = crop_area.get_pixels_iter();
        while let Some(pos) = iter.next() {
            for d in 0..depth.count() {
                let pix1 = img.layer(d).matrix().get(pos);
                let pix2 = cropped.layer(d).matrix().get(pos - crop_tl);
                assert_eq!(pix1, pix2);
            }
        }
    }
}

#[test]
fn get_area() {
    const W: usize = 4;
    const H: usize = 5;

    for depth in DEPTHS.iter() {
        let pixels = numbered_pixels(W, H, *depth);

        let img = Img::from_pixels(W, H, *depth, pixels.clone());

        let area: PixelsArea = img.get_area();

        assert_eq!(area.top_left(), PixelPos::new(0, 0));
        assert_eq!(area.bottom_right(), PixelPos::new(H - 1, W - 1));
        assert_eq!(area.w(), W);
        assert_eq!(area.h(), H);
    }
}

#[test]
fn get_drawable_copy() {
    const W: usize = 4;
    const H: usize = 5;

    for depth in DEPTHS.iter() {
        let pixels = numbered_pixels(W, H, *depth);

        let img = Img::from_pixels(W, H, *depth, pixels.clone());

        let drawable: Vec<u8> = img.interleaved_pixels();
        assert_eq!(drawable, pixels);

        let img_from_drawable = Img::from_pixels(W, H, *depth, drawable);

        assert_eq!(img.get_area(), img_from_drawable.get_area());

        let area = img.get_area();
        let mut iter = area.get_pixels_iter();
        while let Some(pos) = iter.next() {
            for d in 0..depth.count() {
                let pix1 = img.layer(d).matrix().get(pos);
                let pix2 = img_from_drawable.layer(d).matrix().get(pos);
                assert_eq!(pix1, pix2);
            }
        }
    }
}

#[test]
fn img_extended() {
    const W: usize = 4;
    const H: usize = 5;

    let (left, top, right, bottom) = (1, 2, 3, 4);
    for depth in DEPTHS.iter() {
        let pixels: Vec<f64> = (1..=W * H * depth.count()).map(|v| v as f64).collect();

        let img = Img::from_pixels(W, H, *depth, pixels.clone());

        let ext = img.extended(ExtendValue::Closest, left, top, right, bottom, 255.0);
        assert_eq!(ext.w(), left + W + right);
        assert_eq!(ext.h(), top + H + bottom);

        match *depth {
            ColorDepth::L8 => {
                assert_eq!(ext.layers().len(), 1);
                ext.layer_by_channel(ImgChannel::L).expect(&format!("Couldn't find L channel"));
            },
            ColorDepth::La8 => {
                assert_eq!(ext.layers().len(), 2);
                ext.layer_by_channel(ImgChannel::L).expect(&format!("Couldn't find L channel"));
                let layer_a = ext.layer_by_channel(ImgChannel::A).expect(&format!("Couldn't find A channel"));
                assert!(layer_a.matrix().pixels().iter().all(|p| (p - 255.0).abs() <= f64::EPSILON));
            },
            ColorDepth::Rgb8 => {
                assert_eq!(ext.layers().len(), 3);
                ext.layer_by_channel(ImgChannel::R).expect(&format!("Couldn't find R channel"));
                ext.layer_by_channel(ImgChannel::G).expect(&format!("Couldn't find G channel"));
                ext.layer_by_channel(ImgChannel::B).expect(&format!("Couldn't find B channel"));
            },
            ColorDepth::Rgba8 => {
                assert_eq!(ext.layers().len(), 4);
                ext.layer_by_channel(ImgChannel::R).expect(&format!("Couldn't find R channel"));
                ext.layer_by_channel(ImgChannel::G).expect(&format!("Couldn't find G channel"));
                ext.layer_by_channel(ImgChannel::B).expect(&format!("Couldn't find B channel"));
                let layer_a = ext.layer_by_channel(ImgChannel::A).expect(&format!("Couldn't find A channel"));
                assert!(layer_a.matrix().pixels().iter().all(|p| (p - 255.0).abs() <= f64::EPSILON));
            },
        }
    }
}

#[test]
fn cropping_the_extended_image_gives_it_back() {
    let pixels = numbered_pixels(3, 2, ColorDepth::Rgb8);
    let img = Img::from_pixels(3, 2, ColorDepth::Rgb8, pixels);
    let ext = img.extended(ExtendValue::Given(0), 2, 1, 1, 3, 255);
    let back = ext.get_cropped_copy(PixelsArea::new(PixelPos::new(1, 2), PixelPos::new(2, 4)));
    assert_eq!(back.interleaved_pixels(), img.interleaved_pixels());
}

#[test]
fn new_ctor() {
    const W: usize = 3;
    const H: usize = 4;

    let mat: Matrix2D<u8> = Matrix2D::empty_with_size(W, H);
    let mat_copy = mat.duplicate();
    let mut layer = ImgLayer::new(mat, ImgChannel::A);

    assert_eq!(layer.channel(), ImgChannel::A);
    assert_eq!(layer.w(), W);
    assert_eq!(layer.h(), H);
    assert!(mat_copy.has_the_same_values_as(layer.matrix()));
    assert!(mat_copy.has_the_same_values_as(layer.matrix_mut()));

    let area: PixelsArea = layer.get_area();
    assert_eq!(area.top_left(), PixelPos::new(0, 0));
    assert_eq!(area.bottom_right(), PixelPos::new(H - 1, W - 1));
}

#[test]
fn matrix_mut_changes_the_layer() {
    let mut layer = ImgLayer::new(Matrix2D::<u8>::empty_with_size(2, 2), ImgChannel::L);
    layer.matrix_mut().set(PixelPos::new(1, 0), 42);
    assert_eq!(layer.matrix().get(PixelPos::new(1, 0)), 42);
    assert_eq!(layer.channel(), ImgChannel::L);
}

#[test]
fn layers_of_a_wrong_set_do_not_fit() {
    let layers = vec![
        ImgLayer::new(Matrix2D::<u8>::empty_with_size(2, 2), ImgChannel::L),
        ImgLayer::new(Matrix2D::<u8>::empty_with_size(2, 2), ImgChannel::A),
    ];
    assert!(layers_fit_depth(&layers, ColorDepth::La8));
    assert!(!layers_fit_depth(&layers, ColorDepth::L8));
    assert!(!layers_fit_depth(&layers, ColorDepth::Rgba8));
    let img = Img::from_layers(layers, ColorDepth::La8);
    assert_eq!(img.d(), 2);

    let uneven = vec![
        ImgLayer::new(Matrix2D::<u8>::empty_with_size(2, 2), ImgChannel::L),
        ImgLayer::new(Matrix2D::<u8>::empty_with_size(3, 2), ImgChannel::A),
    ];
    assert!(!layers_fit_depth(&uneven, ColorDepth::La8));
}

#[test]
fn empty_size_of_and_with_layers() {
    let img = Img::from_pixels(2, 1, ColorDepth::L8, vec![5u8, 6u8]);
    let empty: Img<u8> = Img::empty_size_of(&img);
    assert_eq!(empty.w(), 2);
    assert_eq!(empty.h(), 1);
    assert_eq!(empty.interleaved_pixels(), vec![0u8, 0u8]);
    let swapped = empty.with_layers(vec![ImgLayer::new(Matrix2D::generate(2, 1, |p: PixelPos| p.col as u8 + 10), ImgChannel::L)]);
    assert_eq!(swapped.interleaved_pixels(), vec![10u8, 11u8]);
}

#[test]
fn extending_helpers_follow_the_methods() {
    let m: Matrix2D<u8> = Matrix2D::generate(2, 2, |p: PixelPos| (p.row * 2 + p.col) as u8);
    let a = extend_matrix(&m, ExtendValue::Given(9), 1, 1, 1, 1);
    let b = m.extended(ExtendValue::Given(9), 1, 1, 1, 1);
    assert!(a.has_the_same_values_as(&b));
    let c = extend_matrix_for_window_filter(&m, &MedianFilter::default());
    assert_eq!(c.w(), 4);
    assert_eq!(c.get(PixelPos::new(0, 0)), 0);
    let img = Img::from_pixels(2, 1, ColorDepth::La8, vec![1u8, 2u8, 3u8, 4u8]);
    let ext = copy_with_extended_borders(&img, ExtendValue::Closest, 1, 0, 0, 0, 255u8);
    assert_eq!(ext.interleaved_pixels(), vec![1u8, 255u8, 1u8, 255u8, 3u8, 255u8]);
}
