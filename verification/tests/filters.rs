use image_processing::edge_detection::{CannyEdgeDetection, GradientSector};
use image_processing::filter::{
    extract_channel, neutralize_channel, CutBrightness, EqualizeHist, ExtractChannel, FilterIterator,
    MedianFilter, NeutralizeChannel, Rgb2Gray,
};
use image_processing::filter_kind::{try_parce_filter, FilterKind, ParsedFilter};
use image_processing::filter_option::{
    CutBrightnessRange, FilterWindowSize, ImgChannel, ParseError, ValueRepaceWith, WindowSizeError,
};
use image_processing::img::{ColorDepth, Img, ImgLayer};
use image_processing::linear::{FilterIterable, LinearMean};
use image_processing::matrix2d::{ExtendValue, Matrix2D};
use image_processing::message::AddStep;
use image_processing::pixel_pos::PixelPos;
use image_processing::settings::{kernel_shape, parse_window_settings, KernelShapeError};

fn text(bytes: Vec<u8>) -> String {
    String::from_utf8(bytes).unwrap()
}

#[test]
fn window_settings_are_read() {
    assert_eq!(
        parse_window_settings("5 x 5\nExt: near"),
        Ok((FilterWindowSize::new(5, 5), ExtendValue::Closest))
    );
    assert_eq!(
        parse_window_settings("3 x 3\nExt: 0"),
        Ok((FilterWindowSize::new(3, 3), ExtendValue::Given(0)))
    );
}

#[test]
fn window_settings_errors() {
    assert_eq!(parse_window_settings("5 x 5"), Err(ParseError::LineCount));
    assert_eq!(parse_window_settings("5 x 5\nExt: near\n"), Err(ParseError::LineCount));
    assert_eq!(parse_window_settings("5 by 5\nExt: near"), Err(ParseError::WindowSizeFormat));
    assert_eq!(
        parse_window_settings("1 x 1\nExt: near"),
        Err(ParseError::WindowSize(WindowSizeError::TooSmall))
    );
    assert_eq!(
        parse_window_settings("3 x 5\nExt: near"),
        Err(ParseError::WindowSize(WindowSizeError::NotSquare))
    );
    assert_eq!(
        parse_window_settings("4 x 4\nExt: near"),
        Err(ParseError::WindowSize(WindowSizeError::NotOdd))
    );
    assert_eq!(parse_window_settings("3 x 3\nExt: far"), Err(ParseError::ExtendValueFormat));
    assert_eq!(parse_window_settings("3 x 3\nExt: 7"), Err(ParseError::ExtendValueFormat));
}

#[test]
fn median_settings_round_trip() {
    let mut f = MedianFilter::default();
    assert_eq!(f.try_set_from_string("7 x 7\nExt: 0"), Ok(()));
    assert_eq!(f.w(), 7);
    assert_eq!(f.h(), 7);
    assert_eq!(f.get_extend_value(), ExtendValue::Given(0));
    let saved = text(f.params_to_bytes().unwrap());
    assert_eq!(saved, "7 x 7\nExt: 0");

    let mut g = MedianFilter::default();
    assert_eq!(g.try_set_from_string(&saved), Ok(()));
    assert_eq!(g.w(), 7);
    assert_eq!(g.get_extend_value(), ExtendValue::Given(0));
}

#[test]
fn median_keeps_its_settings_on_an_error() {
    let mut f = MedianFilter::default();
    assert_eq!(f.try_set_from_string("6 x 6\nExt: near"), Err(ParseError::WindowSize(WindowSizeError::NotOdd)));
    assert_eq!(f.w(), 3);
    assert_eq!(f.h(), 3);
    assert_eq!(f.get_extend_value(), ExtendValue::Closest);
}

#[test]
fn median_of_a_window_is_the_lower_middle_value() {
    let f = MedianFilter::default();
    // half of nine values rounds down to four: the fourth smallest value is taken
    assert_eq!(f.process_window(&[9, 1, 5, 3, 7, 2, 8, 6, 4]), 4);
    // the smallest value with at least half of the window at or below it
    assert_eq!(f.process_window(&[1, 2, 3, 4]), 2);
    assert_eq!(f.process_window(&[10, 10, 10]), 10);
}

#[test]
fn median_filter_removes_a_lone_spike() {
    let mut m: Matrix2D<u8> = Matrix2D::generate(3, 3, |_p: PixelPos| 10u8);
    m.set(PixelPos::new(1, 1), 200);
    let layer = ImgLayer::new(m, ImgChannel::L);
    let res = MedianFilter::default().process_layer(&layer);
    for row in 0..3 {
        for col in 0..3 {
            assert_eq!(res.matrix().get(PixelPos::new(row, col)), 10);
        }
    }
    assert_eq!(res.channel(), ImgChannel::L);
}

#[test]
fn median_filter_leaves_alpha_alone() {
    let mut m: Matrix2D<u8> = Matrix2D::generate(3, 3, |_p: PixelPos| 10u8);
    m.set(PixelPos::new(1, 1), 200);
    let layer = ImgLayer::new(m, ImgChannel::A);
    let res = MedianFilter::default().process_layer(&layer);
    assert_eq!(res.matrix().get(PixelPos::new(1, 1)), 200);
}

#[test]
fn window_walk() {
    let mut it = FilterIterator::for_window(2, 2);
    assert!(it.fits(PixelPos::new(1, 1)));
    assert!(!it.fits(PixelPos::new(2, 0)));
    assert_eq!(it.next(), Some(PixelPos::new(0, 0)));
    assert_eq!(it.next(), Some(PixelPos::new(0, 1)));
    assert_eq!(it.next(), Some(PixelPos::new(1, 0)));
    assert_eq!(it.next(), Some(PixelPos::new(1, 1)));
    assert_eq!(it.next(), None);
    let f = MedianFilter::default();
    let mut w = f.get_iterator();
    let mut n = 0;
    while w.next().is_some() {
        n += 1;
    }
    assert_eq!(n, 9);
}

#[test]
fn cut_brightness_settings() {
    let mut f = CutBrightness::default();
    assert_eq!(f.cut_range(), CutBrightnessRange::new(100, 200));
    assert_eq!(f.replace_with(), ValueRepaceWith::new(0));
    assert_eq!(f.try_set_from_string("10 - 20\n255"), Ok(()));
    assert_eq!(f.cut_range(), CutBrightnessRange::new(10, 20));
    assert_eq!(f.replace_with(), ValueRepaceWith::new(255));
    let saved = text(f.params_to_bytes().unwrap());
    assert_eq!(saved, "10 - 20\n255");

    assert_eq!(f.try_set_from_string("10 - 300\n1"), Err(ParseError::BrightnessRangeFormat));
    assert_eq!(f.try_set_from_string("10 - 30\nx"), Err(ParseError::ReplaceValueFormat));
    assert_eq!(f.try_set_from_string("10 - 30"), Err(ParseError::LineCount));
    assert_eq!(f.cut_range(), CutBrightnessRange::new(10, 20));
}

#[test]
fn cut_brightness_values() {
    let f = CutBrightness::new(CutBrightnessRange::new(100, 200), ValueRepaceWith::new(7));
    let m: Matrix2D<u8> = Matrix2D::generate(3, 1, |p: PixelPos| [50u8, 150u8, 250u8][p.col]);
    let res = f.process_layer(&ImgLayer::new(m, ImgChannel::L));
    assert_eq!(res.matrix().get(PixelPos::new(0, 0)), 0);
    assert_eq!(res.matrix().get(PixelPos::new(0, 1)), 150);
    assert_eq!(res.matrix().get(PixelPos::new(0, 2)), 0);

    // a range with its minimum above its maximum puts every value outside on both sides
    let inverted = CutBrightness::new(CutBrightnessRange::new(200, 100), ValueRepaceWith::new(7));
    let m: Matrix2D<u8> = Matrix2D::generate(1, 1, |_p: PixelPos| 150u8);
    let res = inverted.process_layer(&ImgLayer::new(m, ImgChannel::L));
    assert_eq!(res.matrix().get(PixelPos::new(0, 0)), 7);
}

#[test]
fn channel_filters() {
    let pixels: Vec<u8> = (1..=2 * 2 * 4).map(|v| v as u8).collect();
    let img = Img::from_pixels(2, 2, ColorDepth::Rgba8, pixels);

    let extracted = ExtractChannel::new(ImgChannel::G).process(&img);
    assert_eq!(extracted.layer(0).matrix().get(PixelPos::new(0, 0)), 0);
    assert_eq!(extracted.layer(1).matrix().get(PixelPos::new(0, 0)), 2);
    assert_eq!(extracted.layer(2).matrix().get(PixelPos::new(0, 0)), 0);
    assert_eq!(extracted.layer(3).matrix().get(PixelPos::new(0, 0)), 4);
    assert_eq!(extract_channel(&img, ImgChannel::G).interleaved_pixels(), extracted.interleaved_pixels());

    let neutralized = NeutralizeChannel::new(ImgChannel::B).process(&img);
    assert_eq!(neutralized.layer(2).matrix().get(PixelPos::new(1, 1)), 0);
    assert_eq!(neutralized.layer(0).matrix().get(PixelPos::new(1, 1)), 13);
    assert_eq!(neutralize_channel(&img, ImgChannel::B).interleaved_pixels(), neutralized.interleaved_pixels());
}

#[test]
fn channel_settings() {
    let mut f = ExtractChannel::default();
    assert_eq!(f.channel(), ImgChannel::R);
    assert_eq!(f.try_set_from_string("Channel: G"), Ok(()));
    assert_eq!(f.channel(), ImgChannel::G);
    assert_eq!(text(f.params_to_bytes().unwrap()), "Channel: G");
    assert_eq!(f.try_set_from_string("Channel: X"), Err(ParseError::ChannelFormat));
    assert_eq!(f.try_set_from_string("Channel: G\nChannel: B"), Err(ParseError::ChannelFormat));
    assert_eq!(f.channel(), ImgChannel::G);

    let mut n = NeutralizeChannel::default();
    assert_eq!(n.try_set_from_string("Channel: A"), Ok(()));
    assert_eq!(n.channel(), ImgChannel::A);
    // red is written with the letter of blue
    let red = NeutralizeChannel::new(ImgChannel::R);
    assert_eq!(text(red.params_to_bytes().unwrap()), "Channel: B");
}

#[test]
fn filters_without_settings() {
    let mut g = Rgb2Gray::default();
    assert_eq!(g.try_set_from_string(" \n\t"), Ok(()));
    assert_eq!(g.try_set_from_string("x"), Err(ParseError::NoSettings));
    assert!(g.params_to_bytes().is_none());
    let mut e = EqualizeHist::default();
    assert_eq!(e.try_set_from_string(""), Ok(()));
    assert_eq!(e.try_set_from_string("3 x 3"), Err(ParseError::NoSettings));
    let mut c = CannyEdgeDetection::default();
    assert_eq!(c.try_set_from_string("\u{3000}"), Ok(()));
    assert_eq!(c.try_set_from_string("a"), Err(ParseError::NoSettings));
}

#[test]
fn steps_counts() {
    let img: Img<u8> = Img::empty_with_size(4, 5, ColorDepth::Rgba8);
    assert_eq!(MedianFilter::default().get_steps_num(&img), 3 * 5);
    assert_eq!(CutBrightness::default().get_steps_num(&img), 3 * 20);
    assert_eq!(ExtractChannel::default().get_steps_num(&img), 4);
    assert_eq!(NeutralizeChannel::default().get_steps_num(&img), 1);
    assert_eq!(Rgb2Gray::default().get_steps_num(&img), 20);
    assert_eq!(EqualizeHist::default().get_steps_num(&img), 3 * (512 + 20));
    assert_eq!(LinearMean::default().get_steps_num(&img), 3 * (5 + 6 + 5));
    assert_eq!(CannyEdgeDetection::default().get_steps_num(&img), 20 + 50);

    let gray: Img<u8> = Img::empty_with_size(4, 5, ColorDepth::La8);
    assert_eq!(Rgb2Gray::default().get_steps_num(&gray), 1);
    assert_eq!(CannyEdgeDetection::default().get_steps_num(&gray), 50);
    assert_eq!(MedianFilter::default().get_steps_num(&gray), 5);
}

#[test]
fn equalize_counts_values_at_or_below() {
    let m: Matrix2D<u8> = Matrix2D::generate(4, 1, |p: PixelPos| [0u8, 3u8, 3u8, 255u8][p.col]);
    let c = EqualizeHist::cumulated_histogram(&m);
    assert_eq!(c.len(), 256);
    assert_eq!(c[0], 1);
    assert_eq!(c[2], 1);
    assert_eq!(c[3], 3);
    assert_eq!(c[254], 3);
    assert_eq!(c[255], 4);
}

#[test]
fn canny_configuration() {
    let c = CannyEdgeDetection::new();
    assert_eq!(c.blur_window(), FilterWindowSize::new(5, 5));
    assert_eq!(c.blur_extend_value(), ExtendValue::Closest);
    let (dx, dy) = c.derivative_kernels();
    assert_eq!(dx, [-1, 0, 1, -2, 0, 2, -1, 0, 1]);
    assert_eq!(dy, [1, 2, 1, 0, 0, 0, -1, -2, -1]);
    assert_eq!(c.get_save_name(), "CannyEdgeDetection");
    assert!(c.params_to_bytes().is_none());
}

#[test]
fn suppression_neighbours() {
    let p = PixelPos::new(5, 5);
    assert_eq!(
        CannyEdgeDetection::suppression_neighbours(p, GradientSector::TopLeft),
        (PixelPos::new(4, 4), PixelPos::new(6, 6))
    );
    assert_eq!(
        CannyEdgeDetection::suppression_neighbours(p, GradientSector::Top),
        (PixelPos::new(4, 5), PixelPos::new(6, 5))
    );
    assert_eq!(
        CannyEdgeDetection::suppression_neighbours(p, GradientSector::TopRight),
        (PixelPos::new(4, 6), PixelPos::new(6, 4))
    );
    assert_eq!(
        CannyEdgeDetection::suppression_neighbours(p, GradientSector::Right),
        (PixelPos::new(5, 4), PixelPos::new(5, 6))
    );
    assert_eq!(
        CannyEdgeDetection::suppression_neighbours(p, GradientSector::DownRight),
        (PixelPos::new(6, 6), PixelPos::new(4, 4))
    );
    assert_eq!(
        CannyEdgeDetection::suppression_neighbours(p, GradientSector::Down),
        (PixelPos::new(6, 5), PixelPos::new(4, 5))
    );
    assert_eq!(
        CannyEdgeDetection::suppression_neighbours(p, GradientSector::DownLeft),
        (PixelPos::new(6, 4), PixelPos::new(4, 6))
    );
    assert_eq!(
        CannyEdgeDetection::suppression_neighbours(p, GradientSector::Left),
        (PixelPos::new(5, 4), PixelPos::new(5, 6))
    );
}

#[test]
fn linear_mean_settings() {
    let mut f = LinearMean::default();
    assert_eq!(f.w(), 3);
    assert_eq!(f.get_save_name(), "LinearMean");
    assert_eq!(f.try_set_from_string("9 x 9\nExt: near"), Ok(()));
    assert_eq!(f.w(), 9);
    assert_eq!(f.h(), 9);
    assert_eq!(text(f.params_to_bytes().unwrap()), "9 x 9\nExt: near");
    let it = f.get_iter();
    assert!(it.fits(PixelPos::new(8, 8)));
}

#[test]
fn filters_are_read_back_by_name() {
    match try_parce_filter("MedianFilter", "5 x 5\nExt: 0") {
        Ok(ParsedFilter::MedianFilter(f)) => {
            assert_eq!(f.w(), 5);
            assert_eq!(f.get_extend_value(), ExtendValue::Given(0));
        },
        _ => panic!("median filter expected"),
    }
    match try_parce_filter("LinearGaussian", "3 x 3\nExt: near") {
        Ok(ParsedFilter::LinearGaussian(size, ext)) => {
            assert_eq!(size, FilterWindowSize::new(3, 3));
            assert_eq!(ext, ExtendValue::Closest);
        },
        _ => panic!("gaussian filter expected"),
    }
    match try_parce_filter("CutBrightness", "1 - 2\n3") {
        Ok(ParsedFilter::CutBrightness(f)) => assert_eq!(f.cut_range(), CutBrightnessRange::new(1, 2)),
        _ => panic!("brightness cut expected"),
    }
    assert!(matches!(try_parce_filter("Rgb2Gray", ""), Ok(ParsedFilter::Rgb2Gray(_))));
    assert!(matches!(try_parce_filter("LinearCustom", "anything"), Ok(ParsedFilter::LinearCustom)));
    assert!(matches!(try_parce_filter("Blur", ""), Err(ParseError::UnknownFilter)));
    assert!(matches!(try_parce_filter("EqualizeHist", "x"), Err(ParseError::NoSettings)));
    assert!(matches!(try_parce_filter("ExtractChannel", "Channel: B"), Ok(ParsedFilter::ExtractChannel(_))));
}

#[test]
fn save_names_lead_back_to_their_kind() {
    let kinds = [
        FilterKind::LinearCustom,
        FilterKind::LinearMean,
        FilterKind::LinearGaussian,
        FilterKind::MedianFilter,
        FilterKind::HistogramLocalContrast,
        FilterKind::CutBrightness,
        FilterKind::EqualizeHist,
        FilterKind::Rgb2Gray,
        FilterKind::NeutralizeChannel,
        FilterKind::ExtractChannel,
        FilterKind::CannyEdgeDetection,
    ];
    for k in kinds.iter() {
        assert_eq!(FilterKind::from_save_name(k.save_name()), Some(*k));
    }
    assert_eq!(FilterKind::from_save_name("Median"), None);
    assert_eq!(FilterKind::for_step(AddStep::HistogramEqualizer), FilterKind::EqualizeHist);
    assert_eq!(FilterKind::for_step(AddStep::LinGauss), FilterKind::LinearGaussian);
    assert_eq!(MedianFilter::default().get_save_name(), FilterKind::MedianFilter.save_name());
}

#[test]
fn median_filter_over_an_image_keeps_alpha() {
    let pixels: Vec<u8> = vec![10, 255, 10, 255, 10, 255, 10, 255, 200, 0, 10, 255, 10, 255, 10, 255, 10, 255];
    let img = Img::from_pixels(3, 3, ColorDepth::La8, pixels);
    let res = MedianFilter::default().process(&img);
    assert_eq!(res.layer(0).matrix().get(PixelPos::new(1, 1)), 10);
    assert_eq!(res.layer(1).matrix().get(PixelPos::new(1, 1)), 0);
    assert_eq!(res.color_depth(), ColorDepth::La8);
}

fn saved_text(params: Option<Vec<u8>>) -> String {
    String::from_utf8(params.unwrap_or_default()).unwrap()
}

#[test]
fn every_saved_filter_reads_back_with_its_settings() {
    let mut mean = LinearMean::default();
    mean.try_set_from_string("5 x 5\nExt: 0").unwrap();
    match try_parce_filter(mean.get_save_name(), &saved_text(mean.params_to_bytes())) {
        Ok(ParsedFilter::LinearMean(g)) => {
            assert_eq!((g.w(), g.h()), (5, 5));
            assert_eq!(g.get_extend_value(), ExtendValue::Given(0));
        },
        _ => panic!("mean filter expected"),
    }

    let median = MedianFilter::new(FilterWindowSize::new(7, 7), ExtendValue::Closest);
    match try_parce_filter(median.get_save_name(), &saved_text(median.params_to_bytes())) {
        Ok(ParsedFilter::MedianFilter(g)) => {
            assert_eq!((g.w(), g.h()), (7, 7));
            assert_eq!(g.get_extend_value(), ExtendValue::Closest);
        },
        _ => panic!("median filter expected"),
    }

    let cut = CutBrightness::new(CutBrightnessRange::new(10, 200), ValueRepaceWith::new(7));
    match try_parce_filter(cut.get_save_name(), &saved_text(cut.params_to_bytes())) {
        Ok(ParsedFilter::CutBrightness(g)) => {
            assert_eq!(g.cut_range(), CutBrightnessRange::new(10, 200));
            assert_eq!(g.replace_with(), ValueRepaceWith::new(7));
        },
        _ => panic!("brightness cut expected"),
    }

    let extract = ExtractChannel::new(ImgChannel::G);
    match try_parce_filter(extract.get_save_name(), &saved_text(extract.params_to_bytes())) {
        Ok(ParsedFilter::ExtractChannel(g)) => assert_eq!(g.channel(), ImgChannel::G),
        _ => panic!("channel extraction expected"),
    }

    let neutralize = NeutralizeChannel::new(ImgChannel::A);
    match try_parce_filter(neutralize.get_save_name(), &saved_text(neutralize.params_to_bytes())) {
        Ok(ParsedFilter::NeutralizeChannel(g)) => assert_eq!(g.channel(), ImgChannel::A),
        _ => panic!("channel neutralization expected"),
    }

    // Red is written as blue, and comes back as blue.
    let red = NeutralizeChannel::new(ImgChannel::R);
    match try_parce_filter(red.get_save_name(), &saved_text(red.params_to_bytes())) {
        Ok(ParsedFilter::NeutralizeChannel(g)) => assert_eq!(g.channel(), ImgChannel::B),
        _ => panic!("channel neutralization expected"),
    }

    let canny = CannyEdgeDetection::default();
    match try_parce_filter(canny.get_save_name(), &saved_text(canny.params_to_bytes())) {
        Ok(ParsedFilter::CannyEdgeDetection(g)) => {
            assert_eq!(g.blur_window(), FilterWindowSize::new(5, 5));
            assert_eq!(g.blur_extend_value(), ExtendValue::Closest);
        },
        _ => panic!("edge detector expected"),
    }

    let eq = EqualizeHist::default();
    assert!(matches!(
        try_parce_filter(eq.get_save_name(), &saved_text(eq.params_to_bytes())),
        Ok(ParsedFilter::EqualizeHist(_))
    ));
    let gray = Rgb2Gray::default();
    assert!(matches!(
        try_parce_filter(gray.get_save_name(), &saved_text(gray.params_to_bytes())),
        Ok(ParsedFilter::Rgb2Gray(_))
    ));
}

#[test]
fn kernel_shape_checks_rows_from_the_top() {
    assert_eq!(kernel_shape(5, &[Some(3), Some(3), Some(3)]), Ok((3, 3)));
    assert_eq!(kernel_shape(4, &[Some(2), Some(2)]), Ok((2, 2)));
    assert_eq!(kernel_shape(2, &[]), Err(KernelShapeError::LineCount));
    assert_eq!(kernel_shape(3, &[Some(3)]), Err(KernelShapeError::TooSmall));
    assert_eq!(kernel_shape(4, &[Some(1), Some(1)]), Err(KernelShapeError::TooSmall));
    assert_eq!(kernel_shape(4, &[Some(2), Some(3)]), Err(KernelShapeError::RowLengthsDiffer));
    assert_eq!(kernel_shape(4, &[Some(2), None]), Err(KernelShapeError::NumberFormat));
    // The first failing row decides: a bad number in the first row comes before a
    // length that differs below it.
    assert_eq!(kernel_shape(5, &[None, Some(2), Some(3)]), Err(KernelShapeError::NumberFormat));
    assert_eq!(kernel_shape(5, &[Some(2), Some(3), None]), Err(KernelShapeError::RowLengthsDiffer));
    assert_eq!(KernelShapeError::TooSmall.message(), "Матрица должна иметь размеры > 1");
}
