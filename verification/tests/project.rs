use image_processing::chain::{
    processing_continues, reorder_pair, total_percents, StartProcResult, StartResultsSavingResult, StepsChain,
};
use image_processing::filter::MedianFilter;
use image_processing::filter_kind::{try_parce_filter, FilterKind, ParsedFilter};
use image_processing::message::MoveStep;
use image_processing::project::{project_to_bytes, read_block, split_blocks, split_project, SavedStep};

fn step(name: &str, params: Option<&str>) -> SavedStep {
    SavedStep { name: name.as_bytes().to_vec(), params: params.map(|p| p.as_bytes().to_vec()) }
}

#[test]
fn project_text_layout() {
    let steps = vec![step("MedianFilter", Some("3 x 3\nExt: near")), step("Rgb2Gray", None)];
    let text = String::from_utf8(project_to_bytes(&steps)).unwrap();
    assert_eq!(text, "MedianFilter\n3 x 3\nExt: near\n||\nRgb2Gray\n\n");
}

#[test]
fn project_text_reads_back() {
    let steps = vec![
        step("MedianFilter", Some("5 x 5\nExt: 0")),
        step("Rgb2Gray", None),
        step("ExtractChannel", Some("Channel: G")),
    ];
    let text = project_to_bytes(&steps);
    let read = split_project(&text);
    assert_eq!(read.len(), 3);
    assert_eq!(read[0], (b"MedianFilter".to_vec(), b"5 x 5\nExt: 0".to_vec()));
    assert_eq!(read[1], (b"Rgb2Gray".to_vec(), Vec::new()));
    assert_eq!(read[2], (b"ExtractChannel".to_vec(), b"Channel: G".to_vec()));

    for (name, content) in read.iter() {
        let name = String::from_utf8(name.clone()).unwrap();
        let content = String::from_utf8(content.clone()).unwrap();
        assert!(try_parce_filter(&name, &content).is_ok());
    }
}

#[test]
fn saved_filter_is_loaded_back() {
    let mut f = MedianFilter::default();
    f.try_set_from_string("7 x 7\nExt: 0").unwrap();
    let saved = vec![SavedStep {
        name: FilterKind::MedianFilter.save_name().as_bytes().to_vec(),
        params: f.params_to_bytes(),
    }];
    let read = split_project(&project_to_bytes(&saved));
    let name = String::from_utf8(read[0].0.clone()).unwrap();
    let content = String::from_utf8(read[0].1.clone()).unwrap();
    match try_parce_filter(&name, &content) {
        Ok(ParsedFilter::MedianFilter(g)) => {
            assert_eq!(g.w(), 7);
            assert_eq!(g.get_extend_value(), f.get_extend_value());
        },
        _ => panic!("median filter expected"),
    }
}

#[test]
fn blocks_split_like_str_split() {
    for text in ["a||b", "a|||b", "||", "", "x|y", "a||||b"] {
        let pieces: Vec<Vec<u8>> = split_blocks(text.as_bytes());
        let expected: Vec<Vec<u8>> = text.split("||").map(|p| p.as_bytes().to_vec()).collect();
        assert_eq!(pieces, expected);
    }
}

#[test]
fn blocks_read_into_name_and_settings() {
    assert_eq!(read_block(b"\nName\nline 1\nline 2\n"), (b"Name".to_vec(), b"line 1\nline 2".to_vec()));
    assert_eq!(read_block(b"Name"), (b"Name".to_vec(), Vec::new()));
    assert_eq!(read_block(b"Name\n"), (b"Name".to_vec(), Vec::new()));
    assert_eq!(read_block(b""), (Vec::new(), Vec::new()));
}

#[test]
fn chain_start_and_export_checks() {
    let mut chain: StepsChain<&str> = StepsChain::new();
    assert_eq!(chain.check_if_can_export(), StartResultsSavingResult::NoSteps);
    chain.add_step("blur");
    chain.add_step("median");
    assert_eq!(chain.get_steps_count(), 2);
    assert_eq!(chain.check_if_can_start_processing(0), StartProcResult::NoInitialImg);
    chain.set_initial_img();
    assert_eq!(chain.check_if_can_start_processing(0), StartProcResult::CanStart);
    assert_eq!(chain.check_if_can_start_processing(1), StartProcResult::NoPrevStepImg);
    chain.set_result(0, true);
    assert_eq!(chain.check_if_can_start_processing(1), StartProcResult::CanStart);
    assert_eq!(chain.check_if_can_export(), StartResultsSavingResult::NotAllStepsHaveResult);
    chain.set_result(1, true);
    assert_eq!(chain.check_if_can_export(), StartResultsSavingResult::CanStart);

    chain.swap_steps(0, 1);
    assert_eq!(*chain.step(0), "median");
    assert_eq!(*chain.step(1), "blur");
    assert!(!chain.has_result(0));
    assert!(!chain.has_result(1));

    chain.set_result(0, true);
    chain.set_result(1, true);
    chain.set_step(1, "mean");
    assert!(chain.has_result(0));
    assert!(!chain.has_result(1));
    assert_eq!(*chain.step(1), "mean");

    chain.set_initial_img();
    assert!(!chain.has_result(0));

    chain.remove_step(0);
    assert_eq!(chain.get_steps_count(), 1);
    assert_eq!(*chain.step(0), "mean");
}

#[test]
fn moving_down_then_up_restores_the_order() {
    let mut chain: StepsChain<u32> = StepsChain::new();
    for s in [10, 20, 30] {
        chain.add_step(s);
    }
    let (a, b) = reorder_pair(1, MoveStep::Down, 3).unwrap();
    chain.swap_steps(a, b);
    assert_eq!((*chain.step(1), *chain.step(2)), (30, 20));
    let (a, b) = reorder_pair(2, MoveStep::Up, 3).unwrap();
    chain.swap_steps(a, b);
    assert_eq!((*chain.step(0), *chain.step(1), *chain.step(2)), (10, 20, 30));
}

#[test]
fn chain_decisions() {
    assert_eq!(reorder_pair(0, MoveStep::Up, 3), None);
    assert_eq!(reorder_pair(2, MoveStep::Up, 3), Some((1, 2)));
    assert_eq!(reorder_pair(2, MoveStep::Down, 3), None);
    assert_eq!(reorder_pair(0, MoveStep::Down, 3), Some((0, 1)));

    assert_eq!(total_percents(0, 50, 2), 25);
    assert_eq!(total_percents(1, 100, 2), 100);
    assert_eq!(total_percents(1, 0, 3), 33);

    assert!(processing_continues(true, 0, 2, false));
    assert!(!processing_continues(true, 1, 2, false));
    assert!(!processing_continues(false, 0, 2, false));
    assert!(!processing_continues(true, 0, 2, true));
}
