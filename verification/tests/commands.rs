use blip::cli::Cli;
use blip::commands::{
    capture_dimensions, display_line, frame_line, is_stop_key, record_outcome, run, select_target,
    stop_hint, stops_capture, summary_line, window_line, CliAction, FrameTally, KeyCode, KeyKind,
    KeyPress, RecordEnd, RecordFailure, TargetChoice, TargetError,
};

fn parse(args: &[&str]) -> Cli {
    Cli::try_parse_from(args).expect("command line should parse")
}

#[test]
fn commands_dispatch_to_their_actions() {
    assert_eq!(run(parse(&["blip-cli", "displays", "list"])), CliAction::ListDisplays);
    assert_eq!(run(parse(&["blip-cli", "displays", "info", "3"])), CliAction::DisplayInfo(3));
    assert_eq!(run(parse(&["blip-cli", "windows", "list"])), CliAction::ListWindows);
    assert_eq!(run(parse(&["blip-cli", "windows", "info", "8"])), CliAction::WindowInfo(8));
    match run(parse(&["blip-cli", "stream", "--fps", "30"])) {
        CliAction::Stream(args) => assert_eq!(args.fps, 30),
        other => panic!("unexpected action {other:?}"),
    }
    match run(parse(&["blip-cli", "record", "out.mp4"])) {
        CliAction::Record(args) => assert_eq!(args.output, "out.mp4"),
        other => panic!("unexpected action {other:?}"),
    }
}

#[test]
fn targets_are_chosen_among_what_is_offered() {
    let stream = |args: &[&str]| match run(parse(args)) {
        CliAction::Stream(a) => a,
        other => panic!("unexpected action {other:?}"),
    };
    let displays = [1, 2];
    let windows = [10, 11];
    assert_eq!(
        select_target(&displays, &windows, Some(1), &stream(&["blip-cli", "stream", "--display", "2"])),
        Ok((TargetChoice::Display(2), "display 2".into()))
    );
    assert_eq!(
        select_target(&displays, &windows, Some(1), &stream(&["blip-cli", "stream", "--display", "5"])),
        Err(TargetError::Unavailable("display 5 is not available".into()))
    );
    assert_eq!(
        select_target(&displays, &windows, Some(1), &stream(&["blip-cli", "stream", "--window", "11"])),
        Ok((TargetChoice::Window(11), "window 11".into()))
    );
    assert_eq!(
        select_target(&displays, &windows, Some(1), &stream(&["blip-cli", "stream", "--window", "12"])),
        Err(TargetError::Unavailable("window 12 is not available".into()))
    );
    assert_eq!(
        select_target(&displays, &windows, Some(1), &stream(&["blip-cli", "stream"])),
        Ok((TargetChoice::Display(1), "main display 1".into()))
    );
    assert_eq!(
        select_target(&displays, &windows, None, &stream(&["blip-cli", "stream"])),
        Err(TargetError::NoDisplay)
    );
}

#[test]
fn listing_lines_are_tab_separated() {
    assert_eq!(display_line(1, (3024, 1964), Some(1)), "1\t3024x1964\tmain");
    assert_eq!(display_line(2, (1920, 1080), Some(1)), "2\t1920x1080\t");
    assert_eq!(
        window_line(7, Some((800, 600)), Some("Safari".into()), Some("Docs\tand\nmore".into())),
        "7\t800x600\tSafari\tDocs and more"
    );
    assert_eq!(window_line(8, None, None, None), "8\tunknown\tunknown\t");
    assert_eq!(capture_dimensions(None, (10, 20)), (10, 20));
    assert_eq!(capture_dimensions(Some((5, 6)), (10, 20)), (5, 6));
    assert_eq!(frame_line(3, 1920, 1080), "frame 3\t1920x1080");
}

#[test]
fn stops_on_space_press() {
    let key = KeyPress::new(KeyCode::Char(' '));
    assert!(is_stop_key(key), "Space should stop recording");
}

#[test]
fn control_c_stops_and_other_keys_do_not() {
    assert!(is_stop_key(KeyPress { code: KeyCode::Char('c'), kind: KeyKind::Press, control: true }));
    assert!(!is_stop_key(KeyPress::new(KeyCode::Char('c'))));
    assert!(!is_stop_key(KeyPress { code: KeyCode::Char(' '), kind: KeyKind::Release, control: false }));
    assert!(!is_stop_key(KeyPress::new(KeyCode::Other)));
    assert_eq!(stop_hint(true), "press Space to stop");
    assert_eq!(stop_hint(false), "press Ctrl-C to stop");
}

#[test]
fn recordings_are_accounted_for() {
    let mut tally = FrameTally::new();
    tally.count(true);
    tally.count(true);
    tally.count(false);
    assert_eq!(tally, FrameTally { appended: 2, backpressure_drops: 1 });
    let mut full = FrameTally { appended: u64::MAX, backpressure_drops: 0 };
    full.count(true);
    assert_eq!(full.appended, u64::MAX);
    assert_eq!(
        summary_line(tally, "out.mp4", 4),
        "wrote 2 frames to out.mp4 (1 dropped for backpressure, 4 dropped by queue)"
    );
}

#[test]
fn recording_outcomes_check_stop_capture_then_writer() {
    let tally = FrameTally { appended: 1, backpressure_drops: 0 };
    assert!(!stops_capture(&RecordEnd::CaptureError("gone".into())));
    assert!(stops_capture(&RecordEnd::Interrupt));
    assert_eq!(
        record_outcome(Err("stuck".into()), RecordEnd::CaptureError("gone".into()), Ok(tally)),
        Err(RecordFailure::Stop("stuck".into()))
    );
    assert_eq!(
        record_outcome(Ok(()), RecordEnd::CaptureError("gone".into()), Ok(tally)),
        Err(RecordFailure::Capture("gone".into()))
    );
    assert_eq!(
        record_outcome(Ok(()), RecordEnd::WriterError, Err("no frames".into())),
        Err(RecordFailure::Writer("no frames".into()))
    );
    assert_eq!(record_outcome(Ok(()), RecordEnd::Interrupt, Ok(tally)), Ok(tally));
}
