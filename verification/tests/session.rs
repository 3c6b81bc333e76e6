use blip::profiles::{CompletionAction, RecordingFormat, RecordingProfiles, RecordingTarget};
use blip::recording::RecordingEvent;
use blip::session::{
    capture_target_name, toolbar_label, windows_on, CaptureApp, CaptureSpec, EscapeAction,
    EventReaction, FinishReaction, Mode, Status,
};

fn profiles() -> RecordingProfiles {
    RecordingProfiles::defaults_in("/Users/test", "/tmp")
}

#[test]
fn a_new_toolbar_is_idle_with_nothing_selected() {
    let session = CaptureApp::new();
    assert_eq!(session.status, Status::Idle);
    assert_eq!(session.mode, None);
    assert_eq!(session.selected_display, 0);
    assert!(session.open_recording_when_finished);
}

#[test]
fn the_selection_decides_what_is_recorded() {
    let mut session = CaptureApp::new();
    assert_eq!(session.capture_spec(), Err("Choose a capture mode".to_owned()));
    assert!(session.set_mode(Mode::Display));
    assert_eq!(session.capture_spec(), Err("Select a display first".to_owned()));
    session.select_display(3);
    assert_eq!(session.capture_spec(), Ok(CaptureSpec::Display(3)));
    session.set_mode(Mode::Window);
    assert_eq!(session.capture_spec(), Err("Select a window first".to_owned()));
    session.select_window(42);
    assert_eq!(session.capture_spec(), Ok(CaptureSpec::Window(42)));
    session.set_mode(Mode::Region);
    assert_eq!(session.capture_spec(), Err("Drag to select a recording area".to_owned()));
    session.select_region(5);
    assert_eq!(session.capture_spec(), Ok(CaptureSpec::Region { display_id: 5 }));
    assert_eq!(session.selected_display, 5);
}

#[test]
fn choosing_the_same_mode_twice_leaves_it() {
    let mut session = CaptureApp::new();
    assert!(session.set_mode(Mode::Window));
    assert!(!session.set_mode(Mode::Window));
    assert_eq!(session.mode, None);
}

#[test]
fn starting_checks_the_selection_and_the_profile() {
    let mut session = CaptureApp::new();
    session.set_mode(Mode::Display);
    session.select_display(1);
    assert_eq!(session.prepare_recording(&profiles()), Some((CaptureSpec::Display(1), 0)));

    let mut empty = profiles();
    empty.profiles.clear();
    assert_eq!(session.prepare_recording(&empty), None);
    assert_eq!(session.error, Some("Create a recording profile first".into()));

    let mut broken = profiles();
    broken.profiles[0].format = RecordingFormat::Hls;
    assert_eq!(session.prepare_recording(&broken), None);
    assert_eq!(session.error, Some("Local recordings must use MP4 or Blip Bundle".into()));

    session.recording_spawned(CompletionAction::CopyToClipboard);
    assert_eq!(session.status, Status::Starting);
    assert_eq!(session.error, None);
    assert_eq!(session.prepare_recording(&profiles()), None);
}

#[test]
fn stopping_needs_a_running_recording() {
    let mut session = CaptureApp::new();
    assert!(!session.stop());
    session.handle_event(RecordingEvent::Started);
    assert_eq!(session.status, Status::Recording);
    assert!(session.stop());
    assert_eq!(session.status, Status::Finalizing);
    assert_eq!(session.handle_event(RecordingEvent::Uploading), EventReaction::Updated);
    assert_eq!(session.status, Status::Uploading);
}

#[test]
fn escape_clears_the_selection_then_closes() {
    let mut session = CaptureApp::new();
    session.set_mode(Mode::Window);
    session.select_window(9);
    assert_eq!(session.escape(), EscapeAction::Cleared);
    assert_eq!(session.selected_window, None);
    assert_eq!(session.escape(), EscapeAction::Close);
    session.handle_event(RecordingEvent::Started);
    assert_eq!(session.escape(), EscapeAction::Ignored);
}

#[test]
fn failures_return_to_idle_with_the_message() {
    let mut session = CaptureApp::new();
    session.handle_event(RecordingEvent::Started);
    let reaction = session.handle_event(RecordingEvent::Failed("disk full".into()));
    assert_eq!(reaction, EventReaction::Failed);
    assert_eq!(session.status, Status::Idle);
    assert_eq!(session.error, Some("disk full".into()));
}

#[test]
fn finished_recordings_are_shared_opened_or_revealed() {
    let mut session = CaptureApp::new();
    let reaction = session.handle_event(RecordingEvent::Finished {
        path: "/tmp/a.mp4".into(),
        viewer_url: Some("https://blip.example/v/1".into()),
    });
    assert_eq!(
        reaction,
        EventReaction::Finished(FinishReaction::ShareUrl { url: "https://blip.example/v/1".into(), open: true })
    );
    let reaction = session.handle_event(RecordingEvent::Finished { path: "/tmp/a.blip".into(), viewer_url: None });
    assert_eq!(reaction, EventReaction::Finished(FinishReaction::OpenBundle("/tmp/a.blip".into())));

    session.recording_spawned(CompletionAction::Reveal);
    let finished = || RecordingEvent::Finished { path: "/tmp/a.mp4".into(), viewer_url: None };
    assert_eq!(
        session.handle_event(finished()),
        EventReaction::Finished(FinishReaction::RevealPath("/tmp/a.mp4".into()))
    );
    session.toggle_open_recording();
    assert_eq!(session.handle_event(finished()), EventReaction::Finished(FinishReaction::Nothing));
    session.recording_spawned(CompletionAction::CopyToClipboard);
    assert_eq!(
        session.handle_event(finished()),
        EventReaction::Finished(FinishReaction::CopyPath("/tmp/a.mp4".into()))
    );
}

#[test]
fn targets_are_named_by_the_system_or_by_number() {
    assert_eq!(capture_target_name(CaptureSpec::Window(7), None), "Window 7");
    assert_eq!(capture_target_name(CaptureSpec::Display(2), None), "Display 2");
    assert_eq!(capture_target_name(CaptureSpec::Region { display_id: 4 }, None), "Display 4");
    assert_eq!(
        capture_target_name(CaptureSpec::Display(2), Some("Built-in Display".into())),
        "Built-in Display"
    );
}

#[test]
fn the_toolbar_is_sized_for_the_selected_profile() {
    let mut profiles = profiles();
    assert_eq!(toolbar_label(&profiles), "Desktop");
    profiles.profiles[0].target = RecordingTarget::Remote { server_url: "https://x#y".into() };
    profiles.profiles.clear();
    assert_eq!(toolbar_label(&profiles), "Profile");
}

#[test]
fn windows_that_close_are_deselected() {
    let mut session = CaptureApp::new();
    session.select_window(7);
    session.windows_changed(&[7, 8]);
    assert_eq!(session.selected_window, Some(7));
    session.windows_changed(&[8]);
    assert_eq!(session.selected_window, None);
}

#[test]
fn overlays_show_the_windows_on_their_display() {
    let windows = vec![(1, Some(10)), (2, None), (3, Some(11)), (4, Some(10))];
    assert_eq!(windows_on(&windows, 10), vec![(1, Some(10)), (4, Some(10))]);
    assert_eq!(windows_on(&windows, 12), vec![]);
}
