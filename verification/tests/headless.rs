use blip::capture_args::CaptureArgs;
use blip::headless::{banner, choose_display, headless_profile, HeadlessRun, HeadlessStep};
use blip::profiles::{CompletionAction, RecordingFormat, RecordingTarget};
use blip::recording::RecordingEvent;

fn args(list: &[&str]) -> CaptureArgs {
    CaptureArgs::try_parse_from(list).expect("arguments should parse")
}

#[test]
fn the_server_comes_from_the_option_or_the_environment() {
    let given = args(&["blip-capture", "--headless", "--server-url", "https://blip.example#secret"]);
    let profile = headless_profile(&given, Some("https://other.example#x".into())).expect("profile");
    assert_eq!(profile.id, "headless");
    assert_eq!(profile.name, "Headless test");
    assert_eq!(profile.target, RecordingTarget::Remote { server_url: "https://blip.example#secret".into() });
    assert_eq!(profile.completion_action, CompletionAction::NoAction);

    let bare = args(&["blip-capture", "--headless", "--format", "hls"]);
    let profile = headless_profile(&bare, Some("https://other.example#x".into())).expect("profile");
    assert_eq!(profile.target, RecordingTarget::Remote { server_url: "https://other.example#x".into() });
    assert_eq!(profile.format, RecordingFormat::Hls);

    assert_eq!(
        headless_profile(&bare, None).err(),
        Some("--server-url or the BLIP_SERVER_URL environment variable is required".to_owned())
    );
}

#[test]
fn an_invalid_server_is_refused_before_recording() {
    let insecure = args(&["blip-capture", "--headless", "--server-url", "http://blip.example#secret"]);
    assert_eq!(
        headless_profile(&insecure, None).err(),
        Some("The Blip server URL must use HTTPS".to_owned())
    );
    let keyless = args(&["blip-capture", "--headless", "--server-url", "https://blip.example"]);
    assert_eq!(
        headless_profile(&keyless, None).err(),
        Some("The Blip server URL must include its access token".to_owned())
    );
}

#[test]
fn the_display_is_the_requested_or_the_main_one() {
    assert_eq!(choose_display(Some(2), &[1, 2], Some(1)), Ok(2));
    assert_eq!(choose_display(Some(3), &[1, 2], Some(1)), Err("display 3 is not available".to_owned()));
    assert_eq!(choose_display(None, &[1, 2], Some(1)), Ok(1));
    assert_eq!(choose_display(None, &[], None), Err("the main display is not available".to_owned()));
    assert_eq!(banner(1, 5, "/tmp/x.mp4"), "blip-capture: recording display 1 for 5 seconds to /tmp/x.mp4");
}

#[test]
fn the_timer_starts_once_and_the_run_ends_with_the_viewer_url() {
    let mut run = HeadlessRun::new();
    assert_eq!(run.step(RecordingEvent::Started), HeadlessStep::StartTimer);
    assert_eq!(run.step(RecordingEvent::Started), HeadlessStep::Wait);
    assert_eq!(run.step(RecordingEvent::Uploading), HeadlessStep::Wait);
    assert_eq!(
        run.step(RecordingEvent::Finished { path: "/tmp/x.mp4".into(), viewer_url: Some("https://v".into()) }),
        HeadlessStep::Done { result: Ok("https://v".into()), stop: false }
    );
    assert_eq!(
        run.step(RecordingEvent::Finished { path: "/tmp/x.mp4".into(), viewer_url: None }),
        HeadlessStep::Done { result: Err("headless recording finished without a viewer URL".into()), stop: false }
    );
    assert_eq!(
        run.step(RecordingEvent::Failed("boom".into())),
        HeadlessStep::Done { result: Err("boom".into()), stop: true }
    );
    assert_eq!(run.ended(), "recording stopped without a result");
}
