use blip::args::CliError;
use blip::capture_args::{CaptureArgs, HeadlessFormat};
use blip::profiles::RecordingFormat;

#[test]
fn accepts_gui_mode_without_options() {
    let result = CaptureArgs::try_parse_from(&["blip-capture"]);
    assert!(result.is_ok());
}

#[test]
fn accepts_headless_upload_options() {
    let result = CaptureArgs::try_parse_from(&[
        "blip-capture",
        "--headless",
        "--server-url",
        "https://blip.example#secret",
        "--display",
        "1",
        "--duration",
        "10",
        "--format",
        "hls",
    ]);
    assert!(result.is_ok());
}

#[test]
fn rejects_headless_options_in_gui_mode() {
    let result = CaptureArgs::try_parse_from(&["blip-capture", "--duration", "10"]);
    assert!(result.is_err());
}

#[test]
fn rejects_zero_length_headless_recording() {
    let result = CaptureArgs::try_parse_from(&[
        "blip-capture",
        "--headless",
        "--server-url",
        "https://blip.example#secret",
        "--duration",
        "0",
    ]);
    assert!(result.is_err());
}

#[test]
fn accepts_path_to_open_bundle() {
    let result = CaptureArgs::try_parse_from(&["blip-capture", "/tmp/test.blip"]);
    assert!(result.is_ok());
    assert_eq!(result.unwrap().path, Some("/tmp/test.blip".to_owned()));
}

#[test]
fn headless_values_and_defaults() {
    let args = CaptureArgs::try_parse_from(&["blip-capture", "--headless"]).unwrap();
    assert_eq!(args.duration, 5);
    assert_eq!(args.format, HeadlessFormat::Mp4);
    assert_eq!(args.server_url, None);
    let args = CaptureArgs::try_parse_from(&[
        "blip-capture",
        "--headless",
        "--server-url=https://b#k",
        "--display",
        "3",
        "--format=hls",
    ])
    .unwrap();
    assert_eq!(args.server_url, Some("https://b#k".to_owned()));
    assert_eq!(args.display, Some(3));
    assert_eq!(RecordingFormat::from(args.format), RecordingFormat::Hls);
}

#[test]
fn capture_argument_errors() {
    assert_eq!(
        CaptureArgs::try_parse_from(&["blip-capture", "--headless", "/tmp/a.blip"]),
        Err(CliError::ConflictingArguments)
    );
    assert_eq!(
        CaptureArgs::try_parse_from(&["blip-capture", "--headless", "--format", "mov"]),
        Err(CliError::InvalidValue)
    );
    assert_eq!(
        CaptureArgs::try_parse_from(&["blip-capture", "a", "b"]),
        Err(CliError::UnexpectedArgument)
    );
    assert_eq!(
        CaptureArgs::try_parse_from(&["blip-capture", "--server-url", "https://b#k"]),
        Err(CliError::MissingArgument)
    );
}
