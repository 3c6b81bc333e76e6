use blip::args::CliError;
use blip::cli::{Cli, Command, ResourceCommand, StreamArgs};

#[test]
fn accepts_fps_with_display() {
    let result = Cli::try_parse_from(&["blip-cli", "stream", "--display", "1", "--fps", "30"]);
    assert!(result.is_ok(), "display and FPS should be compatible");
}

#[test]
fn accepts_fps_with_window() {
    let result = Cli::try_parse_from(&["blip-cli", "stream", "--window", "1", "--fps", "30"]);
    assert!(result.is_ok(), "window and FPS should be compatible");
}

#[test]
fn rejects_display_with_window() {
    let result = Cli::try_parse_from(&["blip-cli", "stream", "--display", "1", "--window", "2"]);
    assert!(result.is_err(), "display and window should conflict");
}

#[test]
fn record_accepts_capture_options_and_output() {
    let result = Cli::try_parse_from(&[
        "blip-cli",
        "record",
        "capture.mp4",
        "--display",
        "1",
        "--fps",
        "30",
        "--cursor",
    ]);
    assert!(result.is_ok(), "record should accept capture options");
}

#[test]
fn record_requires_output() {
    let result = Cli::try_parse_from(&["blip-cli", "record", "--display", "1"]);
    assert!(result.is_err(), "record should require an output path");
}

#[test]
fn record_rejects_display_with_window() {
    let result = Cli::try_parse_from(&[
        "blip-cli",
        "record",
        "capture.mp4",
        "--display",
        "1",
        "--window",
        "2",
    ]);
    assert!(result.is_err(), "display and window should conflict");
}

#[test]
fn stream_values_are_read_with_defaults() {
    let cli = Cli::try_parse_from(&["blip-cli", "stream", "--display=7"]).unwrap();
    assert_eq!(
        cli.command,
        Command::Stream(StreamArgs { display: Some(7), window: None, fps: 60, cursor: false })
    );
    let cli = Cli::try_parse_from(&["blip-cli", "stream", "--window", "3", "--fps", "+24", "--cursor"]).unwrap();
    assert_eq!(
        cli.command,
        Command::Stream(StreamArgs { display: None, window: Some(3), fps: 24, cursor: true })
    );
}

#[test]
fn record_reads_output_and_options() {
    let cli = Cli::try_parse_from(&["blip-cli", "record", "--fps", "30", "--", "-out.mp4"]).unwrap();
    match cli.command {
        Command::Record(args) => {
            assert_eq!(args.output, "-out.mp4");
            assert_eq!(args.capture.fps, 30);
        }
        other => panic!("unexpected command {other:?}"),
    }
}

#[test]
fn resource_subcommands_parse() {
    let cli = Cli::try_parse_from(&["blip-cli", "displays", "list"]).unwrap();
    assert_eq!(cli.command, Command::Displays { command: ResourceCommand::List });
    let cli = Cli::try_parse_from(&["blip-cli", "windows", "info", "42"]).unwrap();
    assert_eq!(cli.command, Command::Windows { command: ResourceCommand::Info { id: 42 } });
}

#[test]
fn command_line_errors_have_their_kinds() {
    assert_eq!(Cli::try_parse_from(&["blip-cli"]), Err(CliError::MissingSubcommand));
    assert_eq!(Cli::try_parse_from(&["blip-cli", "--help"]), Err(CliError::Help));
    assert_eq!(Cli::try_parse_from(&["blip-cli", "stream", "-h"]), Err(CliError::Help));
    assert_eq!(Cli::try_parse_from(&["blip-cli", "paint"]), Err(CliError::UnknownSubcommand));
    assert_eq!(Cli::try_parse_from(&["blip-cli", "stream", "--zoom"]), Err(CliError::UnknownArgument));
    assert_eq!(Cli::try_parse_from(&["blip-cli", "stream", "--fps"]), Err(CliError::MissingValue));
    assert_eq!(Cli::try_parse_from(&["blip-cli", "stream", "--cursor=yes"]), Err(CliError::UnexpectedValue));
    assert_eq!(Cli::try_parse_from(&["blip-cli", "stream", "--fps", "fast"]), Err(CliError::InvalidValue));
    assert_eq!(Cli::try_parse_from(&["blip-cli", "stream", "--fps", "4294967296"]), Err(CliError::InvalidValue));
    assert_eq!(Cli::try_parse_from(&["blip-cli", "stream", "--cursor", "--cursor"]), Err(CliError::DuplicateArgument));
    assert_eq!(Cli::try_parse_from(&["blip-cli", "stream", "extra"]), Err(CliError::UnexpectedArgument));
    assert_eq!(Cli::try_parse_from(&["blip-cli", "displays"]), Err(CliError::MissingSubcommand));
    assert_eq!(Cli::try_parse_from(&["blip-cli", "displays", "info"]), Err(CliError::MissingArgument));
    assert_eq!(Cli::try_parse_from(&["blip-cli", "record", "a.mp4", "b.mp4"]), Err(CliError::UnexpectedArgument));
}
