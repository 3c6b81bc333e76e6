use blip::naming::{
    cleanup_on_failure, output_candidate, output_extension, output_folder, recording_stem,
    sanitize, sanitize_filename, timecode_from_frames, toolbar_dimensions_for_label, window_name,
};
use blip::profiles::{RecordingFormat, RecordingTarget};

#[test]
fn calculates_dynamic_toolbar_dimensions() {
    let size = |label: &str| {
        let (width, height) = toolbar_dimensions_for_label(label);
        (width as f32, height as f32)
    };
    assert_eq!(size("Dev"), (472.0, 56.0));
    assert_eq!(size("Prod Server"), (536.0, 56.0));
    assert_eq!(size("A Very Long Server Name That Exceeds Max"), (688.0, 56.0));
}

#[test]
fn short_labels_count_as_three_characters() {
    assert_eq!(toolbar_dimensions_for_label(""), (472, 56));
    assert_eq!(toolbar_dimensions_for_label("Ünï"), (472, 56));
}

#[test]
fn sanitizes_capture_target_for_filename() {
    assert_eq!(sanitize_filename("Safari: Docs/Reference\n"), "Safari- Docs-Reference");
    assert_eq!(sanitize_filename(" \n "), "Recording");
}

#[test]
fn file_names_keep_whole_characters_within_150_bytes() {
    let long = "a".repeat(200);
    assert_eq!(sanitize_filename(&long), "a".repeat(150));
    let wide = "é".repeat(100);
    assert_eq!(sanitize_filename(&wide), "é".repeat(75));
    let odd = format!("a{}", "é".repeat(100));
    assert_eq!(sanitize_filename(&odd), format!("a{}", "é".repeat(74)));
    assert_eq!(sanitize_filename("tab\there\u{7f}"), "tab-here-");
}

#[test]
fn listing_fields_stay_on_one_line() {
    assert_eq!(sanitize("a\tb\nc\rd"), "a b c d");
    assert_eq!(sanitize("plain"), "plain");
}

#[test]
fn window_names_use_what_is_known() {
    assert_eq!(window_name(Some("Safari".into()), Some("Docs".into()), 1), "Safari - Docs");
    assert_eq!(window_name(Some("Safari".into()), Some("  ".into()), 1), "Safari");
    assert_eq!(window_name(None, Some("Docs".into()), 1), "Docs");
    assert_eq!(window_name(None, None, 12), "Window 12");
}

#[test]
fn recording_paths_are_numbered_when_taken() {
    let stem = recording_stem("Safari: Docs", "2026-07-26");
    assert_eq!(stem, "Safari- Docs - 2026-07-26");
    assert_eq!(output_candidate("/tmp", &stem, "mp4", None), "/tmp/Safari- Docs - 2026-07-26.mp4");
    assert_eq!(output_candidate("/tmp/", &stem, "hls", Some(2)), "/tmp/Safari- Docs - 2026-07-26 2.hls");
}

#[test]
fn recordings_go_to_the_profile_folder_or_the_temporary_folder() {
    assert_eq!(output_folder(&RecordingTarget::Local { folder: "/Users/me/Desktop".into() }, "/tmp"), "/Users/me/Desktop");
    assert_eq!(output_folder(&RecordingTarget::Remote { server_url: "https://x#y".into() }, "/tmp"), "/tmp/blip-capture");
    assert_eq!(output_extension(RecordingFormat::Hls), "hls");
    assert_eq!(output_extension(RecordingFormat::BlipBundle), "blip");
    assert_eq!(output_extension(RecordingFormat::Mp4), "mp4");
    assert_eq!(cleanup_on_failure(RecordingFormat::Mp4, "/tmp/a.mp4"), None);
    assert_eq!(cleanup_on_failure(RecordingFormat::Hls, "/tmp/a.hls"), Some("/tmp/a.hls".into()));
}

#[test]
fn timecodes_count_minutes_seconds_and_frames() {
    assert_eq!(timecode_from_frames(90, 60), "00:01:30");
    assert_eq!(timecode_from_frames(1957, 30), "01:05:07");
    assert_eq!(timecode_from_frames(7, 0), "00:07:00");
    assert_eq!(timecode_from_frames(6000 * 60, 60), "100:00:00");
}
