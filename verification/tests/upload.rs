use blip::profiles::RecordingFormat;
use blip::upload::{
    check_part_size, endpoint, http_failure_message, invalid_response_message, parse_server_url,
    plan_hls_upload, request_failure_message, strip_quotes, upload_filename, upload_source,
    validate_hls_asset, HlsUploadState, PartLog,
};

#[test]
fn separates_fragment_token_from_server_url() -> Result<(), String> {
    let (url, token) = parse_server_url("https://blip.example/base#secret")?;
    assert_eq!(url.as_str(), "https://blip.example/base");
    assert_eq!(token, "secret");
    assert_eq!(
        endpoint(&url, "api/uploads")?.as_str(),
        "https://blip.example/base/api/uploads"
    );
    Ok(())
}

#[test]
fn requires_a_secure_url_and_token() {
    assert!(parse_server_url("https://blip.example").is_err());
    assert!(parse_server_url("http://blip.example#secret").is_err());
    assert!(parse_server_url("http://localhost:8787#secret").is_ok());
}

#[test]
fn server_url_errors_name_the_problem() {
    assert_eq!(parse_server_url("::"), Err("invalid Blip server URL".to_owned()));
    assert_eq!(
        parse_server_url("https://blip.example#"),
        Err("Blip server URL is missing its access token".to_owned())
    );
    assert_eq!(
        parse_server_url("ftp://blip.example#k"),
        Err("Blip server URL must use HTTPS".to_owned())
    );
}

#[test]
fn endpoints_resolve_under_the_server_folder() {
    assert_eq!(
        endpoint("https://blip.example/", "api/uploads/abc/parts"),
        Ok("https://blip.example/api/uploads/abc/parts".to_owned())
    );
    assert_eq!(
        endpoint("https://blip.example/a/b", "api/uploads"),
        Ok("https://blip.example/a/b/api/uploads".to_owned())
    );
    assert_eq!(endpoint("nonsense", "api"), Err("invalid Blip server endpoint".to_owned()));
}

#[test]
fn uploads_recording_name_for_all_formats() {
    assert_eq!(
        upload_filename("/tmp/Safari - Docs - 2026-07-26.mp4", RecordingFormat::Mp4),
        "Safari - Docs - 2026-07-26.mp4"
    );
    assert_eq!(
        upload_filename("/tmp/Built-in Display - 2026-07-26.hls", RecordingFormat::Hls),
        "Built-in Display - 2026-07-26.hls"
    );
}

#[test]
fn upload_names_fall_back_by_format() {
    assert_eq!(upload_filename("/", RecordingFormat::Hls), "recording.hls");
    assert_eq!(upload_filename("a/..", RecordingFormat::Mp4), "recording.mp4");
    assert_eq!(upload_filename("a/b/./", RecordingFormat::Mp4), "b");
    assert_eq!(upload_source("/tmp/x.hls", RecordingFormat::Hls), "/tmp/x.hls/playlist.m3u8");
    assert_eq!(upload_source("/tmp/x.mp4", RecordingFormat::Mp4), "/tmp/x.mp4");
}

#[test]
fn hls_assets_are_classified() {
    assert_eq!(validate_hls_asset("/r/init.mp4"), Ok(true));
    assert_eq!(validate_hls_asset("/r/segment12.M4S"), Ok(false));
    assert_eq!(
        validate_hls_asset("/r/notes.txt"),
        Err("HLS recording contains an unexpected file: notes.txt".to_owned())
    );
    assert_eq!(
        validate_hls_asset("/"),
        Err("HLS recording contains an invalid filename".to_owned())
    );
}

#[test]
fn hls_folder_uploads_in_name_order() {
    let names = vec![
        "segment2.m4s".to_owned(),
        "playlist.m3u8".to_owned(),
        ".DS_Store".to_owned(),
        "init.mp4".to_owned(),
        "segment1.m4s".to_owned(),
    ];
    let plan = plan_hls_upload(&names);
    assert_eq!(plan.uploads, vec!["init.mp4", "segment1.m4s", "segment2.m4s"]);
    assert_eq!(plan.error, None);

    let plan = plan_hls_upload(&vec!["segment1.m4s".to_owned()]);
    assert_eq!(plan.uploads, vec!["segment1.m4s"]);
    assert_eq!(plan.error, Some("HLS recording is missing init.mp4".to_owned()));

    let plan = plan_hls_upload(&vec!["b.txt".to_owned(), "init.mp4".to_owned(), "a.txt".to_owned()]);
    assert_eq!(plan.uploads, Vec::<String>::new());
    assert_eq!(plan.error, Some("HLS recording contains an unexpected file: a.txt".to_owned()));
}

#[test]
fn failure_messages() {
    assert_eq!(
        http_failure_message("start upload", "401 Unauthorized", "  bad token \n"),
        "failed to start upload: HTTP status 401 Unauthorized: bad token"
    );
    assert_eq!(
        http_failure_message("sign upload chunk", "500 Internal Server Error", " \t "),
        "failed to sign upload chunk: HTTP status 500 Internal Server Error"
    );
    let long = "x".repeat(1500);
    assert_eq!(
        http_failure_message("a", "b", &long),
        format!("failed to a: HTTP status b: {}", "x".repeat(1000))
    );
    assert_eq!(request_failure_message("complete upload", "timeout"), "failed to complete upload: timeout");
    assert_eq!(
        invalid_response_message("start upload", "eof"),
        "server returned an invalid response while trying to start upload: eof"
    );
}

#[test]
fn etags_lose_their_quotes() {
    assert_eq!(strip_quotes("\"abc\""), "abc");
    assert_eq!(strip_quotes("\"\"a\"b\"\""), "a\"b");
    assert_eq!(strip_quotes("plain"), "plain");
}

#[test]
fn parts_are_numbered_in_order() {
    assert!(check_part_size(5 * 1024 * 1024).is_ok());
    assert!(check_part_size(5 * 1024 * 1024 - 1).is_err());
    let mut log = PartLog::new();
    assert_eq!(log.next_part_number(), Ok(1));
    assert_eq!(log.record("a".into()), Ok(1));
    assert_eq!(log.record("b".into()), Ok(2));
    let parts = log.finish().unwrap();
    assert_eq!(parts.len(), 2);
    assert_eq!(parts[1].part_number, 2);
    assert_eq!(parts[1].etag, "b");
    assert_eq!(PartLog::new().finish().err(), Some("cannot upload an empty recording".to_owned()));
}

#[test]
fn incremental_hls_upload_needs_the_initialization_segment() {
    let mut state = HlsUploadState::new();
    assert!(state.register_asset("/r/segment1.m4s").is_ok());
    assert_eq!(state.check_finish(), Err("HLS recording is missing init.mp4".to_owned()));
    assert!(state.register_asset("/r/bad.bin").is_err());
    assert!(state.register_asset("/r/init.mp4").is_ok());
    assert_eq!(state.check_finish(), Ok(()));
}

#[test]
fn endpoints_within_limits_resolve_as_endpoint_does() {
    assert_eq!(
        blip::upload::endpoint_within_limits("https://blip.example/a/b", "api/uploads"),
        Some(Ok("https://blip.example/a/b/api/uploads".to_owned()))
    );
    assert_eq!(
        blip::upload::endpoint_within_limits("nonsense", "api"),
        Some(Err("invalid Blip server endpoint".to_owned()))
    );
}
