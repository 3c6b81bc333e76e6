use blip::recording::{mp4_bitrate, MAX_MP4_BITRATE, MIN_MP4_BITRATE};

#[test]
fn scales_mp4_bitrate_with_resolution_and_frame_rate() {
    let hd_60 = mp4_bitrate(1920, 1080, 60);

    assert_eq!(hd_60, 4_000_000);
    assert!(mp4_bitrate(1280, 720, 30) < hd_60);
    assert!(mp4_bitrate(1920, 1080, 30) < hd_60);
    assert!(mp4_bitrate(3840, 2160, 60) > hd_60);
}

#[test]
fn bounds_mp4_bitrate() {
    assert_eq!(mp4_bitrate(320, 240, 1), MIN_MP4_BITRATE);
    assert_eq!(mp4_bitrate(7680, 4320, 120), MAX_MP4_BITRATE);
}

#[test]
fn mp4_bitrate_has_exact_values() {
    // 1.5 Mbit/s + 1.5 * (1280*720)/(1920*1080) Mbit/s + 0.5 Mbit/s = 2666666.67
    assert_eq!(mp4_bitrate(1280, 720, 30), 2_666_667);
    assert_eq!(mp4_bitrate(1920, 1080, 30), 3_500_000);
    // frame rates above 60 count as 60
    assert_eq!(mp4_bitrate(1920, 1080, 240), 4_000_000);
    assert_eq!(mp4_bitrate(usize::MAX, usize::MAX, 60), MAX_MP4_BITRATE);
    assert_eq!(mp4_bitrate(0, 0, 0), MIN_MP4_BITRATE);
}

use blip::profiles::RecordingFormat;
use blip::recording::{
    abandons_upload, announces_upload, conclude, incremental_close, sends_while_recording,
    uploads_afterwards, Cleanup, RecordingEvent, UploadOutcome, UploadQueue,
};

#[test]
fn only_hls_to_a_server_is_sent_while_recording() {
    assert!(sends_while_recording(RecordingFormat::Hls, true));
    assert!(!sends_while_recording(RecordingFormat::Hls, false));
    assert!(!sends_while_recording(RecordingFormat::Mp4, true));
    assert!(uploads_afterwards(true, RecordingFormat::Mp4, true));
    assert!(!uploads_afterwards(true, RecordingFormat::Hls, true));
    assert!(!uploads_afterwards(false, RecordingFormat::Mp4, true));
    assert!(announces_upload(true, true));
    assert!(!announces_upload(true, false));
    assert_eq!(incremental_close(true, "/tmp/r.hls"), Some("/tmp/r.hls/playlist.m3u8".into()));
    assert_eq!(incremental_close(false, "/tmp/r.hls"), None);
}

#[test]
fn failed_recordings_remove_what_they_started() {
    assert_eq!(
        conclude(Err("no frames".into()), UploadOutcome::NotUploaded, RecordingFormat::Hls, "/tmp/r.hls", "/tmp/r.hls", Some("/tmp/r.hls".into())),
        (Cleanup::RemoveFolder("/tmp/r.hls".into()), RecordingEvent::Failed("no frames".into()))
    );
    assert_eq!(
        conclude(Err("no frames".into()), UploadOutcome::NotUploaded, RecordingFormat::Mp4, "/tmp/r.mp4", "/tmp/r.mp4", None),
        (Cleanup::Keep, RecordingEvent::Failed("no frames".into()))
    );
}

#[test]
fn uploaded_recordings_are_removed_and_failed_uploads_kept() {
    assert_eq!(
        conclude(Ok(()), UploadOutcome::Whole(Ok("https://v".into())), RecordingFormat::Mp4, "/tmp/r.mp4", "/tmp/r.mp4", None),
        (Cleanup::RemoveFile("/tmp/r.mp4".into()), RecordingEvent::Finished { path: "/tmp/r.mp4".into(), viewer_url: Some("https://v".into()) })
    );
    assert_eq!(
        conclude(Ok(()), UploadOutcome::Whole(Ok("https://v".into())), RecordingFormat::Hls, "/tmp/r.hls", "/tmp/r.hls", None),
        (Cleanup::RemoveFolder("/tmp/r.hls".into()), RecordingEvent::Finished { path: "/tmp/r.hls".into(), viewer_url: Some("https://v".into()) })
    );
    assert_eq!(
        conclude(Ok(()), UploadOutcome::Incremental(Ok(None)), RecordingFormat::Hls, "/tmp/r.hls", "/tmp/r.hls", None),
        (Cleanup::RemoveFolder("/tmp/r.hls".into()), RecordingEvent::Finished { path: "/tmp/r.hls".into(), viewer_url: None })
    );
    assert_eq!(
        conclude(Ok(()), UploadOutcome::Incremental(Err("timeout".into())), RecordingFormat::Hls, "/tmp/r.hls", "/tmp/r.hls", None),
        (Cleanup::Keep, RecordingEvent::Failed("timeout. The recording was kept at /tmp/r.hls".into()))
    );
    assert_eq!(
        conclude(Ok(()), UploadOutcome::NotUploaded, RecordingFormat::BlipBundle, "/tmp/r.blip/inputs/screen.mp4", "/tmp/r.blip", Some("/tmp/r.blip".into())),
        (Cleanup::Keep, RecordingEvent::Finished { path: "/tmp/r.blip".into(), viewer_url: None })
    );
}

#[test]
fn at_most_three_files_are_sent_at_once() {
    let mut queue = UploadQueue::new();
    assert!(!queue.push());
    assert!(!queue.push());
    assert!(!queue.push());
    assert_eq!(queue.in_flight(), 3);
    assert!(queue.push());
    assert_eq!(queue.in_flight(), 3);
    queue.finished();
    assert_eq!(queue.in_flight(), 2);
    assert!(abandons_upload(&Ok(None)));
    assert!(abandons_upload(&Err("x".into())));
    assert!(!abandons_upload(&Ok(Some("https://v".into()))));
}

use blip::recording::{capture_process_id, excluded_windows, offered_display, window_display, writer_kind, WindowEntry, WriterKind};

#[test]
fn windows_are_recorded_on_their_display() {
    let windows = vec![(5, Some(1)), (6, None), (5, Some(2))];
    assert_eq!(window_display(5, &windows), Ok(1));
    assert_eq!(window_display(6, &windows), Err("the selected window is not on an available display".into()));
    assert_eq!(window_display(7, &windows), Err("the selected window is no longer available".into()));
    assert_eq!(offered_display(1, &[1, 2]), Ok(1));
    assert_eq!(offered_display(3, &[1, 2]), Err("the selected display is no longer available".into()));
}

#[test]
fn the_app_leaves_its_own_floating_windows_out() {
    let windows = vec![
        WindowEntry { id: 1, process_id: Some(42), layer: 3 },
        WindowEntry { id: 2, process_id: Some(42), layer: 0 },
        WindowEntry { id: 3, process_id: Some(7), layer: 3 },
        WindowEntry { id: 4, process_id: None, layer: 3 },
        WindowEntry { id: 5, process_id: Some(42), layer: -1 },
    ];
    assert_eq!(excluded_windows(&windows, 42), vec![1, 5]);
    assert_eq!(capture_process_id(42), Ok(42));
    assert_eq!(capture_process_id(u32::MAX), Err("process ID exceeds ScreenCaptureKit's range".into()));
}

#[test]
fn each_format_has_its_writer() {
    assert_eq!(writer_kind(RecordingFormat::Hls, true), WriterKind::Hls { announces: true });
    assert_eq!(writer_kind(RecordingFormat::Mp4, true), WriterKind::Mp4AtBitrate);
    assert_eq!(writer_kind(RecordingFormat::BlipBundle, false), WriterKind::BundleMp4);
}
