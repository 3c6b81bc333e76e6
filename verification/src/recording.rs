//! Recording settings and the decisions around a recording: the MP4 bitrate
//! for a capture size and frame rate, whether and how the result is uploaded,
//! and what is reported and cleaned up when it ends.

use vstd::prelude::*;

use crate::profiles::RecordingFormat;
use crate::text::{join_path, join_path_spec, owned};

verus! {

/// The lowest MP4 bitrate, in bits per second.
pub const MIN_MP4_BITRATE: usize = 2_500_000;

/// The highest MP4 bitrate, in bits per second.
pub const MAX_MP4_BITRATE: usize = 8_000_000;

/// 864 times the unclamped bitrate: 1.5 Mbit/s, plus 1.5 Mbit/s per
/// 1920×1080 pixels, plus 0.5 Mbit/s per 30 frames per second (at most 60).
pub open spec fn bitrate_numerator(width: int, height: int, fps: int) -> int {
    1_296_000_000 + 625 * (width * height) + 14_400_000 * (if fps < 60 {
        fps
    } else {
        60
    })
}

/// The MP4 bitrate: the formula above clamped to 2.5–8 Mbit/s and rounded to
/// the nearest bit per second, halves rounded up.
pub open spec fn mp4_bitrate_spec(width: int, height: int, fps: int) -> int {
    let n = bitrate_numerator(width, height, fps);
    if n < 2_500_000 * 864 {
        2_500_000
    } else if n > 8_000_000 * 864 {
        8_000_000
    } else {
        (n + 432) / 864
    }
}

/// More pixels or a higher frame rate never lower the MP4 bitrate.
pub proof fn law_bitrate_grows_with_size_and_rate(w1: usize, h1: usize, f1: u32, w2: usize, h2: usize, f2: u32)
    requires
        w1 * h1 <= w2 * h2,
        f1 <= f2,
    ensures
        mp4_bitrate_spec(w1 as int, h1 as int, f1 as int) <= mp4_bitrate_spec(w2 as int, h2 as int, f2 as int),
{
    let n1 = bitrate_numerator(w1 as int, h1 as int, f1 as int);
    let n2 = bitrate_numerator(w2 as int, h2 as int, f2 as int);
    assert(n1 <= n2);
    if n1 >= 2_500_000 * 864 && n2 <= 8_000_000 * 864 {
        vstd::arithmetic::div_mod::lemma_div_is_ordered(n1 + 432, n2 + 432, 864);
    }
    if n1 >= 2_500_000 * 864 && n1 <= 8_000_000 * 864 {
        vstd::arithmetic::div_mod::lemma_div_is_ordered(n1 + 432, 8_000_000int * 864 + 432, 864);
        vstd::arithmetic::div_mod::lemma_div_is_ordered(2_500_000int * 864, n1 + 432, 864);
    }
    if n2 >= 2_500_000 * 864 && n2 <= 8_000_000 * 864 {
        vstd::arithmetic::div_mod::lemma_div_is_ordered(2_500_000int * 864, n2 + 432, 864);
    }
}

/// The bitrate an MP4 recording of `width`×`height` pixels at `fps` frames
/// per second is encoded with.
pub fn mp4_bitrate(width: usize, height: usize, fps: u32) -> (r: usize)
    ensures
        r as int == mp4_bitrate_spec(width as int, height as int, fps as int),
        MIN_MP4_BITRATE <= r <= MAX_MP4_BITRATE,
{
    let w = width as u128;
    let h = height as u128;
    assert(w * h <= 0xffff_ffff_ffff_ffffu128 * 0xffff_ffff_ffff_ffffu128) by (nonlinear_arith)
        requires
            w <= 0xffff_ffff_ffff_ffffu128,
            h <= 0xffff_ffff_ffff_ffffu128,
    ;
    let pixels = w * h;
    let f: u128 = if fps < 60 { fps as u128 } else { 60 };
    if pixels > 8_985_600 {
        assert(bitrate_numerator(width as int, height as int, fps as int) > 8_000_000 * 864);
        return MAX_MP4_BITRATE;
    }
    let n = 1_296_000_000 + 625 * pixels + 14_400_000 * f;
    assert(n == bitrate_numerator(width as int, height as int, fps as int));
    if n < 2_500_000 * 864 {
        MIN_MP4_BITRATE
    } else if n > 8_000_000 * 864 {
        MAX_MP4_BITRATE
    } else {
        ((n + 432) / 864) as usize
    }
}


/// What the recording thread reports to the app.
#[derive(Clone, Debug, PartialEq, Eq)]
pub enum RecordingEvent {
    Started,
    Uploading,
    Finished { path: String, viewer_url: Option<String> },
    Failed(String),
}

/// The characters of a [`RecordingEvent`].
pub enum EventView {
    Started,
    Uploading,
    Finished { path: Seq<char>, viewer_url: Option<Seq<char>> },
    Failed(Seq<char>),
}

impl View for RecordingEvent {
    type V = EventView;

    open spec fn view(&self) -> EventView {
        match self {
            RecordingEvent::Started => EventView::Started,
            RecordingEvent::Uploading => EventView::Uploading,
            RecordingEvent::Finished { path, viewer_url } => EventView::Finished {
                path: path@,
                viewer_url: match viewer_url {
                    Some(u) => Some(u@),
                    None => None,
                },
            },
            RecordingEvent::Failed(m) => EventView::Failed(m@),
        }
    }
}

/// What is removed from disk when a recording ends.
#[derive(Clone, Debug, PartialEq, Eq)]
pub enum Cleanup {
    Keep,
    RemoveFolder(String),
    RemoveFile(String),
}

/// The characters of a [`Cleanup`].
pub enum CleanupView {
    Keep,
    RemoveFolder(Seq<char>),
    RemoveFile(Seq<char>),
}

impl View for Cleanup {
    type V = CleanupView;

    open spec fn view(&self) -> CleanupView {
        match self {
            Cleanup::Keep => CleanupView::Keep,
            Cleanup::RemoveFolder(p) => CleanupView::RemoveFolder(p@),
            Cleanup::RemoveFile(p) => CleanupView::RemoveFile(p@),
        }
    }
}

/// How the upload of a finished recording went.
#[derive(Debug, PartialEq, Eq)]
pub enum UploadOutcome {
    /// There is no server: nothing is uploaded.
    NotUploaded,
    /// The HLS files were sent while recording; the server's viewer URL, if any.
    Incremental(Result<Option<String>, String>),
    /// The finished recording was uploaded afterwards; the viewer URL.
    Whole(Result<String, String>),
}

/// Whether HLS files are sent to the server while the recording runs.
pub open spec fn uploads_while_recording(format: RecordingFormat, has_server: bool) -> bool {
    format == RecordingFormat::Hls && has_server
}

/// Whether HLS files are sent to the server while the recording runs: only
/// for HLS recordings to a server.
pub fn sends_while_recording(format: RecordingFormat, has_server: bool) -> (r: bool)
    ensures
        r == uploads_while_recording(format, has_server),
{
    format == RecordingFormat::Hls && has_server
}

/// Whether the finished recording is uploaded as a whole: it succeeded, it
/// goes to a server, and it was not already sent while recording.
pub fn uploads_afterwards(recorded: bool, format: RecordingFormat, has_server: bool) -> (r: bool)
    ensures
        r == (recorded && has_server && !uploads_while_recording(format, has_server)),
{
    recorded && has_server && !sends_while_recording(format, has_server)
}

/// Whether the app is told that an upload begins: after a successful
/// recording that goes to a server.
pub fn announces_upload(recorded: bool, has_server: bool) -> (r: bool)
    ensures
        r == (recorded && has_server),
{
    recorded && has_server
}

/// The playlist an incremental upload is completed with, inside the output folder.
pub open spec fn playlist_path_spec(output: Seq<char>) -> Seq<char> {
    join_path_spec(output, "playlist.m3u8"@)
}

/// What an incremental upload is told when the recording ends: the playlist
/// to complete with (`Some`), or to abort (`None`) when the recording failed.
pub fn incremental_close(recorded: bool, output: &str) -> (r: Option<String>)
    ensures
        recorded ==> (r matches Some(p) && p@ == playlist_path_spec(output@)),
        !recorded ==> r is None,
{
    if recorded {
        Some(join_path(output, "playlist.m3u8"))
    } else {
        None
    }
}

/// The message when an upload fails after recording: the recording is kept.
pub open spec fn kept_message(error: Seq<char>, output: Seq<char>) -> Seq<char> {
    error + ". The recording was kept at "@ + output
}

/// What is cleaned up and reported when a recording ends.
pub open spec fn conclusion_spec(
    recording: Result<(), Seq<char>>,
    upload: UploadOutcome,
    format: RecordingFormat,
    output: Seq<char>,
    completed_path: Seq<char>,
    cleanup_on_failure: Option<Seq<char>>,
) -> (CleanupView, EventView) {
    match recording {
        Err(m) => (
            match cleanup_on_failure {
                Some(p) => CleanupView::RemoveFolder(p),
                None => CleanupView::Keep,
            },
            EventView::Failed(m),
        ),
        Ok(()) => match upload {
            UploadOutcome::NotUploaded => (
                CleanupView::Keep,
                EventView::Finished { path: completed_path, viewer_url: None },
            ),
            UploadOutcome::Incremental(Ok(url)) => (
                CleanupView::RemoveFolder(output),
                EventView::Finished {
                    path: completed_path,
                    viewer_url: match url {
                        Some(u) => Some(u@),
                        None => None,
                    },
                },
            ),
            UploadOutcome::Whole(Ok(url)) => (
                if format == RecordingFormat::Hls {
                    CleanupView::RemoveFolder(output)
                } else {
                    CleanupView::RemoveFile(output)
                },
                EventView::Finished { path: completed_path, viewer_url: Some(url@) },
            ),
            UploadOutcome::Incremental(Err(e)) => (CleanupView::Keep, EventView::Failed(kept_message(e@, output))),
            UploadOutcome::Whole(Err(e)) => (CleanupView::Keep, EventView::Failed(kept_message(e@, output))),
        },
    }
}

fn kept(error: &str, output: &str) -> (r: String)
    ensures
        r@ == kept_message(error@, output@),
{
    let mut r = owned(error);
    r.append(". The recording was kept at ");
    r.append(output);
    r
}

/// Decides what is cleaned up and reported when a recording ends. A failed
/// recording removes the folder it was writing, if it made one; an uploaded
/// recording is removed from disk; a failed upload keeps it and says where.
pub fn conclude(
    recording: Result<(), String>,
    upload: UploadOutcome,
    format: RecordingFormat,
    output: &str,
    completed_path: &str,
    cleanup_on_failure: Option<String>,
) -> (r: (Cleanup, RecordingEvent))
    ensures
        (r.0@, r.1@) == conclusion_spec(
            match recording {
                Ok(()) => Ok(()),
                Err(m) => Err(m@),
            },
            upload,
            format,
            output@,
            completed_path@,
            match cleanup_on_failure {
                Some(p) => Some(p@),
                None => None,
            },
        ),
{
    match recording {
        Err(m) => {
            let cleanup = match cleanup_on_failure {
                Some(p) => Cleanup::RemoveFolder(p),
                None => Cleanup::Keep,
            };
            (cleanup, RecordingEvent::Failed(m))
        },
        Ok(()) => match upload {
            UploadOutcome::NotUploaded => (
                Cleanup::Keep,
                RecordingEvent::Finished { path: owned(completed_path), viewer_url: None },
            ),
            UploadOutcome::Incremental(Ok(url)) => (
                Cleanup::RemoveFolder(owned(output)),
                RecordingEvent::Finished { path: owned(completed_path), viewer_url: url },
            ),
            UploadOutcome::Whole(Ok(url)) => {
                let cleanup = if format == RecordingFormat::Hls {
                    Cleanup::RemoveFolder(owned(output))
                } else {
                    Cleanup::RemoveFile(owned(output))
                };
                (cleanup, RecordingEvent::Finished { path: owned(completed_path), viewer_url: Some(url) })
            },
            UploadOutcome::Incremental(Err(e)) => (Cleanup::Keep, RecordingEvent::Failed(kept(e.as_str(), output))),
            UploadOutcome::Whole(Err(e)) => (Cleanup::Keep, RecordingEvent::Failed(kept(e.as_str(), output))),
        },
    }
}

/// The most HLS files sent at once.
pub const MAX_CONCURRENT_HLS_UPLOADS: usize = 3;

/// The HLS files being sent at once while recording.
pub struct UploadQueue {
    in_flight: usize,
}

impl UploadQueue {
    /// At most [`MAX_CONCURRENT_HLS_UPLOADS`] files are in flight.
    #[verifier::type_invariant]
    spec fn bounded(self) -> bool {
        self.in_flight <= MAX_CONCURRENT_HLS_UPLOADS
    }

    /// The number of files being sent.
    pub closed spec fn count(self) -> nat {
        self.in_flight as nat
    }

    /// Nothing in flight.
    pub fn new() -> (r: Self)
        ensures
            r.count() == 0,
    {
        UploadQueue { in_flight: 0 }
    }

    /// The number of files being sent.
    pub fn in_flight(&self) -> (r: usize)
        ensures
            r == self.count(),
            r <= MAX_CONCURRENT_HLS_UPLOADS,
    {
        proof { use_type_invariant(self); }
        self.in_flight
    }

    /// A new file is to be sent. Returns whether one sending must finish
    /// first, which is when the limit is reached; the new file is then in flight.
    pub fn push(&mut self) -> (wait_first: bool)
        ensures
            wait_first == (old(self).count() == MAX_CONCURRENT_HLS_UPLOADS),
            final(self).count() == if wait_first { old(self).count() } else { old(self).count() + 1 },
            final(self).count() <= MAX_CONCURRENT_HLS_UPLOADS,
    {
        proof { use_type_invariant(&*self); }
        if self.in_flight == MAX_CONCURRENT_HLS_UPLOADS {
            true
        } else {
            self.in_flight = self.in_flight + 1;
            false
        }
    }

    /// One sending finished.
    pub fn finished(&mut self)
        ensures
            final(self).count() == if old(self).count() > 0 { old(self).count() - 1 } else { 0 },
    {
        proof { use_type_invariant(&*self); }
        if self.in_flight > 0 {
            self.in_flight = self.in_flight - 1;
        }
    }
}

/// Whether an incremental upload is abandoned on the server when it ends: it
/// is, unless it completed with a viewer URL.
pub fn abandons_upload(result: &Result<Option<String>, String>) -> (r: bool)
    ensures
        r == !(result matches Ok(Some(_))),
{
    match result {
        Ok(Some(_)) => false,
        _ => true,
    }
}


/// The file writer a recording uses.
#[derive(Clone, Copy, Debug, PartialEq, Eq, Structural)]
pub enum WriterKind {
    /// HLS segments; `announces` when each finished file is handed to an
    /// upload running alongside.
    Hls { announces: bool },
    /// An MP4 file at the bitrate [`mp4_bitrate`] gives.
    Mp4AtBitrate,
    /// An MP4 file at the writer's own bitrate, inside a Blip Bundle.
    BundleMp4,
}

/// The writer for a recording in `format`; `incremental` when its files are
/// uploaded while recording.
pub fn writer_kind(format: RecordingFormat, incremental: bool) -> (r: WriterKind)
    ensures
        r == match format {
            RecordingFormat::Hls => WriterKind::Hls { announces: incremental },
            RecordingFormat::Mp4 => WriterKind::Mp4AtBitrate,
            RecordingFormat::BlipBundle => WriterKind::BundleMp4,
        },
{
    match format {
        RecordingFormat::Hls => WriterKind::Hls { announces: incremental },
        RecordingFormat::Mp4 => WriterKind::Mp4AtBitrate,
        RecordingFormat::BlipBundle => WriterKind::BundleMp4,
    }
}

/// The frame rate recordings are captured and written at.
pub const CAPTURE_FPS: u32 = 60;

/// The length of an HLS segment, in seconds.
pub const HLS_SEGMENT_SECONDS: u64 = 2;


/// The display a window is recorded on, from the offered windows given as
/// identifier and display.
pub open spec fn window_display_spec(window_id: u32, windows: Seq<(u32, Option<u32>)>) -> Result<u32, Seq<char>>
    decreases windows.len(),
{
    if windows.len() == 0 {
        Err("the selected window is no longer available"@)
    } else if windows[0].0 == window_id {
        match windows[0].1 {
            Some(d) => Ok(d),
            None => Err("the selected window is not on an available display"@),
        }
    } else {
        window_display_spec(window_id, windows.drop_first())
    }
}

/// The display the first offered window `window_id` is on.
pub fn window_display(window_id: u32, windows: &Vec<(u32, Option<u32>)>) -> (r: Result<u32, String>)
    ensures
        match window_display_spec(window_id, windows@) {
            Ok(d) => r == Ok::<u32, String>(d),
            Err(e) => r matches Err(m) && m@ == e,
        },
{
    let mut i: usize = 0;
    assert(windows@.skip(0) =~= windows@);
    while i < windows.len()
        invariant
            i <= windows@.len(),
            window_display_spec(window_id, windows@) == window_display_spec(window_id, windows@.skip(i as int)),
        decreases windows@.len() - i,
    {
        assert(windows@.skip(i as int)[0] == windows@[i as int]);
        let (id, display) = windows[i];
        if id == window_id {
            return match display {
                Some(d) => Ok(d),
                None => Err(owned("the selected window is not on an available display")),
            };
        }
        assert(windows@.skip(i as int).drop_first() =~= windows@.skip(i + 1));
        i = i + 1;
    }
    Err(owned("the selected window is no longer available"))
}

/// Checks that the display `display_id` a recording needs is still offered.
pub fn offered_display(display_id: u32, displays: &[u32]) -> (r: Result<u32, String>)
    ensures
        displays@.contains(display_id) ==> r == Ok::<u32, String>(display_id),
        !displays@.contains(display_id) ==> (r matches Err(m) && m@ == "the selected display is no longer available"@),
{
    if crate::commands::holds(displays, display_id) {
        Ok(display_id)
    } else {
        Err(owned("the selected display is no longer available"))
    }
}

/// The process identifier in the form the capture framework takes.
pub fn capture_process_id(pid: u32) -> (r: Result<i32, String>)
    ensures
        pid <= i32::MAX ==> r == Ok::<i32, String>(pid as i32),
        pid > i32::MAX ==> (r matches Err(m) && m@ == "process ID exceeds ScreenCaptureKit's range"@),
{
    if pid <= 0x7fff_ffff {
        Ok(pid as i32)
    } else {
        Err(owned("process ID exceeds ScreenCaptureKit's range"))
    }
}

/// A window as the capture filter sees it: its identifier, its
/// application's process, if known, and its layer.
#[derive(Clone, Copy, Debug, PartialEq, Eq, Structural)]
pub struct WindowEntry {
    pub id: u32,
    pub process_id: Option<i32>,
    pub layer: i64,
}

/// Whether a window is part of this app's own interface, which recordings
/// leave out: it belongs to process `own` and floats above normal windows.
pub open spec fn is_own_interface(w: WindowEntry, own: i32) -> bool {
    w.process_id == Some(own) && w.layer != 0
}

/// The identifiers of the windows that recordings leave out, in order.
pub fn excluded_windows(windows: &Vec<WindowEntry>, own: i32) -> (r: Vec<u32>)
    ensures
        r@ == windows@.filter(|w: WindowEntry| is_own_interface(w, own)).map_values(|w: WindowEntry| w.id),
{
    let mut out: Vec<u32> = Vec::new();
    let mut i: usize = 0;
    while i < windows.len()
        invariant
            i <= windows@.len(),
            out@ == windows@.take(i as int).filter(|w: WindowEntry| is_own_interface(w, own)).map_values(
                |w: WindowEntry| w.id,
            ),
        decreases windows@.len() - i,
    {
        let w = windows[i];
        proof {
            windows@.take(i as int).lemma_filter_push(w, |w: WindowEntry| is_own_interface(w, own));
            assert(windows@.take(i as int).push(w) =~= windows@.take(i + 1));
        }
        let own_window = match w.process_id {
            Some(p) => p == own && w.layer != 0,
            None => false,
        };
        if own_window {
            let ghost before = windows@.take(i as int).filter(|w: WindowEntry| is_own_interface(w, own));
            out.push(w.id);
            assert(before.push(w).map_values(|w: WindowEntry| w.id) =~= before.map_values(|w: WindowEntry| w.id).push(w.id));
        }
        i = i + 1;
    }
    assert(windows@.take(windows@.len() as int) =~= windows@);
    out
}


/// The MP4 bitrate is 1.5 Mbit/s, plus 1.5 Mbit/s per 1920×1080 pixels, plus
/// 0.5 Mbit/s per 30 frames per second (counting at most 60), rounded to the
/// nearest bit per second (halves up) when that lies within 2.5–8 Mbit/s, and
/// the nearer bound otherwise. With `D = 2073600 × 30`, `u` below is that
/// unclamped rate times `D`.
pub proof fn law_bitrate_follows_its_formula(width: usize, height: usize, fps: u32)
    ensures
        ({
            let d: int = 62_208_000int;
            let f: int = if fps < 60 { fps as int } else { 60 };
            let u: int = 1_500_000 * d + 1_500_000 * 30 * ((width as int) * (height as int)) + 500_000 * 2_073_600 * f;
            let r = mp4_bitrate_spec(width as int, height as int, fps as int);
            &&& u < 2_500_000 * d ==> r == 2_500_000
            &&& u > 8_000_000 * d ==> r == 8_000_000
            &&& 2_500_000 * d <= u <= 8_000_000 * d ==> r * d <= u + d / 2 < (r + 1) * d
        }),
{
    let d: int = 62_208_000int;
    let f: int = if fps < 60 { fps as int } else { 60 };
    let u: int = 1_500_000 * d + 1_500_000 * 30 * ((width as int) * (height as int)) + 500_000 * 2_073_600 * f;
    let n = bitrate_numerator(width as int, height as int, fps as int);
    let wh: int = (width as int) * (height as int);
    assert(n == 1_296_000_000 + 625 * wh + 14_400_000 * f);
    assert(u == 93_312_000_000_000 + 45_000_000 * wh + 1_036_800_000_000 * f);
    assert(u == 72_000 * n);
    let r = mp4_bitrate_spec(width as int, height as int, fps as int);
    if 2_500_000 * d <= u <= 8_000_000 * d {
        assert(r == (n + 432) / 864);
        assert(r * 864 <= n + 432 < (r + 1) * 864) by (nonlinear_arith)
            requires
                r == (n + 432) / 864,
                n >= 0,
        ;
        assert(r * d <= u + d / 2 < (r + 1) * d) by (nonlinear_arith)
            requires
                r * 864 <= n + 432 < (r + 1) * 864,
                u == 72_000 * n,
                d == 62_208_000,
        ;
    }
}

} // verus!
