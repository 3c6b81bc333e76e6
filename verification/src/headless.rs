//! Headless recording: a display recorded for a fixed time and uploaded, with
//! the viewer URL as the result. The decisions of a run: which server, which
//! profile, which display, and what each recording event means.

use vstd::prelude::*;

use crate::capture_args::{headless_recording_format, CaptureArgs, CaptureArgsView, HeadlessFormat};
use crate::profiles::{
    validate_spec, CompletionAction, ProfileView, RecordingFormat, RecordingProfile,
    RecordingTarget, TargetView,
};
use crate::recording::{EventView, RecordingEvent};
use crate::text::{decimal, decimal_spec, opt_text, owned};

verus! {

/// The server a headless run uploads to: `--server-url`, else the
/// `BLIP_SERVER_URL` environment variable.
pub open spec fn server_url_spec(arg: Option<Seq<char>>, env: Option<Seq<char>>) -> Result<Seq<char>, Seq<char>> {
    match arg {
        Some(u) => Ok(u),
        None => match env {
            Some(u) => Ok(u),
            None => Err("--server-url or the BLIP_SERVER_URL environment variable is required"@),
        },
    }
}

/// The profile a headless run records with.
pub open spec fn headless_profile_spec(server_url: Seq<char>, format: HeadlessFormat) -> ProfileView {
    ProfileView {
        id: "headless"@,
        name: "Headless test"@,
        target: TargetView::Remote(server_url),
        format: headless_recording_format(format),
        completion_action: CompletionAction::NoAction,
    }
}

/// The profile of a headless run for `args`, with `env` the value of
/// `BLIP_SERVER_URL`: the server must be given and the profile must validate.
pub open spec fn headless_setup_spec(args: CaptureArgsView, env: Option<Seq<char>>) -> Result<ProfileView, Seq<char>> {
    match server_url_spec(args.server_url, env) {
        Err(e) => Err(e),
        Ok(u) => {
            let p = headless_profile_spec(u, args.format);
            match validate_spec(p) {
                Err(e) => Err(e),
                Ok(()) => Ok(p),
            }
        },
    }
}

/// The recording profile of a headless run, or why it cannot run.
pub fn headless_profile(args: &CaptureArgs, env: Option<String>) -> (r: Result<RecordingProfile, String>)
    ensures
        match headless_setup_spec(args@, opt_text(env)) {
            Ok(p) => r matches Ok(q) && q@ == p,
            Err(e) => r matches Err(m) && m@ == e,
        },
{
    let server_url = match &args.server_url {
        Some(u) => u.clone(),
        None => match env {
            Some(u) => u,
            None => return Err(owned("--server-url or the BLIP_SERVER_URL environment variable is required")),
        },
    };
    let profile = RecordingProfile {
        id: owned("headless"),
        name: owned("Headless test"),
        target: RecordingTarget::Remote { server_url },
        format: RecordingFormat::from(args.format),
        completion_action: CompletionAction::NoAction,
    };
    match profile.validate() {
        Err(e) => Err(e),
        Ok(()) => Ok(profile),
    }
}

/// The display a headless run records: the requested one, if offered, else
/// the main display.
pub open spec fn display_choice(requested: Option<u32>, displays: Seq<u32>, main_display: Option<u32>) -> Result<u32, Seq<char>> {
    match requested {
        Some(id) => if displays.contains(id) {
            Ok(id)
        } else {
            Err("display "@ + decimal_spec(id as nat) + " is not available"@)
        },
        None => match main_display {
            Some(id) => Ok(id),
            None => Err("the main display is not available"@),
        },
    }
}

/// Picks the display a headless run records among the offered `displays`.
pub fn choose_display(requested: Option<u32>, displays: &[u32], main_display: Option<u32>) -> (r: Result<u32, String>)
    ensures
        match display_choice(requested, displays@, main_display) {
            Ok(id) => r == Ok::<u32, String>(id),
            Err(e) => r matches Err(m) && m@ == e,
        },
{
    match requested {
        Some(id) => if crate::commands::holds(displays, id) {
            Ok(id)
        } else {
            let mut m = owned("display ");
            let d = decimal(id as u128);
            m.append(d.as_str());
            m.append(" is not available");
            Err(m)
        },
        None => match main_display {
            Some(id) => Ok(id),
            None => Err(owned("the main display is not available")),
        },
    }
}

/// The line printed when a headless recording begins.
pub open spec fn banner_spec(display: u32, seconds: u64, path: Seq<char>) -> Seq<char> {
    "blip-capture: recording display "@ + decimal_spec(display as nat) + " for "@ + decimal_spec(
        seconds as nat,
    ) + " seconds to "@ + path
}

/// The line printed when a headless recording of `display` for `seconds`
/// to `path` begins.
pub fn banner(display: u32, seconds: u64, path: &str) -> (r: String)
    ensures
        r@ == banner_spec(display, seconds, path@),
{
    let mut r = owned("blip-capture: recording display ");
    let d = decimal(display as u128);
    r.append(d.as_str());
    r.append(" for ");
    let s = decimal(seconds as u128);
    r.append(s.as_str());
    r.append(" seconds to ");
    r.append(path);
    r
}

/// What a headless run does next.
#[derive(Debug, PartialEq, Eq)]
pub enum HeadlessStep {
    /// Start the timer that stops the recording after the requested time.
    StartTimer,
    /// Keep waiting.
    Wait,
    /// The run is over: the viewer URL, or why there is none. `stop` asks
    /// the recording to stop first.
    Done { result: Result<String, String>, stop: bool },
}

/// The characters of a [`HeadlessStep`].
pub enum StepView {
    StartTimer,
    Wait,
    Done { result: Result<Seq<char>, Seq<char>>, stop: bool },
}

impl View for HeadlessStep {
    type V = StepView;

    open spec fn view(&self) -> StepView {
        match self {
            HeadlessStep::StartTimer => StepView::StartTimer,
            HeadlessStep::Wait => StepView::Wait,
            HeadlessStep::Done { result, stop } => StepView::Done {
                result: match result {
                    Ok(u) => Ok(u@),
                    Err(e) => Err(e@),
                },
                stop: *stop,
            },
        }
    }
}

/// The step for a recording event, given whether the recording had started,
/// and whether it has started after it.
pub open spec fn step_spec(started: bool, e: EventView) -> (bool, StepView) {
    match e {
        EventView::Started => if started {
            (true, StepView::Wait)
        } else {
            (true, StepView::StartTimer)
        },
        EventView::Uploading => (started, StepView::Wait),
        EventView::Finished { viewer_url, .. } => (
            started,
            StepView::Done {
                result: match viewer_url {
                    Some(u) => Ok(u),
                    None => Err("headless recording finished without a viewer URL"@),
                },
                stop: false,
            },
        ),
        EventView::Failed(m) => (started, StepView::Done { result: Err(m), stop: true }),
    }
}

/// The state of a headless run: whether the recording has started.
#[derive(Clone, Copy, Debug, PartialEq, Eq, Structural)]
pub struct HeadlessRun {
    pub started: bool,
}

impl HeadlessRun {
    /// A run waiting for its recording to start.
    pub fn new() -> (r: Self)
        ensures
            !r.started,
    {
        HeadlessRun { started: false }
    }

    /// Takes in a recording event. The timer is started once, on the first
    /// `Started`; a finished recording gives its viewer URL; a failure stops
    /// the recording and ends the run with its message.
    pub fn step(&mut self, event: RecordingEvent) -> (r: HeadlessStep)
        ensures
            (final(self).started, r@) == step_spec(old(self).started, event@),
    {
        match event {
            RecordingEvent::Started => if self.started {
                HeadlessStep::Wait
            } else {
                self.started = true;
                HeadlessStep::StartTimer
            },
            RecordingEvent::Uploading => HeadlessStep::Wait,
            RecordingEvent::Finished { viewer_url, .. } => HeadlessStep::Done {
                result: match viewer_url {
                    Some(u) => Ok(u),
                    None => Err(owned("headless recording finished without a viewer URL")),
                },
                stop: false,
            },
            RecordingEvent::Failed(m) => HeadlessStep::Done { result: Err(m), stop: true },
        }
    }

    /// The result when the events end without a result.
    pub fn ended(&self) -> (r: String)
        ensures
            r@ == "recording stopped without a result"@,
    {
        owned("recording stopped without a result")
    }
}

/// The timer starts exactly once: after a first `Started`, another one waits.
pub proof fn law_timer_starts_once(started: bool)
    ensures
        step_spec(step_spec(started, EventView::Started).0, EventView::Started).1 is Wait,
        step_spec(false, EventView::Started).1 is StartTimer,
{
}


/// A headless run records in the format asked for with `--format`: MP4, the
/// default, or HLS; and it uploads to the server it was given.
pub proof fn law_headless_run_keeps_the_requested_format(args: CaptureArgsView, env: Option<Seq<char>>)
    ensures
        headless_setup_spec(args, env) matches Ok(p) ==> {
            &&& args.format == HeadlessFormat::Mp4 ==> p.format == RecordingFormat::Mp4
            &&& args.format == HeadlessFormat::Hls ==> p.format == RecordingFormat::Hls
            &&& p.target == TargetView::Remote(
                match args.server_url {
                    Some(u) => u,
                    None => env->Some_0,
                },
            )
            &&& p.completion_action == CompletionAction::NoAction
        },
{
}

} // verus!
