//! What `blip-cli` does for a command: which action runs, which capture
//! target is chosen, the lines it prints, and how a recording is stopped and
//! accounted for.

use vstd::prelude::*;

use crate::cli::{Cli, Command, CommandView, RecordArgs, ResourceCommand, StreamArgs};
use crate::naming::{field_char, sanitize};
use crate::text::{decimal, decimal_spec, opt_text, owned};

verus! {

/// The action a command line asks for.
#[derive(Clone, Debug, PartialEq, Eq)]
pub enum CliAction {
    ListDisplays,
    DisplayInfo(u32),
    ListWindows,
    WindowInfo(u32),
    Stream(StreamArgs),
    Record(RecordArgs),
}

/// The characters of a [`CliAction`].
pub enum ActionView {
    ListDisplays,
    DisplayInfo(u32),
    ListWindows,
    WindowInfo(u32),
    Stream(StreamArgs),
    Record(StreamArgs, Seq<char>),
}

impl View for CliAction {
    type V = ActionView;

    open spec fn view(&self) -> ActionView {
        match self {
            CliAction::ListDisplays => ActionView::ListDisplays,
            CliAction::DisplayInfo(id) => ActionView::DisplayInfo(*id),
            CliAction::ListWindows => ActionView::ListWindows,
            CliAction::WindowInfo(id) => ActionView::WindowInfo(*id),
            CliAction::Stream(a) => ActionView::Stream(*a),
            CliAction::Record(a) => ActionView::Record(a.capture, a.output@),
        }
    }
}

/// The action each command asks for.
pub open spec fn action_spec(c: CommandView) -> ActionView {
    match c {
        CommandView::Displays(ResourceCommand::List) => ActionView::ListDisplays,
        CommandView::Displays(ResourceCommand::Info { id }) => ActionView::DisplayInfo(id),
        CommandView::Windows(ResourceCommand::List) => ActionView::ListWindows,
        CommandView::Windows(ResourceCommand::Info { id }) => ActionView::WindowInfo(id),
        CommandView::Stream(a) => ActionView::Stream(a),
        CommandView::Record(a, output) => ActionView::Record(a, output),
    }
}

/// Dispatches a parsed command line to the action it asks for.
pub fn run(cli: Cli) -> (r: CliAction)
    ensures
        r@ == action_spec(cli@),
{
    match cli.command {
        Command::Displays { command: ResourceCommand::List } => CliAction::ListDisplays,
        Command::Displays { command: ResourceCommand::Info { id } } => CliAction::DisplayInfo(id),
        Command::Windows { command: ResourceCommand::List } => CliAction::ListWindows,
        Command::Windows { command: ResourceCommand::Info { id } } => CliAction::WindowInfo(id),
        Command::Stream(args) => CliAction::Stream(args),
        Command::Record(args) => CliAction::Record(args),
    }
}

/// A capture target picked from what the system offers.
#[derive(Clone, Copy, Debug, PartialEq, Eq, Structural)]
pub enum TargetChoice {
    Display(u32),
    Window(u32),
}

/// Why no capture target could be picked.
#[derive(Clone, Debug, PartialEq, Eq)]
pub enum TargetError {
    /// The requested display or window is not offered; the message says which.
    Unavailable(String),
    /// No display was requested and there is no main display.
    NoDisplay,
}

/// The characters of a [`TargetError`].
pub enum TargetErrorView {
    Unavailable(Seq<char>),
    NoDisplay,
}

/// The characters of a target choice's outcome.
pub open spec fn target_result_view(r: Result<(TargetChoice, String), TargetError>) -> Result<(TargetChoice, Seq<char>), TargetErrorView> {
    match r {
        Ok((t, d)) => Ok((t, d@)),
        Err(TargetError::Unavailable(m)) => Err(TargetErrorView::Unavailable(m@)),
        Err(TargetError::NoDisplay) => Err(TargetErrorView::NoDisplay),
    }
}

/// The capture target for `args`, with the description printed for it: the
/// requested display, else the requested window, else the main display.
pub open spec fn select_target_spec(
    displays: Seq<u32>,
    windows: Seq<u32>,
    main_display: Option<u32>,
    args: StreamArgs,
) -> Result<(TargetChoice, Seq<char>), TargetErrorView> {
    match args.display {
        Some(id) => if displays.contains(id) {
            Ok((TargetChoice::Display(id), "display "@ + decimal_spec(id as nat)))
        } else {
            Err(TargetErrorView::Unavailable("display "@ + decimal_spec(id as nat) + " is not available"@))
        },
        None => match args.window {
            Some(id) => if windows.contains(id) {
                Ok((TargetChoice::Window(id), "window "@ + decimal_spec(id as nat)))
            } else {
                Err(TargetErrorView::Unavailable("window "@ + decimal_spec(id as nat) + " is not available"@))
            },
            None => match main_display {
                Some(id) => Ok((TargetChoice::Display(id), "main display "@ + decimal_spec(id as nat))),
                None => Err(TargetErrorView::NoDisplay),
            },
        },
    }
}

/// Whether `ids` holds `id`.
pub fn holds(ids: &[u32], id: u32) -> (r: bool)
    ensures
        r == ids@.contains(id),
{
    let mut i: usize = 0;
    while i < ids.len()
        invariant
            i <= ids@.len(),
            forall|j: int| 0 <= j < i ==> ids@[j] != id,
        decreases ids@.len() - i,
    {
        if ids[i] == id {
            return true;
        }
        i = i + 1;
    }
    false
}

/// `prefix`, the decimal `id`, then `suffix`.
fn framed(prefix: &str, id: u32, suffix: &str) -> (r: String)
    ensures
        r@ == prefix@ + decimal_spec(id as nat) + suffix@,
{
    let mut r = owned(prefix);
    let d = decimal(id as u128);
    r.append(d.as_str());
    r.append(suffix);
    r
}

/// Picks the capture target for `args` among the offered `displays` and
/// `windows` (by identifier) and the main display.
pub fn select_target(displays: &[u32], windows: &[u32], main_display: Option<u32>, args: &StreamArgs) -> (r: Result<(TargetChoice, String), TargetError>)
    ensures
        target_result_view(r) == select_target_spec(displays@, windows@, main_display, *args),
{
    match args.display {
        Some(id) => if holds(displays, id) {
            Ok((TargetChoice::Display(id), crate::naming::numbered("display ", id)))
        } else {
            Err(TargetError::Unavailable(framed("display ", id, " is not available")))
        },
        None => match args.window {
            Some(id) => if holds(windows, id) {
                Ok((TargetChoice::Window(id), crate::naming::numbered("window ", id)))
            } else {
                Err(TargetError::Unavailable(framed("window ", id, " is not available")))
            },
            None => match main_display {
                Some(id) => Ok((TargetChoice::Display(id), crate::naming::numbered("main display ", id))),
                None => Err(TargetError::NoDisplay),
            },
        },
    }
}

/// `<width>x<height>`.
pub open spec fn size_text(size: (usize, usize)) -> Seq<char> {
    decimal_spec(size.0 as nat) + "x"@ + decimal_spec(size.1 as nat)
}

fn size_string(size: (usize, usize)) -> (r: String)
    ensures
        r@ == size_text(size),
{
    let mut r = decimal(size.0 as u128);
    r.append("x");
    let h = decimal(size.1 as u128);
    r.append(h.as_str());
    r
}

/// The size a display is captured at: what the capture filter reports, else
/// its physical size.
pub fn capture_dimensions(reported: Option<(usize, usize)>, physical: (usize, usize)) -> (r: (usize, usize))
    ensures
        r == match reported {
            Some(s) => s,
            None => physical,
        },
{
    match reported {
        Some(s) => s,
        None => physical,
    }
}

/// A line of `displays list`: identifier, capture size, and `main` for the
/// main display, separated by tabs.
pub open spec fn display_line_spec(id: u32, size: (usize, usize), main_display: Option<u32>) -> Seq<char> {
    decimal_spec(id as nat) + "\t"@ + size_text(size) + "\t"@ + if main_display == Some(id) {
        "main"@
    } else {
        Seq::empty()
    }
}

/// The `displays list` line of display `id` captured at `size`.
pub fn display_line(id: u32, size: (usize, usize), main_display: Option<u32>) -> (r: String)
    ensures
        r@ == display_line_spec(id, size, main_display),
{
    let mut r = decimal(id as u128);
    r.append("\t");
    let s = size_string(size);
    r.append(s.as_str());
    r.append("\t");
    let is_main = match main_display {
        Some(m) => m == id,
        None => false,
    };
    if is_main {
        r.append("main");
    }
    r
}

/// A field of a listing line, with tabs and line breaks made spaces.
pub open spec fn field_text(s: Seq<char>) -> Seq<char> {
    s.map_values(|c: char| field_char(c))
}

/// A line of `windows list`: identifier, capture size (or `unknown`),
/// application (or `unknown`) and title, separated by tabs.
pub open spec fn window_line_spec(
    id: u32,
    size: Option<(usize, usize)>,
    application: Option<Seq<char>>,
    title: Option<Seq<char>>,
) -> Seq<char> {
    decimal_spec(id as nat) + "\t"@ + match size {
        Some(s) => size_text(s),
        None => "unknown"@,
    } + "\t"@ + field_text(
        match application {
            Some(a) => a,
            None => "unknown"@,
        },
    ) + "\t"@ + field_text(
        match title {
            Some(t) => t,
            None => Seq::empty(),
        },
    )
}

/// The `windows list` line of window `id`.
pub fn window_line(id: u32, size: Option<(usize, usize)>, application: Option<String>, title: Option<String>) -> (r: String)
    ensures
        r@ == window_line_spec(id, size, opt_text(application), opt_text(title)),
{
    let mut r = decimal(id as u128);
    r.append("\t");
    match size {
        Some(s) => {
            let t = size_string(s);
            r.append(t.as_str());
        },
        None => r.append("unknown"),
    }
    r.append("\t");
    let a = match application {
        Some(a) => sanitize(a.as_str()),
        None => sanitize("unknown"),
    };
    r.append(a.as_str());
    r.append("\t");
    let t = match title {
        Some(t) => sanitize(t.as_str()),
        None => String::new(),
    };
    proof {
        assert(Seq::<char>::empty().map_values(|c: char| field_char(c)) =~= Seq::<char>::empty());
    }
    r.append(t.as_str());
    r
}

/// The line printed for each streamed frame: its number and size.
pub open spec fn frame_line_spec(number: u64, width: usize, height: usize) -> Seq<char> {
    "frame "@ + decimal_spec(number as nat) + "\t"@ + size_text((width, height))
}

/// The line printed for frame `number` of `width`×`height` pixels.
pub fn frame_line(number: u64, width: usize, height: usize) -> (r: String)
    ensures
        r@ == frame_line_spec(number, width, height),
{
    let mut r = owned("frame ");
    let n = decimal(number as u128);
    r.append(n.as_str());
    r.append("\t");
    let s = size_string((width, height));
    r.append(s.as_str());
    r
}

/// Whether a key event is pressed, repeated or released.
#[derive(Clone, Copy, Debug, PartialEq, Eq, Structural)]
pub enum KeyKind {
    Press,
    Repeat,
    Release,
}

/// The key of a key event: a character, or another key.
#[derive(Clone, Copy, Debug, PartialEq, Eq, Structural)]
pub enum KeyCode {
    Char(char),
    Other,
}

/// A key event from the terminal: the key, what happened to it, and whether
/// Control was held.
#[derive(Clone, Copy, Debug, PartialEq, Eq, Structural)]
pub struct KeyPress {
    pub code: KeyCode,
    pub kind: KeyKind,
    pub control: bool,
}

impl KeyPress {
    /// A key pressed without Control.
    pub fn new(code: KeyCode) -> (r: Self)
        ensures
            r == (KeyPress { code, kind: KeyKind::Press, control: false }),
    {
        KeyPress { code, kind: KeyKind::Press, control: false }
    }
}

/// The keys that stop a recording: Space, or Control-C, when pressed.
pub open spec fn is_stop_key_spec(key: KeyPress) -> bool {
    key.kind == KeyKind::Press && (key.code == KeyCode::Char(' ') || (key.code == KeyCode::Char('c')
        && key.control))
}

/// Whether `key` stops a recording.
pub fn is_stop_key(key: KeyPress) -> (r: bool)
    ensures
        r == is_stop_key_spec(key),
{
    let stop_char = match key.code {
        KeyCode::Char(c) => c == ' ' || (c == 'c' && key.control),
        KeyCode::Other => false,
    };
    key.kind == KeyKind::Press && stop_char
}

/// The hint printed while recording: Space works only in a terminal.
pub fn stop_hint(keys_read: bool) -> (r: &'static str)
    ensures
        r@ == if keys_read { "press Space to stop"@ } else { "press Ctrl-C to stop"@ },
{
    if keys_read {
        "press Space to stop"
    } else {
        "press Ctrl-C to stop"
    }
}

/// Why a recording ended.
#[derive(Clone, Debug, PartialEq, Eq)]
pub enum RecordEnd {
    Interrupt,
    CaptureError(String),
    WriterError,
}

/// Whether the capture must be stopped when a recording ends: not when the
/// capture itself failed.
pub fn stops_capture(end: &RecordEnd) -> (r: bool)
    ensures
        r == !(end is CaptureError),
{
    match end {
        RecordEnd::CaptureError(_) => false,
        _ => true,
    }
}

/// The frames a recording wrote and the frames it dropped because the
/// writer was not ready.
#[derive(Clone, Copy, Debug, PartialEq, Eq, Structural)]
pub struct FrameTally {
    pub appended: u64,
    pub backpressure_drops: u64,
}

/// `n + 1`, staying at the largest `u64`.
pub open spec fn saturating_next(n: u64) -> u64 {
    if n < u64::MAX { (n + 1) as u64 } else { n }
}

impl FrameTally {
    /// No frames yet.
    pub fn new() -> (r: Self)
        ensures
            r == (FrameTally { appended: 0, backpressure_drops: 0 }),
    {
        FrameTally { appended: 0, backpressure_drops: 0 }
    }

    /// Counts one frame: written when `accepted`, else dropped. Counts stop at
    /// the largest `u64`.
    pub fn count(&mut self, accepted: bool)
        ensures
            accepted ==> *final(self) == (FrameTally { appended: saturating_next(old(self).appended), ..*old(self) }),
            !accepted ==> *final(self) == (FrameTally {
                backpressure_drops: saturating_next(old(self).backpressure_drops),
                ..*old(self)
            }),
    {
        if accepted {
            self.appended = self.appended.saturating_add(1);
        } else {
            self.backpressure_drops = self.backpressure_drops.saturating_add(1);
        }
    }
}

/// Why a recording did not complete.
#[derive(Clone, Debug, PartialEq, Eq)]
pub enum RecordFailure {
    /// Stopping the capture failed.
    Stop(String),
    /// The capture failed.
    Capture(String),
    /// Writing the file failed.
    Writer(String),
}

/// The outcome of a recording from its parts, checked in order: stopping the
/// capture, the capture itself, then the writer.
pub fn record_outcome(stop: Result<(), String>, end: RecordEnd, writer: Result<FrameTally, String>) -> (r: Result<FrameTally, RecordFailure>)
    ensures
        stop matches Err(e) ==> r == Err::<FrameTally, RecordFailure>(RecordFailure::Stop(e)),
        stop is Ok ==> (end matches RecordEnd::CaptureError(m) ==> r == Err::<FrameTally, RecordFailure>(RecordFailure::Capture(m))),
        stop is Ok && !(end is CaptureError) ==> r == match writer {
            Ok(t) => Ok::<FrameTally, RecordFailure>(t),
            Err(e) => Err(RecordFailure::Writer(e)),
        },
{
    match stop {
        Err(e) => return Err(RecordFailure::Stop(e)),
        Ok(()) => {},
    }
    match end {
        RecordEnd::CaptureError(m) => return Err(RecordFailure::Capture(m)),
        _ => {},
    }
    match writer {
        Ok(t) => Ok(t),
        Err(e) => Err(RecordFailure::Writer(e)),
    }
}

/// The summary printed after a recording.
pub open spec fn summary_spec(tally: FrameTally, output: Seq<char>, queue_drops: u64) -> Seq<char> {
    "wrote "@ + decimal_spec(tally.appended as nat) + " frames to "@ + output + " ("@ + decimal_spec(
        tally.backpressure_drops as nat,
    ) + " dropped for backpressure, "@ + decimal_spec(queue_drops as nat) + " dropped by queue)"@
}

/// The summary printed after a recording to `output`.
pub fn summary_line(tally: FrameTally, output: &str, queue_drops: u64) -> (r: String)
    ensures
        r@ == summary_spec(tally, output@, queue_drops),
{
    let mut r = owned("wrote ");
    let a = decimal(tally.appended as u128);
    r.append(a.as_str());
    r.append(" frames to ");
    r.append(output);
    r.append(" (");
    let b = decimal(tally.backpressure_drops as u128);
    r.append(b.as_str());
    r.append(" dropped for backpressure, ");
    let q = decimal(queue_drops as u128);
    r.append(q.as_str());
    r.append(" dropped by queue)");
    r
}

} // verus!
