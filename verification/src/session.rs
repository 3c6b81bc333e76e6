//! The capture toolbar's state machine: what is selected for recording, the
//! recording's progress, and what the app does when a recording ends.

use vstd::prelude::*;

use crate::profiles::{
    selected_index_spec, validate_spec, CompletionAction, ProfilesView, RecordingProfiles,
};
use crate::recording::{EventView, RecordingEvent};
use crate::text::{decimal_spec, opt_text, owned};
use crate::upload::path_extension_spec;

verus! {

/// What the toolbar records: a whole display, one window, or an area.
#[derive(Clone, Copy, Debug, PartialEq, Eq, Structural)]
pub enum Mode {
    Display,
    Window,
    Region,
}

/// Where a recording is.
#[derive(Clone, Copy, Debug, PartialEq, Eq, Structural)]
pub enum Status {
    Idle,
    Starting,
    Recording,
    Finalizing,
    Uploading,
}

/// What a recording captures. An area is recorded on the display
/// `display_id`; its bounds are kept by the caller that drew them.
#[derive(Clone, Copy, Debug, PartialEq, Eq, Structural)]
pub enum CaptureSpec {
    Display(u32),
    Window(u32),
    Region { display_id: u32 },
}

/// The toolbar's state.
#[derive(Clone, Debug)]
pub struct CaptureApp {
    pub status: Status,
    pub mode: Option<Mode>,
    pub selected_display: u32,
    pub selected_window: Option<u32>,
    pub region_display: Option<u32>,
    pub error: Option<String>,
    pub recording_completion_action: CompletionAction,
    pub open_recording_when_finished: bool,
}

/// The characters of the toolbar's state.
pub struct SessionView {
    pub status: Status,
    pub mode: Option<Mode>,
    pub selected_display: u32,
    pub selected_window: Option<u32>,
    pub region_display: Option<u32>,
    pub error: Option<Seq<char>>,
    pub recording_completion_action: CompletionAction,
    pub open_recording_when_finished: bool,
}

impl View for CaptureApp {
    type V = SessionView;

    open spec fn view(&self) -> SessionView {
        SessionView {
            status: self.status,
            mode: self.mode,
            selected_display: self.selected_display,
            selected_window: self.selected_window,
            region_display: self.region_display,
            error: opt_text(self.error),
            recording_completion_action: self.recording_completion_action,
            open_recording_when_finished: self.open_recording_when_finished,
        }
    }
}

/// What the selection asks for: the capture, or the hint shown instead.
pub open spec fn capture_choice(s: SessionView) -> Result<CaptureSpec, Seq<char>> {
    match s.mode {
        Some(Mode::Display) => if s.selected_display != 0 {
            Ok(CaptureSpec::Display(s.selected_display))
        } else {
            Err("Select a display first"@)
        },
        Some(Mode::Window) => match s.selected_window {
            Some(id) => Ok(CaptureSpec::Window(id)),
            None => Err("Select a window first"@),
        },
        Some(Mode::Region) => match s.region_display {
            Some(d) => Ok(CaptureSpec::Region { display_id: d }),
            None => Err("Drag to select a recording area"@),
        },
        None => Err("Choose a capture mode"@),
    }
}

/// What starting a recording checks, in order: the selection, that a profile
/// exists, and that the selected profile is valid. On success, the capture
/// and the index of the profile it records with.
pub open spec fn recording_plan(s: SessionView, profiles: ProfilesView) -> Result<(CaptureSpec, int), Seq<char>> {
    match capture_choice(s) {
        Err(e) => Err(e),
        Ok(spec) => if profiles.profiles.len() == 0 {
            Err("Create a recording profile first"@)
        } else {
            let i = selected_index_spec(profiles);
            match validate_spec(profiles.profiles[i]) {
                Err(e) => Err(e),
                Ok(()) => Ok((spec, i)),
            }
        },
    }
}

/// `s` with only its error replaced.
pub open spec fn with_error(s: SessionView, error: Option<Seq<char>>) -> SessionView {
    SessionView {
        status: s.status,
        mode: s.mode,
        selected_display: s.selected_display,
        selected_window: s.selected_window,
        region_display: s.region_display,
        error,
        recording_completion_action: s.recording_completion_action,
        open_recording_when_finished: s.open_recording_when_finished,
    }
}

/// `s` with only its status replaced.
pub open spec fn with_status(s: SessionView, status: Status) -> SessionView {
    SessionView {
        status,
        mode: s.mode,
        selected_display: s.selected_display,
        selected_window: s.selected_window,
        region_display: s.region_display,
        error: s.error,
        recording_completion_action: s.recording_completion_action,
        open_recording_when_finished: s.open_recording_when_finished,
    }
}

/// What the app does when a recording has finished.
#[derive(Clone, Debug, PartialEq, Eq)]
pub enum FinishReaction {
    /// The viewer URL goes to the clipboard, and is opened when `open` holds.
    ShareUrl { url: String, open: bool },
    /// The Blip Bundle is opened in the editor.
    OpenBundle(String),
    /// The recording's file goes to the clipboard.
    CopyPath(String),
    /// The recording is shown in the Finder.
    RevealPath(String),
    /// Nothing more.
    Nothing,
}

/// The characters of a [`FinishReaction`].
pub enum ReactionView {
    ShareUrl { url: Seq<char>, open: bool },
    OpenBundle(Seq<char>),
    CopyPath(Seq<char>),
    RevealPath(Seq<char>),
    Nothing,
}

impl View for FinishReaction {
    type V = ReactionView;

    open spec fn view(&self) -> ReactionView {
        match self {
            FinishReaction::ShareUrl { url, open } => ReactionView::ShareUrl { url: url@, open: *open },
            FinishReaction::OpenBundle(p) => ReactionView::OpenBundle(p@),
            FinishReaction::CopyPath(p) => ReactionView::CopyPath(p@),
            FinishReaction::RevealPath(p) => ReactionView::RevealPath(p@),
            FinishReaction::Nothing => ReactionView::Nothing,
        }
    }
}

/// What the app does with a finished recording at `path`: share the viewer
/// URL if there is one; else open a Blip Bundle; else follow the profile's
/// completion action (showing the file only when recordings are opened).
pub open spec fn finish_reaction(s: SessionView, path: Seq<char>, viewer_url: Option<Seq<char>>) -> ReactionView {
    match viewer_url {
        Some(url) => ReactionView::ShareUrl { url, open: s.open_recording_when_finished },
        None => if path_extension_spec(path) == Some("blip"@) {
            ReactionView::OpenBundle(path)
        } else {
            match s.recording_completion_action {
                CompletionAction::CopyToClipboard => ReactionView::CopyPath(path),
                CompletionAction::Reveal => if s.open_recording_when_finished {
                    ReactionView::RevealPath(path)
                } else {
                    ReactionView::Nothing
                },
                CompletionAction::NoAction => ReactionView::Nothing,
            }
        },
    }
}

/// What the app does after a recording event.
#[derive(Clone, Debug, PartialEq, Eq)]
pub enum EventReaction {
    /// The recording runs: the toolbar shrinks and shows the elapsed time.
    Recording,
    /// Only the status shown changes.
    Updated,
    /// The recording is done: react as given, then close the toolbar.
    Finished(FinishReaction),
    /// The recording failed: the error is shown and selection starts over.
    Failed,
}

/// The characters of an [`EventReaction`].
pub enum EventReactionView {
    Recording,
    Updated,
    Finished(ReactionView),
    Failed,
}

impl View for EventReaction {
    type V = EventReactionView;

    open spec fn view(&self) -> EventReactionView {
        match self {
            EventReaction::Recording => EventReactionView::Recording,
            EventReaction::Updated => EventReactionView::Updated,
            EventReaction::Finished(r) => EventReactionView::Finished(r@),
            EventReaction::Failed => EventReactionView::Failed,
        }
    }
}

/// The state after a recording event, and what the app does.
pub open spec fn event_spec(s: SessionView, e: EventView) -> (SessionView, EventReactionView) {
    match e {
        EventView::Started => (with_status(s, Status::Recording), EventReactionView::Recording),
        EventView::Uploading => (with_status(s, Status::Uploading), EventReactionView::Updated),
        EventView::Finished { path, viewer_url } => (
            s,
            EventReactionView::Finished(finish_reaction(s, path, viewer_url)),
        ),
        EventView::Failed(m) => (
            with_error(with_status(s, Status::Idle), Some(m)),
            EventReactionView::Failed,
        ),
    }
}

/// What Escape does.
#[derive(Clone, Copy, Debug, PartialEq, Eq, Structural)]
pub enum EscapeAction {
    /// Nothing, while a recording is under way.
    Ignored,
    /// The capture mode and selections were cleared.
    Cleared,
    /// The toolbar closes.
    Close,
}

/// The state after Escape, and what it did.
pub open spec fn escape_spec(s: SessionView) -> (SessionView, EscapeAction) {
    if s.status != Status::Idle {
        (s, EscapeAction::Ignored)
    } else if s.mode is Some {
        (
            SessionView { mode: None, selected_display: 0, selected_window: None, region_display: None, ..s },
            EscapeAction::Cleared,
        )
    } else {
        (s, EscapeAction::Close)
    }
}

/// The state after choosing capture mode `mode`: choosing the current mode
/// again leaves it, and the drawn area and the error are cleared.
pub open spec fn set_mode_spec(s: SessionView, mode: Mode) -> SessionView {
    SessionView {
        mode: if s.mode == Some(mode) { None } else { Some(mode) },
        region_display: None,
        error: None,
        ..s
    }
}

/// The name a recording is saved under: the window's or display's own name
/// when it is known, else `Window <id>` or `Display <id>`.
pub open spec fn target_name_spec(spec: CaptureSpec, known: Option<Seq<char>>) -> Seq<char> {
    match known {
        Some(n) => n,
        None => match spec {
            CaptureSpec::Window(id) => "Window "@ + decimal_spec(id as nat),
            CaptureSpec::Display(id) => "Display "@ + decimal_spec(id as nat),
            CaptureSpec::Region { display_id } => "Display "@ + decimal_spec(display_id as nat),
        },
    }
}

/// The name a recording of `spec` is saved under, given the window's or
/// display's name when the system knows it.
pub fn capture_target_name(spec: CaptureSpec, known: Option<String>) -> (r: String)
    ensures
        r@ == target_name_spec(spec, opt_text(known)),
{
    match known {
        Some(n) => n,
        None => match spec {
            CaptureSpec::Window(id) => crate::naming::numbered("Window ", id),
            CaptureSpec::Display(id) => crate::naming::numbered("Display ", id),
            CaptureSpec::Region { display_id } => crate::naming::numbered("Display ", display_id),
        },
    }
}

/// The label the idle toolbar is sized for: the selected profile's name.
pub open spec fn toolbar_label_spec(profiles: ProfilesView) -> Seq<char> {
    if profiles.profiles.len() == 0 {
        "Profile"@
    } else {
        profiles.profiles[selected_index_spec(profiles)].name
    }
}

/// The label the idle toolbar is sized for.
pub fn toolbar_label(profiles: &RecordingProfiles) -> (r: String)
    ensures
        r@ == toolbar_label_spec(profiles@),
{
    match profiles.selected() {
        Some(p) => p.name.clone(),
        None => owned("Profile"),
    }
}

impl CaptureApp {
    /// A toolbar with nothing selected.
    pub fn new() -> (r: Self)
        ensures
            r@.status == Status::Idle,
            r@.mode is None,
            r@.selected_display == 0,
            r@.selected_window is None,
            r@.region_display is None,
            r@.error is None,
            r@.recording_completion_action == CompletionAction::NoAction,
            r@.open_recording_when_finished,
    {
        CaptureApp {
            status: Status::Idle,
            mode: None,
            selected_display: 0,
            selected_window: None,
            region_display: None,
            error: None,
            recording_completion_action: CompletionAction::NoAction,
            open_recording_when_finished: true,
        }
    }

    /// Chooses a capture mode; choosing the current one again leaves it.
    /// Either way the drawn area and the error are cleared. Returns whether a
    /// mode is now chosen.
    pub fn set_mode(&mut self, mode: Mode) -> (r: bool)
        ensures
            r == (old(self)@.mode != Some(mode)),
            final(self)@ == set_mode_spec(old(self)@, mode),
    {
        let same = match self.mode {
            Some(m) => m == mode,
            None => false,
        };
        self.region_display = None;
        self.error = None;
        if same {
            self.mode = None;
            false
        } else {
            self.mode = Some(mode);
            true
        }
    }

    /// Selects a display, dropping any drawn area.
    pub fn select_display(&mut self, display_id: u32)
        ensures
            final(self)@ == (SessionView {
                selected_display: display_id,
                region_display: None,
                ..old(self)@
            }),
    {
        self.selected_display = display_id;
        self.region_display = None;
    }

    /// Selects a window.
    pub fn select_window(&mut self, window_id: u32)
        ensures
            final(self)@ == (SessionView { selected_window: Some(window_id), ..old(self)@ }),
    {
        self.selected_window = Some(window_id);
    }

    /// Records that an area was drawn on display `display_id`.
    pub fn select_region(&mut self, display_id: u32)
        ensures
            final(self)@ == (SessionView {
                selected_display: display_id,
                region_display: Some(display_id),
                ..old(self)@
            }),
    {
        self.selected_display = display_id;
        self.region_display = Some(display_id);
    }

    /// The system's window list changed to `window_ids`: a selected window
    /// that is gone is deselected.
    pub fn windows_changed(&mut self, window_ids: &[u32])
        ensures
            final(self)@ == (SessionView {
                selected_window: match old(self)@.selected_window {
                    Some(id) => if window_ids@.contains(id) { Some(id) } else { None },
                    None => None,
                },
                ..old(self)@
            }),
    {
        match self.selected_window {
            Some(id) => if !crate::commands::holds(window_ids, id) {
                self.selected_window = None;
            },
            None => {},
        }
    }

    /// Whether a finished recording is opened or shown: flips the choice.
    pub fn toggle_open_recording(&mut self)
        ensures
            final(self)@ == (SessionView {
                open_recording_when_finished: !old(self)@.open_recording_when_finished,
                ..old(self)@
            }),
    {
        self.open_recording_when_finished = !self.open_recording_when_finished;
    }

    /// The capture the selection asks for, or the hint to show instead.
    pub fn capture_spec(&self) -> (r: Result<CaptureSpec, String>)
        ensures
            match capture_choice(self@) {
                Ok(spec) => r == Ok::<CaptureSpec, String>(spec),
                Err(e) => r matches Err(m) && m@ == e,
            },
    {
        match self.mode {
            Some(Mode::Display) => if self.selected_display != 0 {
                Ok(CaptureSpec::Display(self.selected_display))
            } else {
                Err(owned("Select a display first"))
            },
            Some(Mode::Window) => match self.selected_window {
                Some(id) => Ok(CaptureSpec::Window(id)),
                None => Err(owned("Select a window first")),
            },
            Some(Mode::Region) => match self.region_display {
                Some(d) => Ok(CaptureSpec::Region { display_id: d }),
                None => Err(owned("Drag to select a recording area")),
            },
            None => Err(owned("Choose a capture mode")),
        }
    }

    /// The first step of starting a recording. Only an idle toolbar starts
    /// one (`None` otherwise, with nothing changed). The selection and the
    /// selected profile are checked; a problem is shown as the error.
    pub fn prepare_recording(&mut self, profiles: &RecordingProfiles) -> (r: Option<(CaptureSpec, usize)>)
        ensures
            old(self)@.status != Status::Idle ==> r is None && final(self)@ == old(self)@,
            old(self)@.status == Status::Idle ==> match recording_plan(old(self)@, profiles@) {
                Ok((spec, i)) => r == Some((spec, i as usize)) && final(self)@ == old(self)@,
                Err(e) => r is None && final(self)@ == with_error(old(self)@, Some(e)),
            },
    {
        if self.status != Status::Idle {
            return None;
        }
        let spec = match self.capture_spec() {
            Ok(spec) => spec,
            Err(e) => {
                self.error = Some(e);
                return None;
            },
        };
        if profiles.profiles.len() == 0 {
            self.error = Some(owned("Create a recording profile first"));
            return None;
        }
        let i = profiles.selected_index();
        match profiles.profiles[i].validate() {
            Err(e) => {
                self.error = Some(e);
                None
            },
            Ok(()) => Some((spec, i)),
        }
    }

    /// Starting a recording failed after its checks passed; the reason is shown.
    pub fn start_failed(&mut self, message: String)
        ensures
            final(self)@ == with_error(old(self)@, Some(message@)),
    {
        self.error = Some(message);
    }

    /// The recording was started with a profile whose completion action is
    /// `action`; the toolbar waits for it to run.
    pub fn recording_spawned(&mut self, action: CompletionAction)
        ensures
            final(self)@ == (SessionView {
                status: Status::Starting,
                error: None,
                recording_completion_action: action,
                ..old(self)@
            }),
    {
        self.recording_completion_action = action;
        self.status = Status::Starting;
        self.error = None;
    }

    /// Asks a running recording to stop. Returns whether it was running, in
    /// which case it is now being finalized.
    pub fn stop(&mut self) -> (r: bool)
        ensures
            r == (old(self)@.status == Status::Recording),
            final(self)@ == if r { with_status(old(self)@, Status::Finalizing) } else { old(self)@ },
    {
        if self.status == Status::Recording {
            self.status = Status::Finalizing;
            true
        } else {
            false
        }
    }

    /// Escape: ignored during a recording; otherwise it clears a chosen mode
    /// and every selection, or, with no mode chosen, closes the toolbar.
    pub fn escape(&mut self) -> (r: EscapeAction)
        ensures
            (final(self)@, r) == escape_spec(old(self)@),
    {
        if self.status != Status::Idle {
            return EscapeAction::Ignored;
        }
        if self.mode.is_some() {
            self.mode = None;
            self.selected_display = 0;
            self.selected_window = None;
            self.region_display = None;
            EscapeAction::Cleared
        } else {
            EscapeAction::Close
        }
    }

    /// Takes in a recording event and says what the app does next.
    pub fn handle_event(&mut self, event: RecordingEvent) -> (r: EventReaction)
        ensures
            (final(self)@, r@) == event_spec(old(self)@, event@),
    {
        match event {
            RecordingEvent::Started => {
                self.status = Status::Recording;
                EventReaction::Recording
            },
            RecordingEvent::Uploading => {
                self.status = Status::Uploading;
                EventReaction::Updated
            },
            RecordingEvent::Finished { path, viewer_url } => {
                EventReaction::Finished(self.finish_reaction(path, viewer_url))
            },
            RecordingEvent::Failed(message) => {
                self.status = Status::Idle;
                self.error = Some(message);
                EventReaction::Failed
            },
        }
    }

    fn finish_reaction(&self, path: String, viewer_url: Option<String>) -> (r: FinishReaction)
        ensures
            r@ == finish_reaction(self@, path@, opt_text(viewer_url)),
    {
        match viewer_url {
            Some(url) => FinishReaction::ShareUrl { url, open: self.open_recording_when_finished },
            None => if crate::upload::has_extension(path.as_str(), "blip") {
                FinishReaction::OpenBundle(path)
            } else {
                match self.recording_completion_action {
                    CompletionAction::CopyToClipboard => FinishReaction::CopyPath(path),
                    CompletionAction::Reveal => if self.open_recording_when_finished {
                        FinishReaction::RevealPath(path)
                    } else {
                        FinishReaction::Nothing
                    },
                    CompletionAction::NoAction => FinishReaction::Nothing,
                }
            },
        }
    }
}


/// Escape pressed twice while idle always closes the toolbar: the first press
/// clears a chosen mode, the second finds none.
pub proof fn law_second_escape_closes(s: SessionView)
    requires
        s.status == Status::Idle,
    ensures
        escape_spec(s).1 == EscapeAction::Close || escape_spec(escape_spec(s).0).1 == EscapeAction::Close,
{
}

/// Choosing the same capture mode twice leaves no mode chosen.
pub proof fn law_mode_choice_toggles(s: SessionView, mode: Mode)
    requires
        s.mode != Some(mode),
    ensures
        set_mode_spec(s, mode).mode == Some(mode),
        set_mode_spec(set_mode_spec(s, mode), mode).mode is None,
{
}

/// A failed recording always brings the toolbar back to idle with the
/// failure shown, whatever state it was in.
pub proof fn law_failure_returns_to_idle(s: SessionView, message: Seq<char>)
    ensures
        event_spec(s, EventView::Failed(message)).0.status == Status::Idle,
        event_spec(s, EventView::Failed(message)).0.error == Some(message),
{
}


/// The windows shown over display `display_id`: those on it, in order.
pub open spec fn windows_on_spec(windows: Seq<(u32, Option<u32>)>, display_id: u32) -> Seq<(u32, Option<u32>)> {
    windows.filter(|w: (u32, Option<u32>)| w.1 == Some(display_id))
}

/// The windows, given as identifier and display, that lie on display `display_id`.
pub fn windows_on(windows: &Vec<(u32, Option<u32>)>, display_id: u32) -> (r: Vec<(u32, Option<u32>)>)
    ensures
        r@ == windows_on_spec(windows@, display_id),
{
    let mut out: Vec<(u32, Option<u32>)> = Vec::new();
    let mut i: usize = 0;
    while i < windows.len()
        invariant
            i <= windows@.len(),
            out@ == windows@.take(i as int).filter(|w: (u32, Option<u32>)| w.1 == Some(display_id)),
        decreases windows@.len() - i,
    {
        proof {
            windows@.take(i as int).lemma_filter_push(
                windows@[i as int],
                |w: (u32, Option<u32>)| w.1 == Some(display_id),
            );
            assert(windows@.take(i as int).push(windows@[i as int]) =~= windows@.take(i + 1));
        }
        let w = windows[i];
        let on = match w.1 {
            Some(d) => d == display_id,
            None => false,
        };
        if on {
            out.push(w);
        }
        i = i + 1;
    }
    assert(windows@.take(windows@.len() as int) =~= windows@);
    out
}


/// When a recording ends with a viewer URL, the URL is shared, and it is
/// opened only when the user chose to open finished recordings; without a
/// URL, a local recording is revealed only under that same choice.
pub proof fn law_finished_recordings_follow_the_open_choice(
    s: SessionView,
    path: Seq<char>,
    url: Seq<char>,
)
    ensures
        event_spec(s, EventView::Finished { path, viewer_url: Some(url) }).1 == EventReactionView::Finished(
            ReactionView::ShareUrl { url, open: s.open_recording_when_finished },
        ),
        event_spec(s, EventView::Finished { path, viewer_url: Some(url) }).0 == s,
        event_spec(s, EventView::Finished { path, viewer_url: None }).1 matches EventReactionView::Finished(
            ReactionView::RevealPath(_),
        ) ==> s.open_recording_when_finished,
{
}

} // verus!
