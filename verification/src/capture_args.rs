//! The command line of `blip-capture`:
//!
//! ```text
//! blip-capture [PATH]
//! blip-capture --headless [--server-url URL] [--display ID] [--duration SECONDS] [--format mp4|hls]
//! ```
//!
//! Without `--headless` the capture interface opens, on the bundle `PATH` when
//! given; the upload options need `--headless`, which excludes `PATH`.

use vstd::prelude::*;

use crate::args::{
    collect_args, has_duplicate, items_of, parse_u32_value, parse_u64_value, positionals, scan,
    scan_args, tokens_of, u32_value, u64_value, value_for, ArgItem, CliError, ScannedArg,
};
use crate::profiles::RecordingFormat;
use crate::text::{opt_text, same_text, texts};

verus! {

/// The recording format a headless run exercises.
#[derive(Clone, Copy, Debug, PartialEq, Eq, Structural)]
pub enum HeadlessFormat {
    Mp4,
    Hls,
}

/// The recording format of each headless format.
pub open spec fn headless_recording_format(f: HeadlessFormat) -> RecordingFormat {
    match f {
        HeadlessFormat::Mp4 => RecordingFormat::Mp4,
        HeadlessFormat::Hls => RecordingFormat::Hls,
    }
}

impl From<HeadlessFormat> for RecordingFormat {
    fn from(format: HeadlessFormat) -> (r: Self) {
        match format {
            HeadlessFormat::Mp4 => RecordingFormat::Mp4,
            HeadlessFormat::Hls => RecordingFormat::Hls,
        }
    }
}

impl vstd::std_specs::convert::FromSpecImpl<HeadlessFormat> for RecordingFormat {
    open spec fn obeys_from_spec() -> bool {
        true
    }

    open spec fn from_spec(format: HeadlessFormat) -> Self {
        headless_recording_format(format)
    }
}

/// A parsed `blip-capture` command line.
#[derive(Clone, Debug, PartialEq, Eq)]
pub struct CaptureArgs {
    /// A Blip bundle or file to open.
    pub path: Option<String>,
    /// Record and upload without opening the capture interface.
    pub headless: bool,
    /// The Blip server URL, with the capture key after `#`.
    pub server_url: Option<String>,
    /// The display to record; the main display when not given.
    pub display: Option<u32>,
    /// The number of seconds to record; 5 when not given.
    pub duration: u64,
    /// The recording format; MP4 when not given.
    pub format: HeadlessFormat,
}

/// The text-level view of [`CaptureArgs`].
pub struct CaptureArgsView {
    pub path: Option<Seq<char>>,
    pub headless: bool,
    pub server_url: Option<Seq<char>>,
    pub display: Option<u32>,
    pub duration: u64,
    pub format: HeadlessFormat,
}

impl View for CaptureArgs {
    type V = CaptureArgsView;

    open spec fn view(&self) -> CaptureArgsView {
        CaptureArgsView {
            path: opt_text(self.path),
            headless: self.headless,
            server_url: opt_text(self.server_url),
            display: self.display,
            duration: self.duration,
            format: self.format,
        }
    }
}

/// The long options of `blip-capture`.
pub open spec fn capture_option_names() -> Seq<Seq<char>> {
    seq!["headless"@, "server-url"@, "display"@, "duration"@, "format"@]
}

/// Which options of `blip-capture` take a value.
pub open spec fn capture_option_values() -> Seq<bool> {
    seq![false, true, true, true, true]
}

/// The format named by a `--format` value.
pub open spec fn format_value(s: Seq<char>) -> Option<HeadlessFormat> {
    if s == "mp4"@ {
        Some(HeadlessFormat::Mp4)
    } else if s == "hls"@ {
        Some(HeadlessFormat::Hls)
    } else {
        None
    }
}

/// The arguments from the scanned command line: duplicates are refused first,
/// then a second positional argument, then invalid values, then `PATH` with
/// `--headless`, then an upload option without `--headless`.
pub open spec fn capture_args_from(items: Seq<ArgItem>) -> Result<CaptureArgsView, CliError> {
    let pos = positionals(items);
    let headless = value_for(items, 0) is Some;
    let server_url = value_for(items, 1);
    let display = value_for(items, 2);
    let duration = value_for(items, 3);
    let format = value_for(items, 4);
    if has_duplicate(items) {
        Err(CliError::DuplicateArgument)
    } else if pos.len() > 1 {
        Err(CliError::UnexpectedArgument)
    } else if display matches Some(d) && u32_value(d) is None {
        Err(CliError::InvalidValue)
    } else if duration matches Some(d) && u64_value(d, 1) is None {
        Err(CliError::InvalidValue)
    } else if format matches Some(f) && format_value(f) is None {
        Err(CliError::InvalidValue)
    } else if pos.len() == 1 && headless {
        Err(CliError::ConflictingArguments)
    } else if !headless && (server_url is Some || display is Some || duration is Some || format is Some) {
        Err(CliError::MissingArgument)
    } else {
        Ok(
            CaptureArgsView {
                path: if pos.len() == 1 {
                    Some(pos[0])
                } else {
                    None
                },
                headless,
                server_url,
                display: match display {
                    Some(d) => Some(u32_value(d)->Some_0),
                    None => None,
                },
                duration: match duration {
                    Some(d) => u64_value(d, 1)->Some_0,
                    None => 5,
                },
                format: match format {
                    Some(f) => format_value(f)->Some_0,
                    None => HeadlessFormat::Mp4,
                },
            },
        )
    }
}

/// A `blip-capture` command line: the program name, then the options.
pub open spec fn capture_args_spec(args: Seq<Seq<char>>) -> Result<CaptureArgsView, CliError> {
    let t = if args.len() == 0 {
        args
    } else {
        args.drop_first()
    };
    match scan(t, capture_option_names(), capture_option_values(), false) {
        Err(e) => Err(e),
        Ok(items) => capture_args_from(items),
    }
}

/// The views of a parse result.
pub open spec fn capture_result_view(r: Result<CaptureArgs, CliError>) -> Result<CaptureArgsView, CliError> {
    match r {
        Ok(c) => Ok(c@),
        Err(e) => Err(e),
    }
}

fn parse_format(s: &str) -> (r: Option<HeadlessFormat>)
    ensures
        r == format_value(s@),
{
    if same_text(s, "mp4") {
        Some(HeadlessFormat::Mp4)
    } else if same_text(s, "hls") {
        Some(HeadlessFormat::Hls)
    } else {
        None
    }
}

impl CaptureArgs {
    /// Parses a `blip-capture` command line, program name first.
    pub fn try_parse_from(args: &[&str]) -> (r: Result<CaptureArgs, CliError>)
        ensures
            capture_result_view(r) == capture_args_spec(tokens_of(args@)),
    {
        let t: &[&str] = if args.len() == 0 {
            args
        } else {
            &args[1..args.len()]
        };
        assert(tokens_of(t@) =~= if args@.len() == 0 { tokens_of(args@) } else { tokens_of(args@).drop_first() });
        let names: [&str; 5] = ["headless", "server-url", "display", "duration", "format"];
        let takes: [bool; 5] = [false, true, true, true, true];
        proof {
            reveal_strlit("headless");
            reveal_strlit("server-url");
            reveal_strlit("display");
            reveal_strlit("duration");
            reveal_strlit("format");
            assert(tokens_of(names@) =~= capture_option_names());
            assert(takes@ =~= capture_option_values());
        }
        let items = match scan_args(t, &names, &takes) {
            Err(e) => return Err(e),
            Ok(v) => v,
        };
        let ghost it = items_of(items@);
        proof { crate::args::lemma_scan_indices(tokens_of(t@), capture_option_names(), capture_option_values(), false); }
        assert forall|j: int| 0 <= j < items@.len() implies (#[trigger] items@[j] matches ScannedArg::Opt(k, _) ==> k < 5) by {
            assert(it[j] == items@[j]@);
        }
        let c = match collect_args(&items, 5) {
            Err(e) => return Err(e),
            Ok(c) => c,
        };
        assert(opt_text(c.values@[0]) == value_for(it, 0));
        assert(opt_text(c.values@[1]) == value_for(it, 1));
        assert(opt_text(c.values@[2]) == value_for(it, 2));
        assert(opt_text(c.values@[3]) == value_for(it, 3));
        assert(opt_text(c.values@[4]) == value_for(it, 4));
        if c.positionals.len() > 1 {
            return Err(CliError::UnexpectedArgument);
        }
        let display = match &c.values[2] {
            None => None,
            Some(d) => match parse_u32_value(d.as_str()) {
                None => return Err(CliError::InvalidValue),
                Some(n) => Some(n),
            },
        };
        let duration = match &c.values[3] {
            None => 5,
            Some(d) => match parse_u64_value(d.as_str(), 1) {
                None => return Err(CliError::InvalidValue),
                Some(n) => n,
            },
        };
        let format = match &c.values[4] {
            None => HeadlessFormat::Mp4,
            Some(f) => match parse_format(f.as_str()) {
                None => return Err(CliError::InvalidValue),
                Some(x) => x,
            },
        };
        let headless = c.values[0].is_some();
        if c.positionals.len() == 1 && headless {
            return Err(CliError::ConflictingArguments);
        }
        if !headless && (c.values[1].is_some() || c.values[2].is_some() || c.values[3].is_some() || c.values[4].is_some()) {
            return Err(CliError::MissingArgument);
        }
        let path = if c.positionals.len() == 1 {
            assert(texts(c.positionals@)[0] == c.positionals@[0]@);
            Some(c.positionals[0].clone())
        } else {
            None
        };
        let server_url = match &c.values[1] {
            Some(u) => Some(u.clone()),
            None => None,
        };
        Ok(CaptureArgs { path, headless, server_url, display, duration, format })
    }
}


/// What an accepted `blip-capture` command line always satisfies: a bundle
/// path never comes with `--headless`; without `--headless` every upload
/// option keeps its default; and a recording lasts at least one second.
pub proof fn law_upload_options_need_headless(args: Seq<Seq<char>>)
    ensures
        capture_args_spec(args) matches Ok(a) ==> {
            &&& a.headless ==> a.path is None
            &&& !a.headless ==> a.server_url is None && a.display is None && a.duration == 5
                && a.format == HeadlessFormat::Mp4
            &&& a.duration >= 1
        },
{
}

} // verus!
