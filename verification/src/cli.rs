//! The command line of `blip-cli`:
//!
//! ```text
//! blip-cli displays list | displays info ID
//! blip-cli windows list  | windows info ID
//! blip-cli stream [--display ID | --window ID] [--fps N] [--cursor]
//! blip-cli record OUTPUT [--display ID | --window ID] [--fps N] [--cursor]
//! ```

use vstd::prelude::*;

use crate::args::{
    collect_args, has_duplicate, is_flag_like, items_of, parse_u32_value, positionals, scan,
    scan_args, tokens_of, u32_value, value_for, CliError, ScannedArg,
};
use crate::text::{chars_of, opt_text, same_text, texts};

verus! {

/// What to inspect about a display or a window.
#[derive(Clone, Copy, Debug, PartialEq, Eq, Structural)]
pub enum ResourceCommand {
    /// List the resources and their identifiers.
    List,
    /// Show the details of one resource.
    Info { id: u32 },
}

/// What to capture and how.
#[derive(Clone, Copy, Debug, PartialEq, Eq, Structural)]
pub struct StreamArgs {
    pub display: Option<u32>,
    pub window: Option<u32>,
    /// The highest frame rate requested; 60 when not given.
    pub fps: u32,
    pub cursor: bool,
}

/// A capture recorded to an MP4 file.
#[derive(Clone, Debug, PartialEq, Eq)]
pub struct RecordArgs {
    pub capture: StreamArgs,
    pub output: String,
}

/// A `blip-cli` command.
#[derive(Clone, Debug, PartialEq, Eq)]
pub enum Command {
    Displays { command: ResourceCommand },
    Windows { command: ResourceCommand },
    Stream(StreamArgs),
    Record(RecordArgs),
}

/// A parsed `blip-cli` command line.
#[derive(Clone, Debug, PartialEq, Eq)]
pub struct Cli {
    pub command: Command,
}

/// The text-level view of a [`Command`].
pub enum CommandView {
    Displays(ResourceCommand),
    Windows(ResourceCommand),
    Stream(StreamArgs),
    Record(StreamArgs, Seq<char>),
}

impl View for Cli {
    type V = CommandView;

    open spec fn view(&self) -> CommandView {
        match self.command {
            Command::Displays { command } => CommandView::Displays(command),
            Command::Windows { command } => CommandView::Windows(command),
            Command::Stream(a) => CommandView::Stream(a),
            Command::Record(a) => CommandView::Record(a.capture, a.output@),
        }
    }
}

/// The long options of `stream` and `record`.
pub open spec fn stream_option_names() -> Seq<Seq<char>> {
    seq!["display"@, "window"@, "fps"@, "cursor"@]
}

/// Which options of `stream` and `record` take a value.
pub open spec fn stream_option_values() -> Seq<bool> {
    seq![true, true, true, false]
}

/// An optional `u32` option: absent, a valid number, or an error.
pub open spec fn optional_u32(v: Option<Seq<char>>) -> Result<Option<u32>, CliError> {
    match v {
        None => Ok(None),
        Some(s) => match u32_value(s) {
            Some(n) => Ok(Some(n)),
            None => Err(CliError::InvalidValue),
        },
    }
}

/// The capture options of `stream` and `record` from their scanned arguments;
/// duplicates are refused first, then invalid numbers, then `--display`
/// together with `--window`.
pub open spec fn stream_args_from(items: Seq<crate::args::ArgItem>) -> Result<StreamArgs, CliError> {
    if has_duplicate(items) {
        Err(CliError::DuplicateArgument)
    } else {
        match optional_u32(value_for(items, 0)) {
            Err(e) => Err(e),
            Ok(display) => match optional_u32(value_for(items, 1)) {
                Err(e) => Err(e),
                Ok(window) => match optional_u32(value_for(items, 2)) {
                    Err(e) => Err(e),
                    Ok(fps) => if display is Some && window is Some {
                        Err(CliError::ConflictingArguments)
                    } else {
                        Ok(
                            StreamArgs {
                                display,
                                window,
                                fps: match fps {
                                    Some(f) => f,
                                    None => 60,
                                },
                                cursor: value_for(items, 3) is Some,
                            },
                        )
                    },
                },
            },
        }
    }
}

/// The `stream` command from the tokens after its name: no positional argument.
pub open spec fn stream_spec(t: Seq<Seq<char>>) -> Result<StreamArgs, CliError> {
    match scan(t, stream_option_names(), stream_option_values(), false) {
        Err(e) => Err(e),
        Ok(items) => if has_duplicate(items) {
            Err(CliError::DuplicateArgument)
        } else if positionals(items).len() > 0 {
            Err(CliError::UnexpectedArgument)
        } else {
            stream_args_from(items)
        },
    }
}

/// The `record` command from the tokens after its name: exactly one
/// positional argument, the output file.
pub open spec fn record_spec(t: Seq<Seq<char>>) -> Result<(StreamArgs, Seq<char>), CliError> {
    match scan(t, stream_option_names(), stream_option_values(), false) {
        Err(e) => Err(e),
        Ok(items) => if has_duplicate(items) {
            Err(CliError::DuplicateArgument)
        } else if positionals(items).len() == 0 {
            Err(CliError::MissingArgument)
        } else if positionals(items).len() > 1 {
            Err(CliError::UnexpectedArgument)
        } else {
            match stream_args_from(items) {
                Err(e) => Err(e),
                Ok(a) => Ok((a, positionals(items)[0])),
            }
        },
    }
}

/// The `list` or `info ID` subcommand of `displays` and `windows`.
pub open spec fn resource_spec(t: Seq<Seq<char>>) -> Result<ResourceCommand, CliError> {
    if t.len() == 0 {
        Err(CliError::MissingSubcommand)
    } else {
        let head = t[0];
        let rest = t.drop_first();
        if head == "-h"@ || head == "--help"@ || head == "help"@ {
            Err(CliError::Help)
        } else if head == "--"@ {
            if rest.len() == 0 {
                Err(CliError::MissingSubcommand)
            } else {
                Err(CliError::UnexpectedArgument)
            }
        } else if is_flag_like(head) {
            Err(CliError::UnknownArgument)
        } else if head == "list"@ {
            match scan(rest, Seq::empty(), Seq::empty(), false) {
                Err(e) => Err(e),
                Ok(items) => if positionals(items).len() > 0 {
                    Err(CliError::UnexpectedArgument)
                } else {
                    Ok(ResourceCommand::List)
                },
            }
        } else if head == "info"@ {
            match scan(rest, Seq::empty(), Seq::empty(), false) {
                Err(e) => Err(e),
                Ok(items) => if positionals(items).len() == 0 {
                    Err(CliError::MissingArgument)
                } else if positionals(items).len() > 1 {
                    Err(CliError::UnexpectedArgument)
                } else {
                    match u32_value(positionals(items)[0]) {
                        None => Err(CliError::InvalidValue),
                        Some(id) => Ok(ResourceCommand::Info { id }),
                    }
                },
            }
        } else {
            Err(CliError::UnknownSubcommand)
        }
    }
}

/// A `blip-cli` command from the tokens after the program name.
pub open spec fn command_spec(t: Seq<Seq<char>>) -> Result<CommandView, CliError> {
    if t.len() == 0 {
        Err(CliError::MissingSubcommand)
    } else {
        let head = t[0];
        let rest = t.drop_first();
        if head == "-h"@ || head == "--help"@ || head == "help"@ {
            Err(CliError::Help)
        } else if head == "--"@ {
            if rest.len() == 0 {
                Err(CliError::MissingSubcommand)
            } else {
                Err(CliError::UnexpectedArgument)
            }
        } else if is_flag_like(head) {
            Err(CliError::UnknownArgument)
        } else if head == "displays"@ {
            match resource_spec(rest) {
                Ok(c) => Ok(CommandView::Displays(c)),
                Err(e) => Err(e),
            }
        } else if head == "windows"@ {
            match resource_spec(rest) {
                Ok(c) => Ok(CommandView::Windows(c)),
                Err(e) => Err(e),
            }
        } else if head == "stream"@ {
            match stream_spec(rest) {
                Ok(a) => Ok(CommandView::Stream(a)),
                Err(e) => Err(e),
            }
        } else if head == "record"@ {
            match record_spec(rest) {
                Ok((a, o)) => Ok(CommandView::Record(a, o)),
                Err(e) => Err(e),
            }
        } else {
            Err(CliError::UnknownSubcommand)
        }
    }
}

/// A `blip-cli` command line: the program name, then the command.
pub open spec fn cli_spec(args: Seq<Seq<char>>) -> Result<CommandView, CliError> {
    if args.len() == 0 {
        Err(CliError::MissingSubcommand)
    } else {
        command_spec(args.drop_first())
    }
}

/// The views of a parse result.
pub open spec fn cli_result_view(r: Result<Cli, CliError>) -> Result<CommandView, CliError> {
    match r {
        Ok(c) => Ok(c@),
        Err(e) => Err(e),
    }
}

/// Reads an optional `u32` option value.
fn optional_u32_value(v: &Option<String>) -> (r: Result<Option<u32>, CliError>)
    ensures
        r == optional_u32(opt_text(*v)),
{
    match v {
        None => Ok(None),
        Some(s) => match parse_u32_value(s.as_str()) {
            Some(n) => Ok(Some(n)),
            None => Err(CliError::InvalidValue),
        },
    }
}

/// The capture options from collected `stream`/`record` arguments.
fn stream_args_of(values: &Vec<Option<String>>, Ghost(items): Ghost<Seq<crate::args::ArgItem>>) -> (r: Result<StreamArgs, CliError>)
    requires
        !has_duplicate(items),
        values@.len() == 4,
        forall|k: int| 0 <= k < 4 ==> #[trigger] opt_text(values@[k]) == value_for(items, k),
    ensures
        r == stream_args_from(items),
{
    assert(opt_text(values@[0]) == value_for(items, 0));
    assert(opt_text(values@[1]) == value_for(items, 1));
    assert(opt_text(values@[2]) == value_for(items, 2));
    assert(opt_text(values@[3]) == value_for(items, 3));
    let display = match optional_u32_value(&values[0]) {
        Err(e) => return Err(e),
        Ok(d) => d,
    };
    let window = match optional_u32_value(&values[1]) {
        Err(e) => return Err(e),
        Ok(w) => w,
    };
    let fps = match optional_u32_value(&values[2]) {
        Err(e) => return Err(e),
        Ok(f) => f,
    };
    if display.is_some() && window.is_some() {
        return Err(CliError::ConflictingArguments);
    }
    Ok(
        StreamArgs {
            display,
            window,
            fps: match fps {
                Some(f) => f,
                None => 60,
            },
            cursor: values[3].is_some(),
        },
    )
}

proof fn lemma_stream_indices(t: Seq<Seq<char>>, items: Seq<crate::args::ArgItem>)
    requires
        scan(t, stream_option_names(), stream_option_values(), false) == Ok::<Seq<crate::args::ArgItem>, CliError>(items),
    ensures
        forall|j: int| 0 <= j < items.len() ==> (#[trigger] items[j] matches crate::args::ArgItem::Opt(k, _) ==> 0 <= k < 4),
{
    crate::args::lemma_scan_indices(t, stream_option_names(), stream_option_values(), false);
}

/// Scans and gathers the arguments of `stream` or `record`.
fn stream_items(t: &[&str]) -> (r: Result<crate::args::CollectedArgs, CliError>)
    ensures
        match scan(tokens_of(t@), stream_option_names(), stream_option_values(), false) {
            Err(e) => r == Err::<crate::args::CollectedArgs, CliError>(e),
            Ok(items) => if has_duplicate(items) {
                r == Err::<crate::args::CollectedArgs, CliError>(CliError::DuplicateArgument)
            } else {
                r matches Ok(c) && c.values@.len() == 4 && (forall|k: int| 0 <= k < 4 ==> #[trigger] opt_text(c.values@[k]) == value_for(items, k)) && texts(c.positionals@) == positionals(items)
            },
        },
{
    let names: [&str; 4] = ["display", "window", "fps", "cursor"];
    let takes: [bool; 4] = [true, true, true, false];
    proof {
        reveal_strlit("display");
        reveal_strlit("window");
        reveal_strlit("fps");
        reveal_strlit("cursor");
        assert(tokens_of(names@) =~= stream_option_names());
        assert(takes@ =~= stream_option_values());
    }
    let items = match scan_args(t, &names, &takes) {
        Err(e) => return Err(e),
        Ok(v) => v,
    };
    proof { lemma_stream_indices(tokens_of(t@), items_of(items@)); }
    assert forall|j: int| 0 <= j < items@.len() implies (#[trigger] items@[j] matches ScannedArg::Opt(k, _) ==> k < 4) by {
        assert(items_of(items@)[j] == items@[j]@);
    }
    collect_args(&items, 4)
}

/// Tokens after the first.
fn rest_of<'a>(t: &'a [&'a str]) -> (r: &'a [&'a str])
    requires
        t@.len() > 0,
    ensures
        tokens_of(r@) == tokens_of(t@).drop_first(),
{
    let r = &t[1..t.len()];
    assert(tokens_of(r@) =~= tokens_of(t@).drop_first());
    r
}

/// Whether a token asks for help.
fn is_help_token(t: &str) -> (r: bool)
    ensures
        r == (t@ == "-h"@ || t@ == "--help"@ || t@ == "help"@),
{
    same_text(t, "-h") || same_text(t, "--help") || same_text(t, "help")
}

/// Whether a token looks like an option.
fn flag_like(t: &str) -> (r: bool)
    ensures
        r == is_flag_like(t@),
{
    let c = chars_of(t);
    c.len() >= 2 && c[0] == '-'
}

/// The `list` or `info ID` subcommand.
fn parse_resource(t: &[&str]) -> (r: Result<ResourceCommand, CliError>)
    ensures
        r == resource_spec(tokens_of(t@)),
{
    if t.len() == 0 {
        return Err(CliError::MissingSubcommand);
    }
    let head = t[0];
    let rest = rest_of(t);
    assert(tokens_of(t@)[0] == head@);
    if is_help_token(head) {
        return Err(CliError::Help);
    }
    if same_text(head, "--") {
        return if rest.len() == 0 {
            Err(CliError::MissingSubcommand)
        } else {
            Err(CliError::UnexpectedArgument)
        };
    }
    if flag_like(head) {
        return Err(CliError::UnknownArgument);
    }
    let no_names: [&str; 0] = [];
    let no_values: [bool; 0] = [];
    assert(tokens_of(no_names@) =~= Seq::<Seq<char>>::empty());
    assert(no_values@ =~= Seq::<bool>::empty());
    let is_list = same_text(head, "list");
    let is_info = same_text(head, "info");
    if !is_list && !is_info {
        return Err(CliError::UnknownSubcommand);
    }
    let items = match scan_args(rest, &no_names, &no_values) {
        Err(e) => return Err(e),
        Ok(v) => v,
    };
    proof { crate::args::lemma_scan_indices(tokens_of(rest@), Seq::empty(), Seq::empty(), false); }
    assert forall|j: int| 0 <= j < items@.len() implies (#[trigger] items@[j] matches ScannedArg::Opt(k, _) ==> k < 0) by {
        assert(items_of(items@)[j] == items@[j]@);
    }
    proof {
        assert forall|j: int| 0 <= j < items_of(items@).len() implies #[trigger] items_of(items@)[j] is Pos by {
            assert(items_of(items@)[j] == items@[j]@);
        }
        crate::args::lemma_no_options_no_duplicate(items_of(items@));
    }
    let collected = match collect_args(&items, 0) {
        Err(e) => return Err(e),
        Ok(c) => c,
    };
    let n = collected.positionals.len();
    if is_list {
        if n > 0 {
            Err(CliError::UnexpectedArgument)
        } else {
            Ok(ResourceCommand::List)
        }
    } else if n == 0 {
        Err(CliError::MissingArgument)
    } else if n > 1 {
        Err(CliError::UnexpectedArgument)
    } else {
        assert(texts(collected.positionals@)[0] == collected.positionals@[0]@);
        match parse_u32_value(collected.positionals[0].as_str()) {
            None => Err(CliError::InvalidValue),
            Some(id) => Ok(ResourceCommand::Info { id }),
        }
    }
}

/// The `stream` command.
fn parse_stream(t: &[&str]) -> (r: Result<StreamArgs, CliError>)
    ensures
        r == stream_spec(tokens_of(t@)),
{
    let c = match stream_items(t) {
        Err(e) => return Err(e),
        Ok(c) => c,
    };
    let ghost items = scan(tokens_of(t@), stream_option_names(), stream_option_values(), false)->Ok_0;
    if c.positionals.len() > 0 {
        return Err(CliError::UnexpectedArgument);
    }
    stream_args_of(&c.values, Ghost(items))
}

/// The `record` command.
fn parse_record(t: &[&str]) -> (r: Result<RecordArgs, CliError>)
    ensures
        match record_spec(tokens_of(t@)) {
            Ok((a, o)) => r matches Ok(x) && x.capture == a && x.output@ == o,
            Err(e) => r == Err::<RecordArgs, CliError>(e),
        },
{
    let c = match stream_items(t) {
        Err(e) => return Err(e),
        Ok(c) => c,
    };
    let ghost items = scan(tokens_of(t@), stream_option_names(), stream_option_values(), false)->Ok_0;
    let n = c.positionals.len();
    if n == 0 {
        return Err(CliError::MissingArgument);
    }
    if n > 1 {
        return Err(CliError::UnexpectedArgument);
    }
    let capture = match stream_args_of(&c.values, Ghost(items)) {
        Err(e) => return Err(e),
        Ok(a) => a,
    };
    assert(texts(c.positionals@)[0] == c.positionals@[0]@);
    Ok(RecordArgs { capture, output: c.positionals[0].clone() })
}

impl Cli {
    /// Parses a `blip-cli` command line, program name first.
    pub fn try_parse_from(args: &[&str]) -> (r: Result<Cli, CliError>)
        ensures
            cli_result_view(r) == cli_spec(tokens_of(args@)),
    {
        if args.len() == 0 {
            return Err(CliError::MissingSubcommand);
        }
        let t = rest_of(args);
        if t.len() == 0 {
            return Err(CliError::MissingSubcommand);
        }
        let head = t[0];
        let rest = rest_of(t);
        assert(tokens_of(t@)[0] == head@);
        if is_help_token(head) {
            return Err(CliError::Help);
        }
        if same_text(head, "--") {
            return if rest.len() == 0 {
                Err(CliError::MissingSubcommand)
            } else {
                Err(CliError::UnexpectedArgument)
            };
        }
        if flag_like(head) {
            return Err(CliError::UnknownArgument);
        }
        if same_text(head, "displays") {
            match parse_resource(rest) {
                Ok(c) => Ok(Cli { command: Command::Displays { command: c } }),
                Err(e) => Err(e),
            }
        } else if same_text(head, "windows") {
            match parse_resource(rest) {
                Ok(c) => Ok(Cli { command: Command::Windows { command: c } }),
                Err(e) => Err(e),
            }
        } else if same_text(head, "stream") {
            match parse_stream(rest) {
                Ok(a) => Ok(Cli { command: Command::Stream(a) }),
                Err(e) => Err(e),
            }
        } else if same_text(head, "record") {
            match parse_record(rest) {
                Ok(a) => Ok(Cli { command: Command::Record(a) }),
                Err(e) => Err(e),
            }
        } else {
            Err(CliError::UnknownSubcommand)
        }
    }
}


/// `stream` and `record` never capture a display and a window at once.
pub proof fn law_one_capture_target(t: Seq<Seq<char>>)
    ensures
        stream_spec(t) matches Ok(a) ==> !(a.display is Some && a.window is Some),
        record_spec(t) matches Ok((a, _)) ==> !(a.display is Some && a.window is Some),
{
}


/// Arguments scanned after a leading positional argument read as they do without it.
proof fn lemma_leading_positional(o: Seq<char>, s: Seq<crate::args::ArgItem>)
    ensures
        forall|k: int| value_for(seq![crate::args::ArgItem::Pos(o)] + s, k) == #[trigger] value_for(s, k),
        has_duplicate(seq![crate::args::ArgItem::Pos(o)] + s) == has_duplicate(s),
        positionals(seq![crate::args::ArgItem::Pos(o)] + s) == seq![o] + positionals(s),
    decreases s.len(),
{
    let p = seq![crate::args::ArgItem::Pos(o)] + s;
    if s.len() == 0 {
        let e = Seq::<crate::args::ArgItem>::empty();
        assert(p.drop_last() =~= e);
        assert(p.last() == crate::args::ArgItem::Pos(o));
        assert forall|k: int| value_for(p, k) == #[trigger] value_for(s, k) by {
            assert(value_for(e, k) is None);
        }
        assert(has_duplicate(e) == false);
        assert(seq![o] + positionals(s) =~= seq![o]);
        assert(positionals(e) =~= Seq::<Seq<char>>::empty());
        assert(Seq::<Seq<char>>::empty().push(o) =~= seq![o]);
    } else {
        lemma_leading_positional(o, s.drop_last());
        assert(p.drop_last() =~= seq![crate::args::ArgItem::Pos(o)] + s.drop_last());
        assert(p.last() == s.last());
        assert forall|k: int| value_for(p, k) == #[trigger] value_for(s, k) by {
            assert(value_for(p.drop_last(), k) == value_for(s.drop_last(), k));
        }
        match s.last() {
            crate::args::ArgItem::Pos(x) => {
                assert(seq![o] + positionals(s.drop_last()).push(x) =~= (seq![o] + positionals(s.drop_last())).push(x));
            },
            crate::args::ArgItem::Opt(k, _) => {
                assert(value_for(p.drop_last(), k) == value_for(s.drop_last(), k));
            },
        }
    }
}

/// `record OUTPUT OPTIONS` captures exactly what `stream OPTIONS` captures:
/// the output file does not change how the capture options are read.
pub proof fn law_record_reads_the_stream_options(output: Seq<char>, t: Seq<Seq<char>>)
    requires
        !is_flag_like(output),
    ensures
        stream_spec(t) matches Ok(a) ==> record_spec(seq![output] + t) == Ok::<(StreamArgs, Seq<char>), CliError>(
            (a, output),
        ),
{
    reveal_strlit("--");
    reveal_strlit("-h");
    reveal_strlit("--help");
    let tokens = seq![output] + t;
    assert(tokens[0] == output);
    assert(tokens.drop_first() =~= t);
    if stream_spec(t) is Ok {
        let items = scan(t, stream_option_names(), stream_option_values(), false)->Ok_0;
        let all = seq![crate::args::ArgItem::Pos(output)] + items;
        assert(scan(tokens, stream_option_names(), stream_option_values(), false) == Ok::<Seq<crate::args::ArgItem>, CliError>(all));
        lemma_leading_positional(output, items);
        assert(positionals(items).len() == 0);
        assert(positionals(all) =~= seq![output]);
        assert(stream_args_from(all) == stream_args_from(items));
    }
}

/// `--window ID` asks for that window, and nothing else changes: no display,
/// 60 frames per second, no cursor.
pub proof fn law_window_option_is_kept(v: Seq<char>, n: u32)
    requires
        !is_flag_like(v),
        u32_value(v) == Some(n),
    ensures
        stream_spec(seq!["--window"@, v]) == Ok::<StreamArgs, CliError>(
            StreamArgs { display: None, window: Some(n), fps: 60, cursor: false },
        ),
{
    reveal_strlit("--window");
    reveal_strlit("window");
    reveal_strlit("display");
    reveal_strlit("fps");
    reveal_strlit("cursor");
    reveal_strlit("--");
    reveal_strlit("-h");
    reveal_strlit("--help");
    let t = seq!["--window"@, v];
    let w = "--window"@;
    reveal_with_fuel(crate::args::first_eq_from, 8);
    assert(crate::args::long_name(w) =~= "window"@);
    let names = stream_option_names();
    assert(names.last() == "cursor"@);
    assert(names.drop_last() =~= seq!["display"@, "window"@, "fps"@]);
    assert(names.drop_last().last() == "fps"@);
    assert(names.drop_last().drop_last() =~= seq!["display"@, "window"@]);
    assert(names.drop_last().drop_last().last() == "window"@);
    assert("window"@ != "cursor"@) by {
        assert("window"@[0] != "cursor"@[0]);
    }
    assert("window"@ != "fps"@);
    assert(crate::args::option_index(names.drop_last().drop_last(), "window"@) == 1);
    assert(crate::args::option_index(names.drop_last(), "window"@) == 1);
    assert(crate::args::option_index(names, "window"@) == 1);
    assert(stream_option_values()[1]);
    assert(crate::args::long_value(w) is None);
    assert(t[0] == w);
    assert(t.drop_first() =~= seq![v]);
    assert(seq![v][0] == v);
    assert(seq![v].drop_first() =~= Seq::<Seq<char>>::empty());
    let items = seq![crate::args::ArgItem::Opt(1, Some(v))];
    assert(seq![crate::args::ArgItem::Opt(1, Some(v))] + Seq::<crate::args::ArgItem>::empty() =~= items);
    let e = Seq::<Seq<char>>::empty();
    assert(scan(e, names, stream_option_values(), false) == Ok::<Seq<crate::args::ArgItem>, CliError>(
        Seq::<crate::args::ArgItem>::empty(),
    ));
    assert(w != "--"@);
    assert(w != "-h"@);
    assert(w != "--help"@);
    assert(w.len() >= 2 && w[0] == '-' && w[1] == '-');
    assert(t.drop_first().len() != 0 && !is_flag_like(t.drop_first()[0]));
    assert(t.drop_first().drop_first() =~= e);
    assert(scan(t, stream_option_names(), stream_option_values(), false) == Ok::<Seq<crate::args::ArgItem>, CliError>(items));
    assert(items.drop_last() =~= Seq::<crate::args::ArgItem>::empty());
    let none = Seq::<crate::args::ArgItem>::empty();
    assert(value_for(none, 0) is None && value_for(none, 1) is None && value_for(none, 2) is None && value_for(none, 3) is None);
    assert(items.last() == crate::args::ArgItem::Opt(1, Some(v)));
    assert(value_for(items, 0) is None);
    assert(value_for(items, 1) == Some(v));
    assert(value_for(items, 2) is None);
    assert(value_for(items, 3) is None);
    assert(!has_duplicate(none));
    assert(!has_duplicate(items));
    assert(positionals(none).len() == 0);
    assert(positionals(items) == positionals(none));
    assert(optional_u32(Some(v)) == Ok::<Option<u32>, CliError>(Some(n)));
}

} // verus!
