//! Names shown to people and given to files: listing fields, capture target
//! names, recording file names and the toolbar width that fits a label.

use vstd::prelude::*;

use crate::profiles::{RecordingFormat, RecordingTarget, TargetView};
use crate::text::{
    chars_of, decimal, decimal_spec, is_blank, join_path, join_path_spec,
    lemma_trim_empty_iff_blank, opt_text, owned, string_of, trim, trim_spec,
};

verus! {

/// A listing field's character: tabs and line breaks become spaces.
pub open spec fn field_char(c: char) -> char {
    if c == '\t' || c == '\n' || c == '\r' { ' ' } else { c }
}

/// `value` with every tab, line feed and carriage return replaced by a space,
/// so that it fits in one tab-separated field.
pub fn sanitize(value: &str) -> (r: String)
    ensures
        r@ == value@.map_values(|c: char| field_char(c)),
{
    let chars = chars_of(value);
    let mut out: Vec<char> = Vec::new();
    let mut i: usize = 0;
    while i < chars.len()
        invariant
            i <= chars@.len(),
            chars@ == value@,
            out@ == chars@.take(i as int).map_values(|c: char| field_char(c)),
        decreases chars@.len() - i,
    {
        let c = chars[i];
        out.push(if c == '\t' || c == '\n' || c == '\r' { ' ' } else { c });
        assert(chars@.take(i + 1).map_values(|c: char| field_char(c)) =~= chars@.take(i as int).map_values(
            |c: char| field_char(c),
        ).push(field_char(c)));
        i = i + 1;
    }
    assert(chars@.take(chars@.len() as int) =~= chars@);
    string_of(out.as_slice())
}

/// A listing field never holds a tab or a line break, and keeps its length.
pub proof fn law_fields_stay_on_one_line(value: Seq<char>)
    ensures
        value.map_values(|c: char| field_char(c)).len() == value.len(),
        forall|i: int| 0 <= i < value.len() ==> #[trigger] field_char(value[i]) != '\t' && field_char(value[i])
            != '\n' && field_char(value[i]) != '\r',
        forall|i: int| 0 <= i < value.len() ==> value.map_values(|c: char| field_char(c))[i] == #[trigger] field_char(value[i]),
{
}

/// Unicode control characters (general category Cc), as `char::is_control` tests.
pub open spec fn is_control_spec(c: char) -> bool {
    (c as int) < 0x20 || (0x7f <= (c as int) && (c as int) < 0xa0)
}

/// A file name character: path separators, colons and control characters
/// become `-`.
pub open spec fn file_char(c: char) -> char {
    if c == '/' || c == ':' || is_control_spec(c) { '-' } else { c }
}

/// The number of bytes `c` takes in UTF-8.
pub open spec fn utf8_len(c: char) -> nat {
    let n = c as int;
    if n < 0x80 {
        1
    } else if n < 0x800 {
        2
    } else if n < 0x10000 {
        3
    } else {
        4
    }
}

/// The longest prefix of `s` that takes at most `limit` bytes in UTF-8.
pub open spec fn within_bytes(s: Seq<char>, limit: nat) -> Seq<char>
    decreases s.len(),
{
    if s.len() == 0 {
        s
    } else if utf8_len(s[0]) <= limit {
        seq![s[0]] + within_bytes(s.drop_first(), (limit - utf8_len(s[0])) as nat)
    } else {
        Seq::empty()
    }
}

/// The number of bytes `s` takes in UTF-8.
pub open spec fn utf8_size(s: Seq<char>) -> nat
    decreases s.len(),
{
    if s.len() == 0 {
        0
    } else {
        utf8_len(s[0]) + utf8_size(s.drop_first())
    }
}

/// `within_bytes` keeps a prefix that fits, and at least one character when
/// the first one fits.
proof fn lemma_within_bytes(s: Seq<char>, limit: nat)
    ensures
        within_bytes(s, limit).len() <= s.len(),
        forall|i: int| 0 <= i < within_bytes(s, limit).len() ==> #[trigger] within_bytes(s, limit)[i] == s[i],
        utf8_size(within_bytes(s, limit)) <= limit,
        s.len() > 0 && utf8_len(s[0]) <= limit ==> within_bytes(s, limit).len() > 0,
    decreases s.len(),
{
    if s.len() > 0 && utf8_len(s[0]) <= limit {
        let rest = (limit - utf8_len(s[0])) as nat;
        lemma_within_bytes(s.drop_first(), rest);
        let w = within_bytes(s, limit);
        assert(w.drop_first() =~= within_bytes(s.drop_first(), rest));
        assert forall|i: int| 0 <= i < w.len() implies #[trigger] w[i] == s[i] by {
            if i > 0 {
                assert(w[i] == w.drop_first()[i - 1]);
            }
        }
    } else if s.len() > 0 {
        assert(within_bytes(s, limit) =~= Seq::<char>::empty());
    }
}

/// The most bytes a recording's file name keeps from its capture target.
pub const MAX_TARGET_NAME_BYTES: usize = 150;

/// The file-name form of a capture target's name: trimmed, with path
/// separators, colons and control characters made `-`, cut to whole
/// characters within 150 bytes, and `Recording` when nothing is left.
pub open spec fn sanitize_filename_spec(name: Seq<char>) -> Seq<char> {
    let cleaned = trim_spec(name).map_values(|c: char| file_char(c));
    if cleaned.len() == 0 {
        "Recording"@
    } else {
        within_bytes(cleaned, 150)
    }
}

/// Whether `c` may stand in a file name made from a capture target's name.
pub open spec fn is_file_name_char(c: char) -> bool {
    c != '/' && c != ':' && !is_control_spec(c)
}

/// A recording's file name from a capture target's name is never empty, never
/// holds a path separator, a colon or a control character, and takes at most
/// 150 bytes in UTF-8.
pub proof fn law_file_names_are_safe(name: Seq<char>)
    ensures
        sanitize_filename_spec(name).len() > 0,
        forall|i: int| 0 <= i < sanitize_filename_spec(name).len() ==> is_file_name_char(
            #[trigger] sanitize_filename_spec(name)[i],
        ),
        utf8_size(sanitize_filename_spec(name)) <= 150,
{
    let cleaned = trim_spec(name).map_values(|c: char| file_char(c));
    if cleaned.len() == 0 {
        reveal_strlit("Recording");
        reveal_with_fuel(utf8_size, 10);
    } else {
        lemma_within_bytes(cleaned, 150);
        let w = within_bytes(cleaned, 150);
        assert forall|i: int| 0 <= i < w.len() implies is_file_name_char(#[trigger] w[i]) by {
            assert(w[i] == cleaned[i]);
        }
    }
}

fn is_control(c: char) -> (r: bool)
    ensures
        r == is_control_spec(c),
{
    let n = c as u32;
    n < 0x20 || (0x7f <= n && n < 0xa0)
}

fn char_bytes(c: char) -> (r: usize)
    ensures
        r == utf8_len(c),
{
    let n = c as u32;
    if n < 0x80 {
        1
    } else if n < 0x800 {
        2
    } else if n < 0x10000 {
        3
    } else {
        4
    }
}

/// Taking characters from the front while they fit gives `within_bytes`.
proof fn lemma_within_bytes_step(s: Seq<char>, limit: nat, i: int)
    requires
        0 <= i < s.len(),
        utf8_len(s[i]) <= limit,
    ensures
        within_bytes(s.skip(i), limit) == seq![s[i]] + within_bytes(
            s.skip(i + 1),
            (limit - utf8_len(s[i])) as nat,
        ),
{
    assert(s.skip(i)[0] == s[i]);
    assert(s.skip(i).drop_first() =~= s.skip(i + 1));
}

/// The file-name form of a capture target's name.
pub fn sanitize_filename(name: &str) -> (r: String)
    ensures
        r@ == sanitize_filename_spec(name@),
{
    let trimmed = trim(name);
    let chars = chars_of(trimmed.as_str());
    let ghost cleaned = trim_spec(name@).map_values(|c: char| file_char(c));
    if chars.len() == 0 {
        assert(cleaned.len() == 0);
        return owned("Recording");
    }
    let mut out: Vec<char> = Vec::new();
    let mut budget: usize = MAX_TARGET_NAME_BYTES;
    let mut i: usize = 0;
    assert(cleaned.skip(0) =~= cleaned);
    while i < chars.len()
        invariant
            i <= chars@.len(),
            chars@ == trim_spec(name@),
            cleaned == chars@.map_values(|c: char| file_char(c)),
            budget <= MAX_TARGET_NAME_BYTES,
            within_bytes(cleaned, 150) == out@ + within_bytes(cleaned.skip(i as int), budget as nat),
        decreases chars@.len() - i,
    {
        let c = chars[i];
        let f = if c == '/' || c == ':' || is_control(c) { '-' } else { c };
        assert(cleaned[i as int] == f);
        let n = char_bytes(f);
        if n > budget {
            assert(cleaned.skip(i as int)[0] == f);
            assert(within_bytes(cleaned.skip(i as int), budget as nat) =~= Seq::<char>::empty());
            assert(out@ + Seq::<char>::empty() =~= out@);
            return string_of(out.as_slice());
        }
        let ghost prev = out@;
        proof {
            lemma_within_bytes_step(cleaned, budget as nat, i as int);
            let rest = within_bytes(cleaned.skip(i + 1), (budget - n) as nat);
            assert(prev + (seq![f] + rest) =~= prev.push(f) + rest);
        }
        out.push(f);
        budget = budget - n;
        i = i + 1;
    }
    assert(cleaned.skip(i as int).len() == 0);
    assert(out@ + within_bytes(cleaned.skip(i as int), budget as nat) =~= out@);
    string_of(out.as_slice())
}


/// The name of a window: its application and title, whichever are known, and
/// `Window <id>` when neither is. A title of only white space counts as none.
pub open spec fn window_name_spec(application: Option<Seq<char>>, title: Option<Seq<char>>, id: u32) -> Seq<char> {
    let title = match title {
        Some(t) => if is_blank(t) { None } else { Some(t) },
        None => None,
    };
    match (application, title) {
        (Some(a), Some(t)) => a + " - "@ + t,
        (Some(a), None) => a,
        (None, Some(t)) => t,
        (None, None) => "Window "@ + decimal_spec(id as nat),
    }
}

/// `prefix` followed by the decimal notation of `n`.
pub fn numbered(prefix: &str, n: u32) -> (r: String)
    ensures
        r@ == prefix@ + decimal_spec(n as nat),
{
    let mut r = owned(prefix);
    let d = decimal(n as u128);
    r.append(d.as_str());
    r
}

/// The name of a window from its application's name and its title.
pub fn window_name(application: Option<String>, title: Option<String>, id: u32) -> (r: String)
    ensures
        r@ == window_name_spec(opt_text(application), opt_text(title), id),
{
    let title = match title {
        Some(t) => {
            let trimmed = trim(t.as_str());
            proof { lemma_trim_empty_iff_blank(t@); }
            if trimmed.as_str().is_empty() { None } else { Some(t) }
        },
        None => None,
    };
    match (application, title) {
        (Some(a), Some(t)) => {
            let mut r = a;
            r.append(" - ");
            r.append(t.as_str());
            r
        },
        (Some(a), None) => a,
        (None, Some(t)) => t,
        (None, None) => numbered("Window ", id),
    }
}

/// The toolbar's size for the profile label `label`: 448 points plus 8 per
/// character, counting between 3 and 30 characters, by 56 points.
pub open spec fn toolbar_dimensions_spec(label: Seq<char>) -> (int, int) {
    let n = if label.len() < 3 { 3 } else if label.len() > 30 { 30 } else { label.len() as int };
    (448 + 8 * n, 56)
}

/// The toolbar's width and height, in points, for the profile label `label`.
pub fn toolbar_dimensions_for_label(label: &str) -> (r: (u32, u32))
    ensures
        (r.0 as int, r.1 as int) == toolbar_dimensions_spec(label@),
{
    let count = label.unicode_len();
    let n: u32 = if count < 3 { 3 } else if count > 30 { 30 } else { count as u32 };
    (448 + 8 * n, 56)
}

/// The file name, without extension, of a recording of `target_name` made on `date`.
pub open spec fn recording_stem_spec(target_name: Seq<char>, date: Seq<char>) -> Seq<char> {
    sanitize_filename_spec(target_name) + " - "@ + date
}

/// The file name, without extension, of a recording of `target_name` made on
/// `date` (written `YYYY-MM-DD`).
pub fn recording_stem(target_name: &str, date: &str) -> (r: String)
    ensures
        r@ == recording_stem_spec(target_name@, date@),
{
    let mut r = sanitize_filename(target_name);
    r.append(" - ");
    r.append(date);
    r
}

/// A candidate path for a recording: `<stem>.<extension>` in `folder`, or,
/// with a number, `<stem> <number>.<extension>`.
pub open spec fn output_candidate_spec(folder: Seq<char>, stem: Seq<char>, extension: Seq<char>, number: Option<u32>) -> Seq<char> {
    let name = match number {
        None => stem + "."@ + extension,
        Some(n) => stem + " "@ + decimal_spec(n as nat) + "."@ + extension,
    };
    join_path_spec(folder, name)
}

/// A candidate path for a recording. The first is tried without a number;
/// the following ones are numbered from 2 until a free path is found.
pub fn output_candidate(folder: &str, stem: &str, extension: &str, number: Option<u32>) -> (r: String)
    ensures
        r@ == output_candidate_spec(folder@, stem@, extension@, number),
{
    let mut name = owned(stem);
    match number {
        None => {},
        Some(n) => {
            name.append(" ");
            let d = decimal(n as u128);
            name.append(d.as_str());
        },
    }
    name.append(".");
    name.append(extension);
    join_path(folder, name.as_str())
}

/// The folder a recording is written to: the profile's folder, or for a
/// server, `blip-capture` in the temporary folder `temp`.
pub open spec fn output_folder_spec(target: TargetView, temp: Seq<char>) -> Seq<char> {
    match target {
        TargetView::Local(folder) => folder,
        TargetView::Remote(_) => join_path_spec(temp, "blip-capture"@),
    }
}

/// The folder a recording to `target` is written to.
pub fn output_folder(target: &RecordingTarget, temp: &str) -> (r: String)
    ensures
        r@ == output_folder_spec(target@, temp@),
{
    match target {
        RecordingTarget::Local { folder } => folder.clone(),
        RecordingTarget::Remote { .. } => join_path(temp, "blip-capture"),
    }
}

/// The extension of a recording in `format`.
pub open spec fn output_extension_spec(format: RecordingFormat) -> Seq<char> {
    match format {
        RecordingFormat::Hls => "hls"@,
        RecordingFormat::BlipBundle => "blip"@,
        RecordingFormat::Mp4 => "mp4"@,
    }
}

/// The extension of a recording in `format`.
pub fn output_extension(format: RecordingFormat) -> (r: &'static str)
    ensures
        r@ == output_extension_spec(format),
{
    match format {
        RecordingFormat::Hls => "hls",
        RecordingFormat::BlipBundle => "blip",
        RecordingFormat::Mp4 => "mp4",
    }
}

/// What is removed when a recording at `path` fails: HLS folders and Blip
/// Bundles are removed whole; an MP4 file is left alone.
pub fn cleanup_on_failure(format: RecordingFormat, path: &str) -> (r: Option<String>)
    ensures
        format == RecordingFormat::Mp4 ==> r is None,
        format != RecordingFormat::Mp4 ==> (r matches Some(p) && p@ == path@),
{
    match format {
        RecordingFormat::Mp4 => None,
        _ => Some(owned(path)),
    }
}


/// `n` in decimal, at least two digits wide (`{:02}`).
pub open spec fn two_digits(n: nat) -> Seq<char> {
    if n < 10 {
        "0"@ + decimal_spec(n)
    } else {
        decimal_spec(n)
    }
}

fn push_two_digits(out: &mut String, n: u64)
    ensures
        final(out)@ == old(out)@ + two_digits(n as nat),
{
    if n < 10 {
        out.append("0");
    }
    let d = decimal(n as u128);
    out.append(d.as_str());
}

/// The timeline's timecode for a position `total_frames` frames in at `fps`
/// frames per second (at least 1): minutes, seconds and frames, each at
/// least two digits, separated by colons.
pub open spec fn timecode_spec(total_frames: u64, fps: u32) -> Seq<char> {
    let rate: nat = if fps == 0 { 1 } else { fps as nat };
    let seconds = total_frames as nat / rate;
    two_digits(seconds / 60) + ":"@ + two_digits(seconds % 60) + ":"@ + two_digits(total_frames as nat % rate)
}

/// The timeline's timecode for a position `total_frames` frames in.
pub fn timecode_from_frames(total_frames: u64, fps: u32) -> (r: String)
    ensures
        r@ == timecode_spec(total_frames, fps),
{
    let rate: u64 = if fps == 0 { 1 } else { fps as u64 };
    let seconds = total_frames / rate;
    let mut r = String::new();
    push_two_digits(&mut r, seconds / 60);
    r.append(":");
    push_two_digits(&mut r, seconds % 60);
    r.append(":");
    push_two_digits(&mut r, total_frames % rate);
    r
}

} // verus!
