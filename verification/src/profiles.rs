//! Recording profiles: where a recording goes, in which format, and what
//! happens when it is done.

use vstd::prelude::*;

use crate::text::{
    decimal, decimal_spec, is_blank, join_path, join_path_spec, lemma_trim_empty_iff_blank,
    opt_text, owned, same_text, trim, trim_spec,
};
use crate::urls::{
    pair_chars, parse_url, query_pairs, url_fragment, url_host, url_parses,
    url_query_pairs, url_scheme, url_with_fragment, url_without_fragment, with_fragment,
    without_fragment, UrlParts,
};

verus! {

/// The container a recording is written in.
#[derive(Clone, Copy, Debug, PartialEq, Eq, Structural)]
pub enum RecordingFormat {
    Mp4,
    Hls,
    BlipBundle,
}

/// The label shown for each format.
pub open spec fn format_label(format: RecordingFormat) -> Seq<char> {
    match format {
        RecordingFormat::Mp4 => "MP4"@,
        RecordingFormat::Hls => "HLS"@,
        RecordingFormat::BlipBundle => "Blip Bundle"@,
    }
}

impl RecordingFormat {
    /// The label shown for this format.
    pub fn label(self) -> (r: &'static str)
        ensures
            r@ == format_label(self),
    {
        match self {
            RecordingFormat::Mp4 => "MP4",
            RecordingFormat::Hls => "HLS",
            RecordingFormat::BlipBundle => "Blip Bundle",
        }
    }
}

/// What the app does with a finished local recording.
#[derive(Clone, Copy, Debug, PartialEq, Eq, Structural)]
pub enum CompletionAction {
    Reveal,
    CopyToClipboard,
    NoAction,
}

/// Where a recording goes: a local folder or a Blip server.
#[derive(Clone, Debug, PartialEq, Eq)]
pub enum RecordingTarget {
    Local { folder: String },
    Remote { server_url: String },
}

/// The text-level view of a [`RecordingTarget`].
pub enum TargetView {
    Local(Seq<char>),
    Remote(Seq<char>),
}

impl View for RecordingTarget {
    type V = TargetView;

    open spec fn view(&self) -> TargetView {
        match self {
            RecordingTarget::Local { folder } => TargetView::Local(folder@),
            RecordingTarget::Remote { server_url } => TargetView::Remote(server_url@),
        }
    }
}

/// A named recording destination with its format and completion action.
#[derive(Clone, Debug, PartialEq, Eq)]
pub struct RecordingProfile {
    pub id: String,
    pub name: String,
    pub target: RecordingTarget,
    pub format: RecordingFormat,
    pub completion_action: CompletionAction,
}

/// The text-level view of a [`RecordingProfile`].
pub struct ProfileView {
    pub id: Seq<char>,
    pub name: Seq<char>,
    pub target: TargetView,
    pub format: RecordingFormat,
    pub completion_action: CompletionAction,
}

impl View for RecordingProfile {
    type V = ProfileView;

    open spec fn view(&self) -> ProfileView {
        ProfileView {
            id: self.id@,
            name: self.name@,
            target: self.target@,
            format: self.format,
            completion_action: self.completion_action,
        }
    }
}

/// The characters of an error message.
pub open spec fn unit_result_chars(r: Result<(), String>) -> Result<(), Seq<char>> {
    match r {
        Ok(()) => Ok(()),
        Err(e) => Err(e@),
    }
}

/// Whether a server URL may be used: HTTPS, or plain HTTP to `localhost`.
pub open spec fn secure_scheme(input: Seq<char>) -> bool {
    ||| url_scheme(input) == "https"@
    ||| url_scheme(input) == "http"@ && url_host(input) == Some("localhost"@)
}

/// Whether the URL carries a non-empty fragment, the access token.
pub open spec fn has_token(input: Seq<char>) -> bool {
    match url_fragment(input) {
        Some(f) => f.len() > 0,
        None => false,
    }
}

/// The verdict on a profile's configuration.
pub open spec fn validate_spec(p: ProfileView) -> Result<(), Seq<char>> {
    if is_blank(p.name) {
        Err("Profile name cannot be empty"@)
    } else {
        match p.target {
            TargetView::Local(folder) => {
                if p.format == RecordingFormat::Hls {
                    Err("Local recordings must use MP4 or Blip Bundle"@)
                } else if folder.len() == 0 {
                    Err("Choose a local recording folder"@)
                } else {
                    Ok(())
                }
            },
            TargetView::Remote(server_url) => {
                let url = trim_spec(server_url);
                if p.format == RecordingFormat::BlipBundle {
                    Err("Blip server recordings must use HLS or MP4"@)
                } else if !url_parses(url) {
                    Err("Enter a valid Blip server URL"@)
                } else if !secure_scheme(url) {
                    Err("The Blip server URL must use HTTPS"@)
                } else if !has_token(url) {
                    Err("The Blip server URL must include its access token"@)
                } else {
                    Ok(())
                }
            },
        }
    }
}

/// Whether the parsed URL is HTTPS, or plain HTTP to `localhost`.
pub(crate) fn is_secure(parts: &UrlParts) -> (r: bool)
    ensures
        r == (parts.scheme@ == "https"@ || (parts.scheme@ == "http"@ && opt_text(parts.host)
            == Some("localhost"@))),
{
    if same_text(parts.scheme.as_str(), "https") {
        return true;
    }
    if !same_text(parts.scheme.as_str(), "http") {
        return false;
    }
    match &parts.host {
        Some(h) => same_text(h.as_str(), "localhost"),
        None => false,
    }
}

/// Whether the parsed URL has a non-empty fragment.
pub(crate) fn has_fragment(parts: &UrlParts) -> (r: bool)
    ensures
        r == match opt_text(parts.fragment) {
            Some(f) => f.len() > 0,
            None => false,
        },
{
    match &parts.fragment {
        Some(f) => !f.as_str().is_empty(),
        None => false,
    }
}

impl RecordingProfile {
    /// A local MP4 profile.
    pub fn local(id: String, name: String, folder: String, completion_action: CompletionAction) -> (r: Self)
        ensures
            r@ == (ProfileView {
                id: id@,
                name: name@,
                target: TargetView::Local(folder@),
                format: RecordingFormat::Mp4,
                completion_action,
            }),
    {
        RecordingProfile {
            id,
            name,
            target: RecordingTarget::Local { folder },
            format: RecordingFormat::Mp4,
            completion_action,
        }
    }

    /// Checks the profile before it is used or saved.
    pub fn validate(&self) -> (r: Result<(), String>)
        ensures
            unit_result_chars(r) == validate_spec(self@),
    {
        let name = trim(self.name.as_str());
        proof { lemma_trim_empty_iff_blank(self.name@); }
        if name.as_str().is_empty() {
            return Err(owned("Profile name cannot be empty"));
        }
        match &self.target {
            RecordingTarget::Local { folder } => {
                if self.format == RecordingFormat::Hls {
                    return Err(owned("Local recordings must use MP4 or Blip Bundle"));
                }
                if folder.as_str().is_empty() {
                    Err(owned("Choose a local recording folder"))
                } else {
                    Ok(())
                }
            },
            RecordingTarget::Remote { server_url } => {
                if self.format == RecordingFormat::BlipBundle {
                    return Err(owned("Blip server recordings must use HLS or MP4"));
                }
                let url = trim(server_url.as_str());
                match parse_url(url.as_str()) {
                    None => Err(owned("Enter a valid Blip server URL")),
                    Some(parts) => {
                        if !is_secure(&parts) {
                            Err(owned("The Blip server URL must use HTTPS"))
                        } else if !has_fragment(&parts) {
                            Err(owned("The Blip server URL must include its access token"))
                        } else {
                            Ok(())
                        }
                    },
                }
            },
        }
    }
}


/// A server URL split into the URL without its fragment and the fragment, the
/// access token. Text that is not a URL is kept whole, with an empty token.
pub open spec fn split_server_url_spec(value: Seq<char>) -> (Seq<char>, Seq<char>) {
    let v = trim_spec(value);
    if !url_parses(v) {
        (v, Seq::empty())
    } else {
        (
            url_without_fragment(v),
            match url_fragment(v) {
                Some(f) => f,
                None => Seq::empty(),
            },
        )
    }
}

/// Splits a configured server URL into the server URL and its access token.
pub fn split_server_url(value: &str) -> (r: (String, String))
    ensures
        (r.0@, r.1@) == split_server_url_spec(value@),
{
    let v = trim(value);
    match parse_url(v.as_str()) {
        None => (v, String::new()),
        Some(parts) => {
            let token = match parts.fragment {
                Some(f) => f,
                None => String::new(),
            };
            match without_fragment(v.as_str()) {
                Some(base) => (base, token),
                None => (v, String::new()),
            }
        },
    }
}

/// A server URL with the access token placed in its fragment. Text that is not
/// a URL gets `#` and the token appended.
pub open spec fn join_server_url_spec(server_url: Seq<char>, token: Seq<char>) -> Seq<char> {
    let s = trim_spec(server_url);
    let t = trim_spec(token);
    if !url_parses(s) {
        s + "#"@ + t
    } else {
        url_with_fragment(s, t)
    }
}

/// Puts the access token back into a server URL. Server URLs of a quarter of
/// a gigabyte and more are left out: the `url` crate panics on URLs near
/// `u32::MAX` bytes long.
pub fn join_server_url(server_url: &str, token: &str) -> (r: String)
    requires
        server_url@.len() < 0x1000_0000,
    ensures
        r@ == join_server_url_spec(server_url@, token@),
{
    let s = trim(server_url);
    let t = trim(token);
    proof { crate::text::lemma_trim_len(server_url@); }
    match with_fragment(s.as_str(), t.as_str()) {
        Some(joined) => joined,
        None => {
            let mut r = s;
            r.append("#");
            r.append(t.as_str());
            r
        },
    }
}

/// The identifier a profile created at `nanos` nanoseconds after the Unix epoch gets.
pub open spec fn profile_id_spec(nanos: nat) -> Seq<char> {
    "profile-"@ + decimal_spec(nanos)
}

/// Nanoseconds since the Unix epoch by the system clock, or 0 when the clock
/// is set before it. Trusted: `SystemTime::now` and `duration_since`; nothing
/// is promised of the value, which depends on the clock.
#[verifier::external_body]
fn nanos_since_epoch() -> u128 {
    std::time::SystemTime::now().duration_since(std::time::UNIX_EPOCH).map_or(0, |d| d.as_nanos())
}

fn profile_id(nanos: u128) -> (r: String)
    ensures
        r@ == profile_id_spec(nanos as nat),
{
    let mut r = owned("profile-");
    let d = decimal(nanos);
    r.append(d.as_str());
    r
}

/// The profile that [`RecordingProfile::new_local_at`] creates.
pub open spec fn new_local_spec(folder: Seq<char>, nanos: nat) -> ProfileView {
    ProfileView {
        id: profile_id_spec(nanos),
        name: "New profile"@,
        target: TargetView::Local(folder),
        format: RecordingFormat::Mp4,
        completion_action: CompletionAction::Reveal,
    }
}

/// The profile that [`RecordingProfile::new_remote_at`] creates.
pub open spec fn new_remote_spec(name: Seq<char>, server_url: Seq<char>, nanos: nat) -> ProfileView {
    ProfileView {
        id: profile_id_spec(nanos),
        name,
        target: TargetView::Remote(server_url),
        format: RecordingFormat::Mp4,
        completion_action: CompletionAction::NoAction,
    }
}

impl RecordingProfile {
    /// A new local profile, identified by the creation time `nanos`.
    pub fn new_local_at(folder: String, nanos: u128) -> (r: Self)
        ensures
            r@ == new_local_spec(folder@, nanos as nat),
    {
        RecordingProfile::local(profile_id(nanos), owned("New profile"), folder, CompletionAction::Reveal)
    }

    /// A new local profile, identified by the current time.
    pub fn new_local(folder: String) -> (r: Self)
        ensures
            exists|nanos: nat| r@ == new_local_spec(folder@, nanos),
    {
        let nanos = nanos_since_epoch();
        RecordingProfile::new_local_at(folder, nanos)
    }

    /// A new remote profile, identified by the creation time `nanos`.
    pub fn new_remote_at(name: String, server_url: String, nanos: u128) -> (r: Self)
        ensures
            r@ == new_remote_spec(name@, server_url@, nanos as nat),
    {
        RecordingProfile {
            id: profile_id(nanos),
            name,
            target: RecordingTarget::Remote { server_url },
            format: RecordingFormat::Mp4,
            completion_action: CompletionAction::NoAction,
        }
    }

    /// A new remote profile, identified by the current time.
    pub fn new_remote(name: String, server_url: String) -> (r: Self)
        ensures
            exists|nanos: nat| r@ == new_remote_spec(name@, server_url@, nanos),
    {
        let nanos = nanos_since_epoch();
        RecordingProfile::new_remote_at(name, server_url, nanos)
    }
}


/// All recording profiles and the one selected for the next recording.
#[derive(Clone, Debug)]
pub struct RecordingProfiles {
    pub profiles: Vec<RecordingProfile>,
    pub selected_profile_id: String,
}

/// The text-level view of [`RecordingProfiles`].
pub struct ProfilesView {
    pub profiles: Seq<ProfileView>,
    pub selected_profile_id: Seq<char>,
}

/// The views of a sequence of profiles.
pub open spec fn profile_views(ps: Seq<RecordingProfile>) -> Seq<ProfileView> {
    ps.map_values(|p: RecordingProfile| p@)
}

impl View for RecordingProfiles {
    type V = ProfilesView;

    open spec fn view(&self) -> ProfilesView {
        ProfilesView { profiles: profile_views(self.profiles@), selected_profile_id: self.selected_profile_id@ }
    }
}

/// The index of the first profile with identifier `id`, or the length when none has it.
pub open spec fn first_with_id(ps: Seq<ProfileView>, id: Seq<char>) -> nat
    decreases ps.len(),
{
    if ps.len() == 0 {
        0
    } else if ps[0].id == id {
        0
    } else {
        1 + first_with_id(ps.drop_first(), id)
    }
}

/// `first_with_id` is the least index holding `id`, or the length.
pub proof fn lemma_first_with_id(ps: Seq<ProfileView>, id: Seq<char>)
    ensures
        first_with_id(ps, id) <= ps.len(),
        first_with_id(ps, id) < ps.len() ==> ps[first_with_id(ps, id) as int].id == id,
        forall|j: int| 0 <= j < first_with_id(ps, id) ==> ps[j].id != id,
    decreases ps.len(),
{
    if ps.len() > 0 && ps[0].id != id {
        lemma_first_with_id(ps.drop_first(), id);
        assert forall|j: int| 0 <= j < first_with_id(ps, id) implies ps[j].id != id by {
            if j > 0 {
                assert(ps[j] == ps.drop_first()[j - 1]);
            }
        }
    }
}

/// Any index that is the least holding `id` (or the length, when none holds it) is `first_with_id`.
proof fn lemma_first_with_id_unique(ps: Seq<ProfileView>, id: Seq<char>, r: int)
    requires
        0 <= r <= ps.len(),
        r < ps.len() ==> ps[r].id == id,
        forall|j: int| 0 <= j < r ==> ps[j].id != id,
    ensures
        r == first_with_id(ps, id),
{
    lemma_first_with_id(ps, id);
}

/// The index of the selected profile: the first with the selected identifier, else 0.
pub open spec fn selected_index_spec(v: ProfilesView) -> int {
    let f = first_with_id(v.profiles, v.selected_profile_id);
    if f < v.profiles.len() {
        f as int
    } else {
        0
    }
}

/// The default profiles: the Desktop, Documents and Downloads folders under
/// `home` and a clipboard profile recording into `temp`, with Desktop selected.
pub open spec fn defaults_spec(home: Seq<char>, temp: Seq<char>) -> ProfilesView {
    ProfilesView {
        profiles: seq![
            ProfileView {
                id: "desktop"@,
                name: "Desktop"@,
                target: TargetView::Local(join_path_spec(home, "Desktop"@)),
                format: RecordingFormat::Mp4,
                completion_action: CompletionAction::Reveal,
            },
            ProfileView {
                id: "documents"@,
                name: "Documents"@,
                target: TargetView::Local(join_path_spec(home, "Documents"@)),
                format: RecordingFormat::Mp4,
                completion_action: CompletionAction::Reveal,
            },
            ProfileView {
                id: "downloads"@,
                name: "Downloads"@,
                target: TargetView::Local(join_path_spec(home, "Downloads"@)),
                format: RecordingFormat::Mp4,
                completion_action: CompletionAction::Reveal,
            },
            ProfileView {
                id: "clipboard"@,
                name: "Clipboard"@,
                target: TargetView::Local(join_path_spec(temp, "blip-capture"@)),
                format: RecordingFormat::Mp4,
                completion_action: CompletionAction::CopyToClipboard,
            },
        ],
        selected_profile_id: "desktop"@,
    }
}

/// Profiles read back from the settings file: empty settings give the
/// defaults, and a selection that names no profile moves to the first one.
pub open spec fn from_loaded_spec(loaded: ProfilesView, home: Seq<char>, temp: Seq<char>) -> ProfilesView {
    if loaded.profiles.len() == 0 {
        defaults_spec(home, temp)
    } else if first_with_id(loaded.profiles, loaded.selected_profile_id) < loaded.profiles.len() {
        loaded
    } else {
        ProfilesView { profiles: loaded.profiles, selected_profile_id: loaded.profiles[0].id }
    }
}

/// The path of the settings file under the home folder `home`.
pub open spec fn settings_path_spec(home: Seq<char>) -> Seq<char> {
    join_path_spec(
        join_path_spec(home, "Library/Application Support/Blip Capture"@),
        "recording-profiles.json"@,
    )
}

/// The path of the recording profiles file under the home folder `home`.
pub fn settings_path(home: &str) -> (r: String)
    ensures
        r@ == settings_path_spec(home@),
{
    let folder = join_path(home, "Library/Application Support/Blip Capture");
    join_path(folder.as_str(), "recording-profiles.json")
}

impl RecordingProfiles {
    /// The default profiles for the home folder `home` and temporary folder `temp`.
    pub fn defaults_in(home: &str, temp: &str) -> (r: Self)
        ensures
            r@ == defaults_spec(home@, temp@),
    {
        let mut profiles: Vec<RecordingProfile> = Vec::new();
        profiles.push(RecordingProfile::local(owned("desktop"), owned("Desktop"), join_path(home, "Desktop"), CompletionAction::Reveal));
        profiles.push(RecordingProfile::local(owned("documents"), owned("Documents"), join_path(home, "Documents"), CompletionAction::Reveal));
        profiles.push(RecordingProfile::local(owned("downloads"), owned("Downloads"), join_path(home, "Downloads"), CompletionAction::Reveal));
        profiles.push(RecordingProfile::local(owned("clipboard"), owned("Clipboard"), join_path(temp, "blip-capture"), CompletionAction::CopyToClipboard));
        let r = RecordingProfiles { profiles, selected_profile_id: owned("desktop") };
        assert(r@.profiles =~= defaults_spec(home@, temp@).profiles);
        r
    }

    /// The index of the first profile with identifier `id`, or the number of profiles.
    fn position_of(&self, id: &str) -> (r: usize)
        ensures
            r == first_with_id(self@.profiles, id@),
    {
        let mut i: usize = 0;
        while i < self.profiles.len()
            invariant
                i <= self.profiles@.len(),
                forall|j: int| 0 <= j < i ==> self@.profiles[j].id != id@,
            decreases self.profiles@.len() - i,
        {
            if same_text(self.profiles[i].id.as_str(), id) {
                proof { lemma_first_with_id_unique(self@.profiles, id@, i as int); }
                return i;
            }
            i = i + 1;
        }
        proof { lemma_first_with_id_unique(self@.profiles, id@, i as int); }
        i
    }

    /// The index of the selected profile: the first with the selected identifier, else 0.
    pub fn selected_index(&self) -> (r: usize)
        ensures
            r as int == selected_index_spec(self@),
    {
        let f = self.position_of(self.selected_profile_id.as_str());
        if f < self.profiles.len() {
            f
        } else {
            0
        }
    }

    /// The selected profile; `None` only when there are no profiles.
    pub fn selected(&self) -> (r: Option<&RecordingProfile>)
        ensures
            r is Some == (self@.profiles.len() > 0),
            r matches Some(p) ==> p@ == self@.profiles[selected_index_spec(self@)],
    {
        let i = self.selected_index();
        if i < self.profiles.len() {
            Some(&self.profiles[i])
        } else {
            None
        }
    }

    /// Profiles read back from the settings file, made usable: empty settings
    /// give the defaults, and a selection that names no profile moves to the first.
    pub fn from_loaded(loaded: RecordingProfiles, home: &str, temp: &str) -> (r: Self)
        ensures
            r@ == from_loaded_spec(loaded@, home@, temp@),
    {
        if loaded.profiles.len() == 0 {
            return RecordingProfiles::defaults_in(home, temp);
        }
        let f = loaded.position_of(loaded.selected_profile_id.as_str());
        if f < loaded.profiles.len() {
            loaded
        } else {
            let id = loaded.profiles[0].id.clone();
            RecordingProfiles { profiles: loaded.profiles, selected_profile_id: id }
        }
    }
}


/// The value of the first query pair named `key`.
pub open spec fn first_value_for(pairs: Seq<(Seq<char>, Seq<char>)>, key: Seq<char>) -> Option<Seq<char>>
    decreases pairs.len(),
{
    if pairs.len() == 0 {
        None
    } else if pairs[0].0 == key {
        Some(pairs[0].1)
    } else {
        first_value_for(pairs.drop_first(), key)
    }
}

/// The server URL that a `blip-capture://add-profile?url=...` link carries.
pub open spec fn import_server_url_spec(value: Seq<char>) -> Result<Seq<char>, Seq<char>> {
    if !url_parses(value) {
        Err("invalid Blip Capture URL"@)
    } else if url_scheme(value) != "blip-capture"@ || url_host(value) != Some("add-profile"@) {
        Err("unsupported Blip Capture URL"@)
    } else {
        match first_value_for(url_query_pairs(value), "url"@) {
            None => Err("Blip Capture URL is missing its server URL"@),
            Some(u) => Ok(u),
        }
    }
}

/// Whether `p` is a remote profile for the server `base`.
pub open spec fn is_remote_for(p: ProfileView, base: Seq<char>) -> bool {
    match p.target {
        TargetView::Remote(s) => split_server_url_spec(s).0 == base,
        TargetView::Local(_) => false,
    }
}

/// The index of the first remote profile for the server `base`, or the length.
pub open spec fn first_remote_for(ps: Seq<ProfileView>, base: Seq<char>) -> nat
    decreases ps.len(),
{
    if ps.len() == 0 {
        0
    } else if is_remote_for(ps[0], base) {
        0
    } else {
        1 + first_remote_for(ps.drop_first(), base)
    }
}

proof fn lemma_first_remote_for(ps: Seq<ProfileView>, base: Seq<char>, r: int)
    requires
        0 <= r <= ps.len(),
        r < ps.len() ==> is_remote_for(ps[r], base),
        forall|j: int| 0 <= j < r ==> !is_remote_for(#[trigger] ps[j], base),
    ensures
        r == first_remote_for(ps, base),
    decreases ps.len(),
{
    if ps.len() > 0 && r > 0 {
        assert(!is_remote_for(ps[0], base));
        assert forall|j: int| 0 <= j < r - 1 implies !is_remote_for(#[trigger] ps.drop_first()[j], base) by {
            assert(ps.drop_first()[j] == ps[j + 1]);
        }
        if r - 1 < ps.len() - 1 {
            assert(ps.drop_first()[r - 1] == ps[r]);
        }
        lemma_first_remote_for(ps.drop_first(), base, r - 1);
    }
}

/// `p` with its target replaced by the remote server `server_url`.
pub open spec fn with_remote(p: ProfileView, server_url: Seq<char>) -> ProfileView {
    ProfileView {
        id: p.id,
        name: p.name,
        target: TargetView::Remote(server_url),
        format: p.format,
        completion_action: p.completion_action,
    }
}

/// The profiles after importing the link `value` at time `nanos`: a remote
/// profile for the same server takes the link's URL, or else a new remote
/// profile is added; either way it becomes the selected one.
pub open spec fn import_spec(v: ProfilesView, value: Seq<char>, nanos: nat) -> Result<ProfilesView, Seq<char>> {
    match import_server_url_spec(value) {
        Err(e) => Err(e),
        Ok(server_url) => {
            let base = split_server_url_spec(server_url).0;
            let i = first_remote_for(v.profiles, base);
            if i < v.profiles.len() {
                let p = v.profiles[i as int];
                Ok(
                    ProfilesView {
                        profiles: v.profiles.update(i as int, with_remote(p, server_url)),
                        selected_profile_id: p.id,
                    },
                )
            } else if !url_parses(server_url) {
                Err("invalid Blip server URL"@)
            } else {
                let name = match url_host(server_url) {
                    Some(h) => h,
                    None => "Blip server"@,
                };
                let p = new_remote_spec(name, server_url, nanos);
                match validate_spec(p) {
                    Err(e) => Err(e),
                    Ok(()) => Ok(
                        ProfilesView { profiles: v.profiles.push(p), selected_profile_id: p.id },
                    ),
                }
            }
        },
    }
}

/// The outcome of an import as the views it leaves behind.
pub open spec fn import_outcome(
    r: Result<(), String>,
    before: ProfilesView,
    after: ProfilesView,
    expected: Result<ProfilesView, Seq<char>>,
) -> bool {
    match expected {
        Ok(v) => r is Ok && after == v,
        Err(e) => r matches Err(m) && m@ == e && after == before,
    }
}

/// The value of the first pair named `key`.
fn first_value(pairs: &Vec<(String, String)>, key: &str) -> (r: Option<String>)
    ensures
        opt_text(r) == first_value_for(pair_chars(pairs@), key@),
{
    let ghost ps = pair_chars(pairs@);
    let mut i: usize = 0;
    assert(ps.skip(0) =~= ps);
    while i < pairs.len()
        invariant
            i <= pairs@.len(),
            ps == pair_chars(pairs@),
            first_value_for(ps, key@) == first_value_for(ps.skip(i as int), key@),
        decreases pairs@.len() - i,
    {
        assert(ps.skip(i as int)[0] == ps[i as int]);
        if same_text(pairs[i].0.as_str(), key) {
            return Some(pairs[i].1.clone());
        }
        assert(ps.skip(i as int).drop_first() =~= ps.skip(i + 1));
        i = i + 1;
    }
    assert(ps.skip(i as int).len() == 0);
    None
}

impl RecordingProfiles {
    /// The index of the first remote profile for the server `base`, or the number of profiles.
    fn position_of_remote(&self, base: &str) -> (r: usize)
        ensures
            r == first_remote_for(self@.profiles, base@),
    {
        let mut i: usize = 0;
        while i < self.profiles.len()
            invariant
                i <= self.profiles@.len(),
                forall|j: int| 0 <= j < i ==> !is_remote_for(#[trigger] self@.profiles[j], base@),
            decreases self.profiles@.len() - i,
        {
            let found = match &self.profiles[i].target {
                RecordingTarget::Remote { server_url } => {
                    let (b, _) = split_server_url(server_url.as_str());
                    same_text(b.as_str(), base)
                },
                RecordingTarget::Local { .. } => false,
            };
            if found {
                proof { lemma_first_remote_for(self@.profiles, base@, i as int); }
                return i;
            }
            i = i + 1;
        }
        proof { lemma_first_remote_for(self@.profiles, base@, i as int); }
        i
    }

    /// Imports a `blip-capture://add-profile?url=...` link; a new profile is
    /// identified by the time `nanos`. On failure nothing changes.
    pub fn import_url_at(&mut self, value: &str, nanos: u128) -> (r: Result<(), String>)
        ensures
            import_outcome(r, old(self)@, final(self)@, import_spec(old(self)@, value@, nanos as nat)),
    {
        let parts = match parse_url(value) {
            None => return Err(owned("invalid Blip Capture URL")),
            Some(p) => p,
        };
        let is_add = same_text(parts.scheme.as_str(), "blip-capture") && match &parts.host {
            Some(h) => same_text(h.as_str(), "add-profile"),
            None => false,
        };
        if !is_add {
            return Err(owned("unsupported Blip Capture URL"));
        }
        let pairs = query_pairs(value);
        let server_url = match first_value(&pairs, "url") {
            None => return Err(owned("Blip Capture URL is missing its server URL")),
            Some(u) => u,
        };
        let (base, _) = split_server_url(server_url.as_str());
        let i = self.position_of_remote(base.as_str());
        if i < self.profiles.len() {
            let ghost before = self@;
            let id = self.profiles[i].id.clone();
            let updated = RecordingProfile {
                id: self.profiles[i].id.clone(),
                name: self.profiles[i].name.clone(),
                target: RecordingTarget::Remote { server_url },
                format: self.profiles[i].format,
                completion_action: self.profiles[i].completion_action,
            };
            self.profiles.set(i, updated);
            self.selected_profile_id = id;
            assert(self@.profiles =~= before.profiles.update(i as int, with_remote(before.profiles[i as int], server_url@)));
            return Ok(());
        }
        let server = match parse_url(server_url.as_str()) {
            None => return Err(owned("invalid Blip server URL")),
            Some(p) => p,
        };
        let name = match server.host {
            Some(h) => h,
            None => owned("Blip server"),
        };
        let profile = RecordingProfile::new_remote_at(name, server_url, nanos);
        match profile.validate() {
            Err(e) => return Err(e),
            Ok(()) => {},
        }
        let ghost before = self@;
        self.selected_profile_id = profile.id.clone();
        self.profiles.push(profile);
        assert(self@.profiles =~= before.profiles.push(profile@));
        Ok(())
    }

    /// Imports a `blip-capture://add-profile?url=...` link; a new profile is
    /// identified by the current time. On failure nothing changes.
    pub fn import_url(&mut self, value: &str) -> (r: Result<(), String>)
        ensures
            exists|nanos: nat|
                import_outcome(r, old(self)@, final(self)@, #[trigger] import_spec(old(self)@, value@, nanos)),
    {
        let nanos = nanos_since_epoch();
        self.import_url_at(value, nanos)
    }
}


/// The profiles after importing the links `urls` in order, the `i`-th at time
/// `nanos[i]`, and the outcome: the first failure stops the imports, and the
/// ones before it stay.
pub open spec fn import_all_spec(v: ProfilesView, urls: Seq<Seq<char>>, nanos: Seq<nat>) -> (ProfilesView, Result<(), Seq<char>>)
    decreases urls.len(),
{
    if urls.len() == 0 {
        (v, Ok(()))
    } else {
        let (w, r) = import_all_spec(v, urls.drop_last(), nanos.drop_last());
        match r {
            Err(e) => (w, Err(e)),
            Ok(()) => match import_spec(w, urls.last(), nanos.last()) {
                Err(e) => (w, Err(e)),
                Ok(x) => (x, Ok(())),
            },
        }
    }
}

/// Once an import has failed, later links change nothing.
proof fn lemma_import_all_stops(v: ProfilesView, urls: Seq<Seq<char>>, nanos: Seq<nat>, k: int, j: int)
    requires
        0 <= k <= j <= urls.len(),
        nanos.len() == urls.len(),
        import_all_spec(v, urls.take(k), nanos.take(k)).1 is Err,
    ensures
        import_all_spec(v, urls.take(j), nanos.take(j)) == import_all_spec(v, urls.take(k), nanos.take(k)),
    decreases j - k,
{
    if j > k {
        lemma_import_all_stops(v, urls, nanos, k, j - 1);
        assert(urls.take(j).drop_last() =~= urls.take(j - 1));
        assert(nanos.take(j).drop_last() =~= nanos.take(j - 1));
    }
}

impl RecordingProfiles {
    /// Imports the links `urls` in order, each identified by the time of its
    /// import; the first failure stops the imports and is returned, and the
    /// imports before it are kept.
    pub fn import_urls(&mut self, urls: &Vec<String>) -> (r: Result<(), String>)
        ensures
            exists|nanos: Seq<nat>|
                nanos.len() == urls@.len() && #[trigger] import_all_spec(
                    old(self)@,
                    crate::text::texts(urls@),
                    nanos,
                ) == (final(self)@, unit_result_chars(r)),
    {
        let ghost start = self@;
        let ghost all = crate::text::texts(urls@);
        let ghost mut ns: Seq<nat> = Seq::empty();
        let mut i: usize = 0;
        assert(all.take(0) =~= Seq::<Seq<char>>::empty());
        while i < urls.len()
            invariant
                i <= urls@.len(),
                start == old(self)@,
                all == crate::text::texts(urls@),
                all.len() == urls@.len(),
                ns.len() == i,
                import_all_spec(start, all.take(i as int), ns) == (self@, Ok::<(), Seq<char>>(())),
            decreases urls@.len() - i,
        {
            let ghost before = self@;
            let r = self.import_url(urls[i].as_str());
            let ghost n = choose|n: nat| import_outcome(r, before, self@, #[trigger] import_spec(before, urls@[i as int]@, n));
            proof {
                assert(all[i as int] == urls@[i as int]@);
                assert(all.take(i + 1).drop_last() =~= all.take(i as int));
                assert(ns.push(n).drop_last() =~= ns);
            }
            match r {
                Err(e) => {
                    proof {
                        let full = ns.push(n) + Seq::new((urls@.len() - i - 1) as nat, |k: int| 0nat);
                        assert(full.take(i + 1) =~= ns.push(n));
                        assert(all.take(urls@.len() as int) =~= all);
                        assert(full.take(urls@.len() as int) =~= full);
                        lemma_import_all_stops(start, all, full, i + 1, urls@.len() as int);
                        assert(full.len() == urls@.len());
                        assert(import_all_spec(start, all, full) == (self@, unit_result_chars(Err::<(), String>(e))));
                    }
                    return Err(e);
                },
                Ok(()) => {},
            }
            proof { ns = ns.push(n); }
            i = i + 1;
        }
        proof {
            assert(all.take(urls@.len() as int) =~= all);
        }
        Ok(())
    }
}

/// Whether the selected identifier names one of the profiles.
pub open spec fn names_selected(v: ProfilesView) -> bool {
    first_with_id(v.profiles, v.selected_profile_id) < v.profiles.len()
}

/// Whether no two profiles share an identifier.
pub open spec fn ids_unique(ps: Seq<ProfileView>) -> bool {
    forall|i: int, j: int| 0 <= i < j < ps.len() ==> ps[i].id != ps[j].id
}

/// Whether some profile has the identifier `id`.
pub open spec fn has_id(ps: Seq<ProfileView>, id: Seq<char>) -> bool {
    exists|j: int| 0 <= j < ps.len() && ps[j].id == id
}

/// `first_remote_for` is the least index of a remote profile for `base`, or the length.
proof fn lemma_first_remote_for_props(ps: Seq<ProfileView>, base: Seq<char>)
    ensures
        first_remote_for(ps, base) <= ps.len(),
        first_remote_for(ps, base) < ps.len() ==> is_remote_for(ps[first_remote_for(ps, base) as int], base),
        forall|j: int| 0 <= j < first_remote_for(ps, base) ==> !is_remote_for(#[trigger] ps[j], base),
    decreases ps.len(),
{
    if ps.len() > 0 && !is_remote_for(ps[0], base) {
        lemma_first_remote_for_props(ps.drop_first(), base);
        assert forall|j: int| 0 <= j < first_remote_for(ps, base) implies !is_remote_for(#[trigger] ps[j], base) by {
            if j > 0 {
                assert(ps[j] == ps.drop_first()[j - 1]);
            }
        }
    }
}

/// A selection that names a profile is found at the least index holding its identifier.
proof fn lemma_named_at(ps: Seq<ProfileView>, id: Seq<char>, k: int)
    requires
        0 <= k < ps.len(),
        ps[k].id == id,
    ensures
        first_with_id(ps, id) <= k,
{
    lemma_first_with_id(ps, id);
}

/// Profiles read back from the settings file are always usable: there is at
/// least one, and the selection names one of them.
pub proof fn law_loaded_profiles_are_usable(loaded: ProfilesView, home: Seq<char>, temp: Seq<char>)
    ensures
        from_loaded_spec(loaded, home, temp).profiles.len() > 0,
        names_selected(from_loaded_spec(loaded, home, temp)),
{
    let r = from_loaded_spec(loaded, home, temp);
    if loaded.profiles.len() == 0 {
        assert(r.profiles[0].id == r.selected_profile_id);
        lemma_named_at(r.profiles, r.selected_profile_id, 0);
    } else if first_with_id(loaded.profiles, loaded.selected_profile_id) < loaded.profiles.len() {
    } else {
        lemma_named_at(r.profiles, r.selected_profile_id, 0);
    }
}

/// Importing a link twice changes nothing the second time: the profile the
/// first import made or updated is found again and already holds the link's
/// server URL.
pub proof fn law_import_is_idempotent(v: ProfilesView, value: Seq<char>, first: nat, second: nat)
    requires
        import_spec(v, value, first) is Ok,
    ensures
        import_spec(import_spec(v, value, first)->Ok_0, value, second) == import_spec(v, value, first),
{
    let server_url = import_server_url_spec(value)->Ok_0;
    let base = split_server_url_spec(server_url).0;
    let w = import_spec(v, value, first)->Ok_0;
    let i = first_remote_for(v.profiles, base);
    lemma_first_remote_for_props(v.profiles, base);
    if i < v.profiles.len() {
        let p = with_remote(v.profiles[i as int], server_url);
        assert(is_remote_for(w.profiles[i as int], base));
        assert forall|j: int| 0 <= j < i implies !is_remote_for(#[trigger] w.profiles[j], base) by {
            assert(w.profiles[j] == v.profiles[j]);
        }
        lemma_first_remote_for(w.profiles, base, i as int);
        assert(w.profiles.update(i as int, with_remote(w.profiles[i as int], server_url)) =~= w.profiles);
    } else {
        let n = v.profiles.len() as int;
        assert(is_remote_for(w.profiles[n], base));
        assert forall|j: int| 0 <= j < n implies !is_remote_for(#[trigger] w.profiles[j], base) by {
            assert(w.profiles[j] == v.profiles[j]);
        }
        lemma_first_remote_for(w.profiles, base, n);
        assert(w.profiles.update(n, with_remote(w.profiles[n], server_url)) =~= w.profiles);
    }
}

/// After a successful import the selected profile is a remote profile with
/// the link's server URL, provided identifiers are unique and the time of the
/// import gives a new one.
pub proof fn law_import_selects_the_server(v: ProfilesView, value: Seq<char>, nanos: nat)
    requires
        ids_unique(v.profiles),
        !has_id(v.profiles, profile_id_spec(nanos)),
        import_spec(v, value, nanos) is Ok,
    ensures
        ({
            let w = import_spec(v, value, nanos)->Ok_0;
            &&& ids_unique(w.profiles)
            &&& 0 <= selected_index_spec(w) < w.profiles.len()
            &&& w.profiles[selected_index_spec(w)].target == TargetView::Remote(import_server_url_spec(value)->Ok_0)
        }),
{
    let server_url = import_server_url_spec(value)->Ok_0;
    let base = split_server_url_spec(server_url).0;
    let w = import_spec(v, value, nanos)->Ok_0;
    let i = first_remote_for(v.profiles, base);
    lemma_first_remote_for_props(v.profiles, base);
    let k: int = if i < v.profiles.len() { i as int } else { v.profiles.len() as int };
    assert(w.profiles[k].id == w.selected_profile_id);
    assert forall|a: int, b: int| 0 <= a < b < w.profiles.len() implies w.profiles[a].id != w.profiles[b].id by {
        if b < v.profiles.len() {
            assert(w.profiles[a].id == v.profiles[a].id);
            assert(w.profiles[b].id == v.profiles[b].id);
        } else {
            assert(w.profiles[a].id == v.profiles[a].id);
        }
    }
    assert forall|j: int| 0 <= j < k implies w.profiles[j].id != w.selected_profile_id by {}
    lemma_first_with_id_unique(w.profiles, w.selected_profile_id, k);
}


/// A local profile with a name and a folder is refused only for HLS: MP4 and
/// Blip Bundle recordings may be written to a folder.
pub proof fn law_local_profiles_take_mp4_and_bundles(p: ProfileView, folder: Seq<char>)
    requires
        !is_blank(p.name),
        p.target == TargetView::Local(folder),
        folder.len() > 0,
    ensures
        validate_spec(p) is Ok <==> p.format != RecordingFormat::Hls,
        p.format == RecordingFormat::Mp4 ==> validate_spec(p) == Ok::<(), Seq<char>>(()),
        p.format == RecordingFormat::BlipBundle ==> validate_spec(p) == Ok::<(), Seq<char>>(()),
        p.format == RecordingFormat::Hls ==> validate_spec(p) == Err::<(), Seq<char>>(
            "Local recordings must use MP4 or Blip Bundle"@,
        ),
{
}

} // verus!
