//! The profile settings form: a list of profiles, the one being edited and the
//! text typed into the name, destination and token fields.

use vstd::prelude::*;

use crate::profiles::{
    first_with_id, join_server_url, join_server_url_spec, names_selected, new_local_spec,
    profile_views, split_server_url, split_server_url_spec, validate_spec, CompletionAction,
    ProfileView, ProfilesView, RecordingFormat, RecordingProfile, RecordingProfiles,
    RecordingTarget, TargetView,
};
use crate::text::{join_path, join_path_spec, owned, trim, trim_spec};

verus! {

/// The text of the three form fields.
#[derive(Clone, Debug, PartialEq, Eq)]
pub struct ProfileInputs {
    pub name: String,
    pub destination: String,
    pub token: String,
}

/// The characters of the three form fields.
pub struct InputsView {
    pub name: Seq<char>,
    pub destination: Seq<char>,
    pub token: Seq<char>,
}

impl View for ProfileInputs {
    type V = InputsView;

    open spec fn view(&self) -> InputsView {
        InputsView { name: self.name@, destination: self.destination@, token: self.token@ }
    }
}

/// The editing state: the profiles, the index of the one shown in the form,
/// and the error shown under it.
#[derive(Clone, Debug)]
pub struct ProfileSettings {
    pub profiles: RecordingProfiles,
    pub selected: usize,
    pub error: Option<String>,
}

/// The characters of the editing state.
pub struct SettingsView {
    pub profiles: ProfilesView,
    pub selected: int,
    pub error: Option<Seq<char>>,
}

impl View for ProfileSettings {
    type V = SettingsView;

    open spec fn view(&self) -> SettingsView {
        SettingsView {
            profiles: self.profiles@,
            selected: self.selected as int,
            error: match self.error {
                Some(e) => Some(e@),
                None => None,
            },
        }
    }
}

/// Whether `v` points at one of its profiles.
pub open spec fn has_selection(v: SettingsView) -> bool {
    0 <= v.selected < v.profiles.profiles.len()
}

/// What the form shows for profile `p`: its name, and its folder, or its
/// server URL split into the URL and the access token.
pub open spec fn inputs_for(p: ProfileView) -> InputsView {
    match p.target {
        TargetView::Local(folder) => InputsView { name: p.name, destination: folder, token: Seq::empty() },
        TargetView::Remote(server_url) => {
            let parts = split_server_url_spec(server_url);
            InputsView { name: p.name, destination: parts.0, token: parts.1 }
        },
    }
}

/// Profile `p` after the trimmed form text is written into it: the name, and
/// the folder, or the server URL joined with the token.
pub open spec fn committed(p: ProfileView, inputs: InputsView) -> ProfileView {
    let destination = trim_spec(inputs.destination);
    ProfileView {
        id: p.id,
        name: trim_spec(inputs.name),
        target: match p.target {
            TargetView::Local(_) => TargetView::Local(destination),
            TargetView::Remote(_) => TargetView::Remote(
                join_server_url_spec(destination, trim_spec(inputs.token)),
            ),
        },
        format: p.format,
        completion_action: p.completion_action,
    }
}

/// `v` with the form text written into the profile being edited, if any.
pub open spec fn commit_spec(v: SettingsView, inputs: InputsView) -> SettingsView {
    if has_selection(v) {
        SettingsView {
            profiles: ProfilesView {
                profiles: v.profiles.profiles.update(
                    v.selected,
                    committed(v.profiles.profiles[v.selected], inputs),
                ),
                selected_profile_id: v.profiles.selected_profile_id,
            },
            selected: v.selected,
            error: v.error,
        }
    } else {
        v
    }
}

/// What the form shows for `v`: `None` when no profile is being edited.
pub open spec fn shown_inputs(v: SettingsView) -> Option<InputsView> {
    if has_selection(v) {
        Some(inputs_for(v.profiles.profiles[v.selected]))
    } else {
        None
    }
}

/// The view of an optional form.
pub open spec fn opt_inputs(o: Option<ProfileInputs>) -> Option<InputsView> {
    match o {
        Some(i) => Some(i@),
        None => None,
    }
}

/// The state after choosing profile `index`: the form text is kept first, and
/// an index past the end changes nothing else.
pub open spec fn select_spec(v: SettingsView, index: int, inputs: InputsView) -> SettingsView {
    let c = commit_spec(v, inputs);
    if 0 <= index < c.profiles.profiles.len() {
        SettingsView { profiles: c.profiles, selected: index, error: None }
    } else {
        c
    }
}

/// The state after adding the profile `p`: it is appended and edited next.
pub open spec fn add_spec(v: SettingsView, inputs: InputsView, p: ProfileView) -> SettingsView {
    let c = commit_spec(v, inputs);
    SettingsView {
        profiles: ProfilesView {
            profiles: c.profiles.profiles.push(p),
            selected_profile_id: c.profiles.selected_profile_id,
        },
        selected: c.profiles.profiles.len() as int,
        error: None,
    }
}

/// The message shown when the last profile would be deleted.
pub open spec fn last_profile_error() -> Seq<char> {
    "At least one recording profile is required"@
}

/// The state after deleting the edited profile. The last profile is never
/// deleted; a selection that named the deleted profile moves to the first one.
pub open spec fn delete_spec(v: SettingsView) -> SettingsView {
    let ps = v.profiles.profiles;
    if ps.len() == 1 {
        SettingsView { profiles: v.profiles, selected: v.selected, error: Some(last_profile_error()) }
    } else if !has_selection(v) {
        v
    } else {
        let removed = ps[v.selected];
        let rest = ps.remove(v.selected);
        let last = if rest.len() > 0 { rest.len() - 1 } else { 0 };
        SettingsView {
            profiles: ProfilesView {
                profiles: rest,
                selected_profile_id: if v.profiles.selected_profile_id == removed.id && rest.len() > 0 {
                    rest[0].id
                } else {
                    v.profiles.selected_profile_id
                },
            },
            selected: if v.selected < last { v.selected } else { last },
            error: None,
        }
    }
}

/// The server a profile switched to remote starts with.
pub open spec fn default_server_url() -> Seq<char> {
    "https://blip.brendonovich.dev/"@
}

/// Profile `p` switched to a remote server or to a local folder under `home`;
/// a profile already of the asked kind is left as it is.
pub open spec fn switched(p: ProfileView, remote: bool, home: Seq<char>) -> ProfileView {
    match p.target {
        TargetView::Local(_) => if remote {
            ProfileView {
                id: p.id,
                name: p.name,
                target: TargetView::Remote(default_server_url()),
                format: RecordingFormat::Mp4,
                completion_action: CompletionAction::NoAction,
            }
        } else {
            p
        },
        TargetView::Remote(_) => if !remote {
            ProfileView {
                id: p.id,
                name: p.name,
                target: TargetView::Local(join_path_spec(home, "Desktop"@)),
                format: RecordingFormat::Mp4,
                completion_action: CompletionAction::Reveal,
            }
        } else {
            p
        },
    }
}

/// The state after switching the edited profile between local and remote.
pub open spec fn set_remote_spec(v: SettingsView, remote: bool, inputs: InputsView, home: Seq<char>) -> SettingsView {
    let c = commit_spec(v, inputs);
    if has_selection(c) {
        SettingsView {
            profiles: ProfilesView {
                profiles: c.profiles.profiles.update(
                    c.selected,
                    switched(c.profiles.profiles[c.selected], remote, home),
                ),
                selected_profile_id: c.profiles.selected_profile_id,
            },
            selected: c.selected,
            error: None,
        }
    } else {
        c
    }
}

/// `p` with another format.
pub open spec fn with_format(p: ProfileView, format: RecordingFormat) -> ProfileView {
    ProfileView { id: p.id, name: p.name, target: p.target, format, completion_action: p.completion_action }
}

/// `p` with another completion action.
pub open spec fn with_completion_action(p: ProfileView, action: CompletionAction) -> ProfileView {
    ProfileView { id: p.id, name: p.name, target: p.target, format: p.format, completion_action: action }
}

/// The first profile that does not validate, as `"<name>: <problem>"`.
pub open spec fn first_problem(ps: Seq<ProfileView>) -> Option<Seq<char>>
    decreases ps.len(),
{
    if ps.len() == 0 {
        None
    } else {
        match validate_spec(ps[0]) {
            Err(e) => Some(ps[0].name + ": "@ + e),
            Ok(()) => first_problem(ps.drop_first()),
        }
    }
}

/// The state after asking to save: the form text is kept, and the first
/// profile that does not validate is reported.
pub open spec fn check_spec(v: SettingsView, inputs: InputsView) -> SettingsView {
    let c = commit_spec(v, inputs);
    match first_problem(c.profiles.profiles) {
        Some(e) => SettingsView { profiles: c.profiles, selected: c.selected, error: Some(e) },
        None => c,
    }
}

/// `p` with another name and target, the rest kept.
fn rebuilt(p: &RecordingProfile, name: String, target: RecordingTarget) -> (r: RecordingProfile)
    ensures
        r@ == (ProfileView {
            id: p@.id,
            name: name@,
            target: target@,
            format: p@.format,
            completion_action: p@.completion_action,
        }),
{
    RecordingProfile {
        id: p.id.clone(),
        name,
        target,
        format: p.format,
        completion_action: p.completion_action,
    }
}

/// What the form shows for `p`.
fn inputs_of(p: &RecordingProfile) -> (r: ProfileInputs)
    ensures
        r@ == inputs_for(p@),
{
    match &p.target {
        RecordingTarget::Local { folder } => ProfileInputs {
            name: p.name.clone(),
            destination: folder.clone(),
            token: String::new(),
        },
        RecordingTarget::Remote { server_url } => {
            let (destination, token) = split_server_url(server_url.as_str());
            ProfileInputs { name: p.name.clone(), destination, token }
        },
    }
}

/// The first profile of `ps` from `start` on that does not validate.
fn find_problem(ps: &Vec<RecordingProfile>) -> (r: Option<String>)
    ensures
        match r {
            Some(e) => first_problem(profile_views(ps@)) == Some(e@),
            None => first_problem(profile_views(ps@)) is None,
        },
{
    let ghost views = profile_views(ps@);
    let mut i: usize = 0;
    assert(views.skip(0) =~= views);
    while i < ps.len()
        invariant
            i <= ps@.len(),
            views == profile_views(ps@),
            first_problem(views) == first_problem(views.skip(i as int)),
        decreases ps@.len() - i,
    {
        assert(views.skip(i as int)[0] == views[i as int]);
        match ps[i].validate() {
            Err(e) => {
                let mut m = ps[i].name.clone();
                m.append(": ");
                m.append(e.as_str());
                return Some(m);
            },
            Ok(()) => {},
        }
        assert(views.skip(i as int).drop_first() =~= views.skip(i + 1));
        i = i + 1;
    }
    assert(views.skip(i as int).len() == 0);
    None
}

impl ProfileSettings {
    /// Opens the form on the selected profile.
    pub fn new(profiles: RecordingProfiles) -> (r: Self)
        ensures
            r@.profiles == profiles@,
            r@.selected == crate::profiles::selected_index_spec(profiles@),
            r@.error is None,
    {
        let selected = profiles.selected_index();
        ProfileSettings { profiles, selected, error: None }
    }

    /// What the form shows: the edited profile's name and destination, or
    /// `None` when no profile is being edited.
    pub fn inputs(&self) -> (r: Option<ProfileInputs>)
        ensures
            opt_inputs(r) == shown_inputs(self@),
    {
        if self.selected < self.profiles.profiles.len() {
            Some(inputs_of(&self.profiles.profiles[self.selected]))
        } else {
            None
        }
    }

    /// Writes the trimmed form text into the edited profile.
    pub fn commit_inputs(&mut self, inputs: &ProfileInputs)
        requires
            inputs@.destination.len() < 0x1000_0000,
        ensures
            final(self)@ == commit_spec(old(self)@, inputs@),
    {
        if self.selected >= self.profiles.profiles.len() {
            return;
        }
        let i = self.selected;
        let name = trim(inputs.name.as_str());
        let destination = trim(inputs.destination.as_str());
        let token = trim(inputs.token.as_str());
        proof { crate::text::lemma_trim_len(inputs@.destination); }
        let target = match &self.profiles.profiles[i].target {
            RecordingTarget::Local { .. } => RecordingTarget::Local { folder: destination },
            RecordingTarget::Remote { .. } => RecordingTarget::Remote {
                server_url: join_server_url(destination.as_str(), token.as_str()),
            },
        };
        let updated = rebuilt(&self.profiles.profiles[i], name, target);
        let ghost before = self@;
        self.profiles.profiles.set(i, updated);
        assert(self@.profiles.profiles =~= before.profiles.profiles.update(
            i as int,
            committed(before.profiles.profiles[i as int], inputs@),
        ));
    }

    /// Keeps the form text, then edits profile `index`. Returns what the form
    /// shows next, or `None` when `index` names no profile and the form stays.
    pub fn select(&mut self, index: usize, inputs: &ProfileInputs) -> (r: Option<ProfileInputs>)
        requires
            inputs@.destination.len() < 0x1000_0000,
        ensures
            final(self)@ == select_spec(old(self)@, index as int, inputs@),
            index < old(self)@.profiles.profiles.len() ==> opt_inputs(r) == shown_inputs(final(self)@),
            index >= old(self)@.profiles.profiles.len() ==> r is None,
    {
        self.commit_inputs(inputs);
        if index >= self.profiles.profiles.len() {
            return None;
        }
        self.selected = index;
        self.error = None;
        self.inputs()
    }

    /// Keeps the form text, then appends `profile` and edits it.
    pub fn add_profile(&mut self, inputs: &ProfileInputs, profile: RecordingProfile) -> (r: ProfileInputs)
        requires
            old(self).profiles.profiles@.len() < usize::MAX,
            inputs@.destination.len() < 0x1000_0000,
        ensures
            final(self)@ == add_spec(old(self)@, inputs@, profile@),
            r@ == inputs_for(profile@),
    {
        self.commit_inputs(inputs);
        let ghost before = self@;
        let shown = inputs_of(&profile);
        self.profiles.profiles.push(profile);
        self.selected = self.profiles.profiles.len() - 1;
        self.error = None;
        assert(self@.profiles.profiles =~= before.profiles.profiles.push(profile@));
        shown
    }

    /// Keeps the form text, then adds a new local profile recording to the
    /// Desktop folder under `home` and edits it.
    pub fn add(&mut self, inputs: &ProfileInputs, home: &str) -> (r: ProfileInputs)
        requires
            old(self).profiles.profiles@.len() < usize::MAX,
            inputs@.destination.len() < 0x1000_0000,
        ensures
            exists|nanos: nat| {
                &&& final(self)@ == add_spec(old(self)@, inputs@, #[trigger] new_local_spec(join_path_spec(home@, "Desktop"@), nanos))
                &&& r@ == inputs_for(new_local_spec(join_path_spec(home@, "Desktop"@), nanos))
            },
    {
        let profile = RecordingProfile::new_local(join_path(home, "Desktop"));
        self.add_profile(inputs, profile)
    }

    /// Deletes the edited profile, unless it is the last one. Returns what the
    /// form shows next, or `None` when the form stays as it is.
    pub fn delete(&mut self) -> (r: Option<ProfileInputs>)
        ensures
            final(self)@ == delete_spec(old(self)@),
            opt_inputs(r) == if old(self)@.profiles.profiles.len() != 1 && has_selection(old(self)@) {
                shown_inputs(final(self)@)
            } else {
                None
            },
    {
        let n = self.profiles.profiles.len();
        if n == 1 {
            self.error = Some(owned("At least one recording profile is required"));
            return None;
        }
        if self.selected >= n {
            return None;
        }
        let ghost before = self@;
        let removed = self.profiles.profiles.remove(self.selected);
        let rest = self.profiles.profiles.len();
        let last = if rest > 0 { rest - 1 } else { 0 };
        if self.selected > last {
            self.selected = last;
        }
        if rest > 0 && crate::text::same_text(self.profiles.selected_profile_id.as_str(), removed.id.as_str()) {
            self.profiles.selected_profile_id = self.profiles.profiles[0].id.clone();
        }
        self.error = None;
        assert(self@.profiles.profiles =~= before.profiles.profiles.remove(before.selected));
        self.inputs()
    }

    /// Keeps the form text, then switches the edited profile to the default
    /// Blip server (`remote`) or to the Desktop folder under `home`.
    pub fn set_remote(&mut self, remote: bool, inputs: &ProfileInputs, home: &str) -> (r: Option<ProfileInputs>)
        requires
            inputs@.destination.len() < 0x1000_0000,
        ensures
            final(self)@ == set_remote_spec(old(self)@, remote, inputs@, home@),
            opt_inputs(r) == shown_inputs(final(self)@),
    {
        self.commit_inputs(inputs);
        if self.selected >= self.profiles.profiles.len() {
            return None;
        }
        let i = self.selected;
        let ghost before = self@;
        let p = &self.profiles.profiles[i];
        let updated = match &p.target {
            RecordingTarget::Local { folder } => if remote {
                RecordingProfile {
                    id: p.id.clone(),
                    name: p.name.clone(),
                    target: RecordingTarget::Remote { server_url: owned("https://blip.brendonovich.dev/") },
                    format: RecordingFormat::Mp4,
                    completion_action: CompletionAction::NoAction,
                }
            } else {
                rebuilt(p, p.name.clone(), RecordingTarget::Local { folder: folder.clone() })
            },
            RecordingTarget::Remote { server_url } => if !remote {
                RecordingProfile {
                    id: p.id.clone(),
                    name: p.name.clone(),
                    target: RecordingTarget::Local { folder: join_path(home, "Desktop") },
                    format: RecordingFormat::Mp4,
                    completion_action: CompletionAction::Reveal,
                }
            } else {
                rebuilt(p, p.name.clone(), RecordingTarget::Remote { server_url: server_url.clone() })
            },
        };
        self.profiles.profiles.set(i, updated);
        self.error = None;
        assert(self@.profiles.profiles =~= before.profiles.profiles.update(
            i as int,
            switched(before.profiles.profiles[i as int], remote, home@),
        ));
        self.inputs()
    }

    /// Sets the completion action of the edited profile.
    pub fn set_completion_action(&mut self, action: CompletionAction)
        ensures
            final(self)@.selected == old(self)@.selected,
            final(self)@.error == old(self)@.error,
            final(self)@.profiles.selected_profile_id == old(self)@.profiles.selected_profile_id,
            final(self)@.profiles.profiles == if has_selection(old(self)@) {
                old(self)@.profiles.profiles.update(
                    old(self)@.selected,
                    with_completion_action(old(self)@.profiles.profiles[old(self)@.selected], action),
                )
            } else {
                old(self)@.profiles.profiles
            },
    {
        if self.selected < self.profiles.profiles.len() {
            let i = self.selected;
            let ghost before = self@;
            let p = &self.profiles.profiles[i];
            let updated = RecordingProfile {
                id: p.id.clone(),
                name: p.name.clone(),
                target: match &p.target {
                    RecordingTarget::Local { folder } => RecordingTarget::Local { folder: folder.clone() },
                    RecordingTarget::Remote { server_url } => RecordingTarget::Remote { server_url: server_url.clone() },
                },
                format: p.format,
                completion_action: action,
            };
            self.profiles.profiles.set(i, updated);
            assert(self@.profiles.profiles =~= before.profiles.profiles.update(
                i as int,
                with_completion_action(before.profiles.profiles[i as int], action),
            ));
        }
    }

    /// Sets the format of the edited profile.
    pub fn set_format(&mut self, format: RecordingFormat)
        ensures
            final(self)@.selected == old(self)@.selected,
            final(self)@.error == old(self)@.error,
            final(self)@.profiles.selected_profile_id == old(self)@.profiles.selected_profile_id,
            final(self)@.profiles.profiles == if has_selection(old(self)@) {
                old(self)@.profiles.profiles.update(
                    old(self)@.selected,
                    with_format(old(self)@.profiles.profiles[old(self)@.selected], format),
                )
            } else {
                old(self)@.profiles.profiles
            },
    {
        if self.selected < self.profiles.profiles.len() {
            let i = self.selected;
            let ghost before = self@;
            let p = &self.profiles.profiles[i];
            let updated = RecordingProfile {
                id: p.id.clone(),
                name: p.name.clone(),
                target: match &p.target {
                    RecordingTarget::Local { folder } => RecordingTarget::Local { folder: folder.clone() },
                    RecordingTarget::Remote { server_url } => RecordingTarget::Remote { server_url: server_url.clone() },
                },
                format,
                completion_action: p.completion_action,
            };
            self.profiles.profiles.set(i, updated);
            assert(self@.profiles.profiles =~= before.profiles.profiles.update(
                i as int,
                with_format(before.profiles.profiles[i as int], format),
            ));
        }
    }

    /// Keeps the form text and checks every profile before saving. On a
    /// problem, the error names the first profile that does not validate and
    /// is also shown in the form.
    pub fn check(&mut self, inputs: &ProfileInputs) -> (r: Result<(), String>)
        requires
            inputs@.destination.len() < 0x1000_0000,
        ensures
            final(self)@ == check_spec(old(self)@, inputs@),
            match r {
                Ok(()) => first_problem(final(self)@.profiles.profiles) is None,
                Err(e) => first_problem(final(self)@.profiles.profiles) == Some(e@),
            },
    {
        self.commit_inputs(inputs);
        match find_problem(&self.profiles.profiles) {
            Some(e) => {
                self.error = Some(e.clone());
                Err(e)
            },
            None => Ok(()),
        }
    }
}


/// Deleting never removes the last profile, keeps the form on a profile when
/// it was on one, and keeps the recording selection naming a profile.
pub proof fn law_delete_keeps_a_profile(v: SettingsView)
    requires
        v.profiles.profiles.len() >= 1,
    ensures
        delete_spec(v).profiles.profiles.len() >= 1,
        has_selection(v) ==> has_selection(delete_spec(v)),
        names_selected(v.profiles) ==> names_selected(delete_spec(v).profiles),
{
    let ps = v.profiles.profiles;
    let sid = v.profiles.selected_profile_id;
    if ps.len() != 1 && has_selection(v) {
        let w = delete_spec(v);
        let rest = ps.remove(v.selected);
        assert(rest.len() >= 1);
        if names_selected(v.profiles) {
            if sid == ps[v.selected].id {
                crate::profiles::lemma_first_with_id(rest, rest[0].id);
            } else {
                crate::profiles::lemma_first_with_id(ps, sid);
                let k = first_with_id(ps, sid) as int;
                let k2 = if k < v.selected { k } else { k - 1 };
                assert(rest[k2] == ps[k]);
                crate::profiles::lemma_first_with_id(rest, sid);
                if first_with_id(rest, sid) >= rest.len() {
                    assert(rest[k2].id != sid);
                }
            }
        }
    }
}

/// What is committed for a local profile is what the form shows back, trimmed.
pub proof fn law_local_form_round_trip(v: SettingsView, inputs: InputsView)
    requires
        has_selection(v),
        v.profiles.profiles[v.selected].target is Local,
    ensures
        shown_inputs(commit_spec(v, inputs)) == Some(InputsView {
            name: trim_spec(inputs.name),
            destination: trim_spec(inputs.destination),
            token: Seq::empty(),
        }),
{
}

} // verus!
