use blip::profile_settings::{ProfileInputs, ProfileSettings};
use blip::profiles::{CompletionAction, RecordingFormat, RecordingProfile, RecordingProfiles, RecordingTarget};

fn settings() -> ProfileSettings {
    ProfileSettings::new(RecordingProfiles::defaults_in("/Users/test", "/tmp"))
}

fn inputs(name: &str, destination: &str, token: &str) -> ProfileInputs {
    ProfileInputs { name: name.into(), destination: destination.into(), token: token.into() }
}

#[test]
fn opens_on_the_selected_profile() {
    let mut profiles = RecordingProfiles::defaults_in("/Users/test", "/tmp");
    profiles.selected_profile_id = "downloads".into();
    let settings = ProfileSettings::new(profiles);
    assert_eq!(settings.selected, 2);
    assert_eq!(settings.error, None);
    assert_eq!(settings.inputs(), Some(inputs("Downloads", "/Users/test/Downloads", "")));
}

#[test]
fn commits_trimmed_text_into_the_edited_profile() {
    let mut settings = settings();
    settings.commit_inputs(&inputs("  Work ", " /Volumes/Work ", "ignored"));
    assert_eq!(settings.profiles.profiles[0].name, "Work");
    assert_eq!(
        settings.profiles.profiles[0].target,
        RecordingTarget::Local { folder: "/Volumes/Work".into() }
    );
    assert_eq!(settings.inputs(), Some(inputs("Work", "/Volumes/Work", "")));
}

#[test]
fn remote_profiles_show_the_server_and_token_apart() {
    let mut settings = settings();
    let shown = settings.set_remote(true, &inputs("Desktop", "/Users/test/Desktop", ""), "/Users/test");
    assert_eq!(shown, Some(inputs("Desktop", "https://blip.brendonovich.dev/", "")));
    assert_eq!(settings.profiles.profiles[0].completion_action, CompletionAction::NoAction);
    settings.commit_inputs(&inputs("Server", "https://blip.example/base", " secret "));
    assert_eq!(
        settings.profiles.profiles[0].target,
        RecordingTarget::Remote { server_url: "https://blip.example/base#secret".into() }
    );
    assert_eq!(settings.inputs(), Some(inputs("Server", "https://blip.example/base", "secret")));
}

#[test]
fn switching_back_to_local_uses_the_desktop() {
    let mut settings = settings();
    settings.set_remote(true, &inputs("Desktop", "/Users/test/Desktop", ""), "/Users/test");
    settings.set_format(RecordingFormat::Hls);
    let shown = settings.set_remote(false, &inputs("Desktop", "https://blip.example", "t"), "/Users/home");
    assert_eq!(shown, Some(inputs("Desktop", "/Users/home/Desktop", "")));
    assert_eq!(settings.profiles.profiles[0].format, RecordingFormat::Mp4);
    assert_eq!(settings.profiles.profiles[0].completion_action, CompletionAction::Reveal);
}

#[test]
fn selecting_keeps_the_text_of_the_previous_profile() {
    let mut settings = settings();
    let shown = settings.select(1, &inputs("Desk", "/d", ""));
    assert_eq!(settings.profiles.profiles[0].name, "Desk");
    assert_eq!(settings.selected, 1);
    assert_eq!(shown, Some(inputs("Documents", "/Users/test/Documents", "")));
    assert_eq!(settings.select(9, &inputs("Docs", "/x", "")), None);
    assert_eq!(settings.selected, 1);
    assert_eq!(settings.profiles.profiles[1].name, "Docs");
}

#[test]
fn adding_appends_and_edits_the_new_profile() {
    let mut settings = settings();
    let profile = RecordingProfile::new_local_at("/Users/test/Desktop".into(), 7);
    let shown = settings.add_profile(&inputs("Desktop", "/Users/test/Desktop", ""), profile);
    assert_eq!(settings.profiles.profiles.len(), 5);
    assert_eq!(settings.selected, 4);
    assert_eq!(settings.profiles.profiles[4].id, "profile-7");
    assert_eq!(shown, inputs("New profile", "/Users/test/Desktop", ""));
    let shown = settings.add(&shown, "/Users/test");
    assert_eq!(settings.profiles.profiles.len(), 6);
    assert_eq!(shown.destination, "/Users/test/Desktop");
}

#[test]
fn the_last_profile_is_never_deleted() {
    let mut profiles = RecordingProfiles::defaults_in("/Users/test", "/tmp");
    profiles.profiles.truncate(1);
    let mut settings = ProfileSettings::new(profiles);
    assert_eq!(settings.delete(), None);
    assert_eq!(settings.profiles.profiles.len(), 1);
    assert_eq!(settings.error, Some("At least one recording profile is required".into()));
}

#[test]
fn deleting_the_selected_profile_moves_the_selection() {
    let mut settings = settings();
    settings.select(3, &inputs("Desktop", "/Users/test/Desktop", ""));
    settings.profiles.selected_profile_id = "clipboard".into();
    let shown = settings.delete();
    assert_eq!(settings.profiles.profiles.len(), 3);
    assert_eq!(settings.selected, 2);
    assert_eq!(settings.profiles.selected_profile_id, "desktop");
    assert_eq!(shown, Some(inputs("Downloads", "/Users/test/Downloads", "")));
    assert_eq!(settings.profiles.selected().map(|p| p.id.as_str()), Some("desktop"));
}

#[test]
fn completion_action_and_format_change_only_the_edited_profile() {
    let mut settings = settings();
    settings.set_completion_action(CompletionAction::CopyToClipboard);
    settings.set_format(RecordingFormat::BlipBundle);
    assert_eq!(settings.profiles.profiles[0].completion_action, CompletionAction::CopyToClipboard);
    assert_eq!(settings.profiles.profiles[0].format, RecordingFormat::BlipBundle);
    assert_eq!(settings.profiles.profiles[1].format, RecordingFormat::Mp4);
}

#[test]
fn saving_names_the_first_profile_that_does_not_validate() {
    let mut settings = settings();
    assert_eq!(settings.check(&inputs("Desktop", "/Users/test/Desktop", "")), Ok(()));
    settings.select(1, &inputs("Desktop", "/Users/test/Desktop", ""));
    settings.set_format(RecordingFormat::Hls);
    let result = settings.check(&inputs("Documents", "/Users/test/Documents", ""));
    assert_eq!(
        result,
        Err("Documents: Local recordings must use MP4 or Blip Bundle".to_owned())
    );
    assert_eq!(settings.error, Some("Documents: Local recordings must use MP4 or Blip Bundle".into()));
    let result = settings.check(&inputs("", "/Users/test/Documents", ""));
    assert_eq!(result, Err(": Profile name cannot be empty".to_owned()));
}
