use blip::profiles::{
    join_server_url, settings_path, split_server_url, CompletionAction, RecordingFormat,
    RecordingProfile, RecordingProfiles, RecordingTarget,
};

fn defaults() -> RecordingProfiles {
    RecordingProfiles::defaults_in("/Users/test", "/tmp")
}

#[test]
fn defaults_preserve_existing_destinations() {
    let profiles = defaults();
    assert_eq!(profiles.profiles.len(), 4);
    assert_eq!(
        profiles.selected().map(|profile| profile.name.as_str()),
        Some("Desktop")
    );
}

#[test]
fn defaults_use_the_home_and_temporary_folders() {
    let profiles = defaults();
    assert_eq!(
        profiles.profiles[0].target,
        RecordingTarget::Local { folder: "/Users/test/Desktop".into() }
    );
    assert_eq!(
        profiles.profiles[3].target,
        RecordingTarget::Local { folder: "/tmp/blip-capture".into() }
    );
    assert_eq!(profiles.profiles[3].completion_action, CompletionAction::CopyToClipboard);
    assert_eq!(
        settings_path("/Users/test"),
        "/Users/test/Library/Application Support/Blip Capture/recording-profiles.json"
    );
}

#[test]
fn validates_target_configuration() {
    let mut profile = defaults().profiles.remove(0);
    assert!(profile.validate().is_ok());
    profile.target = RecordingTarget::Remote {
        server_url: "https://media.example.com#secret".into(),
    };
    profile.format = RecordingFormat::Hls;
    assert!(profile.validate().is_ok());
}

#[test]
fn validation_errors_name_the_problem() {
    let mut profile = defaults().profiles.remove(0);
    profile.name = "  ".into();
    assert_eq!(profile.validate(), Err("Profile name cannot be empty".to_owned()));
    profile.name = "Desk".into();
    profile.format = RecordingFormat::Hls;
    assert_eq!(
        profile.validate(),
        Err("Local recordings must use MP4 or Blip Bundle".to_owned())
    );
    profile.format = RecordingFormat::Mp4;
    profile.target = RecordingTarget::Local { folder: String::new() };
    assert_eq!(profile.validate(), Err("Choose a local recording folder".to_owned()));
    profile.target = RecordingTarget::Remote { server_url: "not a url".into() };
    assert_eq!(profile.validate(), Err("Enter a valid Blip server URL".to_owned()));
    profile.target = RecordingTarget::Remote { server_url: "http://example.com#k".into() };
    assert_eq!(profile.validate(), Err("The Blip server URL must use HTTPS".to_owned()));
    profile.target = RecordingTarget::Remote { server_url: "https://example.com#".into() };
    assert_eq!(
        profile.validate(),
        Err("The Blip server URL must include its access token".to_owned())
    );
    profile.target = RecordingTarget::Remote { server_url: " http://localhost:8787#k ".into() };
    assert_eq!(profile.validate(), Ok(()));
    profile.format = RecordingFormat::BlipBundle;
    assert_eq!(
        profile.validate(),
        Err("Blip server recordings must use HLS or MP4".to_owned())
    );
}

#[test]
fn separates_profile_server_url_and_token() {
    assert_eq!(
        split_server_url("https://blip.example/base#blip_secret"),
        (
            "https://blip.example/base".to_owned(),
            "blip_secret".to_owned()
        )
    );
    assert_eq!(
        join_server_url("https://blip.example/base", "blip_secret"),
        "https://blip.example/base#blip_secret"
    );
}

#[test]
fn split_and_join_keep_text_that_is_not_a_url() {
    assert_eq!(split_server_url("  folder  "), ("folder".to_owned(), String::new()));
    assert_eq!(join_server_url(" folder ", " key "), "folder#key");
}

#[test]
fn imports_and_selects_remote_profiles() -> Result<(), String> {
    let mut profiles = defaults();
    let import = "blip-capture://add-profile?url=https%3A%2F%2Fblip.example%23secret";
    profiles.import_url(import)?;

    assert_eq!(profiles.profiles.len(), 5);
    assert_eq!(
        profiles.selected().map(|profile| profile.name.as_str()),
        Some("blip.example")
    );
    assert!(matches!(
        profiles.selected().map(|profile| &profile.target),
        Some(RecordingTarget::Remote { server_url }) if server_url == "https://blip.example#secret"
    ));

    profiles.import_url(import)?;
    assert_eq!(profiles.profiles.len(), 5);

    profiles.import_url(
        "blip-capture://add-profile?url=https%3A%2F%2Fblip.example%23replacement",
    )?;
    assert_eq!(profiles.profiles.len(), 5);
    assert!(matches!(
        profiles.selected().map(|profile| &profile.target),
        Some(RecordingTarget::Remote { server_url }) if server_url == "https://blip.example#replacement"
    ));
    Ok(())
}

#[test]
fn import_errors_leave_profiles_unchanged() {
    let mut profiles = defaults();
    assert_eq!(profiles.import_url("not a url"), Err("invalid Blip Capture URL".to_owned()));
    assert_eq!(
        profiles.import_url("https://add-profile?url=x"),
        Err("unsupported Blip Capture URL".to_owned())
    );
    assert_eq!(
        profiles.import_url("blip-capture://add-profile?other=x"),
        Err("Blip Capture URL is missing its server URL".to_owned())
    );
    assert_eq!(
        profiles.import_url("blip-capture://add-profile?url=nonsense"),
        Err("invalid Blip server URL".to_owned())
    );
    assert_eq!(
        profiles.import_url("blip-capture://add-profile?url=http%3A%2F%2Fblip.example%23k"),
        Err("The Blip server URL must use HTTPS".to_owned())
    );
    assert_eq!(profiles.profiles.len(), 4);
    assert_eq!(profiles.selected_profile_id, "desktop");
}

#[test]
fn new_profiles_are_identified_by_time() {
    let profile = RecordingProfile::new_local_at("/tmp".into(), 1234);
    assert_eq!(profile.id, "profile-1234");
    assert_eq!(profile.name, "New profile");
    assert_eq!(profile.completion_action, CompletionAction::Reveal);
    let remote = RecordingProfile::new_remote_at("srv".into(), "https://srv#k".into(), 0);
    assert_eq!(remote.id, "profile-0");
    assert_eq!(remote.completion_action, CompletionAction::NoAction);
    assert!(RecordingProfile::new_local("/tmp".into()).id.starts_with("profile-"));
}

#[test]
fn selection_falls_back_to_the_first_profile() {
    let mut profiles = defaults();
    profiles.selected_profile_id = "downloads".into();
    assert_eq!(profiles.selected_index(), 2);
    profiles.selected_profile_id = "missing".into();
    assert_eq!(profiles.selected_index(), 0);
    let loaded = RecordingProfiles::from_loaded(profiles, "/h", "/t");
    assert_eq!(loaded.selected_profile_id, "desktop");
    let empty = RecordingProfiles { profiles: Vec::new(), selected_profile_id: "x".into() };
    assert!(empty.selected().is_none());
    let restored = RecordingProfiles::from_loaded(empty, "/h", "/t");
    assert_eq!(restored.profiles.len(), 4);
}

#[test]
fn format_labels() {
    assert_eq!(RecordingFormat::Mp4.label(), "MP4");
    assert_eq!(RecordingFormat::Hls.label(), "HLS");
    assert_eq!(RecordingFormat::BlipBundle.label(), "Blip Bundle");
}
