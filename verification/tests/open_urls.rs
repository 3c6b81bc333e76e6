use blip::open_urls::{classify, classify_with, OpenedUrl};
use blip::profiles::{RecordingProfiles, RecordingTarget};

#[test]
fn bundles_are_opened_and_other_links_imported() {
    assert_eq!(classify("file:///tmp/Demo%20Take.blip"), OpenedUrl::Bundle("/tmp/Demo Take.blip".into()));
    assert_eq!(classify("/tmp/take.blip"), OpenedUrl::Bundle("/tmp/take.blip".into()));
    assert_eq!(
        classify("blip-capture://add-profile?url=https%3A%2F%2Fblip.example%23secret"),
        OpenedUrl::ProfileLink("blip-capture://add-profile?url=https%3A%2F%2Fblip.example%23secret".into())
    );
    assert_eq!(classify("file:///tmp/notes.txt"), OpenedUrl::ProfileLink("file:///tmp/notes.txt".into()));
}

#[test]
fn the_converted_path_decides_for_file_urls() {
    assert_eq!(
        classify_with("file:///a/b.blip", Some("/a/b.blip".into())),
        OpenedUrl::Bundle("/a/b.blip".into())
    );
    assert_eq!(classify_with("file:///a/b.blip", None), OpenedUrl::Bundle("file:///a/b.blip".into()));
    assert_eq!(
        classify_with("https://x.example/b.blip", Some("/elsewhere.blip".into())),
        OpenedUrl::Bundle("https://x.example/b.blip".into())
    );
}

#[test]
fn links_are_imported_in_order_until_one_fails() {
    let mut profiles = RecordingProfiles::defaults_in("/Users/test", "/tmp");
    let links = vec![
        "blip-capture://add-profile?url=https%3A%2F%2Fone.example%23a".to_owned(),
        "https://not-a-link.example".to_owned(),
        "blip-capture://add-profile?url=https%3A%2F%2Ftwo.example%23b".to_owned(),
    ];
    assert_eq!(profiles.import_urls(&links), Err("unsupported Blip Capture URL".to_owned()));
    assert_eq!(profiles.profiles.len(), 5);
    assert_eq!(
        profiles.selected().map(|p| p.target.clone()),
        Some(RecordingTarget::Remote { server_url: "https://one.example#a".into() })
    );
    assert_eq!(profiles.import_urls(&links[2..].to_vec()), Ok(()));
    assert_eq!(profiles.profiles.len(), 6);
}
