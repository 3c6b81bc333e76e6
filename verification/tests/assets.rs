use blip::assets::{find, list};

#[test]
fn assets_are_listed_by_prefix() {
    assert_eq!(list("").len(), 10);
    assert_eq!(list("icons/").len(), 10);
    assert_eq!(
        list("icons/playback"),
        vec!["icons/playback-back.svg".to_owned(), "icons/playback-forward.svg".to_owned()]
    );
    assert!(list("images/").is_empty());
}

#[test]
fn assets_are_found_by_path() {
    assert_eq!(find("icons/play.svg"), Some(0));
    assert_eq!(find("icons/chevron-down.svg"), Some(9));
    assert_eq!(find("icons/missing.svg"), None);
}
