use blip::bundle::PreviewStyle;
use blip::segments::{can_delete_video_segment, delete_video_segment, delete_zoom_segment, position_of};

#[test]
fn a_timeline_keeps_at_least_one_video_segment() {
    assert!(!can_delete_video_segment(None));
    assert!(!can_delete_video_segment(Some(&vec![1])));
    assert!(can_delete_video_segment(Some(&vec![1, 2])));
    let mut single = vec![4];
    assert_eq!(delete_video_segment(&mut single, 4), None);
    assert_eq!(single, vec![4]);
}

#[test]
fn deleting_selects_the_next_segment_or_else_the_previous() {
    let mut ids = vec![10, 20, 30];
    assert_eq!(delete_video_segment(&mut ids, 20), Some((1, Some(30))));
    assert_eq!(ids, vec![10, 30]);
    assert_eq!(delete_video_segment(&mut ids, 30), Some((1, Some(10))));
    assert_eq!(ids, vec![10]);
    let mut ids = vec![10, 20];
    assert_eq!(delete_video_segment(&mut ids, 99), None);
    assert_eq!(position_of(&ids, 20), Some(1));
    assert_eq!(position_of(&ids, 99), None);
}

#[test]
fn deleting_a_zoom_removes_every_segment_with_its_identifier() {
    let mut ids = vec![1, 2, 1, 3];
    assert!(delete_zoom_segment(&mut ids, 1));
    assert_eq!(ids, vec![2, 3]);
    assert!(!delete_zoom_segment(&mut ids, 7));
    assert_eq!(ids, vec![2, 3]);
}

#[test]
fn the_preview_style_button_cycles_through_three_styles() {
    assert_eq!(PreviewStyle::Circle.cycled(), PreviewStyle::Squircle);
    assert_eq!(PreviewStyle::Squircle.cycled(), PreviewStyle::Squirectangle);
    assert_eq!(PreviewStyle::Squirectangle.cycled(), PreviewStyle::Circle);
}
