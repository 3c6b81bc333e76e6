use blip::bundle::{
    project_config_file, BlipBundle, BundleInput, CameraCrop, CameraPosition,
    fixed_output_dimensions, ExportFormat, ExportResolution, OutputAspectRatio, PreviewStyle,
    BUNDLE_VERSION,
};

#[test]
fn new_bundles_record_the_screen_and_maybe_the_camera() {
    let bundle = BlipBundle::new(false);
    assert_eq!(bundle.version, BUNDLE_VERSION);
    assert_eq!(bundle.inputs.len(), 1);
    assert_eq!(bundle.media_path("/tmp/a.blip"), Ok("/tmp/a.blip/inputs/screen.mp4".into()));
    let with_camera = BlipBundle::new(true);
    assert_eq!(with_camera.inputs.len(), 2);
    assert_eq!(
        with_camera.input_media_path("/tmp/a.blip", "camera"),
        Some("/tmp/a.blip/inputs/camera.mp4".into())
    );
    assert_eq!(with_camera.input_media_path("/tmp/a.blip", "mic"), None);
    assert_eq!(project_config_file(), "project-config.json");
}

#[test]
fn missing_inputs_are_reported() {
    let empty = BlipBundle { version: 1, inputs: Vec::new() };
    assert_eq!(empty.media_path("/tmp/a.blip"), Err("Blip Bundle has no recording inputs".into()));
    let bundle = BlipBundle::new(true);
    assert_eq!(bundle.input_index("camera"), Ok(1));
    assert_eq!(bundle.input_index("mic"), Err("Blip Bundle has no mic input".into()));
    let doubled = BlipBundle {
        version: 1,
        inputs: vec![
            BundleInput { id: "x".into(), name: "First".into(), media: "a.mp4".into() },
            BundleInput { id: "x".into(), name: "Second".into(), media: "b.mp4".into() },
        ],
    };
    assert_eq!(doubled.input_media_path("/b", "x"), Some("/b/a.mp4".into()));
}

#[test]
fn crops_and_styles_survive_an_atomic_byte() {
    for crop in [CameraCrop::Circle, CameraCrop::Squircle, CameraCrop::Squirectangle] {
        assert_eq!(CameraCrop::from_atomic(crop.atomic_value()), crop);
    }
    assert_eq!(CameraCrop::from_atomic(0), CameraCrop::Circle);
    assert_eq!(CameraCrop::from_atomic(1), CameraCrop::Squircle);
    assert_eq!(CameraCrop::from_atomic(200), CameraCrop::Squirectangle);
    for style in [PreviewStyle::Circle, PreviewStyle::Squircle, PreviewStyle::Squirectangle] {
        assert_eq!(PreviewStyle::from_atomic(style.atomic_value()), style);
    }
    assert_eq!(PreviewStyle::from_atomic(9), PreviewStyle::Squirectangle);
}

#[test]
fn presets_have_their_defaults_and_values() {
    assert_eq!(CameraCrop::default(), CameraCrop::Squirectangle);
    assert_eq!(CameraPosition::default(), CameraPosition::BottomRight);
    assert_eq!(OutputAspectRatio::default(), OutputAspectRatio::Wide);
    assert_eq!(ExportFormat::Mp4.extension(), "mp4");
    assert_eq!(ExportFormat::Mov.extension(), "mov");
    assert_eq!(ExportResolution::P1080.short_edge(), 1080);
    assert_eq!(ExportResolution::P720.short_edge(), 720);
}

#[test]
fn fixed_output_shapes_use_the_resolution_short_edge() {
    let short = ExportResolution::P1080.short_edge();
    assert_eq!(fixed_output_dimensions(short, OutputAspectRatio::Wide), Some((1920, 1080)));
    assert_eq!(fixed_output_dimensions(short, OutputAspectRatio::Vertical), Some((1080, 1920)));
    assert_eq!(fixed_output_dimensions(short, OutputAspectRatio::Square), Some((1080, 1080)));
    assert_eq!(fixed_output_dimensions(short, OutputAspectRatio::Classic), Some((1440, 1080)));
    assert_eq!(fixed_output_dimensions(short, OutputAspectRatio::Tall), Some((1080, 1440)));
    assert_eq!(fixed_output_dimensions(short, OutputAspectRatio::Auto), None);
    assert_eq!(fixed_output_dimensions(720, OutputAspectRatio::Wide), Some((1280, 720)));
    assert_eq!(fixed_output_dimensions(1, OutputAspectRatio::Wide), Some((4, 2)));
    assert_eq!(fixed_output_dimensions(7, OutputAspectRatio::Square), Some((8, 8)));
}
