//! Blip Bundles: a folder holding a manifest and the recorded inputs, and the
//! editor presets kept in it.

use vstd::prelude::*;

use crate::text::{join_path, join_path_spec, opt_text, owned, same_text};

verus! {

/// The editing project's file name inside a bundle.
pub open spec fn project_config_file_spec() -> Seq<char> {
    "project-config.json"@
}

/// The editing project's file name inside a bundle.
pub fn project_config_file() -> (r: &'static str)
    ensures
        r@ == project_config_file_spec(),
{
    "project-config.json"
}

/// The manifest version this library writes.
pub const BUNDLE_VERSION: u32 = 1;

/// A recorded input of a bundle: its identifier, display name and media file,
/// relative to the bundle folder.
#[derive(Clone, Debug, PartialEq, Eq)]
pub struct BundleInput {
    pub id: String,
    pub name: String,
    pub media: String,
}

/// The characters of a [`BundleInput`].
pub struct InputView {
    pub id: Seq<char>,
    pub name: Seq<char>,
    pub media: Seq<char>,
}

impl View for BundleInput {
    type V = InputView;

    open spec fn view(&self) -> InputView {
        InputView { id: self.id@, name: self.name@, media: self.media@ }
    }
}

/// What the library reads of a bundle's manifest: its version and inputs.
#[derive(Clone, Debug)]
pub struct BlipBundle {
    pub version: u32,
    pub inputs: Vec<BundleInput>,
}

/// The views of a sequence of inputs.
pub open spec fn input_views(inputs: Seq<BundleInput>) -> Seq<InputView> {
    inputs.map_values(|i: BundleInput| i@)
}

/// The inputs of a new bundle: the screen, then the camera when there is one.
pub open spec fn initial_inputs(include_camera: bool) -> Seq<InputView> {
    let screen = InputView { id: "screen"@, name: "Screen"@, media: "inputs/screen.mp4"@ };
    let camera = InputView { id: "camera"@, name: "Camera"@, media: "inputs/camera.mp4"@ };
    if include_camera {
        seq![screen, camera]
    } else {
        seq![screen]
    }
}

/// The index of the first input with identifier `id`, or the length.
pub open spec fn first_input(inputs: Seq<InputView>, id: Seq<char>) -> nat
    decreases inputs.len(),
{
    if inputs.len() == 0 {
        0
    } else if inputs[0].id == id {
        0
    } else {
        1 + first_input(inputs.drop_first(), id)
    }
}

proof fn lemma_first_input(inputs: Seq<InputView>, id: Seq<char>, r: int)
    requires
        0 <= r <= inputs.len(),
        r < inputs.len() ==> inputs[r].id == id,
        forall|j: int| 0 <= j < r ==> inputs[j].id != id,
    ensures
        r == first_input(inputs, id),
    decreases inputs.len(),
{
    if inputs.len() > 0 && r > 0 {
        assert(inputs[0].id != id);
        assert forall|j: int| 0 <= j < r - 1 implies inputs.drop_first()[j].id != id by {
            assert(inputs.drop_first()[j] == inputs[j + 1]);
        }
        if r - 1 < inputs.len() - 1 {
            assert(inputs.drop_first()[r - 1] == inputs[r]);
        }
        lemma_first_input(inputs.drop_first(), id, r - 1);
    }
}

/// The message when a bundle has no input `id`.
pub open spec fn missing_input_message(id: Seq<char>) -> Seq<char> {
    "Blip Bundle has no "@ + id + " input"@
}

impl BlipBundle {
    /// The manifest of a new bundle, with a camera input when `include_camera` holds.
    pub fn new(include_camera: bool) -> (r: Self)
        ensures
            r.version == BUNDLE_VERSION,
            input_views(r.inputs@) == initial_inputs(include_camera),
    {
        let mut inputs: Vec<BundleInput> = Vec::new();
        inputs.push(BundleInput { id: owned("screen"), name: owned("Screen"), media: owned("inputs/screen.mp4") });
        if include_camera {
            inputs.push(BundleInput { id: owned("camera"), name: owned("Camera"), media: owned("inputs/camera.mp4") });
        }
        assert(input_views(inputs@) =~= initial_inputs(include_camera));
        BlipBundle { version: BUNDLE_VERSION, inputs }
    }

    /// The path of the first input's media inside the bundle at `bundle_path`.
    pub fn media_path(&self, bundle_path: &str) -> (r: Result<String, String>)
        ensures
            self.inputs@.len() > 0 ==> (r matches Ok(p) && p@ == join_path_spec(bundle_path@, self.inputs@[0].media@)),
            self.inputs@.len() == 0 ==> (r matches Err(e) && e@ == "Blip Bundle has no recording inputs"@),
    {
        if self.inputs.len() > 0 {
            Ok(join_path(bundle_path, self.inputs[0].media.as_str()))
        } else {
            Err(owned("Blip Bundle has no recording inputs"))
        }
    }

    /// The index of the first input with identifier `id`.
    pub fn input_index(&self, id: &str) -> (r: Result<usize, String>)
        ensures
            ({
                let f = first_input(input_views(self.inputs@), id@);
                &&& f < self.inputs@.len() ==> (r matches Ok(i) && i == f)
                &&& f >= self.inputs@.len() ==> (r matches Err(e) && e@ == missing_input_message(id@))
            }),
    {
        let ghost views = input_views(self.inputs@);
        let mut i: usize = 0;
        while i < self.inputs.len()
            invariant
                i <= self.inputs@.len(),
                views == input_views(self.inputs@),
                forall|j: int| 0 <= j < i ==> views[j].id != id@,
            decreases self.inputs@.len() - i,
        {
            if same_text(self.inputs[i].id.as_str(), id) {
                proof { lemma_first_input(views, id@, i as int); }
                return Ok(i);
            }
            i = i + 1;
        }
        proof { lemma_first_input(views, id@, i as int); }
        let mut m = owned("Blip Bundle has no ");
        m.append(id);
        m.append(" input");
        Err(m)
    }

    /// The path of the media of the first input `id` inside the bundle at
    /// `bundle_path`, if the bundle has such an input.
    pub fn input_media_path(&self, bundle_path: &str, id: &str) -> (r: Option<String>)
        ensures
            ({
                let f = first_input(input_views(self.inputs@), id@);
                &&& f < self.inputs@.len() ==> opt_text(r) == Some(
                    join_path_spec(bundle_path@, self.inputs@[f as int].media@),
                )
                &&& f >= self.inputs@.len() ==> r is None
            }),
    {
        let ghost f = first_input(input_views(self.inputs@), id@);
        match self.input_index(id) {
            Ok(i) => {
                assert(f < self.inputs@.len());
                assert(i as int == f);
                Some(join_path(bundle_path, self.inputs[i].media.as_str()))
            },
            Err(_) => None,
        }
    }
}

/// The shape the camera is cut to.
#[derive(Clone, Copy, Debug, PartialEq, Eq, Structural)]
pub enum CameraCrop {
    Circle,
    Squircle,
    Squirectangle,
}

/// The number a camera crop is stored as in an atomic byte.
pub open spec fn crop_number(crop: CameraCrop) -> u8 {
    match crop {
        CameraCrop::Circle => 0,
        CameraCrop::Squircle => 1,
        CameraCrop::Squirectangle => 2,
    }
}

/// The camera crop a stored byte stands for; unknown numbers mean the default.
pub open spec fn crop_of_number(value: u8) -> CameraCrop {
    if value == 0 {
        CameraCrop::Circle
    } else if value == 1 {
        CameraCrop::Squircle
    } else {
        CameraCrop::Squirectangle
    }
}

impl CameraCrop {
    /// The camera crop a stored byte stands for.
    pub fn from_atomic(value: u8) -> (r: Self)
        ensures
            r == crop_of_number(value),
    {
        match value {
            0 => CameraCrop::Circle,
            1 => CameraCrop::Squircle,
            _ => CameraCrop::Squirectangle,
        }
    }

    /// The byte this crop is stored as.
    pub fn atomic_value(self) -> (r: u8)
        ensures
            r == crop_number(self),
    {
        match self {
            CameraCrop::Circle => 0,
            CameraCrop::Squircle => 1,
            CameraCrop::Squirectangle => 2,
        }
    }
}

impl Default for CameraCrop {
    fn default() -> (r: Self)
        ensures
            r == CameraCrop::Squirectangle,
    {
        CameraCrop::Squirectangle
    }
}

/// Storing a crop and reading it back gives the same crop; a byte read as a
/// crop and stored again is unchanged when it is one of the three known ones.
pub proof fn law_crop_round_trip(crop: CameraCrop, value: u8)
    ensures
        crop_of_number(crop_number(crop)) == crop,
        value <= 2 ==> crop_number(crop_of_number(value)) == value,
        crop_number(crop_of_number(value)) <= 2,
{
}

/// The shape of the live camera preview.
#[derive(Clone, Copy, Debug, PartialEq, Eq, Structural)]
pub enum PreviewStyle {
    Circle,
    Squircle,
    Squirectangle,
}

/// The number a preview style is stored as in an atomic byte.
pub open spec fn style_number(style: PreviewStyle) -> u8 {
    match style {
        PreviewStyle::Circle => 0,
        PreviewStyle::Squircle => 1,
        PreviewStyle::Squirectangle => 2,
    }
}

/// The preview style a stored byte stands for; unknown numbers mean the last.
pub open spec fn style_of_number(value: u8) -> PreviewStyle {
    if value == 0 {
        PreviewStyle::Circle
    } else if value == 1 {
        PreviewStyle::Squircle
    } else {
        PreviewStyle::Squirectangle
    }
}

impl PreviewStyle {
    /// The preview style a stored byte stands for.
    pub fn from_atomic(value: u8) -> (r: Self)
        ensures
            r == style_of_number(value),
    {
        match value {
            0 => PreviewStyle::Circle,
            1 => PreviewStyle::Squircle,
            _ => PreviewStyle::Squirectangle,
        }
    }

    /// The byte this style is stored as.
    pub fn atomic_value(self) -> (r: u8)
        ensures
            r == style_number(self),
    {
        match self {
            PreviewStyle::Circle => 0,
            PreviewStyle::Squircle => 1,
            PreviewStyle::Squirectangle => 2,
        }
    }
}

/// The next preview style when the style button is pressed.
pub open spec fn next_style(style: PreviewStyle) -> PreviewStyle {
    match style {
        PreviewStyle::Circle => PreviewStyle::Squircle,
        PreviewStyle::Squircle => PreviewStyle::Squirectangle,
        PreviewStyle::Squirectangle => PreviewStyle::Circle,
    }
}

impl PreviewStyle {
    /// The style after this one, in the order circle, squircle, rounded rectangle.
    pub fn cycled(self) -> (r: Self)
        ensures
            r == next_style(self),
    {
        match self {
            PreviewStyle::Circle => PreviewStyle::Squircle,
            PreviewStyle::Squircle => PreviewStyle::Squirectangle,
            PreviewStyle::Squirectangle => PreviewStyle::Circle,
        }
    }
}

/// Pressing the style button three times comes back to the first style.
pub proof fn law_three_presses_cycle(style: PreviewStyle)
    ensures
        next_style(next_style(next_style(style))) == style,
        next_style(style) != style,
{
}

/// Storing a preview style and reading it back gives the same style.
pub proof fn law_style_round_trip(style: PreviewStyle, value: u8)
    ensures
        style_of_number(style_number(style)) == style,
        value <= 2 ==> style_number(style_of_number(value)) == value,
{
}

/// The corner the camera sits in.
#[derive(Clone, Copy, Debug, PartialEq, Eq, Structural)]
pub enum CameraPosition {
    TopLeft,
    TopRight,
    BottomLeft,
    BottomRight,
}

impl Default for CameraPosition {
    fn default() -> (r: Self)
        ensures
            r == CameraPosition::BottomRight,
    {
        CameraPosition::BottomRight
    }
}

/// The shape of an exported video.
#[derive(Clone, Copy, Debug, PartialEq, Eq, Structural)]
pub enum OutputAspectRatio {
    Auto,
    Wide,
    Vertical,
    Square,
    Classic,
    Tall,
}

impl Default for OutputAspectRatio {
    fn default() -> (r: Self)
        ensures
            r == OutputAspectRatio::Wide,
    {
        OutputAspectRatio::Wide
    }
}

/// The container an export is written in.
#[derive(Clone, Copy, Debug, PartialEq, Eq, Structural)]
pub enum ExportFormat {
    Mp4,
    Mov,
}

impl ExportFormat {
    /// The file extension of an export in this container.
    pub fn extension(self) -> (r: &'static str)
        ensures
            r@ == match self {
                ExportFormat::Mp4 => "mp4"@,
                ExportFormat::Mov => "mov"@,
            },
    {
        match self {
            ExportFormat::Mp4 => "mp4",
            ExportFormat::Mov => "mov",
        }
    }
}

/// The resolution of an export.
#[derive(Clone, Copy, Debug, PartialEq, Eq, Structural)]
pub enum ExportResolution {
    P1080,
    P720,
}

impl ExportResolution {
    /// The length in pixels of the shorter side of an export.
    pub fn short_edge(self) -> (r: usize)
        ensures
            r == match self {
                ExportResolution::P1080 => 1080usize,
                ExportResolution::P720 => 720usize,
            },
    {
        match self {
            ExportResolution::P1080 => 1080,
            ExportResolution::P720 => 720,
        }
    }
}


/// `n` made even by rounding half-way values up, and at least 2: the size of
/// a video side.
pub open spec fn even_side(n: int) -> int {
    let r = if n % 2 == 0 { n } else { n + 1 };
    if r < 2 { 2 } else { r }
}

/// The even video side nearest to `e * p / q` (at least 2).
pub open spec fn scaled_side(e: int, p: int, q: int) -> int {
    let r = 2 * ((e * p + q) / (2 * q));
    if r < 2 { 2 } else { r }
}

/// The width and height of an export whose shorter side is `short_edge`, for
/// the fixed shapes: 16:9, 9:16, 1:1, 4:3 and 3:4. The automatic shape depends
/// on the recording and is not one of them (`None`).
pub open spec fn fixed_dimensions_spec(short_edge: int, ratio: OutputAspectRatio) -> Option<(int, int)> {
    let e = even_side(short_edge);
    match ratio {
        OutputAspectRatio::Auto => None,
        OutputAspectRatio::Wide => Some((scaled_side(e, 16, 9), e)),
        OutputAspectRatio::Vertical => Some((e, scaled_side(e, 16, 9))),
        OutputAspectRatio::Square => Some((e, e)),
        OutputAspectRatio::Classic => Some((scaled_side(e, 4, 3), e)),
        OutputAspectRatio::Tall => Some((e, scaled_side(e, 4, 3))),
    }
}

fn scaled(e: u128, p: u128, q: u128) -> (r: u128)
    requires
        2 <= e <= 0x1_0000_0000_0000_0000,
        1 <= p <= 16,
        1 <= q <= 9,
    ensures
        r as int == scaled_side(e as int, p as int, q as int),
{
    assert(e * p <= 0x1_0000_0000_0000_0000 * 16) by (nonlinear_arith)
        requires
            e <= 0x1_0000_0000_0000_0000,
            p <= 16,
    ;
    let r = 2 * ((e * p + q) / (2 * q));
    if r < 2 { 2 } else { r }
}

/// The width and height of an export with shorter side `short_edge` in a
/// fixed shape; `None` for the automatic shape. A side too long for `usize`
/// is `None` too.
pub fn fixed_output_dimensions(short_edge: usize, ratio: OutputAspectRatio) -> (r: Option<(usize, usize)>)
    ensures
        match fixed_dimensions_spec(short_edge as int, ratio) {
            None => r is None,
            Some((w, h)) => if w <= usize::MAX && h <= usize::MAX {
                r == Some((w as usize, h as usize))
            } else {
                r is None
            },
        },
{
    let s = short_edge as u128;
    let e0: u128 = if s % 2 == 0 { s } else { s + 1 };
    let e: u128 = if e0 < 2 { 2 } else { e0 };
    let (w, h): (u128, u128) = match ratio {
        OutputAspectRatio::Auto => return None,
        OutputAspectRatio::Wide => (scaled(e, 16, 9), e),
        OutputAspectRatio::Vertical => (e, scaled(e, 16, 9)),
        OutputAspectRatio::Square => (e, e),
        OutputAspectRatio::Classic => (scaled(e, 4, 3), e),
        OutputAspectRatio::Tall => (e, scaled(e, 4, 3)),
    };
    if w <= usize::MAX as u128 && h <= usize::MAX as u128 {
        Some((w as usize, h as usize))
    } else {
        None
    }
}


/// Every fixed export shape keeps the requested shorter side, made even, as
/// its shorter side, and both sides are even.
pub proof fn law_fixed_shapes_keep_the_short_edge(short_edge: nat, ratio: OutputAspectRatio)
    ensures
        fixed_dimensions_spec(short_edge as int, ratio) matches Some((w, h)) ==> {
            &&& (if w <= h { w } else { h }) == even_side(short_edge as int)
            &&& w % 2 == 0
            &&& h % 2 == 0
        },
{
    let e = even_side(short_edge as int);
    assert(e >= 2 && e % 2 == 0);
    let a = (e * 16 + 9) / 18;
    let b = (e * 4 + 3) / 6;
    assert(2 * a >= e) by (nonlinear_arith)
        requires
            e >= 2,
            a == (e * 16 + 9) / 18,
    ;
    assert(2 * b >= e) by (nonlinear_arith)
        requires
            e >= 2,
            b == (e * 4 + 3) / 6,
    ;
}

} // verus!
