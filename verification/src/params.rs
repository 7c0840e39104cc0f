//! The fixed configuration of the pipeline: the two cascade detectors'
//! search parameters, the circle transform's parameters, and the
//! startup configuration (model paths, camera index).
//!
//! The detectors themselves run outside this crate; these types pin
//! down, as plain integers, every tunable the pipeline hands them.
//! A scale factor is carried as a numerator/denominator pair and a
//! minimum circle distance as a width/divisor pair, so that the shell
//! around the library performs the one floating-point division the
//! detector interface wants.

use vstd::prelude::*;

verus! {

/// Search parameters for a cascade classifier pass.
///
/// The classifier grows its search window by `scale_num / scale_den`
/// per pyramid level, keeps a detection only when at least
/// `min_neighbors` overlapping candidate windows confirm it, and
/// ignores objects smaller than `min_width` by `min_height`.
/// A zero `max_width`/`max_height` means no upper size cap.
#[derive(Clone, Copy, Debug, PartialEq, Eq, Structural)]
pub struct CascadeParams {
    pub scale_num: u32,
    pub scale_den: u32,
    pub min_neighbors: u32,
    pub min_width: i32,
    pub min_height: i32,
    pub max_width: i32,
    pub max_height: i32,
}

/// The face pass: scale step 11/10, two confirming neighbors,
/// faces below 150 by 150 pixels ignored, no upper cap.
pub fn face_cascade_params() -> (p: CascadeParams)
    ensures
        p.scale_num == 11u32 && p.scale_den == 10u32,
        p.min_neighbors == 2u32,
        p.min_width == 150i32 && p.min_height == 150i32,
        p.max_width == 0i32 && p.max_height == 0i32,
{
    CascadeParams {
        scale_num: 11,
        scale_den: 10,
        min_neighbors: 2,
        min_width: 150,
        min_height: 150,
        max_width: 0,
        max_height: 0,
    }
}

/// The eye pass: scale step 11/10, two confirming neighbors,
/// eyes below 30 by 30 pixels ignored, no upper cap.
pub fn eye_cascade_params() -> (p: CascadeParams)
    ensures
        p.scale_num == 11u32 && p.scale_den == 10u32,
        p.min_neighbors == 2u32,
        p.min_width == 30i32 && p.min_height == 30i32,
        p.max_width == 0i32 && p.max_height == 0i32,
{
    CascadeParams {
        scale_num: 11,
        scale_den: 10,
        min_neighbors: 2,
        min_width: 30,
        min_height: 30,
        max_width: 0,
        max_height: 0,
    }
}

/// Parameters for one circle-transform pass over an eye sub-region.
///
/// The accumulator runs at full image resolution (`dp`), accepted
/// circle centers must sit at least `min_dist_num / min_dist_den`
/// pixels apart, `edge_threshold` and `accumulator_threshold` gate the
/// edge detector and the vote count, and candidate radii are clamped
/// to `min_radius ..= max_radius`.
#[derive(Clone, Copy, Debug, PartialEq, Eq, Structural)]
pub struct IrisParams {
    pub dp: i32,
    pub min_dist_num: i32,
    pub min_dist_den: i32,
    pub edge_threshold: i32,
    pub accumulator_threshold: i32,
    pub min_radius: i32,
    pub max_radius: i32,
}

/// Derives the circle-transform parameters from the extent of the eye
/// sub-region: centers at least an eighth of the width apart, radii
/// between a sixteenth and a quarter of the height.
pub fn iris_params(width: i32, height: i32) -> (p: IrisParams)
    requires
        width >= 0,
        height >= 0,
    ensures
        p.dp == 1i32,
        p.min_dist_num == width && p.min_dist_den == 8i32,
        p.edge_threshold == 250i32,
        p.accumulator_threshold == 5i32,
        p.min_radius == height / 16i32,
        p.max_radius == height / 4i32,
{
    IrisParams {
        dp: 1,
        min_dist_num: width,
        min_dist_den: 8,
        edge_threshold: 250,
        accumulator_threshold: 5,
        min_radius: height / 16,
        max_radius: height / 4,
    }
}

/// Startup configuration: where the two pretrained models live, which
/// camera to open, and whether frames are shown on screen.
pub struct Config {
    pub face_model_path: String,
    pub eyes_model_path: String,
    pub camera_index: i32,
    pub display_enabled: bool,
}

/// The stock configuration: the frontal-face and eye-with-glasses
/// cascades of a local detector-model install, the default camera,
/// display on.
pub fn default_config() -> (c: Config)
    ensures
        c.face_model_path@ ==
            "/opt/opencv/opencv-4.2.0/data/haarcascades/haarcascade_frontalface_alt.xml"@,
        c.eyes_model_path@ ==
            "/opt/opencv/opencv-4.2.0/data/haarcascades/haarcascade_eye_tree_eyeglasses.xml"@,
        c.camera_index == 0i32,
        c.display_enabled,
{
    Config {
        face_model_path:
            "/opt/opencv/opencv-4.2.0/data/haarcascades/haarcascade_frontalface_alt.xml".to_string(),
        eyes_model_path:
            "/opt/opencv/opencv-4.2.0/data/haarcascades/haarcascade_eye_tree_eyeglasses.xml".to_string(),
        camera_index: 0,
        display_enabled: true,
    }
}

} // verus!
