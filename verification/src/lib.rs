//! A verified core for a pupil-tracking video pipeline.
//!
//! The library holds the per-frame logic of the tracker: rectangle and
//! circle geometry with coordinate translation between nested regions,
//! the detector parameter sets, the stage-gating decisions of the frame
//! loop, and the pixel-level image transforms (grayscale conversion,
//! histogram equalization, lookup-table reduction, sharpening).
//! Camera capture, the pretrained detectors and the display windows are
//! driven by a thin unverified shell around this crate.

use vstd::prelude::*;

pub mod geometry;
pub mod image;
pub mod params;
pub mod pipeline;
