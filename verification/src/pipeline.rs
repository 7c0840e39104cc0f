//! The per-frame decisions of the tracking loop.
//!
//! Each captured frame runs through three gated stages: pick the first
//! detected face, require exactly two eyes inside it, and overlay every
//! iris candidate found in the first eye. The detectors themselves run
//! outside this crate; the functions here take their raw findings and
//! decide, with a proved contract, what the next stage works on and
//! what is drawn where. A later stage runs if and only if its gate
//! passed, and every overlay this module emits lies inside the frame.

use vstd::prelude::*;

use crate::geometry::{Rect, Circle, rect_in_bounds, center_in_bounds, DIM_LIMIT};

verus! {

/// A frame-level fault: a detector reported a region that leaves the
/// space it was searched in, so no sub-region can be cut out of it.
#[derive(Clone, Copy, Debug, PartialEq, Eq, Structural)]
pub enum PipelineError {
    RegionOutOfBounds,
}

/// What the face stage decided for this frame.
#[derive(Clone, Copy, Debug, PartialEq, Eq, Structural)]
pub enum FaceStep {
    /// No face was found: later stages are skipped and the frame is
    /// shown untouched.
    Skip,
    /// The first detected face; the eye detector runs over this
    /// sub-region next.
    Focus { face: Rect },
}

/// What the eye stage decided for this frame.
#[derive(Debug)]
pub enum EyeStep {
    /// The eye count was not exactly two: the iris stage is skipped
    /// and nothing is drawn.
    Skip,
    /// Both eyes confirmed: draw `marks` on the full frame and run the
    /// iris stage over `iris_region` (the first eye, in face-local
    /// coordinates).
    Overlay { marks: Vec<Rect>, iris_region: Rect },
}

/// `t` is `r` moved from a sub-region at `origin` into the space the
/// origin is given in.
pub open spec fn rect_translated(origin: Rect, r: Rect, t: Rect) -> bool {
    &&& t.x == origin.x + r.x
    &&& t.y == origin.y + r.y
    &&& t.width == r.width
    &&& t.height == r.height
}

/// `t` is the circle `c`, found in eye-local coordinates, moved into
/// full-frame coordinates: first past the eye's origin inside the
/// face, then past the face's origin inside the frame.
pub open spec fn circle_translated(face: Rect, eye: Rect, c: Circle, t: Circle) -> bool {
    &&& t.x == face.x + eye.x + c.x
    &&& t.y == face.y + eye.y + c.y
    &&& t.radius == c.radius
}

/// Both eye rectangles lie inside the face sub-region they were
/// detected in.
pub open spec fn eyes_in_face(face: Rect, eyes: Seq<Rect>) -> bool {
    forall|i: int|
        0 <= i < eyes.len() ==> rect_in_bounds(#[trigger] eyes[i], face.width as int, face.height as int)
}

/// The iris stage keeps a candidate when its center lies inside the
/// eye sub-region it was detected in.
pub open spec fn keeps_candidate(eye: Rect) -> spec_fn(Circle) -> bool {
    |c: Circle| center_in_bounds(c, eye.width as int, eye.height as int)
}

/// Face stage: act on the first detected face, if any.
///
/// Returns `Skip` when the detector found nothing, the first rectangle
/// when it lies inside the frame, and a fault when it does not — a
/// sub-region can only be cut from a rectangle the frame contains.
pub fn faces_step(frame_width: i32, frame_height: i32, faces: &Vec<Rect>) -> (r: Result<
    FaceStep,
    PipelineError,
>)
    ensures
        faces@.len() == 0 ==> r == Ok::<FaceStep, PipelineError>(FaceStep::Skip),
        faces@.len() > 0 && rect_in_bounds(faces@[0], frame_width as int, frame_height as int)
            ==> r == Ok::<FaceStep, PipelineError>(FaceStep::Focus { face: faces@[0] }),
        faces@.len() > 0 && !rect_in_bounds(faces@[0], frame_width as int, frame_height as int)
            ==> r == Err::<FaceStep, PipelineError>(PipelineError::RegionOutOfBounds),
        r == Ok::<FaceStep, PipelineError>(FaceStep::Skip) <==> faces@.len() == 0,
{
    if faces.len() == 0 {
        Ok(FaceStep::Skip)
    } else {
        let face = faces[0];
        if face.in_bounds(frame_width, frame_height) {
            Ok(FaceStep::Focus { face })
        } else {
            Err(PipelineError::RegionOutOfBounds)
        }
    }
}

/// Eye stage: gate on exactly two eyes and place their outlines.
///
/// The iris stage runs if and only if this returns `Overlay`, and it
/// returns `Overlay` if and only if the detector reported exactly two
/// rectangles and both lie inside the face. The two marks are the eye
/// rectangles moved to full-frame coordinates, and both stay inside
/// the frame; `iris_region` is the first eye, the sub-region the iris
/// detector and the eye window read. Any count other than two skips
/// the stage outright — acting on an ambiguous eye count is worse than
/// acting on none — and a fault arises only at count two, when an eye
/// rectangle leaves the face it was detected in.
pub fn eyes_step(frame_width: i32, frame_height: i32, face: Rect, eyes: &Vec<Rect>) -> (r: Result<
    EyeStep,
    PipelineError,
>)
    requires
        0 <= frame_width <= DIM_LIMIT,
        0 <= frame_height <= DIM_LIMIT,
        rect_in_bounds(face, frame_width as int, frame_height as int),
    ensures
        eyes@.len() != 2 ==> (r matches Ok(s) && s is Skip),
        eyes@.len() == 2 && !eyes_in_face(face, eyes@) ==> (r matches Err(e) && e
            == PipelineError::RegionOutOfBounds),
        (r matches Ok(s) && s is Overlay) <==> (eyes@.len() == 2 && eyes_in_face(face, eyes@)),
        r matches Ok(s) ==> s matches EyeStep::Overlay { marks, iris_region } ==> {
            &&& marks@.len() == 2
            &&& rect_translated(face, eyes@[0], marks@[0])
            &&& rect_translated(face, eyes@[1], marks@[1])
            &&& rect_in_bounds(marks@[0], frame_width as int, frame_height as int)
            &&& rect_in_bounds(marks@[1], frame_width as int, frame_height as int)
            &&& iris_region == eyes@[0]
        },
{
    if eyes.len() != 2 {
        Ok(EyeStep::Skip)
    } else {
        let eye0 = eyes[0];
        let eye1 = eyes[1];
        if eye0.in_bounds(face.width, face.height) && eye1.in_bounds(face.width, face.height) {
            let mut marks: Vec<Rect> = Vec::new();
            marks.push(crate::geometry::translate_rect(face.x, face.y, &eye0));
            marks.push(crate::geometry::translate_rect(face.x, face.y, &eye1));
            Ok(EyeStep::Overlay { marks, iris_region: eye0 })
        } else {
            Err(PipelineError::RegionOutOfBounds)
        }
    }
}

/// Iris stage: move every usable candidate into full-frame space.
///
/// A candidate is usable when its center lies inside the eye
/// sub-region it was detected in; the result holds the translations of
/// exactly the usable candidates, in detection order, and each drawn
/// center `(ix, iy)` lands at `(fx + ex + ix, fy + ey + iy)` for a face
/// at `(fx, fy)` and an eye at `(ex, ey)` — and stays inside the frame.
pub fn iris_step(frame_width: i32, frame_height: i32, face: Rect, eye: Rect, circles: &Vec<
    Circle,
>) -> (r: Vec<Circle>)
    requires
        0 <= frame_width <= DIM_LIMIT,
        0 <= frame_height <= DIM_LIMIT,
        rect_in_bounds(face, frame_width as int, frame_height as int),
        rect_in_bounds(eye, face.width as int, face.height as int),
    ensures
        ({
            let kept = circles@.filter(keeps_candidate(eye));
            &&& r@.len() == kept.len()
            &&& forall|i: int| 0 <= i < kept.len() ==> circle_translated(face, eye, kept[i], #[trigger] r@[i])
            &&& forall|i: int|
                0 <= i < r@.len() ==> center_in_bounds(
                    #[trigger] r@[i],
                    frame_width as int,
                    frame_height as int,
                )
        }),
{
    let ghost pred = keeps_candidate(eye);
    let mut r: Vec<Circle> = Vec::new();
    let mut idx: usize = 0;
    proof {
        assert(circles@.take(0int).filter(pred) =~= Seq::<Circle>::empty());
    }
    while idx < circles.len()
        invariant
            0 <= frame_width <= DIM_LIMIT,
            0 <= frame_height <= DIM_LIMIT,
            rect_in_bounds(face, frame_width as int, frame_height as int),
            rect_in_bounds(eye, face.width as int, face.height as int),
            idx <= circles@.len(),
            pred == keeps_candidate(eye),
            r@.len() == circles@.take(idx as int).filter(pred).len(),
            forall|i: int|
                0 <= i < r@.len() ==> circle_translated(
                    face,
                    eye,
                    circles@.take(idx as int).filter(pred)[i],
                    #[trigger] r@[i],
                ),
            forall|i: int|
                0 <= i < r@.len() ==> center_in_bounds(
                    #[trigger] r@[i],
                    frame_width as int,
                    frame_height as int,
                ),
        decreases circles@.len() - idx,
    {
        let c = circles[idx];
        let ghost prefix = circles@.take(idx as int);
        proof {
            assert(circles@.take(idx as int + 1).drop_last() =~= prefix);
            assert(circles@.take(idx as int + 1).last() == c);
            reveal(Seq::filter);
        }
        if c.center_in(eye.width, eye.height) {
            let t = crate::geometry::translate_circle(face.x + eye.x, face.y + eye.y, &c);
            r.push(t);
        }
        idx = idx + 1;
    }
    proof {
        assert(circles@.take(circles@.len() as int) =~= circles@);
    }
    r
}

/// Present stage: the loop leaves its cycle exactly when the bounded
/// key poll reported a pressed key, which the window layer signals
/// with a positive code.
pub fn exit_requested(key_code: i32) -> (b: bool)
    ensures
        b == (key_code > 0),
{
    key_code > 0
}

} // verus!
