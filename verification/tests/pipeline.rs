use eye_tracker::geometry::{Circle, Rect};
use eye_tracker::pipeline::{
    exit_requested, eyes_step, faces_step, iris_step, EyeStep, FaceStep, PipelineError,
};

const FRAME_W: i32 = 640;
const FRAME_H: i32 = 480;

fn face() -> Rect {
    Rect::new(200, 100, 200, 200)
}

fn two_eyes() -> Vec<Rect> {
    vec![Rect::new(30, 40, 50, 30), Rect::new(120, 40, 50, 30)]
}

#[test]
fn no_face_skips_the_frame() {
    let faces: Vec<Rect> = Vec::new();
    let step = faces_step(FRAME_W, FRAME_H, &faces).unwrap();
    assert_eq!(step, FaceStep::Skip);
}

#[test]
fn first_face_is_focused() {
    let faces = vec![Rect::new(200, 100, 200, 200), Rect::new(10, 10, 150, 150)];
    let step = faces_step(FRAME_W, FRAME_H, &faces).unwrap();
    assert_eq!(step, FaceStep::Focus { face: Rect::new(200, 100, 200, 200) });
}

#[test]
fn face_outside_the_frame_is_a_fault() {
    let faces = vec![Rect::new(600, 400, 200, 200)];
    let err = faces_step(FRAME_W, FRAME_H, &faces).unwrap_err();
    assert_eq!(err, PipelineError::RegionOutOfBounds);
}

#[test]
fn zero_eyes_skip_iris_detection() {
    let eyes: Vec<Rect> = Vec::new();
    let step = eyes_step(FRAME_W, FRAME_H, face(), &eyes).unwrap();
    assert!(matches!(step, EyeStep::Skip));
}

#[test]
fn one_eye_skips_iris_detection() {
    let eyes = vec![Rect::new(30, 40, 50, 30)];
    let step = eyes_step(FRAME_W, FRAME_H, face(), &eyes).unwrap();
    assert!(matches!(step, EyeStep::Skip));
}

#[test]
fn exactly_two_eyes_run_iris_detection() {
    let step = eyes_step(FRAME_W, FRAME_H, face(), &two_eyes()).unwrap();
    match step {
        EyeStep::Overlay { marks, iris_region } => {
            assert_eq!(marks.len(), 2);
            assert_eq!(marks[0], Rect::new(230, 140, 50, 30));
            assert_eq!(marks[1], Rect::new(320, 140, 50, 30));
            assert_eq!(iris_region, Rect::new(30, 40, 50, 30));
        },
        EyeStep::Skip => panic!("two in-bounds eyes must reach the iris stage"),
    }
}

#[test]
fn three_eyes_skip_iris_detection() {
    let mut eyes = two_eyes();
    eyes.push(Rect::new(60, 120, 40, 25));
    let step = eyes_step(FRAME_W, FRAME_H, face(), &eyes).unwrap();
    assert!(matches!(step, EyeStep::Skip));
}

#[test]
fn eye_outside_the_face_is_a_fault() {
    let eyes = vec![Rect::new(30, 40, 50, 30), Rect::new(190, 40, 50, 30)];
    let err = eyes_step(FRAME_W, FRAME_H, face(), &eyes).unwrap_err();
    assert_eq!(err, PipelineError::RegionOutOfBounds);
}

#[test]
fn iris_candidates_land_at_the_translated_center() {
    let eye = Rect::new(30, 40, 50, 30);
    let circles = vec![Circle::new(5, 6, 3), Circle::new(20, 10, 4)];
    let drawn = iris_step(FRAME_W, FRAME_H, face(), eye, &circles);
    assert_eq!(drawn.len(), 2);
    // face at (200, 100), eye at (30, 40), candidate at (5, 6).
    assert_eq!(drawn[0], Circle::new(235, 146, 3));
    assert_eq!(drawn[1], Circle::new(250, 150, 4));
}

#[test]
fn iris_candidates_outside_the_eye_are_dropped() {
    let eye = Rect::new(30, 40, 50, 30);
    let circles = vec![Circle::new(51, 6, 3), Circle::new(20, 10, 4), Circle::new(5, 31, 2)];
    let drawn = iris_step(FRAME_W, FRAME_H, face(), eye, &circles);
    assert_eq!(drawn.len(), 1);
    assert_eq!(drawn[0], Circle::new(250, 150, 4));
}

#[test]
fn no_candidates_draw_nothing() {
    let eye = Rect::new(30, 40, 50, 30);
    let circles: Vec<Circle> = Vec::new();
    let drawn = iris_step(FRAME_W, FRAME_H, face(), eye, &circles);
    assert!(drawn.is_empty());
}

#[test]
fn any_pressed_key_exits_the_loop() {
    assert!(!exit_requested(0));
    assert!(!exit_requested(-1));
    assert!(exit_requested(1));
    assert!(exit_requested(13));
}
