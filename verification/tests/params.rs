use eye_tracker::params::{default_config, eye_cascade_params, face_cascade_params, iris_params};

#[test]
fn face_pass_parameters() {
    let p = face_cascade_params();
    assert_eq!(p.scale_num, 11);
    assert_eq!(p.scale_den, 10);
    assert_eq!(p.min_neighbors, 2);
    assert_eq!((p.min_width, p.min_height), (150, 150));
    assert_eq!((p.max_width, p.max_height), (0, 0));
}

#[test]
fn eye_pass_parameters() {
    let p = eye_cascade_params();
    assert_eq!(p.scale_num, 11);
    assert_eq!(p.scale_den, 10);
    assert_eq!(p.min_neighbors, 2);
    assert_eq!((p.min_width, p.min_height), (30, 30));
    assert_eq!((p.max_width, p.max_height), (0, 0));
}

#[test]
fn iris_pass_parameters_follow_the_eye_region() {
    let p = iris_params(160, 64);
    assert_eq!(p.dp, 1);
    assert_eq!(p.min_dist_num, 160);
    assert_eq!(p.min_dist_den, 8);
    assert_eq!(p.edge_threshold, 250);
    assert_eq!(p.accumulator_threshold, 5);
    assert_eq!(p.min_radius, 4);
    assert_eq!(p.max_radius, 16);
}

#[test]
fn iris_pass_radii_round_down() {
    let p = iris_params(50, 30);
    assert_eq!(p.min_radius, 1);
    assert_eq!(p.max_radius, 7);
}

#[test]
fn stock_configuration() {
    let c = default_config();
    assert_eq!(
        c.face_model_path,
        "/opt/opencv/opencv-4.2.0/data/haarcascades/haarcascade_frontalface_alt.xml"
    );
    assert_eq!(
        c.eyes_model_path,
        "/opt/opencv/opencv-4.2.0/data/haarcascades/haarcascade_eye_tree_eyeglasses.xml"
    );
    assert_eq!(c.camera_index, 0);
    assert!(c.display_enabled);
}
