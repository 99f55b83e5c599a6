use pdh::resize::scale_dimensions;
use pdh::schema::BBox;
use pdh::schema::Detection;
use pdh::schema::DetectionResult;
use pdh::schema::Face;

#[test]
fn landscape_longer_edge_becomes_the_maximum() {
    assert_eq!(scale_dimensions(4000, 3000, 512), (512, 384));
}

#[test]
fn portrait_longer_edge_becomes_the_maximum() {
    assert_eq!(scale_dimensions(3000, 4000, 512), (384, 512));
}

#[test]
fn square_maps_to_square() {
    assert_eq!(scale_dimensions(100, 100, 512), (512, 512));
}

#[test]
fn shorter_edge_rounds_to_the_nearest_pixel() {
    // 2 * 512 / 3 is 341.33..., so the shorter edge rounds down to 341.
    assert_eq!(scale_dimensions(3, 2, 512), (512, 341));
    // 1 * 512 / 3 is 170.66..., so the shorter edge rounds up to 171.
    assert_eq!(scale_dimensions(3, 1, 512), (512, 171));
}

#[test]
fn detection_keeps_its_fields() {
    let bbox = BBox::from_rect(4, 5, 20, 30);
    assert_eq!((bbox.x, bbox.y, bbox.width, bbox.height), (4, 5, 20, 30));
    let d = Detection::new(77, bbox, Some(250000));
    assert_eq!(d.uuid, 77);
    assert_eq!(d.bbox, bbox);
    assert_eq!(d.confidence, Some(250000));
}

#[test]
fn detection_from_face_scales_nothing() {
    let d = Detection::from_face(1, 2, 3, 4, 1000000);
    assert_eq!(d.bbox, BBox::from_rect(1, 2, 3, 4));
    assert_eq!(d.confidence, Some(1000000));
}

#[test]
fn result_keeps_path_and_detections() {
    let detections = vec![Detection::new(1, BBox::from_rect(0, 0, 1, 1), None)];
    let r = DetectionResult::new(String::from("x/y.jpg"), detections);
    assert_eq!(r.path, "x/y.jpg");
    assert_eq!(r.detections.len(), 1);
    assert_eq!(r.detections[0].uuid, 1);
}

#[test]
fn from_faces_keeps_every_face_in_order() {
    let faces = vec![
        Face { x: 1, y: 2, width: 3, height: 4, confidence: 500000 },
        Face { x: 9, y: 8, width: 7, height: 6, confidence: 0 },
    ];
    let r = DetectionResult::from_faces(String::from("x/y.jpg"), faces);
    assert_eq!(r.path, "x/y.jpg");
    assert_eq!(r.detections.len(), 2);
    assert_eq!(r.detections[0].bbox, BBox::from_rect(1, 2, 3, 4));
    assert_eq!(r.detections[0].confidence, Some(500000));
    assert_eq!(r.detections[1].bbox, BBox::from_rect(9, 8, 7, 6));
    assert_eq!(r.detections[1].confidence, Some(0));
}

#[test]
fn from_no_faces_yields_no_detections() {
    let r = DetectionResult::from_faces(String::from("x/z.jpg"), Vec::new());
    assert!(r.detections.is_empty());
}

#[test]
fn fresh_identities_differ() {
    let a = DetectionResult::new(String::from("a.jpg"), Vec::new());
    let b = DetectionResult::new(String::from("b.jpg"), Vec::new());
    assert_ne!(a.uuid, b.uuid);
}
