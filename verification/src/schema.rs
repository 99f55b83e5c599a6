//! The data model of one pipeline run: discovered files and per-image
//! detection outcomes, all held as plain values. Values are created once
//! and never mutated afterwards.
use vstd::prelude::*;

verus! {

/// One discovered file plus its content identity and timestamps.
/// Timestamps are milliseconds since the Unix epoch; `hash` is the
/// lowercase hexadecimal digest of the file's full byte content.
#[derive(Clone, Debug)]
pub struct Image {
    pub path: String,
    pub creation_timestamp: i64,
    pub processing_timestamp: i64,
    pub hash: String,
}

/// Confidence values are carried in millionths of the unit scale, so a
/// detector's zero-to-one score becomes zero to `CONFIDENCE_SCALE`.
pub const CONFIDENCE_SCALE: u32 = 1000000;

/// An integer rectangle in pixel coordinates of the raster that was fed
/// to detection.
#[derive(Clone, Copy, Debug, PartialEq, Eq, Structural)]
pub struct BBox {
    pub x: u32,
    pub y: u32,
    pub width: u32,
    pub height: u32,
}

impl BBox {
    /// Builds the box from a detector-reported rectangle whose corner and
    /// size have already been rounded to whole pixels.
    pub fn from_rect(x: u32, y: u32, width: u32, height: u32) -> (b: BBox)
        ensures
            b == (BBox { x, y, width, height }),
    {
        BBox { x, y, width, height }
    }
}

/// The confidence, when present, lies on the unit scale.
pub open spec fn valid_confidence(confidence: Option<u32>) -> bool {
    match confidence {
        Some(c) => c <= CONFIDENCE_SCALE,
        None => true,
    }
}

/// One located face: a fresh identity, its box, and an optional
/// confidence in millionths.
#[derive(Clone, Copy, Debug)]
pub struct Detection {
    pub uuid: u128,
    pub bbox: BBox,
    pub confidence: Option<u32>,
}

impl Detection {
    pub open spec fn wf(self) -> bool {
        valid_confidence(self.confidence)
    }

    pub fn new(uuid: u128, bbox: BBox, confidence: Option<u32>) -> (d: Detection)
        requires
            valid_confidence(confidence),
        ensures
            d.uuid == uuid,
            d.bbox == bbox,
            d.confidence == confidence,
            d.wf(),
    {
        Detection { uuid, bbox, confidence }
    }

    /// Builds one detection from a detector-reported face, already reduced
    /// to whole-pixel coordinates and a millionths confidence.
    pub fn from_face(x: u32, y: u32, width: u32, height: u32, confidence: u32) -> (d: Detection)
        requires
            confidence <= CONFIDENCE_SCALE,
        ensures
            d.bbox == (BBox { x, y, width, height }),
            d.confidence == Some(confidence),
            d.wf(),
    {
        Detection { uuid: fresh_uuid(), bbox: BBox::from_rect(x, y, width, height), confidence: Some(confidence) }
    }
}

/// One face as a detection backend reports it, reduced to plain values:
/// a whole-pixel rectangle and a confidence in millionths.
#[derive(Clone, Copy, Debug)]
pub struct Face {
    pub x: u32,
    pub y: u32,
    pub width: u32,
    pub height: u32,
    pub confidence: u32,
}

/// The outcome for one successfully processed image: all detections found
/// in it, in detector-reported order.
#[derive(Clone, Debug)]
pub struct DetectionResult {
    pub uuid: u128,
    pub path: String,
    pub timestamp: i64,
    pub detections: Vec<Detection>,
}

impl DetectionResult {
    pub open spec fn wf(self) -> bool {
        forall|i: int| 0 <= i < self.detections@.len() ==> (#[trigger] self.detections@[i]).wf()
    }

    /// Stamps a fresh identity and the present time onto one image's
    /// detections.
    pub fn new(path: String, detections: Vec<Detection>) -> (r: DetectionResult)
        requires
            forall|i: int| 0 <= i < detections@.len() ==> (#[trigger] detections@[i]).wf(),
        ensures
            r.path == path,
            r.detections == detections,
            r.wf(),
    {
        DetectionResult { uuid: fresh_uuid(), path, timestamp: now_timestamp_millis(), detections }
    }

    /// Builds one image's outcome straight from the faces a backend
    /// reported: one detection per face, in the backend's order, each
    /// keeping its face's rectangle and confidence.
    pub fn from_faces(path: String, faces: Vec<Face>) -> (r: DetectionResult)
        requires
            forall|i: int| 0 <= i < faces@.len() ==> (#[trigger] faces@[i]).confidence
                <= CONFIDENCE_SCALE,
        ensures
            r.path == path,
            r.detections@.len() == faces@.len(),
            forall|i: int|
                0 <= i < faces@.len() ==> {
                    let d = #[trigger] r.detections@[i];
                    let f = faces@[i];
                    &&& d.bbox == (BBox { x: f.x, y: f.y, width: f.width, height: f.height })
                    &&& d.confidence == Some(f.confidence)
                },
            r.wf(),
    {
        let mut detections: Vec<Detection> = Vec::new();
        let mut i: usize = 0;
        while i < faces.len()
            invariant
                i <= faces@.len(),
                detections@.len() == i,
                forall|j: int| 0 <= j < faces@.len() ==> (#[trigger] faces@[j]).confidence
                    <= CONFIDENCE_SCALE,
                forall|j: int|
                    0 <= j < i ==> {
                        let d = #[trigger] detections@[j];
                        let f = faces@[j];
                        &&& d.bbox == (BBox { x: f.x, y: f.y, width: f.width, height: f.height })
                        &&& d.confidence == Some(f.confidence)
                    },
                forall|j: int| 0 <= j < i ==> (#[trigger] detections@[j]).wf(),
            decreases faces@.len() - i,
        {
            let f = &faces[i];
            detections.push(Detection::from_face(f.x, f.y, f.width, f.height, f.confidence));
            i = i + 1;
        }
        DetectionResult::new(path, detections)
    }
}

/// Relies on uuid::Uuid::new_v4: a randomly generated identifier, handed
/// back as its 128-bit value. The value is random, so nothing is promised
/// of it.
#[verifier::external_body]
pub fn fresh_uuid() -> u128 {
    uuid::Uuid::new_v4().as_u128()
}

/// Relies on chrono::Utc::now: the present time as milliseconds since the
/// Unix epoch. The value depends on the clock, so nothing is promised of
/// it.
#[verifier::external_body]
pub fn now_timestamp_millis() -> i64 {
    chrono::Utc::now().timestamp_millis()
}

} // verus!
