//! The final report of one run: total image and face counts and the
//! average wall-clock time per processed image, with a defined outcome
//! when nothing was processed.
use crate::dispatch::DetectError;
use crate::dispatch::FailureMode;
use crate::dispatch::ImageOutcome;
use crate::dispatch::collect_outcomes;
use crate::dispatch::count_faces;
use crate::dispatch::first_failure;
use crate::dispatch::successes;
use crate::dispatch::total_faces;
use crate::schema::DetectionResult;
use vstd::prelude::*;

verus! {

/// The summary of one run: either nothing was processed, or the aggregate
/// counts together with the average elapsed milliseconds per image.
#[derive(Clone, Copy, Debug, PartialEq, Eq)]
pub enum Summary {
    NoFilesProcessed,
    Processed { image_count: usize, face_count: u64, elapsed_ms: u64, avg_ms_per_image: u64 },
}

/// Merges per-image results into the final counts. With no processed
/// image the defined no-files outcome is reported — never a division by
/// zero.
pub fn aggregate(results: &Vec<DetectionResult>, elapsed_ms: u64) -> (s: Summary)
    requires
        total_faces(results@) <= u64::MAX,
    ensures
        results@.len() == 0 ==> s == Summary::NoFilesProcessed,
        results@.len() > 0 ==> s == (Summary::Processed {
            image_count: results@.len() as usize,
            face_count: total_faces(results@) as u64,
            elapsed_ms,
            avg_ms_per_image: elapsed_ms / (results@.len() as u64),
        }),
{
    let n = results.len();
    if n == 0 {
        Summary::NoFilesProcessed
    } else {
        let faces = count_faces(results);
        Summary::Processed {
            image_count: n,
            face_count: faces,
            elapsed_ms,
            avg_ms_per_image: elapsed_ms / (n as u64),
        }
    }
}

/// The orchestrator's decision core: merges the workers' outcomes under
/// the chosen failure policy and aggregates the survivors.
///
/// In fail-fast mode the earliest detection failure aborts the run with
/// that image's path and no summary; otherwise the summary reports the
/// exact counts of the processed images, and with zero eligible files it
/// is the defined no-files outcome.
pub fn run_pipeline(outcomes: Vec<ImageOutcome>, mode: FailureMode, elapsed_ms: u64) -> (r: Result<
    Summary,
    DetectError,
>)
    requires
        total_faces(successes(outcomes@)) <= u64::MAX,
    ensures
        match r {
            Ok(s) => {
                &&& (mode == FailureMode::FailFast ==> first_failure(outcomes@) is None)
                &&& (outcomes@.len() == 0 ==> s == Summary::NoFilesProcessed)
                &&& (successes(outcomes@).len() == 0 ==> s == Summary::NoFilesProcessed)
                &&& (successes(outcomes@).len() > 0 ==> s == (Summary::Processed {
                    image_count: successes(outcomes@).len() as usize,
                    face_count: total_faces(successes(outcomes@)) as u64,
                    elapsed_ms,
                    avg_ms_per_image: elapsed_ms / (successes(outcomes@).len() as u64),
                }))
            },
            Err(e) => {
                &&& mode == FailureMode::FailFast
                &&& first_failure(outcomes@) == Some(e)
            },
        },
{
    match collect_outcomes(outcomes, mode) {
        Ok(results) => Ok(aggregate(&results, elapsed_ms)),
        Err(e) => Err(e),
    }
}


} // verus!
