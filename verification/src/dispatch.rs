//! Fan-in of the worker pool: per-image outcomes are merged under an
//! explicit failure policy, and the shared face counter is pinned to the
//! exact sum of per-image detection counts.
//!
//! Running the bounded pool itself is the caller's concern; what each
//! outcome contributes to the final collection, under either policy, is
//! decided and proved here.
use crate::schema::DetectionResult;
use vstd::prelude::*;

verus! {

/// What to do when detection fails on one image: abort the whole run on
/// the first failure, or log-and-drop the image and keep going.
#[derive(Clone, Copy, Debug, PartialEq, Eq, Structural)]
pub enum FailureMode {
    FailFast,
    BestEffort,
}

/// A per-image detection failure: the offending path and the detector's
/// message.
#[derive(Clone, Debug, PartialEq, Eq)]
pub struct DetectError {
    pub path: String,
    pub message: String,
}

/// What one worker reports for one image.
#[derive(Clone, Debug)]
pub enum ImageOutcome {
    Detected(DetectionResult),
    Failed(DetectError),
}

/// The results of the outcomes that succeeded, in order.
pub open spec fn successes(s: Seq<ImageOutcome>) -> Seq<DetectionResult>
    decreases s.len(),
{
    if s.len() == 0 {
        Seq::empty()
    } else {
        let rest = successes(s.drop_last());
        match s.last() {
            ImageOutcome::Detected(r) => rest.push(r),
            ImageOutcome::Failed(_) => rest,
        }
    }
}

/// The earliest failure among the outcomes, if any.
pub open spec fn first_failure(s: Seq<ImageOutcome>) -> Option<DetectError>
    decreases s.len(),
{
    if s.len() == 0 {
        None
    } else {
        match s.first() {
            ImageOutcome::Failed(e) => Some(e),
            ImageOutcome::Detected(_) => first_failure(s.drop_first()),
        }
    }
}

/// Skipping a failure-free prefix does not change the earliest failure.
proof fn lemma_first_failure_skip(s: Seq<ImageOutcome>, k: int)
    requires
        0 <= k <= s.len(),
        forall|j: int| 0 <= j < k ==> !((#[trigger] s[j]) is Failed),
    ensures
        first_failure(s) == first_failure(s.skip(k)),
    decreases k,
{
    if k > 0 {
        lemma_first_failure_skip(s, k - 1);
        assert(s.skip(k - 1).first() == s[k - 1]);
        assert(s.skip(k - 1).drop_first() =~= s.skip(k));
    } else {
        assert(s.skip(0) =~= s);
    }
}

/// Merges the per-image outcomes under the chosen failure policy.
///
/// Under either policy a returned collection holds exactly the results of
/// the outcomes that succeeded, in order. Fail-fast returns the earliest
/// failure instead as soon as there is one; best-effort never fails.
pub fn collect_outcomes(outcomes: Vec<ImageOutcome>, mode: FailureMode) -> (r: Result<
    Vec<DetectionResult>,
    DetectError,
>)
    ensures
        match r {
            Ok(results) => {
                &&& results@ == successes(outcomes@)
                &&& (mode == FailureMode::FailFast ==> first_failure(outcomes@) is None)
            },
            Err(e) => {
                &&& mode == FailureMode::FailFast
                &&& first_failure(outcomes@) == Some(e)
            },
        },
{
    let ghost all = outcomes@;
    let mut rest = outcomes;
    let mut results: Vec<DetectionResult> = Vec::new();
    let ghost mut k: int = 0;
    while rest.len() > 0
        invariant
            all == outcomes@,
            0 <= k <= all.len(),
            rest@ == all.skip(k),
            results@ == successes(all.take(k)),
            mode == FailureMode::FailFast ==> forall|j: int|
                0 <= j < k ==> !((#[trigger] all[j]) is Failed),
        decreases rest@.len(),
    {
        let o = rest.remove(0);
        proof {
            assert(all.skip(k).len() > 0);
            assert(o == all.skip(k).first());
            assert(o == all[k]);
            assert(rest@ =~= all.skip(k + 1));
            assert(all.take(k + 1).drop_last() =~= all.take(k));
            assert(all.take(k + 1).last() == all[k]);
        }
        match o {
            ImageOutcome::Detected(res) => {
                results.push(res);
            },
            ImageOutcome::Failed(e) => {
                match mode {
                    FailureMode::FailFast => {
                        proof {
                            lemma_first_failure_skip(all, k);
                            assert(all.skip(k).len() > 0);
                            assert(all.skip(k).first() == all[k]);
                            assert(all[k] == ImageOutcome::Failed(e));
                            assert(first_failure(all.skip(k)) == Some(e));
                        }
                        return Err(e);
                    },
                    FailureMode::BestEffort => {},
                }
            },
        }
        proof {
            k = k + 1;
        }
    }
    proof {
        assert(all.skip(k).len() == all.len() - k);
        assert(k == all.len());
        assert(all.take(k) =~= all);
        if mode == FailureMode::FailFast {
            lemma_first_failure_skip(all, k);
            assert(all.skip(k) =~= Seq::<ImageOutcome>::empty());
        }
    }
    Ok(results)
}

/// The exact number of faces across a sequence of per-image results.
pub open spec fn total_faces(s: Seq<DetectionResult>) -> int
    decreases s.len(),
{
    if s.len() == 0 {
        0
    } else {
        total_faces(s.drop_last()) + s.last().detections.len()
    }
}

pub proof fn lemma_total_faces_nonneg(s: Seq<DetectionResult>)
    ensures
        total_faces(s) >= 0,
    decreases s.len(),
{
    if s.len() > 0 {
        lemma_total_faces_nonneg(s.drop_last());
    }
}

/// Face counts add up over concatenation.
pub proof fn lemma_total_faces_concat(a: Seq<DetectionResult>, b: Seq<DetectionResult>)
    ensures
        total_faces(a + b) == total_faces(a) + total_faces(b),
    decreases b.len(),
{
    if b.len() == 0 {
        assert(a + b =~= a);
    } else {
        assert((a + b).drop_last() =~= a + b.drop_last());
        assert((a + b).last() == b.last());
        lemma_total_faces_concat(a, b.drop_last());
    }
}

/// Counts all faces across the given results.
pub fn count_faces(results: &Vec<DetectionResult>) -> (n: u64)
    requires
        total_faces(results@) <= u64::MAX,
    ensures
        n == total_faces(results@),
{
    let mut n: u64 = 0;
    let mut i: usize = 0;
    while i < results.len()
        invariant
            i <= results@.len(),
            n == total_faces(results@.take(i as int)),
            total_faces(results@) <= u64::MAX,
        decreases results@.len() - i,
    {
        proof {
            assert(results@.take(i + 1).drop_last() =~= results@.take(i as int));
            assert(results@.take(i + 1).last() == results@[i as int]);
            assert(results@.take(i + 1) + results@.skip(i + 1) =~= results@);
            lemma_total_faces_concat(results@.take(i + 1), results@.skip(i + 1));
            lemma_total_faces_nonneg(results@.skip(i + 1));
        }
        let c = results[i].detections.len();
        n = n + (c as u64);
        i = i + 1;
    }
    proof {
        assert(results@.take(results@.len() as int) =~= results@);
    }
    n
}

/// One worker's contribution to the shared face counter: a single
/// conflict-free add of the image's detection count.
pub fn add_faces(counter: &mut u64, result: &DetectionResult)
    requires
        *old(counter) + result.detections.len() <= u64::MAX,
    ensures
        *final(counter) == *old(counter) + result.detections.len(),
{
    let c = result.detections.len();
    *counter = *counter + (c as u64);
}

/// The sum of the per-batch face counts.
pub open spec fn sum_batch_faces(batches: Seq<Seq<DetectionResult>>) -> int
    decreases batches.len(),
{
    if batches.len() == 0 {
        0
    } else {
        total_faces(batches.first()) + sum_batch_faces(batches.drop_first())
    }
}

/// Law: counter correctness. After the pool drains, the shared face
/// counter — the sum of the per-batch increments — equals the exact total
/// of detection counts across all processed images, however the results
/// were split into batches; so any worker count yields the same total.
pub proof fn lemma_counter_equals_total(batches: Seq<Seq<DetectionResult>>)
    ensures
        sum_batch_faces(batches) == total_faces(batches.flatten()),
    decreases batches.len(),
{
    if batches.len() == 0 {
        assert(batches.flatten() =~= Seq::<DetectionResult>::empty());
    } else {
        lemma_counter_equals_total(batches.drop_first());
        lemma_total_faces_concat(batches.first(), batches.drop_first().flatten());
    }
}

/// One image's contribution to the running face count.
pub open spec fn face_add() -> spec_fn(DetectionResult, int) -> int {
    |r: DetectionResult, acc: int| acc + r.detections.len()
}

/// The face total is the fold of per-image adds over the results.
proof fn lemma_total_faces_is_fold(s: Seq<DetectionResult>, v: int)
    ensures
        s.fold_right(face_add(), v) == total_faces(s) + v,
    decreases s.len(),
{
    if s.len() > 0 {
        lemma_total_faces_is_fold(s.drop_last(), face_add()(s.last(), v));
    }
}

/// Law: the face total is insensitive to completion order — results
/// holding the same images, in whatever order the workers finished them,
/// give the same count.
pub proof fn lemma_total_faces_permutation(s1: Seq<DetectionResult>, s2: Seq<DetectionResult>)
    requires
        s1.to_multiset() == s2.to_multiset(),
    ensures
        total_faces(s1) == total_faces(s2),
{
    let f = face_add();
    assert forall|x: DetectionResult, y: DetectionResult, v: int| #[trigger]
        f(x, f(y, v)) == f(y, f(x, v)) by {}
    vstd::seq_lib::lemma_fold_right_permutation(s1, s2, f, 0);
    lemma_total_faces_is_fold(s1, 0);
    lemma_total_faces_is_fold(s2, 0);
}

/// Law: batch completeness. Merging two runs of outcomes one after the
/// other keeps exactly the successful results of both, in order; so the
/// union of per-batch outputs equals all images minus those that failed.
pub proof fn lemma_successes_concat(a: Seq<ImageOutcome>, b: Seq<ImageOutcome>)
    ensures
        successes(a + b) == successes(a) + successes(b),
    decreases b.len(),
{
    if b.len() == 0 {
        assert(a + b =~= a);
        assert(successes(a) + successes(b) =~= successes(a));
    } else {
        assert((a + b).drop_last() =~= a + b.drop_last());
        assert((a + b).last() == b.last());
        lemma_successes_concat(a, b.drop_last());
        match b.last() {
            ImageOutcome::Detected(r) => {
                assert(successes(a) + successes(b) =~= (successes(a) + successes(
                    b.drop_last(),
                )).push(r));
            },
            ImageOutcome::Failed(_) => {},
        }
    }
}

/// Law: batch completeness across any batching. Collecting each batch's
/// successes and concatenating them is the same as collecting the
/// successes of all outcomes at once.
pub proof fn lemma_successes_batched(batches: Seq<Seq<ImageOutcome>>)
    ensures
        batches.map_values(|b: Seq<ImageOutcome>| successes(b)).flatten() == successes(
            batches.flatten(),
        ),
    decreases batches.len(),
{
    let mapped = batches.map_values(|b: Seq<ImageOutcome>| successes(b));
    if batches.len() == 0 {
        assert(batches.flatten() =~= Seq::<ImageOutcome>::empty());
        assert(mapped.flatten() =~= Seq::<DetectionResult>::empty());
    } else {
        let tail = batches.drop_first();
        lemma_successes_batched(tail);
        lemma_successes_concat(batches.first(), tail.flatten());
        assert(mapped.drop_first() =~= tail.map_values(|b: Seq<ImageOutcome>| successes(b)));
        assert(mapped.first() == successes(batches.first()));
        assert(mapped.flatten() == mapped.first() + mapped.drop_first().flatten());
    }
}

} // verus!
