//! Batching strategy of the dispatcher: a flat list of records is split
//! into contiguous batches of the worker count's size, the last batch
//! possibly shorter, so that a pool of exactly that many workers takes
//! one batch each round.
use vstd::prelude::*;

verus! {

/// The contents of a sequence of batches, batch by batch.
pub open spec fn views_of<T>(batches: Seq<Vec<T>>) -> Seq<Seq<T>> {
    batches.map_values(|b: Vec<T>| b@)
}

/// Splits `items` into contiguous batches of `batch_size`; the last batch
/// may be shorter, none is empty, and concatenating them in order gives
/// back exactly the input. The number of batches is the input length
/// divided by the batch size, rounded up.
pub fn partition_batches<T>(items: Vec<T>, batch_size: usize) -> (batches: Vec<Vec<T>>)
    requires
        batch_size >= 1,
    ensures
        views_of(batches@).flatten() == items@,
        batches@.len() == (items@.len() + batch_size - 1) as int / (batch_size as int),
        forall|i: int| 0 <= i < batches@.len() ==> 1 <= (#[trigger] batches@[i])@.len()
            <= batch_size,
        forall|i: int| 0 <= i < batches@.len() - 1 ==> (#[trigger] batches@[i])@.len()
            == batch_size,
{
    let ghost orig = items@;
    let ghost w = batch_size as int;
    let mut rest = items;
    let mut batches: Vec<Vec<T>> = Vec::new();
    proof {
        assert(views_of(batches@).flatten() =~= orig.take(0));
        if orig.len() == 0 {
            vstd::arithmetic::div_mod::lemma_basic_div(w - 1, w);
        }
        assert(rest@ =~= orig.skip(0));
    }
    while rest.len() > 0
        invariant
            batch_size >= 1,
            w == batch_size as int,
            rest@.len() <= orig.len(),
            rest@ == orig.skip(orig.len() - rest@.len()),
            views_of(batches@).flatten() == orig.take(orig.len() - rest@.len()),
            forall|i: int| 0 <= i < batches@.len() ==> 1 <= (#[trigger] batches@[i])@.len()
                <= batch_size,
            forall|i: int| 0 <= i < batches@.len() - 1 ==> (#[trigger] batches@[i])@.len()
                == batch_size,
            rest@.len() > 0 ==> (forall|i: int|
                0 <= i < batches@.len() ==> (#[trigger] batches@[i])@.len() == batch_size),
            rest@.len() > 0 ==> batches@.len() * w == orig.len() - rest@.len(),
            rest@.len() == 0 ==> batches@.len() == (orig.len() + w - 1) / w,
        decreases rest@.len(),
    {
        let ghost k: int = orig.len() - rest@.len();
        let ghost lcount = batches@.len() as int;
        let mut batch: Vec<T> = Vec::new();
        proof {
            assert(batch@ =~= orig.subrange(k as int, k as int));
        }
        while batch.len() < batch_size && rest.len() > 0
            invariant
                batch_size >= 1,
                batch@.len() <= batch_size,
                0 <= k,
                k + batch@.len() <= orig.len(),
                rest@ == orig.skip(k + batch@.len()),
                batch@ == orig.subrange(k as int, k + batch@.len()),
            decreases rest@.len(),
        {
            proof {
                assert(rest@.len() > 0);
                assert(rest@.first() == orig[k + batch@.len()]);
            }
            let x = rest.remove(0);
            proof {
                assert(rest@ =~= orig.skip(k + batch@.len() + 1));
            }
            batch.push(x);
            proof {
                assert(batch@ =~= orig.subrange(k as int, k + batch@.len()));
            }
        }
        let ghost c = batch@.len() as int;
        let ghost prev = batches@;
        batches.push(batch);
        proof {
            assert(1 <= c <= w);
            assert(k == lcount * w);
            assert(views_of(batches@) =~= views_of(prev).push(orig.subrange(k, k + c)));
            views_of(prev).lemma_flatten_push(orig.subrange(k, k + c));
            assert(views_of(batches@).flatten() == views_of(prev).flatten() + orig.subrange(
                k,
                k + c,
            ));
            assert(orig.take(k) + orig.subrange(k, k + c) =~= orig.take(k + c));
            assert(rest@ == orig.skip(k + c));
            assert(rest@.len() == orig.len() - (k + c));
            assert forall|i: int| 0 <= i < batches@.len() implies 1 <= (
            #[trigger] batches@[i])@.len() <= batch_size by {
                if i < lcount {
                    assert(batches@[i] == prev[i]);
                }
            }
            if rest@.len() > 0 {
                assert(c == w);
                assert((lcount + 1) * w == lcount * w + w) by (nonlinear_arith);
                assert forall|i: int| 0 <= i < batches@.len() implies (
                #[trigger] batches@[i])@.len() == batch_size by {
                    if i < lcount {
                        assert(batches@[i] == prev[i]);
                    }
                }
            } else {
                let n = orig.len() as int;
                assert(n == lcount * w + c);
                assert(n + w - 1 == (lcount + 1) * w + (c - 1)) by (nonlinear_arith)
                    requires
                        n == lcount * w + c,
                ;
                vstd::arithmetic::div_mod::lemma_fundamental_div_mod_converse(
                    n + w - 1,
                    w,
                    lcount + 1,
                    c - 1,
                );
            }
            assert forall|i: int| 0 <= i < batches@.len() - 1 implies (
            #[trigger] batches@[i])@.len() == batch_size by {
                assert(batches@[i] == prev[i]);
            }
        }
    }
    proof {
        assert(orig.take(orig.len() - rest@.len()) =~= orig);
    }
    batches
}

} // verus!
