//! Batch semantics: per-item label remapping, index-tagged dispatch, and the
//! order-independent collection of `(index, result)` pairs into the two
//! row-indexed output matrices.
//!
//! The probability type is a parameter everywhere: the logic never reads a
//! probability, it only carries each one to its output cell, so a caller may
//! instantiate it with any copyable value type.
use crate::label_index::{label_id, LabelIndex};
use crate::label_index::lemma_label_id_range;
use crate::matrix::{blank_row, padded_row, Matrix};
use vstd::prelude::*;

verus! {

/// The ids row a classifier result yields: each returned label mapped to its
/// vocabulary position, `-1` for labels the vocabulary lacks; an absent
/// result (invalid input, or a failed prediction) yields no ids at all.
pub open spec fn ids_of<P>(vocab: Seq<Seq<char>>, item: Option<Vec<(String, P)>>) -> Seq<i16> {
    match item {
        Option::None => Seq::empty(),
        Option::Some(preds) => Seq::new(
            preds@.len(),
            |j: int| label_id(vocab, preds@[j].0@) as i16,
        ),
    }
}

/// The probabilities row a classifier result yields, in the classifier's
/// own ranking order; an absent result yields none.
pub open spec fn probs_of<P>(item: Option<Vec<(String, P)>>) -> Seq<P> {
    match item {
        Option::None => Seq::empty(),
        Option::Some(preds) => Seq::new(preds@.len(), |j: int| preds@[j].1),
    }
}

/// The label-id matrix of a whole batch: row `i` holds the ids of item `i`,
/// padded with zeroes to width `k`.
pub open spec fn batch_ids<P>(
    vocab: Seq<Seq<char>>,
    items: Seq<Option<Vec<(String, P)>>>,
    k: nat,
) -> Seq<Seq<i16>> {
    Seq::new(items.len(), |i: int| padded_row(ids_of(vocab, items[i]), k, 0i16))
}

/// The probability matrix of a whole batch: row `i` holds the probabilities
/// of item `i`, padded with `fill` to width `k`.
pub open spec fn batch_probs<P>(items: Seq<Option<Vec<(String, P)>>>, k: nat, fill: P) -> Seq<
    Seq<P>,
> {
    Seq::new(items.len(), |i: int| padded_row(probs_of(items[i]), k, fill))
}

/// Whether some collected pair carries row index `i`.
pub open spec fn has_index<P>(results: Seq<(usize, (Vec<i16>, Vec<P>))>, i: int) -> bool {
    exists|j: int| 0 <= j < results.len() && (#[trigger] results[j]).0 == i
}

/// The result collected for row index `i` (meaningful when exactly one pair
/// carries that index).
pub open spec fn result_at<P>(results: Seq<(usize, (Vec<i16>, Vec<P>))>, i: int) -> (
    Vec<i16>,
    Vec<P>,
) {
    let j = choose|j: int| 0 <= j < results.len() && (#[trigger] results[j]).0 == i;
    results[j].1
}

/// Whether no two collected pairs carry the same row index.
pub open spec fn distinct_indices<P>(results: Seq<(usize, (Vec<i16>, Vec<P>))>) -> bool {
    forall|j1: int, j2: int|
        0 <= j1 < j2 < results.len() ==> (#[trigger] results[j1]).0 != (
        #[trigger] results[j2]).0
}

/// Whether one of the first `m` collected pairs carries row index `i`.
pub open spec fn index_in_prefix<P>(
    results: Seq<(usize, (Vec<i16>, Vec<P>))>,
    m: int,
    i: int,
) -> bool {
    exists|j: int| 0 <= j < m && j < results.len() && (#[trigger] results[j]).0 == i
}

/// The label-id matrix that collecting `results` leaves behind: the padded
/// ids of the pair carrying index `i` in row `i`, an all-zero row where no
/// pair carries `i`.
pub open spec fn collected_ids<P>(
    results: Seq<(usize, (Vec<i16>, Vec<P>))>,
    counts: nat,
    k: nat,
) -> Seq<Seq<i16>> {
    Seq::new(
        counts,
        |i: int|
            if has_index(results, i) {
                padded_row(result_at(results, i).0@, k, 0i16)
            } else {
                blank_row(k, 0i16)
            },
    )
}

/// The probability matrix that collecting `results` leaves behind.
pub open spec fn collected_probs<P>(
    results: Seq<(usize, (Vec<i16>, Vec<P>))>,
    counts: nat,
    k: nat,
    fill: P,
) -> Seq<Seq<P>> {
    Seq::new(
        counts,
        |i: int|
            if has_index(results, i) {
                padded_row(result_at(results, i).1@, k, fill)
            } else {
                blank_row(k, fill)
            },
    )
}

/// When indices are distinct, the pair at position `j` is the one and only
/// pair carrying its index, so `result_at` returns its payload.
pub proof fn lemma_result_at<P>(results: Seq<(usize, (Vec<i16>, Vec<P>))>, i: int, j: int)
    requires
        distinct_indices(results),
        0 <= j < results.len(),
        results[j].0 == i,
    ensures
        has_index(results, i),
        result_at(results, i) == results[j].1,
{
    let jc = choose|j2: int| 0 <= j2 < results.len() && (#[trigger] results[j2]).0 == i;
    if jc < j {
        assert(results[jc].0 != results[j].0);
    } else if j < jc {
        assert(results[j].0 != results[jc].0);
    }
}

/// Remap one classifier result through the label index: the id row holds
/// each label's vocabulary position (`-1` where the vocabulary lacks it),
/// the probability row carries the probabilities unchanged, in order.
pub fn remap_predictions<P: Copy>(index: &LabelIndex, preds: &Vec<(String, P)>) -> (r: (
    Vec<i16>,
    Vec<P>,
))
    requires
        index.wf(),
    ensures
        r.0@.len() == preds@.len(),
        r.1@.len() == preds@.len(),
        forall|j: int|
            0 <= j < preds@.len() ==> (#[trigger] r.0@[j]) as int == label_id(
                index@,
                preds@[j].0@,
            ),
        forall|j: int| 0 <= j < preds@.len() ==> #[trigger] r.1@[j] == preds@[j].1,
{
    let n = preds.len();
    let mut ids: Vec<i16> = Vec::new();
    let mut ps: Vec<P> = Vec::new();
    let mut j: usize = 0;
    while j < n
        invariant
            index.wf(),
            n == preds@.len(),
            j <= n,
            ids@.len() == j,
            ps@.len() == j,
            forall|p: int|
                0 <= p < j ==> (#[trigger] ids@[p]) as int == label_id(index@, preds@[p].0@),
            forall|p: int| 0 <= p < j ==> #[trigger] ps@[p] == preds@[p].1,
        decreases n - j,
    {
        let id = index.lookup_id(&preds[j].0);
        ids.push(id);
        ps.push(preds[j].1);
        j = j + 1;
    }
    (ids, ps)
}

/// Turn one dispatched item into its result rows: an absent text (an invalid
/// input, or a prediction that failed) yields empty rows, a present result
/// is remapped through the label index.
pub fn process_item<P: Copy>(index: &LabelIndex, item: &Option<Vec<(String, P)>>) -> (r: (
    Vec<i16>,
    Vec<P>,
))
    requires
        index.wf(),
    ensures
        r.0@ == ids_of(index@, *item),
        r.1@ == probs_of(*item),
{
    match item {
        Option::Some(preds) => {
            let r = remap_predictions(index, preds);
            proof {
                assert forall|j: int| 0 <= j < preds@.len() implies r.0@[j] == ids_of(
                    index@,
                    *item,
                )[j] by {
                    lemma_label_id_range(index@, preds@[j].0@);
                }
                assert(r.0@ =~= ids_of(index@, *item));
                assert(r.1@ =~= probs_of(*item));
            }
            r
        },
        Option::None => {
            let r = (Vec::new(), Vec::new());
            proof {
                assert(r.0@ =~= ids_of(index@, *item));
                assert(r.1@ =~= probs_of(*item));
            }
            r
        },
    }
}

/// Tag each item of an ordered batch with its position, so that downstream
/// stages may finish in any order and the row index still travels with the
/// item.
pub fn enumerate_items<T>(items: Vec<T>) -> (r: Vec<(usize, T)>)
    ensures
        r@.len() == items@.len(),
        forall|i: int|
            0 <= i < r@.len() ==> (#[trigger] r@[i]).0 == i && r@[i].1 == items@[i],
{
    let ghost all = items@;
    let mut rest = items;
    let mut r: Vec<(usize, T)> = Vec::new();
    while rest.len() > 0
        invariant
            r@.len() + rest@.len() == all.len(),
            rest@ == all.skip(r@.len() as int),
            forall|i: int|
                0 <= i < r@.len() ==> (#[trigger] r@[i]).0 == i && r@[i].1 == all[i],
        decreases rest@.len(),
    {
        let ghost done = r@.len() as int;
        let x = rest.remove(0);
        proof {
            assert(x == all[done]);
            assert(rest@ =~= all.skip(done + 1));
        }
        let i = r.len();
        r.push((i, x));
    }
    r
}

/// Write collected `(index, result)` pairs, arriving in any order but with
/// no index repeated, into the two `counts` by `k` output matrices: the pair
/// for row `i` fills row `i`, rows no pair reached stay blank.
pub fn collect_results<P: Copy>(
    counts: usize,
    k: usize,
    results: &Vec<(usize, (Vec<i16>, Vec<P>))>,
    fill: P,
) -> (r: (Matrix<i16>, Matrix<P>))
    requires
        forall|j: int| 0 <= j < results@.len() ==> (#[trigger] results@[j]).0 < counts,
        distinct_indices(results@),
    ensures
        r.0.wf(),
        r.1.wf(),
        r.0@.len() == counts,
        r.1@.len() == counts,
        r.0.spec_cols() == k,
        r.1.spec_cols() == k,
        r.0@ == collected_ids(results@, counts as nat, k as nat),
        r.1@ == collected_probs(results@, counts as nat, k as nat, fill),
{
    let mut labels: Matrix<i16> = Matrix::new(counts, k, 0i16);
    let mut probs: Matrix<P> = Matrix::new(counts, k, fill);
    let n = results.len();
    let mut m: usize = 0;
    while m < n
        invariant
            forall|j: int| 0 <= j < results@.len() ==> (#[trigger] results@[j]).0 < counts,
            distinct_indices(results@),
            n == results@.len(),
            m <= n,
            labels.wf(),
            probs.wf(),
            labels@.len() == counts,
            probs@.len() == counts,
            labels.spec_cols() == k,
            probs.spec_cols() == k,
            forall|j: int|
                0 <= j < m ==> labels@[(#[trigger] results@[j]).0 as int] == padded_row(
                    results@[j].1.0@,
                    k as nat,
                    0i16,
                ),
            forall|j: int|
                0 <= j < m ==> probs@[(#[trigger] results@[j]).0 as int] == padded_row(
                    results@[j].1.1@,
                    k as nat,
                    fill,
                ),
            forall|i: int|
                0 <= i < counts && !index_in_prefix(results@, m as int, i)
                    ==> #[trigger] labels@[i] == blank_row(k as nat, 0i16),
            forall|i: int|
                0 <= i < counts && !index_in_prefix(results@, m as int, i)
                    ==> #[trigger] probs@[i] == blank_row(k as nat, fill),
        decreases n - m,
    {
        let idx = results[m].0;
        proof {
            assert(!index_in_prefix(results@, m as int, idx as int));
        }
        let ghost labels_prev = labels@;
        let ghost probs_prev = probs@;
        labels.store_row(idx, &results[m].1.0);
        probs.store_row(idx, &results[m].1.1);
        proof {
            assert(labels_prev[idx as int] == blank_row(k as nat, 0i16));
            assert(probs_prev[idx as int] == blank_row(k as nat, fill));
            assert(labels@[idx as int] =~= padded_row(results@[m as int].1.0@, k as nat, 0i16));
            assert(probs@[idx as int] =~= padded_row(results@[m as int].1.1@, k as nat, fill));
            assert forall|i: int|
                0 <= i < counts && !index_in_prefix(results@, m + 1, i) implies #[trigger] labels@[i]
                == blank_row(k as nat, 0i16) && #[trigger] probs@[i] == blank_row(
                k as nat,
                fill,
            ) by {
                assert(!index_in_prefix(results@, m as int, i));
                assert(i != idx as int);
                assert(labels_prev[i] == blank_row(k as nat, 0i16));
                assert(probs_prev[i] == blank_row(k as nat, fill));
            }
            assert forall|j: int|
                0 <= j < m + 1 implies labels@[(#[trigger] results@[j]).0 as int] == padded_row(
                results@[j].1.0@,
                k as nat,
                0i16,
            ) && probs@[results@[j].0 as int] == padded_row(
                results@[j].1.1@,
                k as nat,
                fill,
            ) by {
                if j < m {
                    assert(results@[j].0 != results@[m as int].0);
                    assert(labels@[results@[j].0 as int] == labels_prev[results@[j].0 as int]);
                    assert(probs@[results@[j].0 as int] == probs_prev[results@[j].0 as int]);
                }
            }
        }
        m = m + 1;
    }
    proof {
        assert forall|i: int| 0 <= i < counts implies labels@[i] == collected_ids(
            results@,
            counts as nat,
            k as nat,
        )[i] && probs@[i] == collected_probs(results@, counts as nat, k as nat, fill)[i] by {
            if has_index(results@, i) {
                let j = choose|j: int|
                    0 <= j < results@.len() && (#[trigger] results@[j]).0 == i;
                lemma_result_at(results@, i, j);
            } else {
                assert(!index_in_prefix(results@, n as int, i));
            }
        }
        assert(labels@ =~= collected_ids(results@, counts as nat, k as nat));
        assert(probs@ =~= collected_probs(results@, counts as nat, k as nat, fill));
    }
    (labels, probs)
}

/// Run a whole batch in input order: item `i`'s classifier result, remapped
/// through the label index, fills row `i` of both matrices.
pub fn batch_from_predictions<P: Copy>(
    index: &LabelIndex,
    items: &Vec<Option<Vec<(String, P)>>>,
    k: usize,
    fill: P,
) -> (r: (Matrix<i16>, Matrix<P>))
    requires
        index.wf(),
    ensures
        r.0.wf(),
        r.1.wf(),
        r.0@.len() == items@.len(),
        r.1@.len() == items@.len(),
        r.0.spec_cols() == k,
        r.1.spec_cols() == k,
        r.0@ == batch_ids(index@, items@, k as nat),
        r.1@ == batch_probs(items@, k as nat, fill),
{
    let counts = items.len();
    let mut labels: Matrix<i16> = Matrix::new(counts, k, 0i16);
    let mut probs: Matrix<P> = Matrix::new(counts, k, fill);
    let mut i: usize = 0;
    while i < counts
        invariant
            index.wf(),
            counts == items@.len(),
            i <= counts,
            labels.wf(),
            probs.wf(),
            labels@.len() == counts,
            probs@.len() == counts,
            labels.spec_cols() == k,
            probs.spec_cols() == k,
            forall|p: int|
                0 <= p < i ==> #[trigger] labels@[p] == padded_row(
                    ids_of(index@, items@[p]),
                    k as nat,
                    0i16,
                ),
            forall|p: int|
                0 <= p < i ==> #[trigger] probs@[p] == padded_row(
                    probs_of(items@[p]),
                    k as nat,
                    fill,
                ),
            forall|p: int|
                i <= p < counts ==> #[trigger] labels@[p] == blank_row(k as nat, 0i16),
            forall|p: int|
                i <= p < counts ==> #[trigger] probs@[p] == blank_row(k as nat, fill),
        decreases counts - i,
    {
        let res = process_item(index, &items[i]);
        let ghost labels_prev = labels@;
        let ghost probs_prev = probs@;
        labels.store_row(i, &res.0);
        probs.store_row(i, &res.1);
        proof {
            assert(labels_prev[i as int] == blank_row(k as nat, 0i16));
            assert(probs_prev[i as int] == blank_row(k as nat, fill));
            assert(labels@[i as int] =~= padded_row(ids_of(index@, items@[i as int]), k as nat, 0i16));
            assert(probs@[i as int] =~= padded_row(probs_of(items@[i as int]), k as nat, fill));
        }
        i = i + 1;
    }
    proof {
        assert(labels@ =~= batch_ids(index@, items@, k as nat));
        assert(probs@ =~= batch_probs(items@, k as nat, fill));
    }
    (labels, probs)
}

} // verus!
