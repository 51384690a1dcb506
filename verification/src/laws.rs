//! The batch-level guarantees, stated over the specification functions that
//! the executable functions' contracts use.
use crate::batch::{
    batch_ids, batch_probs, collected_ids, collected_probs, distinct_indices, has_index, ids_of,
    lemma_result_at, probs_of,
};
use crate::label_index::{label_id, MAX_LABELS};
use crate::matrix::{blank_row, padded_row};
use vstd::prelude::*;

verus! {

/// Order preservation: when every row index of the batch is carried by
/// exactly one collected pair, and each pair's payload is the remapped
/// result of the item at its index, collecting the pairs — however the
/// unordered prediction stage interleaved them — yields exactly the
/// matrices of the batch run in input order: row `i` belongs to item `i`.
pub proof fn lemma_order_preservation<P>(
    vocab: Seq<Seq<char>>,
    items: Seq<Option<Vec<(String, P)>>>,
    results: Seq<(usize, (Vec<i16>, Vec<P>))>,
    k: nat,
    fill: P,
)
    requires
        distinct_indices(results),
        forall|i: int| 0 <= i < items.len() ==> has_index(results, i),
        forall|j: int|
            0 <= j < results.len() ==> (#[trigger] results[j]).0 < items.len()
                && results[j].1.0@ == ids_of(vocab, items[results[j].0 as int])
                && results[j].1.1@ == probs_of(items[results[j].0 as int]),
    ensures
        collected_ids(results, items.len(), k) == batch_ids(vocab, items, k),
        collected_probs(results, items.len(), k, fill) == batch_probs(items, k, fill),
{
    assert forall|i: int| 0 <= i < items.len() implies collected_ids(results, items.len(), k)[i]
        == batch_ids(vocab, items, k)[i] && collected_probs(results, items.len(), k, fill)[i]
        == batch_probs(items, k, fill)[i] by {
        assert(has_index(results, i));
        let j = choose|j: int| 0 <= j < results.len() && (#[trigger] results[j]).0 == i;
        lemma_result_at(results, i, j);
    }
    assert(collected_ids(results, items.len(), k) =~= batch_ids(vocab, items, k));
    assert(collected_probs(results, items.len(), k, fill) =~= batch_probs(items, k, fill));
}

/// Idempotence: two runs over the same items, each collecting its own
/// faithful set of `(index, result)` pairs in whatever completion order its
/// workers produced, leave identical matrices behind.
pub proof fn lemma_batch_idempotent<P>(
    vocab: Seq<Seq<char>>,
    items: Seq<Option<Vec<(String, P)>>>,
    first: Seq<(usize, (Vec<i16>, Vec<P>))>,
    second: Seq<(usize, (Vec<i16>, Vec<P>))>,
    k: nat,
    fill: P,
)
    requires
        distinct_indices(first),
        distinct_indices(second),
        forall|i: int| 0 <= i < items.len() ==> has_index(first, i),
        forall|i: int| 0 <= i < items.len() ==> has_index(second, i),
        forall|j: int|
            0 <= j < first.len() ==> (#[trigger] first[j]).0 < items.len() && first[j].1.0@
                == ids_of(vocab, items[first[j].0 as int]) && first[j].1.1@ == probs_of(
                items[first[j].0 as int],
            ),
        forall|j: int|
            0 <= j < second.len() ==> (#[trigger] second[j]).0 < items.len() && second[j].1.0@
                == ids_of(vocab, items[second[j].0 as int]) && second[j].1.1@ == probs_of(
                items[second[j].0 as int],
            ),
    ensures
        collected_ids(first, items.len(), k) == collected_ids(second, items.len(), k),
        collected_probs(first, items.len(), k, fill) == collected_probs(
            second,
            items.len(),
            k,
            fill,
        ),
{
    lemma_order_preservation(vocab, items, first, k, fill);
    lemma_order_preservation(vocab, items, second, k, fill);
}

/// Invalid-item isolation: a batch that differs from another only in that
/// one item is invalid yields an all-zero row there, and every other row of
/// both matrices is exactly what the unharmed batch yields.
pub proof fn lemma_invalid_item_isolation<P>(
    vocab: Seq<Seq<char>>,
    items: Seq<Option<Vec<(String, P)>>>,
    damaged: Seq<Option<Vec<(String, P)>>>,
    m: int,
    k: nat,
    fill: P,
)
    requires
        items.len() == damaged.len(),
        0 <= m < items.len(),
        damaged[m] is None,
        forall|i: int| 0 <= i < items.len() && i != m ==> items[i] == damaged[i],
    ensures
        batch_ids(vocab, damaged, k)[m] == blank_row(k, 0i16),
        batch_probs(damaged, k, fill)[m] == blank_row(k, fill),
        forall|i: int|
            0 <= i < items.len() && i != m ==> #[trigger] batch_ids(vocab, damaged, k)[i]
                == batch_ids(vocab, items, k)[i],
        forall|i: int|
            0 <= i < items.len() && i != m ==> #[trigger] batch_probs(damaged, k, fill)[i]
                == batch_probs(items, k, fill)[i],
{
    assert(batch_ids(vocab, damaged, k)[m] =~= blank_row(k, 0i16));
    assert(batch_probs(damaged, k, fill)[m] =~= blank_row(k, fill));
}

/// Threshold semantics, one call down: the library never filters a result,
/// so whatever bound the classifier's own filtering establishes of every
/// probability it hands over holds of every cell of the probability matrix
/// that is not the blank filler.
pub proof fn lemma_threshold_carried<P>(
    items: Seq<Option<Vec<(String, P)>>>,
    k: nat,
    fill: P,
    above: spec_fn(P) -> bool,
)
    requires
        forall|i: int, j: int|
            0 <= i < items.len() && 0 <= j < probs_of(items[i]).len() ==> above(
                #[trigger] probs_of(items[i])[j],
            ),
    ensures
        forall|i: int, j: int|
            0 <= i < items.len() && 0 <= j < k ==> (#[trigger] batch_probs(items, k, fill)[i][j])
                == fill || above(batch_probs(items, k, fill)[i][j]),
{
    assert forall|i: int, j: int|
        0 <= i < items.len() && 0 <= j < k implies (#[trigger] batch_probs(items, k, fill)[i][j])
        == fill || above(batch_probs(items, k, fill)[i][j]) by {
        assert(batch_probs(items, k, fill)[i] == padded_row(probs_of(items[i]), k, fill));
        if j < probs_of(items[i]).len() {
            assert(above(probs_of(items[i])[j]));
        }
    }
}

/// The labels one classifier result names, in its order; an absent result
/// names none.
pub open spec fn item_labels<P>(item: Option<Vec<(String, P)>>) -> Seq<Seq<char>> {
    match item {
        Option::None => Seq::empty(),
        Option::Some(preds) => Seq::new(preds@.len(), |j: int| preds@[j].0@),
    }
}

/// Ids point into the vocabulary: when every label the classifier names
/// stands in the vocabulary, every cell of the id matrix is a vocabulary
/// position or the zero filler — in particular, never the `-1` sentinel.
pub proof fn lemma_ids_from_vocabulary<P>(
    vocab: Seq<Seq<char>>,
    items: Seq<Option<Vec<(String, P)>>>,
    k: nat,
)
    requires
        vocab.len() <= MAX_LABELS,
        forall|i: int, j: int|
            0 <= i < items.len() && 0 <= j < item_labels(items[i]).len() ==> vocab.contains(
                #[trigger] item_labels(items[i])[j],
            ),
    ensures
        forall|i: int, j: int|
            0 <= i < items.len() && 0 <= j < k ==> 0 <= (#[trigger] batch_ids(
                vocab,
                items,
                k,
            )[i][j]) < vocab.len() || batch_ids(vocab, items, k)[i][j] == 0,
{
    assert forall|i: int, j: int|
        0 <= i < items.len() && 0 <= j < k implies 0 <= (#[trigger] batch_ids(vocab, items, k)[i][j])
        < vocab.len() || batch_ids(vocab, items, k)[i][j] == 0 by {
        assert(batch_ids(vocab, items, k)[i] == padded_row(ids_of(vocab, items[i]), k, 0i16));
        if j < ids_of(vocab, items[i]).len() {
            match items[i] {
                Option::Some(preds) => {
                    let lab = preds@[j].0@;
                    assert(item_labels(items[i])[j] == lab);
                    assert(vocab.contains(lab));
                    assert(exists|w: int| 0 <= w < vocab.len() && vocab[w] == lab);
                    assert(0 <= label_id(vocab, lab) < vocab.len());
                    assert(ids_of(vocab, items[i])[j] == label_id(vocab, lab) as i16);
                },
                Option::None => {},
            }
        }
    }
}

} // verus!
