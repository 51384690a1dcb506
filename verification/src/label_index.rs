//! Bidirectional mapping between a classifier's label vocabulary and dense
//! integer ids: the id of a label is its position in the vocabulary.
use vstd::prelude::*;

verus! {

/// Largest number of labels an index can hold: ids are vocabulary positions,
/// and the last position of a vocabulary this large is `i16::MAX`, the
/// largest id an `i16` can carry.
pub const MAX_LABELS: usize = 32768;

/// Whether every label occurs at most once.
pub open spec fn distinct_labels(vocab: Seq<Seq<char>>) -> bool {
    forall|i: int, j: int| 0 <= i < j < vocab.len() ==> vocab[i] != vocab[j]
}

/// The id assigned to `label` by a vocabulary: its position if present,
/// `-1` if the vocabulary does not contain it.
pub open spec fn label_id(vocab: Seq<Seq<char>>, label: Seq<char>) -> int {
    if exists|j: int| 0 <= j < vocab.len() && vocab[j] == label {
        choose|j: int| 0 <= j < vocab.len() && vocab[j] == label
    } else {
        -1
    }
}

/// A label that stands at position `j` of a duplicate-free vocabulary has
/// id exactly `j`.
pub proof fn lemma_label_id_known(vocab: Seq<Seq<char>>, label: Seq<char>, j: int)
    requires
        distinct_labels(vocab),
        0 <= j < vocab.len(),
        vocab[j] == label,
    ensures
        label_id(vocab, label) == j,
{
    let c = choose|i: int| 0 <= i < vocab.len() && vocab[i] == label;
    if c < j {
        assert(vocab[c] != vocab[j]);
    } else if j < c {
        assert(vocab[j] != vocab[c]);
    }
}

/// A label the vocabulary does not contain has the sentinel id `-1`.
pub proof fn lemma_label_id_unknown(vocab: Seq<Seq<char>>, label: Seq<char>)
    requires
        forall|j: int| 0 <= j < vocab.len() ==> vocab[j] != label,
    ensures
        label_id(vocab, label) == -1,
{
}

/// The id of any label is `-1` or a position of the vocabulary.
pub proof fn lemma_label_id_range(vocab: Seq<Seq<char>>, label: Seq<char>)
    ensures
        label_id(vocab, label) == -1 || (0 <= label_id(vocab, label) < vocab.len()
            && vocab[label_id(vocab, label)] == label),
{
}

/// Bidirectional label/id mapping, built once from a model's vocabulary.
/// The vocabulary order defines the id assignment: label at position `i`
/// has id `i`.
pub struct LabelIndex {
    vocab: Vec<String>,
}

impl View for LabelIndex {
    type V = Seq<Seq<char>>;

    closed spec fn view(&self) -> Seq<Seq<char>> {
        self.vocab.deep_view()
    }
}

impl LabelIndex {
    /// Well-formed: labels are pairwise distinct and every id fits in `i16`.
    pub open spec fn wf(&self) -> bool {
        distinct_labels(self@) && self@.len() <= MAX_LABELS
    }

    /// Build the index from a vocabulary of distinct labels; ids are the
    /// vocabulary positions.
    pub fn build(vocab: Vec<String>) -> (r: LabelIndex)
        requires
            distinct_labels(vocab.deep_view()),
            vocab@.len() <= MAX_LABELS,
        ensures
            r.wf(),
            r@ == vocab.deep_view(),
    {
        LabelIndex { vocab }
    }

    /// Number of labels in the index.
    pub fn len(&self) -> (r: usize)
        ensures
            r == self@.len(),
    {
        self.vocab.len()
    }

    /// The id of `label`: its vocabulary position, or `-1` if the
    /// vocabulary does not contain it.
    pub fn lookup_id(&self, label: &String) -> (r: i16)
        requires
            self.wf(),
        ensures
            r as int == label_id(self@, label@),
    {
        let n = self.vocab.len();
        let mut i: usize = 0;
        while i < n
            invariant
                self.wf(),
                n == self@.len(),
                i <= n,
                forall|j: int| 0 <= j < i ==> self@[j] != label@,
            decreases n - i,
        {
            if self.vocab[i] == *label {
                proof {
                    assert(self@[i as int] == self.vocab@[i as int]@);
                    lemma_label_id_known(self@, label@, i as int);
                }
                return i as i16;
            }
            proof {
                assert(self@[i as int] == self.vocab@[i as int]@);
            }
            i = i + 1;
        }
        proof {
            lemma_label_id_unknown(self@, label@);
        }
        -1
    }

    /// The label with id `id`, or `None` if no label has that id.
    pub fn lookup_label(&self, id: i16) -> (r: Option<&String>)
        ensures
            match r {
                Some(s) => 0 <= id < self@.len() && s@ == self@[id as int],
                None => !(0 <= id < self@.len()),
            },
    {
        if id >= 0 && (id as usize) < self.vocab.len() {
            let s = &self.vocab[id as usize];
            proof {
                assert(self@[id as int] == self.vocab@[id as int]@);
            }
            Some(s)
        } else {
            None
        }
    }

    /// A snapshot of the whole reverse mapping: the `(id, label)` pairs in
    /// ascending id order.
    pub fn labels(&self) -> (r: Vec<(i16, String)>)
        requires
            self.wf(),
        ensures
            r@.len() == self@.len(),
            forall|i: int|
                0 <= i < r@.len() ==> (#[trigger] r@[i]).0 == i as i16 && r@[i].1@ == self@[i],
    {
        let n = self.vocab.len();
        let mut r: Vec<(i16, String)> = Vec::new();
        let mut i: usize = 0;
        while i < n
            invariant
                self.wf(),
                n == self@.len(),
                i <= n,
                r@.len() == i,
                forall|j: int|
                    0 <= j < i ==> (#[trigger] r@[j]).0 == j as i16 && r@[j].1@ == self@[j],
            decreases n - i,
        {
            let lab = self.vocab[i].clone();
            proof {
                assert(self@[i as int] == self.vocab@[i as int]@);
            }
            r.push((i as i16, lab));
            i = i + 1;
        }
        r
    }
}

/// Whether a vocabulary is free of duplicate labels; `build` asks this of
/// its input, and a caller that got the vocabulary from outside can test it
/// here first.
pub fn labels_distinct(vocab: &Vec<String>) -> (r: bool)
    ensures
        r == distinct_labels(vocab.deep_view()),
{
    let n = vocab.len();
    let mut i: usize = 0;
    while i < n
        invariant
            n == vocab@.len(),
            i <= n,
            forall|p: int, q: int| 0 <= p < q < i ==> vocab.deep_view()[p] != vocab.deep_view()[q],
        decreases n - i,
    {
        let mut j: usize = 0;
        while j < i
            invariant
                n == vocab@.len(),
                i < n,
                j <= i,
                forall|q: int| 0 <= q < j ==> vocab.deep_view()[q] != vocab.deep_view()[i as int],
            decreases i - j,
        {
            if vocab[j] == vocab[i] {
                proof {
                    assert(vocab.deep_view()[j as int] == vocab@[j as int]@);
                    assert(vocab.deep_view()[i as int] == vocab@[i as int]@);
                }
                return false;
            }
            proof {
                assert(vocab.deep_view()[j as int] == vocab@[j as int]@);
                assert(vocab.deep_view()[i as int] == vocab@[i as int]@);
            }
            j = j + 1;
        }
        i = i + 1;
    }
    true
}

} // verus!
