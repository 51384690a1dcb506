//! The loaded classifier model, and the one thing the library reads from it:
//! its label vocabulary, from which the label index is built.
//!
//! The model's dictionary lays words and labels out in one entry table, the
//! labels as the `nlabels` entries starting at position `nwords`. Reading the
//! vocabulary indexes that range unchecked, and a malformed model file can
//! declare counts that reach past the table; `index_from_model` therefore
//! tests the counts first and turns such a model into a load error instead
//! of reading the vocabulary.
use crate::label_index::{distinct_labels, LabelIndex, MAX_LABELS};
use crate::label_index::labels_distinct;
use vstd::prelude::*;

verus! {

#[verifier::external_type_specification]
#[verifier::external_body]
pub struct ExFastText(fasttext::FastText);

#[verifier::external_type_specification]
#[verifier::external_body]
pub struct ExDictionary(fasttext::dictionary::Dictionary);

/// The dictionary a model carries: a pure function of the model value.
pub uninterp spec fn dict_of(model: fasttext::FastText) -> fasttext::dictionary::Dictionary;

/// How many word (non-label) entries a dictionary says it holds.
pub uninterp spec fn nwords_of(dict: fasttext::dictionary::Dictionary) -> int;

/// How many label entries a dictionary says it holds.
pub uninterp spec fn nlabels_of(dict: fasttext::dictionary::Dictionary) -> int;

/// How many entries a dictionary's entry table actually holds.
pub uninterp spec fn entry_count_of(dict: fasttext::dictionary::Dictionary) -> int;

/// The label vocabulary a model carries, in the model's own fixed
/// enumeration order: a pure function of the model value.
pub uninterp spec fn vocabulary_of(model: fasttext::FastText) -> Seq<Seq<char>>;

/// Whether the declared counts fit the entry table, so that the label range
/// `nwords .. nwords + nlabels` exists; reading the vocabulary of a model
/// whose dictionary fails this would panic.
pub open spec fn dict_consistent(model: fasttext::FastText) -> bool {
    &&& 0 <= nwords_of(dict_of(model))
    &&& 0 <= nlabels_of(dict_of(model))
    &&& nwords_of(dict_of(model)) + nlabels_of(dict_of(model)) <= entry_count_of(dict_of(model))
}

/// Relies on fasttext::FastText::dict: the model's dictionary, read without
/// touching the model.
#[verifier::external_body]
fn model_dict(model: &fasttext::FastText) -> (r: &fasttext::dictionary::Dictionary)
    ensures
        *r == dict_of(*model),
{
    model.dict()
}

/// Relies on fasttext::Dictionary::nwords: the declared word-entry count.
#[verifier::external_body]
fn dict_nwords(dict: &fasttext::dictionary::Dictionary) -> (r: i32)
    ensures
        r as int == nwords_of(*dict),
{
    dict.nwords()
}

/// Relies on fasttext::Dictionary::nlabels: the declared label-entry count.
#[verifier::external_body]
fn dict_nlabels(dict: &fasttext::dictionary::Dictionary) -> (r: i32)
    ensures
        r as int == nlabels_of(*dict),
{
    dict.nlabels()
}

/// Relies on fasttext::Dictionary::words: the entry table, of which only the
/// length is taken here.
#[verifier::external_body]
fn dict_entry_count(dict: &fasttext::dictionary::Dictionary) -> (r: usize)
    ensures
        r as int == entry_count_of(*dict),
{
    dict.words().len()
}

/// Relies on fasttext::FastText::get_labels: the model's label vocabulary in
/// its fixed enumeration order. It slices the label range of the entry table
/// unchecked — hence the consistency precondition, which the verified caller
/// establishes by testing the counts first.
#[verifier::external_body]
fn model_labels(model: &fasttext::FastText) -> (r: Vec<String>)
    requires
        dict_consistent(*model),
    ensures
        r.deep_view() == vocabulary_of(*model),
{
    model.get_labels().0
}

/// Why a model cannot back a label index.
#[derive(Debug, PartialEq, Eq, Structural)]
pub enum VocabularyError {
    /// The dictionary declares more word and label entries than its entry
    /// table holds; the vocabulary cannot be read from such a model.
    InconsistentDictionary,
    /// The vocabulary has more labels than the `i16` id space holds.
    TooManyLabels,
    /// The vocabulary names some label twice.
    DuplicateLabel,
}

/// Build the label index of a loaded model: the vocabulary defines the id
/// assignment. Fails, returning no partial index, exactly when the model's
/// dictionary counts are inconsistent, the vocabulary is too large for the
/// id space, or the vocabulary holds a duplicate label.
pub fn index_from_model(model: &fasttext::FastText) -> (r: Result<LabelIndex, VocabularyError>)
    ensures
        r is Ok <==> dict_consistent(*model) && vocabulary_of(*model).len() <= MAX_LABELS
            && distinct_labels(vocabulary_of(*model)),
        match r {
            Ok(ix) => ix.wf() && ix@ == vocabulary_of(*model),
            Err(e) => {
                &&& (e is InconsistentDictionary <==> !dict_consistent(*model))
                &&& (e is TooManyLabels <==> dict_consistent(*model) && vocabulary_of(
                    *model,
                ).len() > MAX_LABELS)
                &&& (e is DuplicateLabel <==> dict_consistent(*model) && vocabulary_of(
                    *model,
                ).len() <= MAX_LABELS && !distinct_labels(vocabulary_of(*model)))
            },
        },
{
    let dict = model_dict(model);
    let nwords = dict_nwords(dict);
    let nlabels = dict_nlabels(dict);
    let entries = dict_entry_count(dict);
    if nwords < 0 || nlabels < 0 || (nwords as u64) + (nlabels as u64) > (entries as u64) {
        return Err(VocabularyError::InconsistentDictionary);
    }
    let labels = model_labels(model);
    proof {
        assert(labels.deep_view().len() == labels@.len());
    }
    if labels.len() > MAX_LABELS {
        Err(VocabularyError::TooManyLabels)
    } else if !labels_distinct(&labels) {
        Err(VocabularyError::DuplicateLabel)
    } else {
        Ok(LabelIndex::build(labels))
    }
}

} // verus!
