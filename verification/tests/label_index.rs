use fasttext_parallel::label_index::{labels_distinct, LabelIndex};

fn cat_dog_index() -> LabelIndex {
    LabelIndex::build(vec!["cat".to_string(), "dog".to_string()])
}

#[test]
fn build_assigns_vocabulary_positions() {
    let ix = cat_dog_index();
    assert_eq!(ix.len(), 2);
    assert_eq!(ix.lookup_id(&"cat".to_string()), 0);
    assert_eq!(ix.lookup_id(&"dog".to_string()), 1);
}

#[test]
fn unknown_label_gets_sentinel_id() {
    let ix = cat_dog_index();
    assert_eq!(ix.lookup_id(&"bird".to_string()), -1);
    assert_eq!(ix.lookup_id(&"".to_string()), -1);
}

#[test]
fn lookup_label_inverts_lookup_id() {
    let ix = cat_dog_index();
    assert_eq!(ix.lookup_label(0), Some(&"cat".to_string()));
    assert_eq!(ix.lookup_label(1), Some(&"dog".to_string()));
    assert_eq!(ix.lookup_label(2), None);
    assert_eq!(ix.lookup_label(-1), None);
}

#[test]
fn labels_snapshot_lists_ids_in_order() {
    let ix = cat_dog_index();
    let snapshot = ix.labels();
    assert_eq!(
        snapshot,
        vec![(0i16, "cat".to_string()), (1i16, "dog".to_string())]
    );
}

#[test]
fn labels_distinct_accepts_unique_vocabulary() {
    assert!(labels_distinct(&vec!["a".to_string(), "b".to_string()]));
    assert!(labels_distinct(&Vec::new()));
}

#[test]
fn labels_distinct_rejects_duplicate() {
    assert!(!labels_distinct(&vec![
        "a".to_string(),
        "b".to_string(),
        "a".to_string()
    ]));
}

#[test]
fn vocabulary_filling_the_whole_id_space_is_accepted() {
    let vocab: Vec<String> = (0..32768).map(|i| format!("label{i}")).collect();
    let ix = LabelIndex::build(vocab);
    assert_eq!(ix.len(), 32768);
    assert_eq!(ix.lookup_id(&"label0".to_string()), 0);
    assert_eq!(ix.lookup_id(&"label32767".to_string()), 32767);
    assert_eq!(ix.lookup_label(32767), Some(&"label32767".to_string()));
}

#[test]
fn empty_vocabulary_builds_empty_index() {
    let ix = LabelIndex::build(Vec::new());
    assert_eq!(ix.len(), 0);
    assert_eq!(ix.lookup_id(&"cat".to_string()), -1);
    assert!(ix.labels().is_empty());
}
