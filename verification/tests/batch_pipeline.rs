use fasttext_parallel::batch::{
    batch_from_predictions, collect_results, enumerate_items, process_item, remap_predictions,
};
use fasttext_parallel::label_index::LabelIndex;
use fasttext_parallel::matrix::Matrix;
use fasttext_parallel::{pool_size, CHANNEL_SIZE, MIN_THREADS};

fn cat_dog_index() -> LabelIndex {
    LabelIndex::build(vec!["cat".to_string(), "dog".to_string()])
}

fn matrix_cells<T: Copy>(m: &Matrix<T>) -> Vec<Vec<T>> {
    let mut rows = Vec::new();
    for i in 0..m.num_rows() {
        let mut row = Vec::new();
        for j in 0..m.num_cols() {
            row.push(m.get(i, j));
        }
        rows.push(row);
    }
    rows
}

#[test]
fn matrix_has_requested_shape_and_fill() {
    let m: Matrix<i16> = Matrix::new(3, 2, 7);
    assert_eq!(m.num_rows(), 3);
    assert_eq!(m.num_cols(), 2);
    assert_eq!(matrix_cells(&m), vec![vec![7, 7], vec![7, 7], vec![7, 7]]);
}

#[test]
fn store_row_pads_short_and_truncates_long_results() {
    let mut m: Matrix<i16> = Matrix::new(2, 3, 0);
    m.store_row(0, &vec![9]);
    m.store_row(1, &vec![5, 6, 7, 8]);
    assert_eq!(matrix_cells(&m), vec![vec![9, 0, 0], vec![5, 6, 7]]);
}

#[test]
fn remap_keeps_order_and_marks_unknown_labels() {
    let ix = cat_dog_index();
    let preds = vec![("bird".to_string(), 0.5f32), ("cat".to_string(), 0.25f32)];
    let (ids, probs) = remap_predictions(&ix, &preds);
    assert_eq!(ids, vec![-1, 0]);
    assert_eq!(probs, vec![0.5, 0.25]);
}

#[test]
fn process_item_turns_absent_text_into_empty_rows() {
    let ix = cat_dog_index();
    let (ids, probs) = process_item::<f32>(&ix, &None);
    assert!(ids.is_empty());
    assert!(probs.is_empty());
}

#[test]
fn enumerate_items_tags_each_item_with_its_position() {
    let tagged = enumerate_items(vec!["a".to_string(), "b".to_string(), "c".to_string()]);
    assert_eq!(
        tagged,
        vec![
            (0, "a".to_string()),
            (1, "b".to_string()),
            (2, "c".to_string())
        ]
    );
}

#[test]
fn batch_row_i_holds_result_of_item_i() {
    let ix = cat_dog_index();
    let items = vec![
        Some(vec![("cat".to_string(), 0.9f32), ("dog".to_string(), 0.05f32)]),
        None,
        Some(vec![("dog".to_string(), 0.8f32)]),
    ];
    let (labels, probs) = batch_from_predictions(&ix, &items, 2, 0.0f32);
    assert_eq!(
        matrix_cells(&labels),
        vec![vec![0, 1], vec![0, 0], vec![1, 0]]
    );
    assert_eq!(
        matrix_cells(&probs),
        vec![vec![0.9, 0.05], vec![0.0, 0.0], vec![0.8, 0.0]]
    );
}

#[test]
fn invalid_item_yields_zero_row_and_leaves_others_alone() {
    let ix = cat_dog_index();
    let valid = vec![
        Some(vec![("cat".to_string(), 0.9f32)]),
        Some(vec![("dog".to_string(), 0.7f32)]),
        Some(vec![("dog".to_string(), 0.8f32)]),
    ];
    let mut damaged = valid.clone();
    damaged[1] = None;
    let (labels_ok, probs_ok) = batch_from_predictions(&ix, &valid, 2, 0.0f32);
    let (labels_bad, probs_bad) = batch_from_predictions(&ix, &damaged, 2, 0.0f32);
    assert_eq!(matrix_cells(&labels_bad)[1], vec![0, 0]);
    assert_eq!(matrix_cells(&probs_bad)[1], vec![0.0, 0.0]);
    for i in [0usize, 2] {
        assert_eq!(matrix_cells(&labels_bad)[i], matrix_cells(&labels_ok)[i]);
        assert_eq!(matrix_cells(&probs_bad)[i], matrix_cells(&probs_ok)[i]);
    }
}

#[test]
fn collection_order_does_not_change_the_matrices() {
    let ix = cat_dog_index();
    let items = vec![
        Some(vec![("cat".to_string(), 0.9f32), ("dog".to_string(), 0.05f32)]),
        None,
        Some(vec![("dog".to_string(), 0.8f32)]),
    ];
    let (labels_seq, probs_seq) = batch_from_predictions(&ix, &items, 2, 0.0f32);
    let row = |i: usize| (i, process_item(&ix, &items[i]));
    for order in [[0usize, 1, 2], [2, 0, 1], [1, 2, 0], [2, 1, 0]] {
        let results = vec![row(order[0]), row(order[1]), row(order[2])];
        let (labels, probs) = collect_results(3, 2, &results, 0.0f32);
        assert_eq!(matrix_cells(&labels), matrix_cells(&labels_seq));
        assert_eq!(matrix_cells(&probs), matrix_cells(&probs_seq));
    }
}

#[test]
fn collector_leaves_rows_without_a_result_blank() {
    let results = vec![(1usize, (vec![1i16], vec![0.5f32]))];
    let (labels, probs) = collect_results(3, 2, &results, 0.0f32);
    assert_eq!(
        matrix_cells(&labels),
        vec![vec![0, 0], vec![1, 0], vec![0, 0]]
    );
    assert_eq!(
        matrix_cells(&probs),
        vec![vec![0.0, 0.0], vec![0.5, 0.0], vec![0.0, 0.0]]
    );
}

#[test]
fn running_the_same_batch_twice_gives_identical_matrices() {
    let ix = cat_dog_index();
    let items = vec![
        Some(vec![("dog".to_string(), 0.6f32)]),
        Some(vec![("cat".to_string(), 0.4f32), ("dog".to_string(), 0.3f32)]),
    ];
    let (labels_a, probs_a) = batch_from_predictions(&ix, &items, 2, 0.0f32);
    let (labels_b, probs_b) = batch_from_predictions(&ix, &items, 2, 0.0f32);
    assert_eq!(matrix_cells(&labels_a), matrix_cells(&labels_b));
    assert_eq!(matrix_cells(&probs_a), matrix_cells(&probs_b));
}

#[test]
fn predictions_past_k_are_truncated() {
    let ix = cat_dog_index();
    let items = vec![Some(vec![
        ("dog".to_string(), 0.6f32),
        ("cat".to_string(), 0.3f32),
    ])];
    let (labels, probs) = batch_from_predictions(&ix, &items, 1, 0.0f32);
    assert_eq!(matrix_cells(&labels), vec![vec![1]]);
    assert_eq!(matrix_cells(&probs), vec![vec![0.6]]);
}

#[test]
fn empty_batch_yields_no_rows() {
    let ix = cat_dog_index();
    let items: Vec<Option<Vec<(String, f32)>>> = Vec::new();
    let (labels, probs) = batch_from_predictions(&ix, &items, 4, 0.0f32);
    assert_eq!(labels.num_rows(), 0);
    assert_eq!(labels.num_cols(), 4);
    assert_eq!(probs.num_rows(), 0);
    assert_eq!(probs.num_cols(), 4);
}

#[test]
fn cells_hold_only_handed_in_probabilities_or_the_filler() {
    let ix = cat_dog_index();
    let items = vec![
        Some(vec![("cat".to_string(), 70u32), ("dog".to_string(), 10u32)]),
        None,
        Some(vec![("dog".to_string(), 55u32)]),
    ];
    let (_, probs) = batch_from_predictions(&ix, &items, 2, 0u32);
    for i in 0..probs.num_rows() {
        for j in 0..probs.num_cols() {
            let cell = probs.get(i, j);
            assert!(cell == 0 || cell >= 10);
        }
    }
}

#[test]
fn pool_size_respects_the_thread_floor() {
    assert_eq!(pool_size(MIN_THREADS, 8), 8);
    assert_eq!(pool_size(MIN_THREADS, 1), MIN_THREADS);
    assert_eq!(pool_size(MIN_THREADS, MIN_THREADS), MIN_THREADS);
    assert_eq!(MIN_THREADS, 3);
    assert_eq!(CHANNEL_SIZE, 128);
}
