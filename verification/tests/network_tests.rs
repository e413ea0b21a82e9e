use digit_net::neural_network::{
    check_partitions, count_correct, initial_indexes, learning_rate_denom, select_training_indexes,
    selected_count, valid_dims, NetworkShape, NUM_EPOCHS,
};

#[test]
fn shape_of_reference_configuration() {
    let shape = NetworkShape::new(784, 10, vec![15]);
    assert_eq!(shape.transitions(), 2);
    assert_eq!(shape.weight_rows(0), 784);
    assert_eq!(shape.weight_cols(0), 15);
    assert_eq!(shape.bias_len(0), 15);
    assert_eq!(shape.weight_rows(1), 15);
    assert_eq!(shape.weight_cols(1), 10);
    assert_eq!(shape.bias_len(1), 10);
}

#[test]
fn shape_chain_is_consistent() {
    let shape = NetworkShape::new(6, 3, vec![4, 5, 2]);
    let transitions = shape.transitions();
    assert_eq!(transitions, 4);
    for t in 0..transitions - 1 {
        assert_eq!(shape.weight_cols(t), shape.bias_len(t));
        assert_eq!(shape.weight_cols(t), shape.weight_rows(t + 1));
    }
    assert_eq!(shape.weight_rows(0), 6);
    assert_eq!(shape.weight_cols(3), 3);
}

#[test]
fn shape_without_hidden_layers_is_one_affine_transform() {
    let shape = NetworkShape::new(2, 2, vec![]);
    assert_eq!(shape.transitions(), 1);
    assert_eq!(shape.weight_rows(0), 2);
    assert_eq!(shape.weight_cols(0), 2);
    assert_eq!(shape.bias_len(0), 2);
}

#[test]
fn valid_dims_accepts_the_reference_configuration() {
    assert!(valid_dims(784, 10, 1, &vec![15]));
    assert!(valid_dims(4, 2, 0, &vec![]));
}

#[test]
fn valid_dims_rejects_bad_configurations() {
    assert!(!valid_dims(0, 10, 1, &vec![15]));
    assert!(!valid_dims(784, 0, 1, &vec![15]));
    assert!(!valid_dims(784, 10, 2, &vec![15]));
    assert!(!valid_dims(784, 10, 1, &vec![0]));
}

#[test]
fn check_partitions_accepts_parallel_partitions() {
    assert!(check_partitions(&vec![100, 40, 40], &vec![100, 40, 40]));
}

#[test]
fn check_partitions_rejects_inconsistent_partitions() {
    assert!(!check_partitions(&vec![100, 40], &vec![100, 40]));
    assert!(!check_partitions(&vec![100, 40, 40], &vec![100, 40, 41]));
    assert!(!check_partitions(&vec![0, 40, 40], &vec![0, 40, 40]));
}

#[test]
fn selected_count_grows_linearly() {
    assert_eq!(selected_count(0, 100), 10);
    assert_eq!(selected_count(4, 100), 50);
    assert_eq!(selected_count(9, 100), 100);
    assert_eq!(selected_count(0, 5), 0);
    assert_eq!(selected_count(9, 5), 5);
    assert_eq!(selected_count(2, 0), 0);
}

#[test]
fn learning_rate_denominator_decays_per_epoch() {
    assert_eq!(learning_rate_denom(0), 100);
    assert_eq!(learning_rate_denom(3), 130);
    assert_eq!(learning_rate_denom(9), 190);
}

#[test]
fn initial_indexes_is_the_identity_order() {
    let order = initial_indexes(5);
    assert_eq!(order, vec![0, 1, 2, 3, 4]);
    assert!(initial_indexes(0).is_empty());
}

#[test]
fn selection_is_distinct_in_range_and_keeps_the_order_a_permutation() {
    let len = 50;
    let mut order = initial_indexes(len);
    for epoch in 0..NUM_EPOCHS {
        let selected = select_training_indexes(&mut order, epoch);
        assert_eq!(selected.len(), (epoch + 1) * len / NUM_EPOCHS);
        let mut seen = vec![false; len];
        for &index in &selected {
            assert!(index < len);
            assert!(!seen[index]);
            seen[index] = true;
        }
        let mut sorted = order.clone();
        sorted.sort();
        assert_eq!(sorted, initial_indexes(len));
    }
}

#[test]
fn count_correct_counts_agreeing_positions() {
    let preds = vec![1, 2, 3, 4];
    let labels = vec![1, 0, 3, 9];
    assert_eq!(count_correct(&preds, &labels), (2, 4));
    assert_eq!(count_correct(&vec![7, 7], &vec![1, 2]), (0, 2));
    assert_eq!(count_correct(&vec![], &vec![]), (0, 0));
}

#[test]
fn reported_denominator_equals_samples_scored() {
    let preds = vec![0, 1, 2, 3, 4, 5, 6];
    let labels = vec![0, 1, 2, 3, 4, 5, 6];
    let (correct, scored) = count_correct(&preds, &labels);
    assert_eq!(scored, preds.len());
    assert_eq!(correct, 7);
}
