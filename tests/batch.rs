use lair::GradientBatch;

#[test]
fn batch_defers_until_full() {
    let mut batch = GradientBatch::new(2);
    assert!(!batch.record((vec![0.0f32, 1.0], 0.25f32)));
    assert!(batch.record((vec![1.0f32, 0.0], 0.75f32)));
    assert_eq!(
        batch.gradients_vec(),
        &vec![(vec![0.0f32, 1.0], 0.25f32), (vec![1.0f32, 0.0], 0.75f32)]
    );
    assert!(!batch.record((vec![0.0f32, 1.0], 0.25f32)));
}

#[test]
fn batch_completes_on_last_slot_only() {
    let mut batch = GradientBatch::new(4);
    let answers: Vec<bool> = (0..8).map(|i| batch.record(i)).collect();
    let expected: Vec<bool> = (0..8).map(|i| i % 4 == 3).collect();
    assert_eq!(answers, expected);
    assert_eq!(batch.gradients_vec(), &vec![4, 5, 6, 7]);
}

#[test]
fn batch_of_one_never_defers() {
    let mut batch = GradientBatch::new(1);
    assert!(batch.record(3u64));
    assert!(batch.record(5u64));
    assert_eq!(batch.gradients_vec(), &vec![5u64]);
    assert_eq!(batch.batch_size(), 1);
}

#[test]
fn batch_overwrites_slots_in_order() {
    let mut batch = GradientBatch::new(3);
    for g in [1, 2, 3, 4] {
        batch.record(g);
    }
    assert_eq!(batch.gradients_vec(), &vec![4, 2, 3]);
}
