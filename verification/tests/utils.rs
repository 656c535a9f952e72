use condor::utils::{pick_index, readable_unit, sample_1d, total_weight, Unit};

#[test]
fn thresholds_pick_by_the_running_sum() {
    let weights = vec![3, 0, 5, 2];
    assert_eq!(total_weight(&weights), 10);
    let picked: Vec<usize> = (0..10).map(|threshold| pick_index(&weights, threshold)).collect();
    assert_eq!(picked, vec![0, 0, 0, 2, 2, 2, 2, 2, 3, 3]);
    // a threshold that no running sum exceeds picks the first index
    assert_eq!(pick_index(&weights, 10), 0);
    assert_eq!(pick_index(&weights, u128::MAX), 0);
    assert_eq!(pick_index(&Vec::new(), 0), 0);
    assert_eq!(total_weight(&Vec::new()), 0);
    assert_eq!(total_weight(&vec![u64::MAX, u64::MAX, 2]), 2 * (u64::MAX as u128) + 2);
    assert_eq!(pick_index(&vec![u64::MAX, u64::MAX, 2], 2 * (u64::MAX as u128)), 2);
    assert_eq!(pick_index(&vec![u64::MAX, u64::MAX, 2], 2 * (u64::MAX as u128) - 1), 1);
}

#[test]
fn samples_have_weight() {
    let weights = vec![0, 0, 7, 0, 1, 0];
    let mut seen = [0usize; 6];
    for _ in 0..2000 {
        let index = sample_1d(&weights);
        assert!(index == 2 || index == 4);
        seen[index] += 1;
    }
    // seven in eight draws go to the heavy index, and some go to the light one
    assert!(seen[2] > seen[4]);
    assert!(seen[4] > 0);
    assert_eq!(sample_1d(&vec![0, 0, 0]), 0);
    assert_eq!(sample_1d(&Vec::new()), 0);
    assert_eq!(sample_1d(&vec![0, 0, 0, 9]), 3);
    assert_eq!(sample_1d(&vec![u64::MAX]), 0);
}

#[test]
fn samples_are_not_all_the_same() {
    let weights = vec![1; 64];
    let first = sample_1d(&weights);
    assert!((0..200).any(|_| sample_1d(&weights) != first));
}

#[test]
fn large_numbers_get_a_unit() {
    assert_eq!(readable_unit(0), None);
    assert_eq!(readable_unit(-5_000_000), None);
    assert_eq!(readable_unit(1_000), None);
    assert_eq!(readable_unit(1_001), Some(Unit { divisor: 1_000, suffix: 'K' }));
    assert_eq!(readable_unit(266_500), Some(Unit { divisor: 1_000, suffix: 'K' }));
    assert_eq!(readable_unit(1_000_000), Some(Unit { divisor: 1_000, suffix: 'K' }));
    assert_eq!(readable_unit(1_000_001), Some(Unit { divisor: 1_000_000, suffix: 'M' }));
    assert_eq!(readable_unit(1_000_000_000), Some(Unit { divisor: 1_000_000, suffix: 'M' }));
    assert_eq!(
        readable_unit(1_000_000_001),
        Some(Unit { divisor: 1_000_000_000, suffix: 'B' })
    );
    assert_eq!(
        readable_unit(1_000_000_000_001),
        Some(Unit { divisor: 1_000_000_000_000, suffix: 'T' })
    );
    assert_eq!(
        readable_unit(i64::MAX),
        Some(Unit { divisor: 1_000_000_000_000, suffix: 'T' })
    );
    assert_eq!(readable_unit(i64::MIN), None);
}
