use symbol_price::history::{PriceHistory, Smoothing};

fn filled(max: u32, samples: &[u32]) -> PriceHistory {
    let mut h = PriceHistory::new(max);
    for s in samples {
        h.accept(*s);
        assert!(h.len() <= max as usize);
    }
    h
}

#[test]
fn history_evicts_oldest_when_full() {
    let h = filled(3, &[100, 105, 110, 90]);
    assert_eq!(h.to_vec(), vec![105, 110, 90]);
    assert_eq!(h.latest(), Some(90));
    assert_eq!(h.get(0), 105);
}

#[test]
fn history_keeps_last_samples_in_order() {
    let samples: Vec<u32> = (1..=20).collect();
    let h = filled(5, &samples);
    assert_eq!(h.to_vec(), vec![16, 17, 18, 19, 20]);
    let h = filled(5, &[7, 8]);
    assert_eq!(h.to_vec(), vec![7, 8]);
}

#[test]
fn history_of_capacity_zero_stays_empty() {
    let h = filled(0, &[1, 2, 3]);
    assert_eq!(h.len(), 0);
    assert_eq!(h.latest(), None);
}

#[test]
fn predict_needs_two_samples() {
    let w = Smoothing::from_period(2);
    assert_eq!(filled(3, &[]).predict(&w), None);
    assert_eq!(filled(3, &[100]).predict(&w), None);
    assert_eq!(filled(3, &[100, 110]).predict(&w), Some(107));
}

#[test]
fn predict_with_truncated_weight_keeps_seed() {
    let h = filled(3, &[100, 105, 110, 90]);
    assert_eq!(h.predict(&Smoothing::truncated()), Some(105));
    let h = filled(2, &[105, 110]);
    assert_eq!(h.predict(&Smoothing::truncated()), Some(105));
}

#[test]
fn predict_with_two_thirds_weight() {
    // 105, then 105 + round(5 * 2/3) = 108, then 108 - round(18 * 2/3) = 96.
    let h = filled(3, &[100, 105, 110, 90]);
    assert_eq!(h.predict(&Smoothing::from_period(2)), Some(96));
}

#[test]
fn predict_with_full_weight_follows_newest() {
    let w = Smoothing::new(1, 1).unwrap();
    let h = filled(4, &[5, u32::MAX, 0, 42]);
    assert_eq!(h.predict(&w), Some(42));
}

#[test]
fn predict_stays_between_extremes() {
    let w = Smoothing::new(1, 2).unwrap();
    let h = filled(3, &[0, u32::MAX, u32::MAX]);
    // 0 -> round(u32::MAX / 2) = 2147483648 -> + round(2147483647 / 2) = 3221225472
    assert_eq!(h.predict(&w), Some(3221225472));
}

#[test]
fn smoothing_rejects_weights_above_one() {
    assert!(Smoothing::new(3, 2).is_none());
    assert!(Smoothing::new(1, 0).is_none());
    let w = Smoothing::new(2, 3).unwrap();
    assert_eq!((w.num, w.den), (2, 3));
}
