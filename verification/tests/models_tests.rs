use weight_tracker_backend::models::BatchStats;
use weight_tracker_backend::value::WeightValue;

fn value(x: f64) -> WeightValue {
    WeightValue::from_bits(x.to_bits())
}

fn number(v: WeightValue) -> f64 {
    f64::from_bits(v.to_bits())
}

fn mean(values: &[WeightValue]) -> f64 {
    let sum: f64 = values.iter().map(|v| number(*v)).sum();
    sum / values.len() as f64
}

#[test]
fn test_batch_stats_empty() {
    let stats = BatchStats::empty();
    assert_eq!(stats.count, 0);
    assert_eq!(number(stats.min_weight), 0.0);
    assert_eq!(number(stats.max_weight), 0.0);
    assert_eq!(stats, BatchStats { count: 0, min_weight: value(0.0), max_weight: value(0.0) });
}

#[test]
fn test_batch_stats_from_weights() {
    let weights = vec![value(10.0), value(20.0), value(30.0), value(40.0), value(50.0)];
    let stats = BatchStats::from_weights(&weights);
    assert_eq!(stats.count, 5);
    assert_eq!(number(stats.min_weight), 10.0);
    assert_eq!(number(stats.max_weight), 50.0);
    assert_eq!(mean(&weights), 30.0);
}

#[test]
fn test_batch_stats_unordered_values() {
    let weights = vec![value(30.0), value(-2.5), value(50.0), value(0.0), value(7.25)];
    let stats = BatchStats::from_weights(&weights);
    assert_eq!(stats.count, 5);
    assert_eq!(number(stats.min_weight), -2.5);
    assert_eq!(number(stats.max_weight), 50.0);
}

#[test]
fn test_batch_stats_skip_nan() {
    let weights = vec![value(f64::NAN), value(3.0), value(f64::NAN), value(1.0)];
    let stats = BatchStats::from_weights(&weights);
    assert_eq!(stats.count, 4);
    assert_eq!(number(stats.min_weight), 1.0);
    assert_eq!(number(stats.max_weight), 3.0);
}

#[test]
fn test_batch_stats_of_nothing() {
    let stats = BatchStats::from_weights(&[]);
    assert_eq!(stats.count, 0);
    assert_eq!(number(stats.min_weight), 0.0);
    assert_eq!(number(stats.max_weight), 0.0);
    assert_eq!(stats, BatchStats::empty());
    assert_eq!(stats.min_weight.to_bits(), 0);
    assert_eq!(stats.max_weight.to_bits(), 0);
}

#[test]
fn test_batch_stats_match_fold() {
    let samples: Vec<Vec<f64>> = vec![
        vec![1.0],
        vec![5e-324, 10000.0],
        vec![-1.0, -2.0, -0.5],
        vec![f64::INFINITY, 1.0e300, -1.0e300],
        vec![f64::NEG_INFINITY, f64::NAN, 2.0],
        vec![0.5, 0.25, 0.125, 1.0e-310],
    ];
    for sample in samples {
        let weights: Vec<WeightValue> = sample.iter().map(|x| value(*x)).collect();
        let stats = BatchStats::from_weights(&weights);
        let min = sample.iter().fold(f64::INFINITY, |a, &b| a.min(b));
        let max = sample.iter().fold(f64::NEG_INFINITY, |a, &b| a.max(b));
        assert_eq!(stats.count, sample.len() as u64);
        assert_eq!(number(stats.min_weight), min);
        assert_eq!(number(stats.max_weight), max);
    }
}

#[test]
fn test_value_order_matches_numbers() {
    let samples = [
        f64::NEG_INFINITY,
        -1.0e308,
        -10000.0,
        -1.0,
        -5e-324,
        -0.0,
        0.0,
        5e-324,
        1.0e-310,
        0.5,
        1.0,
        9999.999999999998,
        10000.0,
        10000.000000000002,
        1.0e308,
        f64::INFINITY,
        f64::NAN,
    ];
    for a in samples {
        for b in samples {
            assert_eq!(value(a).is_less_than(value(b)), a < b);
        }
        assert_eq!(value(a).is_nan(), a.is_nan());
        assert_eq!(value(a).is_positive(), a > 0.0);
        assert_eq!(value(a).is_within_limit(), a <= 10000.0);
    }
}

#[test]
fn test_value_limit_is_ten_thousand() {
    assert_eq!(weight_tracker_backend::value::MAX_WEIGHT_BITS, 10000.0f64.to_bits());
    assert_eq!(weight_tracker_backend::value::INFINITY_BITS, f64::INFINITY.to_bits());
    assert_eq!(weight_tracker_backend::value::NEG_INFINITY_BITS, f64::NEG_INFINITY.to_bits());
    assert_eq!(weight_tracker_backend::value::SIGN_BIT, (-0.0f64).to_bits());
    assert_eq!(WeightValue::zero().to_bits(), 0.0f64.to_bits());
    assert_eq!(WeightValue::infinity().to_bits(), f64::INFINITY.to_bits());
    assert_eq!(WeightValue::neg_infinity().to_bits(), f64::NEG_INFINITY.to_bits());
}

fn next_sample(state: &mut u64) -> u64 {
    *state = state.wrapping_mul(6364136223846793005).wrapping_add(1442695040888963407);
    let bits = *state ^ (*state >> 29);
    match (*state >> 60) & 3 {
        0 => bits,
        1 => bits & 0x800F_FFFF_FFFF_FFFF,
        2 => (bits & 0x8000_0000_03FF_FFFF) | 0x7FF0_0000_0000_0000,
        _ => (bits & 0x80FF_FFFF_FFFF_FFFF) | 0x4000_0000_0000_0000,
    }
}

#[test]
fn test_value_order_on_many_encodings() {
    let mut state: u64 = 0x1234_5678_9ABC_DEF1;
    let mut previous = WeightValue::from_bits(0);
    for _ in 0..200_000 {
        let v = WeightValue::from_bits(next_sample(&mut state));
        let (a, b) = (number(previous), number(v));
        assert_eq!(previous.is_less_than(v), a < b, "{:x} {:x}", previous.to_bits(), v.to_bits());
        assert_eq!(v.is_less_than(previous), b < a);
        assert_eq!(v.is_nan(), b.is_nan());
        assert_eq!(v.is_positive(), b > 0.0);
        assert_eq!(v.is_within_limit(), b <= 10000.0);
        previous = v;
    }
}

#[test]
fn test_batch_stats_on_many_values() {
    let mut state: u64 = 0x0F0F_1234_5678_9ABC;
    for round in 0..2_000 {
        let len = 1 + (round % 7);
        let weights: Vec<WeightValue> = (0..len).map(|_| WeightValue::from_bits(next_sample(&mut state))).collect();
        let stats = BatchStats::from_weights(&weights);
        let min = weights.iter().fold(f64::INFINITY, |a, b| a.min(number(*b)));
        let max = weights.iter().fold(f64::NEG_INFINITY, |a, b| a.max(number(*b)));
        assert_eq!(stats.count, len as u64);
        assert_eq!(number(stats.min_weight), min);
        assert_eq!(number(stats.max_weight), max);
    }
}
