use wargame::stats::{
    describe, get_coefficient_of_variation, get_mean, get_median, get_variance, low_variation, median_near_mean, narrow_range,
    rank_criteria, rank_letter, rank_passes, rank_reason, speed_within_interval,
    speed_within_sigma, summarize, Criteria, Fraction, StatError, MAX_SAMPLE, MAX_SAMPLES,
};

fn value(f: &Fraction) -> f64 {
    f.numer as f64 / f.denom as f64
}

fn criteria(bits: [bool; 5]) -> Criteria {
    Criteria {
        median_near_mean: bits[0],
        narrow_range: bits[1],
        low_variation: bits[2],
        speed_within_sigma: bits[3],
        speed_within_interval: bits[4],
    }
}

#[test]
fn identical_samples_have_no_spread() {
    let one = vec![7u64];
    assert_eq!(get_mean(&one), Fraction { numer: 7, denom: 1 });
    assert_eq!(value(&get_median(&one)), 7.0);
    let many = vec![7u64; 6];
    let st = describe(&many);
    assert_eq!(value(&st.mean), 7.0);
    assert_eq!(value(&st.median), 7.0);
    assert_eq!(st.variance.numer, 0);
    // standard deviation 0 and coefficient of variation 0
    assert_eq!(value(&st.variance).sqrt() / value(&st.mean), 0.0);
}

#[test]
fn one_to_four() {
    let s = vec![1u64, 2, 3, 4];
    let mean = get_mean(&s);
    assert_eq!(mean, Fraction { numer: 10, denom: 4 });
    assert_eq!(value(&mean), 2.5);
    let median = get_median(&s);
    assert_eq!(median, Fraction { numer: 5, denom: 2 });
    let variance = get_variance(&s, &mean);
    assert_eq!(variance, Fraction { numer: 80, denom: 48 });
    let stdev = value(&variance).sqrt();
    assert!((stdev - 1.2910).abs() < 1e-4);
}

#[test]
fn one_to_five_median_is_the_middle() {
    let s = vec![1u64, 2, 3, 4, 5];
    assert_eq!(value(&get_median(&s)), 3.0);
}

#[test]
fn median_sorts_a_copy_first() {
    let s = vec![5u64, 1, 4, 2, 3];
    assert_eq!(get_median(&s), Fraction { numer: 6, denom: 2 });
    assert_eq!(s, vec![5u64, 1, 4, 2, 3]);
    let even = vec![40u64, 10, 30, 20];
    assert_eq!(get_median(&even), Fraction { numer: 50, denom: 2 });
}

#[test]
fn half_percent_variation_passes_the_third_criterion() {
    // mean 1000, standard deviation 5: coefficient of variation 0.005
    let s = vec![995u64, 1000, 1005];
    let st = describe(&s);
    assert_eq!(value(&st.variance), 25.0);
    assert!(low_variation(&st));
    let c = rank_criteria(&st, 0, 2000, 1);
    assert!(c.low_variation);
    assert!(rank_passes(&c) >= 1);
    assert_ne!(rank_letter(&c), "F");
}

#[test]
fn two_percent_variation_fails_the_third_criterion() {
    // mean 1000, standard deviation 20
    let s = vec![980u64, 1000, 1020];
    let st = describe(&s);
    assert!(!low_variation(&st));
}

#[test]
fn zero_mean_never_has_low_variation() {
    let st = describe(&vec![0u64, 0, 0]);
    assert!(!low_variation(&st));
}

#[test]
fn median_near_mean_needs_a_spread() {
    let st = describe(&vec![995u64, 1000, 1005]);
    assert!(median_near_mean(&st));
    let flat = describe(&vec![5u64, 5, 5]);
    assert!(!median_near_mean(&flat));
    // mean 4, median 1, standard deviation about 5.196
    let skewed = describe(&vec![1u64, 1, 10]);
    assert!(median_near_mean(&skewed));
    // mean 25.75, median 1, standard deviation about 49.5
    let far = describe(&vec![1u64, 1, 1, 100]);
    assert!(median_near_mean(&far));
    // mean 67, median 100, standard deviation about 57.2
    let tail = describe(&vec![1u64, 100, 100]);
    assert!(median_near_mean(&tail));
}

#[test]
fn narrow_range_is_under_a_tenth_of_the_maximum() {
    assert!(narrow_range(91, 100));
    assert!(!narrow_range(90, 100));
    assert!(!narrow_range(0, 0));
    assert!(narrow_range(100, 100));
}

#[test]
fn speed_within_one_sigma() {
    let st = describe(&vec![995u64, 1000, 1005]);
    assert!(speed_within_sigma(&st, 1004));
    assert!(!speed_within_sigma(&st, 1005));
    assert!(!speed_within_sigma(&st, 995));
    assert!(speed_within_sigma(&st, 996));
}

#[test]
fn speed_within_the_confidence_interval() {
    // half width 3.291 * 5 / sqrt(3) = 9.500...
    let st = describe(&vec![995u64, 1000, 1005]);
    assert!(speed_within_interval(&st, 1009));
    assert!(!speed_within_interval(&st, 1010));
    assert!(speed_within_interval(&st, 991));
    assert!(!speed_within_interval(&st, 990));
}

#[test]
fn letters_follow_the_number_of_passes() {
    assert_eq!(rank_letter(&criteria([true; 5])), "A+");
    assert_eq!(rank_letter(&criteria([true, true, true, true, false])), "A");
    assert_eq!(rank_letter(&criteria([false, true, true, true, false])), "B");
    assert_eq!(rank_letter(&criteria([false, false, true, false, true])), "C");
    assert_eq!(rank_letter(&criteria([false, false, false, false, true])), "D");
    assert_eq!(rank_letter(&criteria([false; 5])), "F");
    assert_eq!(rank_passes(&criteria([true, false, true, false, true])), 3);
}

#[test]
fn reasons_list_the_passed_criteria() {
    assert_eq!(rank_reason(&criteria([false; 5])), "none");
    assert_eq!(rank_reason(&criteria([true, false, true, false, true])), "1 | 3 | 5");
    assert_eq!(rank_reason(&criteria([false, false, false, true, false])), "4");
    assert_eq!(rank_reason(&criteria([true; 5])), "1 | 2 | 3 | 4 | 5");
}

#[test]
fn summarize_needs_two_samples() {
    assert_eq!(summarize(&vec![], 0, 0, 0), Err(StatError::InsufficientData));
    assert_eq!(summarize(&vec![5u64], 5, 5, 5), Err(StatError::InsufficientData));
}

#[test]
fn summarize_refuses_values_too_large() {
    let big = MAX_SAMPLE + 1;
    assert_eq!(summarize(&vec![1u64, big], 1, big, 1), Err(StatError::ValueTooLarge));
    assert_eq!(summarize(&vec![1u64, 2], 1, 2, big), Err(StatError::ValueTooLarge));
    assert!(summarize(&vec![1u64, MAX_SAMPLE], 1, MAX_SAMPLE, MAX_SAMPLE).is_ok());
}

#[test]
fn summarize_refuses_too_many_samples() {
    let s = vec![3u64; MAX_SAMPLES + 1];
    assert_eq!(summarize(&s, 3, 3, 3), Err(StatError::TooManySamples));
}

#[test]
fn summarize_at_the_largest_size() {
    let mut s = vec![MAX_SAMPLE; MAX_SAMPLES];
    s[0] = 0;
    let r = summarize(&s, 0, MAX_SAMPLE, MAX_SAMPLE).unwrap();
    assert_eq!(r.stats.count, MAX_SAMPLES);
    assert_eq!(r.stats.median, Fraction { numer: 2 * MAX_SAMPLE as u128, denom: 2 });
    assert!(r.criteria.speed_within_sigma);
}

#[test]
fn summarize_grades_a_steady_run() {
    let s = vec![995u64, 1000, 1005, 1000];
    let r = summarize(&s, 990, 1010, 1000).unwrap();
    assert_eq!(r.stats.mean, Fraction { numer: 4000, denom: 4 });
    assert_eq!(r.criteria, criteria([true; 5]));
    assert_eq!(rank_letter(&r.criteria), "A+");
}

#[test]
fn coefficient_of_variation_is_stdev_over_mean() {
    // mean 1000, standard deviation 5
    let st = describe(&vec![995u64, 1000, 1005]);
    let cov = get_coefficient_of_variation(&st).unwrap();
    assert_eq!(cov, Fraction { numer: 450, denom: 2 * 3000 * 3000 });
    assert!((value(&cov).sqrt() - 0.005).abs() < 1e-12);
    let flat = describe(&vec![7u64, 7, 7]);
    assert_eq!(get_coefficient_of_variation(&flat).unwrap().numer, 0);
    assert_eq!(get_coefficient_of_variation(&describe(&vec![0u64, 0])), None);
}
