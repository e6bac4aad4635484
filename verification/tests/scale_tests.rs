use hitmap::scale::{
    bucket_for_value, fibonacci_thresholds, linear_thresholds, parse_scale_profile,
    scale_thresholds,
};

#[test]
fn test_bucket_for_value_zero() {
    let thresholds = vec![1, 4, 9, 16, 25];
    assert_eq!(bucket_for_value(&thresholds, 0), 0);
}

#[test]
fn test_bucket_for_value_first_threshold() {
    let thresholds = vec![1, 4, 9, 16, 25];
    assert_eq!(bucket_for_value(&thresholds, 1), 1);
    assert_eq!(bucket_for_value(&thresholds, 2), 2);
    assert_eq!(bucket_for_value(&thresholds, 3), 2);
    assert_eq!(bucket_for_value(&thresholds, 4), 2);
}

#[test]
fn test_bucket_for_value_last_threshold() {
    let thresholds = vec![1, 4, 9, 16, 25];
    assert_eq!(bucket_for_value(&thresholds, 25), 5);
}

#[test]
fn test_bucket_for_value_over_max() {
    let thresholds = vec![1, 4, 9, 16, 25];
    assert_eq!(bucket_for_value(&thresholds, 100), 5);
}

#[test]
fn test_fibonacci_thresholds() {
    assert_eq!(fibonacci_thresholds(1), vec![1]);
    assert_eq!(fibonacci_thresholds(2), vec![1, 2]);
    assert_eq!(fibonacci_thresholds(3), vec![1, 2, 3]);
    assert_eq!(fibonacci_thresholds(5), vec![1, 2, 3, 5]);
    assert_eq!(fibonacci_thresholds(8), vec![1, 2, 3, 5, 8]);
    assert_eq!(fibonacci_thresholds(10), vec![1, 2, 3, 5, 8, 10]);
    assert_eq!(fibonacci_thresholds(21), vec![1, 2, 3, 5, 8, 13, 21]);
}

#[test]
fn test_linear_thresholds() {
    assert_eq!(linear_thresholds(1), vec![1]);
    assert_eq!(linear_thresholds(3), vec![1, 2, 3]);
    assert_eq!(linear_thresholds(5), vec![1, 2, 3, 4, 5]);
}

#[test]
fn test_scale_thresholds() {
    let thresholds = vec![1, 2, 3, 5];
    let scaled = scale_thresholds(&thresholds, 2);
    assert_eq!(scaled, vec![2, 4, 6, 10]);

    let scaled = scale_thresholds(&thresholds, 5);
    assert_eq!(scaled, vec![5, 10, 15, 25]);
}

#[test]
fn test_parse_scale_profile() {
    let profile = parse_scale_profile("linear-5-plus", 1).unwrap();
    assert_eq!(profile.thresholds, vec![1, 2, 3, 4, 5]);

    let profile = parse_scale_profile("fibonacci-8-plus", 1).unwrap();
    assert_eq!(profile.thresholds, vec![1, 2, 3, 5, 8]);

    let profile = parse_scale_profile("fibonacci-21-plus", 1).unwrap();
    assert_eq!(profile.thresholds, vec![1, 2, 3, 5, 8, 13, 21]);
}

#[test]
fn test_parse_scale_profile_invalid() {
    assert!(parse_scale_profile("invalid-5-plus", 1).is_err());
    assert!(parse_scale_profile("unknown-5-plus", 1).is_err());
}

#[test]
fn test_parse_scale_profile_with_multiplier() {
    let profile = parse_scale_profile("fibonacci-5-plus", 2).unwrap();
    assert_eq!(profile.thresholds, vec![2, 4, 6, 10]);
}

#[test]
fn bucket_for_value_is_monotone_in_the_value() {
    let thresholds = vec![1, 2, 3, 5, 8];
    let mut previous = 0;
    for value in 0..20u64 {
        let bucket = bucket_for_value(&thresholds, value);
        assert!(bucket >= previous);
        assert!(bucket <= thresholds.len());
        previous = bucket;
    }
}

#[test]
fn bucket_for_value_with_no_thresholds_is_zero() {
    assert_eq!(bucket_for_value(&[], 7), 0);
}

#[test]
fn fibonacci_thresholds_end_on_the_maximum() {
    for max in 1..200u64 {
        let t = fibonacci_thresholds(max);
        assert_eq!(t[0], 1);
        assert_eq!(*t.last().unwrap(), max);
        for w in t.windows(2) {
            assert!(w[0] < w[1]);
        }
    }
    assert_eq!(fibonacci_thresholds(0), vec![1]);
}

#[test]
fn fibonacci_thresholds_near_the_top_of_u64() {
    let t = fibonacci_thresholds(u64::MAX);
    assert_eq!(*t.last().unwrap(), u64::MAX);
}

#[test]
fn linear_thresholds_of_zero_is_empty() {
    assert!(linear_thresholds(0).is_empty());
}

#[test]
fn scale_thresholds_never_go_below_one() {
    assert_eq!(scale_thresholds(&[0, 3], 0), vec![1, 1]);
}

#[test]
fn parse_scale_profile_accepts_the_fibnacci_alias() {
    let profile = parse_scale_profile("fibnacci-8-plus", 1).unwrap();
    assert_eq!(profile.thresholds, vec![1, 2, 3, 5, 8]);
}

#[test]
fn parse_scale_profile_rejects_malformed_names() {
    let expected = "Invalid scale profile. Use names like linear-5-plus, linear-10-plus, fibonacci-8-plus, or fibonacci-21-plus.";
    for name in [
        "linear-0-plus",
        "linear-05-plus",
        "linear--plus",
        "linear-5",
        "Linear-5-plus",
        "linear-5-plus ",
        "linear-5x-plus",
        "linear-99999999999999999999-plus",
        "",
    ] {
        assert_eq!(parse_scale_profile(name, 1).unwrap_err(), expected, "{}", name);
    }
}

#[test]
fn parse_scale_profile_reads_large_maximum() {
    let profile = parse_scale_profile("fibonacci-1000-plus", 3).unwrap();
    assert_eq!(*profile.thresholds.last().unwrap(), 3000);
    assert_eq!(profile.thresholds[0], 3);
}
