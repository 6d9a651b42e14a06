use fluxquant::histogram::{tally_bins, Histogram};
use fluxquant::text::{
    decimal_string, forecast_labels, history_labels, json_count_array, json_raw_array,
    json_string_array,
};

#[test]
fn decimal_strings() {
    assert_eq!(decimal_string(0), "0");
    assert_eq!(decimal_string(7), "7");
    assert_eq!(decimal_string(10), "10");
    assert_eq!(decimal_string(52), "52");
    assert_eq!(decimal_string(1000), "1000");
    assert_eq!(decimal_string(usize::MAX), usize::MAX.to_string());
}

#[test]
fn forecast_labels_start_at_one() {
    assert_eq!(forecast_labels(3), vec!["W1", "W2", "W3"]);
    assert!(forecast_labels(0).is_empty());
}

#[test]
fn history_labels_start_at_zero() {
    assert_eq!(history_labels(3), vec!["H0", "H1", "H2"]);
    assert_eq!(history_labels(11)[10], "H10");
}

#[test]
fn json_arrays() {
    let labels = vec!["W1".to_string(), "W2".to_string()];
    assert_eq!(json_string_array(&labels), "[\"W1\",\"W2\"]");
    assert_eq!(json_string_array(&[]), "[]");
    assert_eq!(json_count_array(&[3, 0, 12]), "[3,0,12]");
    assert_eq!(json_count_array(&[]), "[]");
    let raw = vec!["1.000000".to_string(), "[2]".to_string()];
    assert_eq!(json_raw_array(&raw), "[1.000000,[2]]");
}

#[test]
fn histogram_json_object() {
    let h = Histogram { labels: vec!["1.40".to_string(), "2.20".to_string()], counts: vec![4, 1] };
    assert_eq!(h.to_json(), "{\"labels\":[\"1.40\",\"2.20\"],\"counts\":[4,1]}");
}

#[test]
fn tally_counts_every_position() {
    // five evenly spread values over five bins: the maximum lands at position 5
    let counts = tally_bins(&[0, 1, 2, 3, 5], 5);
    assert_eq!(counts, vec![1, 1, 1, 1, 1]);
    assert_eq!(counts.iter().sum::<usize>(), 5);
}

#[test]
fn tally_clamps_to_last_bin() {
    let counts = tally_bins(&[9, 9, 0, 2, 100], 3);
    assert_eq!(counts, vec![1, 0, 4]);
}

#[test]
fn tally_empty() {
    assert_eq!(tally_bins(&[], 4), vec![0, 0, 0, 0]);
}
