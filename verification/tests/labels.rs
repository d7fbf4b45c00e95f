use pdfplot::labels::{format_fixed, format_label, format_scientific, label_style, LabelStyle};

#[test]
fn fixed_point_keeps_the_asked_places() {
    assert_eq!(format_fixed(15, -1, 2), "1.50");
    assert_eq!(format_fixed(-15, -1, 2), "-1.50");
    assert_eq!(format_fixed(5, 0, 2), "5.00");
    assert_eq!(format_fixed(5, 2, 0), "500");
    assert_eq!(format_fixed(1, -3, 3), "0.001");
}

#[test]
fn fixed_point_rounds_a_half_to_even() {
    assert_eq!(format_fixed(125, -3, 2), "0.12");
    assert_eq!(format_fixed(135, -3, 2), "0.14");
    assert_eq!(format_fixed(126, -3, 2), "0.13");
    assert_eq!(format_fixed(-4, -3, 2), "-0.00");
}

#[test]
fn scientific_notation_of_fifty_thousand() {
    assert_eq!(format_scientific(500_000, -1, 1), "5.0e4");
    assert_eq!(format_scientific(-1_234_567, 0, 2), "-1.23e6");
    assert_eq!(format_scientific(1, -5, 1), "1.0e-5");
}

#[test]
fn scientific_notation_carries_into_a_new_digit() {
    assert_eq!(format_scientific(9_996, 0, 2), "1.00e4");
    assert_eq!(format_scientific(9_994, 0, 2), "9.99e3");
}

#[test]
fn zero_is_always_a_bare_zero() {
    assert_eq!(format_label(0, -3, LabelStyle::Fixed { places: 3 }), "0");
    assert_eq!(format_label(0, 0, LabelStyle::Scientific { places: 1 }), "0");
    assert_eq!(format_label(0, 5, LabelStyle::Fixed { places: 2 }), "0");
}

#[test]
fn small_intervals_show_their_first_digit() {
    let style = label_style(10, (0, 100), -4);
    assert_eq!(style, LabelStyle::Fixed { places: 3 });
    assert_eq!(format_label(30, -4, style), "0.003");
}

#[test]
fn large_values_are_written_in_scientific_notation() {
    let style = label_style(500_000, (0, 10_000_000), -1);
    assert_eq!(style, LabelStyle::Scientific { places: 1 });
    assert_eq!(format_label(1_500_000, -1, style), "1.5e5");
}

#[test]
fn values_near_one_have_two_places() {
    let style = label_style(10, (0, 40), -1);
    assert_eq!(style, LabelStyle::Fixed { places: 2 });
    assert_eq!(format_label(30, -1, style), "3.00");
}

#[test]
fn an_interval_of_a_thousandth_shows_three_places() {
    let style = label_style(10, (0, 100), -4);
    let labels: Vec<String> = (0..11).map(|i| format_label(i * 10, -4, style)).collect();
    assert_eq!(
        labels,
        vec![
            "0", "0.001", "0.002", "0.003", "0.004", "0.005", "0.006", "0.007", "0.008", "0.009",
            "0.010"
        ]
    );
}

#[test]
fn an_interval_of_fifty_thousand_up_to_a_million_is_scientific() {
    let style = label_style(500_000, (0, 10_000_000), -1);
    let labels: Vec<String> = (0..5).map(|i| format_label(i * 2_500_000, -1, style)).collect();
    assert_eq!(labels, vec!["0", "2.5e5", "5.0e5", "7.5e5", "1.0e6"]);
}

#[test]
fn ten_thousand_is_where_scientific_notation_begins() {
    assert_eq!(label_style(10, (0, 9_999), 0), LabelStyle::Fixed { places: 2 });
    assert_eq!(label_style(10, (0, 10_000), 0), LabelStyle::Scientific { places: 2 });
    assert_eq!(label_style(10, (-10_000, 0), 0), LabelStyle::Scientific { places: 2 });
    assert_eq!(label_style(1, (0, 0), 0), LabelStyle::Fixed { places: 2 });
}

#[test]
fn scientific_places_follow_the_powers_between_interval_and_limit() {
    assert_eq!(label_style(1, (0, 1_000_000), 0), LabelStyle::Scientific { places: 5 });
    assert_eq!(label_style(1_000_000, (0, 20_000), 0), LabelStyle::Scientific { places: 1 });
    assert_eq!(label_style(20_000, (0, 20_000), 0), LabelStyle::Scientific { places: 1 });
}

#[test]
fn an_interval_of_one_is_not_below_one() {
    assert_eq!(label_style(10, (0, 50), -1), LabelStyle::Fixed { places: 2 });
    assert_eq!(label_style(9, (0, 50), -1), LabelStyle::Fixed { places: 1 });
    assert_eq!(label_style(25, (0, 50), -3), LabelStyle::Fixed { places: 2 });
    assert_eq!(label_style(-25, (50, 0), -3), LabelStyle::Fixed { places: 2 });
    assert_eq!(label_style(1, (0, 5), -19), LabelStyle::Fixed { places: 19 });
}

#[test]
fn labels_at_the_ends_of_the_range_of_exponents() {
    assert_eq!(format_fixed(1, -19, 19), "0.0000000000000000001");
    assert_eq!(format_fixed(i64::MIN, -19, 19), "-0.9223372036854775808");
    assert_eq!(format_fixed(i64::MAX, 17, 2), "922337203685477580700000000000000000.00");
    assert_eq!(format_fixed(5, -19, 0), "0");
    assert_eq!(format_fixed(5, -1, 0), "0");
    assert_eq!(format_fixed(15, -1, 0), "2");
    assert_eq!(format_fixed(25, -1, 0), "2");
    assert_eq!(format_scientific(i64::MAX, 0, 19), "9.2233720368547758070e18");
    assert_eq!(format_scientific(i64::MIN, -30, 1), "-9.2e-12");
    assert_eq!(format_scientific(95, 0, 0), "1e2");
    assert_eq!(format_scientific(85, 0, 0), "8e1");
}

#[test]
fn zero_in_scientific_notation_has_the_power_zero() {
    assert_eq!(format_scientific(0, 5, 1), "0.0e0");
    assert_eq!(format_scientific(0, -5, 0), "0e0");
}
