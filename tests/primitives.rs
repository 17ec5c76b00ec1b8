use osrs_gph::helpers::{hundredths_string, parse_comma_string, ToCommaString};
use osrs_gph::prices::{update_recipe_number, PriceHandle, TimeType};
use osrs_gph::ranking::{row_visibility, Visibility};
use osrs_gph::types::ExecTime;

#[test]
fn tax_on_ten_million() {
    assert_eq!(PriceHandle::apply_tax(10_000_000), 9_800_000);
}

#[test]
fn no_tax_below_threshold() {
    assert_eq!(PriceHandle::apply_tax(49), 49);
    assert_eq!(PriceHandle::apply_tax(-20), -20);
}

#[test]
fn tax_at_threshold_and_cap() {
    assert_eq!(PriceHandle::apply_tax(50), 49);
    assert_eq!(PriceHandle::apply_tax(1_000), 980);
    assert_eq!(PriceHandle::apply_tax(i32::MAX), i32::MAX - 5_000_000);
}

#[test]
fn total_details_untaxed_floors_the_sum() {
    // 10 x 1.5 + 3 x 0.5 = 16.5
    let lines = [(10, 1_500), (3, 500)];
    assert_eq!(PriceHandle::total_details_price(&lines, false), Some(16));
}

#[test]
fn total_details_taxes_each_line() {
    let lines = [(1_000, 1_000), (40, 1_000)];
    assert_eq!(PriceHandle::total_details_price(&lines, true), Some(980 + 40));
}

#[test]
fn total_details_out_of_range() {
    let lines = [(i32::MAX, 1_000), (1, 1_000)];
    assert_eq!(PriceHandle::total_details_price(&lines, false), None);
}

#[test]
fn recipe_time_for_humidify_clay() {
    let (hours, gph) = PriceHandle::recipe_time_h(ExecTime::Millis(3_600), 1_571, 375, false);
    assert_eq!(hours, 157);
    assert_eq!(gph, 375_000);
    let (_, batch) = PriceHandle::recipe_time_h(ExecTime::Millis(3_600), 1_571, 589_125, true);
    assert_eq!(batch, 375_238);
}

#[test]
fn recipe_time_empty_batch() {
    let (hours, gph) = PriceHandle::recipe_time_h(ExecTime::Millis(3_600), 0, 10, true);
    assert_eq!(hours, 0);
    assert_eq!(gph, i32::MAX);
}

#[test]
fn solver_without_cost_or_rate() {
    assert_eq!(update_recipe_number(None, 1_000, 0, TimeType::SingleHour), 0);
    assert_eq!(update_recipe_number(Some(30), 1_000, 0, TimeType::MaxHours), 30);
}

#[test]
fn solver_single_hour_takes_smaller_of_rate_and_capital() {
    assert_eq!(update_recipe_number(Some(100), 1_000, 20, TimeType::SingleHour), 50);
    assert_eq!(update_recipe_number(Some(10), 1_000, 20, TimeType::SingleHour), 10);
    assert_eq!(update_recipe_number(None, 1_000, 20, TimeType::SingleHour), 50);
}

#[test]
fn solver_at_least_one() {
    assert_eq!(update_recipe_number(Some(10), 5, 20, TimeType::SingleHour), 1);
    assert_eq!(update_recipe_number(Some(10), 5, 20, TimeType::MaxHours), 1);
    assert_eq!(update_recipe_number(None, 0, 7, TimeType::MaxHours), 1);
}

#[test]
fn solver_max_hours_counts_hours_and_remainder() {
    // 3 whole hours of 10 at 7 each cost 210, the remaining 40 pay for 5 more.
    assert_eq!(update_recipe_number(Some(10), 250, 7, TimeType::MaxHours), 35);
}

#[test]
fn visibility_truth_table() {
    // (cant_afford, no_profit, must_profit, show_hidden) -> visibility
    let cases = [
        (false, false, false, false, Visibility::Shown),
        (false, false, false, true, Visibility::Shown),
        (false, false, true, false, Visibility::Shown),
        (false, false, true, true, Visibility::Shown),
        (false, true, false, false, Visibility::Shown),
        (false, true, false, true, Visibility::Shown),
        (false, true, true, false, Visibility::Hidden),
        (false, true, true, true, Visibility::Marked),
        (true, false, false, false, Visibility::Hidden),
        (true, false, false, true, Visibility::Marked),
        (true, false, true, false, Visibility::Hidden),
        (true, false, true, true, Visibility::Marked),
        (true, true, false, false, Visibility::Hidden),
        (true, true, false, true, Visibility::Marked),
        (true, true, true, false, Visibility::Hidden),
        (true, true, true, true, Visibility::Marked),
    ];
    for (cant_afford, no_profit, must_profit, show_hidden, expected) in cases {
        assert_eq!(row_visibility(cant_afford, no_profit, must_profit, show_hidden), expected);
    }
}

#[test]
fn comma_strings() {
    assert_eq!(0i64.to_comma_sep_string(), "0");
    assert_eq!(999i32.to_comma_sep_string(), "999");
    assert_eq!(1_000i64.to_comma_sep_string(), "1,000");
    assert_eq!((-1_234_567i32).to_comma_sep_string(), "-1,234,567");
}

#[test]
fn hundredths_text() {
    assert_eq!(hundredths_string(157), "1.57");
    assert_eq!(hundredths_string(150), "1.5");
    assert_eq!(hundredths_string(200), "2");
    assert_eq!(hundredths_string(5), "0.05");
}

#[test]
fn parse_comma_strings() {
    assert_eq!(parse_comma_string("1,234,567").unwrap(), 1_234_567);
    assert_eq!(parse_comma_string("-2,500").unwrap(), -2_500);
    assert!(parse_comma_string("12a").is_err());
    assert!(parse_comma_string(",").is_err());
}

#[test]
fn comma_strings_read_back() {
    for n in [0i32, 7, 999, 1_000, -1_000, 589_125, i32::MAX, i32::MIN] {
        assert_eq!(parse_comma_string(&n.to_comma_sep_string()).unwrap(), n);
    }
}

#[test]
fn taxed_lines_are_rounded_down() {
    // -1 x 0.5 = -0.5, rounded down to -1; below the threshold, so untaxed
    assert_eq!(PriceHandle::total_details_price(&[(-1, 500)], true), Some(-1));
    assert_eq!(PriceHandle::total_details_price(&[(-1, 500)], false), Some(-1));
    // 101 x 0.5 = 50.5, rounded down to 50, taxed to 49
    assert_eq!(PriceHandle::total_details_price(&[(101, 500)], true), Some(49));
}
