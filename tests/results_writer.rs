use osrs_gph::prices::TimeType;
use osrs_gph::results_writer::OptimalOverview;
use osrs_gph::types::{ExecTime, OverviewRow};

#[test]
/// Want to check that the range of numbers stored in a row
/// can be accurately displayed by the formatter.
fn print_single_row_format() {
    let row = OverviewRow {
        name: "Humidify Clay".to_string(),
        pay_once_total: None,
        profit: 375,
        time: Some(ExecTime::Millis(3_600)),
        number: 1_571,
        time_type: TimeType::SingleHour,
    };
    let formatter = OptimalOverview::default();

    let expected = "| Humidify Clay | 375 | 589,125 | 1.57 | 375,000 |";
    assert_eq!(
        formatter.fmt_item(&row),
        expected,
        "Check if the row/table format has changed."
    );
}

#[test]
fn humidify_clay_metrics() {
    let row = OverviewRow::new(
        "Humidify Clay".to_string(),
        None,
        375,
        Some(ExecTime::Millis(3_600)),
        1_571,
        TimeType::SingleHour,
    );
    assert_eq!(row.total_time(), Some(157));
    assert_eq!(row.total_gp(), 589_125);
    assert_eq!(row.gph(), 375_000);
    assert_eq!(row.format_time_string(), "1.57");
}

#[test]
fn header_is_padded_to_widths() {
    let mut formatter = OptimalOverview::default();
    formatter.col_widths = vec![8, 9, 17, 12, 6];
    assert_eq!(
        formatter.fmt_header(),
        "| Method   | Loss/Gain | (Total) Loss/Gain | Time (Hours) |   GP/h |"
    );
}

#[test]
fn negative_values_and_unknown_time() {
    let row = OverviewRow::new("Loss".to_string(), Some(1_000), -1_500, None, 2, TimeType::MaxHours);
    let cells = row.to_string_cells();
    assert_eq!(cells, vec!["Loss", "-2,500", "-4,000", "1.0", "-4,000"]);
}
