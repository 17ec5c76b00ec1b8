use osrs_gph::prices::TimeType;
use osrs_gph::results_writer::{
    create_internal_table_body_rows, generate_section_headers, merge_rows, DetailedRecipeLookup, OptimalOverview,
};
use osrs_gph::types::{DetailedTable, ExecTime, OverviewRow, TableInputs};

fn s(x: &str) -> String {
    x.to_string()
}

fn table(margin: u32) -> DetailedTable {
    let overview = OverviewRow::new(s("Smelt"), Some(20), 421, Some(ExecTime::Millis(2_400)), 100, TimeType::SingleHour);
    let adjusted = OverviewRow::new(s("Smelt"), Some(20), 380, Some(ExecTime::Millis(2_400)), 100, TimeType::SingleHour);
    DetailedTable::new(
        overview,
        adjusted,
        TableInputs { pay_once: Some(vec![(s("Hammer"), 20, 1_000)]), inputs: vec![(s("Ore"), 1_000, 1_000)] },
        vec![(s("Bar"), 1_450, 1_000)],
        margin,
    )
}

#[test]
fn section_headers_name_the_margin() {
    let headers = generate_section_headers(250);
    assert_eq!(headers[0], "Required Items (Base; 2.5% margin)");
    assert_eq!(headers[4], "Total (w/Tax Base; 2.5% margin)");
    assert_eq!(headers[5], "Profit/Loss (w/Tax Base; 2.5% margin)");
}

#[test]
fn merged_cells() {
    let base = vec![s("Ore"), s("1"), s("100"), s(""), s("")];
    let pm = vec![s("Ore"), s("1"), s("90"), s("5"), s("")];
    assert_eq!(merge_rows(&base, &pm), vec![s("Ore"), s("1"), s("100 (90)"), s("5"), s("")]);
}

#[test]
fn breakdown_rows_merge_both_scenarios() {
    let rows = create_internal_table_body_rows(&table(250));
    assert_eq!(rows.len(), 11);
    assert_eq!(rows[0][0], "Required Items (Base; 2.5% margin)");
    assert_eq!(rows[1], vec![s("Hammer"), s("1"), s("1 (1)"), s("20 (20)"), s("20 (20)"), s(""), s("")]);
    assert_eq!(rows[3], vec![s("Ore"), s("1"), s("100 (100)"), s("1,000 (1,025)"), s("100,000 (102,500)"), s(""), s("")]);
    assert_eq!(rows[4][4], "100,000 (102,500)");
    assert_eq!(rows[7][3], "1,450 (1,413)");
    assert_eq!(rows[5], vec![s(""); 7]);
    assert_eq!(rows[10][3], "421 (380)");
    assert_eq!(rows[10][5], "0.07 (0.07)");
}

#[test]
fn detailed_table_totals() {
    let t = table(0);
    assert_eq!(DetailedTable::single_amount(&t.inputs.inputs), 1_000);
    assert_eq!(DetailedTable::single_recipe_price(&t.outputs), 1_450);
    assert_eq!(t.total_price(&t.outputs), Some(145_000));
    assert_eq!(t.total_amount_of_recipe(), 100);
    assert_eq!(t.total_time(), Some(7));
}

#[test]
fn lookup_lines_are_padded() {
    let mut lookup = DetailedRecipeLookup::new(2_000_000, vec![table(250)], vec![0; 7]);
    let lines = lookup.table_body_lines(0);
    assert_eq!(lines.len(), 11);
    assert!(lines.iter().all(|l| l.chars().count() == lines[0].chars().count()));
}

#[test]
fn overview_table_lines() {
    let row = OverviewRow::new(s("Humidify Clay"), None, 375, Some(ExecTime::Millis(3_600)), 1_571, TimeType::SingleHour);
    let mut overview = OptimalOverview::new(vec![row], vec![0; 5]);
    let lines = overview.table_lines();
    assert_eq!(lines.len(), 3);
    assert_eq!(lines[0], "| Method        | Loss/Gain | (Total) Loss/Gain | Time (Hours) |    GP/h |");
    assert_eq!(lines[1], "| ------------- | --------- | ----------------- | ------------ | ------- |");
    assert_eq!(lines[2], "| Humidify Clay |       375 |           589,125 |         1.57 | 375,000 |");
}

#[test]
fn whole_lookup_table() {
    let mut lookup = DetailedRecipeLookup::new(2_000_000, vec![table(250)], vec![0; 7]);
    let lines = lookup.table_lines(0);
    assert_eq!(lines.len(), 16);
    assert_eq!(lines[0], "Smelt");
    assert_eq!(lines[1], "");
    assert!(lines[2].starts_with("| Item "));
    assert!(lines[3].starts_with("| ---"));
    assert!(lines[4].starts_with("| Required Items (Base; 2.5% margin) "));
    let width = lines[2].chars().count();
    assert!(lines[2..15].iter().all(|l| l.chars().count() == width));
    assert_eq!(lines[15], "");
    assert_eq!(lookup.table_separator().unwrap(), "#".repeat(width));
}
