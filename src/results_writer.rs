//! Text tables of the overview and of the per-recipe breakdowns.
use vstd::prelude::*;

use crate::helpers::{comma_sep, comma_string, hundredths_string, hundredths_text};
use crate::types::{DetailedTable, OverviewRow, RecipeDetail, RowView, TableInputs};

verus! {

pub const OVERVIEW_NUM_HEADERS: usize = 5;

/// Title of each column of the overview.
pub open spec fn overview_header(i: int) -> Seq<char> {
    if i == 0 {
        "Method"@
    } else if i == 1 {
        "Loss/Gain"@
    } else if i == 2 {
        "(Total) Loss/Gain"@
    } else if i == 3 {
        "Time (Hours)"@
    } else {
        "GP/h"@
    }
}

pub fn overview_header_text(i: usize) -> (r: &'static str)
    ensures
        r@ == overview_header(i as int),
{
    if i == 0 {
        "Method"
    } else if i == 1 {
        "Loss/Gain"
    } else if i == 2 {
        "(Total) Loss/Gain"
    } else if i == 3 {
        "Time (Hours)"
    } else {
        "GP/h"
    }
}

/// Total time as text; a row without a duration is taken to fill one hour.
pub open spec fn time_text(row: RowView) -> Seq<char> {
    match row.total_time_spec() {
        Some(h) => hundredths_text(h as nat),
        None => "1.0"@,
    }
}

/// The cells of a row of the overview.
pub open spec fn overview_cells(row: RowView) -> Seq<Seq<char>> {
    seq![
        row.name,
        comma_string(row.loss_gain_spec()),
        comma_string(row.total_gp_spec()),
        time_text(row),
        comma_string(row.gph_spec()),
    ]
}

/// The text of each cell.
pub open spec fn cell_views(cells: Seq<String>) -> Seq<Seq<char>> {
    cells.map_values(|c: String| c@)
}

/// `n` spaces.
pub open spec fn spaces(n: nat) -> Seq<char> {
    Seq::new(n, |i: int| ' ')
}

/// `s` followed by spaces up to `width` characters.
pub open spec fn pad_right(s: Seq<char>, width: nat) -> Seq<char> {
    if s.len() >= width {
        s
    } else {
        s + spaces((width - s.len()) as nat)
    }
}

/// Spaces up to `width` characters, followed by `s`.
pub open spec fn pad_left(s: Seq<char>, width: nat) -> Seq<char> {
    if s.len() >= width {
        s
    } else {
        spaces((width - s.len()) as nat) + s
    }
}

/// A table line: the first cell aligned left, the others right, each padded
/// to its width, between bars.
pub open spec fn table_line(cells: Seq<Seq<char>>, widths: Seq<usize>) -> Seq<char>
    decreases cells.len(),
{
    if cells.len() == 0 {
        "|"@
    } else {
        let i = cells.len() - 1;
        let width: nat = if i < widths.len() {
            widths[i] as nat
        } else {
            0
        };
        let cell = if i == 0 {
            pad_right(cells[i], width)
        } else {
            pad_left(cells[i], width)
        };
        table_line(cells.drop_last(), widths) + " "@ + cell + " |"@
    }
}

fn push_spaces(s: &mut String, n: usize)
    ensures
        final(s)@ == old(s)@ + spaces(n as nat),
{
    let mut i: usize = 0;
    while i < n
        invariant
            i <= n,
            s@ == old(s)@ + spaces(i as nat),
        decreases n - i,
    {
        s.append(" ");
        proof {
            reveal_strlit(" ");
        }
        assert(s@ =~= old(s)@ + spaces((i + 1) as nat));
        i = i + 1;
    }
}

/// Appends `cell` padded to `width`, on the left when `left`.
fn push_padded(s: &mut String, cell: &String, width: usize, left: bool)
    ensures
        final(s)@ == old(s)@ + (if left {
            pad_right(cell@, width as nat)
        } else {
            pad_left(cell@, width as nat)
        }),
{
    let n = cell.as_str().unicode_len();
    if left {
        s.append(cell.as_str());
        if n < width {
            push_spaces(s, width - n);
        }
    } else {
        if n < width {
            push_spaces(s, width - n);
        }
        s.append(cell.as_str());
    }
    assert(final(s)@ =~= old(s)@ + (if left {
        pad_right(cell@, width as nat)
    } else {
        pad_left(cell@, width as nat)
    }));
}

/// Formats the cells as a table line with the given widths.
pub fn format_line(cells: &Vec<String>, widths: &Vec<usize>) -> (r: String)
    ensures
        r@ == table_line(cell_views(cells@), widths@),
{
    let mut s = String::from_str("|");
    let mut i: usize = 0;
    while i < cells.len()
        invariant
            i <= cells@.len(),
            s@ == table_line(cell_views(cells@.take(i as int)), widths@),
        decreases cells@.len() - i,
    {
        let ghost before = cell_views(cells@.take(i as int));
        assert(cell_views(cells@.take(i + 1)).drop_last() =~= before);
        s.append(" ");
        let width: usize = if i < widths.len() { widths[i] } else { 0 };
        push_padded(&mut s, &cells[i], width, i == 0);
        s.append(" |");
        i = i + 1;
    }
    assert(cells@.take(i as int) =~= cells@);
    s
}

impl OverviewRow {
    /// Total time in hours as text.
    pub fn format_time_string(&self) -> (r: String)
        requires
            self.wf(),
        ensures
            r@ == time_text(self@),
    {
        match self.total_time() {
            Some(h) => hundredths_string(h),
            None => String::from_str("1.0"),
        }
    }

    /// The cells of this row in the overview.
    pub fn to_string_cells(&self) -> (r: Vec<String>)
        requires
            self.wf(),
        ensures
            cell_views(r@) == overview_cells(self@),
            r@.len() == OVERVIEW_NUM_HEADERS,
    {
        let mut cells: Vec<String> = Vec::new();
        cells.push(self.name.clone());
        cells.push(comma_sep(self.loss_gain() as i128));
        cells.push(comma_sep(self.total_gp() as i128));
        cells.push(self.format_time_string());
        cells.push(comma_sep(self.gph() as i128));
        assert(cell_views(cells@) =~= overview_cells(self@));
        cells
    }
}

/// The overview table.
pub struct OptimalOverview {
    pub overview_rows: Vec<OverviewRow>,
    pub col_widths: Vec<usize>,
}

impl OptimalOverview {
    pub open spec fn wf(&self) -> bool {
        &&& self.col_widths@.len() == OVERVIEW_NUM_HEADERS
        &&& forall|i: int| 0 <= i < self.overview_rows@.len() ==> (#[trigger] self.overview_rows@[i]).wf()
    }

    pub fn new(overview_rows: Vec<OverviewRow>, col_widths: Vec<usize>) -> (r: Self)
        ensures
            r.overview_rows == overview_rows,
            r.col_widths == col_widths,
    {
        OptimalOverview { overview_rows, col_widths }
    }

    /// An empty table whose columns have no minimum width.
    pub fn default() -> (r: Self)
        ensures
            r.wf(),
            r.overview_rows@.len() == 0,
            r.col_widths@ == seq![0usize, 0, 0, 0, 0],
    {
        let mut col_widths: Vec<usize> = Vec::new();
        let mut i: usize = 0;
        while i < OVERVIEW_NUM_HEADERS
            invariant
                i <= OVERVIEW_NUM_HEADERS,
                col_widths@ == Seq::new(i as nat, |k: int| 0usize),
            decreases OVERVIEW_NUM_HEADERS - i,
        {
            col_widths.push(0);
            assert(col_widths@ =~= Seq::new((i + 1) as nat, |k: int| 0usize));
            i = i + 1;
        }
        assert(col_widths@ =~= seq![0usize, 0, 0, 0, 0]);
        OptimalOverview { overview_rows: Vec::new(), col_widths }
    }

    /// The header line.
    pub fn fmt_header(&self) -> (r: String)
        requires
            self.wf(),
        ensures
            r@ == table_line(Seq::new(5, |i: int| overview_header(i)), self.col_widths@),
    {
        let mut cells: Vec<String> = Vec::new();
        let mut i: usize = 0;
        while i < OVERVIEW_NUM_HEADERS
            invariant
                i <= OVERVIEW_NUM_HEADERS,
                cells@.len() == i,
                cell_views(cells@) == Seq::new(i as nat, |k: int| overview_header(k)),
            decreases OVERVIEW_NUM_HEADERS - i,
        {
            let text = overview_header_text(i);
            let cell = String::from_str(text);
            assert(cell@ == overview_header(i as int));
            let ghost before = cells@;
            cells.push(cell);
            assert(cells@ == before.push(cell));
            assert forall|k: int| 0 <= k <= i implies #[trigger] cell_views(cells@)[k] == overview_header(k) by {
                if k < i {
                    assert(cell_views(before)[k] == overview_header(k));
                }
            }
            assert(cell_views(cells@) =~= Seq::new((i + 1) as nat, |k: int| overview_header(k)));
            i = i + 1;
        }
        format_line(&cells, &self.col_widths)
    }

    /// The line of one row.
    pub fn fmt_item(&self, row: &OverviewRow) -> (r: String)
        requires
            self.wf(),
            row.wf(),
        ensures
            r@ == table_line(overview_cells(row@), self.col_widths@),
    {
        let cells = row.to_string_cells();
        format_line(&cells, &self.col_widths)
    }
}

} // verus!

verus! {

pub const DETAILED_NUM_HEADERS: usize = 7;
pub const NUM_SECTION_HEADERS: usize = 6;

/// Label of each section of a breakdown.
pub open spec fn section_label(i: int) -> Seq<char> {
    if i == 0 {
        "Required Items"@
    } else if i == 1 {
        "Inputs"@
    } else if i == 2 || i == 4 {
        "Total"@
    } else if i == 3 {
        "Outputs"@
    } else {
        "Profit/Loss"@
    }
}

fn section_label_text(i: usize) -> (r: &'static str)
    ensures
        r@ == section_label(i as int),
{
    if i == 0 {
        "Required Items"
    } else if i == 1 {
        "Inputs"
    } else if i == 2 || i == 4 {
        "Total"
    } else if i == 3 {
        "Outputs"
    } else {
        "Profit/Loss"
    }
}

/// Heading of section `i` for a margin of `margin` hundredths of a percent:
/// the last two sections are marked as taxed.
pub open spec fn section_header(i: int, margin: nat) -> Seq<char> {
    section_label(i) + " ("@ + (if i >= 4 {
        "w/Tax "@
    } else {
        ""@
    }) + "Base; "@ + hundredths_text(margin) + "% margin)"@
}

/// A row with `first` in its first cell and the other cells empty.
pub open spec fn heading_row(first: Seq<char>) -> Seq<Seq<char>> {
    seq![first, ""@, ""@, ""@, ""@, ""@, ""@]
}

/// A row of empty cells.
pub open spec fn blank_row() -> Seq<Seq<char>> {
    heading_row(""@)
}

/// An itemized row: name, quantity of one execution, quantity of all
/// executions, unit price and total price, the quantities in whole items.
pub open spec fn item_row(line: (String, i32, u32), number: int) -> Seq<Seq<char>> {
    seq![
        line.0@,
        comma_string(line.2 as int / 1000),
        comma_string(number * line.2 / 1000),
        comma_string(line.1 as int),
        comma_string((number * line.2 * line.1) / 1000),
        ""@,
        ""@,
    ]
}

pub open spec fn item_rows(lines: Seq<(String, i32, u32)>, number: int) -> Seq<Seq<Seq<char>>> {
    Seq::new(lines.len(), |i: int| item_row(lines[i], number))
}

/// A total row: the heading and the total in the fifth cell.
pub open spec fn total_row(first: Seq<char>, total: int) -> Seq<Seq<char>> {
    seq![first, ""@, ""@, ""@, comma_string(total), ""@, ""@]
}

/// The profit row: earnings of one execution, of all, the time and the
/// earnings per hour.
pub open spec fn profit_row(first: Seq<char>, row: RowView) -> Seq<Seq<char>> {
    seq![
        first,
        ""@,
        ""@,
        comma_string(row.profit as int),
        comma_string(row.total_gp_spec()),
        time_text(row),
        comma_string(row.gph_spec()),
    ]
}

/// The rows of one scenario of a breakdown.
pub open spec fn section_rows(
    headers: Seq<Seq<char>>,
    row: RowView,
    pay_once: Option<Seq<(String, i32, u32)>>,
    inputs: Seq<(String, i32, u32)>,
    outputs: Seq<(String, i32, u32)>,
) -> Seq<Seq<Seq<char>>> {
    let number = row.number as int;
    let required = match pay_once {
        Some(p) => seq![heading_row(headers[0])] + item_rows(p, 1),
        None => Seq::empty(),
    };
    let consumed = if inputs.len() == 0 {
        Seq::empty()
    } else {
        seq![heading_row(headers[1])] + item_rows(inputs, number) + seq![
            total_row(headers[2], crate::types::single_price_sum(inputs) * number),
        ]
    };
    required + consumed + seq![blank_row(), heading_row(headers[3])] + item_rows(outputs, number) + seq![
        total_row(headers[4], crate::types::single_price_sum(outputs) * number),
        blank_row(),
        profit_row(headers[5], row),
    ]
}

/// A cell of the merged table: from the third column on, both scenarios as
/// "base (adjusted)" when both are filled, else whichever is.
pub open spec fn merged_cell(column: int, base: Seq<char>, adjusted: Seq<char>) -> Seq<char> {
    if column < 2 {
        base
    } else if base.len() > 0 && adjusted.len() > 0 {
        base + " ("@ + adjusted + ")"@
    } else if base.len() > 0 {
        base
    } else {
        adjusted
    }
}

pub open spec fn merged_row(base: Seq<Seq<char>>, adjusted: Seq<Seq<char>>) -> Seq<Seq<char>> {
    let n = if base.len() <= adjusted.len() {
        base.len()
    } else {
        adjusted.len()
    };
    Seq::new(n, |c: int| merged_cell(c, base[c], adjusted[c]))
}

/// Rows of two scenarios merged pairwise.
pub open spec fn merged_rows(base: Seq<Seq<Seq<char>>>, adjusted: Seq<Seq<Seq<char>>>) -> Seq<Seq<Seq<char>>> {
    let n = if base.len() <= adjusted.len() {
        base.len()
    } else {
        adjusted.len()
    };
    Seq::new(n, |i: int| merged_row(base[i], adjusted[i]))
}

/// Itemized lines with their prices moved by the margin.
pub open spec fn adjusted_details(lines: Seq<(String, i32, u32)>, margin: int, buy: bool) -> Seq<(String, i32, u32)> {
    Seq::new(
        lines.len(),
        |i: int| (lines[i].0, crate::breakdown::adjusted_price(lines[i].1 as int, margin, buy) as i32, lines[i].2),
    )
}

/// The merged rows of a breakdown: quoted prices, with the margin-adjusted
/// scenario beside them.
pub open spec fn breakdown_rows(table: DetailedTable) -> Seq<Seq<Seq<char>>> {
    let margin = table.percent_margin as int;
    let headers = Seq::new(NUM_SECTION_HEADERS as nat, |i: int| section_header(i, table.percent_margin as nat));
    let pay_once = match table.inputs.pay_once {
        Some(p) => Some(p@),
        None => None,
    };
    let adjusted_pay_once = match table.inputs.pay_once {
        Some(p) => Some(adjusted_details(p@, margin, true)),
        None => None,
    };
    merged_rows(
        section_rows(headers, table.overview@, pay_once, table.inputs.inputs@, table.outputs@),
        section_rows(
            headers,
            table.adjusted@,
            adjusted_pay_once,
            adjusted_details(table.inputs.inputs@, margin, true),
            adjusted_details(table.outputs@, margin, false),
        ),
    )
}

pub open spec fn row_views(rows: Seq<Vec<String>>) -> Seq<Seq<Seq<char>>> {
    rows.map_values(|r: Vec<String>| cell_views(r@))
}

fn make_row(c0: String, c1: String, c2: String, c3: String, c4: String, c5: String, c6: String) -> (r: Vec<String>)
    ensures
        cell_views(r@) == seq![c0@, c1@, c2@, c3@, c4@, c5@, c6@],
{
    let mut r: Vec<String> = Vec::new();
    r.push(c0);
    r.push(c1);
    r.push(c2);
    r.push(c3);
    r.push(c4);
    r.push(c5);
    r.push(c6);
    assert(cell_views(r@) =~= seq![c0@, c1@, c2@, c3@, c4@, c5@, c6@]);
    r
}

fn empty_text() -> (r: String)
    ensures
        r@ == ""@,
{
    proof {
        reveal_strlit("");
    }
    String::new()
}

fn heading(first: String) -> (r: Vec<String>)
    ensures
        cell_views(r@) == heading_row(first@),
{
    proof {
        reveal_strlit("");
    }
    make_row(first, empty_text(), empty_text(), empty_text(), empty_text(), empty_text(), empty_text())
}

fn push_row(rows: &mut Vec<Vec<String>>, row: Vec<String>)
    ensures
        row_views(final(rows)@) == row_views(old(rows)@).push(cell_views(row@)),
{
    rows.push(row);
    assert(row_views(final(rows)@) =~= row_views(old(rows)@).push(cell_views(row@)));
}

/// Headings of the sections of a breakdown.
pub fn generate_section_headers(percent_margin: u32) -> (r: Vec<String>)
    ensures
        cell_views(r@) == Seq::new(NUM_SECTION_HEADERS as nat, |i: int| section_header(i, percent_margin as nat)),
        r@.len() == NUM_SECTION_HEADERS,
{
    let mut r: Vec<String> = Vec::new();
    let margin = hundredths_string(percent_margin as u64);
    let mut i: usize = 0;
    while i < NUM_SECTION_HEADERS
        invariant
            i <= NUM_SECTION_HEADERS,
            margin@ == hundredths_text(percent_margin as nat),
            r@.len() == i,
            cell_views(r@) == Seq::new(i as nat, |k: int| section_header(k, percent_margin as nat)),
        decreases NUM_SECTION_HEADERS - i,
    {
        let mut h = String::from_str(section_label_text(i));
        h.append(" (");
        if i >= 4 {
            h.append("w/Tax ");
        } else {
            h.append("");
        }
        h.append("Base; ");
        h.append(margin.as_str());
        h.append("% margin)");
        assert(h@ =~= section_header(i as int, percent_margin as nat));
        let ghost before = r@;
        r.push(h);
        assert forall|k: int| 0 <= k <= i implies #[trigger] cell_views(r@)[k] == section_header(k, percent_margin as nat) by {
            if k < i {
                assert(cell_views(before)[k] == section_header(k, percent_margin as nat));
            }
        }
        assert(cell_views(r@) =~= Seq::new((i + 1) as nat, |k: int| section_header(k, percent_margin as nat)));
        i = i + 1;
    }
    r
}

} // verus!

verus! {

fn item_row_exec(line: &RecipeDetail, number: i32) -> (r: Vec<String>)
    requires
        number >= 0,
    ensures
        cell_views(r@) == item_row(*line, number as int),
{
    let quantity: i128 = line.2 as i128;
    let count: i128 = number as i128;
    let price: i128 = line.1 as i128;
    assert(0 <= count * quantity <= 0x8000_0000 * 0x1_0000_0000) by (nonlinear_arith)
        requires 0 <= count <= 0x7fff_ffff, 0 <= quantity <= 0xffff_ffff;
    assert(-0x8000_0000 * 0x8000_0000 * 0x1_0000_0000 <= count * quantity * price <= 0x8000_0000 * 0x8000_0000 * 0x1_0000_0000)
        by (nonlinear_arith)
        requires 0 <= count * quantity <= 0x8000_0000 * 0x1_0000_0000, -0x8000_0000 <= price <= 0x7fff_ffff;
    proof {
        reveal_strlit("");
    }
    make_row(
        line.0.clone(),
        comma_sep(quantity / 1000),
        comma_sep(count * quantity / 1000),
        comma_sep(price),
        comma_sep(crate::types::floor_div(count * quantity * price, 1000)),
        empty_text(),
        empty_text(),
    )
}

fn push_item_rows(rows: &mut Vec<Vec<String>>, lines: &Vec<RecipeDetail>, number: i32)
    requires
        number >= 0,
    ensures
        row_views(final(rows)@) == row_views(old(rows)@) + item_rows(lines@, number as int),
{
    let mut i: usize = 0;
    while i < lines.len()
        invariant
            number >= 0,
            i <= lines@.len(),
            row_views(rows@) == row_views(old(rows)@) + item_rows(lines@.take(i as int), number as int),
        decreases lines@.len() - i,
    {
        let row = item_row_exec(&lines[i], number);
        push_row(rows, row);
        assert(item_rows(lines@.take(i + 1), number as int) =~= item_rows(lines@.take(i as int), number as int).push(
            item_row(lines@[i as int], number as int),
        ));
        i = i + 1;
    }
    assert(lines@.take(i as int) =~= lines@);
}

fn total_row_exec(first: String, lines: &Vec<RecipeDetail>, number: i32) -> (r: Vec<String>)
    requires
        lines@.len() <= u32::MAX,
    ensures
        cell_views(r@) == total_row(first@, crate::types::single_price_sum(lines@) * number),
{
    let single: i128 = DetailedTable::single_recipe_price(lines.as_slice());
    let count: i128 = number as i128;
    assert(-0x8000_0000_0000_0000 * 0x1_0000_0000 <= single <= 0x8000_0000_0000_0000 * 0x1_0000_0000) by (nonlinear_arith)
        requires
            -(lines@.len() as int) * 0x8000_0000_0000_0000 <= single <= (lines@.len() as int) * 0x8000_0000_0000_0000,
            lines@.len() <= 0xffff_ffff;
    assert(-0x8000_0000_0000_0000 * 0x1_0000_0000 * 0x8000_0000 <= single * count <= 0x8000_0000_0000_0000 * 0x1_0000_0000 * 0x8000_0000)
        by (nonlinear_arith)
        requires
            -0x8000_0000_0000_0000 * 0x1_0000_0000 <= single <= 0x8000_0000_0000_0000 * 0x1_0000_0000,
            -0x8000_0000 <= count <= 0x7fff_ffff;
    proof {
        reveal_strlit("");
    }
    make_row(first, empty_text(), empty_text(), empty_text(), comma_sep(single * count), empty_text(), empty_text())
}

/// The rows of one scenario of a breakdown.
pub fn generate_section_rows(
    headers: &Vec<String>,
    overview: &OverviewRow,
    inputs: &TableInputs,
    outputs: &Vec<RecipeDetail>,
) -> (r: Vec<Vec<String>>)
    requires
        headers@.len() == NUM_SECTION_HEADERS,
        overview.wf(),
        inputs.inputs@.len() <= u32::MAX,
        outputs@.len() <= u32::MAX,
    ensures
        row_views(r@) == section_rows(
            cell_views(headers@),
            overview@,
            match inputs.pay_once {
                Some(p) => Some(p@),
                None => None,
            },
            inputs.inputs@,
            outputs@,
        ),
{
    let ghost hs = cell_views(headers@);
    let number = overview.number;
    let mut rows: Vec<Vec<String>> = Vec::new();
    assert(row_views(rows@) =~= Seq::empty());
    match &inputs.pay_once {
        Some(pay_once) => {
            push_row(&mut rows, heading(headers[0].clone()));
            push_item_rows(&mut rows, pay_once, 1);
        },
        None => {},
    }
    let ghost after_required = row_views(rows@);
    if inputs.inputs.len() > 0 {
        push_row(&mut rows, heading(headers[1].clone()));
        push_item_rows(&mut rows, &inputs.inputs, number);
        push_row(&mut rows, total_row_exec(headers[2].clone(), &inputs.inputs, number));
    }
    let ghost after_consumed = row_views(rows@);
    push_row(&mut rows, heading(empty_text()));
    push_row(&mut rows, heading(headers[3].clone()));
    push_item_rows(&mut rows, outputs, number);
    push_row(&mut rows, total_row_exec(headers[4].clone(), outputs, number));
    push_row(&mut rows, heading(empty_text()));
    proof {
        reveal_strlit("");
    }
    let profit = make_row(
        headers[5].clone(),
        empty_text(),
        empty_text(),
        comma_sep(overview.profit as i128),
        comma_sep(overview.total_gp() as i128),
        overview.format_time_string(),
        comma_sep(overview.gph() as i128),
    );
    push_row(&mut rows, profit);
    assert(row_views(rows@) =~= section_rows(
        hs,
        overview@,
        match inputs.pay_once {
            Some(p) => Some(p@),
            None => None,
        },
        inputs.inputs@,
        outputs@,
    ));
    rows
}

} // verus!

verus! {

/// One merged row: see `merged_cell`.
pub fn merge_rows(base: &Vec<String>, pm: &Vec<String>) -> (r: Vec<String>)
    ensures
        cell_views(r@) == merged_row(cell_views(base@), cell_views(pm@)),
{
    let n: usize = if base.len() <= pm.len() { base.len() } else { pm.len() };
    let mut r: Vec<String> = Vec::new();
    let mut c: usize = 0;
    while c < n
        invariant
            n <= base@.len(),
            n <= pm@.len(),
            n == (if base@.len() <= pm@.len() { base@.len() } else { pm@.len() }),
            c <= n,
            r@.len() == c,
            forall|k: int| 0 <= k < c ==> #[trigger] cell_views(r@)[k] == merged_cell(k, base@[k]@, pm@[k]@),
        decreases n - c,
    {
        let b = &base[c];
        let p = &pm[c];
        let cell = if c < 2 {
            b.clone()
        } else {
            let b_len = b.as_str().unicode_len();
            let p_len = p.as_str().unicode_len();
            if b_len > 0 && p_len > 0 {
                let mut both = b.clone();
                both.append(" (");
                both.append(p.as_str());
                both.append(")");
                both
            } else if b_len > 0 {
                b.clone()
            } else {
                p.clone()
            }
        };
        assert(cell@ == merged_cell(c as int, b@, p@));
        let ghost before = r@;
        r.push(cell);
        assert forall|k: int| 0 <= k <= c implies #[trigger] cell_views(r@)[k] == merged_cell(k, base@[k]@, pm@[k]@) by {
            if k < c {
                assert(cell_views(before)[k] == merged_cell(k, base@[k]@, pm@[k]@));
            }
        }
        c = c + 1;
    }
    assert(cell_views(r@) =~= merged_row(cell_views(base@), cell_views(pm@)));
    r
}

/// The merged rows of a breakdown, both scenarios side by side.
pub fn create_internal_table_body_rows(table: &DetailedTable) -> (r: Vec<Vec<String>>)
    requires
        table.overview.wf(),
        table.adjusted.wf(),
        table.inputs.inputs@.len() <= u32::MAX,
        table.outputs@.len() <= u32::MAX,
    ensures
        row_views(r@) == breakdown_rows(*table),
{
    let margin = table.percent_margin;
    let headers = generate_section_headers(margin);
    let base_rows = generate_section_rows(&headers, &table.overview, &table.inputs, &table.outputs);
    let adjusted_pay_once: Option<Vec<RecipeDetail>> = match &table.inputs.pay_once {
        Some(p) => {
            let v = crate::breakdown::adjust_prices(p.as_slice(), margin, true);
            assert(v@ =~= adjusted_details(p@, margin as int, true));
            Some(v)
        },
        None => None,
    };
    let adjusted_inputs = crate::breakdown::adjust_prices(table.inputs.inputs.as_slice(), margin, true);
    assert(adjusted_inputs@ =~= adjusted_details(table.inputs.inputs@, margin as int, true));
    let adjusted_outputs = crate::breakdown::adjust_prices(table.outputs.as_slice(), margin, false);
    assert(adjusted_outputs@ =~= adjusted_details(table.outputs@, margin as int, false));
    let adjusted_lines = TableInputs { pay_once: adjusted_pay_once, inputs: adjusted_inputs };
    let pm_rows = generate_section_rows(&headers, &table.adjusted, &adjusted_lines, &adjusted_outputs);
    let ghost base_views = row_views(base_rows@);
    let ghost pm_views = row_views(pm_rows@);
    let n: usize = if base_rows.len() <= pm_rows.len() { base_rows.len() } else { pm_rows.len() };
    let mut merged: Vec<Vec<String>> = Vec::new();
    let mut i: usize = 0;
    while i < n
        invariant
            n == (if base_rows@.len() <= pm_rows@.len() { base_rows@.len() } else { pm_rows@.len() }),
            i <= n,
            merged@.len() == i,
            forall|k: int| 0 <= k < i ==> #[trigger] row_views(merged@)[k] == merged_row(
                cell_views(base_rows@[k]@),
                cell_views(pm_rows@[k]@),
            ),
        decreases n - i,
    {
        let row = merge_rows(&base_rows[i], &pm_rows[i]);
        let ghost before = merged@;
        merged.push(row);
        assert forall|k: int| 0 <= k <= i implies #[trigger] row_views(merged@)[k] == merged_row(
            cell_views(base_rows@[k]@),
            cell_views(pm_rows@[k]@),
        ) by {
            if k < i {
                assert(row_views(before)[k] == merged_row(cell_views(base_rows@[k]@), cell_views(pm_rows@[k]@)));
            }
        }
        i = i + 1;
    }
    assert(row_views(merged@) =~= merged_rows(base_views, pm_views));
    merged
}

} // verus!

verus! {

/// Widths after widening each to fit the cell of its column.
pub open spec fn widened(widths: Seq<usize>, cells: Seq<Seq<char>>) -> Seq<usize> {
    Seq::new(
        widths.len(),
        |i: int|
            if i < cells.len() && widths[i] < cells[i].len() {
                cells[i].len() as usize
            } else {
                widths[i]
            },
    )
}

/// Widens each width to fit the cell of its column.
pub fn widen(widths: &mut Vec<usize>, cells: &Vec<String>)
    ensures
        final(widths)@ == widened(old(widths)@, cell_views(cells@)),
        forall|i: int| 0 <= i < old(widths)@.len() ==> #[trigger] final(widths)@[i] >= old(widths)@[i]
            && (i < cells@.len() ==> final(widths)@[i] >= cells@[i]@.len()),
{
    let ghost start = widths@;
    let mut i: usize = 0;
    while i < widths.len()
        invariant
            widths@.len() == start.len(),
            i <= start.len(),
            forall|k: int| 0 <= k < i ==> #[trigger] widths@[k] == widened(start, cell_views(cells@))[k],
            forall|k: int| i <= k < start.len() ==> #[trigger] widths@[k] == start[k],
            forall|k: int| 0 <= k < i ==> #[trigger] widths@[k] >= start[k] && (k < cells@.len() ==> widths@[k] >= cells@[k]@.len()),
        decreases start.len() - i,
    {
        if i < cells.len() {
            let n = cells[i].as_str().unicode_len();
            if widths[i] < n {
                widths.set(i, n);
            }
        }
        i = i + 1;
    }
    assert(widths@ =~= widened(start, cell_views(cells@)));
}

/// Widths widened to fit the cells of each row in turn.
pub open spec fn widths_for_rows(widths: Seq<usize>, rows: Seq<OverviewRow>) -> Seq<usize>
    decreases rows.len(),
{
    if rows.len() == 0 {
        widths
    } else {
        widened(widths_for_rows(widths, rows.drop_last()), overview_cells(rows.last()@))
    }
}

/// The line under a table's header: dashes of each column's width, at least
/// three.
pub open spec fn rule_line(widths: Seq<usize>) -> Seq<char> {
    table_line(
        Seq::new(widths.len(), |i: int| Seq::new(if widths[i] < 3 { 3 } else { widths[i] as nat }, |k: int| '-')),
        widths,
    )
}

fn dashes(n: usize) -> (r: String)
    ensures
        r@ == Seq::new(n as nat, |k: int| '-'),
{
    let mut s = String::new();
    let mut i: usize = 0;
    while i < n
        invariant
            i <= n,
            s@ == Seq::new(i as nat, |k: int| '-'),
        decreases n - i,
    {
        s.append("-");
        proof {
            reveal_strlit("-");
        }
        assert(s@ =~= Seq::new((i + 1) as nat, |k: int| '-'));
        i = i + 1;
    }
    s
}

/// The line under a table's header.
pub fn format_rule(widths: &Vec<usize>) -> (r: String)
    ensures
        r@ == rule_line(widths@),
{
    let mut cells: Vec<String> = Vec::new();
    let mut i: usize = 0;
    while i < widths.len()
        invariant
            i <= widths@.len(),
            cells@.len() == i,
            forall|k: int| 0 <= k < i ==> #[trigger] cell_views(cells@)[k] == Seq::new(
                if widths@[k] < 3 { 3 } else { widths@[k] as nat },
                |j: int| '-',
            ),
        decreases widths@.len() - i,
    {
        let n: usize = if widths[i] < 3 { 3 } else { widths[i] };
        let ghost before = cells@;
        cells.push(dashes(n));
        assert forall|k: int| 0 <= k <= i implies #[trigger] cell_views(cells@)[k] == Seq::new(
            if widths@[k] < 3 { 3 } else { widths@[k] as nat },
            |j: int| '-',
        ) by {
            if k < i {
                assert(cell_views(before)[k] == Seq::new(if widths@[k] < 3 { 3 } else { widths@[k] as nat }, |j: int| '-'));
            }
        }
        i = i + 1;
    }
    assert(cell_views(cells@) =~= Seq::new(
        widths@.len(),
        |i: int| Seq::new(if widths@[i] < 3 { 3 } else { widths@[i] as nat }, |k: int| '-'),
    ));
    format_line(&cells, widths)
}

impl OptimalOverview {
    /// Widens the columns to fit the headers and every row.
    pub fn update_widths(&mut self)
        requires
            old(self).wf(),
        ensures
            final(self).wf(),
            final(self).overview_rows == old(self).overview_rows,
            final(self).col_widths@ == widths_for_rows(
                widened(old(self).col_widths@, Seq::new(5, |i: int| overview_header(i))),
                old(self).overview_rows@,
            ),
            forall|i: int| 0 <= i < OVERVIEW_NUM_HEADERS ==> #[trigger] final(self).col_widths@[i] >= old(self).col_widths@[i]
                && final(self).col_widths@[i] >= overview_header(i).len(),
    {
        let mut headers: Vec<String> = Vec::new();
        let mut i: usize = 0;
        while i < OVERVIEW_NUM_HEADERS
            invariant
                i <= OVERVIEW_NUM_HEADERS,
                headers@.len() == i,
                forall|k: int| 0 <= k < i ==> #[trigger] headers@[k]@ == overview_header(k),
            decreases OVERVIEW_NUM_HEADERS - i,
        {
            headers.push(String::from_str(overview_header_text(i)));
            i = i + 1;
        }
        let ghost start = self.col_widths@;
        assert forall|k: int| 0 <= k < OVERVIEW_NUM_HEADERS implies #[trigger] cell_views(headers@)[k] == overview_header(k) by {
            assert(headers@[k]@ == overview_header(k));
        }
        assert(cell_views(headers@) =~= Seq::new(5, |i: int| overview_header(i)));
        widen(&mut self.col_widths, &headers);
        let ghost from_headers = self.col_widths@;
        assert forall|k: int| 0 <= k < OVERVIEW_NUM_HEADERS implies #[trigger] self.col_widths@[k] >= start[k]
            && self.col_widths@[k] >= overview_header(k).len() by {
            assert(headers@[k]@ == overview_header(k));
        }
        let mut r: usize = 0;
        while r < self.overview_rows.len()
            invariant
                self.wf(),
                self.overview_rows == old(self).overview_rows,
                r <= self.overview_rows@.len(),
                from_headers == widened(start, Seq::new(5, |i: int| overview_header(i))),
                self.col_widths@ == widths_for_rows(from_headers, self.overview_rows@.take(r as int)),
                forall|i: int| 0 <= i < OVERVIEW_NUM_HEADERS ==> #[trigger] self.col_widths@[i] >= start[i]
                    && self.col_widths@[i] >= overview_header(i).len(),
            decreases self.overview_rows@.len() - r,
        {
            assert(self.overview_rows@.take(r + 1).drop_last() =~= self.overview_rows@.take(r as int));
            assert(self.overview_rows@.take(r + 1).last() == self.overview_rows@[r as int]);
            let cells = self.overview_rows[r].to_string_cells();
            let ghost before = self.col_widths@;
            widen(&mut self.col_widths, &cells);
            assert forall|k: int| 0 <= k < OVERVIEW_NUM_HEADERS implies #[trigger] self.col_widths@[k] >= start[k]
                && self.col_widths@[k] >= overview_header(k).len() by {
                assert(before[k] >= start[k] && before[k] >= overview_header(k).len());
                assert(self.col_widths@[k] >= before[k]);
            }
            r = r + 1;
        }
        assert(self.overview_rows@.take(r as int) =~= self.overview_rows@);
    }

    /// The table as lines: header, rule, then a line per row.
    pub fn table_lines(&mut self) -> (r: Vec<String>)
        requires
            old(self).wf(),
        ensures
            final(self).wf(),
            r@.len() == old(self).overview_rows@.len() + 2,
            r@[0]@ == table_line(Seq::new(5, |i: int| overview_header(i)), final(self).col_widths@),
            r@[1]@ == rule_line(final(self).col_widths@),
            forall|i: int| 0 <= i < old(self).overview_rows@.len() ==> #[trigger] r@[i + 2]@ == table_line(
                overview_cells(old(self).overview_rows@[i]@),
                final(self).col_widths@,
            ),
    {
        self.update_widths();
        let mut lines: Vec<String> = Vec::new();
        lines.push(self.fmt_header());
        lines.push(format_rule(&self.col_widths));
        let mut i: usize = 0;
        while i < self.overview_rows.len()
            invariant
                self.wf(),
                self.overview_rows == old(self).overview_rows,
                i <= self.overview_rows@.len(),
                lines@.len() == i + 2,
                lines@[0]@ == table_line(Seq::new(5, |i: int| overview_header(i)), self.col_widths@),
                lines@[1]@ == rule_line(self.col_widths@),
                forall|k: int| 0 <= k < i ==> #[trigger] lines@[k + 2]@ == table_line(
                    overview_cells(self.overview_rows@[k]@),
                    self.col_widths@,
                ),
            decreases self.overview_rows@.len() - i,
        {
            let line = self.fmt_item(&self.overview_rows[i]);
            lines.push(line);
            i = i + 1;
        }
        lines
    }
}

/// Breakdown tables of several recipes, with shared column widths.
pub struct DetailedRecipeLookup {
    pub current_coins: i32,
    pub recipe_tables: Vec<DetailedTable>,
    pub col_widths: Vec<usize>,
}

impl DetailedRecipeLookup {
    pub open spec fn wf(&self) -> bool {
        &&& self.col_widths@.len() == DETAILED_NUM_HEADERS
        &&& forall|i: int| 0 <= i < self.recipe_tables@.len() ==> {
            let t = #[trigger] self.recipe_tables@[i];
            t.overview.wf() && t.adjusted.wf() && t.inputs.inputs@.len() <= u32::MAX && t.outputs@.len() <= u32::MAX
        }
    }

    pub fn new(current_gp: i32, tables: Vec<DetailedTable>, widths: Vec<usize>) -> (r: Self)
        ensures
            r == (DetailedRecipeLookup { current_coins: current_gp, recipe_tables: tables, col_widths: widths }),
    {
        DetailedRecipeLookup { current_coins: current_gp, recipe_tables: tables, col_widths: widths }
    }

    /// The merged rows of the table at `index`, as formatted lines after the
    /// columns are widened to fit them.
    pub fn table_body_lines(&mut self, index: usize) -> (r: Vec<String>)
        requires
            old(self).wf(),
            index < old(self).recipe_tables@.len(),
        ensures
            final(self).wf(),
            final(self).recipe_tables == old(self).recipe_tables,
            r@.len() == breakdown_rows(old(self).recipe_tables@[index as int]).len(),
            forall|i: int| 0 <= i < r@.len() ==> #[trigger] r@[i]@ == table_line(
                breakdown_rows(old(self).recipe_tables@[index as int])[i],
                final(self).col_widths@,
            ),
    {
        let rows = create_internal_table_body_rows(&self.recipe_tables[index]);
        let mut r: usize = 0;
        while r < rows.len()
            invariant
                self.wf(),
                self.recipe_tables == old(self).recipe_tables,
                r <= rows@.len(),
            decreases rows@.len() - r,
        {
            widen(&mut self.col_widths, &rows[r]);
            r = r + 1;
        }
        let mut lines: Vec<String> = Vec::new();
        let mut i: usize = 0;
        while i < rows.len()
            invariant
                self.wf(),
                self.recipe_tables == old(self).recipe_tables,
                row_views(rows@) == breakdown_rows(old(self).recipe_tables@[index as int]),
                i <= rows@.len(),
                lines@.len() == i,
                forall|k: int| 0 <= k < i ==> #[trigger] lines@[k]@ == table_line(row_views(rows@)[k], self.col_widths@),
            decreases rows@.len() - i,
        {
            assert(row_views(rows@)[i as int] == cell_views(rows@[i as int]@));
            let line = format_line(&rows[i], &self.col_widths);
            lines.push(line);
            i = i + 1;
        }
        lines
    }
}

} // verus!

verus! {

/// Title of each column of a breakdown.
pub open spec fn detailed_header(i: int) -> Seq<char> {
    if i == 0 {
        "Item"@
    } else if i == 1 {
        "(Single Recipe Quantity)"@
    } else if i == 2 {
        "Quantity to offer"@
    } else if i == 3 {
        "At Offer Price (GP)"@
    } else if i == 4 {
        "Total Price (GP)"@
    } else if i == 5 {
        "Total Time (h)"@
    } else {
        "Profit/Recipe Time (GP/h)"@
    }
}

fn detailed_header_text(i: usize) -> (r: &'static str)
    ensures
        r@ == detailed_header(i as int),
{
    if i == 0 {
        "Item"
    } else if i == 1 {
        "(Single Recipe Quantity)"
    } else if i == 2 {
        "Quantity to offer"
    } else if i == 3 {
        "At Offer Price (GP)"
    } else if i == 4 {
        "Total Price (GP)"
    } else if i == 5 {
        "Total Time (h)"
    } else {
        "Profit/Recipe Time (GP/h)"
    }
}

fn detailed_header_cells() -> (r: Vec<String>)
    ensures
        r@.len() == DETAILED_NUM_HEADERS,
        cell_views(r@) == Seq::new(DETAILED_NUM_HEADERS as nat, |i: int| detailed_header(i)),
{
    let mut cells: Vec<String> = Vec::new();
    let mut i: usize = 0;
    while i < DETAILED_NUM_HEADERS
        invariant
            i <= DETAILED_NUM_HEADERS,
            cells@.len() == i,
            cell_views(cells@) == Seq::new(i as nat, |k: int| detailed_header(k)),
        decreases DETAILED_NUM_HEADERS - i,
    {
        let cell = String::from_str(detailed_header_text(i));
        let ghost before = cells@;
        cells.push(cell);
        assert forall|k: int| 0 <= k <= i implies #[trigger] cell_views(cells@)[k] == detailed_header(k) by {
            if k < i {
                assert(cell_views(before)[k] == detailed_header(k));
            }
        }
        assert(cell_views(cells@) =~= Seq::new((i + 1) as nat, |k: int| detailed_header(k)));
        i = i + 1;
    }
    cells
}

/// Sum of the widths.
pub open spec fn width_sum(widths: Seq<usize>) -> int
    decreases widths.len(),
{
    if widths.len() == 0 {
        0
    } else {
        width_sum(widths.drop_last()) + widths.last()
    }
}

/// Widths of a prefix, with their bars, take no more room than all widths.
proof fn lemma_width_sum_prefix(widths: Seq<usize>, i: int)
    requires
        0 <= i <= widths.len(),
    ensures
        width_sum(widths.take(i)) + 3 * i <= width_sum(widths) + 3 * widths.len(),
    decreases widths.len() - i,
{
    if i == widths.len() {
        assert(widths.take(i) =~= widths);
    } else {
        lemma_width_sum_prefix(widths, i + 1);
        assert(widths.take(i + 1).drop_last() =~= widths.take(i));
    }
}

impl DetailedRecipeLookup {
    /// The header line.
    pub fn fmt_header(&self) -> (r: String)
        ensures
            r@ == table_line(Seq::new(DETAILED_NUM_HEADERS as nat, |i: int| detailed_header(i)), self.col_widths@),
    {
        format_line(&detailed_header_cells(), &self.col_widths)
    }

    /// A line of `#` as long as a table line; `None` when that length does
    /// not fit in memory.
    pub fn table_separator(&self) -> (r: Option<String>)
        ensures
            match r {
                Some(s) => s@ == Seq::new(
                    (width_sum(self.col_widths@) + 3 * self.col_widths@.len() + 1) as nat,
                    |k: int| '#',
                ),
                None => width_sum(self.col_widths@) + 3 * self.col_widths@.len() + 1 > usize::MAX,
            },
    {
        let mut total: u128 = 1;
        let mut i: usize = 0;
        while i < self.col_widths.len()
            invariant
                i <= self.col_widths@.len(),
                total == width_sum(self.col_widths@.take(i as int)) + 3 * i + 1,
                total <= usize::MAX,
            decreases self.col_widths@.len() - i,
        {
            assert(self.col_widths@.take(i + 1).drop_last() =~= self.col_widths@.take(i as int));
            assert(self.col_widths@.take(i + 1).last() == self.col_widths@[i as int]);
            total = total + self.col_widths[i] as u128 + 3;
            i = i + 1;
            if total > usize::MAX as u128 {
                proof {
                    lemma_width_sum_prefix(self.col_widths@, i as int);
                }
                return None;
            }
        }
        assert(self.col_widths@.take(i as int) =~= self.col_widths@);
        let n = total as usize;
        let mut s = String::new();
        let mut k: usize = 0;
        while k < n
            invariant
                k <= n,
                s@ == Seq::new(k as nat, |j: int| '#'),
            decreases n - k,
        {
            s.append("#");
            proof {
                reveal_strlit("#");
            }
            assert(s@ =~= Seq::new((k + 1) as nat, |j: int| '#'));
            k = k + 1;
        }
        Some(s)
    }

    /// The table at `index` as lines: its title, a blank line, the header,
    /// the rule, the merged rows of both scenarios and a blank line; the
    /// columns are first widened to fit the headers, the section headings and
    /// every row.
    pub fn table_lines(&mut self, index: usize) -> (r: Vec<String>)
        requires
            old(self).wf(),
            index < old(self).recipe_tables@.len(),
        ensures
            final(self).wf(),
            final(self).recipe_tables == old(self).recipe_tables,
            r@.len() == breakdown_rows(old(self).recipe_tables@[index as int]).len() + 5,
            r@[0]@ == old(self).recipe_tables@[index as int].overview.name@,
            r@[2]@ == table_line(Seq::new(DETAILED_NUM_HEADERS as nat, |i: int| detailed_header(i)), final(self).col_widths@),
            r@[3]@ == rule_line(final(self).col_widths@),
            forall|i: int| 0 <= i < breakdown_rows(old(self).recipe_tables@[index as int]).len() ==> #[trigger] r@[i + 4]@
                == table_line(breakdown_rows(old(self).recipe_tables@[index as int])[i], final(self).col_widths@),
    {
        let headers = detailed_header_cells();
        widen(&mut self.col_widths, &headers);
        let sections = generate_section_headers(self.recipe_tables[index].percent_margin);
        let mut s: usize = 0;
        while s < sections.len()
            invariant
                self.wf(),
                self.recipe_tables == old(self).recipe_tables,
            decreases sections@.len() - s,
        {
            let mut first: Vec<String> = Vec::new();
            first.push(sections[s].clone());
            widen(&mut self.col_widths, &first);
            s = s + 1;
        }
        let body = self.table_body_lines(index);
        let mut lines: Vec<String> = Vec::new();
        lines.push(self.recipe_tables[index].overview.name.clone());
        lines.push(String::new());
        lines.push(self.fmt_header());
        lines.push(format_rule(&self.col_widths));
        let mut i: usize = 0;
        while i < body.len()
            invariant
                lines@.len() == i + 4,
                i <= body@.len(),
                lines@[0]@ == self.recipe_tables@[index as int].overview.name@,
                lines@[2]@ == table_line(Seq::new(DETAILED_NUM_HEADERS as nat, |i: int| detailed_header(i)), self.col_widths@),
                lines@[3]@ == rule_line(self.col_widths@),
                forall|k: int| 0 <= k < i ==> #[trigger] lines@[k + 4] == body@[k],
            decreases body@.len() - i,
        {
            lines.push(body[i].clone());
            i = i + 1;
        }
        lines.push(String::new());
        lines
    }
}

} // verus!
