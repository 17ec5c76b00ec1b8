//! Rows and tables produced by the economics engine.
use vstd::prelude::*;

use crate::prices::TimeType;

verus! {

/// Milliseconds in one hour.
pub const MS_PER_HOUR: u64 = 3_600_000;
/// Milliseconds in one game tick.
pub const MS_PER_TICK: u32 = 600;

/// Longest session that quantities are planned for, in hours.
pub const MAX_HOURS: u64 = 6;

/// Rounded-down quotient `a / d` (Euclidean in spec code, which is the floor
/// for a positive divisor).
pub fn floor_div(a: i128, d: i128) -> (r: i128)
    requires
        d > 0,
    ensures
        r == a / d,
{
    if a >= 0 {
        a / d
    } else {
        let up: i128 = (-(a + 1)) / d;
        proof {
            lemma_floor_of_negative(a as int, d as int);
        }
        -up - 1
    }
}

proof fn lemma_floor_of_negative(a: int, d: int)
    requires
        a < 0,
        d > 0,
    ensures
        a / d == -((-(a + 1)) / d) - 1,
{
    let b = -(a + 1);
    vstd::arithmetic::div_mod::lemma_fundamental_div_mod(b, d);
    let q = b / d;
    let r = b % d;
    vstd::arithmetic::div_mod::lemma_mod_bound(b, d);
    // a = -b - 1 = d * (-q - 1) + (d - 1 - r), with 0 <= d - 1 - r < d
    assert(a == d * (-q - 1) + (d - 1 - r)) by (nonlinear_arith)
        requires b == d * q + r, a == -b - 1;
    vstd::arithmetic::div_mod::lemma_div_multiples_vanish_fancy(-q - 1, d - 1 - r, d);
}

/// How long one execution of a recipe takes.
///
/// Either a measured duration, or a rate of executions per hour given by the
/// user. Both carry a positive value in a well-formed row.
#[derive(Debug, Clone, Copy, PartialEq, Eq, Structural)]
pub enum ExecTime {
    /// Milliseconds per execution.
    Millis(u32),
    /// Executions per hour.
    PerHour(i32),
}

impl ExecTime {
    pub open spec fn wf(self) -> bool {
        match self {
            ExecTime::Millis(m) => m > 0,
            ExecTime::PerHour(n) => n > 0,
        }
    }

    /// Executions that fit in one hour, counting a started one.
    pub open spec fn per_hour_spec(self) -> int {
        match self {
            ExecTime::Millis(m) => (MS_PER_HOUR + m - 1) / (m as int),
            ExecTime::PerHour(n) => n as int,
        }
    }

    /// Executions that fit in the longest session.
    pub open spec fn session_cap_spec(self) -> int {
        match self {
            ExecTime::Millis(m) => (MAX_HOURS * MS_PER_HOUR) as int / (m as int),
            ExecTime::PerHour(n) => MAX_HOURS * n,
        }
    }

    /// Time taken by `number` executions, in hundredths of an hour, rounded
    /// half up.
    pub open spec fn hundredths_spec(self, number: int) -> int {
        match self {
            ExecTime::Millis(m) => (number * m + 18_000) / 36_000,
            ExecTime::PerHour(n) => (200 * number + n) / (2 * n),
        }
    }

    /// Rounded-down earnings per hour of `profit` per execution.
    pub open spec fn gp_per_hour_spec(self, profit: int) -> int {
        match self {
            ExecTime::Millis(m) => profit * MS_PER_HOUR / (m as int),
            ExecTime::PerHour(n) => profit * n,
        }
    }

    pub fn per_hour(&self) -> (r: i32)
        requires
            self.wf(),
        ensures
            r == self.per_hour_spec(),
            r >= 1,
    {
        match *self {
            ExecTime::Millis(m) => {
                let m64: u64 = m as u64;
                let r: u64 = (MS_PER_HOUR + m64 - 1) / m64;
                assert(r <= MS_PER_HOUR) by (nonlinear_arith)
                    requires r == (MS_PER_HOUR + m64 - 1) / (m64 as int), m64 >= 1;
                assert(r >= 1) by (nonlinear_arith)
                    requires r == (MS_PER_HOUR + m64 - 1) / (m64 as int), m64 >= 1;
                r as i32
            },
            ExecTime::PerHour(n) => n,
        }
    }

    pub fn session_cap(&self) -> (r: i64)
        requires
            self.wf(),
        ensures
            r == self.session_cap_spec(),
    {
        match *self {
            ExecTime::Millis(m) => {
                let r: u64 = (MAX_HOURS * MS_PER_HOUR) / (m as u64);
                assert(r <= MAX_HOURS * MS_PER_HOUR) by (nonlinear_arith)
                    requires r == (MAX_HOURS * MS_PER_HOUR) as int / (m as int), m >= 1;
                r as i64
            },
            ExecTime::PerHour(n) => {
                let hours: i64 = MAX_HOURS as i64;
                assert(hours * n <= 6 * 0x7fff_ffff) by (nonlinear_arith)
                    requires hours == 6, 0 < n <= 0x7fff_ffff;
                hours * (n as i64)
            },
        }
    }

    pub fn hundredths(&self, number: i32) -> (r: u64)
        requires
            self.wf(),
            number >= 0,
        ensures
            r == self.hundredths_spec(number as int),
    {
        match *self {
            ExecTime::Millis(m) => {
                assert((number as u64) * (m as u64) <= 0x7fff_ffff * 0xffff_ffff) by (nonlinear_arith)
                    requires 0 <= number <= 0x7fff_ffff, m <= 0xffff_ffff;
                ((number as u64) * (m as u64) + 18_000) / 36_000
            },
            ExecTime::PerHour(n) => (200 * (number as u64) + (n as u64)) / (2 * (n as u64)),
        }
    }

    pub fn gp_per_hour(&self, profit: i32) -> (r: i64)
        requires
            self.wf(),
        ensures
            r == self.gp_per_hour_spec(profit as int),
    {
        match *self {
            ExecTime::Millis(m) => {
                let hour: i64 = MS_PER_HOUR as i64;
                assert(-0x8000_0000 * 3_600_000 <= profit * hour <= 0x7fff_ffff * 3_600_000) by (nonlinear_arith)
                    requires hour == 3_600_000, -0x8000_0000 <= profit <= 0x7fff_ffff;
                let a: i128 = (profit as i128) * (hour as i128);
                let q: i128 = floor_div(a, m as i128);
                assert(-0x8000_0000 * 3_600_000 <= q <= 0x7fff_ffff * 3_600_000) by (nonlinear_arith)
                    requires q == (a as int) / (m as int), m >= 1, -0x8000_0000 * 3_600_000 <= a <= 0x7fff_ffff * 3_600_000;
                q as i64
            },
            ExecTime::PerHour(n) => {
                assert(-0x4000_0000_0000_0000 <= (profit as int) * (n as int) <= 0x4000_0000_0000_0000) by (nonlinear_arith)
                    requires -0x8000_0000 <= profit <= 0x7fff_ffff, 0 < n <= 0x7fff_ffff;
                (profit as i64) * (n as i64)
            },
        }
    }

    /// Numerator of the time of one execution, in milliseconds.
    pub open spec fn num(self) -> int {
        match self {
            ExecTime::Millis(m) => m as int,
            ExecTime::PerHour(_) => MS_PER_HOUR as int,
        }
    }

    /// Denominator of the time of one execution, in milliseconds.
    pub open spec fn den(self) -> int {
        match self {
            ExecTime::Millis(_) => 1,
            ExecTime::PerHour(n) => n as int,
        }
    }
}

} // verus!

verus! {

/// Summary of one recipe: what one execution earns, how long it takes and
/// how many executions are planned.
#[derive(Debug)]
pub struct OverviewRow {
    pub name: String,
    /// Cost of the items bought once, if the recipe has any.
    pub pay_once_total: Option<i32>,
    /// Earnings of one execution after tax; negative for a loss.
    pub profit: i32,
    pub time: Option<ExecTime>,
    pub number: i32,
    pub time_type: TimeType,
}

/// What a row holds, with its name as characters.
pub struct RowView {
    pub name: Seq<char>,
    pub pay_once_total: Option<i32>,
    pub profit: i32,
    pub time: Option<ExecTime>,
    pub number: i32,
    pub time_type: TimeType,
}

impl RowView {
    pub open spec fn pay_once_spec(self) -> int {
        match self.pay_once_total {
            Some(p) => p as int,
            None => 0,
        }
    }

    pub open spec fn loss_gain_spec(self) -> int {
        self.profit - self.pay_once_spec()
    }

    pub open spec fn total_gp_spec(self) -> int {
        self.profit * self.number - self.pay_once_spec()
    }

    pub open spec fn total_time_spec(self) -> Option<int> {
        match self.time {
            Some(t) => Some(t.hundredths_spec(self.number as int)),
            None => None,
        }
    }

    /// Earnings per hour; without a duration the planned executions are
    /// taken to fill one hour.
    pub open spec fn gph_spec(self) -> int {
        match self.time {
            Some(t) => t.gp_per_hour_spec(self.profit as int),
            None => self.total_gp_spec(),
        }
    }
}

impl View for OverviewRow {
    type V = RowView;

    open spec fn view(&self) -> RowView {
        RowView {
            name: self.name@,
            pay_once_total: self.pay_once_total,
            profit: self.profit,
            time: self.time,
            number: self.number,
            time_type: self.time_type,
        }
    }
}

impl Clone for OverviewRow {
    fn clone(&self) -> (r: Self)
        ensures
            r == *self,
    {
        OverviewRow {
            name: self.name.clone(),
            pay_once_total: self.pay_once_total,
            profit: self.profit,
            time: self.time,
            number: self.number,
            time_type: self.time_type,
        }
    }
}

impl OverviewRow {
    pub open spec fn wf(&self) -> bool {
        &&& self.number >= 0
        &&& self.time matches Some(t) ==> t.wf()
    }

    pub open spec fn loss_gain_spec(&self) -> int {
        self@.loss_gain_spec()
    }

    pub open spec fn total_gp_spec(&self) -> int {
        self@.total_gp_spec()
    }

    pub open spec fn total_time_spec(&self) -> Option<int> {
        self@.total_time_spec()
    }

    pub open spec fn gph_spec(&self) -> int {
        self@.gph_spec()
    }

    pub fn new(
        name: String,
        pay_once_total: Option<i32>,
        profit: i32,
        time: Option<ExecTime>,
        number: i32,
        time_type: TimeType,
    ) -> (r: Self)
        ensures
            r == (OverviewRow { name, pay_once_total, profit, time, number, time_type }),
    {
        OverviewRow { name, pay_once_total, profit, time, number, time_type }
    }

    /// Total time of all planned executions, in hundredths of an hour.
    pub fn total_time(&self) -> (r: Option<u64>)
        requires
            self.wf(),
        ensures
            r matches Some(h) ==> self.total_time_spec() == Some(h as int),
            r is None <==> self.total_time_spec() is None,
    {
        match self.time {
            Some(t) => Some(t.hundredths(self.number)),
            None => None,
        }
    }

    pub fn ideal_loss_gain(&self) -> (r: i32)
        ensures
            r == self.profit,
    {
        self.profit
    }

    /// Earnings of one execution once the pay-once items are paid for.
    pub fn loss_gain(&self) -> (r: i64)
        ensures
            r == self.loss_gain_spec(),
    {
        let pay: i64 = match self.pay_once_total {
            Some(p) => p as i64,
            None => 0,
        };
        self.profit as i64 - pay
    }

    pub fn ideal_total_gp(&self) -> (r: i64)
        ensures
            r == self.profit * self.number,
    {
        assert(-0x4000_0000_0000_0000 <= (self.profit as int) * (self.number as int) <= 0x4000_0000_0000_0000)
            by (nonlinear_arith)
            requires -0x8000_0000 <= self.profit <= 0x7fff_ffff, -0x8000_0000 <= self.number <= 0x7fff_ffff;
        (self.profit as i64) * (self.number as i64)
    }

    /// Earnings of all planned executions, less the pay-once items.
    pub fn total_gp(&self) -> (r: i64)
        ensures
            r == self.total_gp_spec(),
    {
        let pay: i64 = match self.pay_once_total {
            Some(p) => p as i64,
            None => 0,
        };
        let gross: i64 = self.ideal_total_gp();
        assert(-0x4000_0000_0000_0000 <= (self.profit as int) * (self.number as int) <= 0x4000_0000_0000_0000)
            by (nonlinear_arith)
            requires -0x8000_0000 <= self.profit <= 0x7fff_ffff, -0x8000_0000 <= self.number <= 0x7fff_ffff;
        gross - pay
    }

    pub fn gph(&self) -> (r: i64)
        requires
            self.wf(),
        ensures
            r == self.gph_spec(),
    {
        match self.time {
            Some(t) => t.gp_per_hour(self.profit),
            None => self.total_gp(),
        }
    }
}

} // verus!

verus! {

/// An itemized line: item name, unit price, and quantity per execution in
/// thousandths.
pub type RecipeDetail = (String, i32, u32);

/// Itemized inputs of a recipe.
#[derive(Debug)]
pub struct TableInputs {
    pub pay_once: Option<Vec<RecipeDetail>>,
    pub inputs: Vec<RecipeDetail>,
}

/// Breakdown of one recipe at quoted prices and at offer prices moved by a
/// margin. Output prices are taxed per item when totalled.
#[derive(Debug)]
pub struct DetailedTable {
    /// The recipe at quoted prices.
    pub overview: OverviewRow,
    /// The recipe with input prices raised and output prices lowered by the
    /// margin.
    pub adjusted: OverviewRow,
    pub inputs: TableInputs,
    pub outputs: Vec<RecipeDetail>,
    /// Margin in hundredths of a percent.
    pub percent_margin: u32,
}

/// Sum of the quantities of the lines, in thousandths.
pub open spec fn quantity_sum(lines: Seq<RecipeDetail>) -> int
    decreases lines.len(),
{
    if lines.len() == 0 {
        0
    } else {
        quantity_sum(lines.drop_last()) + lines.last().2
    }
}

/// Sum of price times quantity of the lines, each rounded down to whole coins.
pub open spec fn single_price_sum(lines: Seq<RecipeDetail>) -> int
    decreases lines.len(),
{
    if lines.len() == 0 {
        0
    } else {
        let l = lines.last();
        single_price_sum(lines.drop_last()) + (l.1 * l.2) / 1000
    }
}

impl DetailedTable {
    pub fn new(overview: OverviewRow, adjusted: OverviewRow, inputs: TableInputs, outputs: Vec<RecipeDetail>, percent_margin: u32) -> (r: Self)
        ensures
            r == (DetailedTable { overview, adjusted, inputs, outputs, percent_margin }),
    {
        DetailedTable { overview, adjusted, inputs, outputs, percent_margin }
    }

    /// Total quantity of the lines, in thousandths.
    pub fn single_amount(inputs: &[RecipeDetail]) -> (r: u128)
        ensures
            r == quantity_sum(inputs@),
    {
        let mut total: u128 = 0;
        let mut i: usize = 0;
        while i < inputs.len()
            invariant
                i <= inputs@.len(),
                total == quantity_sum(inputs@.take(i as int)),
                total <= i * 0xffff_ffff,
            decreases inputs@.len() - i,
        {
            assert(inputs@.take(i + 1).drop_last() =~= inputs@.take(i as int));
            assert(inputs@.take(i + 1).last() == inputs@[i as int]);
            total = total + inputs[i].2 as u128;
            i = i + 1;
        }
        assert(inputs@.take(i as int) =~= inputs@);
        total
    }

    /// Price of one execution's worth of the lines, each line rounded down
    /// to whole coins.
    pub fn single_recipe_price(inputs: &[RecipeDetail]) -> (r: i128)
        ensures
            r == single_price_sum(inputs@),
            -(inputs@.len() as int) * 0x8000_0000_0000_0000 <= r <= (inputs@.len() as int) * 0x8000_0000_0000_0000,
    {
        let mut total: i128 = 0;
        let mut i: usize = 0;
        while i < inputs.len()
            invariant
                i <= inputs@.len(),
                total == single_price_sum(inputs@.take(i as int)),
                -(i as int) * 0x8000_0000_0000_0000 <= total <= (i as int) * 0x8000_0000_0000_0000,
            decreases inputs@.len() - i,
        {
            assert(inputs@.take(i + 1).drop_last() =~= inputs@.take(i as int));
            assert(inputs@.take(i + 1).last() == inputs@[i as int]);
            let price: i32 = inputs[i].1;
            let quantity: u32 = inputs[i].2;
            assert(-0x8000_0000_0000_0000 <= (price as int) * (quantity as int) <= 0x8000_0000_0000_0000)
                by (nonlinear_arith)
                requires -0x8000_0000 <= price <= 0x7fff_ffff, 0 <= quantity <= 0xffff_ffff;
            let line: i128 = floor_div((price as i128) * (quantity as i128), 1000);
            assert(-0x8000_0000_0000_0000 <= line <= 0x8000_0000_0000_0000) by (nonlinear_arith)
                requires line == ((price as int) * (quantity as int)) / 1000,
                    -0x8000_0000_0000_0000 <= (price as int) * (quantity as int) <= 0x8000_0000_0000_0000;
            total = total + line;
            i = i + 1;
        }
        assert(inputs@.take(i as int) =~= inputs@);
        total
    }

    pub fn total_amount_of_recipe(&self) -> (r: i32)
        ensures
            r == self.overview.number,
    {
        self.overview.number
    }

    /// Price of the lines over all planned executions; `None` when it leaves
    /// the `i64` range.
    pub fn total_price(&self, inputs: &[RecipeDetail]) -> (r: Option<i64>)
        ensures
            r == (if i64::MIN <= single_price_sum(inputs@) * self.overview.number <= i64::MAX {
                Some((single_price_sum(inputs@) * self.overview.number) as i64)
            } else {
                None
            }),
    {
        let single: i128 = DetailedTable::single_recipe_price(inputs);
        let number: i128 = self.overview.number as i128;
        if number == 0 {
            return Some(0);
        }
        let far: i128 = 0x8000_0000_0000_0000_0000_0000;
        if single < -far || single > far {
            proof {
                if number >= 1 {
                    if single > far {
                        assert(single * number >= single) by (nonlinear_arith)
                            requires number >= 1, single > 0;
                    } else {
                        assert(single * number <= single) by (nonlinear_arith)
                            requires number >= 1, single < 0;
                    }
                } else {
                    if single > far {
                        assert(single * number <= -single) by (nonlinear_arith)
                            requires number <= -1, single > 0;
                    } else {
                        assert(single * number >= -single) by (nonlinear_arith)
                            requires number <= -1, single < 0;
                    }
                }
            }
            return None;
        }
        assert(-far * 0x8000_0000 <= single * number <= far * 0x8000_0000)
            by (nonlinear_arith)
            requires -far <= single <= far, -0x8000_0000 <= number <= 0x7fff_ffff, far > 0;
        let total: i128 = single * number;
        if total < i64::MIN as i128 || total > i64::MAX as i128 {
            None
        } else {
            Some(total as i64)
        }
    }

    pub fn total_time(&self) -> (r: Option<u64>)
        requires
            self.overview.wf(),
        ensures
            r matches Some(h) ==> self.overview.total_time_spec() == Some(h as int),
            r is None <==> self.overview.total_time_spec() is None,
    {
        self.overview.total_time()
    }
}

} // verus!
