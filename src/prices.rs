//! Price, tax and quantity arithmetic of the engine.
use vstd::prelude::*;

use crate::item_search::{find_item, Item, ItemSearch};
use crate::recipes::{find_recipe, Ingredient, Recipe, RecipeBook, RecipeTime, QUANTITY_SCALE};
use crate::types::{floor_div, ExecTime, OverviewRow, MS_PER_HOUR};

verus! {

/// Share of a sale that is taken as tax, in percent.
pub const TAX_PERCENT: i64 = 2;
/// Largest tax taken on a single sale.
pub const FEE_CAP: i32 = 5_000_000;
/// Sales worth less than this are not taxed.
pub const TAX_THRESHOLD: i32 = 50;

/// Whether quantities are planned for one hour of play, or for as many hours
/// as the capital allows.
#[derive(Debug, Default, Clone, Copy, PartialEq, Eq, Structural)]
pub enum TimeType {
    SingleHour,
    #[default]
    MaxHours,
}

/// Tax taken from a sale worth `profit`.
pub open spec fn tax_of(profit: int) -> int {
    if profit < TAX_THRESHOLD {
        0
    } else if profit * TAX_PERCENT / 100 < FEE_CAP {
        profit * TAX_PERCENT / 100
    } else {
        FEE_CAP as int
    }
}

/// What is left of a sale worth `profit` after tax.
pub open spec fn taxed(profit: int) -> int {
    profit - tax_of(profit)
}

/// Number of executions the quantity solver settles on.
///
/// With a cost, the capital bound is `coins / single_cost`. Counting whole
/// hours of `rate` executions and then the executions that the remainder pays
/// for always comes to that bound, so in `MaxHours` mode with a known rate the
/// count is the capital bound itself.
pub open spec fn recipe_number(number_per_hour: Option<i32>, coins: int, single_cost: int, time_type: TimeType) -> int {
    if single_cost == 0 {
        match number_per_hour {
            None => 0,
            Some(rate) => rate as int,
        }
    } else {
        let bound = coins / single_cost;
        let target = match number_per_hour {
            None => bound,
            Some(rate) => if time_type == TimeType::MaxHours || bound < rate { bound } else { rate as int },
        };
        if target < 1 { 1 } else { target }
    }
}

/// Quantity solver: how many times a recipe is performed, given the rate per
/// hour (if known), the capital and the cost of one execution.
pub fn update_recipe_number(number_per_hour: Option<i32>, coins: i32, single_cost: i32, time_type: TimeType) -> (r: i32)
    requires
        coins >= 0,
        single_cost >= 0,
        number_per_hour matches Some(rate) ==> rate > 0,
    ensures
        r == recipe_number(number_per_hour, coins as int, single_cost as int, time_type),
{
    if single_cost == 0 {
        return match number_per_hour {
            None => 0,
            Some(rate) => rate,
        };
    }
    let effective_max_from_coins: i32 = coins / single_cost;
    let rate: i32 = match number_per_hour {
        Some(rate) => rate,
        None => {
            let n: i32 = if effective_max_from_coins < 1 { 1 } else { effective_max_from_coins };
            return n;
        },
    };
    if time_type == TimeType::SingleHour {
        let target: i32 = if effective_max_from_coins < rate { effective_max_from_coins } else { rate };
        return if target < 1 { 1 } else { target };
    }
    // Whole hours of `rate` executions that the capital pays for, then the
    // executions that the remainder pays for.
    let cost: i64 = single_cost as i64;
    let per_hour: i64 = rate as i64;
    let coins_i64: i64 = coins as i64;
    assert(1 <= cost * per_hour <= 0x7fff_ffff * 0x7fff_ffff) by (nonlinear_arith)
        requires 1 <= cost <= 0x7fff_ffff, 1 <= per_hour <= 0x7fff_ffff;
    let cost_per_hour: i64 = cost * per_hour;
    let full_hours: i64 = coins_i64 / cost_per_hour;
    assert(full_hours * cost_per_hour <= coins_i64 && 0 <= full_hours <= coins_i64) by (nonlinear_arith)
        requires full_hours == coins_i64 / cost_per_hour, cost_per_hour >= 1, coins_i64 >= 0;
    assert(full_hours * per_hour <= coins_i64) by (nonlinear_arith)
        requires full_hours * (cost * per_hour) <= coins_i64, cost >= 1, full_hours >= 0, per_hour >= 1;
    let mut total_number: i64 = full_hours * per_hour;
    let remainder: i64 = coins_i64 - full_hours * cost_per_hour;
    if remainder >= cost {
        total_number = total_number + remainder / cost;
    } else {
        assert(remainder / cost == 0) by (nonlinear_arith) requires 0 <= remainder < cost;
    }
    proof {
        lemma_hours_then_remainder(coins_i64 as int, cost as int, per_hour as int);
    }
    let bound: i64 = effective_max_from_coins as i64;
    assert(total_number == bound);
    let capped: i64 = if total_number < bound { total_number } else { bound };
    if capped < 1 { 1 } else { capped as i32 }
}

/// Counting whole hours and then the remainder gives the capital bound.
proof fn lemma_hours_then_remainder(coins: int, cost: int, rate: int)
    requires
        coins >= 0,
        cost >= 1,
        rate >= 1,
    ensures
        (coins / (cost * rate)) * rate + (coins - (coins / (cost * rate)) * (cost * rate)) / cost == coins / cost,
{
    let cph = cost * rate;
    assert(cph >= 1) by (nonlinear_arith) requires cph == cost * rate, cost >= 1, rate >= 1;
    let fh = coins / cph;
    let rem = coins - fh * cph;
    vstd::arithmetic::div_mod::lemma_fundamental_div_mod(coins, cph);
    assert(coins == (fh * rate) * cost + rem) by (nonlinear_arith)
        requires rem == coins - fh * cph, cph == cost * rate;
    vstd::arithmetic::div_mod::lemma_hoist_over_denominator(rem, fh * rate, cost as nat);
    assert(rem == coins - fh * (cost * rate));
}

} // verus!

verus! {

/// Purchase limits reset this many hours apart, while quantities are planned
/// for a single hour of that window.
pub const BUY_LIMIT_RESET_HOURS: i64 = 4;

pub open spec fn fits_i32(x: int) -> bool {
    i32::MIN <= x <= i32::MAX
}

/// Sum of price times quantity, in thousandths of a coin.
pub open spec fn gross(details: Seq<(i32, u32)>) -> int
    decreases details.len(),
{
    if details.len() == 0 {
        0
    } else {
        gross(details.drop_last()) + details.last().0 * details.last().1
    }
}

/// Value of one line: price times quantity, rounded down to whole coins.
pub open spec fn line_value(line: (i32, u32)) -> int {
    (line.0 * line.1) / (QUANTITY_SCALE as int)
}

/// Sum of the lines, each taxed as a sale of its own.
pub open spec fn taxed_sum(details: Seq<(i32, u32)>) -> int
    decreases details.len(),
{
    if details.len() == 0 {
        0
    } else {
        taxed_sum(details.drop_last()) + taxed(line_value(details.last()))
    }
}

/// Total of a list of (price, quantity) lines: taxed line by line, or summed
/// first and rounded down, untaxed.
pub open spec fn details_total(details: Seq<(i32, u32)>, apply_tax: bool) -> int {
    if apply_tax {
        taxed_sum(details)
    } else {
        gross(details) / (QUANTITY_SCALE as int)
    }
}

/// Clamps into the `i32` range, as converting a real number to `i32` does.
pub open spec fn clamp_i32(x: int) -> int {
    if x < i32::MIN {
        i32::MIN as int
    } else if x > i32::MAX {
        i32::MAX as int
    } else {
        x
    }
}

/// Earnings per hour of a whole batch that takes `hundredths` hundredths of an
/// hour; an empty duration gives the largest value of the earnings' sign.
pub open spec fn batch_gp_per_hour(margin: int, hundredths: int) -> int {
    if hundredths == 0 {
        if margin > 0 {
            i32::MAX as int
        } else if margin < 0 {
            i32::MIN as int
        } else {
            0
        }
    } else {
        clamp_i32(margin * 100 / hundredths)
    }
}

fn taxed_wide(value: i128) -> (r: i128)
    requires
        -0x8000_0000_0000_0000 <= value <= 0x8000_0000_0000_0000,
    ensures
        r == taxed(value as int),
        -0x8000_0000_0000_0000 <= r <= 0x8000_0000_0000_0000,
{
    if value < TAX_THRESHOLD as i128 {
        value
    } else {
        let untaxed: i128 = value * (TAX_PERCENT as i128) / 100;
        let tax: i128 = if untaxed < FEE_CAP as i128 { untaxed } else { FEE_CAP as i128 };
        value - tax
    }
}

/// Owns the two catalogues and the player's capital, and prices recipes.
pub struct PriceHandle {
    pub all_items: ItemSearch,
    pub recipe_list: RecipeBook,
    /// Capital available for buying inputs.
    pub coins: i32,
    /// Offer-price margin, in hundredths of a percent.
    pub pmargin: u32,
}

/// A line of a priced list: the item, then its unit price and quantity.
pub type PricedLine = (Item, (i32, u32));

/// Whether each name of `list` names an item of the catalogue.
pub open spec fn resolvable(items: Seq<Item>, list: Seq<Ingredient>) -> bool {
    forall|i: int| 0 <= i < list.len() ==> (#[trigger] find_item(items, list[i].name@)) is Some
}

/// Each ingredient of `list` with the catalogue item it names.
pub open spec fn resolved(items: Seq<Item>, list: Seq<Ingredient>) -> Seq<(Item, u32)> {
    Seq::new(list.len(), |i: int| (find_item(items, list[i].name@).unwrap(), list[i].quantity))
}

/// A price that a line can be valued at: quoted, and not negative.
pub open spec fn usable_price(item: Item, buy: bool) -> bool {
    item.price_spec(buy) matches Some(p) && p >= 0
}

pub open spec fn all_priced(list: Seq<(Item, u32)>, buy: bool) -> bool {
    forall|i: int| 0 <= i < list.len() ==> usable_price(#[trigger] list[i].0, buy)
}

/// Each item of `list` with its quoted price and its quantity.
pub open spec fn priced(list: Seq<(Item, u32)>, buy: bool) -> Seq<PricedLine> {
    Seq::new(list.len(), |i: int| (list[i].0, (list[i].0.price_spec(buy).unwrap(), list[i].1)))
}

/// An ingredient list priced against the catalogue, or `None` when a name
/// does not resolve or an item has no usable price.
pub open spec fn resolve_priced(items: Seq<Item>, list: Seq<Ingredient>, buy: bool) -> Option<Seq<PricedLine>> {
    if resolvable(items, list) && all_priced(resolved(items, list), buy) {
        Some(priced(resolved(items, list), buy))
    } else {
        None
    }
}

/// The (price, quantity) part of each priced line.
pub open spec fn details(lines: Seq<PricedLine>) -> Seq<(i32, u32)> {
    Seq::new(lines.len(), |i: int| lines[i].1)
}

/// Executions that a purchase limit allows; a limit of zero or less allows none.
pub open spec fn limit_executions(limit: i32, quantity: u32) -> int {
    if limit <= 0 {
        0
    } else {
        limit * (QUANTITY_SCALE as int) / (quantity as int)
    }
}

/// Executions allowed by the purchase limit of one input, if it has one.
pub open spec fn line_limit(line: PricedLine) -> Option<int> {
    match line.0.limit {
        Some(limit) => if line.1.1 > 0 {
            Some(limit_executions(limit, line.1.1))
        } else {
            None
        },
        None => None,
    }
}

/// Smallest number of executions that the inputs' purchase limits allow;
/// `None` when no input is limited.
pub open spec fn buy_limit_ceiling(lines: Seq<PricedLine>) -> Option<int>
    decreases lines.len(),
{
    if lines.len() == 0 {
        None
    } else {
        let rest = buy_limit_ceiling(lines.drop_last());
        match line_limit(lines.last()) {
            None => rest,
            Some(n) => match rest {
                None => Some(n),
                Some(m) => Some(if n < m { n } else { m }),
            },
        }
    }
}

/// A rate of executions per hour given by the user, if it is positive.
pub open spec fn user_rate(number_per_hour: Option<i32>) -> Option<i32> {
    match number_per_hour {
        Some(n) => if n > 0 {
            Some(n)
        } else {
            None
        },
        None => None,
    }
}

/// Time of one execution: the measured duration, the user's rate, or, when
/// both are given, whichever takes longer. A zero duration counts as none.
pub open spec fn effective_time(time: RecipeTime, number_per_hour: Option<i32>) -> Option<ExecTime> {
    let measured = match time {
        RecipeTime::Time(m) => if m > 0 {
            Some(m)
        } else {
            None
        },
        RecipeTime::INVALID => None,
    };
    match (measured, user_rate(number_per_hour)) {
        (Some(m), Some(n)) => if m * n >= MS_PER_HOUR {
            Some(ExecTime::Millis(m))
        } else {
            Some(ExecTime::PerHour(n))
        },
        (Some(m), None) => Some(ExecTime::Millis(m)),
        (None, Some(n)) => Some(ExecTime::PerHour(n)),
        (None, None) => None,
    }
}

/// The solver's count, lowered to the purchase-limit ceiling for one hour and
/// to the longest session, and raised to at least one.
pub open spec fn capped_number(solver: int, ceiling: Option<int>, time: ExecTime) -> int {
    let after_limit = match ceiling {
        Some(c) => if c / (BUY_LIMIT_RESET_HOURS as int) < solver {
            c / (BUY_LIMIT_RESET_HOURS as int)
        } else {
            solver
        },
        None => solver,
    };
    let cap = time.session_cap_spec();
    let after_session = if after_limit > cap {
        cap
    } else {
        after_limit
    };
    if after_session < 1 {
        1
    } else {
        after_session
    }
}

/// Overview of a recipe from its priced lists, with the cost of its inputs
/// and the taxed revenue of its outputs; `None` when it has no duration or a
/// total leaves the `i32` range.
pub open spec fn scenario(
    name: String,
    pay_once: Option<Seq<PricedLine>>,
    inputs: Seq<PricedLine>,
    outputs: Seq<PricedLine>,
    time: RecipeTime,
    number_per_hour: Option<i32>,
    coins: int,
    time_type: TimeType,
) -> Option<(OverviewRow, (i32, i32))> {
    let cost = details_total(details(inputs), false);
    let revenue = details_total(details(outputs), true);
    let pay = match pay_once {
        Some(p) => Some(details_total(details(p), false)),
        None => None,
    };
    if !fits_i32(cost) || !fits_i32(revenue) || !fits_i32(revenue - cost) || (pay matches Some(p) && !fits_i32(p))
        || effective_time(time, number_per_hour) is None {
        None
    } else {
        let t = effective_time(time, number_per_hour).unwrap();
        let rate = match time_type {
            TimeType::SingleHour => Some(t.per_hour_spec() as i32),
            TimeType::MaxHours => user_rate(number_per_hour),
        };
        let solver = recipe_number(rate, coins, cost, time_type);
        let number = capped_number(solver, buy_limit_ceiling(inputs), t);
        Some((
            OverviewRow {
                name,
                pay_once_total: match pay {
                    Some(p) => Some(p as i32),
                    None => None,
                },
                profit: (revenue - cost) as i32,
                time: Some(t),
                number: number as i32,
                time_type,
            },
            (cost as i32, revenue as i32),
        ))
    }
}

} // verus!

verus! {

proof fn lemma_gross_nonneg(details: Seq<(i32, u32)>)
    requires
        forall|i: int| 0 <= i < details.len() ==> (#[trigger] details[i]).0 >= 0,
    ensures
        gross(details) >= 0,
    decreases details.len(),
{
    if details.len() > 0 {
        let rest = details.drop_last();
        assert forall|i: int| 0 <= i < rest.len() implies (#[trigger] rest[i]).0 >= 0 by {
            assert(rest[i] == details[i]);
        }
        lemma_gross_nonneg(rest);
        let last = details.last();
        assert(last == details[details.len() - 1]);
        assert(last.0 * last.1 >= 0) by (nonlinear_arith)
            requires last.0 >= 0, last.1 >= 0;
    }
}

pub open spec fn opt_view(lines: Option<Vec<PricedLine>>) -> Option<Seq<PricedLine>> {
    match lines {
        Some(v) => Some(v@),
        None => None,
    }
}

impl PriceHandle {
    /// Capital is not negative, and item and recipe names are unique.
    pub open spec fn wf(&self) -> bool {
        &&& self.coins >= 0
        &&& self.all_items.wf()
        &&& self.recipe_list.wf()
    }

    pub fn new(all_items: ItemSearch, recipe_list: RecipeBook, coins: i32, pmargin: u32) -> (r: Self)
        ensures
            r == (PriceHandle { all_items, recipe_list, coins, pmargin }),
    {
        PriceHandle { all_items, recipe_list, coins, pmargin }
    }

    /// Overview of `recipe` priced against the catalogue: `None` when a name
    /// does not resolve, a price is missing, or `scenario` gives none.
    pub open spec fn overview_of(&self, recipe: Recipe, time_type: TimeType) -> Option<(OverviewRow, (i32, i32))> {
        let items = self.all_items.items@;
        let inputs = resolve_priced(items, recipe.inputs@, true);
        let outputs = resolve_priced(items, recipe.outputs@, false);
        let pay_once = match recipe.pay_once {
            Some(p) => Some(resolve_priced(items, p@, true)),
            None => None,
        };
        if inputs is None || outputs is None || pay_once matches Some(None) {
            None
        } else {
            scenario(
                recipe.name,
                match pay_once {
                    Some(p) => p,
                    None => None,
                },
                inputs.unwrap(),
                outputs.unwrap(),
                recipe.time,
                recipe.number_per_hour,
                self.coins as int,
                time_type,
            )
        }
    }

    /// Tax on a sale: below the threshold nothing, otherwise the tax percent,
    /// rounded down and capped.
    pub fn apply_tax(profit: i32) -> (r: i32)
        ensures
            r == taxed(profit as int),
            r <= profit,
            r == profit <==> profit < TAX_THRESHOLD,
            profit - r <= FEE_CAP,
    {
        if profit < TAX_THRESHOLD {
            return profit;
        }
        let untaxed: i64 = (profit as i64) * TAX_PERCENT / 100;
        let tax: i64 = if untaxed < FEE_CAP as i64 { untaxed } else { FEE_CAP as i64 };
        (profit as i64 - tax) as i32
    }

    /// Total of (price, quantity) lines; `None` when it leaves the `i32` range.
    pub fn total_details_price(price_details: &[(i32, u32)], apply_tax: bool) -> (r: Option<i32>)
        ensures
            r == (if fits_i32(details_total(price_details@, apply_tax)) {
                Some(details_total(price_details@, apply_tax) as i32)
            } else {
                None
            }),
    {
        let mut sum: i128 = 0;
        let mut i: usize = 0;
        while i < price_details.len()
            invariant
                i <= price_details@.len(),
                sum == (if apply_tax {
                    taxed_sum(price_details@.take(i as int))
                } else {
                    gross(price_details@.take(i as int))
                }),
                -(i as int) * 0x8000_0000_0000_0000 <= sum <= (i as int) * 0x8000_0000_0000_0000,
            decreases price_details@.len() - i,
        {
            let (price, quantity) = price_details[i];
            assert(-0x8000_0000_0000_0000 <= (price as int) * (quantity as int) <= 0x8000_0000_0000_0000)
                by (nonlinear_arith)
                requires -0x8000_0000 <= price <= 0x7fff_ffff, 0 <= quantity <= 0xffff_ffff;
            let product: i128 = (price as i128) * (quantity as i128);
            let term: i128 = if apply_tax {
                let value: i128 = floor_div(product, QUANTITY_SCALE as i128);
                assert(-0x8000_0000_0000_0000 <= value <= 0x8000_0000_0000_0000) by (nonlinear_arith)
                    requires value == (product as int) / 1000, -0x8000_0000_0000_0000 <= product <= 0x8000_0000_0000_0000;
                taxed_wide(value)
            } else {
                product
            };
            assert(price_details@.take(i + 1).drop_last() =~= price_details@.take(i as int));
            assert(price_details@.take(i + 1).last() == price_details@[i as int]);
            sum = sum + term;
            i = i + 1;
        }
        assert(price_details@.take(i as int) =~= price_details@);
        let total: i128 = if apply_tax { sum } else { floor_div(sum, QUANTITY_SCALE as i128) };
        if total < i32::MIN as i128 || total > i32::MAX as i128 {
            None
        } else {
            Some(total as i32)
        }
    }

    /// Hours taken by `number` executions, in hundredths, and earnings per
    /// hour: of the whole batch when `total_margin`, else of one execution.
    pub fn recipe_time_h(time: ExecTime, number: i32, margin: i32, total_margin: bool) -> (r: (u64, i32))
        requires
            time.wf(),
            number >= 0,
        ensures
            r.0 == time.hundredths_spec(number as int),
            r.1 == (if total_margin {
                batch_gp_per_hour(margin as int, r.0 as int)
            } else {
                clamp_i32(time.gp_per_hour_spec(margin as int))
            }),
    {
        let hundredths: u64 = time.hundredths(number);
        let per_hour: i128 = if total_margin {
            if hundredths == 0 {
                if margin > 0 {
                    i32::MAX as i128
                } else if margin < 0 {
                    i32::MIN as i128
                } else {
                    0
                }
            } else {
                floor_div((margin as i128) * 100, hundredths as i128)
            }
        } else {
            time.gp_per_hour(margin) as i128
        };
        let clamped: i32 = if per_hour < i32::MIN as i128 {
            i32::MIN
        } else if per_hour > i32::MAX as i128 {
            i32::MAX
        } else {
            per_hour as i32
        };
        (hundredths, clamped)
    }

    /// Each ingredient with the catalogue item it names; `None` when a name
    /// does not resolve.
    pub fn parse_item_list(&self, item_list: &Vec<Ingredient>) -> (r: Option<Vec<(Item, u32)>>)
        ensures
            match r {
                Some(v) => resolvable(self.all_items.items@, item_list@) && v@ == resolved(self.all_items.items@, item_list@),
                None => !resolvable(self.all_items.items@, item_list@),
            },
    {
        let ghost items = self.all_items.items@;
        let mut found: Vec<(Item, u32)> = Vec::new();
        let mut i: usize = 0;
        while i < item_list.len()
            invariant
                items == self.all_items.items@,
                i <= item_list@.len(),
                found@.len() == i,
                forall|j: int| 0 <= j < i ==> (#[trigger] find_item(items, item_list@[j].name@)) is Some,
                forall|j: int| 0 <= j < i ==> #[trigger] found@[j] == resolved(items, item_list@)[j],
            decreases item_list@.len() - i,
        {
            match self.all_items.item_by_name(&item_list[i].name) {
                Some(item) => {
                    found.push((item.clone(), item_list[i].quantity));
                },
                None => {
                    assert(find_item(items, item_list@[i as int].name@) is None);
                    return None;
                },
            }
            i = i + 1;
        }
        assert(found@ =~= resolved(items, item_list@));
        Some(found)
    }

    /// Each item with its quoted price (high when `price_type`) and quantity.
    pub fn item_list_prices(item_list: &Vec<(Item, u32)>, price_type: bool) -> (r: Vec<(Item, (Option<i32>, u32))>)
        ensures
            r@.len() == item_list@.len(),
            forall|i: int| 0 <= i < item_list@.len() ==> #[trigger] r@[i] == (item_list@[i].0, (item_list@[i].0.price_spec(price_type), item_list@[i].1)),
    {
        let mut r: Vec<(Item, (Option<i32>, u32))> = Vec::new();
        let mut i: usize = 0;
        while i < item_list.len()
            invariant
                i <= item_list@.len(),
                r@.len() == i,
                forall|j: int| 0 <= j < i ==> #[trigger] r@[j] == (item_list@[j].0, (item_list@[j].0.price_spec(price_type), item_list@[j].1)),
            decreases item_list@.len() - i,
        {
            let item = &item_list[i].0;
            r.push((item.clone(), (item.price(price_type), item_list[i].1)));
            i = i + 1;
        }
        r
    }

    /// Whether every item has a usable price of the given kind.
    pub fn all_prices_usable(item_list: &Vec<(Item, u32)>, price_type: bool) -> (r: bool)
        ensures
            r == all_priced(item_list@, price_type),
    {
        let mut i: usize = 0;
        while i < item_list.len()
            invariant
                i <= item_list@.len(),
                forall|j: int| 0 <= j < i ==> usable_price(#[trigger] item_list@[j].0, price_type),
            decreases item_list@.len() - i,
        {
            match item_list[i].0.price(price_type) {
                Some(p) => if p < 0 {
                    return false;
                },
                None => {
                    return false;
                },
            }
            i = i + 1;
        }
        true
    }

    /// Each item with its quoted price and quantity, for items known to be
    /// quoted.
    pub fn item_list_prices_unchecked(item_list: &Vec<(Item, u32)>, price_type: bool) -> (r: Vec<PricedLine>)
        requires
            forall|i: int| 0 <= i < item_list@.len() ==> (#[trigger] item_list@[i].0.price_spec(price_type)) is Some,
        ensures
            r@ == priced(item_list@, price_type),
    {
        let mut r: Vec<PricedLine> = Vec::new();
        let mut i: usize = 0;
        while i < item_list.len()
            invariant
                i <= item_list@.len(),
                forall|j: int| 0 <= j < item_list@.len() ==> (#[trigger] item_list@[j].0.price_spec(price_type)) is Some,
                r@.len() == i,
                forall|j: int| 0 <= j < i ==> #[trigger] r@[j] == priced(item_list@, price_type)[j],
            decreases item_list@.len() - i,
        {
            let item = &item_list[i].0;
            assert(item.price_spec(price_type) is Some);
            let price: i32 = item.price(price_type).unwrap();
            r.push((item.clone(), (price, item_list[i].1)));
            i = i + 1;
        }
        assert(r@ =~= priced(item_list@, price_type));
        r
    }

    /// An ingredient list priced against the catalogue.
    pub fn priced_list(&self, item_list: &Vec<Ingredient>, buy: bool) -> (r: Option<Vec<PricedLine>>)
        ensures
            opt_view(r) == resolve_priced(self.all_items.items@, item_list@, buy),
    {
        let found = match self.parse_item_list(item_list) {
            Some(found) => found,
            None => return None,
        };
        if !PriceHandle::all_prices_usable(&found, buy) {
            return None;
        }
        Some(PriceHandle::item_list_prices_unchecked(&found, buy))
    }
}

} // verus!

verus! {

/// Executions one input's purchase limit allows, if it is limited.
fn line_limit_exec(line: &PricedLine) -> (r: Option<i64>)
    ensures
        match r {
            Some(n) => line_limit(*line) == Some(n as int) && n >= 0,
            None => line_limit(*line) is None,
        },
{
    match line.0.limit {
        Some(limit) => {
            let quantity: u32 = (line.1).1;
            if quantity == 0 {
                None
            } else if limit <= 0 {
                Some(0)
            } else {
                let n: i64 = (limit as i64) * (QUANTITY_SCALE as i64) / (quantity as i64);
                assert(n <= (limit as i64) * (QUANTITY_SCALE as i64)) by (nonlinear_arith)
                    requires n == ((limit as i64) * (QUANTITY_SCALE as i64)) as int / (quantity as int), quantity >= 1, limit > 0;
                Some(n)
            }
        },
        None => None,
    }
}

fn effective_time_exec(time: RecipeTime, number_per_hour: Option<i32>) -> (r: Option<ExecTime>)
    ensures
        r == effective_time(time, number_per_hour),
        r matches Some(t) ==> t.wf(),
{
    let measured: Option<u32> = match time {
        RecipeTime::Time(m) => if m > 0 {
            Some(m)
        } else {
            None
        },
        RecipeTime::INVALID => None,
    };
    let rate: Option<i32> = match number_per_hour {
        Some(n) => if n > 0 {
            Some(n)
        } else {
            None
        },
        None => None,
    };
    match (measured, rate) {
        (Some(m), Some(n)) => {
            assert((m as u64) * (n as u64) <= 0xffff_ffff * 0x7fff_ffff) by (nonlinear_arith)
                requires m <= 0xffff_ffff, 0 < n <= 0x7fff_ffff;
            if (m as u64) * (n as u64) >= MS_PER_HOUR {
                Some(ExecTime::Millis(m))
            } else {
                Some(ExecTime::PerHour(n))
            }
        },
        (Some(m), None) => Some(ExecTime::Millis(m)),
        (None, Some(n)) => Some(ExecTime::PerHour(n)),
        (None, None) => None,
    }
}

/// Computes `scenario` for lists that are already priced.
pub fn scenario_overview(
    name: String,
    pay_once: &Option<Vec<PricedLine>>,
    inputs: &Vec<PricedLine>,
    outputs: &Vec<PricedLine>,
    time: RecipeTime,
    number_per_hour: Option<i32>,
    coins: i32,
    time_type: TimeType,
) -> (r: Option<(OverviewRow, (i32, i32))>)
    requires
        coins >= 0,
        forall|i: int| 0 <= i < inputs@.len() ==> (#[trigger] inputs@[i]).1.0 >= 0,
    ensures
        r == scenario(name, opt_view(*pay_once), inputs@, outputs@, time, number_per_hour, coins as int, time_type),
        r matches Some(o) ==> o.0.wf() && o.0.number >= 1,
{
    let input_details = line_details(inputs);
    let output_details = line_details(outputs);
    let cost_total = PriceHandle::total_details_price(input_details.as_slice(), false);
    let revenue_total = PriceHandle::total_details_price(output_details.as_slice(), true);
    let pay_total: Option<Option<i32>> = match pay_once {
        Some(p) => {
            let pay_details = line_details(p);
            Some(PriceHandle::total_details_price(pay_details.as_slice(), false))
        },
        None => None,
    };
    let (cost, revenue) = match (cost_total, revenue_total) {
        (Some(c), Some(r)) => (c, r),
        _ => return None,
    };
    let profit_wide: i64 = revenue as i64 - cost as i64;
    if profit_wide < i32::MIN as i64 || profit_wide > i32::MAX as i64 {
        return None;
    }
    let pay_once_total: Option<i32> = match pay_total {
        Some(Some(p)) => Some(p),
        Some(None) => return None,
        None => None,
    };
    let t = match effective_time_exec(time, number_per_hour) {
        Some(t) => t,
        None => return None,
    };
    proof {
        assert forall|i: int| 0 <= i < details(inputs@).len() implies (#[trigger] details(inputs@)[i]).0 >= 0 by {
            assert(details(inputs@)[i] == inputs@[i].1);
        }
        lemma_gross_nonneg(details(inputs@));
    }
    let rate: Option<i32> = match time_type {
        TimeType::SingleHour => Some(t.per_hour()),
        TimeType::MaxHours => match number_per_hour {
            Some(n) => if n > 0 {
                Some(n)
            } else {
                None
            },
            None => None,
        },
    };
    let solver: i32 = update_recipe_number(rate, coins, cost, time_type);
    let mut number: i64 = solver as i64;
    match calculate_buy_limit_item(inputs) {
        Some((_, ceiling)) => {
            let per_hour_ceiling: i64 = ceiling / BUY_LIMIT_RESET_HOURS;
            if per_hour_ceiling < number {
                number = per_hour_ceiling;
            }
        },
        None => {},
    }
    let cap: i64 = t.session_cap();
    if number > cap {
        number = cap;
    }
    if number < 1 {
        number = 1;
    }
    Some((
        OverviewRow::new(name, pay_once_total, profit_wide as i32, Some(t), number as i32, time_type),
        (cost, revenue),
    ))
}

/// The (price, quantity) part of each priced line.
pub fn line_details(lines: &Vec<PricedLine>) -> (r: Vec<(i32, u32)>)
    ensures
        r@ == details(lines@),
{
    let mut r: Vec<(i32, u32)> = Vec::new();
    let mut i: usize = 0;
    while i < lines.len()
        invariant
            i <= lines@.len(),
            r@.len() == i,
            forall|j: int| 0 <= j < i ==> #[trigger] r@[j] == lines@[j].1,
        decreases lines@.len() - i,
    {
        r.push(lines[i].1);
        i = i + 1;
    }
    assert(r@ =~= details(lines@));
    r
}

/// The input whose purchase limit allows the fewest executions, with that
/// number; `None` when no input is limited.
pub fn calculate_buy_limit_item(input_details: &Vec<PricedLine>) -> (r: Option<(Item, i64)>)
    ensures
        match r {
            Some((item, n)) => buy_limit_ceiling(input_details@) == Some(n as int) && n >= 0 && exists|i: int|
                0 <= i < input_details@.len() && input_details@[i].0 == item && line_limit(input_details@[i]) == Some(n as int),
            None => buy_limit_ceiling(input_details@) is None,
        },
{
    let mut best: Option<(usize, i64)> = None;
    let mut i: usize = 0;
    while i < input_details.len()
        invariant
            i <= input_details@.len(),
            match best {
                Some((k, n)) => buy_limit_ceiling(input_details@.take(i as int)) == Some(n as int) && n >= 0 && k < i
                    && line_limit(input_details@[k as int]) == Some(n as int),
                None => buy_limit_ceiling(input_details@.take(i as int)) is None,
            },
        decreases input_details@.len() - i,
    {
        assert(input_details@.take(i + 1).drop_last() =~= input_details@.take(i as int));
        assert(input_details@.take(i + 1).last() == input_details@[i as int]);
        match line_limit_exec(&input_details[i]) {
            Some(n) => {
                match best {
                    Some((_, m)) => if n < m {
                        best = Some((i, n));
                    },
                    None => {
                        best = Some((i, n));
                    },
                }
            },
            None => {},
        }
        i = i + 1;
    }
    assert(input_details@.take(i as int) =~= input_details@);
    match best {
        Some((k, n)) => Some((input_details[k].0.clone(), n)),
        None => None,
    }
}

impl PriceHandle {
    /// Prices `recipe` against the catalogue and returns its overview with
    /// the cost of its inputs and the taxed revenue of its outputs.
    pub fn recipe_price_overview_from_recipe(&self, recipe: &Recipe, time_type: TimeType) -> (r: Option<(OverviewRow, (i32, i32))>)
        requires
            self.wf(),
        ensures
            r == self.overview_of(*recipe, time_type),
            r matches Some(o) ==> o.0.wf() && o.0.number >= 1,
    {
        let pay_once: Option<Vec<PricedLine>> = match &recipe.pay_once {
            Some(p) => match self.priced_list(p, true) {
                Some(lines) => Some(lines),
                None => return None,
            },
            None => None,
        };
        let inputs = match self.priced_list(&recipe.inputs, true) {
            Some(lines) => lines,
            None => return None,
        };
        let outputs = match self.priced_list(&recipe.outputs, false) {
            Some(lines) => lines,
            None => return None,
        };
        proof {
            let items = self.all_items.items@;
            let found = resolved(items, recipe.inputs@);
            assert forall|i: int| 0 <= i < inputs@.len() implies (#[trigger] inputs@[i]).1.0 >= 0 by {
                assert(usable_price(found[i].0, true));
                assert(inputs@[i] == priced(found, true)[i]);
            }
        }
        scenario_overview(
            recipe.name.clone(),
            &pay_once,
            &inputs,
            &outputs,
            recipe.time,
            recipe.number_per_hour,
            self.coins,
            time_type,
        )
    }

    /// Looks `recipe_name` up in the recipe catalogue and prices it.
    pub fn recipe_price_overview_from_string(&self, recipe_name: &String, time_type: TimeType) -> (r: Option<(OverviewRow, (i32, i32))>)
        requires
            self.wf(),
        ensures
            match find_recipe(self.recipe_list.recipes@, recipe_name@) {
                Some(recipe) => r == self.overview_of(recipe, time_type),
                None => r is None,
            },
    {
        match self.recipe_list.get_recipe(recipe_name) {
            Some(recipe) => self.recipe_price_overview_from_recipe(recipe, time_type),
            None => None,
        }
    }
}

} // verus!
