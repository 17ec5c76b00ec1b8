//! Per-recipe breakdown under two pricing scenarios: quoted prices, and offer
//! prices moved by a margin.
use vstd::prelude::*;

use crate::prices::{
    clamp_i32, resolve_priced, scenario, scenario_overview, PriceHandle, PricedLine, TimeType,
};
use crate::recipes::Recipe;
use crate::types::{DetailedTable, OverviewRow, RecipeDetail, TableInputs};

verus! {

/// A margin of this many units is one hundred percent.
pub const MARGIN_SCALE: u32 = 10_000;

/// A unit price moved by `margin` hundredths of a percent: up for a purchase,
/// down for a sale; rounded down, clamped into `i32`, and at least one.
pub open spec fn adjusted_price(price: int, margin: int, buy: bool) -> int {
    let factor = if buy {
        MARGIN_SCALE + margin
    } else {
        MARGIN_SCALE - margin
    };
    let moved = clamp_i32((price * factor) / (MARGIN_SCALE as int));
    if moved < 1 {
        1
    } else {
        moved
    }
}

/// Priced lines with their prices moved by the margin.
pub open spec fn adjust_lines(lines: Seq<PricedLine>, margin: int, buy: bool) -> Seq<PricedLine> {
    Seq::new(lines.len(), |i: int| (lines[i].0, (adjusted_price(lines[i].1.0 as int, margin, buy) as i32, lines[i].1.1)))
}

/// Itemized lines of priced lines: name, unit price and quantity.
pub open spec fn detail_rows(lines: Seq<PricedLine>) -> Seq<RecipeDetail> {
    Seq::new(lines.len(), |i: int| (lines[i].0.name, lines[i].1.0, lines[i].1.1))
}

pub fn adjusted_unit_price(price: i32, margin: u32, buy: bool) -> (r: i32)
    ensures
        r == adjusted_price(price as int, margin as int, buy),
        r >= 1,
{
    let factor: i128 = if buy {
        MARGIN_SCALE as i128 + margin as i128
    } else {
        MARGIN_SCALE as i128 - margin as i128
    };
    assert(-0x8000_0000 * 0x1_0000_2710 <= (price as i128) * factor <= 0x8000_0000 * 0x1_0000_2710) by (nonlinear_arith)
        requires -0x8000_0000 <= price <= 0x7fff_ffff, -0x1_0000_2710 <= factor <= 0x1_0000_2710;
    let moved: i128 = crate::types::floor_div((price as i128) * factor, MARGIN_SCALE as i128);
    let clamped: i128 = if moved < i32::MIN as i128 {
        i32::MIN as i128
    } else if moved > i32::MAX as i128 {
        i32::MAX as i128
    } else {
        moved
    };
    if clamped < 1 {
        1
    } else {
        clamped as i32
    }
}

pub fn adjust_lines_exec(lines: &Vec<PricedLine>, margin: u32, buy: bool) -> (r: Vec<PricedLine>)
    ensures
        r@ == adjust_lines(lines@, margin as int, buy),
{
    let mut r: Vec<PricedLine> = Vec::new();
    let mut i: usize = 0;
    while i < lines.len()
        invariant
            i <= lines@.len(),
            r@.len() == i,
            forall|j: int| 0 <= j < i ==> #[trigger] r@[j] == adjust_lines(lines@, margin as int, buy)[j],
        decreases lines@.len() - i,
    {
        let price: i32 = adjusted_unit_price((lines[i].1).0, margin, buy);
        r.push((lines[i].0.clone(), (price, (lines[i].1).1)));
        i = i + 1;
    }
    assert(r@ =~= adjust_lines(lines@, margin as int, buy));
    r
}

/// Itemized lines with their prices moved by the margin.
pub fn adjust_prices(items: &[RecipeDetail], margin: u32, buy: bool) -> (r: Vec<RecipeDetail>)
    ensures
        r@.len() == items@.len(),
        forall|i: int| 0 <= i < items@.len() ==> #[trigger] r@[i] == (
            items@[i].0,
            adjusted_price(items@[i].1 as int, margin as int, buy) as i32,
            items@[i].2,
        ),
{
    let mut r: Vec<RecipeDetail> = Vec::new();
    let mut i: usize = 0;
    while i < items.len()
        invariant
            i <= items@.len(),
            r@.len() == i,
            forall|j: int| 0 <= j < i ==> #[trigger] r@[j] == (
                items@[j].0,
                adjusted_price(items@[j].1 as int, margin as int, buy) as i32,
                items@[j].2,
            ),
        decreases items@.len() - i,
    {
        let price: i32 = adjusted_unit_price(items[i].1, margin, buy);
        r.push((items[i].0.clone(), price, items[i].2));
        i = i + 1;
    }
    r
}

pub fn detail_rows_exec(lines: &Vec<PricedLine>) -> (r: Vec<RecipeDetail>)
    ensures
        r@ == detail_rows(lines@),
{
    let mut r: Vec<RecipeDetail> = Vec::new();
    let mut i: usize = 0;
    while i < lines.len()
        invariant
            i <= lines@.len(),
            r@.len() == i,
            forall|j: int| 0 <= j < i ==> #[trigger] r@[j] == detail_rows(lines@)[j],
        decreases lines@.len() - i,
    {
        r.push((lines[i].0.name.clone(), (lines[i].1).0, (lines[i].1).1));
        i = i + 1;
    }
    assert(r@ =~= detail_rows(lines@));
    r
}

impl PriceHandle {
    /// The recipe's lists priced against the catalogue: pay-once items (if
    /// any), inputs and outputs; `None` when one of them cannot be priced.
    pub open spec fn priced_lists(&self, recipe: Recipe) -> Option<(Option<Seq<PricedLine>>, Seq<PricedLine>, Seq<PricedLine>)> {
        let items = self.all_items.items@;
        let inputs = resolve_priced(items, recipe.inputs@, true);
        let outputs = resolve_priced(items, recipe.outputs@, false);
        let pay_once = match recipe.pay_once {
            Some(p) => Some(resolve_priced(items, p@, true)),
            None => None,
        };
        if inputs is None || outputs is None || pay_once matches Some(None) {
            None
        } else {
            Some((
                match pay_once {
                    Some(p) => p,
                    None => None,
                },
                inputs.unwrap(),
                outputs.unwrap(),
            ))
        }
    }

    /// Both scenarios of `recipe`: at quoted prices, and with input prices
    /// raised and output prices lowered by the margin.
    pub open spec fn lookup_of(&self, recipe: Recipe, time_type: TimeType) -> Option<(OverviewRow, OverviewRow)> {
        match self.priced_lists(recipe) {
            None => None,
            Some((pay_once, inputs, outputs)) => {
                let margin = self.pmargin as int;
                let base = scenario(recipe.name, pay_once, inputs, outputs, recipe.time, recipe.number_per_hour, self.coins as int, time_type);
                let adjusted_pay_once = match pay_once {
                    Some(p) => Some(adjust_lines(p, margin, true)),
                    None => None,
                };
                let adjusted = scenario(
                    recipe.name,
                    adjusted_pay_once,
                    adjust_lines(inputs, margin, true),
                    adjust_lines(outputs, margin, false),
                    recipe.time,
                    recipe.number_per_hour,
                    self.coins as int,
                    time_type,
                );
                if base is None || adjusted is None {
                    None
                } else {
                    Some((base.unwrap().0, adjusted.unwrap().0))
                }
            },
        }
    }

    /// Breakdown of `recipe` under both scenarios, with its itemized lines at
    /// quoted prices; `None` when either scenario cannot be computed.
    pub fn recipe_lookup_from_recipe(&self, recipe: &Recipe, time_type: TimeType) -> (r: Option<DetailedTable>)
        requires
            self.wf(),
        ensures
            match r {
                Some(t) => {
                    &&& self.lookup_of(*recipe, time_type) == Some((t.overview, t.adjusted))
                    &&& t.percent_margin == self.pmargin
                    &&& self.priced_lists(*recipe) matches Some((pay_once, inputs, outputs))
                    &&& t.inputs.inputs@ == detail_rows(inputs)
                    &&& t.outputs@ == detail_rows(outputs)
                    &&& match pay_once {
                        Some(p) => t.inputs.pay_once matches Some(v) && v@ == detail_rows(p),
                        None => t.inputs.pay_once is None,
                    }
                    &&& t.overview.wf() && t.adjusted.wf()
                },
                None => self.lookup_of(*recipe, time_type) is None,
            },
    {
        let pay_once: Option<Vec<PricedLine>> = match &recipe.pay_once {
            Some(p) => match self.priced_list(p, true) {
                Some(lines) => Some(lines),
                None => return None,
            },
            None => None,
        };
        let inputs = match self.priced_list(&recipe.inputs, true) {
            Some(lines) => lines,
            None => return None,
        };
        let outputs = match self.priced_list(&recipe.outputs, false) {
            Some(lines) => lines,
            None => return None,
        };
        proof {
            let found = crate::prices::resolved(self.all_items.items@, recipe.inputs@);
            assert forall|i: int| 0 <= i < inputs@.len() implies (#[trigger] inputs@[i]).1.0 >= 0 by {
                assert(crate::prices::usable_price(found[i].0, true));
                assert(inputs@[i] == crate::prices::priced(found, true)[i]);
            }
        }
        let base = match scenario_overview(
            recipe.name.clone(),
            &pay_once,
            &inputs,
            &outputs,
            recipe.time,
            recipe.number_per_hour,
            self.coins,
            time_type,
        ) {
            Some(b) => b,
            None => return None,
        };
        let margin = self.pmargin;
        let adjusted_pay_once: Option<Vec<PricedLine>> = match &pay_once {
            Some(p) => Some(adjust_lines_exec(p, margin, true)),
            None => None,
        };
        let adjusted_inputs = adjust_lines_exec(&inputs, margin, true);
        let adjusted_outputs = adjust_lines_exec(&outputs, margin, false);
        let adjusted = match scenario_overview(
            recipe.name.clone(),
            &adjusted_pay_once,
            &adjusted_inputs,
            &adjusted_outputs,
            recipe.time,
            recipe.number_per_hour,
            self.coins,
            time_type,
        ) {
            Some(a) => a,
            None => return None,
        };
        let pay_once_rows: Option<Vec<RecipeDetail>> = match &pay_once {
            Some(p) => Some(detail_rows_exec(p)),
            None => None,
        };
        let table_inputs = TableInputs { pay_once: pay_once_rows, inputs: detail_rows_exec(&inputs) };
        Some(DetailedTable::new(base.0, adjusted.0, table_inputs, detail_rows_exec(&outputs), margin))
    }
}

} // verus!
