//! Laws that hold of the engine, proved over the specifications that its
//! functions' contracts use.
use vstd::prelude::*;

use crate::breakdown::{adjust_lines, adjusted_price, MARGIN_SCALE};
use crate::prices::{
    buy_limit_ceiling, capped_number, details, details_total, gross, line_limit, line_value, limit_executions,
    recipe_number, resolvable, resolve_priced, scenario, taxed, taxed_sum, PriceHandle, PricedLine, TimeType,
    FEE_CAP, TAX_THRESHOLD,
};
use crate::item_search::{find_item, first_item_index, Item};
use crate::recipes::{Ingredient, Recipe, RecipeTime};
use crate::types::ExecTime;

verus! {

/// Tax never raises a sale: what is left is at most the sale, equal to it
/// exactly when the sale is below the threshold, and never less than the sale
/// minus the fee cap.
pub proof fn tax_never_raises_a_sale(profit: int)
    ensures
        taxed(profit) <= profit,
        taxed(profit) == profit <==> profit < TAX_THRESHOLD,
        profit - taxed(profit) <= FEE_CAP,
{
    if profit >= TAX_THRESHOLD {
        assert(profit * 2 / 100 >= 1);
    }
}

/// The quantity solver settles on at least one execution, unless the recipe
/// has neither a cost nor a known rate.
pub proof fn solver_gives_at_least_one(number_per_hour: Option<i32>, coins: int, single_cost: int, time_type: TimeType)
    requires
        coins >= 0,
        single_cost >= 0,
        number_per_hour matches Some(rate) ==> rate > 0,
        !(number_per_hour is None && single_cost == 0),
    ensures
        recipe_number(number_per_hour, coins, single_cost, time_type) >= 1,
{
}

/// A purchase limit `b` is at least as generous as `a`; no limit is the most
/// generous.
pub open spec fn limit_not_lower(a: Option<i32>, b: Option<i32>) -> bool {
    match (a, b) {
        (_, None) => true,
        (None, Some(_)) => false,
        (Some(x), Some(y)) => x <= y,
    }
}

/// A ceiling `b` is at least `a`; no ceiling is above every number.
pub open spec fn ceiling_not_lower(a: Option<int>, b: Option<int>) -> bool {
    match (a, b) {
        (_, None) => true,
        (None, Some(_)) => false,
        (Some(x), Some(y)) => x <= y,
    }
}

proof fn lemma_limit_executions_monotone(x: i32, y: i32, quantity: u32)
    requires
        x <= y,
        quantity > 0,
    ensures
        limit_executions(x, quantity) <= limit_executions(y, quantity),
{
    if x > 0 {
        vstd::arithmetic::div_mod::lemma_div_is_ordered(x * 1000, y * 1000, quantity as int);
    } else if y > 0 {
        vstd::arithmetic::div_mod::lemma_div_pos_is_pos(y * 1000, quantity as int);
    }
}

proof fn lemma_ceiling_monotone(a: Seq<PricedLine>, b: Seq<PricedLine>)
    requires
        a.len() == b.len(),
        forall|i: int| 0 <= i < a.len() ==> (#[trigger] a[i]).1 == b[i].1 && limit_not_lower(a[i].0.limit, b[i].0.limit),
    ensures
        ceiling_not_lower(buy_limit_ceiling(a), buy_limit_ceiling(b)),
    decreases a.len(),
{
    if a.len() > 0 {
        let n = a.len() - 1;
        assert(a[n].1 == b[n].1 && limit_not_lower(a[n].0.limit, b[n].0.limit));
        lemma_ceiling_monotone(a.drop_last(), b.drop_last());
        let la = line_limit(a.last());
        let lb = line_limit(b.last());
        assert(ceiling_not_lower(la, lb)) by {
            if a[n].0.limit is Some && b[n].0.limit is Some && a[n].1.1 > 0 {
                lemma_limit_executions_monotone(a[n].0.limit.unwrap(), b[n].0.limit.unwrap(), a[n].1.1);
            }
        }
    }
}

/// Raising the purchase limit of any input never lowers the planned number
/// of executions, all else equal.
pub proof fn raising_a_purchase_limit_never_lowers_the_count(
    name: String,
    pay_once: Option<Seq<PricedLine>>,
    inputs: Seq<PricedLine>,
    raised: Seq<PricedLine>,
    outputs: Seq<PricedLine>,
    time: RecipeTime,
    number_per_hour: Option<i32>,
    coins: int,
    time_type: TimeType,
)
    requires
        0 <= coins <= i32::MAX,
        inputs.len() == raised.len(),
        forall|i: int|
            0 <= i < inputs.len() ==> (#[trigger] inputs[i]).1 == raised[i].1 && limit_not_lower(inputs[i].0.limit, raised[i].0.limit),
    ensures
        scenario(name, pay_once, inputs, outputs, time, number_per_hour, coins, time_type) is Some
            <==> scenario(name, pay_once, raised, outputs, time, number_per_hour, coins, time_type) is Some,
        scenario(name, pay_once, inputs, outputs, time, number_per_hour, coins, time_type) matches Some(a) ==>
            scenario(name, pay_once, raised, outputs, time, number_per_hour, coins, time_type) matches Some(b) && b.0.number >= a.0.number,
{
    lemma_scenario_limit_monotone(
        name,
        pay_once,
        pay_once,
        inputs,
        raised,
        outputs,
        outputs,
        time,
        number_per_hour,
        coins,
        time_type,
    );
}

/// Like `raising_a_purchase_limit_never_lowers_the_count`, for lists that may
/// also differ in their items wherever the prices and quantities agree.
proof fn lemma_scenario_limit_monotone(
    name: String,
    pay_once: Option<Seq<PricedLine>>,
    pay_once_b: Option<Seq<PricedLine>>,
    inputs: Seq<PricedLine>,
    raised: Seq<PricedLine>,
    outputs: Seq<PricedLine>,
    outputs_b: Seq<PricedLine>,
    time: RecipeTime,
    number_per_hour: Option<i32>,
    coins: int,
    time_type: TimeType,
)
    requires
        0 <= coins <= i32::MAX,
        inputs.len() == raised.len(),
        forall|i: int|
            0 <= i < inputs.len() ==> (#[trigger] inputs[i]).1 == raised[i].1 && limit_not_lower(inputs[i].0.limit, raised[i].0.limit),
        details(outputs) == details(outputs_b),
        pay_once is Some <==> pay_once_b is Some,
        pay_once is Some ==> details(pay_once.unwrap()) == details(pay_once_b.unwrap()),
    ensures
        scenario(name, pay_once, inputs, outputs, time, number_per_hour, coins, time_type) is Some
            <==> scenario(name, pay_once_b, raised, outputs_b, time, number_per_hour, coins, time_type) is Some,
        scenario(name, pay_once, inputs, outputs, time, number_per_hour, coins, time_type) matches Some(a) ==>
            scenario(name, pay_once_b, raised, outputs_b, time, number_per_hour, coins, time_type) matches Some(b) && b.0.number >= a.0.number,
{
    assert(details(inputs) =~= details(raised));
    lemma_ceiling_monotone(inputs, raised);
    let cost = details_total(details(inputs), false);
    if let Some(t) = crate::prices::effective_time(time, number_per_hour) {
        let rate = match time_type {
            TimeType::SingleHour => Some(t.per_hour_spec() as i32),
            TimeType::MaxHours => crate::prices::user_rate(number_per_hour),
        };
        let solver = recipe_number(rate, coins, cost, time_type);
        lemma_solver_bound(rate, coins, cost, time_type);
        lemma_capped_monotone(solver, buy_limit_ceiling(inputs), buy_limit_ceiling(raised), t);
    }
}

proof fn lemma_solver_bound(rate: Option<i32>, coins: int, cost: int, time_type: TimeType)
    requires
        0 <= coins <= i32::MAX,
    ensures
        recipe_number(rate, coins, cost, time_type) <= i32::MAX,
{
    if cost > 0 {
        vstd::arithmetic::div_mod::lemma_div_is_ordered_by_denominator(coins, 1, cost);
    } else if cost < 0 {
        assert(coins / cost <= 0) by (nonlinear_arith)
            requires coins >= 0, cost < 0;
    }
}

/// The capped count is monotone in the purchase-limit ceiling and stays
/// between one and the solver's count.
proof fn lemma_capped_monotone(solver: int, a: Option<int>, b: Option<int>, time: ExecTime)
    requires
        ceiling_not_lower(a, b),
    ensures
        capped_number(solver, a, time) <= capped_number(solver, b, time),
        1 <= capped_number(solver, a, time) <= if solver < 1 { 1 } else { solver },
        1 <= capped_number(solver, b, time) <= if solver < 1 { 1 } else { solver },
{
    if a is Some && b is Some {
        vstd::arithmetic::div_mod::lemma_div_is_ordered(a.unwrap(), b.unwrap(), 4);
    }
}

} // verus!

verus! {

proof fn lemma_taxed_monotone(x: int, y: int)
    requires
        x <= y,
    ensures
        taxed(x) <= taxed(y),
{
    if x >= TAX_THRESHOLD {
        assert(x * 2 / 100 <= y * 2 / 100);
        assert(y * 2 / 100 - x * 2 / 100 <= y - x);
    } else if y >= TAX_THRESHOLD {
        assert(y * 2 / 100 <= y - 49);
    }
}

proof fn lemma_adjusted_buy(price: int, margin: int)
    requires
        0 <= price <= i32::MAX,
        margin >= 0,
    ensures
        price <= adjusted_price(price, margin, true) <= i32::MAX,
{
    let scale = MARGIN_SCALE as int;
    assert(price * scale <= price * (scale + margin)) by (nonlinear_arith)
        requires price >= 0, margin >= 0;
    assert(price * (scale + margin) >= 0) by (nonlinear_arith)
        requires price >= 0, margin >= 0, scale > 0;
    vstd::arithmetic::div_mod::lemma_div_is_ordered(price * scale, price * (scale + margin), scale);
    vstd::arithmetic::div_mod::lemma_div_by_multiple(price, scale);
}

proof fn lemma_adjusted_sell(price: int, margin: int)
    requires
        1 <= price <= i32::MAX,
        margin >= 0,
    ensures
        1 <= adjusted_price(price, margin, false) <= price,
{
    let scale = MARGIN_SCALE as int;
    let factor = scale - margin;
    if factor >= 0 {
        assert(0 <= price * factor <= price * scale) by (nonlinear_arith)
            requires price >= 1, 0 <= factor <= scale;
        vstd::arithmetic::div_mod::lemma_div_is_ordered(price * factor, price * scale, scale);
        vstd::arithmetic::div_mod::lemma_div_by_multiple(price, scale);
        vstd::arithmetic::div_mod::lemma_div_pos_is_pos(price * factor, scale);
    } else {
        assert(price * factor < 0) by (nonlinear_arith)
            requires price >= 1, factor < 0;
        vstd::arithmetic::div_mod::lemma_div_pos_is_pos(-(price * factor), scale);
    }
}

proof fn lemma_gross_monotone(a: Seq<(i32, u32)>, b: Seq<(i32, u32)>)
    requires
        a.len() == b.len(),
        forall|i: int| 0 <= i < a.len() ==> (#[trigger] a[i]).1 == b[i].1 && a[i].0 <= b[i].0,
    ensures
        gross(a) <= gross(b),
    decreases a.len(),
{
    if a.len() > 0 {
        let n = a.len() - 1;
        assert(a[n].1 == b[n].1 && a[n].0 <= b[n].0);
        lemma_gross_monotone(a.drop_last(), b.drop_last());
        let (pa, q) = a.last();
        let pb = b.last().0;
        assert(pa * q <= pb * q) by (nonlinear_arith)
            requires pa <= pb, q >= 0;
    }
}

proof fn lemma_taxed_sum_monotone(a: Seq<(i32, u32)>, b: Seq<(i32, u32)>)
    requires
        a.len() == b.len(),
        forall|i: int| 0 <= i < a.len() ==> (#[trigger] a[i]).1 == b[i].1 && 0 <= a[i].0 <= b[i].0,
    ensures
        taxed_sum(a) <= taxed_sum(b),
    decreases a.len(),
{
    if a.len() > 0 {
        let n = a.len() - 1;
        assert(a[n].1 == b[n].1 && 0 <= a[n].0 <= b[n].0);
        lemma_taxed_sum_monotone(a.drop_last(), b.drop_last());
        let (pa, q) = a.last();
        let pb = b.last().0;
        assert(0 <= pa * q <= pb * q) by (nonlinear_arith)
            requires 0 <= pa <= pb, q >= 0;
        vstd::arithmetic::div_mod::lemma_div_is_ordered(pa * q, pb * q, 1000);
        lemma_taxed_monotone(line_value(a.last()), line_value(b.last()));
    }
}

/// Moving prices by a non-negative margin never lowers the cost of the inputs
/// and never raises the taxed revenue of the outputs (whose quoted prices are
/// at least one; a price of zero is raised to one).
pub proof fn margin_raises_cost_and_lowers_revenue(
    name: String,
    pay_once: Option<Seq<PricedLine>>,
    inputs: Seq<PricedLine>,
    outputs: Seq<PricedLine>,
    time: RecipeTime,
    number_per_hour: Option<i32>,
    coins: int,
    time_type: TimeType,
    margin: int,
)
    requires
        margin >= 0,
        forall|i: int| 0 <= i < inputs.len() ==> (#[trigger] inputs[i]).1.0 >= 0,
        forall|i: int| 0 <= i < outputs.len() ==> (#[trigger] outputs[i]).1.0 >= 1,
    ensures
        details_total(details(adjust_lines(inputs, margin, true)), false) >= details_total(details(inputs), false),
        details_total(details(adjust_lines(outputs, margin, false)), true) <= details_total(details(outputs), true),
        ({
            let adjusted_pay_once = match pay_once {
                Some(p) => Some(adjust_lines(p, margin, true)),
                None => None,
            };
            let base = scenario(name, pay_once, inputs, outputs, time, number_per_hour, coins, time_type);
            let adjusted = scenario(
                name,
                adjusted_pay_once,
                adjust_lines(inputs, margin, true),
                adjust_lines(outputs, margin, false),
                time,
                number_per_hour,
                coins,
                time_type,
            );
            base is Some && adjusted is Some ==> adjusted.unwrap().1.0 >= base.unwrap().1.0
                && adjusted.unwrap().1.1 <= base.unwrap().1.1
        }),
{
    let di = details(inputs);
    let dai = details(adjust_lines(inputs, margin, true));
    assert forall|i: int| 0 <= i < di.len() implies (#[trigger] di[i]).1 == dai[i].1 && di[i].0 <= dai[i].0 by {
        assert(inputs[i].1.0 >= 0);
        lemma_adjusted_buy(inputs[i].1.0 as int, margin);
    }
    lemma_gross_monotone(di, dai);
    vstd::arithmetic::div_mod::lemma_div_is_ordered(gross(di), gross(dai), 1000);
    let dout = details(outputs);
    let dao = details(adjust_lines(outputs, margin, false));
    assert forall|i: int| 0 <= i < dao.len() implies (#[trigger] dao[i]).1 == dout[i].1 && 0 <= dao[i].0 <= dout[i].0 by {
        assert(outputs[i].1.0 >= 1);
        lemma_adjusted_sell(outputs[i].1.0 as int, margin);
    }
    lemma_taxed_sum_monotone(dao, dout);
    let adjusted_pay_once = match pay_once {
        Some(p) => Some(adjust_lines(p, margin, true)),
        None => None,
    };
    let base = scenario(name, pay_once, inputs, outputs, time, number_per_hour, coins, time_type);
    let adjusted = scenario(
        name,
        adjusted_pay_once,
        adjust_lines(inputs, margin, true),
        adjust_lines(outputs, margin, false),
        time,
        number_per_hour,
        coins,
        time_type,
    );
    if base is Some && adjusted is Some {
        assert(base.unwrap().1.0 == details_total(di, false));
        assert(adjusted.unwrap().1.0 == details_total(dai, false));
        assert(base.unwrap().1.1 == details_total(dout, true));
        assert(adjusted.unwrap().1.1 == details_total(dao, true));
    }
}

/// Whether every line is priced at one or more.
pub open spec fn priced_at_least_one(lines: Seq<PricedLine>) -> bool {
    forall|i: int| 0 <= i < lines.len() ==> (#[trigger] lines[i]).1.0 >= 1
}

proof fn lemma_zero_margin_keeps_lines(lines: Seq<PricedLine>, buy: bool)
    requires
        priced_at_least_one(lines),
    ensures
        adjust_lines(lines, 0, buy) == lines,
{
    assert forall|i: int| 0 <= i < lines.len() implies #[trigger] adjust_lines(lines, 0, buy)[i] == lines[i] by {
        let p = lines[i].1.0 as int;
        assert(p >= 1);
        vstd::arithmetic::div_mod::lemma_div_by_multiple(p, MARGIN_SCALE as int);
        assert(adjusted_price(p, 0, buy) == p);
    }
    assert(adjust_lines(lines, 0, buy) =~= lines);
}

/// With no margin, the breakdown's adjusted scenario is the base scenario,
/// which is the recipe's overview; this needs every price to be at least one,
/// since the adjustment raises a price of zero to one.
pub proof fn zero_margin_reproduces_the_base_scenario(handle: PriceHandle, recipe: Recipe, time_type: TimeType)
    requires
        handle.pmargin == 0,
        handle.priced_lists(recipe) matches Some((pay_once, inputs, outputs)) ==> priced_at_least_one(inputs)
            && priced_at_least_one(outputs) && (pay_once matches Some(p) ==> priced_at_least_one(p)),
    ensures
        handle.lookup_of(recipe, time_type) is Some <==> handle.overview_of(recipe, time_type) is Some,
        handle.lookup_of(recipe, time_type) matches Some((base, adjusted)) ==> adjusted == base
            && base == handle.overview_of(recipe, time_type).unwrap().0,
{
    if let Some((pay_once, inputs, outputs)) = handle.priced_lists(recipe) {
        lemma_zero_margin_keeps_lines(inputs, true);
        lemma_zero_margin_keeps_lines(outputs, false);
        if let Some(p) = pay_once {
            lemma_zero_margin_keeps_lines(p, true);
        }
    }
}

/// A recipe that names an item missing from the catalogue has no overview
/// and no breakdown.
pub proof fn unresolvable_names_give_nothing(handle: PriceHandle, recipe: Recipe, time_type: TimeType)
    requires
        !resolvable(handle.all_items.items@, recipe.inputs@) || !resolvable(handle.all_items.items@, recipe.outputs@)
            || (recipe.pay_once matches Some(p) && !resolvable(handle.all_items.items@, p@)),
    ensures
        handle.overview_of(recipe, time_type) is None,
        handle.lookup_of(recipe, time_type) is None,
{
}

} // verus!

verus! {

proof fn lemma_zero_margin_keeps_details(lines: Seq<(String, i32, u32)>, buy: bool)
    requires
        forall|i: int| 0 <= i < lines.len() ==> (#[trigger] lines[i]).1 >= 1,
    ensures
        crate::results_writer::adjusted_details(lines, 0, buy) == lines,
{
    assert forall|i: int| 0 <= i < lines.len() implies #[trigger] crate::results_writer::adjusted_details(lines, 0, buy)[i]
        == lines[i] by {
        let p = lines[i].1 as int;
        assert(p >= 1);
        vstd::arithmetic::div_mod::lemma_div_by_multiple(p, MARGIN_SCALE as int);
        assert(adjusted_price(p, 0, buy) == p);
    }
    assert(crate::results_writer::adjusted_details(lines, 0, buy) =~= lines);
}

/// With no margin, and the adjusted scenario equal to the base one, the
/// merged breakdown table pairs each row of the base scenario with itself.
pub proof fn zero_margin_rows_repeat_the_base(table: crate::types::DetailedTable)
    requires
        table.percent_margin == 0,
        table.adjusted == table.overview,
        forall|i: int| 0 <= i < table.inputs.inputs@.len() ==> (#[trigger] table.inputs.inputs@[i]).1 >= 1,
        forall|i: int| 0 <= i < table.outputs@.len() ==> (#[trigger] table.outputs@[i]).1 >= 1,
        table.inputs.pay_once matches Some(p) ==> forall|i: int| 0 <= i < p@.len() ==> (#[trigger] p@[i]).1 >= 1,
    ensures
        ({
            let headers = Seq::new(
                crate::results_writer::NUM_SECTION_HEADERS as nat,
                |i: int| crate::results_writer::section_header(i, 0),
            );
            let pay_once = match table.inputs.pay_once {
                Some(p) => Some(p@),
                None => None,
            };
            let base = crate::results_writer::section_rows(headers, table.overview@, pay_once, table.inputs.inputs@, table.outputs@);
            crate::results_writer::breakdown_rows(table) == crate::results_writer::merged_rows(base, base)
        }),
{
    lemma_zero_margin_keeps_details(table.inputs.inputs@, true);
    lemma_zero_margin_keeps_details(table.outputs@, false);
    if let Some(p) = table.inputs.pay_once {
        lemma_zero_margin_keeps_details(p@, true);
    }
}

} // verus!

verus! {

/// Item `b` is item `a` with a purchase limit at least as generous.
pub open spec fn limit_raised(a: Item, b: Item) -> bool {
    &&& b == (Item { limit: b.limit, ..a })
    &&& limit_not_lower(a.limit, b.limit)
}

proof fn lemma_first_index_unique(items: Seq<Item>, name: Seq<char>, i: int, j: int)
    requires
        first_item_index(items, name, i),
        first_item_index(items, name, j),
    ensures
        i == j,
{
    if i < j {
        assert(items[i].name@ != name);
    } else if j < i {
        assert(items[j].name@ != name);
    }
}

proof fn lemma_find_item_raised(a: Seq<Item>, b: Seq<Item>, name: Seq<char>)
    requires
        a.len() == b.len(),
        forall|i: int| 0 <= i < a.len() ==> limit_raised(#[trigger] a[i], b[i]),
    ensures
        find_item(a, name) is Some <==> find_item(b, name) is Some,
        find_item(a, name) is Some ==> limit_raised(find_item(a, name).unwrap(), find_item(b, name).unwrap()),
{
    assert forall|i: int| first_item_index(a, name, i) <==> first_item_index(b, name, i) by {
        if 0 <= i < a.len() {
            assert(limit_raised(a[i], b[i]));
            assert forall|j: int| 0 <= j < i implies a[j].name@ == b[j].name@ by {
                assert(limit_raised(a[j], b[j]));
            }
        }
    }
    if exists|i: int| first_item_index(a, name, i) {
        let ia = choose|i: int| first_item_index(a, name, i);
        let ib = choose|i: int| first_item_index(b, name, i);
        lemma_first_index_unique(b, name, ia, ib);
        assert(limit_raised(a[ia], b[ia]));
    }
}

proof fn lemma_priced_raised(a: Seq<Item>, b: Seq<Item>, list: Seq<Ingredient>, buy: bool)
    requires
        a.len() == b.len(),
        forall|i: int| 0 <= i < a.len() ==> limit_raised(#[trigger] a[i], b[i]),
    ensures
        resolve_priced(a, list, buy) is Some <==> resolve_priced(b, list, buy) is Some,
        resolve_priced(a, list, buy) is Some ==> {
            let la = resolve_priced(a, list, buy).unwrap();
            let lb = resolve_priced(b, list, buy).unwrap();
            &&& la.len() == lb.len()
            &&& details(la) == details(lb)
            &&& forall|i: int| 0 <= i < la.len() ==> limit_raised(#[trigger] la[i].0, lb[i].0)
        },
{
    assert forall|i: int| 0 <= i < list.len() implies (find_item(a, (#[trigger] list[i]).name@) is Some <==> find_item(
        b,
        list[i].name@,
    ) is Some) && (find_item(a, list[i].name@) is Some ==> limit_raised(
        find_item(a, list[i].name@).unwrap(),
        find_item(b, list[i].name@).unwrap(),
    )) by {
        lemma_find_item_raised(a, b, list[i].name@);
    }
    assert(resolvable(a, list) <==> resolvable(b, list)) by {
        if resolvable(a, list) {
            assert forall|i: int| 0 <= i < list.len() implies (#[trigger] find_item(b, list[i].name@)) is Some by {
                assert(find_item(a, list[i].name@) is Some);
            }
        }
        if resolvable(b, list) {
            assert forall|i: int| 0 <= i < list.len() implies (#[trigger] find_item(a, list[i].name@)) is Some by {
                assert(find_item(b, list[i].name@) is Some);
            }
        }
    }
    if resolvable(a, list) {
        let ra = crate::prices::resolved(a, list);
        let rb = crate::prices::resolved(b, list);
        assert forall|i: int| 0 <= i < ra.len() implies limit_raised(#[trigger] ra[i].0, rb[i].0) by {
            assert(find_item(a, list[i].name@) is Some);
        }
        assert(crate::prices::all_priced(ra, buy) <==> crate::prices::all_priced(rb, buy)) by {
            if crate::prices::all_priced(ra, buy) {
                assert forall|i: int| 0 <= i < rb.len() implies crate::prices::usable_price(#[trigger] rb[i].0, buy) by {
                    assert(limit_raised(ra[i].0, rb[i].0));
                    assert(crate::prices::usable_price(ra[i].0, buy));
                }
            }
            if crate::prices::all_priced(rb, buy) {
                assert forall|i: int| 0 <= i < ra.len() implies crate::prices::usable_price(#[trigger] ra[i].0, buy) by {
                    assert(limit_raised(ra[i].0, rb[i].0));
                    assert(crate::prices::usable_price(rb[i].0, buy));
                }
            }
        }
        if crate::prices::all_priced(ra, buy) {
            let la = crate::prices::priced(ra, buy);
            let lb = crate::prices::priced(rb, buy);
            assert forall|i: int| 0 <= i < la.len() implies la[i].1 == lb[i].1 && limit_raised(#[trigger] la[i].0, lb[i].0) by {
                assert(limit_raised(ra[i].0, rb[i].0));
            }
            assert(details(la) =~= details(lb));
        }
    }
}

/// Raising the purchase limit of items in the catalogue, all else equal,
/// never lowers the number of executions planned for a recipe, nor changes
/// whether it has an overview.
pub proof fn raising_catalogue_limits_never_lowers_the_count(
    handle: PriceHandle,
    raised: PriceHandle,
    recipe: Recipe,
    time_type: TimeType,
)
    requires
        0 <= handle.coins,
        raised.coins == handle.coins,
        raised.all_items.items@.len() == handle.all_items.items@.len(),
        forall|i: int|
            0 <= i < handle.all_items.items@.len() ==> limit_raised(#[trigger] handle.all_items.items@[i], raised.all_items.items@[i]),
    ensures
        handle.overview_of(recipe, time_type) is Some <==> raised.overview_of(recipe, time_type) is Some,
        handle.overview_of(recipe, time_type) matches Some(a) ==> raised.overview_of(recipe, time_type) matches Some(b)
            && b.0.number >= a.0.number,
{
    let a = handle.all_items.items@;
    let b = raised.all_items.items@;
    lemma_priced_raised(a, b, recipe.inputs@, true);
    lemma_priced_raised(a, b, recipe.outputs@, false);
    if let Some(p) = recipe.pay_once {
        lemma_priced_raised(a, b, p@, true);
    }
    let ia = resolve_priced(a, recipe.inputs@, true);
    let ib = resolve_priced(b, recipe.inputs@, true);
    let oa = resolve_priced(a, recipe.outputs@, false);
    let ob = resolve_priced(b, recipe.outputs@, false);
    if ia is Some && oa is Some {
        let pa = match recipe.pay_once {
            Some(p) => resolve_priced(a, p@, true),
            None => None,
        };
        let pb = match recipe.pay_once {
            Some(p) => resolve_priced(b, p@, true),
            None => None,
        };
        let la = ia.unwrap();
        let lb = ib.unwrap();
        assert forall|i: int| 0 <= i < la.len() implies (#[trigger] la[i]).1 == lb[i].1 && limit_not_lower(
            la[i].0.limit,
            lb[i].0.limit,
        ) by {
            assert(limit_raised(la[i].0, lb[i].0));
            assert(details(la)[i] == details(lb)[i]);
        }
        if !(recipe.pay_once is Some && pa is None) {
            lemma_scenario_limit_monotone(
                recipe.name,
                pa,
                pb,
                la,
                lb,
                oa.unwrap(),
                ob.unwrap(),
                recipe.time,
                recipe.number_per_hour,
                handle.coins as int,
                time_type,
            );
        }
    }
}

} // verus!

verus! {

/// The visibility rule as the ranking applies it to a recipe that has an
/// overview and passes the membership filter: a row that cannot be afforded,
/// or makes no profit when profit is required, is left out, or kept with its
/// name marked when hidden rows are shown; any other row is kept unchanged.
pub proof fn visibility_of_ranked_rows(
    handle: PriceHandle,
    recipe: Recipe,
    time_type: TimeType,
    membership: crate::config::Membership,
    must_profit: bool,
    show_hidden: bool,
)
    requires
        handle.overview_of(recipe, time_type) is Some,
        !crate::ranking::membership_skips(membership, recipe.members),
    ensures
        ({
            let (row, (cost, _)) = handle.overview_of(recipe, time_type).unwrap();
            let flagged = handle.coins < cost || (must_profit && row.loss_gain_spec() <= 0);
            let kept = handle.candidate(recipe, time_type, membership, must_profit, show_hidden);
            &&& flagged && !show_hidden ==> kept is None
            &&& flagged && show_hidden ==> kept == Some(crate::ranking::marked(row@))
            &&& !flagged ==> kept == Some(row@)
        }),
{
}

proof fn lemma_single_price_sum_monotone(a: Seq<(String, i32, u32)>, b: Seq<(String, i32, u32)>)
    requires
        a.len() == b.len(),
        forall|i: int| 0 <= i < a.len() ==> (#[trigger] a[i]).2 == b[i].2 && 0 <= a[i].1 <= b[i].1,
    ensures
        crate::types::single_price_sum(a) <= crate::types::single_price_sum(b),
    decreases a.len(),
{
    if a.len() > 0 {
        let n = a.len() - 1;
        assert(a[n].2 == b[n].2 && 0 <= a[n].1 <= b[n].1);
        lemma_single_price_sum_monotone(a.drop_last(), b.drop_last());
        let (pa, q) = (a.last().1, a.last().2);
        let pb = b.last().1;
        assert(0 <= pa * q <= pb * q) by (nonlinear_arith)
            requires 0 <= pa <= pb, q >= 0;
        vstd::arithmetic::div_mod::lemma_div_is_ordered(pa * q, pb * q, 1000);
    }
}

/// On itemized lines too, a non-negative margin never lowers the price of
/// one execution's inputs and never raises that of its outputs (whose
/// quoted prices are at least one).
pub proof fn margin_moves_itemized_prices(
    inputs: Seq<(String, i32, u32)>,
    outputs: Seq<(String, i32, u32)>,
    margin: int,
)
    requires
        margin >= 0,
        forall|i: int| 0 <= i < inputs.len() ==> (#[trigger] inputs[i]).1 >= 0,
        forall|i: int| 0 <= i < outputs.len() ==> (#[trigger] outputs[i]).1 >= 1,
    ensures
        crate::types::single_price_sum(crate::results_writer::adjusted_details(inputs, margin, true))
            >= crate::types::single_price_sum(inputs),
        crate::types::single_price_sum(crate::results_writer::adjusted_details(outputs, margin, false))
            <= crate::types::single_price_sum(outputs),
{
    let ai = crate::results_writer::adjusted_details(inputs, margin, true);
    assert forall|i: int| 0 <= i < inputs.len() implies (#[trigger] inputs[i]).2 == ai[i].2 && 0 <= inputs[i].1 <= ai[i].1 by {
        lemma_adjusted_buy(inputs[i].1 as int, margin);
    }
    lemma_single_price_sum_monotone(inputs, ai);
    let ao = crate::results_writer::adjusted_details(outputs, margin, false);
    assert forall|i: int| 0 <= i < ao.len() implies (#[trigger] ao[i]).2 == outputs[i].2 && 0 <= ao[i].1 <= outputs[i].1 by {
        lemma_adjusted_sell(outputs[i].1 as int, margin);
    }
    lemma_single_price_sum_monotone(ao, outputs);
}

/// A breakdown built with no margin from prices of at least one shows each
/// number of its base scenario beside an equal adjusted one: its merged rows
/// pair every base row with itself.
pub proof fn zero_margin_breakdown_repeats_the_base(
    handle: PriceHandle,
    recipe: Recipe,
    time_type: TimeType,
    table: crate::types::DetailedTable,
)
    requires
        handle.pmargin == 0,
        table.percent_margin == handle.pmargin,
        handle.lookup_of(recipe, time_type) == Some((table.overview, table.adjusted)),
        handle.priced_lists(recipe) matches Some((pay_once, inputs, outputs)) && {
            &&& priced_at_least_one(inputs)
            &&& priced_at_least_one(outputs)
            &&& pay_once matches Some(p) ==> priced_at_least_one(p)
            &&& table.inputs.inputs@ == crate::breakdown::detail_rows(inputs)
            &&& table.outputs@ == crate::breakdown::detail_rows(outputs)
            &&& match pay_once {
                Some(p) => table.inputs.pay_once matches Some(v) && v@ == crate::breakdown::detail_rows(p),
                None => table.inputs.pay_once is None,
            }
        },
    ensures
        ({
            let headers = Seq::new(
                crate::results_writer::NUM_SECTION_HEADERS as nat,
                |i: int| crate::results_writer::section_header(i, 0),
            );
            let pay_once = match table.inputs.pay_once {
                Some(p) => Some(p@),
                None => None,
            };
            let base = crate::results_writer::section_rows(headers, table.overview@, pay_once, table.inputs.inputs@, table.outputs@);
            crate::results_writer::breakdown_rows(table) == crate::results_writer::merged_rows(base, base)
        }),
{
    zero_margin_reproduces_the_base_scenario(handle, recipe, time_type);
    let (pay_once, inputs, outputs) = handle.priced_lists(recipe).unwrap();
    let di = crate::breakdown::detail_rows(inputs);
    let dout = crate::breakdown::detail_rows(outputs);
    assert forall|i: int| 0 <= i < di.len() implies (#[trigger] di[i]).1 >= 1 by {
        assert(inputs[i].1.0 >= 1);
    }
    assert forall|i: int| 0 <= i < dout.len() implies (#[trigger] dout[i]).1 >= 1 by {
        assert(outputs[i].1.0 >= 1);
    }
    if let Some(p) = pay_once {
        let dp = crate::breakdown::detail_rows(p);
        assert forall|i: int| 0 <= i < dp.len() implies (#[trigger] dp[i]).1 >= 1 by {
            assert(p[i].1.0 >= 1);
        }
    }
    zero_margin_rows_repeat_the_base(table);
}

} // verus!

verus! {

proof fn lemma_without_commas_concat(a: Seq<char>, b: Seq<char>)
    ensures
        crate::helpers::without_commas(a + b) == crate::helpers::without_commas(a) + crate::helpers::without_commas(b),
    decreases b.len(),
{
    if b.len() == 0 {
        assert(a + b =~= a);
        assert(crate::helpers::without_commas(a) + crate::helpers::without_commas(b) =~= crate::helpers::without_commas(a));
    } else {
        lemma_without_commas_concat(a, b.drop_last());
        assert((a + b).drop_last() =~= a + b.drop_last());
        assert((a + b).last() == b.last());
        if b.last() != ',' {
            assert(crate::helpers::without_commas(a) + crate::helpers::without_commas(b.drop_last()).push(b.last())
                =~= (crate::helpers::without_commas(a) + crate::helpers::without_commas(b.drop_last())).push(b.last()));
        }
    }
}

proof fn lemma_digit_value(d: nat)
    requires
        d < 10,
    ensures
        crate::helpers::is_digit(crate::helpers::digit(d)),
        (crate::helpers::digit(d) as u32) - ('0' as u32) == d,
        crate::helpers::digit(d) != ',',
{
}

/// The decimal digits of `n` are digits, hold no comma, and spell `n`.
proof fn lemma_decimal_reads_back(n: nat)
    ensures
        crate::helpers::decimal(n).len() > 0,
        forall|i: int| 0 <= i < crate::helpers::decimal(n).len() ==> crate::helpers::is_digit(
            #[trigger] crate::helpers::decimal(n)[i],
        ),
        crate::helpers::without_commas(crate::helpers::decimal(n)) == crate::helpers::decimal(n),
        crate::helpers::digits_value(crate::helpers::decimal(n)) == n,
    decreases n,
{
    reveal_with_fuel(crate::helpers::without_commas, 2);
    reveal_with_fuel(crate::helpers::digits_value, 2);
    let s = crate::helpers::decimal(n);
    if n < 10 {
        lemma_digit_value(n);
        assert(s.drop_last() =~= Seq::<char>::empty());
        assert(s.last() == crate::helpers::digit(n));
    } else {
        lemma_decimal_reads_back(n / 10);
        lemma_digit_value(n % 10);
        let t = crate::helpers::decimal(n / 10);
        assert(s.drop_last() =~= t);
        assert(s.last() == crate::helpers::digit(n % 10));
        assert(crate::helpers::without_commas(s) == crate::helpers::without_commas(t).push(s.last()));
        assert(crate::helpers::without_commas(s) =~= s);
        assert forall|i: int| 0 <= i < s.len() implies crate::helpers::is_digit(#[trigger] s[i]) by {
            if i < t.len() {
                assert(s[i] == t[i]);
            }
        }
    }
}

/// Grouping the digits by commas and then dropping the commas gives the
/// plain digits.
proof fn lemma_grouped_without_commas(n: nat)
    ensures
        crate::helpers::without_commas(crate::helpers::grouped(n)) == crate::helpers::decimal(n),
    decreases n,
{
    lemma_decimal_reads_back(n);
    reveal_with_fuel(crate::helpers::without_commas, 5);
    if n >= 1000 {
        let k = n % 1000;
        lemma_grouped_without_commas(n / 1000);
        let tail = seq![',', crate::helpers::digit(k / 100), crate::helpers::digit((k / 10) % 10), crate::helpers::digit(k % 10)];
        lemma_without_commas_concat(crate::helpers::grouped(n / 1000), tail);
        lemma_digit_value(k / 100);
        lemma_digit_value((k / 10) % 10);
        lemma_digit_value(k % 10);
        let digits = seq![crate::helpers::digit(k / 100), crate::helpers::digit((k / 10) % 10), crate::helpers::digit(k % 10)];
        assert(tail.drop_last().drop_last().drop_last().drop_last() =~= Seq::<char>::empty());
        assert(tail.drop_last().drop_last().drop_last() =~= seq![',']);
        assert(tail.drop_last().drop_last() =~= seq![',', crate::helpers::digit(k / 100)]);
        assert(tail.drop_last() =~= seq![',', crate::helpers::digit(k / 100), crate::helpers::digit((k / 10) % 10)]);
        assert(crate::helpers::without_commas(seq![',']) =~= Seq::<char>::empty()) by {
            assert(seq![','].drop_last() =~= Seq::<char>::empty());
        }
        assert(crate::helpers::without_commas(tail) =~= digits);
        // The last three digits of n, then those of n / 1000.
        assert(n / 10 / 10 / 10 == n / 1000) by {
            vstd::arithmetic::div_mod::lemma_div_denominator(n as int, 10, 10);
            vstd::arithmetic::div_mod::lemma_div_denominator(n as int, 100, 10);
        }
        assert(n % 10 == k % 10 && (n / 10) % 10 == (k / 10) % 10 && (n / 100) % 10 == k / 100) by (nonlinear_arith)
            requires k == n % 1000, n >= 1000;
        assert(n / 10 / 10 == n / 100) by {
            vstd::arithmetic::div_mod::lemma_div_denominator(n as int, 10, 10);
        }
        let d = crate::helpers::decimal(n);
        assert(d == crate::helpers::decimal(n / 10).push(crate::helpers::digit(n % 10)));
        assert(crate::helpers::decimal(n / 10) == crate::helpers::decimal(n / 10 / 10).push(crate::helpers::digit((n / 10) % 10)));
        assert(crate::helpers::decimal(n / 10 / 10) == crate::helpers::decimal(n / 10 / 10 / 10).push(
            crate::helpers::digit((n / 10 / 10) % 10),
        ));
        assert(d =~= crate::helpers::decimal(n / 1000) + digits);
    }
}

/// An `i32` written with grouping commas reads back as itself.
pub proof fn comma_strings_read_back(n: int)
    requires
        i32::MIN <= n <= i32::MAX,
    ensures
        crate::helpers::parsed_i32(crate::helpers::without_commas(crate::helpers::comma_string(n))) == Some(n),
{
    reveal_with_fuel(crate::helpers::without_commas, 2);
    let m: nat = if n < 0 { (-n) as nat } else { n as nat };
    lemma_grouped_without_commas(m);
    lemma_decimal_reads_back(m);
    let d = crate::helpers::decimal(m);
    if n < 0 {
        lemma_without_commas_concat(seq!['-'], crate::helpers::grouped(m));
        assert(seq!['-'].drop_last() =~= Seq::<char>::empty());
        assert(crate::helpers::without_commas(seq!['-']) =~= seq!['-']);
        let s = seq!['-'] + d;
        assert(s.drop_first() =~= d);
    } else {
        assert(crate::helpers::is_digit(d[0]));
    }
}

} // verus!

verus! {

/// Whether some entry of `p` is `k`.
pub open spec fn hits(p: Seq<int>, k: int) -> bool {
    exists|i: int| 0 <= i < p.len() && p[i] == k
}

/// A permutation of the positions below `n` reaches each of them.
proof fn lemma_permutation_onto(p: Seq<int>, n: nat)
    requires
        crate::pareto_sort::is_permutation(p, n),
    ensures
        forall|k: int| 0 <= k < n ==> #[trigger] hits(p, k),
{
    assert(p.no_duplicates()) by {
        assert forall|i: int, j: int| 0 <= i < p.len() && 0 <= j < p.len() && i != j implies p[i] != p[j] by {
            if i < j {
                assert(p[i] != p[j]);
            } else {
                assert(p[j] != p[i]);
            }
        }
    }
    p.unique_seq_to_set();
    vstd::set_lib::lemma_int_range(0, n as int);
    let range = vstd::set_lib::set_int_range(0, n as int);
    assert(p.to_set().subset_of(range)) by {
        assert forall|x: int| p.to_set().contains(x) implies range.contains(x) by {
            let i = choose|i: int| 0 <= i < p.len() && p[i] == x;
        }
    }
    vstd::set_lib::lemma_len_subset(p.to_set(), range);
    vstd::set_lib::lemma_subset_equality(p.to_set(), range);
    assert forall|k: int| 0 <= k < n implies #[trigger] hits(p, k) by {
        assert(range.contains(k));
        assert(p.to_set().contains(k));
    }
}

/// In a ranking of all recipes, at most one row comes from each recipe, and
/// which one follows the visibility rule: none for a recipe without an
/// overview, one left out by the membership filter, or one flagged (it cannot
/// be afforded, or makes no profit when profit is required) while hidden rows
/// are not shown; otherwise exactly one, with its name marked when it is
/// flagged and its numbers unchanged.
pub proof fn ranked_rows_follow_visibility(
    handle: PriceHandle,
    r: Seq<crate::types::OverviewRow>,
    order: crate::pareto_sort::RowOrder,
    p: Seq<int>,
    time_type: TimeType,
    membership: crate::config::Membership,
    must_profit: bool,
    show_hidden: bool,
    n: int,
)
    requires
        0 <= n < handle.recipe_list.recipes@.len(),
        crate::ranking::ranked_rearrangement(
            r,
            handle.candidates(handle.recipe_list.recipes@, time_type, membership, must_profit, show_hidden),
            order,
            p,
        ),
    ensures
        ({
            let recipes = handle.recipe_list.recipes@;
            let sources = handle.candidate_sources(recipes, time_type, membership, must_profit, show_hidden);
            &&& forall|i: int, j: int| 0 <= i < j < r.len() ==> !(sources[#[trigger] p[i]] == n && sources[#[trigger] p[j]] == n)
            &&& match handle.overview_of(recipes[n], time_type) {
                None => forall|i: int| 0 <= i < r.len() ==> sources[#[trigger] p[i]] != n,
                Some((row, (cost, _))) => {
                    let flagged = handle.coins < cost || (must_profit && row.loss_gain_spec() <= 0);
                    if crate::ranking::membership_skips(membership, recipes[n].members) || (flagged && !show_hidden) {
                        forall|i: int| 0 <= i < r.len() ==> sources[#[trigger] p[i]] != n
                    } else {
                        exists|i: int|
                            0 <= i < r.len() && sources[#[trigger] p[i]] == n && r[i]@ == (if flagged {
                                crate::ranking::marked(row@)
                            } else {
                                row@
                            })
                    }
                },
            }
        }),
{
    let recipes = handle.recipe_list.recipes@;
    let rows = handle.candidates(recipes, time_type, membership, must_profit, show_hidden);
    let sources = handle.candidate_sources(recipes, time_type, membership, must_profit, show_hidden);
    handle.lemma_candidate_sources(recipes, time_type, membership, must_profit, show_hidden);
    assert forall|i: int, j: int| 0 <= i < j < r.len() implies !(sources[#[trigger] p[i]] == n && sources[#[trigger] p[j]] == n) by {
        assert(p[i] != p[j]);
        if p[i] < p[j] {
            assert(sources[p[i]] < sources[p[j]]);
        } else {
            assert(sources[p[j]] < sources[p[i]]);
        }
    }
    let kept = handle.candidate(recipes[n], time_type, membership, must_profit, show_hidden);
    if kept is None {
        assert forall|i: int| 0 <= i < r.len() implies sources[#[trigger] p[i]] != n by {
            assert(0 <= p[i] < rows.len());
        }
    } else {
        let k = choose|k: int| 0 <= k < sources.len() && sources[k] == n;
        lemma_permutation_onto(p, rows.len());
        assert(hits(p, k));
        let i = choose|i: int| 0 <= i < p.len() && p[i] == k;
        assert(r[i]@ == rows[k]);
    }
}

} // verus!
