use osrs_gph::config::{Display, LookupOptions, Membership, OverviewSortBy};
use osrs_gph::item_search::{Item, ItemSearch, PriceDatum};
use osrs_gph::prices::{PriceHandle, TimeType};
use osrs_gph::recipes::{Ingredient, Recipe, RecipeBook, RecipeTime};
use osrs_gph::types::ExecTime;

fn item(name: &str, high: i32, low: i32, limit: Option<i32>) -> Item {
    let prices = PriceDatum { high: Some(high), high_time: Some(0), low: Some(low), low_time: Some(0) };
    Item::new(name.to_string(), name.to_string(), prices, None, limit, false)
}

fn ingredient(name: &str, quantity: u32) -> Ingredient {
    Ingredient::new(name.to_string(), quantity * 1_000)
}

fn catalogue() -> ItemSearch {
    ItemSearch::new(
        vec![
            item("Clay", 100, 95, Some(13_000)),
            item("Soft clay", 500, 480, None),
            item("Astral rune", 150, 140, Some(40_000)),
            item("Water rune", 5, 4, None),
            item("Ore", 1_000, 900, Some(400)),
            item("Bar", 1_500, 1_450, None),
            item("Hammer", 20, 15, None),
        ],
        vec![],
        vec![],
    )
}

fn humidify() -> Recipe {
    let mut recipe = Recipe::new(
        "Humidify Clay".to_string(),
        vec![ingredient("Clay", 27), ingredient("Astral rune", 1), ingredient("Water rune", 3)],
        vec![ingredient("Soft clay", 27)],
        RecipeTime::from_ticks(6),
    );
    recipe.members = true;
    recipe
}

fn smelt() -> Recipe {
    let mut recipe = Recipe::new(
        "Smelt".to_string(),
        vec![ingredient("Ore", 1)],
        vec![ingredient("Bar", 1)],
        RecipeTime::from_ticks(4),
    );
    recipe.pay_once = Some(vec![ingredient("Hammer", 1)]);
    recipe
}

fn handle(coins: i32, margin: u32) -> PriceHandle {
    let mut book = RecipeBook::new();
    book.add_recipe(humidify());
    book.add_recipe(smelt());
    PriceHandle::new(catalogue(), book, coins, margin)
}

fn display(sort_by: OverviewSortBy, reverse: bool) -> Display {
    Display {
        number: 0,
        lookup: LookupOptions { top: 3, specific: vec![] },
        must_profit: true,
        show_hidden: false,
        reverse,
        membership: Membership::BOTH,
        time_type: TimeType::SingleHour,
        sort_by,
    }
}

#[test]
fn humidify_overview() {
    let h = handle(2_000_000, 250);
    let (row, (cost, revenue)) = h.recipe_price_overview_from_recipe(&humidify(), TimeType::SingleHour).unwrap();
    // 27 x 100 + 150 + 3 x 5
    assert_eq!(cost, 2_865);
    // 27 x 480 = 12,960, taxed 2% = 259
    assert_eq!(revenue, 12_701);
    assert_eq!(row.profit, 9_836);
    assert_eq!(row.time, Some(ExecTime::Millis(3_600)));
    // 1,000 per hour by time, 698 by capital; the clay limit allows 481 per
    // four hours, 120 in one.
    assert_eq!(row.number, 120);
    assert_eq!(row.pay_once_total, None);
}

#[test]
fn pay_once_items_are_totalled() {
    let h = handle(2_000_000, 250);
    let (row, (cost, revenue)) = h.recipe_price_overview_from_recipe(&smelt(), TimeType::SingleHour).unwrap();
    assert_eq!(cost, 1_000);
    assert_eq!(revenue, 1_450 - 29);
    assert_eq!(row.pay_once_total, Some(20));
    assert_eq!(row.loss_gain(), 421 - 20);
    // the ore limit of 400 allows 100 in one hour
    assert_eq!(row.number, 100);
}

#[test]
fn unresolvable_ingredient_gives_no_overview() {
    let h = handle(2_000_000, 250);
    let recipe = Recipe::new(
        "Mystery".to_string(),
        vec![ingredient("Unobtainium", 1)],
        vec![ingredient("Bar", 1)],
        RecipeTime::from_ticks(4),
    );
    assert!(h.recipe_price_overview_from_recipe(&recipe, TimeType::SingleHour).is_none());
    assert!(h.recipe_lookup_from_recipe(&recipe, TimeType::SingleHour).is_none());
}

#[test]
fn recipe_without_time_gives_no_overview() {
    let h = handle(2_000_000, 250);
    let recipe = Recipe::new("Idle".to_string(), vec![ingredient("Ore", 1)], vec![ingredient("Bar", 1)], RecipeTime::INVALID);
    assert!(h.recipe_price_overview_from_recipe(&recipe, TimeType::SingleHour).is_none());
}

#[test]
fn user_rate_stands_in_for_missing_time() {
    let h = handle(2_000_000, 250);
    let mut recipe = Recipe::new("Rated".to_string(), vec![ingredient("Water rune", 1)], vec![ingredient("Bar", 1)], RecipeTime::INVALID);
    recipe.number_per_hour = Some(50);
    let (row, _) = h.recipe_price_overview_from_recipe(&recipe, TimeType::MaxHours).unwrap();
    assert_eq!(row.time, Some(ExecTime::PerHour(50)));
    // capital allows 400,000; the session of six hours allows 300
    assert_eq!(row.number, 300);
}

#[test]
fn longer_of_time_and_rate_is_used() {
    let h = handle(2_000_000, 250);
    let mut recipe = Recipe::new("Slow".to_string(), vec![ingredient("Water rune", 1)], vec![ingredient("Bar", 1)], RecipeTime::from_ticks(1));
    recipe.number_per_hour = Some(100);
    let (row, _) = h.recipe_price_overview_from_recipe(&recipe, TimeType::SingleHour).unwrap();
    assert_eq!(row.time, Some(ExecTime::PerHour(100)));
    assert_eq!(row.number, 100);
}

#[test]
fn raising_a_buy_limit_never_lowers_the_number() {
    let low = handle(2_000_000, 250);
    let mut high = handle(2_000_000, 250);
    high.all_items.items[4].limit = Some(4_000);
    let (a, _) = low.recipe_price_overview_from_recipe(&smelt(), TimeType::SingleHour).unwrap();
    let (b, _) = high.recipe_price_overview_from_recipe(&smelt(), TimeType::SingleHour).unwrap();
    assert_eq!(a.number, 100);
    assert_eq!(b.number, 1_000);
    assert!(b.number >= a.number);
}

#[test]
fn missing_price_gives_no_overview() {
    let mut h = handle(2_000_000, 250);
    h.all_items.items[4].item_prices.high = None;
    assert!(h.recipe_price_overview_from_recipe(&smelt(), TimeType::SingleHour).is_none());
}

#[test]
fn margin_breakdown_moves_cost_up_and_revenue_down() {
    let h = handle(2_000_000, 250);
    let table = h.recipe_lookup_from_recipe(&humidify(), TimeType::SingleHour).unwrap();
    assert_eq!(table.percent_margin, 250);
    assert_eq!(table.overview.profit, 9_836);
    // clay 102, astral 153, water 5: cost 2,922; soft clay 468 x 27 = 12,636, taxed 12,384
    assert_eq!(table.adjusted.profit, 12_384 - 2_922);
    assert!(table.adjusted.profit < table.overview.profit);
    assert_eq!(table.inputs.inputs.len(), 3);
    assert_eq!(table.outputs[0], ("Soft clay".to_string(), 480, 27_000));
}

#[test]
fn zero_margin_breakdown_matches_base() {
    let h = handle(2_000_000, 0);
    let table = h.recipe_lookup_from_recipe(&smelt(), TimeType::MaxHours).unwrap();
    assert_eq!(table.adjusted.profit, table.overview.profit);
    assert_eq!(table.adjusted.number, table.overview.number);
    assert_eq!(table.adjusted.pay_once_total, table.overview.pay_once_total);
    let (row, _) = h.recipe_price_overview_from_recipe(&smelt(), TimeType::MaxHours).unwrap();
    assert_eq!(row.number, table.overview.number);
}

#[test]
fn ranking_by_profit_highest_first() {
    let h = handle(2_000_000, 250);
    let rows = h.all_recipe_overview(&OverviewSortBy::Profit, &[0, 0, 0, 0], &display(OverviewSortBy::Profit, false)).unwrap();
    let names: Vec<&str> = rows.iter().map(|r| r.name.as_str()).collect();
    assert_eq!(names, vec!["Humidify Clay", "Smelt"]);
    let reversed = h.all_recipe_overview(&OverviewSortBy::Profit, &[0, 0, 0, 0], &display(OverviewSortBy::Profit, true)).unwrap();
    assert_eq!(reversed[0].name, "Smelt");
}

#[test]
fn ranking_by_name() {
    let h = handle(2_000_000, 250);
    let rows = h.all_recipe_overview(&OverviewSortBy::Name, &[0, 0, 0, 0], &display(OverviewSortBy::Name, true)).unwrap();
    assert_eq!(rows[0].name, "Smelt");
    assert_eq!(rows[1].name, "Humidify Clay");
}

#[test]
fn ranking_by_custom_score() {
    let h = handle(2_000_000, 250);
    // score by time only: Humidify 0.12 h, Smelt 0.07 h; ascending unless reversed
    let rows = h.all_recipe_overview(&OverviewSortBy::Custom, &[0, 0, 1, 0], &display(OverviewSortBy::Custom, false)).unwrap();
    assert_eq!(rows[0].name, "Smelt");
    let rows = h.all_recipe_overview(&OverviewSortBy::Custom, &[0, 0, 1, 0], &display(OverviewSortBy::Custom, true)).unwrap();
    assert_eq!(rows[0].name, "Humidify Clay");
}

#[test]
fn membership_filter() {
    let h = handle(2_000_000, 250);
    let mut options = display(OverviewSortBy::Name, false);
    options.membership = Membership::F2P;
    let rows = h.all_recipe_overview(&OverviewSortBy::Name, &[0, 0, 0, 0], &options).unwrap();
    assert_eq!(rows.len(), 1);
    assert_eq!(rows[0].name, "Smelt");
    options.membership = Membership::P2P;
    let rows = h.all_recipe_overview(&OverviewSortBy::Name, &[0, 0, 0, 0], &options).unwrap();
    assert_eq!(rows[0].name, "Humidify Clay");
}

#[test]
fn unaffordable_rows_are_hidden_or_marked() {
    let h = handle(2_000, 250);
    let rows = h.all_recipe_overview(&OverviewSortBy::Name, &[0, 0, 0, 0], &display(OverviewSortBy::Name, false)).unwrap();
    assert_eq!(rows.len(), 1);
    assert_eq!(rows[0].name, "Smelt");
    let mut options = display(OverviewSortBy::Name, false);
    options.show_hidden = true;
    let rows = h.all_recipe_overview(&OverviewSortBy::Name, &[0, 0, 0, 0], &options).unwrap();
    assert_eq!(rows[0].name, "Humidify Clay *");
}

#[test]
fn execution_longer_than_a_session_is_done_once() {
    let h = handle(1_000, 250);
    let recipe = Recipe::new(
        "Marathon".to_string(),
        vec![ingredient("Water rune", 1)],
        vec![],
        RecipeTime::Time(30_000_000),
    );
    let (row, _) = h.recipe_price_overview_from_recipe(&recipe, TimeType::MaxHours).unwrap();
    assert_eq!(row.number, 1);
}

#[test]
fn ties_keep_catalogue_order_in_both_directions() {
    let h = handle(2_000_000, 250);
    for reverse in [false, true] {
        let rows = h.all_recipe_overview(&OverviewSortBy::Custom, &[0, 0, 0, 0], &display(OverviewSortBy::Custom, reverse)).unwrap();
        let names: Vec<&str> = rows.iter().map(|r| r.name.as_str()).collect();
        assert_eq!(names, vec!["Humidify Clay", "Smelt"]);
    }
}

#[test]
fn nothing_to_rank_fails_the_batch() {
    let mut book = RecipeBook::new();
    book.add_recipe(Recipe::new(
        "Mystery".to_string(),
        vec![ingredient("Unobtainium", 1)],
        vec![ingredient("Bar", 1)],
        RecipeTime::from_ticks(4),
    ));
    let h = PriceHandle::new(catalogue(), book, 2_000_000, 250);
    assert!(h.all_recipe_overview(&OverviewSortBy::Name, &[0, 0, 0, 0], &display(OverviewSortBy::Name, false)).is_none());
    let empty = PriceHandle::new(catalogue(), RecipeBook::new(), 2_000_000, 250);
    assert!(empty.all_recipe_overview(&OverviewSortBy::Name, &[0, 0, 0, 0], &display(OverviewSortBy::Name, false)).is_none());
}
