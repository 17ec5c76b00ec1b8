use osrs_gph::api::{Api, ApiHeaders, MappingItem, Timespan};
use osrs_gph::config::{Api as ApiConfig, Levels, TimeSpan};
use osrs_gph::file_io::FileOptions;
use osrs_gph::item_search::{Item, ItemSearch, PriceDataType, PriceDatum};
use osrs_gph::recipes::{Ingredient, Recipe, RecipeBook, RecipeTime};

fn datum(high: i32, low: i32) -> PriceDatum {
    PriceDatum { high: Some(high), high_time: Some(1), low: Some(low), low_time: Some(2) }
}

fn pairs(list: &[(&str, &str)]) -> Vec<(String, String)> {
    list.iter().map(|(a, b)| (a.to_string(), b.to_string())).collect()
}

fn search() -> ItemSearch {
    ItemSearch::new(
        vec![],
        pairs(&[("Coins", "995"), ("Clay", "434"), ("Soft clay", "1761")]),
        pairs(&[("995", "Coins"), ("434", "Clay"), ("1761", "Soft clay")]),
    )
}

#[test]
fn price_entries_become_items() {
    let mut s = search();
    let data = PriceDataType {
        data: vec![("434".to_string(), datum(100, 95)), ("9999".to_string(), datum(1, 1)), ("434".to_string(), datum(110, 99))],
    };
    s.update_item_prices(data);
    assert_eq!(s.items.len(), 1);
    let clay = s.item_by_name(&"Clay".to_string()).unwrap();
    assert_eq!(clay.price(true), Some(110));
    assert_eq!(clay.price(false), Some(99));
    assert!(clay.members);
    assert_eq!(s.item_by_id(&"434".to_string()).unwrap().name, "Clay");
    assert!(s.item_by_id(&"9999".to_string()).is_none());
}

#[test]
fn coins_are_priced_at_one() {
    let mut s = search();
    s.add_special_price_values();
    let coins = s.item_by_name(&"Coins".to_string()).unwrap();
    assert_eq!(coins.item_id, "995");
    assert_eq!(coins.price(true), Some(1));
    assert_eq!(coins.price(false), Some(1));
    assert!(!coins.invalid_data());
}

#[test]
fn ignored_items_are_removed() {
    let mut s = search();
    s.update_item_prices(PriceDataType { data: vec![("434".to_string(), datum(100, 95)), ("1761".to_string(), datum(500, 480))] });
    let removed = s.ignore_items(&vec!["Clay".to_string(), "Nothing".to_string()]);
    assert_eq!(removed, 1);
    assert!(s.item_by_name(&"Clay".to_string()).is_none());
    assert!(s.item_by_name(&"Soft clay".to_string()).is_some());
}

#[test]
fn mapping_sets_limits() {
    let mut s = search();
    s.update_item_prices(PriceDataType { data: vec![("434".to_string(), datum(100, 95))] });
    let mapping = vec![MappingItem {
        highalch: 3,
        members: false,
        name: "Clay".to_string(),
        examine: String::new(),
        id: 434,
        value: 1,
        icon: String::new(),
        lowalch: 2,
        limit: Some(13_000),
    }];
    assert!(s.mapping_covers(&mapping));
    s.update_item_extra_info(&mapping);
    let clay = s.item_by_name(&"Clay".to_string()).unwrap();
    assert_eq!(clay.limit, Some(13_000));
    assert!(!clay.members);
    assert_eq!(clay.alchable.unwrap().highalch, 3);
    assert!(!s.mapping_covers(&vec![]));
}

#[test]
fn invalid_price_data() {
    let partial = PriceDatum { high: Some(1), high_time: None, low: Some(1), low_time: Some(1) };
    assert!(partial.invalid_data());
    let item = Item::new("Clay".to_string(), "434".to_string(), partial, None, None, false);
    assert!(item.invalid_data());
    let tuple = item.price_tuple();
    assert_eq!(tuple[0], ("high".to_string(), Some(1)));
    assert_eq!(tuple[1], ("low".to_string(), Some(1)));
}

fn recipe(name: &str, time: RecipeTime) -> Recipe {
    Recipe::new(name.to_string(), vec![Ingredient::new("Clay".to_string(), 1_000)], vec![], time)
}

#[test]
fn recipe_book_loading() {
    let mut book = RecipeBook::new();
    let mut rated = recipe("Rated", RecipeTime::INVALID);
    rated.number_per_hour = Some(10);
    let skipped = book.load_default_recipes(vec![
        recipe("Template", RecipeTime::from_ticks(1)),
        recipe("Idle", RecipeTime::INVALID),
        recipe("Fast", RecipeTime::from_ticks(1)),
        rated,
        recipe("Fast", RecipeTime::from_ticks(2)),
    ]);
    assert_eq!(skipped, 1);
    assert_eq!(book.len(), 2);
    assert!(book.get_recipe(&"Template".to_string()).is_none());
    assert!(book.get_recipe(&"Idle".to_string()).is_none());
    assert_eq!(book.get_recipe(&"Fast".to_string()).unwrap().time, RecipeTime::Time(1_200));
    book.ignore_recipes(&vec!["Rated".to_string()]);
    assert_eq!(book.len(), 1);
    let removed = book.remove_recipe(&"Fast".to_string());
    assert!(removed.is_some());
    assert!(book.is_empty());
}

#[test]
fn replacing_a_recipe_returns_the_old_one() {
    let mut book = RecipeBook::new();
    assert!(book.add_recipe(recipe("A", RecipeTime::from_ticks(1))).is_none());
    let old = book.add_recipe(recipe("A", RecipeTime::from_ticks(3))).unwrap();
    assert_eq!(old.time, RecipeTime::Time(600));
    assert_eq!(book.len(), 1);
    assert!(recipe("A", RecipeTime::from_ticks(3)).isvalid());
    assert!(!recipe("A", RecipeTime::INVALID).isvalid());
}

#[test]
fn api_settings() {
    let config = ApiConfig {
        url: "https://prices.example".to_string(),
        timespan: TimeSpan::FiveMinute,
        auth_headers: pairs(&[("User-Agent", "me")]),
    };
    let mut api = Api::new(&config);
    assert_eq!(api.timespan, Timespan::Oldest(5));
    assert_eq!(api.timespan.get_endpoint(), "/5m");
    api.set_timespan(Timespan::Latest);
    assert_eq!(api.timespan.get_endpoint(), "/latest");
    assert_eq!(Timespan::from(TimeSpan::OneHour).get_endpoint(), "/1h");
    api.add_headers(pairs(&[("Accept", "json"), ("User-Agent", "you")]));
    assert_eq!(api.headers.headers.len(), 3);
    assert_eq!(api.headers.headers[2], ("User-Agent".to_string(), "you".to_string()));
    api.set_headers(ApiHeaders::new(vec![]));
    assert!(api.headers.headers.is_empty());
    assert_eq!(api.url, "https://prices.example");
}

#[test]
fn levels_total() {
    let levels = Levels::new(vec![("attack".to_string(), 50), ("magic".to_string(), 70)], true);
    assert_eq!(levels.total_level, 120);
    assert_eq!(levels.levels.len(), 3);
    assert_eq!(levels.levels[2], ("total level".to_string(), 120));
}

#[test]
fn file_options() {
    let o = FileOptions::new(true, false, true);
    assert!(o.read && !o.write && o.create);
}

#[test]
fn skill_levels_leave_out_totals() {
    let levels = Levels::new(
        vec![("attack".to_string(), 50), ("quest points".to_string(), 30), ("magic".to_string(), 70)],
        false,
    );
    assert_eq!(levels.total_level, 150);
    assert_eq!(levels.calc_total_level(), 120);
}
