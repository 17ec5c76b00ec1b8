use osrs_gph::config::Levels;
use osrs_gph::requirements::{config_has_required_levels, LevelRequirement};

#[test]
fn single_levels() {
    assert_eq!(LevelRequirement::parse_level("64"), Some((64, false, false)));
    assert_eq!(LevelRequirement::parse_level("64+"), Some((64, false, false)));
    assert_eq!(LevelRequirement::parse_level("64+ Recommended"), Some((64, true, false)));
    assert_eq!(LevelRequirement::parse_level("1,500+ [[Total level]]"), Some((1_500, false, false)));
    assert_eq!(LevelRequirement::parse_level("High"), Some((80, false, false)));
    assert_eq!(LevelRequirement::parse_level("Decent"), Some((70, false, false)));
    assert_eq!(LevelRequirement::parse_level("abc"), None);
    assert_eq!(LevelRequirement::parse_level("   "), None);
    assert_eq!(LevelRequirement::parse_level("1 2 3 4"), None);
}

#[test]
fn lists_of_levels() {
    let (levels, recommended, total) = LevelRequirement::parse_span_levels("70/80+").unwrap();
    assert_eq!(levels, vec![70, 80]);
    assert_eq!(recommended, vec![false, false]);
    assert_eq!(total, vec![false, false]);
    let (levels, recommended, _) = LevelRequirement::parse_span_levels("64 or 70 Recommended").unwrap();
    assert_eq!(levels, vec![64, 70]);
    assert_eq!(recommended, vec![false, true]);
    assert!(LevelRequirement::parse_span_levels("64/x").is_none());
}

#[test]
fn level_that_stands_for_a_requirement() {
    let req = LevelRequirement::from_span("Smithing".to_string(), Some("80 Recommended/70")).unwrap();
    assert_eq!(req.get_single_level_and_recommended(true), (80, true));
    assert_eq!(req.get_single_level_and_recommended(false), (70, false));
    assert_eq!(req.get_level(false), 70);
    assert!(!req.get_recommended(false));
    let empty = LevelRequirement::from_span("Skills".to_string(), None).unwrap();
    assert_eq!(empty.name, "Total Level");
    assert_eq!(empty.get_single_level_and_recommended(true), (0, false));
    assert_eq!(empty.get_name(), "total level");
}

#[test]
fn player_levels_against_requirements() {
    let levels = Levels::new(vec![("attack".to_string(), 60), ("smithing".to_string(), 75)], false);
    let smithing = LevelRequirement::from_span("Smithing".to_string(), Some("70")).unwrap();
    let attack = LevelRequirement::from_span("Attack".to_string(), Some("64")).unwrap();
    let magic = LevelRequirement::from_span("Magic".to_string(), Some("1")).unwrap();
    assert_eq!(config_has_required_levels(&levels, &vec![smithing], false), Some(true));
    let smithing = LevelRequirement::from_span("Smithing".to_string(), Some("70")).unwrap();
    assert_eq!(config_has_required_levels(&levels, &vec![smithing, attack], false), Some(false));
    assert_eq!(config_has_required_levels(&levels, &vec![magic], false), None);
}
