//! Settings that steer the engine, loaded and checked by the caller.
use vstd::prelude::*;

use crate::prices::TimeType;

verus! {

/// Which recipes take part, by their membership requirement.
#[derive(Debug, Default, Clone, Copy, PartialEq, Eq, Structural)]
pub enum Membership {
    /// Only recipes that need no membership.
    F2P,
    /// Only recipes that need a membership.
    P2P,
    #[default]
    BOTH,
}

/// Order of the recipe overview.
#[derive(Debug, Default, Clone, Copy, PartialEq, Eq, Structural)]
pub enum OverviewSortBy {
    Name,
    Profit,
    Time,
    GPH,
    #[default]
    Custom,
}

/// Which recipes to break down in detail.
#[derive(Debug)]
pub struct LookupOptions {
    /// How many of the best-ranked recipes.
    pub top: u32,
    /// Recipes to break down whatever their rank.
    pub specific: Vec<String>,
}

/// How the overview is filtered and ordered.
#[derive(Debug)]
pub struct Display {
    pub number: u32,
    pub lookup: LookupOptions,
    /// Hide recipes that make no profit.
    pub must_profit: bool,
    /// Keep hidden recipes, marked, instead of dropping them.
    pub show_hidden: bool,
    /// Reverse the natural order of the sort.
    pub reverse: bool,
    pub membership: Membership,
    pub time_type: TimeType,
    pub sort_by: OverviewSortBy,
}

} // verus!

verus! {

/// Averaging window of the price source.
#[derive(Debug, Default, Clone, Copy, PartialEq, Eq, Structural)]
pub enum TimeSpan {
    #[default]
    Latest,
    FiveMinute,
    OneHour,
}

/// Where prices are requested from.
#[derive(Debug)]
pub struct Api {
    pub url: String,
    pub timespan: TimeSpan,
    /// Header pairs sent with each request; a later pair overrides an earlier
    /// one of the same name.
    pub auth_headers: Vec<(String, String)>,
}

/// Files of lookup data.
#[derive(Debug)]
pub struct LookupDataPaths {
    pub id_to_name: String,
    pub name_to_id: String,
    pub api_mapping: String,
    pub recipes: String,
}

/// Files that results are written to.
#[derive(Debug)]
pub struct ResultsPaths {
    pub optimal: String,
    pub lookup: String,
}

#[derive(Debug)]
pub struct FilePaths {
    pub price_data: String,
    pub lookup_data: LookupDataPaths,
    pub results: ResultsPaths,
    pub main_log_file: String,
    pub bin_log_file: String,
}

/// Name of the entry that holds the total of the skill levels.
pub const TOTAL_LEVEL: &'static str = "total level";
/// Name of the entry that holds quest points, which are no skill.
pub const QUEST_POINTS: &'static str = "quest points";

/// Sum of the values of the entries.
pub open spec fn level_sum(levels: Seq<(String, u32)>) -> int
    decreases levels.len(),
{
    if levels.len() == 0 {
        0
    } else {
        level_sum(levels.drop_last()) + levels.last().1
    }
}

/// Sum of the values of the entries other than the total level and quest
/// points.
pub open spec fn skill_sum(levels: Seq<(String, u32)>) -> int
    decreases levels.len(),
{
    if levels.len() == 0 {
        0
    } else {
        let name = levels.last().0@;
        skill_sum(levels.drop_last()) + if name == TOTAL_LEVEL@ || name == QUEST_POINTS@ {
            0int
        } else {
            levels.last().1 as int
        }
    }
}

/// The player's skill levels by skill name.
#[derive(Debug)]
pub struct Levels {
    pub levels: Vec<(String, u32)>,
    pub total_level: u32,
    /// Whether a recommended level is enforced like a required one.
    pub strict_recommended: bool,
}

impl Levels {
    /// Sum of all entries.
    pub fn _init_calc_total_level(levels: &Vec<(String, u32)>) -> (r: u128)
        ensures
            r == level_sum(levels@),
    {
        let mut total: u128 = 0;
        let mut i: usize = 0;
        while i < levels.len()
            invariant
                i <= levels@.len(),
                total == level_sum(levels@.take(i as int)),
                total <= i * 0xffff_ffff,
            decreases levels@.len() - i,
        {
            assert(levels@.take(i + 1).drop_last() =~= levels@.take(i as int));
            assert(levels@.take(i + 1).last() == levels@[i as int]);
            total = total + levels[i].1 as u128;
            i = i + 1;
        }
        assert(levels@.take(i as int) =~= levels@);
        total
    }

    /// Sum of the skill levels, leaving out the entries of the total level
    /// and of quest points.
    pub fn calc_total_level(&self) -> (r: u128)
        ensures
            r == skill_sum(self.levels@),
    {
        let mut total: u128 = 0;
        let mut i: usize = 0;
        while i < self.levels.len()
            invariant
                i <= self.levels@.len(),
                total == skill_sum(self.levels@.take(i as int)),
                total <= i * 0xffff_ffff,
            decreases self.levels@.len() - i,
        {
            assert(self.levels@.take(i + 1).drop_last() =~= self.levels@.take(i as int));
            assert(self.levels@.take(i + 1).last() == self.levels@[i as int]);
            if !(self.levels[i].0 == String::from_str(TOTAL_LEVEL) || self.levels[i].0 == String::from_str(QUEST_POINTS)) {
                total = total + self.levels[i].1 as u128;
            }
            i = i + 1;
        }
        assert(self.levels@.take(i as int) =~= self.levels@);
        total
    }

    /// Levels with their total added as an entry of its own.
    pub fn new(levels: Vec<(String, u32)>, strict_recommended: bool) -> (r: Self)
        requires
            level_sum(levels@) <= u32::MAX,
        ensures
            r.total_level == level_sum(levels@),
            r.levels@.len() == levels@.len() + 1,
            r.levels@.take(levels@.len() as int) == levels@,
            r.levels@.last().0@ == TOTAL_LEVEL@,
            r.levels@.last().1 == r.total_level,
            r.strict_recommended == strict_recommended,
    {
        let total_level: u32 = Levels::_init_calc_total_level(&levels) as u32;
        let mut levels = levels;
        let ghost before = levels@;
        levels.push((String::from_str(TOTAL_LEVEL), total_level));
        assert(levels@.take(before.len() as int) =~= before);
        Levels { levels, total_level, strict_recommended }
    }
}

} // verus!
