//! Filtering and ordering of the recipe overview.
use vstd::prelude::*;

use crate::config::{Display, Membership, OverviewSortBy};
use crate::pareto_sort::{
    is_permutation, key_le, lemma_numeric_key_le, name_le, optimal_sort, row_key, score, sort_rows,
    stable_rearrangement, time_key, RowOrder, Weights,
};
use crate::prices::{PriceHandle, TimeType};
use crate::recipes::Recipe;
use crate::types::{OverviewRow, RowView};

verus! {

/// Appended to the name of a row that misses the affordability or profit bar
/// but is shown anyway.
pub const HIDDEN_MARK: &'static str = " *";

/// What happens to a row of the overview.
#[derive(Debug, Clone, Copy, PartialEq, Eq, Structural)]
pub enum Visibility {
    /// Left out.
    Hidden,
    /// Shown as it is.
    Shown,
    /// Shown with its name marked.
    Marked,
}

/// A row is flagged when one execution cannot be afforded, or when it makes no
/// profit and profit is required. A flagged row is left out, or marked when
/// hidden rows are shown.
pub open spec fn visibility(cant_afford: bool, no_profit: bool, must_profit: bool, show_hidden: bool) -> Visibility {
    let flagged = cant_afford || (no_profit && must_profit);
    if !flagged {
        Visibility::Shown
    } else if show_hidden {
        Visibility::Marked
    } else {
        Visibility::Hidden
    }
}

pub fn row_visibility(cant_afford: bool, no_profit: bool, must_profit: bool, show_hidden: bool) -> (r: Visibility)
    ensures
        r == visibility(cant_afford, no_profit, must_profit, show_hidden),
{
    if (cant_afford && !show_hidden) || (no_profit && must_profit && !show_hidden) {
        Visibility::Hidden
    } else if (cant_afford && show_hidden) || (no_profit && must_profit && show_hidden) {
        Visibility::Marked
    } else {
        Visibility::Shown
    }
}

/// Whether the membership filter leaves out a recipe.
pub open spec fn membership_skips(membership: Membership, needs_members: bool) -> bool {
    match membership {
        Membership::F2P => needs_members,
        Membership::P2P => !needs_members,
        Membership::BOTH => false,
    }
}

pub fn skips_for_membership(membership: Membership, needs_members: bool) -> (r: bool)
    ensures
        r == membership_skips(membership, needs_members),
{
    match membership {
        Membership::F2P => needs_members,
        Membership::P2P => !needs_members,
        Membership::BOTH => false,
    }
}

/// A row with its name marked.
pub open spec fn marked(row: RowView) -> RowView {
    RowView {
        name: row.name + HIDDEN_MARK@,
        pay_once_total: row.pay_once_total,
        profit: row.profit,
        time: row.time,
        number: row.number,
        time_type: row.time_type,
    }
}

/// Whether row `a` may come before row `b` in the overview.
pub open spec fn in_rank_order(a: RowView, b: RowView, sort_by: OverviewSortBy, weights: Seq<i32>, reverse: bool) -> bool {
    match sort_by {
        OverviewSortBy::Name => if reverse {
            name_le(b.name, a.name)
        } else {
            name_le(a.name, b.name)
        },
        OverviewSortBy::Profit => if reverse {
            a.total_gp_spec() <= b.total_gp_spec()
        } else {
            a.total_gp_spec() >= b.total_gp_spec()
        },
        OverviewSortBy::Time => if reverse {
            time_key(a) >= time_key(b)
        } else {
            time_key(a) <= time_key(b)
        },
        OverviewSortBy::GPH => if reverse {
            a.gph_spec() <= b.gph_spec()
        } else {
            a.gph_spec() >= b.gph_spec()
        },
        OverviewSortBy::Custom => if reverse {
            score(a, weights) >= score(b, weights)
        } else {
            score(a, weights) <= score(b, weights)
        },
    }
}

/// The key each sort mode orders rows by.
pub open spec fn rank_order(sort_by: OverviewSortBy, weights: Weights) -> RowOrder {
    match sort_by {
        OverviewSortBy::Name => RowOrder::ByName,
        OverviewSortBy::Profit => RowOrder::ByTotalGp,
        OverviewSortBy::Time => RowOrder::ByTime,
        OverviewSortBy::GPH => RowOrder::ByGph,
        OverviewSortBy::Custom => RowOrder::ByScore(weights),
    }
}

/// `r` holds the candidate rows at the positions `p` gives, and rows with
/// equal keys keep their candidate order.
pub open spec fn ranked_rearrangement(r: Seq<OverviewRow>, candidates: Seq<RowView>, order: RowOrder, p: Seq<int>) -> bool {
    &&& r.len() == candidates.len()
    &&& is_permutation(p, candidates.len())
    &&& forall|i: int| 0 <= i < r.len() ==> #[trigger] r[i]@ == candidates[p[i]]
    &&& forall|i: int, j: int|
        0 <= i < j < r.len() && row_key(r[i]@, order) == row_key(r[j]@, order) ==> p[i] < p[j]
}

pub open spec fn views(rows: Seq<OverviewRow>) -> Seq<RowView> {
    rows.map_values(|r: OverviewRow| r@)
}

impl PriceHandle {
    /// The overview row of `recipe` as the ranking keeps it, if it keeps it.
    pub open spec fn candidate(
        &self,
        recipe: Recipe,
        time_type: TimeType,
        membership: Membership,
        must_profit: bool,
        show_hidden: bool,
    ) -> Option<RowView> {
        match self.overview_of(recipe, time_type) {
            None => None,
            Some((row, (cost, _))) => if membership_skips(membership, recipe.members) {
                None
            } else {
                match visibility(self.coins < cost, row.loss_gain_spec() <= 0, must_profit, show_hidden) {
                    Visibility::Hidden => None,
                    Visibility::Shown => Some(row@),
                    Visibility::Marked => Some(marked(row@)),
                }
            },
        }
    }

    /// The rows that the ranking keeps, in catalogue order.
    pub open spec fn candidates(
        &self,
        recipes: Seq<Recipe>,
        time_type: TimeType,
        membership: Membership,
        must_profit: bool,
        show_hidden: bool,
    ) -> Seq<RowView>
        decreases recipes.len(),
    {
        if recipes.len() == 0 {
            Seq::empty()
        } else {
            let rest = self.candidates(recipes.drop_last(), time_type, membership, must_profit, show_hidden);
            match self.candidate(recipes.last(), time_type, membership, must_profit, show_hidden) {
                Some(row) => rest.push(row),
                None => rest,
            }
        }
    }

    /// The rows that the ranking keeps, in catalogue order.
    pub fn overview_candidates(&self, price_options: &Display) -> (r: Vec<OverviewRow>)
        requires
            self.wf(),
        ensures
            views(r@) == self.candidates(
                self.recipe_list.recipes@,
                price_options.time_type,
                price_options.membership,
                price_options.must_profit,
                price_options.show_hidden,
            ),
            forall|i: int| 0 <= i < r@.len() ==> (#[trigger] r@[i]).wf(),
    {
        let ghost recipes = self.recipe_list.recipes@;
        let time_type = price_options.time_type;
        let membership = price_options.membership;
        let must_profit = price_options.must_profit;
        let show_hidden = price_options.show_hidden;
        let mut rows: Vec<OverviewRow> = Vec::new();
        let mut i: usize = 0;
        while i < self.recipe_list.recipes.len()
            invariant
                recipes == self.recipe_list.recipes@,
                self.wf(),
                i <= recipes.len(),
                views(rows@) == self.candidates(recipes.take(i as int), time_type, membership, must_profit, show_hidden),
                forall|k: int| 0 <= k < rows@.len() ==> (#[trigger] rows@[k]).wf(),
            decreases recipes.len() - i,
        {
            let recipe = &self.recipe_list.recipes[i];
            assert(recipes.take(i + 1).drop_last() =~= recipes.take(i as int));
            assert(recipes.take(i + 1).last() == recipes[i as int]);
            let ghost before = rows@;
            match self.recipe_price_overview_from_recipe(recipe, time_type) {
                Some((overview, (cost, _revenue))) => {
                    if !skips_for_membership(membership, recipe.members) {
                        let mut overview = overview;
                        let cant_afford = self.coins < cost;
                        let no_profit = overview.loss_gain() <= 0;
                        match row_visibility(cant_afford, no_profit, must_profit, show_hidden) {
                            Visibility::Hidden => {},
                            Visibility::Shown => {
                                rows.push(overview);
                                assert(views(rows@) =~= views(before).push(rows@.last()@));
                            },
                            Visibility::Marked => {
                                overview.name.append(HIDDEN_MARK);
                                rows.push(overview);
                                assert(views(rows@) =~= views(before).push(rows@.last()@));
                                assert(rows@.last()@ =~= marked(self.overview_of(*recipe, time_type).unwrap().0@));
                            },
                        }
                    }
                },
                None => {},
            }
            i = i + 1;
        }
        assert(recipes.take(i as int) =~= recipes);
        rows
    }

    /// Whether `r` is the ranking of all recipes: the candidate rows (see
    /// `candidates`), ordered as `sort_by` asks, rows with equal keys in
    /// catalogue order.
    pub open spec fn is_ranking(&self, r: Seq<OverviewRow>, sort_by: OverviewSortBy, weights: Weights, options: Display) -> bool {
        let candidates = self.candidates(
            self.recipe_list.recipes@,
            options.time_type,
            options.membership,
            options.must_profit,
            options.show_hidden,
        );
        &&& views(r).to_multiset() == candidates.to_multiset()
        &&& forall|i: int, j: int|
            0 <= i < j < r.len() ==> in_rank_order(#[trigger] r[i]@, #[trigger] r[j]@, sort_by, weights@, options.reverse)
        &&& forall|i: int| 0 <= i < r.len() ==> (#[trigger] r[i]).wf()
        &&& exists|p: Seq<int>| ranked_rearrangement(r, candidates, rank_order(sort_by, weights), p)
    }

    /// All recipes' overviews, filtered by membership, affordability and
    /// profit, then ordered as `sort_by_option` asks. The sort is stable:
    /// rows with equal keys keep their catalogue order, in either direction.
    /// `None` when no recipe is left to rank, a failure of the whole batch.
    pub fn all_recipe_overview(
        &self,
        sort_by_option: &OverviewSortBy,
        sort_by_weights: &Weights,
        price_options: &Display,
    ) -> (r: Option<Vec<OverviewRow>>)
        requires
            self.wf(),
        ensures
            r is None <==> self.candidates(
                self.recipe_list.recipes@,
                price_options.time_type,
                price_options.membership,
                price_options.must_profit,
                price_options.show_hidden,
            ).len() == 0,
            r matches Some(rows) ==> self.is_ranking(rows@, *sort_by_option, *sort_by_weights, *price_options),
    {
        let rows = self.ranked_overview(sort_by_option, sort_by_weights, price_options);
        proof {
            let candidates = self.candidates(
                self.recipe_list.recipes@,
                price_options.time_type,
                price_options.membership,
                price_options.must_profit,
                price_options.show_hidden,
            );
            let p = choose|p: Seq<int>| ranked_rearrangement(rows@, candidates, rank_order(*sort_by_option, *sort_by_weights), p);
        }
        if rows.len() == 0 {
            None
        } else {
            Some(rows)
        }
    }

    /// The ranking of all recipes, empty when no recipe is left to rank.
    pub fn ranked_overview(
        &self,
        sort_by_option: &OverviewSortBy,
        sort_by_weights: &Weights,
        price_options: &Display,
    ) -> (r: Vec<OverviewRow>)
        requires
            self.wf(),
        ensures
            self.is_ranking(r@, *sort_by_option, *sort_by_weights, *price_options),
    {
        let rows = self.overview_candidates(price_options);
        let reverse = price_options.reverse;
        let sort_by = *sort_by_option;
        let (order, descending) = match sort_by {
            OverviewSortBy::Name => (RowOrder::ByName, reverse),
            OverviewSortBy::Profit => (RowOrder::ByTotalGp, !reverse),
            OverviewSortBy::Time => (RowOrder::ByTime, reverse),
            OverviewSortBy::GPH => (RowOrder::ByGph, !reverse),
            OverviewSortBy::Custom => (RowOrder::ByScore(*sort_by_weights), reverse),
        };
        let sorted = if sort_by == OverviewSortBy::Custom {
            optimal_sort(rows, sort_by_weights, reverse)
        } else {
            sort_rows(rows, order, descending)
        };
        proof {
            lemma_views_multiset(sorted@, rows@);
            assert(order == rank_order(sort_by, *sort_by_weights));
            let p = choose|p: Seq<int>| stable_rearrangement(sorted@, rows@, order, p);
            assert forall|i: int| 0 <= i < sorted@.len() implies #[trigger] sorted@[i]@ == views(rows@)[p[i]] by {
                assert(sorted@[i] == rows@[p[i]]);
                assert(0 <= p[i] < rows@.len());
            }
            assert(views(rows@).len() == rows@.len());
            assert(ranked_rearrangement(sorted@, views(rows@), order, p));
            assert forall|i: int| 0 <= i < sorted@.len() implies (#[trigger] sorted@[i]).wf() by {
                broadcast use vstd::seq_lib::group_to_multiset_ensures;
                assert(sorted@.to_multiset().contains(sorted@[i]));
                assert(rows@.to_multiset().contains(sorted@[i]));
                let k = choose|k: int| 0 <= k < rows@.len() && rows@[k] == sorted@[i];
                assert(rows@[k].wf());
            }
            assert forall|i: int, j: int| 0 <= i < j < sorted@.len() implies in_rank_order(
                #[trigger] sorted@[i]@,
                #[trigger] sorted@[j]@,
                sort_by,
                sort_by_weights@,
                reverse,
            ) by {
                if sort_by != OverviewSortBy::Custom {
                    let (x, y) = if descending { (j, i) } else { (i, j) };
                    assert(key_le(row_key(sorted@[x]@, order), row_key(sorted@[y]@, order)));
                    if sort_by != OverviewSortBy::Name {
                        lemma_numeric_key_le(row_key(sorted@[x]@, order), row_key(sorted@[y]@, order));
                    }
                }
            }
        }
        sorted
    }
}

/// Rows that are the same multiset have views that are the same multiset.
pub proof fn lemma_views_multiset(a: Seq<OverviewRow>, b: Seq<OverviewRow>)
    requires
        a.to_multiset() == b.to_multiset(),
    ensures
        views(a).to_multiset() == views(b).to_multiset(),
    decreases a.len(),
{
    broadcast use vstd::seq_lib::group_to_multiset_ensures;
    if a.len() == 0 {
        assert(b.to_multiset().len() == 0);
        assert(b.len() == 0);
        assert(views(a) =~= views(b));
    } else {
        let x = a.last();
        let a1 = a.drop_last();
        assert(a =~= a1.push(x));
        assert(a.to_multiset().contains(x));
        assert(b.to_multiset().contains(x));
        let k = choose|k: int| 0 <= k < b.len() && b[k] == x;
        let b1 = b.remove(k);
        assert(b1.to_multiset() == b.to_multiset().remove(x));
        assert(a1.to_multiset() =~= b1.to_multiset());
        lemma_views_multiset(a1, b1);
        assert(views(a) =~= views(a1).push(x@));
        assert(views(b1) =~= views(b).remove(k));
        assert(views(b)[k] == x@);
        assert(views(b1).to_multiset() == views(b).to_multiset().remove(x@));
        assert(views(b).to_multiset().contains(x@));
    }
}

} // verus!

verus! {

impl PriceHandle {
    /// The catalogue position of the recipe behind each candidate row.
    pub open spec fn candidate_sources(
        &self,
        recipes: Seq<Recipe>,
        time_type: TimeType,
        membership: Membership,
        must_profit: bool,
        show_hidden: bool,
    ) -> Seq<int>
        decreases recipes.len(),
    {
        if recipes.len() == 0 {
            Seq::empty()
        } else {
            let rest = self.candidate_sources(recipes.drop_last(), time_type, membership, must_profit, show_hidden);
            if self.candidate(recipes.last(), time_type, membership, must_profit, show_hidden) is Some {
                rest.push(recipes.len() - 1)
            } else {
                rest
            }
        }
    }

    /// Each candidate row is the candidate of the recipe at its source, the
    /// sources rise, and every recipe with a candidate is a source.
    pub proof fn lemma_candidate_sources(
        &self,
        recipes: Seq<Recipe>,
        time_type: TimeType,
        membership: Membership,
        must_profit: bool,
        show_hidden: bool,
    )
        ensures
            ({
                let sources = self.candidate_sources(recipes, time_type, membership, must_profit, show_hidden);
                let rows = self.candidates(recipes, time_type, membership, must_profit, show_hidden);
                &&& sources.len() == rows.len()
                &&& forall|k: int| 0 <= k < sources.len() ==> 0 <= #[trigger] sources[k] < recipes.len()
                    && self.candidate(recipes[sources[k]], time_type, membership, must_profit, show_hidden) == Some(rows[k])
                &&& forall|k: int, l: int| 0 <= k < l < sources.len() ==> sources[k] < sources[l]
                &&& forall|n: int|
                    0 <= n < recipes.len() && (#[trigger] self.candidate(recipes[n], time_type, membership, must_profit, show_hidden)) is Some
                        ==> exists|k: int| 0 <= k < sources.len() && sources[k] == n
            }),
        decreases recipes.len(),
    {
        if recipes.len() > 0 {
            let front = recipes.drop_last();
            self.lemma_candidate_sources(front, time_type, membership, must_profit, show_hidden);
            let s0 = self.candidate_sources(front, time_type, membership, must_profit, show_hidden);
            let sources = self.candidate_sources(recipes, time_type, membership, must_profit, show_hidden);
            assert forall|k: int| 0 <= k < s0.len() implies recipes[s0[k]] == front[s0[k]] by {}
            assert forall|n: int|
                0 <= n < recipes.len() && (#[trigger] self.candidate(recipes[n], time_type, membership, must_profit, show_hidden)) is Some
                    implies exists|k: int| 0 <= k < sources.len() && sources[k] == n by {
                if n < front.len() {
                    assert(front[n] == recipes[n]);
                    let k = choose|k: int| 0 <= k < s0.len() && s0[k] == n;
                    assert(sources[k] == n);
                } else {
                    assert(sources[sources.len() - 1] == n);
                }
            }
        }
    }
}

} // verus!
