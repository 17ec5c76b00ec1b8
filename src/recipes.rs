//! The recipe catalogue.
use vstd::prelude::*;

verus! {

/// Quantities are fixed-point numbers: this many units make one item.
pub const QUANTITY_SCALE: u32 = 1000;

/// One ingredient or product of a recipe.
#[derive(Debug)]
pub struct Ingredient {
    pub name: String,
    /// Quantity per execution, in thousandths of an item.
    pub quantity: u32,
}

impl Clone for Ingredient {
    fn clone(&self) -> (r: Self)
        ensures
            r == *self,
    {
        Ingredient { name: self.name.clone(), quantity: self.quantity }
    }
}

impl Ingredient {
    pub fn new(name: String, quantity: u32) -> (r: Self)
        ensures
            r.name == name,
            r.quantity == quantity,
    {
        Ingredient { name, quantity }
    }
}

/// Duration of one execution of a recipe.
#[derive(Debug, Default, Clone, Copy, PartialEq, Eq, Structural)]
pub enum RecipeTime {
    /// Milliseconds per execution.
    Time(u32),
    /// No duration model exists for this recipe.
    #[default]
    INVALID,
}

impl RecipeTime {
    /// A duration given in game ticks.
    pub fn from_ticks(ticks: u32) -> (r: Self)
        requires
            ticks * 600 <= u32::MAX,
        ensures
            r == RecipeTime::Time((ticks * 600) as u32),
    {
        RecipeTime::Time(ticks * 600)
    }

    pub fn isvalid(&self) -> (r: bool)
        ensures
            r == (*self is Time),
    {
        match self {
            RecipeTime::Time(_) => true,
            RecipeTime::INVALID => false,
        }
    }
}

/// A recipe: what one execution consumes and produces, and how long it takes.
#[derive(Debug)]
pub struct Recipe {
    pub name: String,
    /// Whether the recipe needs a membership.
    pub members: bool,
    /// Consumed by every execution.
    pub inputs: Vec<Ingredient>,
    /// Bought once, however many executions follow.
    pub pay_once: Option<Vec<Ingredient>>,
    /// Produced by every execution.
    pub outputs: Vec<Ingredient>,
    pub time: RecipeTime,
    /// Executions per hour, where the user knows the rate.
    pub number_per_hour: Option<i32>,
}

impl Recipe {
    pub fn new(name: String, inputs: Vec<Ingredient>, outputs: Vec<Ingredient>, time: RecipeTime) -> (r: Self)
        ensures
            r.name == name,
            !r.members,
            r.inputs == inputs,
            r.pay_once is None,
            r.outputs == outputs,
            r.time == time,
            r.number_per_hour is None,
    {
        Recipe { name, members: false, inputs, pay_once: None, outputs, time, number_per_hour: None }
    }

    pub fn isvalid(&self) -> (r: bool)
        ensures
            r == (self.time is Time),
    {
        self.time.isvalid()
    }
}

/// Index of the first recipe called `name`.
pub open spec fn first_recipe_index(recipes: Seq<Recipe>, name: Seq<char>, i: int) -> bool {
    &&& 0 <= i < recipes.len()
    &&& recipes[i].name@ == name
    &&& forall|j: int| 0 <= j < i ==> recipes[j].name@ != name
}

/// The first recipe called `name`, if any.
pub open spec fn find_recipe(recipes: Seq<Recipe>, name: Seq<char>) -> Option<Recipe> {
    if exists|i: int| first_recipe_index(recipes, name, i) {
        Some(recipes[choose|i: int| first_recipe_index(recipes, name, i)])
    } else {
        None
    }
}

fn recipe_position(recipes: &Vec<Recipe>, name: &String) -> (r: Option<usize>)
    ensures
        match r {
            Some(i) => first_recipe_index(recipes@, name@, i as int) && find_recipe(recipes@, name@) == Some(recipes@[i as int]),
            None => find_recipe(recipes@, name@) is None && forall|j: int| 0 <= j < recipes@.len() ==> recipes@[j].name@ != name@,
        },
{
    let mut i: usize = 0;
    while i < recipes.len()
        invariant
            i <= recipes@.len(),
            forall|j: int| 0 <= j < i ==> recipes@[j].name@ != name@,
        decreases recipes@.len() - i,
    {
        if recipes[i].name == *name {
            assert(first_recipe_index(recipes@, name@, i as int));
            let ghost k = choose|k: int| first_recipe_index(recipes@, name@, k);
            assert(k == i as int);
            return Some(i);
        }
        i = i + 1;
    }
    assert(!exists|k: int| first_recipe_index(recipes@, name@, k));
    None
}

/// The recipes in reverse order, so that popping them yields them in order.
fn reversed_recipes(list: Vec<Recipe>) -> (r: Vec<Recipe>)
    ensures
        r@ == list@.reverse(),
{
    let ghost all = list@;
    let mut rest = list;
    let mut out: Vec<Recipe> = Vec::new();
    while rest.len() > 0
        invariant
            rest@ == all.take(rest@.len() as int),
            out@.len() + rest@.len() == all.len(),
            forall|j: int| 0 <= j < out@.len() ==> #[trigger] out@[j] == all[all.len() - 1 - j],
        decreases rest@.len(),
    {
        let ghost n = rest@.len();
        let recipe = rest.pop().unwrap();
        assert(rest@ =~= all.take(n - 1));
        out.push(recipe);
    }
    assert(out@ =~= all.reverse());
    out
}

/// Whether some recipe is called `name`.
pub open spec fn has_recipe(recipes: Seq<Recipe>, name: Seq<char>) -> bool {
    exists|i: int| 0 <= i < recipes.len() && recipes[i].name@ == name
}

/// Name of the placeholder recipe that recipe files carry as an example.
pub const TEMPLATE_RECIPE: &'static str = "Template";

/// Whether a recipe can be timed: it has a duration or a rate.
pub open spec fn is_usable(recipe: Recipe) -> bool {
    recipe.time is Time || recipe.number_per_hour is Some
}

/// How many recipes of `list` can be timed by neither a duration nor a rate.
pub open spec fn unusable_count(list: Seq<Recipe>) -> int
    decreases list.len(),
{
    if list.len() == 0 {
        0
    } else {
        unusable_count(list.drop_last()) + if is_usable(list.last()) {
            0int
        } else {
            1int
        }
    }
}

/// The recipe catalogue. Recipe names are unique.
pub struct RecipeBook {
    pub recipes: Vec<Recipe>,
}

impl RecipeBook {
    pub open spec fn wf(&self) -> bool {
        forall|i: int, j: int|
            0 <= i < j < self.recipes@.len() ==> self.recipes@[i].name@ != self.recipes@[j].name@
    }

    /// An empty catalogue.
    pub fn new() -> (r: Self)
        ensures
            r.wf(),
            r.recipes@.len() == 0,
    {
        RecipeBook { recipes: Vec::new() }
    }

    /// Adds `recipe`, replacing and returning any recipe of the same name.
    pub fn add_recipe(&mut self, recipe: Recipe) -> (r: Option<Recipe>)
        requires
            old(self).wf(),
        ensures
            final(self).wf(),
            r == find_recipe(old(self).recipes@, recipe.name@),
            match r {
                Some(_) => exists|i: int|
                    first_recipe_index(old(self).recipes@, recipe.name@, i)
                        && final(self).recipes@ == old(self).recipes@.update(i, recipe),
                None => final(self).recipes@ == old(self).recipes@.push(recipe),
            },
            has_recipe(final(self).recipes@, recipe.name@),
            forall|name: Seq<char>| has_recipe(old(self).recipes@, name) ==> has_recipe(final(self).recipes@, name),
    {
        match recipe_position(&self.recipes, &recipe.name) {
            Some(i) => {
                let ghost before = self.recipes@;
                let ghost name = recipe.name@;
                let previous = self.recipes.remove(i);
                self.recipes.insert(i, recipe);
                assert(self.recipes@ =~= before.update(i as int, recipe));
                assert(has_recipe(self.recipes@, name)) by {
                    assert(self.recipes@[i as int].name@ == name);
                }
                assert forall|n: Seq<char>| has_recipe(before, n) implies has_recipe(self.recipes@, n) by {
                    let j = choose|j: int| 0 <= j < before.len() && before[j].name@ == n;
                    assert(self.recipes@[j].name@ == n);
                }
                Some(previous)
            },
            None => {
                let ghost before = self.recipes@;
                let ghost name = recipe.name@;
                self.recipes.push(recipe);
                assert(self.recipes@[before.len() as int].name@ == name);
                assert forall|n: Seq<char>| has_recipe(before, n) implies has_recipe(self.recipes@, n) by {
                    let j = choose|j: int| 0 <= j < before.len() && before[j].name@ == n;
                    assert(self.recipes@[j].name@ == n);
                }
                None
            },
        }
    }

    /// Adds every recipe of `recipe_list`, a later one replacing an earlier
    /// one of the same name.
    pub fn add_from_list(&mut self, recipe_list: Vec<Recipe>)
        requires
            old(self).wf(),
        ensures
            final(self).wf(),
            forall|i: int| 0 <= i < recipe_list@.len() ==> has_recipe(final(self).recipes@, #[trigger] recipe_list@[i].name@),
            forall|name: Seq<char>| has_recipe(old(self).recipes@, name) ==> has_recipe(final(self).recipes@, name),
    {
        let ghost all = recipe_list@;
        let ghost start = self.recipes@;
        let mut pending = reversed_recipes(recipe_list);
        while pending.len() > 0
            invariant
                self.wf(),
                pending@.len() <= all.len(),
                forall|j: int| 0 <= j < pending@.len() ==> #[trigger] pending@[j] == all[all.len() - 1 - j],
                forall|i: int| 0 <= i < all.len() - pending@.len() ==> has_recipe(self.recipes@, #[trigger] all[i].name@),
                forall|name: Seq<char>| has_recipe(start, name) ==> has_recipe(self.recipes@, name),
            decreases pending@.len(),
        {
            let ghost done = all.len() - pending@.len();
            let recipe = pending.pop().unwrap();
            assert(recipe == all[done]);
            self.add_recipe(recipe);
        }
    }

    /// Removes the recipe called `recipe_name` and returns it.
    pub fn remove_recipe(&mut self, recipe_name: &String) -> (r: Option<Recipe>)
        requires
            old(self).wf(),
        ensures
            final(self).wf(),
            r == find_recipe(old(self).recipes@, recipe_name@),
            find_recipe(final(self).recipes@, recipe_name@) is None,
            !has_recipe(final(self).recipes@, recipe_name@),
            forall|name: Seq<char>|
                name != recipe_name@ && has_recipe(old(self).recipes@, name) ==> has_recipe(final(self).recipes@, name),
            forall|name: Seq<char>| has_recipe(final(self).recipes@, name) ==> has_recipe(old(self).recipes@, name),
    {
        let ghost before = self.recipes@;
        match recipe_position(&self.recipes, recipe_name) {
            Some(i) => {
                let removed = self.recipes.remove(i);
                assert(self.recipes@ =~= before.remove(i as int));
                assert forall|name: Seq<char>| name != recipe_name@ && has_recipe(before, name) implies has_recipe(
                    self.recipes@,
                    name,
                ) by {
                    let j = choose|j: int| 0 <= j < before.len() && before[j].name@ == name;
                    if j < i {
                        assert(self.recipes@[j] == before[j]);
                    } else {
                        assert(j > i);
                        assert(self.recipes@[j - 1] == before[j]);
                    }
                }
                assert forall|j: int| 0 <= j < self.recipes@.len() implies self.recipes@[j].name@ != recipe_name@ by {
                    if j < i {
                        assert(self.recipes@[j] == before[j]);
                    } else {
                        assert(self.recipes@[j] == before[j + 1]);
                    }
                }
                assert forall|name: Seq<char>| has_recipe(self.recipes@, name) implies has_recipe(before, name) by {
                    let j = choose|j: int| 0 <= j < self.recipes@.len() && self.recipes@[j].name@ == name;
                    if j < i {
                        assert(before[j] == self.recipes@[j]);
                    } else {
                        assert(before[j + 1] == self.recipes@[j]);
                    }
                }
                assert(!exists|k: int| first_recipe_index(self.recipes@, recipe_name@, k));
                Some(removed)
            },
            None => None,
        }
    }

    /// Removes every recipe named in `recipe_names`.
    pub fn ignore_recipes(&mut self, recipe_names: &Vec<String>)
        requires
            old(self).wf(),
        ensures
            final(self).wf(),
            forall|i: int| 0 <= i < recipe_names@.len() ==> !has_recipe(final(self).recipes@, #[trigger] recipe_names@[i]@),
            forall|name: Seq<char>|
                has_recipe(old(self).recipes@, name) && !(exists|i: int| 0 <= i < recipe_names@.len() && recipe_names@[i]@ == name)
                    ==> has_recipe(final(self).recipes@, name),
    {
        let ghost start = self.recipes@;
        let mut i: usize = 0;
        while i < recipe_names.len()
            invariant
                self.wf(),
                i <= recipe_names@.len(),
                forall|k: int| 0 <= k < i ==> !has_recipe(self.recipes@, #[trigger] recipe_names@[k]@),
                forall|name: Seq<char>|
                    has_recipe(start, name) && !(exists|k: int| 0 <= k < i && recipe_names@[k]@ == name)
                        ==> has_recipe(self.recipes@, name),
            decreases recipe_names@.len() - i,
        {
            let ghost before = self.recipes@;
            self.remove_recipe(&recipe_names[i]);
            assert forall|k: int| 0 <= k < i + 1 implies !has_recipe(self.recipes@, #[trigger] recipe_names@[k]@) by {
                if k < i {
                    assert(!has_recipe(before, recipe_names@[k]@));
                }
            }
            i = i + 1;
        }
    }

    /// Fills the catalogue from `recipe_list`: recipes with neither a duration
    /// nor a rate are skipped, as is the placeholder recipe, and a later
    /// recipe replaces an earlier one of the same name. Returns how many were
    /// skipped for want of a duration or rate.
    pub fn load_default_recipes(&mut self, recipe_list: Vec<Recipe>) -> (r: usize)
        requires
            old(self).wf(),
        ensures
            final(self).wf(),
            !has_recipe(final(self).recipes@, TEMPLATE_RECIPE@),
            forall|i: int|
                0 <= i < recipe_list@.len() && is_usable(#[trigger] recipe_list@[i]) && recipe_list@[i].name@ != TEMPLATE_RECIPE@
                    ==> has_recipe(final(self).recipes@, recipe_list@[i].name@),
            r == unusable_count(recipe_list@),
    {
        let ghost all = recipe_list@;
        let total: usize = recipe_list.len();
        let mut pending = reversed_recipes(recipe_list);
        let mut skipped: usize = 0;
        while pending.len() > 0
            invariant
                self.wf(),
                all.len() == total,
                pending@.len() <= all.len(),
                skipped <= all.len() - pending@.len(),
                skipped == unusable_count(all.take(all.len() - pending@.len())),
                forall|j: int| 0 <= j < pending@.len() ==> #[trigger] pending@[j] == all[all.len() - 1 - j],
                forall|i: int|
                    0 <= i < all.len() - pending@.len() && is_usable(#[trigger] all[i]) ==> has_recipe(self.recipes@, all[i].name@),
            decreases pending@.len(),
        {
            let ghost done = all.len() - pending@.len();
            let recipe = pending.pop().unwrap();
            assert(recipe == all[done]);
            assert(all.take(done + 1).drop_last() =~= all.take(done));
            if recipe.isvalid() || recipe.number_per_hour.is_some() {
                self.add_recipe(recipe);
            } else {
                skipped = skipped + 1;
            }
        }
        assert(all.take(all.len() as int) =~= all);
        let template = String::from_str(TEMPLATE_RECIPE);
        self.remove_recipe(&template);
        skipped
    }

    pub fn get_recipe(&self, recipe_name: &String) -> (r: Option<&Recipe>)
        ensures
            match r {
                Some(v) => find_recipe(self.recipes@, recipe_name@) == Some(*v),
                None => find_recipe(self.recipes@, recipe_name@) is None,
            },
    {
        match recipe_position(&self.recipes, recipe_name) {
            Some(i) => Some(&self.recipes[i]),
            None => None,
        }
    }

    pub fn len(&self) -> (r: usize)
        ensures
            r == self.recipes@.len(),
    {
        self.recipes.len()
    }

    pub fn is_empty(&self) -> (r: bool)
        ensures
            r == (self.recipes@.len() == 0),
    {
        self.recipes.len() == 0
    }
}

} // verus!
