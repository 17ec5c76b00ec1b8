//! The item price catalogue: what each item costs and how many may be bought.
use vstd::prelude::*;

verus! {

/// Names of items whose prices are fixed by the game rather than quoted.
pub const COINS_NAME: &'static str = "Coins";

/// High and low alchemy values of an item.
#[derive(Debug, Clone, Copy, PartialEq, Eq, Structural)]
pub struct Alchable {
    pub highalch: i32,
    pub lowalch: i32,
}

/// Latest quoted prices of an item and when they were quoted.
#[derive(Debug, Clone, Copy, Default, PartialEq, Eq, Structural)]
pub struct PriceDatum {
    pub high: Option<i32>,
    /// Unix timestamp of the high price.
    pub high_time: Option<i32>,
    pub low: Option<i32>,
    /// Unix timestamp of the low price.
    pub low_time: Option<i32>,
}

impl PriceDatum {
    /// True when any of the four fields is missing.
    pub fn invalid_data(&self) -> (r: bool)
        ensures
            r == (self.high is None || self.high_time is None || self.low is None || self.low_time is None),
    {
        self.high.is_none() || self.high_time.is_none() || self.low.is_none() || self.low_time.is_none()
    }
}

/// An item of the catalogue.
#[derive(Debug)]
pub struct Item {
    pub name: String,
    pub item_id: String,
    pub item_prices: PriceDatum,
    pub alchable: Option<Alchable>,
    /// How many may be bought in one reset window.
    pub limit: Option<i32>,
    pub members: bool,
}

impl Clone for Item {
    fn clone(&self) -> (r: Self)
        ensures
            r == *self,
    {
        Item {
            name: self.name.clone(),
            item_id: self.item_id.clone(),
            item_prices: self.item_prices,
            alchable: self.alchable,
            limit: self.limit,
            members: self.members,
        }
    }
}

impl Item {
    pub fn new(
        name: String,
        id: String,
        price_data: PriceDatum,
        alchable: Option<Alchable>,
        limit: Option<i32>,
        members: bool,
    ) -> (r: Self)
        ensures
            r.name == name,
            r.item_id == id,
            r.item_prices == price_data,
            r.alchable == alchable,
            r.limit == limit,
            r.members == members,
    {
        Item { name, item_id: id, item_prices: price_data, alchable, limit, members }
    }

    /// The quoted price: the high (buying) price when `high_price`, else the
    /// low (selling) price.
    pub open spec fn price_spec(&self, high_price: bool) -> Option<i32> {
        if high_price {
            self.item_prices.high
        } else {
            self.item_prices.low
        }
    }

    pub fn price(&self, high_price: bool) -> (r: Option<i32>)
        ensures
            r == self.price_spec(high_price),
    {
        if high_price {
            self.item_prices.high
        } else {
            self.item_prices.low
        }
    }

    /// Both quoted prices, labelled "high" and "low".
    pub fn price_tuple(&self) -> (r: Vec<(String, Option<i32>)>)
        ensures
            r@.len() == 2,
            r@[0].0@ == "high"@,
            r@[0].1 == self.item_prices.high,
            r@[1].0@ == "low"@,
            r@[1].1 == self.item_prices.low,
    {
        let mut r: Vec<(String, Option<i32>)> = Vec::new();
        r.push((String::from_str("high"), self.item_prices.high));
        r.push((String::from_str("low"), self.item_prices.low));
        r
    }

    /// True when some price field is missing, except for items whose prices
    /// the game fixes.
    pub fn invalid_data(&self) -> (r: bool)
        ensures
            r == (self.name@ != COINS_NAME@ && (self.item_prices.high is None || self.item_prices.high_time is None
                || self.item_prices.low is None || self.item_prices.low_time is None)),
    {
        let reserved = self.name == String::from_str(COINS_NAME);
        !reserved && self.item_prices.invalid_data()
    }
}

/// Index of the first item called `name`.
pub open spec fn first_item_index(items: Seq<Item>, name: Seq<char>, i: int) -> bool {
    &&& 0 <= i < items.len()
    &&& items[i].name@ == name
    &&& forall|j: int| 0 <= j < i ==> items[j].name@ != name
}

/// The first item called `name`, if any.
pub open spec fn find_item(items: Seq<Item>, name: Seq<char>) -> Option<Item> {
    if exists|i: int| first_item_index(items, name, i) {
        Some(items[choose|i: int| first_item_index(items, name, i)])
    } else {
        None
    }
}

/// Looks up `name` in `items`, returning the index of its first occurrence.
pub fn position_of_name(items: &Vec<Item>, name: &String) -> (r: Option<usize>)
    ensures
        match r {
            Some(i) => first_item_index(items@, name@, i as int) && find_item(items@, name@) == Some(items@[i as int]),
            None => find_item(items@, name@) is None && forall|j: int| 0 <= j < items@.len() ==> items@[j].name@ != name@,
        },
{
    let mut i: usize = 0;
    while i < items.len()
        invariant
            i <= items@.len(),
            forall|j: int| 0 <= j < i ==> items@[j].name@ != name@,
        decreases items@.len() - i,
    {
        if items[i].name == *name {
            assert(first_item_index(items@, name@, i as int));
            let ghost k = choose|k: int| first_item_index(items@, name@, k);
            assert(k == i as int);
            return Some(i);
        }
        i = i + 1;
    }
    assert(!exists|k: int| first_item_index(items@, name@, k));
    None
}

/// Whether no two items share a name.
pub open spec fn unique_names(items: Seq<Item>) -> bool {
    forall|i: int, j: int| 0 <= i < j < items.len() ==> items[i].name@ != items[j].name@
}

/// The catalogue of items, with lookups between item names and ids.
pub struct ItemSearch {
    pub items: Vec<Item>,
    /// Pairs of (name, id).
    pub name_to_id: Vec<(String, String)>,
    /// Pairs of (id, name).
    pub id_to_name: Vec<(String, String)>,
}

/// The value paired with the first key equal to `key`.
pub open spec fn pair_lookup(pairs: Seq<(String, String)>, key: Seq<char>) -> Option<String>
    decreases pairs.len(),
{
    if pairs.len() == 0 {
        None
    } else if pairs[0].0@ == key {
        Some(pairs[0].1)
    } else {
        pair_lookup(pairs.drop_first(), key)
    }
}

fn pair_get<'a>(pairs: &'a Vec<(String, String)>, key: &String) -> (r: Option<&'a String>)
    ensures
        match r {
            Some(v) => pair_lookup(pairs@, key@) == Some(*v),
            None => pair_lookup(pairs@, key@) is None,
        },
{
    let mut i: usize = 0;
    assert(pairs@.skip(0) =~= pairs@);
    while i < pairs.len()
        invariant
            i <= pairs@.len(),
            pair_lookup(pairs@, key@) == pair_lookup(pairs@.skip(i as int), key@),
        decreases pairs@.len() - i,
    {
        assert(pairs@.skip(i as int).drop_first() =~= pairs@.skip(i + 1));
        if pairs[i].0 == *key {
            return Some(&pairs[i].1);
        }
        i = i + 1;
    }
    None
}

impl ItemSearch {
    /// Item names are unique.
    pub open spec fn wf(&self) -> bool {
        unique_names(self.items@)
    }

    pub fn new(items: Vec<Item>, name_to_id: Vec<(String, String)>, id_to_name: Vec<(String, String)>) -> (r: Self)
        requires
            unique_names(items@),
        ensures
            r.wf(),
            r.items == items,
            r.name_to_id == name_to_id,
            r.id_to_name == id_to_name,
    {
        ItemSearch { items, name_to_id, id_to_name }
    }

    pub fn name_from_id(&self, item_id: &String) -> (r: Option<&String>)
        ensures
            match r {
                Some(v) => pair_lookup(self.id_to_name@, item_id@) == Some(*v),
                None => pair_lookup(self.id_to_name@, item_id@) is None,
            },
    {
        pair_get(&self.id_to_name, item_id)
    }

    pub fn id_from_name(&self, item_name: &String) -> (r: Option<&String>)
        ensures
            match r {
                Some(v) => pair_lookup(self.name_to_id@, item_name@) == Some(*v),
                None => pair_lookup(self.name_to_id@, item_name@) is None,
            },
    {
        pair_get(&self.name_to_id, item_name)
    }

    pub fn item_by_name(&self, item_name: &String) -> (r: Option<&Item>)
        ensures
            match r {
                Some(v) => find_item(self.items@, item_name@) == Some(*v),
                None => find_item(self.items@, item_name@) is None,
            },
    {
        match position_of_name(&self.items, item_name) {
            Some(i) => Some(&self.items[i]),
            None => None,
        }
    }
}

} // verus!

verus! {

/// Quoted prices of items, by item id, as the price source sends them.
#[derive(Debug)]
pub struct PriceDataType {
    pub data: Vec<(String, PriceDatum)>,
}

/// `items` with `item` in place of the first item of its name, or added at
/// the end when there is none.
pub open spec fn upsert(items: Seq<Item>, item: Item) -> Seq<Item> {
    if exists|i: int| first_item_index(items, item.name@, i) {
        items.update(choose|i: int| first_item_index(items, item.name@, i), item)
    } else {
        items.push(item)
    }
}

/// The item that a price entry describes, when its id has a name.
pub open spec fn entry_item(id_to_name: Seq<(String, String)>, entry: (String, PriceDatum)) -> Option<Item> {
    match pair_lookup(id_to_name, entry.0@) {
        Some(name) => Some(
            Item {
                name,
                item_id: entry.0,
                item_prices: entry.1,
                alchable: None,
                limit: None,
                members: true,
            },
        ),
        None => None,
    }
}

/// `items` after adding or replacing the item of each entry in turn.
pub open spec fn upsert_entries(items: Seq<Item>, id_to_name: Seq<(String, String)>, entries: Seq<(String, PriceDatum)>) -> Seq<Item>
    decreases entries.len(),
{
    if entries.len() == 0 {
        items
    } else {
        let before = upsert_entries(items, id_to_name, entries.drop_last());
        match entry_item(id_to_name, entries.last()) {
            Some(item) => upsert(before, item),
            None => before,
        }
    }
}

/// Whether `name` is among `names`.
pub open spec fn names_contain(names: Seq<String>, name: Seq<char>) -> bool {
    exists|i: int| 0 <= i < names.len() && names[i]@ == name
}

/// The items whose names are not among `names`, in order.
pub open spec fn without_names(items: Seq<Item>, names: Seq<String>) -> Seq<Item>
    decreases items.len(),
{
    if items.len() == 0 {
        items
    } else {
        let rest = without_names(items.drop_last(), names);
        if names_contain(names, items.last().name@) {
            rest
        } else {
            rest.push(items.last())
        }
    }
}

fn contains_name(names: &Vec<String>, name: &String) -> (r: bool)
    ensures
        r == names_contain(names@, name@),
{
    let mut i: usize = 0;
    while i < names.len()
        invariant
            i <= names@.len(),
            forall|j: int| 0 <= j < i ==> names@[j]@ != name@,
        decreases names@.len() - i,
    {
        if names[i] == *name {
            return true;
        }
        i = i + 1;
    }
    false
}

proof fn lemma_without_names_len(items: Seq<Item>, names: Seq<String>)
    ensures
        without_names(items, names).len() <= items.len(),
    decreases items.len(),
{
    if items.len() > 0 {
        lemma_without_names_len(items.drop_last(), names);
    }
}

impl ItemSearch {
    /// Adds `item`, replacing the first item of the same name.
    pub fn insert_item(&mut self, item: Item)
        requires
            old(self).wf(),
        ensures
            final(self).wf(),
            final(self).items@ == upsert(old(self).items@, item),
            final(self).name_to_id == old(self).name_to_id,
            final(self).id_to_name == old(self).id_to_name,
    {
        match position_of_name(&self.items, &item.name) {
            Some(i) => {
                let ghost before = self.items@;
                let ghost k = choose|k: int| first_item_index(before, item.name@, k);
                assert(k == i as int);
                self.items.remove(i);
                self.items.insert(i, item);
                assert(self.items@ =~= before.update(i as int, item));
                assert forall|a: int, b: int| 0 <= a < b < self.items@.len() implies self.items@[a].name@
                    != self.items@[b].name@ by {
                    if a != i && b != i {
                        assert(before[a].name@ != before[b].name@);
                    } else if a == i {
                        assert(before[a].name@ != before[b].name@);
                    } else {
                        assert(before[a].name@ != before[b].name@);
                    }
                }
            },
            None => {
                assert(!exists|k: int| first_item_index(self.items@, item.name@, k));
                let ghost before = self.items@;
                self.items.push(item);
                assert forall|a: int, b: int| 0 <= a < b < self.items@.len() implies self.items@[a].name@
                    != self.items@[b].name@ by {
                    if b < before.len() {
                        assert(before[a].name@ != before[b].name@);
                    } else {
                        assert(before[a].name@ != item.name@);
                    }
                }
            },
        }
    }

    /// Removes every item named in `item_name_list` and returns how many were
    /// removed.
    pub fn ignore_items(&mut self, item_name_list: &Vec<String>) -> (r: i32)
        requires
            old(self).wf(),
            old(self).items@.len() <= i32::MAX,
        ensures
            final(self).wf(),
            final(self).items@ == without_names(old(self).items@, item_name_list@),
            r == old(self).items@.len() - final(self).items@.len(),
            final(self).name_to_id == old(self).name_to_id,
            final(self).id_to_name == old(self).id_to_name,
    {
        let ghost all = self.items@;
        let total: usize = self.items.len();
        let mut kept: Vec<Item> = Vec::new();
        let mut i: usize = 0;
        while i < total
            invariant
                all == self.items@,
                unique_names(all),
                total == all.len(),
                i <= total,
                kept@ == without_names(all.take(i as int), item_name_list@),
                unique_names(kept@),
                forall|k: int| 0 <= k < kept@.len() ==> exists|j: int| 0 <= j < i && #[trigger] kept@[k] == all[j],
            decreases total - i,
        {
            assert(all.take(i + 1).drop_last() =~= all.take(i as int));
            assert(all.take(i + 1).last() == all[i as int]);
            if !contains_name(item_name_list, &self.items[i].name) {
                let ghost before = kept@;
                kept.push(self.items[i].clone());
                assert forall|a: int, b: int| 0 <= a < b < kept@.len() implies kept@[a].name@ != kept@[b].name@ by {
                    if b == before.len() {
                        let j = choose|j: int| 0 <= j < i && before[a] == all[j];
                        assert(all[j].name@ != all[i as int].name@);
                    } else {
                        assert(before[a].name@ != before[b].name@);
                    }
                }
                assert forall|k: int| 0 <= k < kept@.len() implies exists|j: int| 0 <= j < i + 1 && #[trigger] kept@[k] == all[j] by {
                    if k < before.len() {
                        let j = choose|j: int| 0 <= j < i && before[k] == all[j];
                        assert(kept@[k] == all[j]);
                    } else {
                        assert(kept@[k] == all[i as int]);
                    }
                }
            }
            i = i + 1;
        }
        assert(all.take(total as int) =~= all);
        proof {
            lemma_without_names_len(all, item_name_list@);
        }
        let removed: usize = total - kept.len();
        self.items = kept;
        removed as i32
    }

    /// Adds or replaces the item of each price entry whose id has a name,
    /// as a members' item with no limit or alchemy values yet.
    pub fn update_item_prices(&mut self, item_prices: PriceDataType)
        requires
            old(self).wf(),
        ensures
            final(self).wf(),
            final(self).items@ == upsert_entries(old(self).items@, old(self).id_to_name@, item_prices.data@),
            final(self).name_to_id == old(self).name_to_id,
            final(self).id_to_name == old(self).id_to_name,
    {
        let ghost start = self.items@;
        let entries = item_prices.data;
        let mut i: usize = 0;
        while i < entries.len()
            invariant
                i <= entries@.len(),
                self.items@ == upsert_entries(start, self.id_to_name@, entries@.take(i as int)),
                self.wf(),
                self.name_to_id == old(self).name_to_id,
                self.id_to_name == old(self).id_to_name,
            decreases entries@.len() - i,
        {
            assert(entries@.take(i + 1).drop_last() =~= entries@.take(i as int));
            assert(entries@.take(i + 1).last() == entries@[i as int]);
            let id = &entries[i].0;
            match self.name_from_id(id) {
                Some(name) => {
                    let item = Item::new(name.clone(), id.clone(), entries[i].1, None, None, true);
                    self.insert_item(item);
                },
                None => {},
            }
            i = i + 1;
        }
        assert(entries@.take(i as int) =~= entries@);
    }

    /// Adds coins, whose price is fixed at one, under their id.
    pub fn add_special_price_values(&mut self)
        requires
            old(self).wf(),
            pair_lookup(old(self).name_to_id@, COINS_NAME@) is Some,
        ensures
            final(self).wf(),
            exists|coins: Item|
                {
                    &&& coins.name@ == COINS_NAME@
                    &&& Some(coins.item_id) == pair_lookup(old(self).name_to_id@, COINS_NAME@)
                    &&& coins.item_prices == (PriceDatum { high: Some(1), high_time: Some(0), low: Some(1), low_time: Some(0) })
                    &&& coins.alchable is None && coins.limit is None && !coins.members
                    &&& final(self).items@ == upsert(old(self).items@, coins)
                },
            final(self).name_to_id == old(self).name_to_id,
            final(self).id_to_name == old(self).id_to_name,
    {
        let coins_name = String::from_str(COINS_NAME);
        let coins_id = match self.id_from_name(&coins_name) {
            Some(id) => id.clone(),
            None => return,
        };
        let prices = PriceDatum { high: Some(1), high_time: Some(0), low: Some(1), low_time: Some(0) };
        let coins = Item::new(coins_name, coins_id, prices, None, None, false);
        self.insert_item(coins);
    }
}

} // verus!

verus! {

/// The mapping entry of the first pair named `name`.
pub open spec fn find_mapping(mapping: Seq<crate::api::MappingItem>, name: Seq<char>) -> Option<crate::api::MappingItem>
    decreases mapping.len(),
{
    if mapping.len() == 0 {
        None
    } else if mapping[0].name@ == name {
        Some(mapping[0])
    } else {
        find_mapping(mapping.drop_first(), name)
    }
}

fn mapping_position(mapping: &Vec<crate::api::MappingItem>, name: &String) -> (r: Option<usize>)
    ensures
        match r {
            Some(i) => i < mapping@.len() && find_mapping(mapping@, name@) == Some(mapping@[i as int]),
            None => find_mapping(mapping@, name@) is None,
        },
{
    let mut i: usize = 0;
    assert(mapping@.skip(0) =~= mapping@);
    while i < mapping.len()
        invariant
            i <= mapping@.len(),
            find_mapping(mapping@, name@) == find_mapping(mapping@.skip(i as int), name@),
        decreases mapping@.len() - i,
    {
        assert(mapping@.skip(i as int).drop_first() =~= mapping@.skip(i + 1));
        if mapping[i].name == *name {
            return Some(i);
        }
        i = i + 1;
    }
    None
}

/// The item with the extra information of its mapping entry.
pub open spec fn with_mapping(item: Item, entry: crate::api::MappingItem) -> Item {
    Item {
        alchable: Some(Alchable { highalch: entry.highalch, lowalch: entry.lowalch }),
        limit: entry.limit,
        members: entry.members,
        ..item
    }
}

impl ItemSearch {
    /// The item whose id is `item_id`, through its name.
    pub fn item_by_id(&self, item_id: &String) -> (r: Option<&Item>)
        ensures
            match pair_lookup(self.id_to_name@, item_id@) {
                Some(name) => match r {
                    Some(v) => find_item(self.items@, name@) == Some(*v),
                    None => find_item(self.items@, name@) is None,
                },
                None => r is None,
            },
    {
        match self.name_from_id(item_id) {
            Some(name) => self.item_by_name(name),
            None => None,
        }
    }

    /// Whether every item has an entry in `mapping`.
    pub fn mapping_covers(&self, mapping: &Vec<crate::api::MappingItem>) -> (r: bool)
        ensures
            r == forall|i: int| 0 <= i < self.items@.len() ==> (#[trigger] find_mapping(mapping@, self.items@[i].name@)) is Some,
    {
        let mut i: usize = 0;
        while i < self.items.len()
            invariant
                i <= self.items@.len(),
                forall|j: int| 0 <= j < i ==> (#[trigger] find_mapping(mapping@, self.items@[j].name@)) is Some,
            decreases self.items@.len() - i,
        {
            if mapping_position(mapping, &self.items[i].name).is_none() {
                return false;
            }
            i = i + 1;
        }
        true
    }

    /// Sets each item's alchemy values, purchase limit and membership from its
    /// mapping entry.
    pub fn update_item_extra_info(&mut self, mapping: &Vec<crate::api::MappingItem>)
        requires
            old(self).wf(),
            forall|i: int| 0 <= i < old(self).items@.len() ==> (#[trigger] find_mapping(mapping@, old(self).items@[i].name@)) is Some,
        ensures
            final(self).wf(),
            final(self).items@.len() == old(self).items@.len(),
            forall|i: int| 0 <= i < old(self).items@.len() ==> #[trigger] final(self).items@[i] == with_mapping(
                old(self).items@[i],
                find_mapping(mapping@, old(self).items@[i].name@).unwrap(),
            ),
            final(self).name_to_id == old(self).name_to_id,
            final(self).id_to_name == old(self).id_to_name,
    {
        let ghost start = self.items@;
        let mut i: usize = 0;
        while i < self.items.len()
            invariant
                self.items@.len() == start.len(),
                i <= start.len(),
                forall|j: int| 0 <= j < start.len() ==> (#[trigger] find_mapping(mapping@, start[j].name@)) is Some,
                forall|j: int| 0 <= j < i ==> #[trigger] self.items@[j] == with_mapping(start[j], find_mapping(mapping@, start[j].name@).unwrap()),
                forall|j: int| i <= j < start.len() ==> #[trigger] self.items@[j] == start[j],
                self.name_to_id == old(self).name_to_id,
                self.id_to_name == old(self).id_to_name,
            decreases start.len() - i,
        {
            assert(self.items@[i as int] == start[i as int]);
            assert(find_mapping(mapping@, start[i as int].name@) is Some);
            let k = mapping_position(mapping, &self.items[i].name).unwrap();
            let entry = &mapping[k];
            let mut item = self.items.remove(i);
            item.alchable = Some(Alchable { highalch: entry.highalch, lowalch: entry.lowalch });
            item.limit = entry.limit;
            item.members = entry.members;
            self.items.insert(i, item);
            i = i + 1;
        }
    }
}

} // verus!
