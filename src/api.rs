//! Settings of requests to the price source. Sending them is left to the
//! caller.
use vstd::prelude::*;

use crate::config::TimeSpan;

verus! {

/// Description of an item as the price source's mapping lists it.
#[derive(Debug)]
pub struct MappingItem {
    pub highalch: i32,
    pub members: bool,
    pub name: String,
    pub examine: String,
    pub id: i32,
    pub value: i32,
    pub icon: String,
    pub lowalch: i32,
    /// How many may be bought in one reset window, where the source knows.
    pub limit: Option<i32>,
}

/// The latest prices, or prices averaged over a window of minutes or hours.
#[derive(Debug, Clone, Copy, PartialEq, Eq, Structural)]
pub enum Timespan {
    Latest,
    /// 5 (minutes) or 1 (hour).
    Oldest(u16),
}

/// The window that a configured time span asks for.
pub open spec fn timespan_of(span: TimeSpan) -> Timespan {
    match span {
        TimeSpan::Latest => Timespan::Latest,
        TimeSpan::FiveMinute => Timespan::Oldest(5),
        TimeSpan::OneHour => Timespan::Oldest(1),
    }
}

impl From<TimeSpan> for Timespan {
    fn from(span: TimeSpan) -> (r: Self) {
        match span {
            TimeSpan::Latest => Timespan::Latest,
            TimeSpan::FiveMinute => Timespan::Oldest(5),
            TimeSpan::OneHour => Timespan::Oldest(1),
        }
    }
}

impl vstd::std_specs::convert::FromSpecImpl<TimeSpan> for Timespan {
    open spec fn obeys_from_spec() -> bool {
        true
    }

    open spec fn from_spec(span: TimeSpan) -> Self {
        timespan_of(span)
    }
}

impl Timespan {
    /// Whether the price source offers this window.
    pub open spec fn is_known(self) -> bool {
        match self {
            Timespan::Latest => true,
            Timespan::Oldest(t) => t == 5 || t == 1,
        }
    }

    /// Path of the endpoint that serves this window.
    pub fn get_endpoint(self) -> (r: String)
        requires
            self.is_known(),
        ensures
            r@ == (match self {
                Timespan::Latest => "/latest"@,
                Timespan::Oldest(t) => if t == 5 {
                    "/5m"@
                } else {
                    "/1h"@
                },
            }),
    {
        match self {
            Timespan::Latest => String::from_str("/latest"),
            Timespan::Oldest(t) => if t == 5 {
                String::from_str("/5m")
            } else {
                String::from_str("/1h")
            },
        }
    }
}

/// Header pairs, in the order given.
#[derive(Debug)]
pub struct ApiHeaders {
    pub headers: Vec<(String, String)>,
}

/// Headers as a map from name to value: a later pair overrides an earlier one.
pub open spec fn header_map(pairs: Seq<(String, String)>) -> Map<Seq<char>, Seq<char>>
    decreases pairs.len(),
{
    if pairs.len() == 0 {
        Map::empty()
    } else {
        header_map(pairs.drop_last()).insert(pairs.last().0@, pairs.last().1@)
    }
}

impl View for ApiHeaders {
    type V = Map<Seq<char>, Seq<char>>;

    open spec fn view(&self) -> Map<Seq<char>, Seq<char>> {
        header_map(self.headers@)
    }
}

impl ApiHeaders {
    pub fn new(headers: Vec<(String, String)>) -> (r: Self)
        ensures
            r.headers == headers,
    {
        ApiHeaders { headers }
    }

    fn clone_pairs(pairs: &Vec<(String, String)>) -> (r: Vec<(String, String)>)
        ensures
            r@ == pairs@,
    {
        let mut r: Vec<(String, String)> = Vec::new();
        let mut i: usize = 0;
        while i < pairs.len()
            invariant
                i <= pairs@.len(),
                r@ == pairs@.take(i as int),
            decreases pairs@.len() - i,
        {
            r.push((pairs[i].0.clone(), pairs[i].1.clone()));
            assert(r@ =~= pairs@.take(i + 1));
            i = i + 1;
        }
        assert(pairs@.take(i as int) =~= pairs@);
        r
    }

    /// Adds the pairs after the existing ones, so that they override them.
    pub fn extend(&mut self, pairs: Vec<(String, String)>)
        ensures
            final(self).headers@ == old(self).headers@ + pairs@,
    {
        let mut i: usize = 0;
        let ghost start = self.headers@;
        let mut pairs = pairs;
        let mut rest: Vec<(String, String)> = Vec::new();
        let ghost all = pairs@;
        while pairs.len() > 0
            invariant
                pairs@ + rest@.reverse() == all,
            decreases pairs@.len(),
        {
            let ghost n = pairs@.len();
            let p = pairs.pop().unwrap();
            rest.push(p);
            assert(pairs@ + rest@.reverse() =~= all);
        }
        assert(rest@.reverse() == all);
        while rest.len() > 0
            invariant
                self.headers@ + rest@.reverse() == start + all,
            decreases rest@.len(),
        {
            let p = rest.pop().unwrap();
            let ghost before = self.headers@;
            self.headers.push(p);
            assert(self.headers@ + rest@.reverse() =~= start + all);
        }
        assert(self.headers@ =~= start + all);
    }
}

/// Settings of requests to the price source.
#[derive(Debug)]
pub struct Api {
    pub url: String,
    pub timespan: Timespan,
    pub headers: ApiHeaders,
}

impl Api {
    pub fn new(api_config: &crate::config::Api) -> (r: Self)
        ensures
            r.url == api_config.url,
            r.timespan == timespan_of(api_config.timespan),
            r.headers.headers@ == api_config.auth_headers@,
    {
        Api {
            url: api_config.url.clone(),
            timespan: Timespan::from(api_config.timespan),
            headers: ApiHeaders::new(ApiHeaders::clone_pairs(&api_config.auth_headers)),
        }
    }

    pub fn set_timespan(&mut self, timespan: Timespan)
        ensures
            final(self).timespan == timespan,
            final(self).url == old(self).url,
            final(self).headers == old(self).headers,
    {
        self.timespan = timespan;
    }

    /// Adds `headers`, overriding existing ones of the same name.
    pub fn add_headers(&mut self, headers: Vec<(String, String)>)
        ensures
            final(self).headers.headers@ == old(self).headers.headers@ + headers@,
            final(self).url == old(self).url,
            final(self).timespan == old(self).timespan,
    {
        self.headers.extend(headers);
    }

    /// Replaces all headers with `headers`.
    pub fn set_headers(&mut self, headers: ApiHeaders)
        ensures
            final(self).headers == headers,
            final(self).url == old(self).url,
            final(self).timespan == old(self).timespan,
    {
        self.headers = headers;
    }
}

} // verus!
