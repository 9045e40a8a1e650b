//! The market to trade.

use crate::clock::{closing_moment, moment_view, rfc3339_time, Moment};
use vstd::prelude::*;
use vstd::string::*;

verus! {

/// A market, as the exchange lists it.
#[derive(Debug, Clone)]
pub struct Market {
    pub ticker: String,
    pub title: String,
    pub close_time: Option<String>,
}

impl Market {
    /// When the market closes, where that is known.
    pub open spec fn closing(&self) -> Option<(i64, u32)> {
        match self.close_time {
            Some(text) => rfc3339_time(text@),
            None => None,
        }
    }
}

/// Whether `a` comes before `b`; a time that is not known comes after all others.
pub open spec fn sooner(a: Option<(i64, u32)>, b: Option<(i64, u32)>) -> bool {
    match (a, b) {
        (Some((a_secs, a_nanos)), Some((b_secs, b_nanos))) => a_secs < b_secs || (a_secs == b_secs && a_nanos < b_nanos),
        (Some(_), None) => true,
        (None, _) => false,
    }
}

fn is_sooner(a: Option<Moment>, b: Option<Moment>) -> (r: bool)
    ensures
        r == sooner(moment_view(a), moment_view(b)),
{
    match (a, b) {
        (Some(x), Some(y)) => x.secs < y.secs || (x.secs == y.secs && x.nanos < y.nanos),
        (Some(_), None) => true,
        (None, _) => false,
    }
}

/// Whether the `k`th of `closings` is the soonest, and the first of those that are.
pub open spec fn is_soonest(closings: Seq<Option<(i64, u32)>>, k: int) -> bool {
    &&& 0 <= k < closings.len()
    &&& forall|i: int| 0 <= i < k ==> sooner(closings[k], #[trigger] closings[i])
    &&& forall|i: int| k < i < closings.len() ==> !sooner(#[trigger] closings[i], closings[k])
}

/// When each of `closings` is.
pub open spec fn closings_view(closings: Seq<Option<Moment>>) -> Seq<Option<(i64, u32)>> {
    closings.map_values(|closing: Option<Moment>| moment_view(closing))
}

/// The place of the soonest of `closings`, and of the first of those that are.
pub fn first_to_close(closings: &Vec<Option<Moment>>) -> (r: Option<usize>)
    ensures
        match r {
            Some(k) => is_soonest(closings_view(closings@), k as int),
            None => closings@.len() == 0,
        },
{
    if closings.len() == 0 {
        return None;
    }
    let ghost views = closings_view(closings@);
    let mut best: usize = 0;
    let mut i: usize = 1;
    while i < closings.len()
        invariant
            best < i <= closings@.len(),
            views == closings_view(closings@),
            forall|k: int| 0 <= k < best ==> sooner(views[best as int], #[trigger] views[k]),
            forall|k: int| best < k < i ==> !sooner(#[trigger] views[k], views[best as int]),
        decreases closings.len() - i,
    {
        assert(views[i as int] == moment_view(closings@[i as int]));
        assert(views[best as int] == moment_view(closings@[best as int]));
        if is_sooner(closings[i], closings[best]) {
            best = i;
        }
        i = i + 1;
    }
    Some(best)
}

/// When each of `markets` closes.
pub open spec fn closings_of(markets: Seq<Market>) -> Seq<Option<(i64, u32)>> {
    markets.map_values(|market: Market| market.closing())
}

/// The one of the open `markets` that closes first.
pub fn current_market(markets: &Vec<Market>) -> (r: Option<&Market>)
    ensures
        match r {
            Some(market) => exists|k: int| #[trigger]
                is_soonest(closings_of(markets@), k) && *market == markets@[k],
            None => markets@.len() == 0,
        },
{
    let mut closings: Vec<Option<Moment>> = Vec::new();
    let mut i: usize = 0;
    while i < markets.len()
        invariant
            i <= markets@.len(),
            closings@.len() == i,
            forall|k: int| 0 <= k < i ==> moment_view(#[trigger] closings@[k]) == markets@[k].closing(),
        decreases markets.len() - i,
    {
        let closing: Option<Moment> = match &markets[i].close_time {
            Some(text) => closing_moment(Some(text.as_str())),
            None => None,
        };
        closings.push(closing);
        i = i + 1;
    }
    assert(closings_view(closings@) =~= closings_of(markets@));
    match first_to_close(&closings) {
        Some(k) => Some(&markets[k]),
        None => None,
    }
}

} // verus!
