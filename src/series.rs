//! Price observations of one item over time and their min/max summary.

use vstd::prelude::*;
use crate::realm::Item;
use crate::store::StoreError;

verus! {

/// One observation: a unix timestamp in seconds and a price.
#[derive(Clone, Copy, Debug, PartialEq, Eq)]
pub struct ItemSnapshot {
    pub ts: i64,
    pub value: u64,
}

/// The observations held under one key, oldest first.
#[derive(Clone, Debug, PartialEq, Eq)]
pub struct ItemSnapshots {
    pub snapshots: Vec<ItemSnapshot>,
}

/// The lowest and the highest observation of a non-empty range.
#[derive(Clone, Copy, Debug, PartialEq, Eq)]
pub struct Summary {
    pub min: ItemSnapshot,
    pub max: ItemSnapshot,
}

/// A time series of prices for an item, with its summary when it has data.
#[derive(Clone, Debug, PartialEq, Eq)]
pub struct Series {
    pub id: u64,
    pub name: String,
    pub prices: Vec<ItemSnapshot>,
    pub min: Option<(i64, u64)>,
    pub max: Option<(i64, u64)>,
}

/// `m` is a lowest observation of `obs`, the earliest among equal values.
pub open spec fn is_min_of(obs: Seq<ItemSnapshot>, m: ItemSnapshot) -> bool {
    &&& obs.contains(m)
    &&& forall|k: int|
        0 <= k < obs.len() ==> m.value < (#[trigger] obs[k]).value || (m.value == obs[k].value
            && m.ts <= obs[k].ts)
}

/// `m` is a highest observation of `obs`, the earliest among equal values.
pub open spec fn is_max_of(obs: Seq<ItemSnapshot>, m: ItemSnapshot) -> bool {
    &&& obs.contains(m)
    &&& forall|k: int|
        0 <= k < obs.len() ==> m.value > (#[trigger] obs[k]).value || (m.value == obs[k].value
            && m.ts <= obs[k].ts)
}

/// The lowest and highest observation, ties going to the earliest timestamp;
/// `None` when there is no data.
pub fn summarize(obs: &Vec<ItemSnapshot>) -> (r: Option<Summary>)
    ensures
        r is None <==> obs@.len() == 0,
        r matches Some(s) ==> is_min_of(obs@, s.min) && is_max_of(obs@, s.max),
{
    if obs.len() == 0 {
        return None;
    }
    let mut lo = obs[0];
    let mut hi = obs[0];
    let mut i: usize = 1;
    assert(obs@.take(1)[0] == lo);
    while i < obs.len()
        invariant
            1 <= i <= obs@.len(),
            is_min_of(obs@.take(i as int), lo),
            is_max_of(obs@.take(i as int), hi),
        decreases obs@.len() - i,
    {
        let o = obs[i];
        let ghost prefix = obs@.take(i as int);
        assert(obs@.take(i + 1) =~= prefix.push(o));
        if o.value < lo.value || (o.value == lo.value && o.ts < lo.ts) {
            lo = o;
        }
        if o.value > hi.value || (o.value == hi.value && o.ts < hi.ts) {
            hi = o;
        }
        proof {
            let next = obs@.take(i + 1);
            assert(next[i as int] == o);
            assert forall|k: int| 0 <= k < i implies next[k] == prefix[k] by {}
            assert(next.contains(lo)) by {
                if lo != o {
                    let j = choose|j: int| 0 <= j < prefix.len() && prefix[j] == lo;
                    assert(next[j] == lo);
                }
            }
            assert(next.contains(hi)) by {
                if hi != o {
                    let j = choose|j: int| 0 <= j < prefix.len() && prefix[j] == hi;
                    assert(next[j] == hi);
                }
            }
        }
        i = i + 1;
    }
    assert(obs@.take(obs@.len() as int) =~= obs@);
    Some(Summary { min: lo, max: hi })
}

impl ItemSnapshots {
    /// The observations of a range reply, given as `(timestamp, value)` pairs.
    pub fn from_pairs(pairs: &Vec<(i64, u64)>) -> (r: ItemSnapshots)
        ensures
            r.snapshots@.len() == pairs@.len(),
            forall|i: int|
                0 <= i < pairs@.len() ==> (#[trigger] r.snapshots@[i]).ts == pairs@[i].0
                    && r.snapshots@[i].value == pairs@[i].1,
    {
        let mut snapshots: Vec<ItemSnapshot> = Vec::new();
        let mut i: usize = 0;
        while i < pairs.len()
            invariant
                i <= pairs@.len(),
                snapshots@.len() == i,
                forall|j: int|
                    0 <= j < i ==> (#[trigger] snapshots@[j]).ts == pairs@[j].0
                        && snapshots@[j].value == pairs@[j].1,
            decreases pairs@.len() - i,
        {
            snapshots.push(ItemSnapshot { ts: pairs[i].0, value: pairs[i].1 });
            i = i + 1;
        }
        ItemSnapshots { snapshots }
    }
}

/// `s` is the series of item `id` named `name` over `prices`, with the lowest
/// and highest observation as `(timestamp, value)`, or none when empty.
pub open spec fn is_series_of(s: Series, id: u64, name: Seq<char>, prices: Seq<ItemSnapshot>) -> bool {
    &&& s.id == id
    &&& s.name@ == name
    &&& s.prices@ == prices
    &&& s.min is None <==> prices.len() == 0
    &&& s.max is None <==> prices.len() == 0
    &&& s.min matches Some(m) ==> is_min_of(prices, ItemSnapshot { ts: m.0, value: m.1 })
    &&& s.max matches Some(m) ==> is_max_of(prices, ItemSnapshot { ts: m.0, value: m.1 })
}

/// The answer to a series query for a known item: its series over what the
/// store returned, or the store's read error.
pub fn series_reply(item: Item, range: Result<Vec<ItemSnapshot>, StoreError>) -> (r: Result<
    Series,
    StoreError,
>)
    ensures
        match range {
            Ok(p) => r matches Ok(s) && is_series_of(s, item.id, item.en_us@, p@),
            Err(e) => r == Err::<Series, StoreError>(e),
        },
{
    match range {
        Ok(prices) => Ok(Series::new(item.id, item.en_us, prices)),
        Err(e) => Err(e),
    }
}

impl Series {
    /// The series of item `id` named `name` over `prices`, with the lowest and
    /// highest observation as `(timestamp, value)`, or none when empty.
    pub fn new(id: u64, name: String, prices: Vec<ItemSnapshot>) -> (r: Series)
        ensures
            is_series_of(r, id, name@, prices@),
    {
        let s = summarize(&prices);
        let (min, max) = match s {
            Some(s) => (Some((s.min.ts, s.min.value)), Some((s.max.ts, s.max.value))),
            None => (None, None),
        };
        Series { id, name, prices, min, max }
    }
}

} // verus!
