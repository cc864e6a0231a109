//! The time-series store: the command shapes that append and read
//! observations, and an in-memory store with the same semantics.

use vstd::prelude::*;
use crate::key::{decimal, decimal_string, signed_decimal, signed_decimal_string};
use crate::realm::AuctionRow;
use crate::series::ItemSnapshot;

verus! {

/// The retention, in seconds, given to a series when it is created.
pub const DEFAULT_RETENTION_SECS: u64 = 9999999999;

/// Why a store operation failed.
#[derive(Clone, Debug, PartialEq, Eq)]
pub enum StoreError {
    /// The store could not be reached.
    Connect(String),
    /// An observation could not be appended under `key`.
    Write { key: String },
    /// The observations under `key` could not be read.
    Read { key: String },
}

pub open spec fn views(v: Seq<String>) -> Seq<Seq<char>> {
    v.map_values(|s: String| s@)
}

pub open spec fn label_views(v: Seq<(String, String)>) -> Seq<(Seq<char>, Seq<char>)> {
    v.map_values(|l: (String, String)| (l.0@, l.1@))
}

/// Labels as the alternating names and values that a command carries.
pub open spec fn flatten_labels(l: Seq<(Seq<char>, Seq<char>)>) -> Seq<Seq<char>>
    decreases l.len(),
{
    if l.len() == 0 {
        Seq::empty()
    } else {
        flatten_labels(l.drop_last()) + seq![l.last().0, l.last().1]
    }
}

/// The append command: `TS.ADD key ts value RETENTION secs LABELS name value ...`.
pub open spec fn append_args(
    key: Seq<char>,
    ts: i64,
    value: u64,
    labels: Seq<(Seq<char>, Seq<char>)>,
    retention: u64,
) -> Seq<Seq<char>> {
    seq![
        "TS.ADD"@,
        key,
        signed_decimal(ts as int),
        decimal(value as nat),
        "RETENTION"@,
        decimal(retention as nat),
        "LABELS"@,
    ] + flatten_labels(labels)
}

/// The labels of a stored row: its auction id, item id and quantity.
pub open spec fn row_label_views(row: AuctionRow) -> Seq<(Seq<char>, Seq<char>)> {
    seq![
        ("auction_id"@, decimal(row.auction_id as nat)),
        ("item"@, decimal(row.item_id as nat)),
        ("quantity"@, decimal(row.quantity as nat)),
    ]
}

/// The labels attached to the observation of `row`.
pub fn row_labels(row: &AuctionRow) -> (r: Vec<(String, String)>)
    ensures
        label_views(r@) == row_label_views(*row),
{
    let mut r: Vec<(String, String)> = Vec::new();
    r.push((String::from_str("auction_id"), decimal_string(row.auction_id)));
    r.push((String::from_str("item"), decimal_string(row.item_id)));
    r.push((String::from_str("quantity"), decimal_string(row.quantity as u64)));
    assert(label_views(r@) =~= row_label_views(*row));
    r
}

/// The command that appends `(ts, value)` under `key`, creating the series
/// with `retention` and `labels` when it does not exist yet.
pub fn append_command(
    key: &str,
    ts: i64,
    value: u64,
    labels: &Vec<(String, String)>,
    retention: u64,
) -> (r: Vec<String>)
    ensures
        views(r@) == append_args(key@, ts, value, label_views(labels@), retention),
{
    let mut r: Vec<String> = Vec::new();
    r.push(String::from_str("TS.ADD"));
    r.push(String::from_str(key));
    r.push(signed_decimal_string(ts));
    r.push(decimal_string(value));
    r.push(String::from_str("RETENTION"));
    r.push(decimal_string(retention));
    r.push(String::from_str("LABELS"));
    let ghost head = views(r@);
    let mut i: usize = 0;
    while i < labels.len()
        invariant
            i <= labels@.len(),
            views(r@) == head + flatten_labels(label_views(labels@).take(i as int)),
        decreases labels@.len() - i,
    {
        let ghost before = r@;
        let name = labels[i].0.clone();
        let value = labels[i].1.clone();
        r.push(name);
        r.push(value);
        assert(views(r@) =~= views(before) + seq![labels@[i as int].0@, labels@[i as int].1@]);
        assert(label_views(labels@).take(i + 1).last() == (labels@[i as int].0@, labels@[
            i as int].1@));
        assert(label_views(labels@).take(i + 1).drop_last() =~= label_views(labels@).take(
            i as int,
        ));
        assert(views(r@) =~= head + flatten_labels(label_views(labels@).take(i + 1)));
        i = i + 1;
    }
    assert(label_views(labels@).take(labels@.len() as int) =~= label_views(labels@));
    r
}

/// The command that reads every retained observation under `key`:
/// `TS.RANGE key - +`.
pub fn range_command(key: &str) -> (r: Vec<String>)
    ensures
        views(r@) == seq!["TS.RANGE"@, key@, "-"@, "+"@],
{
    let mut r: Vec<String> = Vec::new();
    r.push(String::from_str("TS.RANGE"));
    r.push(String::from_str(key));
    r.push(String::from_str("-"));
    r.push(String::from_str("+"));
    assert(views(r@) =~= seq!["TS.RANGE"@, key@, "-"@, "+"@]);
    r
}


/// One series as the store holds it.
pub struct SeriesState {
    pub key: Seq<char>,
    pub retention: u64,
    pub labels: Seq<(Seq<char>, Seq<char>)>,
    pub points: Seq<ItemSnapshot>,
}

/// Timestamps strictly ascending.
pub open spec fn ascending_ts(p: Seq<ItemSnapshot>) -> bool {
    forall|i: int, j: int| 0 <= i < j < p.len() ==> p[i].ts < p[j].ts
}

pub open spec fn has_ts(p: Seq<ItemSnapshot>, ts: i64) -> bool {
    exists|i: int| 0 <= i < p.len() && (#[trigger] p[i]).ts == ts
}

/// How an append of `p` under `key` changes the store, and whether it succeeds:
/// a new key gets a series with the given retention and labels; an existing
/// one keeps its retention and labels and gains the observation, in timestamp
/// order, unless it already holds one at that timestamp, which is refused.
pub open spec fn appended(
    before: Seq<SeriesState>,
    after: Seq<SeriesState>,
    key: Seq<char>,
    p: ItemSnapshot,
    labels: Seq<(Seq<char>, Seq<char>)>,
    retention: u64,
    ok: bool,
) -> bool {
    if exists|e: int| 0 <= e < before.len() && (#[trigger] before[e]).key == key {
        &&& after.len() == before.len()
        &&& forall|e: int|
            0 <= e < before.len() ==> if (#[trigger] before[e]).key == key {
                if has_ts(before[e].points, p.ts) {
                    !ok && after[e] == before[e]
                } else {
                    &&& ok
                    &&& after[e].key == key
                    &&& after[e].retention == before[e].retention
                    &&& after[e].labels == before[e].labels
                    &&& ascending_ts(after[e].points)
                    &&& after[e].points.to_set() == before[e].points.to_set().insert(p)
                }
            } else {
                after[e] == before[e]
            }
    } else {
        &&& ok
        &&& after == before.push(
            SeriesState { key, retention, labels, points: seq![p] },
        )
    }
}

struct TimeSeries {
    key: String,
    retention: u64,
    labels: Vec<(String, String)>,
    points: Vec<ItemSnapshot>,
}

/// An in-memory time-series store.
pub struct SeriesStore {
    series: Vec<TimeSeries>,
}

spec fn state_of(t: TimeSeries) -> SeriesState {
    SeriesState { key: t.key@, retention: t.retention, labels: label_views(t.labels@), points: t.points@ }
}

/// Inserts `p` in timestamp order, unless a point with its timestamp is there.
fn insert_point(points: &mut Vec<ItemSnapshot>, p: ItemSnapshot) -> (ok: bool)
    requires
        ascending_ts(old(points)@),
    ensures
        ok == !has_ts(old(points)@, p.ts),
        ascending_ts(final(points)@),
        ok ==> final(points)@.to_set() == old(points)@.to_set().insert(p),
        !ok ==> final(points)@ == old(points)@,
{
    let mut i: usize = 0;
    while i < points.len() && points[i].ts < p.ts
        invariant
            i <= points@.len(),
            forall|k: int| 0 <= k < i ==> points@[k].ts < p.ts,
        decreases points@.len() - i,
    {
        i = i + 1;
    }
    if i < points.len() && points[i].ts == p.ts {
        return false;
    }
    let ghost before = points@;
    assert(!has_ts(before, p.ts)) by {
        assert forall|k: int| 0 <= k < before.len() implies (#[trigger] before[k]).ts != p.ts by {
            if k > i {
                assert(before[i as int].ts < before[k].ts);
            }
        }
    }
    points.insert(i, p);
    proof {
        assert forall|x: ItemSnapshot| #[trigger] points@.to_set().contains(x) <==> before.to_set().insert(
            p,
        ).contains(x) by {
            if points@.to_set().contains(x) {
                let k = choose|k: int| 0 <= k < points@.len() && points@[k] == x;
                if k < i {
                    assert(before[k] == x);
                } else if k > i {
                    assert(before[k - 1] == x);
                }
            }
            if before.contains(x) {
                let k = choose|k: int| 0 <= k < before.len() && before[k] == x;
                if k < i {
                    assert(points@[k] == x);
                } else {
                    assert(points@[k + 1] == x);
                }
            }
            if x == p {
                assert(points@[i as int] == x);
            }
        }
        assert(points@.to_set() =~= before.to_set().insert(p));
    }
    true
}

fn clone_labels(l: &Vec<(String, String)>) -> (r: Vec<(String, String)>)
    ensures
        label_views(r@) == label_views(l@),
{
    let mut r: Vec<(String, String)> = Vec::new();
    let mut i: usize = 0;
    while i < l.len()
        invariant
            i <= l@.len(),
            label_views(r@) == label_views(l@).take(i as int),
        decreases l@.len() - i,
    {
        let name = l[i].0.clone();
        let value = l[i].1.clone();
        let ghost before = r@;
        r.push((name, value));
        assert(label_views(r@) =~= label_views(before).push((l@[i as int].0@, l@[i as int].1@)));
        assert(label_views(l@).take(i + 1) =~= label_views(l@).take(i as int).push(
            (l@[i as int].0@, l@[i as int].1@),
        ));
        i = i + 1;
    }
    assert(label_views(l@).take(l@.len() as int) =~= label_views(l@));
    r
}

impl SeriesStore {
    /// The series held, in creation order.
    pub closed spec fn state(&self) -> Seq<SeriesState> {
        self.series@.map_values(|t: TimeSeries| state_of(t))
    }

    /// Keys are distinct and each series is in timestamp order.
    pub closed spec fn wf(&self) -> bool {
        &&& forall|i: int, j: int|
            0 <= i < j < self.series@.len() ==> self.series@[i].key@ != self.series@[j].key@
        &&& forall|i: int|
            0 <= i < self.series@.len() ==> ascending_ts((#[trigger] self.series@[i]).points@)
    }

    /// An empty store.
    pub fn new() -> (r: SeriesStore)
        ensures
            r.wf(),
            r.state() == Seq::<SeriesState>::empty(),
    {
        let r = SeriesStore { series: Vec::new() };
        assert(r.state() =~= Seq::<SeriesState>::empty());
        r
    }

    fn find(&self, key: &str) -> (r: Option<usize>)
        ensures
            r matches Some(e) ==> e < self.series@.len() && self.series@[e as int].key@ == key@,
            r is None ==> forall|e: int|
                0 <= e < self.series@.len() ==> (#[trigger] self.series@[e]).key@ != key@,
    {
        let k = String::from_str(key);
        let mut i: usize = 0;
        while i < self.series.len()
            invariant
                i <= self.series@.len(),
                k@ == key@,
                forall|e: int| 0 <= e < i ==> (#[trigger] self.series@[e]).key@ != key@,
            decreases self.series@.len() - i,
        {
            if self.series[i].key == k {
                return Some(i);
            }
            i = i + 1;
        }
        None
    }

    /// Appends the observation `(ts, value)` under `key`. The first append to a
    /// key creates its series with `retention` and `labels`; later ones keep
    /// the series' own. An observation at a timestamp the series already holds
    /// is refused with a write error naming the key.
    pub fn append(
        &mut self,
        key: &str,
        ts: i64,
        value: u64,
        labels: &Vec<(String, String)>,
        retention: u64,
    ) -> (r: Result<(), StoreError>)
        requires
            old(self).wf(),
        ensures
            final(self).wf(),
            appended(
                old(self).state(),
                final(self).state(),
                key@,
                ItemSnapshot { ts, value },
                label_views(labels@),
                retention,
                r is Ok,
            ),
            r matches Err(e) ==> e matches StoreError::Write { key: k } && k@ == key@,
    {
        let p = ItemSnapshot { ts, value };
        let ghost before = self.state();
        match self.find(key) {
            Some(e) => {
                let mut points = self.series[e].points.clone();
                assert(points@ =~= self.series@[e as int].points@);
                let ok = insert_point(&mut points, p);
                assert(before[e as int].key == key@);
                assert(before[e as int].points == self.series@[e as int].points@);
                if !ok {
                    proof {
                        assert forall|k: int|
                            0 <= k < before.len() && (#[trigger] before[k]).key == key@ implies k
                            == e by {
                            if k != e {
                                assert(self.series@[k].key@ != self.series@[e as int].key@);
                            }
                        }
                    }
                    return Err(StoreError::Write { key: String::from_str(key) });
                }
                let t = TimeSeries {
                    key: self.series[e].key.clone(),
                    retention: self.series[e].retention,
                    labels: clone_labels(&self.series[e].labels),
                    points,
                };
                assert(label_views(t.labels@) =~= label_views(self.series@[e as int].labels@));
                self.series[e] = t;
                proof {
                    assert forall|k: int|
                        0 <= k < before.len() && (#[trigger] before[k]).key == key@ implies k
                        == e by {
                        if k != e {
                            assert(old(self).series@[k].key@ != old(self).series@[e as int].key@);
                        }
                    }
                    assert forall|k: int| 0 <= k < before.len() && k != e implies (
                    #[trigger] self.state()[k]) == before[k] by {
                        assert(self.series@[k] == old(self).series@[k]);
                    }
                }
                Ok(())
            },
            None => {
                let t = TimeSeries {
                    key: String::from_str(key),
                    retention,
                    labels: clone_labels(labels),
                    points: vec![p],
                };
                assert(label_views(t.labels@) =~= label_views(labels@));
                assert(t.points@ =~= seq![p]);
                assert(t.key@ == key@);
                self.series.push(t);
                proof {
                    assert(self.state() =~= before.push(
                        SeriesState {
                            key: key@,
                            retention,
                            labels: label_views(labels@),
                            points: seq![p],
                        },
                    ));
                    assert forall|k: int| 0 <= k < before.len() implies (
                    #[trigger] before[k]).key != key@ by {
                        assert(old(self).series@[k].key@ != key@);
                    }
                }
                Ok(())
            },
        }
    }

    /// Every observation held under `key`, in ascending timestamp order; a
    /// read error naming the key when there is no such series.
    pub fn range(&self, key: &str) -> (r: Result<Vec<ItemSnapshot>, StoreError>)
        requires
            self.wf(),
        ensures
            r matches Ok(v) ==> exists|e: int|
                0 <= e < self.state().len() && (#[trigger] self.state()[e]).key == key@
                    && v@ == self.state()[e].points,
            r matches Ok(v) ==> ascending_ts(v@),
            r is Err <==> forall|e: int|
                0 <= e < self.state().len() ==> (#[trigger] self.state()[e]).key != key@,
            r matches Err(e) ==> e matches StoreError::Read { key: k } && k@ == key@,
    {
        match self.find(key) {
            Some(e) => {
                let v = self.series[e].points.clone();
                assert(v@ =~= self.series@[e as int].points@);
                assert(self.state()[e as int].key == key@);
                Ok(v)
            },
            None => {
                assert forall|e: int| 0 <= e < self.state().len() implies (
                #[trigger] self.state()[e]).key != key@ by {
                    assert(self.series@[e].key@ != key@);
                }
                Err(StoreError::Read { key: String::from_str(key) })
            },
        }
    }
}


/// One bulk string of the store's wire protocol: `$<byte length>\r\n<arg>\r\n`.
pub open spec fn resp_bulk(a: Seq<char>) -> Seq<char> {
    seq!['$'] + decimal((vstd::utf8::encode_utf8(a).len() as usize) as nat) + seq!['\r', '\n'] + a
        + seq!['\r', '\n']
}

pub open spec fn resp_bulks(args: Seq<Seq<char>>) -> Seq<char>
    decreases args.len(),
{
    if args.len() == 0 {
        Seq::empty()
    } else {
        resp_bulks(args.drop_last()) + resp_bulk(args.last())
    }
}

/// A command in the wire protocol: `*<count>\r\n` and then each argument as a
/// bulk string.
pub open spec fn resp_command(args: Seq<Seq<char>>) -> Seq<char> {
    seq!['*'] + decimal(args.len()) + seq!['\r', '\n'] + resp_bulks(args)
}

/// Encodes a command in the store's wire protocol, for bulk loading.
pub fn redis_proto(args: &Vec<String>) -> (r: String)
    ensures
        r@ == resp_command(views(args@)),
{
    let mut out: Vec<char> = Vec::new();
    out.push('*');
    crate::key::push_decimal(&mut out, args.len() as u64);
    out.push('\r');
    out.push('\n');
    let ghost head = out@;
    let mut i: usize = 0;
    while i < args.len()
        invariant
            i <= args@.len(),
            out@ == head + resp_bulks(views(args@).take(i as int)),
        decreases args@.len() - i,
    {
        let a = args[i].as_str();
        let ghost before = out@;
        out.push('$');
        crate::key::push_decimal(&mut out, a.len() as u64);
        out.push('\r');
        out.push('\n');
        for c in it: a.chars()
            invariant
                out@ == before + seq!['$'] + decimal((vstd::utf8::encode_utf8(a@).len() as usize) as nat)
                    + seq!['\r', '\n'] + it.seq().take(it.index() as int),
        {
            out.push(c);
            assert(it.seq().take(it.index() + 1) =~= it.seq().take(it.index() as int).push(c));
        }
        out.push('\r');
        out.push('\n');
        assert(views(args@).take(i + 1).drop_last() =~= views(args@).take(i as int));
        assert(views(args@).take(i + 1).last() == a@);
        assert(out@ =~= head + resp_bulks(views(args@).take(i + 1)));
        i = i + 1;
    }
    assert(views(args@).take(args@.len() as int) =~= views(args@));
    assert(out@ =~= resp_command(views(args@)));
    crate::text::string_of(&out)
}


/// A request to store the row of one item observed at `timestamp`.
#[derive(Clone, Debug, PartialEq, Eq)]
pub struct StoreAuction {
    pub db_host: String,
    pub auction_row: AuctionRow,
    pub timestamp: i64,
}

/// The outcome of storing one row.
#[derive(Clone, Debug, PartialEq, Eq)]
pub enum StorageResult {
    Failed(String),
    Success,
}

/// Writes reduced rows as observations, one independent append per row.
#[derive(Clone, Copy, Debug, PartialEq, Eq)]
pub struct StorageActor {
    /// The retention given to a series when the first row creates it.
    pub retention: u64,
}

impl Default for StorageActor {
    fn default() -> (r: Self)
        ensures
            r.retention == DEFAULT_RETENTION_SECS,
    {
        StorageActor { retention: DEFAULT_RETENTION_SECS }
    }
}

impl StorageActor {
    /// The append command for the row of `msg`: its unit price at the
    /// message's timestamp under the row's key, labelled with the row's
    /// auction id, item id and quantity.
    pub fn command(&self, msg: &StoreAuction) -> (r: Vec<String>)
        ensures
            views(r@) == append_args(
                crate::key::key_of("item"@, msg.auction_row.item_id),
                msg.timestamp,
                msg.auction_row.unit_price,
                row_label_views(msg.auction_row),
                self.retention,
            ),
    {
        let key = crate::key::to_key(&msg.auction_row);
        let labels = row_labels(&msg.auction_row);
        append_command(
            key.as_str(),
            msg.timestamp,
            msg.auction_row.unit_price,
            &labels,
            self.retention,
        )
    }

    /// Appends the row of `msg` to `store` under the row's key.
    pub fn store(&self, store: &mut SeriesStore, msg: &StoreAuction) -> (r: Result<(), StoreError>)
        requires
            old(store).wf(),
        ensures
            final(store).wf(),
            appended(
                old(store).state(),
                final(store).state(),
                crate::key::key_of("item"@, msg.auction_row.item_id),
                ItemSnapshot { ts: msg.timestamp, value: msg.auction_row.unit_price },
                row_label_views(msg.auction_row),
                self.retention,
                r is Ok,
            ),
            r matches Err(e) ==> e matches StoreError::Write { key: k } && k@ == crate::key::key_of(
                "item"@,
                msg.auction_row.item_id,
            ),
    {
        let key = crate::key::to_key(&msg.auction_row);
        let labels = row_labels(&msg.auction_row);
        store.append(
            key.as_str(),
            msg.timestamp,
            msg.auction_row.unit_price,
            &labels,
            self.retention,
        )
    }
}

} // verus!
