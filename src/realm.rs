//! Auction snapshots as the realm's auction house reports them, and their
//! reduction to one representative row per item.

use vstd::prelude::*;
use itertools::Itertools;
use crate::key::AsKey;

verus! {

/// A link to the realm details.
#[derive(Clone, Debug, PartialEq, Eq)]
pub struct ConnectedRealmLink {
    pub href: String,
}

impl ConnectedRealmLink {
    pub fn new(href: String) -> (r: Self)
        ensures
            r.href@ == href@,
    {
        ConnectedRealmLink { href }
    }

    pub fn href(&self) -> (r: &String)
        ensures
            r@ == self.href@,
    {
        &self.href
    }
}

/// How long an auction has left to run.
#[allow(non_camel_case_types)]
#[derive(Clone, Copy, Debug, PartialEq, Eq)]
pub enum AuctionTime {
    SHORT,
    MEDIUM,
    LONG,
    VERY_LONG,
}

impl AuctionTime {
    /// The bucket's name as the auction API spells it.
    pub fn name(&self) -> (r: &'static str)
        ensures
            r@ == match self {
                AuctionTime::SHORT => "SHORT"@,
                AuctionTime::MEDIUM => "MEDIUM"@,
                AuctionTime::LONG => "LONG"@,
                AuctionTime::VERY_LONG => "VERY_LONG"@,
            },
    {
        match self {
            AuctionTime::SHORT => "SHORT",
            AuctionTime::MEDIUM => "MEDIUM",
            AuctionTime::LONG => "LONG",
            AuctionTime::VERY_LONG => "VERY_LONG",
        }
    }
}

/// The identity of the item that an auction offers.
#[derive(Clone, Copy, Debug, PartialEq, Eq)]
pub struct ItemIden {
    pub id: u64,
    pub context: Option<u16>,
}

impl ItemIden {
    pub fn new(id: u64, context: Option<u16>) -> (r: Self)
        ensures
            r.id == id,
            r.context == context,
    {
        ItemIden { id, context }
    }

    pub fn context(&self) -> (r: Option<u16>)
        ensures
            r == self.context,
    {
        self.context
    }
}

impl AsKey for ItemIden {
    open spec fn key_prefix(&self) -> Seq<char> {
        "item"@
    }

    open spec fn key_id(&self) -> u64 {
        self.id
    }

    fn id(&self) -> (r: u64) {
        self.id
    }

    fn prefix(&self) -> (r: String) {
        String::from_str("item")
    }
}

/// Item reference data: an id and its display name.
#[derive(Clone, Debug, PartialEq, Eq)]
pub struct Item {
    pub id: u64,
    pub en_us: String,
}

impl AsKey for Item {
    open spec fn key_prefix(&self) -> Seq<char> {
        "item"@
    }

    open spec fn key_id(&self) -> u64 {
        self.id
    }

    fn id(&self) -> (r: u64) {
        self.id
    }

    fn prefix(&self) -> (r: String) {
        String::from_str("item")
    }
}

/// An individual auction listing.
#[derive(Clone, Debug, PartialEq, Eq)]
pub struct Auction {
    pub id: u64,
    pub item: ItemIden,
    pub buyout: Option<u64>,
    pub unit_price: Option<u64>,
    pub quantity: u16,
    pub time_left: AuctionTime,
}

impl Auction {
    /// The row that this listing would give: `None` for a buyout-only listing.
    pub fn row(&self) -> (r: Option<AuctionRow>)
        ensures
            r is Some <==> priced(*self),
            r matches Some(row) ==> row_listing(row) == listing_of(*self),
    {
        match self.unit_price {
            Some(p) => Some(
                AuctionRow {
                    item_id: self.item.id,
                    auction_id: self.id,
                    quantity: self.quantity,
                    unit_price: p,
                },
            ),
            None => None,
        }
    }
}

/// The representative observation of one item in one snapshot.
#[derive(Clone, Copy, Debug, PartialEq, Eq)]
pub struct AuctionRow {
    pub item_id: u64,
    pub auction_id: u64,
    pub quantity: u16,
    pub unit_price: u64,
}

impl AsKey for AuctionRow {
    open spec fn key_prefix(&self) -> Seq<char> {
        "item"@
    }

    open spec fn key_id(&self) -> u64 {
        self.item_id
    }

    fn id(&self) -> (r: u64) {
        self.item_id
    }

    fn prefix(&self) -> (r: String) {
        String::from_str("item")
    }
}

/// One auction-house snapshot.
#[derive(Clone, Debug, PartialEq, Eq)]
pub struct AuctionResponse {
    pub connected_realm: ConnectedRealmLink,
    pub auctions: Vec<Auction>,
}

/// A priced listing as `(item id, unit price, auction id, quantity)`.
pub type Listing = (u64, u64, u64, u16);

/// The order of std's `Ord` on tuples: lexicographic.
pub open spec fn listing_le(a: Listing, b: Listing) -> bool {
    a.0 < b.0 || (a.0 == b.0 && (a.1 < b.1 || (a.1 == b.1 && (a.2 < b.2 || (a.2 == b.2 && a.3
        <= b.3)))))
}

/// A listing reduces only when it has a unit price.
pub open spec fn priced(a: Auction) -> bool {
    a.unit_price is Some
}

pub open spec fn listing_of(a: Auction) -> Listing {
    (a.item.id, a.unit_price.unwrap(), a.id, a.quantity)
}

pub open spec fn row_listing(r: AuctionRow) -> Listing {
    (r.item_id, r.unit_price, r.auction_id, r.quantity)
}

/// Relies on itertools' `Itertools::sorted`, which collects the items and
/// sorts them with `slice::sort`: the same items, in ascending `Ord` order.
#[verifier::external_body]
fn sort_listings(v: Vec<Listing>) -> (r: Vec<Listing>)
    ensures
        r@.to_multiset() == v@.to_multiset(),
        forall|i: int, j: int| 0 <= i < j < r@.len() ==> listing_le(r@[i], r@[j]),
{
    v.into_iter().sorted().collect()
}

/// `t` is the listing of some priced auction of `auctions`.
pub open spec fn listed(auctions: Seq<Auction>, t: Listing) -> bool {
    exists|m: int|
        0 <= m < auctions.len() && priced(#[trigger] auctions[m]) && listing_of(auctions[m]) == t
}

/// Some row of `rows` is for the item of `t` and is no more expensive than `t`.
pub open spec fn covered(rows: Seq<AuctionRow>, t: Listing) -> bool {
    exists|a: int|
        0 <= a < rows.len() && (#[trigger] rows[a]).item_id == t.0 && listing_le(
            row_listing(rows[a]),
            t,
        )
}

proof fn lemma_covered_push(rows: Seq<AuctionRow>, r: AuctionRow, t: Listing)
    requires
        covered(rows, t),
    ensures
        covered(rows.push(r), t),
{
    let a = choose|a: int|
        0 <= a < rows.len() && (#[trigger] rows[a]).item_id == t.0 && listing_le(
            row_listing(rows[a]),
            t,
        );
    assert(rows.push(r)[a] == rows[a]);
}

/// The listings that have a unit price, as `(item id, unit price, auction id, quantity)`.
fn priced_listings(auctions: &Vec<Auction>) -> (keys: Vec<Listing>)
    ensures
        forall|j: int| 0 <= j < keys@.len() ==> listed(auctions@, #[trigger] keys@[j]),
        forall|m: int|
            0 <= m < auctions@.len() && priced(#[trigger] auctions@[m]) ==> keys@.contains(
                listing_of(auctions@[m]),
            ),
{
    let mut keys: Vec<Listing> = Vec::new();
    let n = auctions.len();
    let mut k: usize = 0;
    while k < n
        invariant
            n == auctions@.len(),
            k <= n,
            forall|j: int| 0 <= j < keys@.len() ==> listed(auctions@, #[trigger] keys@[j]),
            forall|m: int|
                0 <= m < k && priced(#[trigger] auctions@[m]) ==> keys@.contains(
                    listing_of(auctions@[m]),
                ),
        decreases n - k,
    {
        let ghost old_keys = keys@;
        let a = &auctions[k];
        match a.unit_price {
            Some(p) => {
                keys.push((a.item.id, p, a.id, a.quantity));
                proof {
                    assert(keys@[keys@.len() - 1] == listing_of(auctions@[k as int]));
                    assert(listed(auctions@, keys@[keys@.len() - 1]));
                }
            },
            None => {},
        }
        proof {
            assert forall|j: int| 0 <= j < keys@.len() implies listed(
                auctions@,
                #[trigger] keys@[j],
            ) by {
                if j < old_keys.len() {
                    assert(keys@[j] == old_keys[j]);
                }
            }
            assert forall|m: int|
                0 <= m < k + 1 && priced(#[trigger] auctions@[m]) implies keys@.contains(
                listing_of(auctions@[m]),
            ) by {
                if m == k {
                    assert(keys@[keys@.len() - 1] == listing_of(auctions@[m]));
                } else {
                    assert(old_keys.contains(listing_of(auctions@[m])));
                    let j = choose|j: int|
                        0 <= j < old_keys.len() && old_keys[j] == listing_of(auctions@[m]);
                    assert(keys@[j] == old_keys[j]);
                }
            }
        }
        k = k + 1;
    }
    keys
}

/// The first listing of each run of one item in a sorted sequence, as rows.
#[verifier::rlimit(50)]
fn first_per_item(s: &Vec<Listing>) -> (rows: Vec<AuctionRow>)
    requires
        forall|a: int, b: int| 0 <= a < b < s@.len() ==> listing_le(s@[a], s@[b]),
    ensures
        forall|a: int, b: int| 0 <= a < b < rows@.len() ==> rows@[a].item_id < rows@[b].item_id,
        forall|a: int| 0 <= a < rows@.len() ==> s@.contains(row_listing(#[trigger] rows@[a])),
        forall|j: int| 0 <= j < s@.len() ==> covered(rows@, #[trigger] s@[j]),
{
    let mut rows: Vec<AuctionRow> = Vec::new();
    let ghost mut start: int = 0;
    let mut i: usize = 0;
    while i < s.len()
        invariant
            i <= s@.len(),
            forall|a: int, b: int| 0 <= a < b < s@.len() ==> listing_le(s@[a], s@[b]),
            forall|a: int, b: int| 0 <= a < b < rows@.len() ==> rows@[a].item_id < rows@[b].item_id,
            forall|a: int| 0 <= a < rows@.len() ==> s@.contains(row_listing(#[trigger] rows@[a])),
            forall|j: int| 0 <= j < i ==> covered(rows@, #[trigger] s@[j]),
            i == 0 ==> rows@.len() == 0,
            i > 0 ==> rows@.len() > 0 && 0 <= start < i && row_listing(rows@.last()) == s@[start]
                && s@[start].0 == s@[i - 1].0,
        decreases s@.len() - i,
    {
        let t = s[i];
        let ghost old_rows = rows@;
        if i == 0 || t.0 != s[i - 1].0 {
            let row = AuctionRow { item_id: t.0, auction_id: t.2, quantity: t.3, unit_price: t.1 };
            rows.push(row);
            proof {
                if i > 0 {
                    assert(listing_le(s@[i - 1], s@[i as int]));
                    assert(old_rows.last().item_id == s@[i - 1].0);
                }
                assert forall|a: int, b: int|
                    0 <= a < b < rows@.len() implies rows@[a].item_id < rows@[b].item_id by {
                    assert(rows@[a] == old_rows[a]);
                    if b < old_rows.len() {
                        assert(rows@[b] == old_rows[b]);
                    } else if a < old_rows.len() - 1 {
                        assert(old_rows[a].item_id < old_rows[old_rows.len() - 1].item_id);
                    }
                }
                assert forall|a: int| 0 <= a < rows@.len() implies s@.contains(
                    row_listing(#[trigger] rows@[a]),
                ) by {
                    if a == rows@.len() - 1 {
                        assert(s@[i as int] == row_listing(rows@[a]));
                    } else {
                        assert(rows@[a] == old_rows[a]);
                    }
                }
                assert forall|j: int| 0 <= j < i + 1 implies covered(rows@, #[trigger] s@[j]) by {
                    if j == i {
                        assert(rows@[rows@.len() - 1] == row);
                    } else {
                        lemma_covered_push(old_rows, row, s@[j]);
                    }
                }
                start = i as int;
            }
        } else {
            proof {
                assert(listing_le(s@[start], s@[i as int]));
                assert(rows@[rows@.len() - 1].item_id == s@[i as int].0);
                assert(covered(rows@, s@[i as int]));
            }
        }
        i = i + 1;
    }
    rows
}

impl AuctionResponse {
    pub fn new(connected_realm: ConnectedRealmLink, auctions: Vec<Auction>) -> (r: Self)
        ensures
            r.connected_realm == connected_realm,
            r.auctions == auctions,
    {
        AuctionResponse { connected_realm, auctions }
    }

    /// Reduces the snapshot to one row per item: for each item that has a
    /// listing with a unit price, the listing with the lowest unit price, ties
    /// going to the lowest auction id (then the lowest quantity). Listings
    /// without a unit price (buyout only) are left out. Rows come in ascending
    /// item id.
    pub fn best_auctions(&self) -> (r: Vec<AuctionRow>)
        ensures
            forall|i: int, j: int| 0 <= i < j < r@.len() ==> r@[i].item_id < r@[j].item_id,
            forall|i: int| 0 <= i < r@.len() ==> listed(self.auctions@, row_listing(#[trigger] r@[i])),
            forall|i: int, k: int|
                0 <= i < r@.len() && 0 <= k < self.auctions@.len() && priced(
                    #[trigger] self.auctions@[k],
                ) && self.auctions@[k].item.id == #[trigger] r@[i].item_id ==> listing_le(
                    row_listing(r@[i]),
                    listing_of(self.auctions@[k]),
                ),
            forall|k: int|
                0 <= k < self.auctions@.len() && priced(#[trigger] self.auctions@[k]) ==> exists|
                    i: int,
                | 0 <= i < r@.len() && (#[trigger] r@[i]).item_id == self.auctions@[k].item.id,
    {
        let keys = priced_listings(&self.auctions);
        let ghost keys_seq = keys@;
        let s = sort_listings(keys);
        let rows = first_per_item(&s);
        proof {
            broadcast use vstd::seq_lib::group_to_multiset_ensures;

            assert forall|t: Listing| #[trigger] s@.contains(t) <==> keys_seq.contains(t) by {
                assert(s@.contains(t) <==> s@.to_multiset().count(t) > 0);
                assert(keys_seq.contains(t) <==> keys_seq.to_multiset().count(t) > 0);
            }
            assert forall|i: int| 0 <= i < rows@.len() implies listed(
                self.auctions@,
                row_listing(#[trigger] rows@[i]),
            ) by {
                let t = row_listing(rows@[i]);
                assert(s@.contains(t));
                let jj = choose|jj: int| 0 <= jj < keys_seq.len() && keys_seq[jj] == t;
                assert(listed(self.auctions@, keys_seq[jj]));
            }
            assert forall|k: int|
                0 <= k < self.auctions@.len() && priced(#[trigger] self.auctions@[k]) implies covered(
                rows@,
                listing_of(self.auctions@[k]),
            ) by {
                let t = listing_of(self.auctions@[k]);
                assert(keys_seq.contains(t));
                assert(s@.contains(t));
                let j = choose|j: int| 0 <= j < s@.len() && s@[j] == t;
                assert(covered(rows@, s@[j]));
            }
            assert forall|i: int, k: int|
                0 <= i < rows@.len() && 0 <= k < self.auctions@.len() && priced(
                    #[trigger] self.auctions@[k],
                ) && self.auctions@[k].item.id == #[trigger] rows@[i].item_id implies listing_le(
                row_listing(rows@[i]),
                listing_of(self.auctions@[k]),
            ) by {
                let t = listing_of(self.auctions@[k]);
                assert(covered(rows@, t));
                let a = choose|a: int|
                    0 <= a < rows@.len() && (#[trigger] rows@[a]).item_id == t.0 && listing_le(
                        row_listing(rows@[a]),
                        t,
                    );
                if a < i {
                    assert(rows@[a].item_id < rows@[i].item_id);
                } else if i < a {
                    assert(rows@[i].item_id < rows@[a].item_id);
                }
            }
            assert forall|k: int|
                0 <= k < self.auctions@.len() && priced(#[trigger] self.auctions@[k]) implies exists|
                i: int,
            | 0 <= i < rows@.len() && (#[trigger] rows@[i]).item_id
                == self.auctions@[k].item.id by {
                assert(covered(rows@, listing_of(self.auctions@[k])));
            }
        }
        rows
    }
}

} // verus!
