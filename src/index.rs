//! The item metadata index: id to display name, and sanitised name to the
//! ids that carry it, with exact and prefix search.

use std::collections::HashMap;
use vstd::prelude::*;
use crate::realm::Item;
use crate::sanitize::{sanitise_name, sanitized};
use crate::text::chars_of;

verus! {

/// One entry of the name index: a sanitised name and its ids, ascending.
#[derive(Clone, Debug)]
pub struct NameEntry {
    pub token: String,
    pub ids: Vec<u64>,
}

/// Item reference data indexed by id and by sanitised name. Entries keep the
/// order in which their names were first loaded.
pub struct MetadataIndex {
    names: HashMap<u64, String>,
    entries: Vec<NameEntry>,
}

pub open spec fn strictly_ascending(s: Seq<u64>) -> bool {
    forall|i: int, j: int| 0 <= i < j < s.len() ==> s[i] < s[j]
}

/// The ids of the entries whose name starts with `t`, entry by entry, each
/// entry's ids ascending.
pub open spec fn matching_ids(entries: Seq<(Seq<char>, Seq<u64>)>, t: Seq<char>) -> Seq<u64>
    decreases entries.len(),
{
    if entries.len() == 0 {
        Seq::empty()
    } else {
        matching_ids(entries.drop_last(), t) + if t.is_prefix_of(entries.last().0) {
            entries.last().1
        } else {
            Seq::empty()
        }
    }
}

/// Whether `t` is a prefix of `s`.
fn starts_with(s: &Vec<char>, t: &Vec<char>) -> (r: bool)
    ensures
        r == t@.is_prefix_of(s@),
{
    if t.len() > s.len() {
        return false;
    }
    let mut i: usize = 0;
    while i < t.len()
        invariant
            t@.len() <= s@.len(),
            i <= t@.len(),
            forall|k: int| 0 <= k < i ==> t@[k] == s@[k],
        decreases t@.len() - i,
    {
        if t[i] != s[i] {
            assert(t@[i as int] != s@.subrange(0, t@.len() as int)[i as int]);
            return false;
        }
        i = i + 1;
    }
    assert(t@ =~= s@.subrange(0, t@.len() as int));
    true
}

/// Adds `id` to an ascending list of distinct ids, keeping it so.
fn insert_sorted(ids: &mut Vec<u64>, id: u64)
    requires
        strictly_ascending(old(ids)@),
    ensures
        strictly_ascending(final(ids)@),
        final(ids)@.to_set() == old(ids)@.to_set().insert(id),
        final(ids)@.len() > 0,
{
    let mut p: usize = 0;
    while p < ids.len() && ids[p] < id
        invariant
            p <= ids@.len(),
            forall|k: int| 0 <= k < p ==> ids@[k] < id,
        decreases ids@.len() - p,
    {
        p = p + 1;
    }
    if p < ids.len() && ids[p] == id {
        assert(ids@.to_set().insert(id) =~= ids@.to_set());
        return;
    }
    let ghost before = ids@;
    ids.insert(p, id);
    proof {
        assert forall|x: u64| #[trigger] ids@.to_set().contains(x) <==> before.to_set().insert(
            id,
        ).contains(x) by {
            if ids@.contains(x) {
                let k = choose|k: int| 0 <= k < ids@.len() && ids@[k] == x;
                if k < p {
                    assert(before[k] == x);
                } else if k > p {
                    assert(before[k - 1] == x);
                }
            }
            if before.contains(x) {
                let k = choose|k: int| 0 <= k < before.len() && before[k] == x;
                if k < p {
                    assert(ids@[k] == x);
                } else {
                    assert(ids@[k + 1] == x);
                }
            }
            if x == id {
                assert(ids@[p as int] == x);
            }
        }
        assert(ids@.to_set() =~= before.to_set().insert(id));
    }
}

/// How loading id `id` under name `t` changes the name index: an existing
/// entry for `t` gains the id, keeping its place; otherwise a new entry with
/// just that id comes last.
pub open spec fn indexed_after_load(
    before: Seq<(Seq<char>, Seq<u64>)>,
    after: Seq<(Seq<char>, Seq<u64>)>,
    t: Seq<char>,
    id: u64,
) -> bool {
    if exists|e: int| 0 <= e < before.len() && (#[trigger] before[e]).0 == t {
        &&& after.len() == before.len()
        &&& forall|e: int|
            0 <= e < before.len() ==> if (#[trigger] before[e]).0 == t {
                &&& after[e].0 == t
                &&& strictly_ascending(after[e].1)
                &&& after[e].1.to_set() == before[e].1.to_set().insert(id)
            } else {
                after[e] == before[e]
            }
    } else {
        after == before.push((t, seq![id]))
    }
}

impl MetadataIndex {
    /// What each id's record names it.
    pub closed spec fn records(&self) -> Map<u64, Seq<char>> {
        self.names@.map_values(|s: String| s@)
    }

    /// The name index: each sanitised name with its ids, in load order.
    pub closed spec fn entries(&self) -> Seq<(Seq<char>, Seq<u64>)> {
        self.entries@.map_values(|e: NameEntry| (e.token@, e.ids@))
    }

    /// Names are distinct, id lists ascending and non-empty, and every
    /// indexed id has a record.
    pub closed spec fn wf(&self) -> bool {
        &&& forall|i: int, j: int|
            0 <= i < j < self.entries@.len() ==> self.entries@[i].token@
                != self.entries@[j].token@
        &&& forall|i: int|
            0 <= i < self.entries@.len() ==> strictly_ascending(
                (#[trigger] self.entries@[i]).ids@,
            ) && self.entries@[i].ids@.len() > 0
        &&& forall|i: int, k: int|
            0 <= i < self.entries@.len() && 0 <= k < self.entries@[i].ids@.len()
                ==> self.names@.contains_key(#[trigger] self.entries@[i].ids@[k])
    }

    /// An empty index.
    pub fn new() -> (r: MetadataIndex)
        ensures
            r.wf(),
            r.records() == Map::<u64, Seq<char>>::empty(),
            r.entries() == Seq::<(Seq<char>, Seq<u64>)>::empty(),
    {
        let r = MetadataIndex { names: HashMap::new(), entries: Vec::new() };
        assert(r.records() =~= Map::<u64, Seq<char>>::empty());
        assert(r.entries() =~= Seq::<(Seq<char>, Seq<u64>)>::empty());
        r
    }

    /// The position of the entry named `token`, if there is one.
    fn find_entry(&self, token: &String) -> (r: Option<usize>)
        ensures
            r matches Some(e) ==> e < self.entries@.len() && self.entries@[e as int].token@
                == token@,
            r is None ==> forall|e: int|
                0 <= e < self.entries@.len() ==> (#[trigger] self.entries@[e]).token@ != token@,
    {
        let mut i: usize = 0;
        while i < self.entries.len()
            invariant
                i <= self.entries@.len(),
                forall|e: int| 0 <= e < i ==> (#[trigger] self.entries@[e]).token@ != token@,
            decreases self.entries@.len() - i,
        {
            if self.entries[i].token == *token {
                return Some(i);
            }
            i = i + 1;
        }
        None
    }

    /// Loads one reference row: records its display name under its id and
    /// adds its id to the entry of its sanitised name.
    pub fn load(&mut self, item: Item)
        requires
            old(self).wf(),
        ensures
            final(self).wf(),
            final(self).records() == old(self).records().insert(item.id, item.en_us@),
            indexed_after_load(
                old(self).entries(),
                final(self).entries(),
                sanitized(item.en_us@),
                item.id,
            ),
    {
        let token = sanitise_name(item.en_us.as_str());
        let ghost t = token@;
        let id = item.id;
        let ghost before = self.entries();
        let ghost old_names = self.names@;
        self.names.insert(id, item.en_us);
        assert(self.records() =~= old(self).records().insert(id, item.en_us@));
        match self.find_entry(&token) {
            Some(e) => {
                let mut ids = self.entries[e].ids.clone();
                assert(ids@ =~= self.entries@[e as int].ids@);
                insert_sorted(&mut ids, id);
                let ghost new_ids = ids@;
                self.entries[e] = NameEntry { token, ids };
                proof {
                    assert(before[e as int].0 == t);
                    assert(self.entries().len() == before.len());
                    assert forall|k: int|
                        0 <= k < before.len() implies if (#[trigger] before[k]).0 == t {
                        &&& self.entries()[k].0 == t
                        &&& strictly_ascending(self.entries()[k].1)
                        &&& self.entries()[k].1.to_set() == before[k].1.to_set().insert(id)
                    } else {
                        self.entries()[k] == before[k]
                    } by {
                        if k != e {
                            assert(self.entries@[k] == old(self).entries@[k]);
                        }
                    }
                    assert forall|i: int, k: int|
                        0 <= i < self.entries@.len() && 0 <= k < self.entries@[i].ids@.len()
                            implies self.names@.contains_key(
                        #[trigger] self.entries@[i].ids@[k],
                    ) by {
                        if i == e {
                            let x = new_ids[k];
                            assert(new_ids.to_set().contains(x));
                            if x != id {
                                assert(before[e as int].1.to_set().contains(x));
                                let kk = choose|kk: int|
                                    0 <= kk < before[e as int].1.len() && before[e as int].1[kk]
                                        == x;
                                assert(old(self).entries@[e as int].ids@[kk] == x);
                            }
                        } else {
                            assert(self.entries@[i] == old(self).entries@[i]);
                        }
                    }
                }
            },
            None => {
                let mut ids: Vec<u64> = Vec::new();
                ids.push(id);
                self.entries.push(NameEntry { token, ids });
                proof {
                    assert(self.entries() =~= before.push((t, seq![id])));
                    assert forall|k: int|
                        0 <= k < before.len() implies (#[trigger] before[k]).0 != t by {
                        assert(old(self).entries@[k].token@ != t);
                    }
                }
            },
        }
    }

    /// The record of item `id`, if one was loaded.
    pub fn by_id(&self, id: u64) -> (r: Option<Item>)
        ensures
            r is Some <==> self.records().contains_key(id),
            r matches Some(it) ==> it.id == id && it.en_us@ == self.records()[id],
    {
        match self.names.get(&id) {
            Some(n) => Some(Item { id, en_us: n.clone() }),
            None => None,
        }
    }

    /// The record for a name: the entry of its sanitised name, and in it the
    /// first (lowest) id. `None` when no loaded name sanitises the same way.
    pub fn by_name(&self, name: &str) -> (r: Option<Item>)
        requires
            self.wf(),
        ensures
            r is Some <==> exists|e: int|
                0 <= e < self.entries().len() && (#[trigger] self.entries()[e]).0 == sanitized(
                    name@,
                ),
            r matches Some(it) ==> exists|e: int|
                0 <= e < self.entries().len() && (#[trigger] self.entries()[e]).0 == sanitized(
                    name@,
                ) && it.id == self.entries()[e].1[0] && it.en_us@ == self.records()[it.id],
    {
        let token = sanitise_name(name);
        match self.find_entry(&token) {
            Some(e) => {
                let id = self.entries[e].ids[0];
                assert(self.names@.contains_key(self.entries@[e as int].ids@[0]));
                let r = self.by_id(id);
                assert(self.entries()[e as int].0 == sanitized(name@));
                r
            },
            None => {
                assert forall|e: int| 0 <= e < self.entries().len() implies (
                #[trigger] self.entries()[e]).0 != sanitized(name@) by {
                    assert(self.entries@[e].token@ != token@);
                }
                None
            },
        }
    }

    /// Prefix search: the records of the ids of every entry whose name starts
    /// with the sanitised term, entry by entry in load order, ids ascending
    /// within an entry.
    pub fn search(&self, term: &str) -> (r: Vec<Item>)
        requires
            self.wf(),
        ensures
            r@.len() == matching_ids(self.entries(), sanitized(term@)).len(),
            forall|i: int|
                0 <= i < r@.len() ==> (#[trigger] r@[i]).id == matching_ids(
                    self.entries(),
                    sanitized(term@),
                )[i] && r@[i].en_us@ == self.records()[r@[i].id],
    {
        let token = sanitise_name(term);
        let t = chars_of(token.as_str());
        let ghost ts = t@;
        let mut r: Vec<Item> = Vec::new();
        let mut i: usize = 0;
        while i < self.entries.len()
            invariant
                self.wf(),
                ts == sanitized(term@),
                t@ == ts,
                i <= self.entries@.len(),
                r@.len() == matching_ids(self.entries().take(i as int), ts).len(),
                forall|k: int|
                    0 <= k < r@.len() ==> (#[trigger] r@[k]).id == matching_ids(
                        self.entries().take(i as int),
                        ts,
                    )[k] && r@[k].en_us@ == self.records()[r@[k].id],
            decreases self.entries@.len() - i,
        {
            let ghost before = matching_ids(self.entries().take(i as int), ts);
            assert(self.entries().take(i + 1).drop_last() =~= self.entries().take(i as int));
            assert(self.entries().take(i + 1).last() == self.entries()[i as int]);
            let name = chars_of(self.entries[i].token.as_str());
            if starts_with(&name, &t) {
                let ids = &self.entries[i].ids;
                let ghost ids_seq = ids@;
                assert(self.entries()[i as int].1 == ids_seq);
                let mut j: usize = 0;
                while j < ids.len()
                    invariant
                        self.wf(),
                        i < self.entries@.len(),
                        ids@ == ids_seq,
                        ids_seq == self.entries@[i as int].ids@,
                        j <= ids_seq.len(),
                        r@.len() == before.len() + j,
                        forall|k: int|
                            0 <= k < r@.len() ==> (#[trigger] r@[k]).id == (before + ids_seq)[k]
                                && r@[k].en_us@ == self.records()[r@[k].id],
                    decreases ids_seq.len() - j,
                {
                    let id = ids[j];
                    assert(self.names@.contains_key(self.entries@[i as int].ids@[j as int]));
                    match self.by_id(id) {
                        Some(it) => {
                            r.push(it);
                        },
                        None => {},
                    }
                    j = j + 1;
                }
                assert(matching_ids(self.entries().take(i + 1), ts) =~= before + ids_seq);
            } else {
                assert(matching_ids(self.entries().take(i + 1), ts) =~= before);
            }
            i = i + 1;
        }
        assert(self.entries().take(self.entries@.len() as int) =~= self.entries());
        r
    }
}


/// The store key of an item's record hash: `ref:item:<id>`.
pub fn record_key(id: u64) -> (r: String)
    ensures
        r@ == "ref:"@ + crate::key::key_of("item"@, id),
{
    let mut r = String::from_str("ref:");
    let k = crate::key::key("item", id);
    r.append(k.as_str());
    r
}

/// The store key of an item's display name: `names:item:<id>`.
pub fn display_key(id: u64) -> (r: String)
    ensures
        r@ == "names:"@ + crate::key::key_of("item"@, id),
{
    let mut r = String::from_str("names:");
    let k = crate::key::key("item", id);
    r.append(k.as_str());
    r
}

/// The store key of the id set of a name: `ids:item:<sanitised name>`.
pub fn ids_key(name: &str) -> (r: String)
    ensures
        r@ == "ids:item:"@ + sanitized(name@),
{
    let mut r = String::from_str("ids:item:");
    let t = sanitise_name(name);
    r.append(t.as_str());
    r
}

/// The key pattern that matches the id sets of every name starting with the
/// sanitised term: `ids:item:<sanitised term>*`.
pub fn ids_pattern(term: &str) -> (r: String)
    ensures
        r@ == "ids:item:"@ + sanitized(term@) + "*"@,
{
    let mut r = ids_key(term);
    r.append("*");
    r
}

/// The three writes that load one reference row, to be applied together: the
/// record hash, the id's place in its name's id set (scored by the id, so the
/// set is ordered by id), and the display name.
pub fn load_commands(item: &Item) -> (r: Vec<Vec<String>>)
    ensures
        r@.len() == 3,
        crate::store::views(r@[0]@) == seq![
            "HSET"@,
            "ref:"@ + crate::key::key_of("item"@, item.id),
            "id"@,
            crate::key::decimal(item.id as nat),
            "en_us"@,
            item.en_us@,
        ],
        crate::store::views(r@[1]@) == seq![
            "ZADD"@,
            "ids:item:"@ + sanitized(item.en_us@),
            crate::key::decimal(item.id as nat),
            crate::key::decimal(item.id as nat),
        ],
        crate::store::views(r@[2]@) == seq![
            "SET"@,
            "names:"@ + crate::key::key_of("item"@, item.id),
            item.en_us@,
        ],
{
    let mut hset: Vec<String> = Vec::new();
    hset.push(String::from_str("HSET"));
    hset.push(record_key(item.id));
    hset.push(String::from_str("id"));
    hset.push(crate::key::decimal_string(item.id));
    hset.push(String::from_str("en_us"));
    hset.push(item.en_us.clone());
    let mut zadd: Vec<String> = Vec::new();
    zadd.push(String::from_str("ZADD"));
    zadd.push(ids_key(item.en_us.as_str()));
    zadd.push(crate::key::decimal_string(item.id));
    zadd.push(crate::key::decimal_string(item.id));
    let mut set: Vec<String> = Vec::new();
    set.push(String::from_str("SET"));
    set.push(display_key(item.id));
    set.push(item.en_us.clone());
    let mut r: Vec<Vec<String>> = Vec::new();
    r.push(hset);
    r.push(zadd);
    r.push(set);
    assert(crate::store::views(r@[0]@) =~= seq![
        "HSET"@,
        "ref:"@ + crate::key::key_of("item"@, item.id),
        "id"@,
        crate::key::decimal(item.id as nat),
        "en_us"@,
        item.en_us@,
    ]);
    assert(crate::store::views(r@[1]@) =~= seq![
        "ZADD"@,
        "ids:item:"@ + sanitized(item.en_us@),
        crate::key::decimal(item.id as nat),
        crate::key::decimal(item.id as nat),
    ]);
    assert(crate::store::views(r@[2]@) =~= seq![
        "SET"@,
        "names:"@ + crate::key::key_of("item"@, item.id),
        item.en_us@,
    ]);
    r
}

/// The value of a decimal digit string.
pub open spec fn digits_value(s: Seq<char>) -> nat
    decreases s.len(),
{
    if s.len() == 0 {
        0
    } else {
        digits_value(s.drop_last()) * 10 + ((s.last() as u32) - ('0' as u32)) as nat
    }
}

pub open spec fn all_digits(s: Seq<char>) -> bool {
    forall|i: int| 0 <= i < s.len() ==> '0' <= #[trigger] s[i] && s[i] <= '9'
}

/// Reads an id written in decimal digits: `None` for an empty string, a
/// character that is not a digit, or a value over `u64::MAX`.
pub fn parse_id(s: &str) -> (r: Option<u64>)
    ensures
        r is Some <==> s@.len() > 0 && all_digits(s@) && digits_value(s@) <= u64::MAX,
        r matches Some(n) ==> n == digits_value(s@),
{
    let cs = chars_of(s);
    if cs.len() == 0 {
        return None;
    }
    let mut n: u64 = 0;
    let mut i: usize = 0;
    while i < cs.len()
        invariant
            cs@ == s@,
            i <= cs@.len(),
            all_digits(cs@.take(i as int)),
            n == digits_value(cs@.take(i as int)),
        decreases cs@.len() - i,
    {
        let c = cs[i];
        assert(cs@.take(i + 1).drop_last() =~= cs@.take(i as int));
        if c < '0' || c > '9' {
            assert(!all_digits(s@)) by {
                assert(s@[i as int] == c);
            }
            return None;
        }
        let d = (c as u32 - '0' as u32) as u64;
        if n > (u64::MAX - d) / 10 {
            proof {
                if all_digits(s@) {
                    lemma_digits_value_prefix(s@, i + 1);
                }
                assert(digits_value(cs@.take(i + 1)) == n * 10 + d) by {
                    assert(cs@.take(i + 1).last() == c);
                }
                assert(n * 10 + d > u64::MAX) by (nonlinear_arith)
                    requires
                        n > (u64::MAX - d) / 10,
                        d <= 9,
                ;
            }
            return None;
        }
        assert(n * 10 + d <= u64::MAX) by (nonlinear_arith)
            requires
                n <= (u64::MAX - d) / 10,
                d <= 9,
        ;
        n = n * 10 + d;
        proof {
            assert(cs@.take(i + 1).last() == c);
            assert forall|k: int| 0 <= k < i + 1 implies '0' <= #[trigger] cs@.take(i + 1)[k]
                && cs@.take(i + 1)[k] <= '9' by {
                if k < i {
                    assert(cs@.take(i + 1)[k] == cs@.take(i as int)[k]);
                }
            }
        }
        i = i + 1;
    }
    assert(cs@.take(cs@.len() as int) =~= s@);
    Some(n)
}

/// A digit string's value is at least that of any of its prefixes.
proof fn lemma_digits_value_prefix(s: Seq<char>, k: int)
    requires
        0 <= k <= s.len(),
        all_digits(s),
    ensures
        digits_value(s) >= digits_value(s.take(k)),
    decreases s.len(),
{
    if k < s.len() {
        assert(s.drop_last().take(k) =~= s.take(k));
        assert(all_digits(s.drop_last())) by {
            assert forall|i: int| 0 <= i < s.drop_last().len() implies '0' <= #[trigger] s.drop_last()[i]
                && s.drop_last()[i] <= '9' by {
                assert(s.drop_last()[i] == s[i]);
            }
        }
        lemma_digits_value_prefix(s.drop_last(), k);
    } else {
        assert(s.take(k) =~= s);
    }
}

} // verus!
