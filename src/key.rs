//! Stable storage keys of the form `<prefix>:<id>`.

use vstd::prelude::*;
use crate::text::string_of;

verus! {

/// The decimal digit character for `d < 10`.
pub open spec fn digit_char(d: nat) -> char {
    if d == 0 { '0' }
    else if d == 1 { '1' }
    else if d == 2 { '2' }
    else if d == 3 { '3' }
    else if d == 4 { '4' }
    else if d == 5 { '5' }
    else if d == 6 { '6' }
    else if d == 7 { '7' }
    else if d == 8 { '8' }
    else { '9' }
}

/// The decimal representation of `n`, without leading zeros.
pub open spec fn decimal(n: nat) -> Seq<char>
    decreases n,
{
    if n < 10 {
        seq![digit_char(n)]
    } else {
        decimal(n / 10).push(digit_char(n % 10))
    }
}

/// The storage key of an entity of class `prefix` with identifier `id`.
pub open spec fn key_of(prefix: Seq<char>, id: u64) -> Seq<char> {
    prefix + seq![':'] + decimal(id as nat)
}

proof fn lemma_digit_char_injective(a: nat, b: nat)
    requires
        a < 10,
        b < 10,
        digit_char(a) == digit_char(b),
    ensures
        a == b,
{
}

/// Every digit character is distinct from the key separator.
proof fn lemma_decimal_has_no_separator(n: nat)
    ensures
        forall|i: int| 0 <= i < decimal(n).len() ==> decimal(n)[i] != ':',
    decreases n,
{
    if n >= 10 {
        lemma_decimal_has_no_separator(n / 10);
        let d = decimal(n);
        assert forall|i: int| 0 <= i < d.len() implies d[i] != ':' by {
            if i < d.len() - 1 {
                assert(d[i] == decimal(n / 10)[i]);
            }
        }
    }
}

proof fn lemma_decimal_len(n: nat)
    ensures
        decimal(n).len() >= 1,
        decimal(n).len() == 1 <==> n < 10,
    decreases n,
{
    if n >= 10 {
        lemma_decimal_len(n / 10);
    }
}

/// Distinct numbers have distinct decimal representations.
pub proof fn lemma_decimal_injective(a: nat, b: nat)
    requires
        decimal(a) == decimal(b),
    ensures
        a == b,
    decreases a,
{
    lemma_decimal_len(a);
    lemma_decimal_len(b);
    if a < 10 && b < 10 {
        assert(decimal(a)[0] == digit_char(a));
        assert(decimal(b)[0] == digit_char(b));
        lemma_digit_char_injective(a, b);
    } else if a >= 10 && b >= 10 {
        let da = decimal(a);
        let db = decimal(b);
        assert(da.last() == digit_char(a % 10));
        assert(db.last() == digit_char(b % 10));
        lemma_digit_char_injective(a % 10, b % 10);
        assert(decimal(a / 10) =~= da.drop_last());
        assert(decimal(b / 10) =~= db.drop_last());
        lemma_decimal_injective(a / 10, b / 10);
    }
}

/// Keys are injective: two `(prefix, id)` pairs give the same key only when
/// both the prefixes and the identifiers are equal. In particular, for a fixed
/// prefix, distinct identifiers give distinct keys.
pub proof fn lemma_key_injective(pa: Seq<char>, ida: u64, pb: Seq<char>, idb: u64)
    ensures
        key_of(pa, ida) == key_of(pb, idb) <==> (pa == pb && ida == idb),
{
    if key_of(pa, ida) == key_of(pb, idb) {
        let k = key_of(pa, ida);
        let da = decimal(ida as nat);
        let db = decimal(idb as nat);
        lemma_decimal_has_no_separator(ida as nat);
        lemma_decimal_has_no_separator(idb as nat);
        assert(k.len() == pa.len() + 1 + da.len());
        assert(k.len() == pb.len() + 1 + db.len());
        if da.len() < db.len() {
            let j = pa.len() as int;
            assert(key_of(pa, ida)[j] == ':');
            assert(key_of(pb, idb)[j] == db[j - pb.len() - 1]);
        } else if db.len() < da.len() {
            let j = pb.len() as int;
            assert(key_of(pb, idb)[j] == ':');
            assert(key_of(pa, ida)[j] == da[j - pa.len() - 1]);
        }
        assert(da =~= k.subrange(pa.len() + 1int, k.len() as int));
        assert(db =~= k.subrange(pb.len() + 1int, k.len() as int));
        assert(pa =~= k.subrange(0, pa.len() as int));
        assert(pb =~= k.subrange(0, pb.len() as int));
        lemma_decimal_injective(ida as nat, idb as nat);
    }
}

fn digit(d: u64) -> (c: char)
    requires
        d < 10,
    ensures
        c == digit_char(d as nat),
{
    if d == 0 { '0' }
    else if d == 1 { '1' }
    else if d == 2 { '2' }
    else if d == 3 { '3' }
    else if d == 4 { '4' }
    else if d == 5 { '5' }
    else if d == 6 { '6' }
    else if d == 7 { '7' }
    else if d == 8 { '8' }
    else { '9' }
}

/// Appends the decimal digits of `n` to `out`.
pub fn push_decimal(out: &mut Vec<char>, n: u64)
    ensures
        final(out)@ == old(out)@ + decimal(n as nat),
    decreases n,
{
    if n < 10 {
        out.push(digit(n));
    } else {
        push_decimal(out, n / 10);
        out.push(digit(n % 10));
        assert(old(out)@ + decimal(n as nat) =~= old(out)@ + decimal((n / 10) as nat) + seq![
            digit_char((n % 10) as nat),
        ]);
    }
}

/// The decimal representation of `n` as a string.
pub fn decimal_string(n: u64) -> (r: String)
    ensures
        r@ == decimal(n as nat),
{
    let mut v: Vec<char> = Vec::new();
    push_decimal(&mut v, n);
    assert(v@ =~= decimal(n as nat));
    string_of(&v)
}

/// Derives the key `"{prefix}:{id}"`.
pub fn key(prefix: &str, id: u64) -> (r: String)
    ensures
        r@ == key_of(prefix@, id),
{
    let mut v: Vec<char> = Vec::new();
    for c in it: prefix.chars()
        invariant
            v@ == it.seq().take(it.index() as int),
    {
        v.push(c);
    }
    v.push(':');
    push_decimal(&mut v, id);
    assert(v@ =~= key_of(prefix@, id));
    string_of(&v)
}


/// An entity that has a stable storage key: a class prefix and a numeric id.
pub trait AsKey {
    spec fn key_prefix(&self) -> Seq<char>;

    spec fn key_id(&self) -> u64;

    /// The entity's numeric identifier.
    fn id(&self) -> (r: u64)
        ensures
            r == self.key_id(),
    ;

    /// The entity's class prefix.
    fn prefix(&self) -> (r: String)
        ensures
            r@ == self.key_prefix(),
    ;
}

/// The storage key `"{prefix}:{id}"` of an entity.
pub fn to_key<T: AsKey>(e: &T) -> (r: String)
    ensures
        r@ == key_of(e.key_prefix(), e.key_id()),
{
    let p = e.prefix();
    key(p.as_str(), e.id())
}


/// The decimal representation of a signed number.
pub open spec fn signed_decimal(n: int) -> Seq<char> {
    if n < 0 {
        seq!['-'] + decimal((-n) as nat)
    } else {
        decimal(n as nat)
    }
}

/// The decimal representation of `n` as a string, with a leading `-` when negative.
pub fn signed_decimal_string(n: i64) -> (r: String)
    ensures
        r@ == signed_decimal(n as int),
{
    let mut v: Vec<char> = Vec::new();
    if n < 0 {
        v.push('-');
        let m: u64 = if n == i64::MIN {
            9223372036854775808u64
        } else {
            (-n) as u64
        };
        push_decimal(&mut v, m);
    } else {
        push_decimal(&mut v, n as u64);
    }
    assert(v@ =~= signed_decimal(n as int));
    string_of(&v)
}

} // verus!
