//! Normalisation of free-text item names into index tokens.

use vstd::prelude::*;
use crate::text::{chars_of, string_of};

verus! {

/// ASCII punctuation: the POSIX `[:punct:]` class.
pub open spec fn is_ascii_punct(c: char) -> bool {
    ('!' <= c && c <= '/') || (':' <= c && c <= '@') || ('[' <= c && c <= '`') || ('{' <= c
        && c <= '~')
}

/// ASCII lower-casing of one character; other characters are unchanged.
pub open spec fn lower_char(c: char) -> char {
    if 'A' <= c && c <= 'Z' {
        ((c as u32) + 32) as char
    } else {
        c
    }
}

pub open spec fn punct_to_underscore(c: char) -> char {
    if is_ascii_punct(c) {
        '_'
    } else {
        c
    }
}

pub open spec fn space_to_underscore(c: char) -> char {
    if c == ' ' {
        '_'
    } else {
        c
    }
}

/// What one character of a name becomes in its token.
pub open spec fn sanitized_char(c: char) -> char {
    space_to_underscore(punct_to_underscore(lower_char(c)))
}

/// The index token of a name: lower-cased, with every punctuation character
/// and every space replaced by `_`.
pub open spec fn sanitized(s: Seq<char>) -> Seq<char> {
    s.map_values(|c: char| sanitized_char(c))
}

/// Relies on regex's `[[:punct:]]` class, which matches one ASCII punctuation
/// character (`!`-`/`, `:`-`@`, `[`-`` ` ``, `{`-`~`), and on `Regex::replace_all`,
/// which puts the literal replacement `_` in place of every match.
#[verifier::external_body]
fn replace_punctuation(s: &str) -> (r: String)
    ensures
        r@ == s@.map_values(|c: char| punct_to_underscore(c)),
{
    regex::Regex::new(r"[[:punct:]]").unwrap().replace_all(s, "_").into_owned()
}

fn lower_ascii(c: char) -> (r: char)
    ensures
        r == lower_char(c),
{
    if 'A' <= c && c <= 'Z' {
        ((c as u8) + 32) as char
    } else {
        c
    }
}

/// Normalises a name into its index token: ASCII lower-case, then every
/// punctuation character and every space replaced by `_`. Total on all input.
pub fn sanitise_name(name: &str) -> (r: String)
    ensures
        r@ == sanitized(name@),
{
    let mut lowered: Vec<char> = Vec::new();
    for c in it: name.chars()
        invariant
            lowered@ == it.seq().take(it.index() as int).map_values(|c: char| lower_char(c)),
    {
        lowered.push(lower_ascii(c));
        assert(it.seq().take(it.index() + 1) =~= it.seq().take(it.index() as int).push(c));
    }
    let lowered = string_of(&lowered);
    let replaced = replace_punctuation(lowered.as_str());
    let chars = chars_of(replaced.as_str());
    let mut out: Vec<char> = Vec::new();
    let mut i: usize = 0;
    while i < chars.len()
        invariant
            i <= chars.len(),
            out@ == chars@.take(i as int).map_values(|c: char| space_to_underscore(c)),
        decreases chars.len() - i,
    {
        if chars[i] == ' ' {
            out.push('_');
        } else {
            out.push(chars[i]);
        }
        assert(chars@.take(i + 1) =~= chars@.take(i as int).push(chars@[i as int]));
        i = i + 1;
    }
    assert(out@ =~= sanitized(name@));
    string_of(&out)
}

/// Sanitising is idempotent: a token is its own token.
pub proof fn lemma_sanitise_idempotent(s: Seq<char>)
    ensures
        sanitized(sanitized(s)) == sanitized(s),
{
    assert forall|c: char| #[trigger] sanitized_char(sanitized_char(c)) == sanitized_char(c) by {
        if 'A' <= c && c <= 'Z' {
            assert(('a' as u32) <= (lower_char(c) as u32) <= ('z' as u32));
        }
    }
    assert(sanitized(sanitized(s)) =~= sanitized(s));
}

} // verus!
