//! Slugs: the lowercase, hyphenated names that files are called by.

use vstd::prelude::*;
use crate::text::{
    ascii_alphanumeric, chars_of, is_ascii_alphanumeric, lowercase, string_of, to_lowercase,
};

verus! {

/// A space becomes a hyphen; every other character stays.
pub open spec fn hyphenated(c: char) -> char {
    if c == ' ' {
        '-'
    } else {
        c
    }
}

/// The characters that a slug is made of.
pub open spec fn slug_keeps(c: char) -> bool {
    is_ascii_alphanumeric(c) || c == '-'
}

/// The slug of a text that is already in lowercase: spaces turned into
/// hyphens, then everything dropped that is no ASCII letter, digit or hyphen.
pub open spec fn slug_of(lower: Seq<char>) -> Seq<char> {
    lower.map_values(|c: char| hyphenated(c)).filter(|c: char| slug_keeps(c))
}

/// A slug is made of ASCII letters, digits and hyphens alone, and is no
/// longer than the text it is made from.
pub proof fn lemma_slug_of(lower: Seq<char>)
    ensures
        slug_of(lower).len() <= lower.len(),
        forall|k: int| 0 <= k < slug_of(lower).len() ==> slug_keeps(#[trigger] slug_of(lower)[k]),
{
    let swapped = lower.map_values(|c: char| hyphenated(c));
    let keeps = |c: char| slug_keeps(c);
    swapped.lemma_filter_len(keeps);
    assert forall|k: int| 0 <= k < slug_of(lower).len() implies slug_keeps(
        #[trigger] slug_of(lower)[k],
    ) by {
        swapped.lemma_filter_pred(keeps, k);
    }
}

/// The slug of a text that is already in lowercase.
pub fn slug_from_lowercase(lower: &str) -> (slug: String)
    ensures
        slug@ == slug_of(lower@),
        forall|k: int| 0 <= k < slug@.len() ==> slug_keeps(#[trigger] slug@[k]),
{
    proof {
        lemma_slug_of(lower@);
    }
    let chars = chars_of(lower);
    let n = chars.len();
    let mut kept: Vec<char> = Vec::new();
    let mut i: usize = 0;
    let ghost swapped = chars@.map_values(|c: char| hyphenated(c));
    proof {
        reveal(Seq::filter);
        assert(swapped.take(0) =~= Seq::<char>::empty());
    }
    while i < n
        invariant
            n == chars@.len(),
            i <= n,
            swapped == chars@.map_values(|c: char| hyphenated(c)),
            kept@ == swapped.take(i as int).filter(|c: char| slug_keeps(c)),
        decreases n - i,
    {
        let c = if chars[i] == ' ' {
            '-'
        } else {
            chars[i]
        };
        proof {
            reveal(Seq::filter);
            assert(swapped.take(i + 1).drop_last() =~= swapped.take(i as int));
            assert(swapped.take(i + 1).last() == c);
        }
        if ascii_alphanumeric(c) || c == '-' {
            kept.push(c);
        }
        i += 1;
    }
    assert(swapped.take(n as int) =~= swapped);
    string_of(kept.as_slice())
}

/// The slug of a title: its lowercase form with spaces turned into hyphens
/// and without anything that is no ASCII letter, digit or hyphen.
pub fn slugify(title: &str) -> (slug: String)
    ensures
        slug@ == slug_of(lowercase(title@)),
        forall|k: int| 0 <= k < slug@.len() ==> slug_keeps(#[trigger] slug@[k]),
{
    let lower = to_lowercase(title);
    slug_from_lowercase(lower.as_str())
}

} // verus!
