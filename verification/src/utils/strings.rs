//! Clean-up of parsed game titles.

use vstd::prelude::*;
use crate::text::{to_chars, to_text};

verus! {

/// The trade mark sign and the registered sign are no part of a title.
pub open spec fn is_title_char(c: char) -> bool {
    c != '\u{2122}' && c != '\u{ae}'
}

/// `title` without trade mark and registered signs; every other character
/// stays, in its place.
pub open spec fn cleaned_title(title: Seq<char>) -> Seq<char> {
    title.filter(|c: char| is_title_char(c))
}

/// Cleans up a parsed game title, given as characters.
pub fn clean_title_chars(title: &[char]) -> (cleaned: Vec<char>)
    ensures
        cleaned@ == cleaned_title(title@),
{
    let mut cleaned: Vec<char> = Vec::new();
    let mut i: usize = 0;
    while i < title.len()
        invariant
            i <= title.len(),
            cleaned@ == cleaned_title(title@.take(i as int)),
        decreases title.len() - i,
    {
        let c = title[i];
        proof {
            assert(title@.take(i + 1).drop_last() =~= title@.take(i as int));
            reveal(Seq::filter);
        }
        if c != '\u{2122}' && c != '\u{ae}' {
            cleaned.push(c);
        }
        i += 1;
    }
    proof {
        assert(title@.take(title@.len() as int) =~= title@);
    }
    cleaned
}

/// Cleans up parsed game title
pub fn clean_game_title(title: &str) -> (cleaned: String)
    ensures
        cleaned@ == cleaned_title(title@),
{
    let chars = to_chars(title);
    let cleaned = clean_title_chars(chars.as_slice());
    to_text(cleaned.as_slice())
}

/// A cleaned title holds neither sign, and cleaning it again changes nothing.
pub proof fn lemma_cleaned_title_is_clean(title: Seq<char>)
    ensures
        forall|i: int|
            0 <= i < cleaned_title(title).len() ==> is_title_char(#[trigger] cleaned_title(title)[i]),
        cleaned_title(cleaned_title(title)) == cleaned_title(title),
{
    let keep = |c: char| is_title_char(c);
    assert forall|i: int| 0 <= i < cleaned_title(title).len() implies is_title_char(
        #[trigger] cleaned_title(title)[i],
    ) by {
        title.lemma_filter_pred(keep, i);
    }
    lemma_filter_all(cleaned_title(title));
}

/// A title without either sign is its own cleaned title.
pub proof fn lemma_filter_all(title: Seq<char>)
    requires
        forall|i: int| 0 <= i < title.len() ==> is_title_char(#[trigger] title[i]),
    ensures
        cleaned_title(title) == title,
    decreases title.len(),
{
    reveal(Seq::filter);
    if title.len() > 0 {
        lemma_filter_all(title.drop_last());
        assert(title.drop_last().push(title.last()) =~= title);
    }
}

} // verus!
