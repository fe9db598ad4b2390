//! Stemming of katakana words by their trailing long vowel mark.
use vstd::prelude::*;

use crate::text::{chars_of, string_from_chars};
use crate::token::Token;

verus! {

/// Katakana: the Katakana block, which holds the long vowel mark ー, and
/// the Katakana Phonetic Extensions.
pub open spec fn spec_is_katakana(ch: char) -> bool {
    ('\u{30A0}' <= ch && ch <= '\u{30FF}') || ch == '\u{30FC}' || ('\u{31F0}' <= ch && ch
        <= '\u{31FF}')
}

pub open spec fn spec_is_all_katakana(chars: Seq<char>) -> bool {
    forall|i: int| 0 <= i < chars.len() ==> #[trigger] spec_is_katakana(chars[i])
}

/// The stem of `term`: without its trailing ー when it is all katakana and
/// at least `min_length` characters long, else `term` itself.
pub open spec fn spec_stem(term: Seq<char>, min_length: nat) -> Seq<char> {
    if term.len() >= min_length && spec_is_all_katakana(term) && term.len() > 0 && term.last()
        == 'ー' {
        term.drop_last()
    } else {
        term
    }
}

/// Whether all characters are katakana (including ー).
pub fn is_all_katakana(chars: &[char]) -> (r: bool)
    ensures
        r == spec_is_all_katakana(chars@),
{
    let mut i: usize = 0;
    while i < chars.len()
        invariant
            i <= chars@.len(),
            forall|k: int| 0 <= k < i ==> #[trigger] spec_is_katakana(chars@[k]),
        decreases chars@.len() - i,
    {
        let ch = chars[i];
        if !(('\u{30A0}' <= ch && ch <= '\u{30FF}') || ch == '\u{30FC}' || ('\u{31F0}' <= ch && ch
            <= '\u{31FF}')) {
            assert(!spec_is_katakana(chars@[i as int]));
            return false;
        }
        i = i + 1;
    }
    true
}

/// The minimum length, in characters, that a word must have to be stemmed
/// by default.
pub const DEFAULT_MIN_LENGTH: usize = 4;

/// Stems katakana tokens by removing a trailing long vowel mark (ー).
#[derive(Debug, Clone, Copy)]
pub struct KuromojiStemmerFilter {
    min_length: usize,
}

impl KuromojiStemmerFilter {
    /// The minimum length, in characters, of a stemmed word.
    pub closed spec fn spec_min_length(&self) -> nat {
        self.min_length as nat
    }

    /// A stemmer with the default minimum length, 4.
    pub fn new() -> (f: Self)
        ensures
            f.spec_min_length() == DEFAULT_MIN_LENGTH,
    {
        KuromojiStemmerFilter { min_length: DEFAULT_MIN_LENGTH }
    }

    /// A stemmer with the given minimum length.
    pub fn with_min_length(min_length: usize) -> (f: Self)
        ensures
            f.spec_min_length() == min_length,
    {
        KuromojiStemmerFilter { min_length }
    }

    /// Replaces the term by its stem; never deletes the token and adds none.
    pub fn filter(&self, token: &mut Token) -> (r: (bool, Option<Vec<Token>>))
        ensures
            final(token).term@ == spec_stem(old(token).term@, self.spec_min_length()),
            final(token).start_offset == old(token).start_offset,
            final(token).end_offset == old(token).end_offset,
            final(token).position == old(token).position,
            r.0 == false,
            r.1 is None,
    {
        let chars = chars_of(token.term.as_str());
        let len = chars.len();
        if len < self.min_length || !is_all_katakana(chars.as_slice()) {
            return (false, None);
        }
        if len > 0 && chars[len - 1] == 'ー' {
            let mut stemmed: Vec<char> = Vec::new();
            let mut i: usize = 0;
            while i < len - 1
                invariant
                    len == chars@.len(),
                    len > 0,
                    i <= len - 1,
                    stemmed@ == chars@.take(i as int),
                decreases len - 1 - i,
            {
                stemmed.push(chars[i]);
                assert(chars@.take(i + 1) =~= chars@.take(i as int).push(chars@[i as int]));
                i = i + 1;
            }
            assert(chars@.take(len - 1) =~= chars@.drop_last());
            token.term = string_from_chars(&stemmed);
        }
        (false, None)
    }
}

impl Default for KuromojiStemmerFilter {
    fn default() -> (f: Self)
        ensures
            f.spec_min_length() == DEFAULT_MIN_LENGTH,
    {
        Self::new()
    }
}

} // verus!
