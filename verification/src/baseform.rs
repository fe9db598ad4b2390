//! Base forms: replacing a conjugated token by its dictionary form.
use vstd::prelude::*;

use crate::morpheme::{get_sole_feature, opt_chars, sole_feature, Morpheme, BASE_FORM_FEATURE};
use crate::text::{is_unset, is_unset_feature, str_eq};
use crate::token::Token;

verus! {

/// The base form of `surface`, given its analysis: the base form feature of
/// its sole morpheme, where it is set and differs from `surface`.
pub open spec fn spec_baseform(surface: Seq<char>, analysis: Option<Vec<Morpheme>>) -> Option<
    Seq<char>,
> {
    match sole_feature(analysis, BASE_FORM_FEATURE as int) {
        Some(f) => if !is_unset_feature(f) && f != surface {
            Some(f)
        } else {
            None
        },
        None => None,
    }
}

/// Reduces conjugated Japanese tokens to their base (dictionary) form, as
/// in 食べた → 食べる.
#[derive(Debug, Clone, Copy, Default)]
pub struct KuromojiBaseformFilter;

impl KuromojiBaseformFilter {
    pub fn new() -> (f: Self) {
        KuromojiBaseformFilter
    }

    /// The base form of `surface`, given `analysis`, the analysis of
    /// `surface`.
    pub fn get_baseform(&self, surface: &str, analysis: &Option<Vec<Morpheme>>) -> (r: Option<
        String,
    >)
        ensures
            opt_chars(r) == spec_baseform(surface@, *analysis),
    {
        match get_sole_feature(analysis, BASE_FORM_FEATURE) {
            Some(f) => {
                if !is_unset(f.as_str()) && !str_eq(f.as_str(), surface) {
                    Some(f)
                } else {
                    None
                }
            },
            None => None,
        }
    }

    /// Replaces the term by its base form where it has one, given
    /// `analysis`, the analysis of the term; never deletes the token and
    /// adds none.
    pub fn filter(&self, token: &mut Token, analysis: &Option<Vec<Morpheme>>) -> (r: (
        bool,
        Option<Vec<Token>>,
    ))
        ensures
            final(token).term@ == match spec_baseform(old(token).term@, *analysis) {
                Some(b) => b,
                None => old(token).term@,
            },
            final(token).start_offset == old(token).start_offset,
            final(token).end_offset == old(token).end_offset,
            final(token).position == old(token).position,
            r.0 == false,
            r.1 is None,
    {
        if let Some(baseform) = self.get_baseform(token.term.as_str(), analysis) {
            token.term = baseform;
        }
        (false, None)
    }
}

} // verus!
