//! Morphemes: what an IPADIC morphological analysis reports of a text.
use vstd::prelude::*;

verus! {

/// One morpheme of an analysis: its surface form, its byte range in the
/// analysed text, its dictionary features where the dictionary has them,
/// and whether the analyzer found it in no dictionary entry (an unknown
/// word).  IPADIC lists the part of speech in the first four features, the
/// base form in the seventh and the katakana reading in the eighth.
#[derive(Debug, Clone)]
pub struct Morpheme {
    pub surface: String,
    pub byte_start: usize,
    pub byte_end: usize,
    pub details: Option<Vec<String>>,
    pub unknown: bool,
}

/// Index of the base form among the IPADIC features.
pub const BASE_FORM_FEATURE: usize = 6;

/// Index of the katakana reading among the IPADIC features.
pub const READING_FEATURE: usize = 7;

/// An optional string by its characters.
pub open spec fn opt_chars(o: Option<String>) -> Option<Seq<char>> {
    match o {
        Some(s) => Some(s@),
        None => None,
    }
}

/// The feature at `index` of the sole morpheme of an analysis, where the
/// analysis succeeded, found exactly one morpheme, and that morpheme has a
/// feature at `index`.
pub open spec fn sole_feature(analysis: Option<Vec<Morpheme>>, index: int) -> Option<Seq<char>> {
    match analysis {
        Some(ms) => if ms@.len() == 1 {
            match ms@[0].details {
                Some(d) => if 0 <= index < d@.len() {
                    Some(d@[index]@)
                } else {
                    None
                },
                None => None,
            }
        } else {
            None
        },
        None => None,
    }
}

/// The feature at `index` of the sole morpheme of an analysis; see
/// `sole_feature`.
pub fn get_sole_feature(analysis: &Option<Vec<Morpheme>>, index: usize) -> (r: Option<String>)
    ensures
        opt_chars(r) == sole_feature(*analysis, index as int),
{
    match analysis {
        Some(ms) => {
            if ms.len() != 1 {
                return None;
            }
            match &ms[0].details {
                Some(d) => {
                    if index < d.len() {
                        Some(d[index].clone())
                    } else {
                        None
                    }
                },
                None => None,
            }
        },
        None => None,
    }
}

} // verus!
