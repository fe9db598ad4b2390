//! Japanese text analysis in the manner of Kuromoji: romanization of
//! katakana readings, normalization of kanji numerals, stemming of
//! katakana long vowels, stop words, and the decisions that the tokenizer
//! and the dictionary-based filters take on an IPADIC morphological
//! analysis of a text or a term.
use vstd::prelude::*;

pub mod text;
pub mod kana;
pub mod token;
pub mod word_set;
pub mod morpheme;
pub mod tokenizer;
pub mod baseform;
pub mod part_of_speech;
pub mod readingform;
pub mod completion;
pub mod stemmer;
pub mod number;
pub mod stop;

pub use baseform::KuromojiBaseformFilter;
pub use completion::{CompletionMode, JapaneseCompletionFilter};
pub use morpheme::Morpheme;
pub use number::KuromojiNumberFilter;
pub use part_of_speech::KuromojiPartOfSpeechFilter;
pub use readingform::{KuromojiReadingformFilter, ReadingFormType};
pub use stemmer::KuromojiStemmerFilter;
pub use stop::JapaneseStopFilter;
pub use token::Token;
pub use tokenizer::{KuromojiMode, KuromojiTokenizer, SegmentationMode};

verus! {

} // verus!
