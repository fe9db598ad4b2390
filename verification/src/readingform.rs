//! Reading forms: replacing a token by its reading in katakana or in
//! romaji.
use vstd::prelude::*;

use crate::morpheme::{get_sole_feature, opt_chars, sole_feature, Morpheme, READING_FEATURE};
use crate::kana::{column_vowel, contracted_onset, full_rows, full_size, grid_syllable, kana_row};
use crate::text::{chars_of, is_unset, is_unset_feature, string_from_chars};
use crate::token::Token;

verus! {

/// Output format for the reading form.
#[derive(Debug, Clone, Copy, PartialEq, Eq, Structural)]
pub enum ReadingFormType {
    /// The katakana reading.
    Katakana,
    /// The romanization of the katakana reading.
    Romaji,
}

/// Romanization of one katakana on its own; a character outside the table
/// is dropped.
pub open spec fn spec_single_katakana_to_romaji(ch: char) -> Seq<char> {
    match ch {
        'ア' => seq!['a'],
        'イ' => seq!['i'],
        'ウ' => seq!['u'],
        'エ' => seq!['e'],
        'オ' => seq!['o'],
        'カ' => seq!['k', 'a'],
        'キ' => seq!['k', 'i'],
        'ク' => seq!['k', 'u'],
        'ケ' => seq!['k', 'e'],
        'コ' => seq!['k', 'o'],
        'サ' => seq!['s', 'a'],
        'シ' => seq!['s', 'h', 'i'],
        'ス' => seq!['s', 'u'],
        'セ' => seq!['s', 'e'],
        'ソ' => seq!['s', 'o'],
        'タ' => seq!['t', 'a'],
        'チ' => seq!['c', 'h', 'i'],
        'ツ' => seq!['t', 's', 'u'],
        'テ' => seq!['t', 'e'],
        'ト' => seq!['t', 'o'],
        'ナ' => seq!['n', 'a'],
        'ニ' => seq!['n', 'i'],
        'ヌ' => seq!['n', 'u'],
        'ネ' => seq!['n', 'e'],
        'ノ' => seq!['n', 'o'],
        'ハ' => seq!['h', 'a'],
        'ヒ' => seq!['h', 'i'],
        'フ' => seq!['f', 'u'],
        'ヘ' => seq!['h', 'e'],
        'ホ' => seq!['h', 'o'],
        'マ' => seq!['m', 'a'],
        'ミ' => seq!['m', 'i'],
        'ム' => seq!['m', 'u'],
        'メ' => seq!['m', 'e'],
        'モ' => seq!['m', 'o'],
        'ヤ' => seq!['y', 'a'],
        'ユ' => seq!['y', 'u'],
        'ヨ' => seq!['y', 'o'],
        'ラ' => seq!['r', 'a'],
        'リ' => seq!['r', 'i'],
        'ル' => seq!['r', 'u'],
        'レ' => seq!['r', 'e'],
        'ロ' => seq!['r', 'o'],
        'ワ' => seq!['w', 'a'],
        'ヲ' => seq!['w', 'o'],
        'ン' => seq!['n'],
        'ガ' => seq!['g', 'a'],
        'ギ' => seq!['g', 'i'],
        'グ' => seq!['g', 'u'],
        'ゲ' => seq!['g', 'e'],
        'ゴ' => seq!['g', 'o'],
        'ザ' => seq!['z', 'a'],
        'ジ' => seq!['j', 'i'],
        'ズ' => seq!['z', 'u'],
        'ゼ' => seq!['z', 'e'],
        'ゾ' => seq!['z', 'o'],
        'ダ' => seq!['d', 'a'],
        'ヂ' => seq!['d', 'i'],
        'ヅ' => seq!['d', 'u'],
        'デ' => seq!['d', 'e'],
        'ド' => seq!['d', 'o'],
        'バ' => seq!['b', 'a'],
        'ビ' => seq!['b', 'i'],
        'ブ' => seq!['b', 'u'],
        'ベ' => seq!['b', 'e'],
        'ボ' => seq!['b', 'o'],
        'パ' => seq!['p', 'a'],
        'ピ' => seq!['p', 'i'],
        'プ' => seq!['p', 'u'],
        'ペ' => seq!['p', 'e'],
        'ポ' => seq!['p', 'o'],
        'ヴ' => seq!['v', 'u'],
        _ => Seq::empty(),
    }
}

/// Small kana that may combine with the kana before them.
pub open spec fn spec_is_small_kana(ch: char) -> bool {
    ch == 'ャ' || ch == 'ュ' || ch == 'ョ' || ch == 'ァ' || ch == 'ィ' || ch == 'ゥ' || ch == 'ェ'
        || ch == 'ォ'
}

/// Consonant part of a kana that combines with a following small kana.
pub open spec fn spec_compound_base(main: char) -> Option<Seq<char>> {
    match main {
        'キ' => Some(seq!['k', 'y']),
        'シ' => Some(seq!['s', 'h']),
        'チ' => Some(seq!['c', 'h']),
        'ニ' => Some(seq!['n', 'y']),
        'ヒ' => Some(seq!['h', 'y']),
        'ミ' => Some(seq!['m', 'y']),
        'リ' => Some(seq!['r', 'y']),
        'ギ' => Some(seq!['g', 'y']),
        'ジ' => Some(seq!['j']),
        'ビ' => Some(seq!['b', 'y']),
        'ピ' => Some(seq!['p', 'y']),
        _ => None,
    }
}

/// Vowel written for a small kana in a combination.
pub open spec fn spec_compound_vowel(small: char) -> Option<char> {
    match small {
        'ャ' => Some('a'),
        'ュ' => Some('u'),
        'ョ' => Some('o'),
        'ァ' => Some('a'),
        'ィ' => Some('i'),
        'ゥ' => Some('u'),
        'ェ' => Some('e'),
        'ォ' => Some('o'),
        _ => None,
    }
}

/// Romanization of a kana followed by a small kana, where the pair has one.
pub open spec fn spec_compound_katakana_to_romaji(main: char, small: char) -> Option<Seq<char>> {
    match (spec_compound_base(main), spec_compound_vowel(small)) {
        (Some(base), Some(vowel)) => Some(base.push(vowel)),
        _ => None,
    }
}

pub open spec fn is_romaji_vowel(c: char) -> bool {
    c == 'a' || c == 'i' || c == 'u' || c == 'e' || c == 'o'
}

/// The romanization of `chars[i..]`, appended to `acc`, the romanization
/// of `chars[..i]`.
///
/// - a small tsu doubles the first letter of the next kana's romanization,
///   unless that letter is a vowel;
/// - a long vowel mark repeats the last letter written;
/// - a kana followed by a small kana with which it combines is written as
///   the combination;
/// - any other character is written by the single-kana table.
pub open spec fn romaji_from(chars: Seq<char>, i: int, acc: Seq<char>) -> Seq<char>
    decreases chars.len() - i,
{
    if i < 0 || i >= chars.len() {
        acc
    } else {
        let ch = chars[i];
        if ch == 'ッ' {
            let next = if i + 1 < chars.len() {
                spec_single_katakana_to_romaji(chars[i + 1])
            } else {
                Seq::empty()
            };
            let acc2 = if next.len() > 0 && !is_romaji_vowel(next[0]) {
                acc.push(next[0])
            } else {
                acc
            };
            romaji_from(chars, i + 1, acc2)
        } else if ch == 'ー' {
            let acc2 = if acc.len() > 0 {
                acc.push(acc.last())
            } else {
                acc
            };
            romaji_from(chars, i + 1, acc2)
        } else if i + 1 < chars.len() && spec_is_small_kana(chars[i + 1])
            && spec_compound_katakana_to_romaji(ch, chars[i + 1]) is Some {
            romaji_from(chars, i + 2, acc + spec_compound_katakana_to_romaji(ch, chars[i + 1])->0)
        } else {
            romaji_from(chars, i + 1, acc + spec_single_katakana_to_romaji(ch))
        }
    }
}

/// Hepburn romanization of a katakana reading.
pub open spec fn spec_katakana_to_romaji(s: Seq<char>) -> Seq<char> {
    romaji_from(s, 0, Seq::empty())
}

pub fn is_small_kana(ch: char) -> (r: bool)
    ensures
        r == spec_is_small_kana(ch),
{
    ch == 'ャ' || ch == 'ュ' || ch == 'ョ' || ch == 'ァ' || ch == 'ィ' || ch == 'ゥ' || ch == 'ェ'
        || ch == 'ォ'
}

pub fn compound_katakana_to_romaji(main: char, small: char) -> (r: Option<Vec<char>>)
    ensures
        match r {
            Some(v) => spec_compound_katakana_to_romaji(main, small) == Some(v@),
            None => spec_compound_katakana_to_romaji(main, small) is None,
        },
{
    let mut base: Vec<char> = match main {
        'キ' => vec!['k', 'y'],
        'シ' => vec!['s', 'h'],
        'チ' => vec!['c', 'h'],
        'ニ' => vec!['n', 'y'],
        'ヒ' => vec!['h', 'y'],
        'ミ' => vec!['m', 'y'],
        'リ' => vec!['r', 'y'],
        'ギ' => vec!['g', 'y'],
        'ジ' => vec!['j'],
        'ビ' => vec!['b', 'y'],
        'ピ' => vec!['p', 'y'],
        _ => return None,
    };
    let vowel: char = match small {
        'ャ' => 'a',
        'ュ' => 'u',
        'ョ' => 'o',
        'ァ' => 'a',
        'ィ' => 'i',
        'ゥ' => 'u',
        'ェ' => 'e',
        'ォ' => 'o',
        _ => return None,
    };
    base.push(vowel);
    Some(base)
}

pub fn single_katakana_to_romaji(ch: char) -> (r: Vec<char>)
    ensures
        r@ == spec_single_katakana_to_romaji(ch),
{
    match ch {
        'ア' => vec!['a'],
        'イ' => vec!['i'],
        'ウ' => vec!['u'],
        'エ' => vec!['e'],
        'オ' => vec!['o'],
        'カ' => vec!['k', 'a'],
        'キ' => vec!['k', 'i'],
        'ク' => vec!['k', 'u'],
        'ケ' => vec!['k', 'e'],
        'コ' => vec!['k', 'o'],
        'サ' => vec!['s', 'a'],
        'シ' => vec!['s', 'h', 'i'],
        'ス' => vec!['s', 'u'],
        'セ' => vec!['s', 'e'],
        'ソ' => vec!['s', 'o'],
        'タ' => vec!['t', 'a'],
        'チ' => vec!['c', 'h', 'i'],
        'ツ' => vec!['t', 's', 'u'],
        'テ' => vec!['t', 'e'],
        'ト' => vec!['t', 'o'],
        'ナ' => vec!['n', 'a'],
        'ニ' => vec!['n', 'i'],
        'ヌ' => vec!['n', 'u'],
        'ネ' => vec!['n', 'e'],
        'ノ' => vec!['n', 'o'],
        'ハ' => vec!['h', 'a'],
        'ヒ' => vec!['h', 'i'],
        'フ' => vec!['f', 'u'],
        'ヘ' => vec!['h', 'e'],
        'ホ' => vec!['h', 'o'],
        'マ' => vec!['m', 'a'],
        'ミ' => vec!['m', 'i'],
        'ム' => vec!['m', 'u'],
        'メ' => vec!['m', 'e'],
        'モ' => vec!['m', 'o'],
        'ヤ' => vec!['y', 'a'],
        'ユ' => vec!['y', 'u'],
        'ヨ' => vec!['y', 'o'],
        'ラ' => vec!['r', 'a'],
        'リ' => vec!['r', 'i'],
        'ル' => vec!['r', 'u'],
        'レ' => vec!['r', 'e'],
        'ロ' => vec!['r', 'o'],
        'ワ' => vec!['w', 'a'],
        'ヲ' => vec!['w', 'o'],
        'ン' => vec!['n'],
        'ガ' => vec!['g', 'a'],
        'ギ' => vec!['g', 'i'],
        'グ' => vec!['g', 'u'],
        'ゲ' => vec!['g', 'e'],
        'ゴ' => vec!['g', 'o'],
        'ザ' => vec!['z', 'a'],
        'ジ' => vec!['j', 'i'],
        'ズ' => vec!['z', 'u'],
        'ゼ' => vec!['z', 'e'],
        'ゾ' => vec!['z', 'o'],
        'ダ' => vec!['d', 'a'],
        'ヂ' => vec!['d', 'i'],
        'ヅ' => vec!['d', 'u'],
        'デ' => vec!['d', 'e'],
        'ド' => vec!['d', 'o'],
        'バ' => vec!['b', 'a'],
        'ビ' => vec!['b', 'i'],
        'ブ' => vec!['b', 'u'],
        'ベ' => vec!['b', 'e'],
        'ボ' => vec!['b', 'o'],
        'パ' => vec!['p', 'a'],
        'ピ' => vec!['p', 'i'],
        'プ' => vec!['p', 'u'],
        'ペ' => vec!['p', 'e'],
        'ポ' => vec!['p', 'o'],
        'ヴ' => vec!['v', 'u'],
        _ => Vec::new(),
    }
}

/// Converts a katakana reading to its Hepburn romanization.
pub fn katakana_to_romaji(katakana: &str) -> (r: String)
    ensures
        r@ == spec_katakana_to_romaji(katakana@),
{
    let chars = chars_of(katakana);
    let len = chars.len();
    let mut result: Vec<char> = Vec::new();
    let mut i: usize = 0;
    while i < len
        invariant
            len == chars@.len(),
            chars@ == katakana@,
            i <= len,
            romaji_from(chars@, i as int, result@) == spec_katakana_to_romaji(katakana@),
        decreases len - i,
    {
        let ch = chars[i];
        if ch == 'ッ' {
            if i + 1 < len {
                let next_romaji = single_katakana_to_romaji(chars[i + 1]);
                if next_romaji.len() > 0 {
                    let first = next_romaji[0];
                    if first != 'a' && first != 'i' && first != 'u' && first != 'e' && first != 'o' {
                        result.push(first);
                    }
                }
            }
            i = i + 1;
            continue;
        }
        if ch == 'ー' {
            let n = result.len();
            if n > 0 {
                let last = result[n - 1];
                result.push(last);
            }
            i = i + 1;
            continue;
        }
        if i + 1 < len && is_small_kana(chars[i + 1]) {
            if let Some(compound) = compound_katakana_to_romaji(ch, chars[i + 1]) {
                let mut c = compound;
                result.append(&mut c);
                i = i + 2;
                continue;
            }
        }
        let mut single = single_katakana_to_romaji(ch);
        result.append(&mut single);
        i = i + 1;
    }
    string_from_chars(&result)
}


/// The reading of a term, given its analysis: the reading feature of its
/// sole morpheme where it is set, in katakana or romanized.
pub open spec fn spec_reading(reading_type: ReadingFormType, analysis: Option<Vec<Morpheme>>) -> Option<
    Seq<char>,
> {
    match sole_feature(analysis, READING_FEATURE as int) {
        Some(k) => if !is_unset_feature(k) {
            match reading_type {
                ReadingFormType::Katakana => Some(k),
                ReadingFormType::Romaji => Some(spec_katakana_to_romaji(k)),
            }
        } else {
            None
        },
        None => None,
    }
}

/// Replaces a token's term by its reading form, in katakana or in romaji.
#[derive(Debug, Clone, Copy)]
pub struct KuromojiReadingformFilter {
    pub reading_type: ReadingFormType,
}

impl KuromojiReadingformFilter {
    pub fn new(reading_type: ReadingFormType) -> (f: Self)
        ensures
            f.reading_type == reading_type,
    {
        KuromojiReadingformFilter { reading_type }
    }

    /// The reading of a term, given `analysis`, the analysis of the term.
    pub fn get_reading(&self, analysis: &Option<Vec<Morpheme>>) -> (r: Option<String>)
        ensures
            opt_chars(r) == spec_reading(self.reading_type, *analysis),
    {
        match get_sole_feature(analysis, READING_FEATURE) {
            Some(katakana) => {
                if is_unset(katakana.as_str()) {
                    return None;
                }
                match self.reading_type {
                    ReadingFormType::Katakana => Some(katakana),
                    ReadingFormType::Romaji => Some(katakana_to_romaji(katakana.as_str())),
                }
            },
            None => None,
        }
    }

    /// Replaces the term by its reading where it has one, given `analysis`,
    /// the analysis of the term; never deletes the token and adds none.
    pub fn filter(&self, token: &mut Token, analysis: &Option<Vec<Morpheme>>) -> (r: (
        bool,
        Option<Vec<Token>>,
    ))
        ensures
            final(token).term@ == match spec_reading(self.reading_type, *analysis) {
                Some(reading) => reading,
                None => old(token).term@,
            },
            final(token).start_offset == old(token).start_offset,
            final(token).end_offset == old(token).end_offset,
            final(token).position == old(token).position,
            r.0 == false,
            r.1 is None,
    {
        if let Some(reading) = self.get_reading(analysis) {
            token.term = reading;
        }
        (false, None)
    }
}

/// The romaji reading of an analysis is the romanization of its katakana
/// reading.
pub proof fn lemma_romaji_reading_romanizes_katakana(analysis: Option<Vec<Morpheme>>)
    ensures
        spec_reading(ReadingFormType::Romaji, analysis) == match spec_reading(
            ReadingFormType::Katakana,
            analysis,
        ) {
            Some(k) => Some(spec_katakana_to_romaji(k)),
            None => None,
        },
{
}

/// Every character of a romaji reading is a lowercase ASCII letter.
pub proof fn lemma_romaji_is_lowercase_ascii(s: Seq<char>)
    ensures
        forall|i: int|
            0 <= i < spec_katakana_to_romaji(s).len() ==> 'a' <= #[trigger] spec_katakana_to_romaji(
                s,
            )[i] <= 'z',
{
    lemma_romaji_from_lowercase(s, 0, Seq::empty());
}

pub open spec fn all_lowercase_ascii(s: Seq<char>) -> bool {
    forall|i: int| 0 <= i < s.len() ==> 'a' <= #[trigger] s[i] <= 'z'
}

proof fn lemma_single_lowercase(ch: char)
    ensures
        all_lowercase_ascii(spec_single_katakana_to_romaji(ch)),
{
}

proof fn lemma_compound_lowercase(main: char, small: char)
    ensures
        spec_compound_katakana_to_romaji(main, small) matches Some(c) ==> all_lowercase_ascii(c),
{
}

proof fn lemma_romaji_from_lowercase(chars: Seq<char>, i: int, acc: Seq<char>)
    requires
        all_lowercase_ascii(acc),
    ensures
        all_lowercase_ascii(romaji_from(chars, i, acc)),
    decreases chars.len() - i,
{
    if 0 <= i < chars.len() {
        let ch = chars[i];
        if ch == 'ッ' {
            if i + 1 < chars.len() {
                lemma_single_lowercase(chars[i + 1]);
            }
            let next = if i + 1 < chars.len() {
                spec_single_katakana_to_romaji(chars[i + 1])
            } else {
                Seq::empty()
            };
            let acc2 = if next.len() > 0 && !is_romaji_vowel(next[0]) {
                acc.push(next[0])
            } else {
                acc
            };
            assert(all_lowercase_ascii(acc2));
            lemma_romaji_from_lowercase(chars, i + 1, acc2);
        } else if ch == 'ー' {
            let acc2 = if acc.len() > 0 {
                acc.push(acc.last())
            } else {
                acc
            };
            assert(all_lowercase_ascii(acc2));
            lemma_romaji_from_lowercase(chars, i + 1, acc2);
        } else if i + 1 < chars.len() && spec_is_small_kana(chars[i + 1])
            && spec_compound_katakana_to_romaji(ch, chars[i + 1]) is Some {
            let c = spec_compound_katakana_to_romaji(ch, chars[i + 1])->0;
            lemma_compound_lowercase(ch, chars[i + 1]);
            assert(all_lowercase_ascii(acc + c));
            lemma_romaji_from_lowercase(chars, i + 2, acc + c);
        } else {
            lemma_single_lowercase(ch);
            assert(all_lowercase_ascii(acc + spec_single_katakana_to_romaji(ch)));
            lemma_romaji_from_lowercase(chars, i + 1, acc + spec_single_katakana_to_romaji(ch));
        }
    }
}

/// Every kana of the full rows of the grid is written as the onset of its
/// row (its consonant, or sh, ch, ts, f, j where Hepburn writes those)
/// followed by the vowel of its column: ネ, in the n row and the e column,
/// is written ne.
pub proof fn lemma_grid_kana_romanize_by_row_and_column(r: int, j: int)
    requires
        0 <= r < full_rows(),
        0 <= j < 5,
    ensures
        spec_single_katakana_to_romaji(kana_row(r)[j]) == grid_syllable(r, j),
{
    if r == 0 {
        if j == 0 {
            assert(kana_row(r)[j] == 'ア');
            assert(spec_single_katakana_to_romaji('ア') =~= grid_syllable(r, j));
        } else if j == 1 {
            assert(kana_row(r)[j] == 'イ');
            assert(spec_single_katakana_to_romaji('イ') =~= grid_syllable(r, j));
        } else if j == 2 {
            assert(kana_row(r)[j] == 'ウ');
            assert(spec_single_katakana_to_romaji('ウ') =~= grid_syllable(r, j));
        } else if j == 3 {
            assert(kana_row(r)[j] == 'エ');
            assert(spec_single_katakana_to_romaji('エ') =~= grid_syllable(r, j));
        } else if j == 4 {
            assert(kana_row(r)[j] == 'オ');
            assert(spec_single_katakana_to_romaji('オ') =~= grid_syllable(r, j));
        }
    } else if r == 1 {
        if j == 0 {
            assert(kana_row(r)[j] == 'カ');
            assert(spec_single_katakana_to_romaji('カ') =~= grid_syllable(r, j));
        } else if j == 1 {
            assert(kana_row(r)[j] == 'キ');
            assert(spec_single_katakana_to_romaji('キ') =~= grid_syllable(r, j));
        } else if j == 2 {
            assert(kana_row(r)[j] == 'ク');
            assert(spec_single_katakana_to_romaji('ク') =~= grid_syllable(r, j));
        } else if j == 3 {
            assert(kana_row(r)[j] == 'ケ');
            assert(spec_single_katakana_to_romaji('ケ') =~= grid_syllable(r, j));
        } else if j == 4 {
            assert(kana_row(r)[j] == 'コ');
            assert(spec_single_katakana_to_romaji('コ') =~= grid_syllable(r, j));
        }
    } else if r == 2 {
        if j == 0 {
            assert(kana_row(r)[j] == 'サ');
            assert(spec_single_katakana_to_romaji('サ') =~= grid_syllable(r, j));
        } else if j == 1 {
            assert(kana_row(r)[j] == 'シ');
            assert(spec_single_katakana_to_romaji('シ') =~= grid_syllable(r, j));
        } else if j == 2 {
            assert(kana_row(r)[j] == 'ス');
            assert(spec_single_katakana_to_romaji('ス') =~= grid_syllable(r, j));
        } else if j == 3 {
            assert(kana_row(r)[j] == 'セ');
            assert(spec_single_katakana_to_romaji('セ') =~= grid_syllable(r, j));
        } else if j == 4 {
            assert(kana_row(r)[j] == 'ソ');
            assert(spec_single_katakana_to_romaji('ソ') =~= grid_syllable(r, j));
        }
    } else if r == 3 {
        if j == 0 {
            assert(kana_row(r)[j] == 'タ');
            assert(spec_single_katakana_to_romaji('タ') =~= grid_syllable(r, j));
        } else if j == 1 {
            assert(kana_row(r)[j] == 'チ');
            assert(spec_single_katakana_to_romaji('チ') =~= grid_syllable(r, j));
        } else if j == 2 {
            assert(kana_row(r)[j] == 'ツ');
            assert(spec_single_katakana_to_romaji('ツ') =~= grid_syllable(r, j));
        } else if j == 3 {
            assert(kana_row(r)[j] == 'テ');
            assert(spec_single_katakana_to_romaji('テ') =~= grid_syllable(r, j));
        } else if j == 4 {
            assert(kana_row(r)[j] == 'ト');
            assert(spec_single_katakana_to_romaji('ト') =~= grid_syllable(r, j));
        }
    } else if r == 4 {
        if j == 0 {
            assert(kana_row(r)[j] == 'ナ');
            assert(spec_single_katakana_to_romaji('ナ') =~= grid_syllable(r, j));
        } else if j == 1 {
            assert(kana_row(r)[j] == 'ニ');
            assert(spec_single_katakana_to_romaji('ニ') =~= grid_syllable(r, j));
        } else if j == 2 {
            assert(kana_row(r)[j] == 'ヌ');
            assert(spec_single_katakana_to_romaji('ヌ') =~= grid_syllable(r, j));
        } else if j == 3 {
            assert(kana_row(r)[j] == 'ネ');
            assert(spec_single_katakana_to_romaji('ネ') =~= grid_syllable(r, j));
        } else if j == 4 {
            assert(kana_row(r)[j] == 'ノ');
            assert(spec_single_katakana_to_romaji('ノ') =~= grid_syllable(r, j));
        }
    } else if r == 5 {
        if j == 0 {
            assert(kana_row(r)[j] == 'ハ');
            assert(spec_single_katakana_to_romaji('ハ') =~= grid_syllable(r, j));
        } else if j == 1 {
            assert(kana_row(r)[j] == 'ヒ');
            assert(spec_single_katakana_to_romaji('ヒ') =~= grid_syllable(r, j));
        } else if j == 2 {
            assert(kana_row(r)[j] == 'フ');
            assert(spec_single_katakana_to_romaji('フ') =~= grid_syllable(r, j));
        } else if j == 3 {
            assert(kana_row(r)[j] == 'ヘ');
            assert(spec_single_katakana_to_romaji('ヘ') =~= grid_syllable(r, j));
        } else if j == 4 {
            assert(kana_row(r)[j] == 'ホ');
            assert(spec_single_katakana_to_romaji('ホ') =~= grid_syllable(r, j));
        }
    } else if r == 6 {
        if j == 0 {
            assert(kana_row(r)[j] == 'マ');
            assert(spec_single_katakana_to_romaji('マ') =~= grid_syllable(r, j));
        } else if j == 1 {
            assert(kana_row(r)[j] == 'ミ');
            assert(spec_single_katakana_to_romaji('ミ') =~= grid_syllable(r, j));
        } else if j == 2 {
            assert(kana_row(r)[j] == 'ム');
            assert(spec_single_katakana_to_romaji('ム') =~= grid_syllable(r, j));
        } else if j == 3 {
            assert(kana_row(r)[j] == 'メ');
            assert(spec_single_katakana_to_romaji('メ') =~= grid_syllable(r, j));
        } else if j == 4 {
            assert(kana_row(r)[j] == 'モ');
            assert(spec_single_katakana_to_romaji('モ') =~= grid_syllable(r, j));
        }
    } else if r == 7 {
        if j == 0 {
            assert(kana_row(r)[j] == 'ラ');
            assert(spec_single_katakana_to_romaji('ラ') =~= grid_syllable(r, j));
        } else if j == 1 {
            assert(kana_row(r)[j] == 'リ');
            assert(spec_single_katakana_to_romaji('リ') =~= grid_syllable(r, j));
        } else if j == 2 {
            assert(kana_row(r)[j] == 'ル');
            assert(spec_single_katakana_to_romaji('ル') =~= grid_syllable(r, j));
        } else if j == 3 {
            assert(kana_row(r)[j] == 'レ');
            assert(spec_single_katakana_to_romaji('レ') =~= grid_syllable(r, j));
        } else if j == 4 {
            assert(kana_row(r)[j] == 'ロ');
            assert(spec_single_katakana_to_romaji('ロ') =~= grid_syllable(r, j));
        }
    } else if r == 8 {
        if j == 0 {
            assert(kana_row(r)[j] == 'ガ');
            assert(spec_single_katakana_to_romaji('ガ') =~= grid_syllable(r, j));
        } else if j == 1 {
            assert(kana_row(r)[j] == 'ギ');
            assert(spec_single_katakana_to_romaji('ギ') =~= grid_syllable(r, j));
        } else if j == 2 {
            assert(kana_row(r)[j] == 'グ');
            assert(spec_single_katakana_to_romaji('グ') =~= grid_syllable(r, j));
        } else if j == 3 {
            assert(kana_row(r)[j] == 'ゲ');
            assert(spec_single_katakana_to_romaji('ゲ') =~= grid_syllable(r, j));
        } else if j == 4 {
            assert(kana_row(r)[j] == 'ゴ');
            assert(spec_single_katakana_to_romaji('ゴ') =~= grid_syllable(r, j));
        }
    } else if r == 9 {
        if j == 0 {
            assert(kana_row(r)[j] == 'ザ');
            assert(spec_single_katakana_to_romaji('ザ') =~= grid_syllable(r, j));
        } else if j == 1 {
            assert(kana_row(r)[j] == 'ジ');
            assert(spec_single_katakana_to_romaji('ジ') =~= grid_syllable(r, j));
        } else if j == 2 {
            assert(kana_row(r)[j] == 'ズ');
            assert(spec_single_katakana_to_romaji('ズ') =~= grid_syllable(r, j));
        } else if j == 3 {
            assert(kana_row(r)[j] == 'ゼ');
            assert(spec_single_katakana_to_romaji('ゼ') =~= grid_syllable(r, j));
        } else if j == 4 {
            assert(kana_row(r)[j] == 'ゾ');
            assert(spec_single_katakana_to_romaji('ゾ') =~= grid_syllable(r, j));
        }
    } else if r == 10 {
        if j == 0 {
            assert(kana_row(r)[j] == 'ダ');
            assert(spec_single_katakana_to_romaji('ダ') =~= grid_syllable(r, j));
        } else if j == 1 {
            assert(kana_row(r)[j] == 'ヂ');
            assert(spec_single_katakana_to_romaji('ヂ') =~= grid_syllable(r, j));
        } else if j == 2 {
            assert(kana_row(r)[j] == 'ヅ');
            assert(spec_single_katakana_to_romaji('ヅ') =~= grid_syllable(r, j));
        } else if j == 3 {
            assert(kana_row(r)[j] == 'デ');
            assert(spec_single_katakana_to_romaji('デ') =~= grid_syllable(r, j));
        } else if j == 4 {
            assert(kana_row(r)[j] == 'ド');
            assert(spec_single_katakana_to_romaji('ド') =~= grid_syllable(r, j));
        }
    } else if r == 11 {
        if j == 0 {
            assert(kana_row(r)[j] == 'バ');
            assert(spec_single_katakana_to_romaji('バ') =~= grid_syllable(r, j));
        } else if j == 1 {
            assert(kana_row(r)[j] == 'ビ');
            assert(spec_single_katakana_to_romaji('ビ') =~= grid_syllable(r, j));
        } else if j == 2 {
            assert(kana_row(r)[j] == 'ブ');
            assert(spec_single_katakana_to_romaji('ブ') =~= grid_syllable(r, j));
        } else if j == 3 {
            assert(kana_row(r)[j] == 'ベ');
            assert(spec_single_katakana_to_romaji('ベ') =~= grid_syllable(r, j));
        } else if j == 4 {
            assert(kana_row(r)[j] == 'ボ');
            assert(spec_single_katakana_to_romaji('ボ') =~= grid_syllable(r, j));
        }
    } else if r == 12 {
        if j == 0 {
            assert(kana_row(r)[j] == 'パ');
            assert(spec_single_katakana_to_romaji('パ') =~= grid_syllable(r, j));
        } else if j == 1 {
            assert(kana_row(r)[j] == 'ピ');
            assert(spec_single_katakana_to_romaji('ピ') =~= grid_syllable(r, j));
        } else if j == 2 {
            assert(kana_row(r)[j] == 'プ');
            assert(spec_single_katakana_to_romaji('プ') =~= grid_syllable(r, j));
        } else if j == 3 {
            assert(kana_row(r)[j] == 'ペ');
            assert(spec_single_katakana_to_romaji('ペ') =~= grid_syllable(r, j));
        } else if j == 4 {
            assert(kana_row(r)[j] == 'ポ');
            assert(spec_single_katakana_to_romaji('ポ') =~= grid_syllable(r, j));
        }
    }
}

/// The kana outside the full rows: ya, yu, yo and wa, wo in their
/// columns, and n and vu.
pub proof fn lemma_other_kana_romanize()
    ensures
        spec_single_katakana_to_romaji('ヤ') == seq!['y'].push(column_vowel(0)),
        spec_single_katakana_to_romaji('ユ') == seq!['y'].push(column_vowel(2)),
        spec_single_katakana_to_romaji('ヨ') == seq!['y'].push(column_vowel(4)),
        spec_single_katakana_to_romaji('ワ') == seq!['w'].push(column_vowel(0)),
        spec_single_katakana_to_romaji('ヲ') == seq!['w'].push(column_vowel(4)),
        spec_single_katakana_to_romaji('ン') == seq!['n'],
            spec_single_katakana_to_romaji('ヴ') == seq!['v'].push(column_vowel(2)),
{
}

/// A kana followed by a small kana is written as a contracted syllable:
/// the kana is one of the i column (of a row with a consonant, but for d),
/// written without its vowel and with a y unless it is sh, ch or j, and
/// then comes the vowel of the small kana's full-size form: キュ is kyu,
/// ジャ is ja.
pub proof fn lemma_pair_is_contracted_syllable(main: char, small: char)
    requires
        spec_compound_katakana_to_romaji(main, small) is Some,
    ensures
        spec_compound_katakana_to_romaji(main, small)->0 == contracted_onset(
            spec_single_katakana_to_romaji(main),
        ).push(spec_single_katakana_to_romaji(full_size(small)).last()),
        spec_is_small_kana(small),
        exists|r: int| 1 <= r < full_rows() && r != 10 && main == #[trigger] kana_row(r)[1],
{
    if main == 'キ' {
        assert(main == kana_row(1)[1]);
        if small == 'ャ' {
            assert(spec_compound_katakana_to_romaji(main, small)->0 =~= contracted_onset(spec_single_katakana_to_romaji(main)).push(spec_single_katakana_to_romaji(full_size(small)).last()));
        } else if small == 'ュ' {
            assert(spec_compound_katakana_to_romaji(main, small)->0 =~= contracted_onset(spec_single_katakana_to_romaji(main)).push(spec_single_katakana_to_romaji(full_size(small)).last()));
        } else if small == 'ョ' {
            assert(spec_compound_katakana_to_romaji(main, small)->0 =~= contracted_onset(spec_single_katakana_to_romaji(main)).push(spec_single_katakana_to_romaji(full_size(small)).last()));
        } else if small == 'ァ' {
            assert(spec_compound_katakana_to_romaji(main, small)->0 =~= contracted_onset(spec_single_katakana_to_romaji(main)).push(spec_single_katakana_to_romaji(full_size(small)).last()));
        } else if small == 'ィ' {
            assert(spec_compound_katakana_to_romaji(main, small)->0 =~= contracted_onset(spec_single_katakana_to_romaji(main)).push(spec_single_katakana_to_romaji(full_size(small)).last()));
        } else if small == 'ゥ' {
            assert(spec_compound_katakana_to_romaji(main, small)->0 =~= contracted_onset(spec_single_katakana_to_romaji(main)).push(spec_single_katakana_to_romaji(full_size(small)).last()));
        } else if small == 'ェ' {
            assert(spec_compound_katakana_to_romaji(main, small)->0 =~= contracted_onset(spec_single_katakana_to_romaji(main)).push(spec_single_katakana_to_romaji(full_size(small)).last()));
        } else if small == 'ォ' {
            assert(spec_compound_katakana_to_romaji(main, small)->0 =~= contracted_onset(spec_single_katakana_to_romaji(main)).push(spec_single_katakana_to_romaji(full_size(small)).last()));
        }
    } else if main == 'シ' {
        assert(main == kana_row(2)[1]);
        if small == 'ャ' {
            assert(spec_compound_katakana_to_romaji(main, small)->0 =~= contracted_onset(spec_single_katakana_to_romaji(main)).push(spec_single_katakana_to_romaji(full_size(small)).last()));
        } else if small == 'ュ' {
            assert(spec_compound_katakana_to_romaji(main, small)->0 =~= contracted_onset(spec_single_katakana_to_romaji(main)).push(spec_single_katakana_to_romaji(full_size(small)).last()));
        } else if small == 'ョ' {
            assert(spec_compound_katakana_to_romaji(main, small)->0 =~= contracted_onset(spec_single_katakana_to_romaji(main)).push(spec_single_katakana_to_romaji(full_size(small)).last()));
        } else if small == 'ァ' {
            assert(spec_compound_katakana_to_romaji(main, small)->0 =~= contracted_onset(spec_single_katakana_to_romaji(main)).push(spec_single_katakana_to_romaji(full_size(small)).last()));
        } else if small == 'ィ' {
            assert(spec_compound_katakana_to_romaji(main, small)->0 =~= contracted_onset(spec_single_katakana_to_romaji(main)).push(spec_single_katakana_to_romaji(full_size(small)).last()));
        } else if small == 'ゥ' {
            assert(spec_compound_katakana_to_romaji(main, small)->0 =~= contracted_onset(spec_single_katakana_to_romaji(main)).push(spec_single_katakana_to_romaji(full_size(small)).last()));
        } else if small == 'ェ' {
            assert(spec_compound_katakana_to_romaji(main, small)->0 =~= contracted_onset(spec_single_katakana_to_romaji(main)).push(spec_single_katakana_to_romaji(full_size(small)).last()));
        } else if small == 'ォ' {
            assert(spec_compound_katakana_to_romaji(main, small)->0 =~= contracted_onset(spec_single_katakana_to_romaji(main)).push(spec_single_katakana_to_romaji(full_size(small)).last()));
        }
    } else if main == 'チ' {
        assert(main == kana_row(3)[1]);
        if small == 'ャ' {
            assert(spec_compound_katakana_to_romaji(main, small)->0 =~= contracted_onset(spec_single_katakana_to_romaji(main)).push(spec_single_katakana_to_romaji(full_size(small)).last()));
        } else if small == 'ュ' {
            assert(spec_compound_katakana_to_romaji(main, small)->0 =~= contracted_onset(spec_single_katakana_to_romaji(main)).push(spec_single_katakana_to_romaji(full_size(small)).last()));
        } else if small == 'ョ' {
            assert(spec_compound_katakana_to_romaji(main, small)->0 =~= contracted_onset(spec_single_katakana_to_romaji(main)).push(spec_single_katakana_to_romaji(full_size(small)).last()));
        } else if small == 'ァ' {
            assert(spec_compound_katakana_to_romaji(main, small)->0 =~= contracted_onset(spec_single_katakana_to_romaji(main)).push(spec_single_katakana_to_romaji(full_size(small)).last()));
        } else if small == 'ィ' {
            assert(spec_compound_katakana_to_romaji(main, small)->0 =~= contracted_onset(spec_single_katakana_to_romaji(main)).push(spec_single_katakana_to_romaji(full_size(small)).last()));
        } else if small == 'ゥ' {
            assert(spec_compound_katakana_to_romaji(main, small)->0 =~= contracted_onset(spec_single_katakana_to_romaji(main)).push(spec_single_katakana_to_romaji(full_size(small)).last()));
        } else if small == 'ェ' {
            assert(spec_compound_katakana_to_romaji(main, small)->0 =~= contracted_onset(spec_single_katakana_to_romaji(main)).push(spec_single_katakana_to_romaji(full_size(small)).last()));
        } else if small == 'ォ' {
            assert(spec_compound_katakana_to_romaji(main, small)->0 =~= contracted_onset(spec_single_katakana_to_romaji(main)).push(spec_single_katakana_to_romaji(full_size(small)).last()));
        }
    } else if main == 'ニ' {
        assert(main == kana_row(4)[1]);
        if small == 'ャ' {
            assert(spec_compound_katakana_to_romaji(main, small)->0 =~= contracted_onset(spec_single_katakana_to_romaji(main)).push(spec_single_katakana_to_romaji(full_size(small)).last()));
        } else if small == 'ュ' {
            assert(spec_compound_katakana_to_romaji(main, small)->0 =~= contracted_onset(spec_single_katakana_to_romaji(main)).push(spec_single_katakana_to_romaji(full_size(small)).last()));
        } else if small == 'ョ' {
            assert(spec_compound_katakana_to_romaji(main, small)->0 =~= contracted_onset(spec_single_katakana_to_romaji(main)).push(spec_single_katakana_to_romaji(full_size(small)).last()));
        } else if small == 'ァ' {
            assert(spec_compound_katakana_to_romaji(main, small)->0 =~= contracted_onset(spec_single_katakana_to_romaji(main)).push(spec_single_katakana_to_romaji(full_size(small)).last()));
        } else if small == 'ィ' {
            assert(spec_compound_katakana_to_romaji(main, small)->0 =~= contracted_onset(spec_single_katakana_to_romaji(main)).push(spec_single_katakana_to_romaji(full_size(small)).last()));
        } else if small == 'ゥ' {
            assert(spec_compound_katakana_to_romaji(main, small)->0 =~= contracted_onset(spec_single_katakana_to_romaji(main)).push(spec_single_katakana_to_romaji(full_size(small)).last()));
        } else if small == 'ェ' {
            assert(spec_compound_katakana_to_romaji(main, small)->0 =~= contracted_onset(spec_single_katakana_to_romaji(main)).push(spec_single_katakana_to_romaji(full_size(small)).last()));
        } else if small == 'ォ' {
            assert(spec_compound_katakana_to_romaji(main, small)->0 =~= contracted_onset(spec_single_katakana_to_romaji(main)).push(spec_single_katakana_to_romaji(full_size(small)).last()));
        }
    } else if main == 'ヒ' {
        assert(main == kana_row(5)[1]);
        if small == 'ャ' {
            assert(spec_compound_katakana_to_romaji(main, small)->0 =~= contracted_onset(spec_single_katakana_to_romaji(main)).push(spec_single_katakana_to_romaji(full_size(small)).last()));
        } else if small == 'ュ' {
            assert(spec_compound_katakana_to_romaji(main, small)->0 =~= contracted_onset(spec_single_katakana_to_romaji(main)).push(spec_single_katakana_to_romaji(full_size(small)).last()));
        } else if small == 'ョ' {
            assert(spec_compound_katakana_to_romaji(main, small)->0 =~= contracted_onset(spec_single_katakana_to_romaji(main)).push(spec_single_katakana_to_romaji(full_size(small)).last()));
        } else if small == 'ァ' {
            assert(spec_compound_katakana_to_romaji(main, small)->0 =~= contracted_onset(spec_single_katakana_to_romaji(main)).push(spec_single_katakana_to_romaji(full_size(small)).last()));
        } else if small == 'ィ' {
            assert(spec_compound_katakana_to_romaji(main, small)->0 =~= contracted_onset(spec_single_katakana_to_romaji(main)).push(spec_single_katakana_to_romaji(full_size(small)).last()));
        } else if small == 'ゥ' {
            assert(spec_compound_katakana_to_romaji(main, small)->0 =~= contracted_onset(spec_single_katakana_to_romaji(main)).push(spec_single_katakana_to_romaji(full_size(small)).last()));
        } else if small == 'ェ' {
            assert(spec_compound_katakana_to_romaji(main, small)->0 =~= contracted_onset(spec_single_katakana_to_romaji(main)).push(spec_single_katakana_to_romaji(full_size(small)).last()));
        } else if small == 'ォ' {
            assert(spec_compound_katakana_to_romaji(main, small)->0 =~= contracted_onset(spec_single_katakana_to_romaji(main)).push(spec_single_katakana_to_romaji(full_size(small)).last()));
        }
    } else if main == 'ミ' {
        assert(main == kana_row(6)[1]);
        if small == 'ャ' {
            assert(spec_compound_katakana_to_romaji(main, small)->0 =~= contracted_onset(spec_single_katakana_to_romaji(main)).push(spec_single_katakana_to_romaji(full_size(small)).last()));
        } else if small == 'ュ' {
            assert(spec_compound_katakana_to_romaji(main, small)->0 =~= contracted_onset(spec_single_katakana_to_romaji(main)).push(spec_single_katakana_to_romaji(full_size(small)).last()));
        } else if small == 'ョ' {
            assert(spec_compound_katakana_to_romaji(main, small)->0 =~= contracted_onset(spec_single_katakana_to_romaji(main)).push(spec_single_katakana_to_romaji(full_size(small)).last()));
        } else if small == 'ァ' {
            assert(spec_compound_katakana_to_romaji(main, small)->0 =~= contracted_onset(spec_single_katakana_to_romaji(main)).push(spec_single_katakana_to_romaji(full_size(small)).last()));
        } else if small == 'ィ' {
            assert(spec_compound_katakana_to_romaji(main, small)->0 =~= contracted_onset(spec_single_katakana_to_romaji(main)).push(spec_single_katakana_to_romaji(full_size(small)).last()));
        } else if small == 'ゥ' {
            assert(spec_compound_katakana_to_romaji(main, small)->0 =~= contracted_onset(spec_single_katakana_to_romaji(main)).push(spec_single_katakana_to_romaji(full_size(small)).last()));
        } else if small == 'ェ' {
            assert(spec_compound_katakana_to_romaji(main, small)->0 =~= contracted_onset(spec_single_katakana_to_romaji(main)).push(spec_single_katakana_to_romaji(full_size(small)).last()));
        } else if small == 'ォ' {
            assert(spec_compound_katakana_to_romaji(main, small)->0 =~= contracted_onset(spec_single_katakana_to_romaji(main)).push(spec_single_katakana_to_romaji(full_size(small)).last()));
        }
    } else if main == 'リ' {
        assert(main == kana_row(7)[1]);
        if small == 'ャ' {
            assert(spec_compound_katakana_to_romaji(main, small)->0 =~= contracted_onset(spec_single_katakana_to_romaji(main)).push(spec_single_katakana_to_romaji(full_size(small)).last()));
        } else if small == 'ュ' {
            assert(spec_compound_katakana_to_romaji(main, small)->0 =~= contracted_onset(spec_single_katakana_to_romaji(main)).push(spec_single_katakana_to_romaji(full_size(small)).last()));
        } else if small == 'ョ' {
            assert(spec_compound_katakana_to_romaji(main, small)->0 =~= contracted_onset(spec_single_katakana_to_romaji(main)).push(spec_single_katakana_to_romaji(full_size(small)).last()));
        } else if small == 'ァ' {
            assert(spec_compound_katakana_to_romaji(main, small)->0 =~= contracted_onset(spec_single_katakana_to_romaji(main)).push(spec_single_katakana_to_romaji(full_size(small)).last()));
        } else if small == 'ィ' {
            assert(spec_compound_katakana_to_romaji(main, small)->0 =~= contracted_onset(spec_single_katakana_to_romaji(main)).push(spec_single_katakana_to_romaji(full_size(small)).last()));
        } else if small == 'ゥ' {
            assert(spec_compound_katakana_to_romaji(main, small)->0 =~= contracted_onset(spec_single_katakana_to_romaji(main)).push(spec_single_katakana_to_romaji(full_size(small)).last()));
        } else if small == 'ェ' {
            assert(spec_compound_katakana_to_romaji(main, small)->0 =~= contracted_onset(spec_single_katakana_to_romaji(main)).push(spec_single_katakana_to_romaji(full_size(small)).last()));
        } else if small == 'ォ' {
            assert(spec_compound_katakana_to_romaji(main, small)->0 =~= contracted_onset(spec_single_katakana_to_romaji(main)).push(spec_single_katakana_to_romaji(full_size(small)).last()));
        }
    } else if main == 'ギ' {
        assert(main == kana_row(8)[1]);
        if small == 'ャ' {
            assert(spec_compound_katakana_to_romaji(main, small)->0 =~= contracted_onset(spec_single_katakana_to_romaji(main)).push(spec_single_katakana_to_romaji(full_size(small)).last()));
        } else if small == 'ュ' {
            assert(spec_compound_katakana_to_romaji(main, small)->0 =~= contracted_onset(spec_single_katakana_to_romaji(main)).push(spec_single_katakana_to_romaji(full_size(small)).last()));
        } else if small == 'ョ' {
            assert(spec_compound_katakana_to_romaji(main, small)->0 =~= contracted_onset(spec_single_katakana_to_romaji(main)).push(spec_single_katakana_to_romaji(full_size(small)).last()));
        } else if small == 'ァ' {
            assert(spec_compound_katakana_to_romaji(main, small)->0 =~= contracted_onset(spec_single_katakana_to_romaji(main)).push(spec_single_katakana_to_romaji(full_size(small)).last()));
        } else if small == 'ィ' {
            assert(spec_compound_katakana_to_romaji(main, small)->0 =~= contracted_onset(spec_single_katakana_to_romaji(main)).push(spec_single_katakana_to_romaji(full_size(small)).last()));
        } else if small == 'ゥ' {
            assert(spec_compound_katakana_to_romaji(main, small)->0 =~= contracted_onset(spec_single_katakana_to_romaji(main)).push(spec_single_katakana_to_romaji(full_size(small)).last()));
        } else if small == 'ェ' {
            assert(spec_compound_katakana_to_romaji(main, small)->0 =~= contracted_onset(spec_single_katakana_to_romaji(main)).push(spec_single_katakana_to_romaji(full_size(small)).last()));
        } else if small == 'ォ' {
            assert(spec_compound_katakana_to_romaji(main, small)->0 =~= contracted_onset(spec_single_katakana_to_romaji(main)).push(spec_single_katakana_to_romaji(full_size(small)).last()));
        }
    } else if main == 'ジ' {
        assert(main == kana_row(9)[1]);
        if small == 'ャ' {
            assert(spec_compound_katakana_to_romaji(main, small)->0 =~= contracted_onset(spec_single_katakana_to_romaji(main)).push(spec_single_katakana_to_romaji(full_size(small)).last()));
        } else if small == 'ュ' {
            assert(spec_compound_katakana_to_romaji(main, small)->0 =~= contracted_onset(spec_single_katakana_to_romaji(main)).push(spec_single_katakana_to_romaji(full_size(small)).last()));
        } else if small == 'ョ' {
            assert(spec_compound_katakana_to_romaji(main, small)->0 =~= contracted_onset(spec_single_katakana_to_romaji(main)).push(spec_single_katakana_to_romaji(full_size(small)).last()));
        } else if small == 'ァ' {
            assert(spec_compound_katakana_to_romaji(main, small)->0 =~= contracted_onset(spec_single_katakana_to_romaji(main)).push(spec_single_katakana_to_romaji(full_size(small)).last()));
        } else if small == 'ィ' {
            assert(spec_compound_katakana_to_romaji(main, small)->0 =~= contracted_onset(spec_single_katakana_to_romaji(main)).push(spec_single_katakana_to_romaji(full_size(small)).last()));
        } else if small == 'ゥ' {
            assert(spec_compound_katakana_to_romaji(main, small)->0 =~= contracted_onset(spec_single_katakana_to_romaji(main)).push(spec_single_katakana_to_romaji(full_size(small)).last()));
        } else if small == 'ェ' {
            assert(spec_compound_katakana_to_romaji(main, small)->0 =~= contracted_onset(spec_single_katakana_to_romaji(main)).push(spec_single_katakana_to_romaji(full_size(small)).last()));
        } else if small == 'ォ' {
            assert(spec_compound_katakana_to_romaji(main, small)->0 =~= contracted_onset(spec_single_katakana_to_romaji(main)).push(spec_single_katakana_to_romaji(full_size(small)).last()));
        }
    } else if main == 'ビ' {
        assert(main == kana_row(11)[1]);
        if small == 'ャ' {
            assert(spec_compound_katakana_to_romaji(main, small)->0 =~= contracted_onset(spec_single_katakana_to_romaji(main)).push(spec_single_katakana_to_romaji(full_size(small)).last()));
        } else if small == 'ュ' {
            assert(spec_compound_katakana_to_romaji(main, small)->0 =~= contracted_onset(spec_single_katakana_to_romaji(main)).push(spec_single_katakana_to_romaji(full_size(small)).last()));
        } else if small == 'ョ' {
            assert(spec_compound_katakana_to_romaji(main, small)->0 =~= contracted_onset(spec_single_katakana_to_romaji(main)).push(spec_single_katakana_to_romaji(full_size(small)).last()));
        } else if small == 'ァ' {
            assert(spec_compound_katakana_to_romaji(main, small)->0 =~= contracted_onset(spec_single_katakana_to_romaji(main)).push(spec_single_katakana_to_romaji(full_size(small)).last()));
        } else if small == 'ィ' {
            assert(spec_compound_katakana_to_romaji(main, small)->0 =~= contracted_onset(spec_single_katakana_to_romaji(main)).push(spec_single_katakana_to_romaji(full_size(small)).last()));
        } else if small == 'ゥ' {
            assert(spec_compound_katakana_to_romaji(main, small)->0 =~= contracted_onset(spec_single_katakana_to_romaji(main)).push(spec_single_katakana_to_romaji(full_size(small)).last()));
        } else if small == 'ェ' {
            assert(spec_compound_katakana_to_romaji(main, small)->0 =~= contracted_onset(spec_single_katakana_to_romaji(main)).push(spec_single_katakana_to_romaji(full_size(small)).last()));
        } else if small == 'ォ' {
            assert(spec_compound_katakana_to_romaji(main, small)->0 =~= contracted_onset(spec_single_katakana_to_romaji(main)).push(spec_single_katakana_to_romaji(full_size(small)).last()));
        }
    } else if main == 'ピ' {
        assert(main == kana_row(12)[1]);
        if small == 'ャ' {
            assert(spec_compound_katakana_to_romaji(main, small)->0 =~= contracted_onset(spec_single_katakana_to_romaji(main)).push(spec_single_katakana_to_romaji(full_size(small)).last()));
        } else if small == 'ュ' {
            assert(spec_compound_katakana_to_romaji(main, small)->0 =~= contracted_onset(spec_single_katakana_to_romaji(main)).push(spec_single_katakana_to_romaji(full_size(small)).last()));
        } else if small == 'ョ' {
            assert(spec_compound_katakana_to_romaji(main, small)->0 =~= contracted_onset(spec_single_katakana_to_romaji(main)).push(spec_single_katakana_to_romaji(full_size(small)).last()));
        } else if small == 'ァ' {
            assert(spec_compound_katakana_to_romaji(main, small)->0 =~= contracted_onset(spec_single_katakana_to_romaji(main)).push(spec_single_katakana_to_romaji(full_size(small)).last()));
        } else if small == 'ィ' {
            assert(spec_compound_katakana_to_romaji(main, small)->0 =~= contracted_onset(spec_single_katakana_to_romaji(main)).push(spec_single_katakana_to_romaji(full_size(small)).last()));
        } else if small == 'ゥ' {
            assert(spec_compound_katakana_to_romaji(main, small)->0 =~= contracted_onset(spec_single_katakana_to_romaji(main)).push(spec_single_katakana_to_romaji(full_size(small)).last()));
        } else if small == 'ェ' {
            assert(spec_compound_katakana_to_romaji(main, small)->0 =~= contracted_onset(spec_single_katakana_to_romaji(main)).push(spec_single_katakana_to_romaji(full_size(small)).last()));
        } else if small == 'ォ' {
            assert(spec_compound_katakana_to_romaji(main, small)->0 =~= contracted_onset(spec_single_katakana_to_romaji(main)).push(spec_single_katakana_to_romaji(full_size(small)).last()));
        }
    }
}

/// Every i-column kana of a row with a consonant (but for d) forms a
/// contracted syllable with every small kana.
pub proof fn lemma_pairs_of_i_column(r: int, small: char)
    requires
        1 <= r < full_rows(),
        r != 10,
        spec_is_small_kana(small),
    ensures
        spec_compound_katakana_to_romaji(kana_row(r)[1], small) is Some,
{
    if r == 1 {
        assert(kana_row(r)[1] == 'キ');
    } else if r == 2 {
        assert(kana_row(r)[1] == 'シ');
    } else if r == 3 {
        assert(kana_row(r)[1] == 'チ');
    } else if r == 4 {
        assert(kana_row(r)[1] == 'ニ');
    } else if r == 5 {
        assert(kana_row(r)[1] == 'ヒ');
    } else if r == 6 {
        assert(kana_row(r)[1] == 'ミ');
    } else if r == 7 {
        assert(kana_row(r)[1] == 'リ');
    } else if r == 8 {
        assert(kana_row(r)[1] == 'ギ');
    } else if r == 9 {
        assert(kana_row(r)[1] == 'ジ');
    } else if r == 11 {
        assert(kana_row(r)[1] == 'ビ');
    } else if r == 12 {
        assert(kana_row(r)[1] == 'ピ');
    }
}

} // verus!
