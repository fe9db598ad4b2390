//! Completion support: reading forms of Japanese tokens for prefix
//! completion, and the romanization used for them.
use vstd::prelude::*;

use crate::morpheme::{opt_chars, Morpheme, READING_FEATURE};
use crate::kana::{column_vowel, contracted_onset, full_rows, full_size, grid_syllable, kana_row};
use crate::text::{
    chars_of, is_ascii_alphabetic, is_unset, is_unset_feature, spec_is_ascii_alphabetic, str_eq,
    string_from_chars,
};
use crate::token::{same_place, Token};

verus! {

/// Romanization of one kana on its own; a character outside the table
/// stands for itself.
pub open spec fn spec_single_katakana_to_romaji(ch: char) -> Seq<char> {
    match ch {
        'ア' => seq!['a'],
        'イ' => seq!['i'],
        'ウ' => seq!['u'],
        'エ' => seq!['e'],
        'オ' => seq!['o'],
        'カ' => seq!['k', 'a'],
        'キ' => seq!['k', 'i'],
        'ク' => seq!['k', 'u'],
        'ケ' => seq!['k', 'e'],
        'コ' => seq!['k', 'o'],
        'サ' => seq!['s', 'a'],
        'シ' => seq!['s', 'h', 'i'],
        'ス' => seq!['s', 'u'],
        'セ' => seq!['s', 'e'],
        'ソ' => seq!['s', 'o'],
        'タ' => seq!['t', 'a'],
        'チ' => seq!['c', 'h', 'i'],
        'ツ' => seq!['t', 's', 'u'],
        'テ' => seq!['t', 'e'],
        'ト' => seq!['t', 'o'],
        'ナ' => seq!['n', 'a'],
        'ニ' => seq!['n', 'i'],
        'ヌ' => seq!['n', 'u'],
        'ネ' => seq!['n', 'e'],
        'ノ' => seq!['n', 'o'],
        'ハ' => seq!['h', 'a'],
        'ヒ' => seq!['h', 'i'],
        'フ' => seq!['f', 'u'],
        'ヘ' => seq!['h', 'e'],
        'ホ' => seq!['h', 'o'],
        'マ' => seq!['m', 'a'],
        'ミ' => seq!['m', 'i'],
        'ム' => seq!['m', 'u'],
        'メ' => seq!['m', 'e'],
        'モ' => seq!['m', 'o'],
        'ヤ' => seq!['y', 'a'],
        'ユ' => seq!['y', 'u'],
        'ヨ' => seq!['y', 'o'],
        'ラ' => seq!['r', 'a'],
        'リ' => seq!['r', 'i'],
        'ル' => seq!['r', 'u'],
        'レ' => seq!['r', 'e'],
        'ロ' => seq!['r', 'o'],
        'ワ' => seq!['w', 'a'],
        'ヲ' => seq!['w', 'o'],
        'ン' => seq!['n'],
        'ガ' => seq!['g', 'a'],
        'ギ' => seq!['g', 'i'],
        'グ' => seq!['g', 'u'],
        'ゲ' => seq!['g', 'e'],
        'ゴ' => seq!['g', 'o'],
        'ザ' => seq!['z', 'a'],
        'ジ' => seq!['j', 'i'],
        'ズ' => seq!['z', 'u'],
        'ゼ' => seq!['z', 'e'],
        'ゾ' => seq!['z', 'o'],
        'ダ' => seq!['d', 'a'],
        'ヂ' => seq!['d', 'i'],
        'ヅ' => seq!['d', 'u'],
        'デ' => seq!['d', 'e'],
        'ド' => seq!['d', 'o'],
        'バ' => seq!['b', 'a'],
        'ビ' => seq!['b', 'i'],
        'ブ' => seq!['b', 'u'],
        'ベ' => seq!['b', 'e'],
        'ボ' => seq!['b', 'o'],
        'パ' => seq!['p', 'a'],
        'ピ' => seq!['p', 'i'],
        'プ' => seq!['p', 'u'],
        'ペ' => seq!['p', 'e'],
        'ポ' => seq!['p', 'o'],
        'ァ' => seq!['a'],
        'ィ' => seq!['i'],
        'ゥ' => seq!['u'],
        'ェ' => seq!['e'],
        'ォ' => seq!['o'],
        _ => seq![ch],
    }
}

/// Small kana that may combine with the kana before them.
pub open spec fn spec_is_small_kana(ch: char) -> bool {
    ch == 'ャ' || ch == 'ュ' || ch == 'ョ' || ch == 'ゃ' || ch == 'ゅ' || ch == 'ょ'
        || ch == 'ァ' || ch == 'ィ' || ch == 'ゥ' || ch == 'ェ' || ch == 'ォ'
}

/// Romanization of a kana followed by a small ya, yu or yo, where the
/// pair has one.
pub open spec fn spec_two_char_romaji(base: char, small: char) -> Option<Seq<char>> {
    match (base, small) {
        ('キ', 'ャ') => Some(seq!['k', 'y', 'a']),
        ('キ', 'ュ') => Some(seq!['k', 'y', 'u']),
        ('キ', 'ョ') => Some(seq!['k', 'y', 'o']),
        ('シ', 'ャ') => Some(seq!['s', 'h', 'a']),
        ('シ', 'ュ') => Some(seq!['s', 'h', 'u']),
        ('シ', 'ョ') => Some(seq!['s', 'h', 'o']),
        ('チ', 'ャ') => Some(seq!['c', 'h', 'a']),
        ('チ', 'ュ') => Some(seq!['c', 'h', 'u']),
        ('チ', 'ョ') => Some(seq!['c', 'h', 'o']),
        ('ニ', 'ャ') => Some(seq!['n', 'y', 'a']),
        ('ニ', 'ュ') => Some(seq!['n', 'y', 'u']),
        ('ニ', 'ョ') => Some(seq!['n', 'y', 'o']),
        ('ヒ', 'ャ') => Some(seq!['h', 'y', 'a']),
        ('ヒ', 'ュ') => Some(seq!['h', 'y', 'u']),
        ('ヒ', 'ョ') => Some(seq!['h', 'y', 'o']),
        ('ミ', 'ャ') => Some(seq!['m', 'y', 'a']),
        ('ミ', 'ュ') => Some(seq!['m', 'y', 'u']),
        ('ミ', 'ョ') => Some(seq!['m', 'y', 'o']),
        ('リ', 'ャ') => Some(seq!['r', 'y', 'a']),
        ('リ', 'ュ') => Some(seq!['r', 'y', 'u']),
        ('リ', 'ョ') => Some(seq!['r', 'y', 'o']),
        ('ギ', 'ャ') => Some(seq!['g', 'y', 'a']),
        ('ギ', 'ュ') => Some(seq!['g', 'y', 'u']),
        ('ギ', 'ョ') => Some(seq!['g', 'y', 'o']),
        ('ジ', 'ャ') => Some(seq!['j', 'a']),
        ('ジ', 'ュ') => Some(seq!['j', 'u']),
        ('ジ', 'ョ') => Some(seq!['j', 'o']),
        ('ビ', 'ャ') => Some(seq!['b', 'y', 'a']),
        ('ビ', 'ュ') => Some(seq!['b', 'y', 'u']),
        ('ビ', 'ョ') => Some(seq!['b', 'y', 'o']),
        ('ピ', 'ャ') => Some(seq!['p', 'y', 'a']),
        ('ピ', 'ュ') => Some(seq!['p', 'y', 'u']),
        ('ピ', 'ョ') => Some(seq!['p', 'y', 'o']),
        _ => None,
    }
}

pub open spec fn is_romaji_vowel(c: char) -> bool {
    c == 'a' || c == 'i' || c == 'u' || c == 'e' || c == 'o'
}

/// The romanization of `chars[i..]`, appended to `acc`, the romanization
/// of `chars[..i]`.
///
/// - a small tsu doubles the first letter of the next kana's romanization,
///   when that is an ASCII letter;
/// - a long vowel mark repeats the last vowel written, if the output ends
///   in one;
/// - a kana followed by a small kana with which it forms a pair is written
///   as the pair;
/// - any other character is written by the single-kana table.
pub open spec fn romaji_from(chars: Seq<char>, i: int, acc: Seq<char>) -> Seq<char>
    decreases chars.len() - i,
{
    if i < 0 || i >= chars.len() {
        acc
    } else {
        let ch = chars[i];
        if ch == 'ッ' || ch == 'っ' {
            let next = if i + 1 < chars.len() {
                spec_single_katakana_to_romaji(chars[i + 1])
            } else {
                Seq::empty()
            };
            let acc2 = if next.len() > 0 && spec_is_ascii_alphabetic(next[0]) {
                acc.push(next[0])
            } else {
                acc
            };
            romaji_from(chars, i + 1, acc2)
        } else if ch == 'ー' {
            let acc2 = if acc.len() > 0 && is_romaji_vowel(acc.last()) {
                acc.push(acc.last())
            } else {
                acc
            };
            romaji_from(chars, i + 1, acc2)
        } else if i + 1 < chars.len() && spec_is_small_kana(chars[i + 1])
            && spec_two_char_romaji(ch, chars[i + 1]) is Some {
            romaji_from(chars, i + 2, acc + spec_two_char_romaji(ch, chars[i + 1])->0)
        } else {
            romaji_from(chars, i + 1, acc + spec_single_katakana_to_romaji(ch))
        }
    }
}

/// Hepburn romanization of a katakana string.
pub open spec fn spec_katakana_to_romaji(s: Seq<char>) -> Seq<char> {
    romaji_from(s, 0, Seq::empty())
}

pub fn is_small_kana(ch: char) -> (r: bool)
    ensures
        r == spec_is_small_kana(ch),
{
    ch == 'ャ' || ch == 'ュ' || ch == 'ョ' || ch == 'ゃ' || ch == 'ゅ' || ch == 'ょ'
        || ch == 'ァ' || ch == 'ィ' || ch == 'ゥ' || ch == 'ェ' || ch == 'ォ'
}

pub fn two_char_romaji(base: char, small: char) -> (r: Option<Vec<char>>)
    ensures
        match r {
            Some(v) => spec_two_char_romaji(base, small) == Some(v@),
            None => spec_two_char_romaji(base, small) is None,
        },
{
    match (base, small) {
        ('キ', 'ャ') => Some(vec!['k', 'y', 'a']),
        ('キ', 'ュ') => Some(vec!['k', 'y', 'u']),
        ('キ', 'ョ') => Some(vec!['k', 'y', 'o']),
        ('シ', 'ャ') => Some(vec!['s', 'h', 'a']),
        ('シ', 'ュ') => Some(vec!['s', 'h', 'u']),
        ('シ', 'ョ') => Some(vec!['s', 'h', 'o']),
        ('チ', 'ャ') => Some(vec!['c', 'h', 'a']),
        ('チ', 'ュ') => Some(vec!['c', 'h', 'u']),
        ('チ', 'ョ') => Some(vec!['c', 'h', 'o']),
        ('ニ', 'ャ') => Some(vec!['n', 'y', 'a']),
        ('ニ', 'ュ') => Some(vec!['n', 'y', 'u']),
        ('ニ', 'ョ') => Some(vec!['n', 'y', 'o']),
        ('ヒ', 'ャ') => Some(vec!['h', 'y', 'a']),
        ('ヒ', 'ュ') => Some(vec!['h', 'y', 'u']),
        ('ヒ', 'ョ') => Some(vec!['h', 'y', 'o']),
        ('ミ', 'ャ') => Some(vec!['m', 'y', 'a']),
        ('ミ', 'ュ') => Some(vec!['m', 'y', 'u']),
        ('ミ', 'ョ') => Some(vec!['m', 'y', 'o']),
        ('リ', 'ャ') => Some(vec!['r', 'y', 'a']),
        ('リ', 'ュ') => Some(vec!['r', 'y', 'u']),
        ('リ', 'ョ') => Some(vec!['r', 'y', 'o']),
        ('ギ', 'ャ') => Some(vec!['g', 'y', 'a']),
        ('ギ', 'ュ') => Some(vec!['g', 'y', 'u']),
        ('ギ', 'ョ') => Some(vec!['g', 'y', 'o']),
        ('ジ', 'ャ') => Some(vec!['j', 'a']),
        ('ジ', 'ュ') => Some(vec!['j', 'u']),
        ('ジ', 'ョ') => Some(vec!['j', 'o']),
        ('ビ', 'ャ') => Some(vec!['b', 'y', 'a']),
        ('ビ', 'ュ') => Some(vec!['b', 'y', 'u']),
        ('ビ', 'ョ') => Some(vec!['b', 'y', 'o']),
        ('ピ', 'ャ') => Some(vec!['p', 'y', 'a']),
        ('ピ', 'ュ') => Some(vec!['p', 'y', 'u']),
        ('ピ', 'ョ') => Some(vec!['p', 'y', 'o']),
        _ => None,
    }
}

pub fn single_katakana_to_romaji(ch: char) -> (r: Vec<char>)
    ensures
        r@ == spec_single_katakana_to_romaji(ch),
{
    match ch {
        'ア' => vec!['a'],
        'イ' => vec!['i'],
        'ウ' => vec!['u'],
        'エ' => vec!['e'],
        'オ' => vec!['o'],
        'カ' => vec!['k', 'a'],
        'キ' => vec!['k', 'i'],
        'ク' => vec!['k', 'u'],
        'ケ' => vec!['k', 'e'],
        'コ' => vec!['k', 'o'],
        'サ' => vec!['s', 'a'],
        'シ' => vec!['s', 'h', 'i'],
        'ス' => vec!['s', 'u'],
        'セ' => vec!['s', 'e'],
        'ソ' => vec!['s', 'o'],
        'タ' => vec!['t', 'a'],
        'チ' => vec!['c', 'h', 'i'],
        'ツ' => vec!['t', 's', 'u'],
        'テ' => vec!['t', 'e'],
        'ト' => vec!['t', 'o'],
        'ナ' => vec!['n', 'a'],
        'ニ' => vec!['n', 'i'],
        'ヌ' => vec!['n', 'u'],
        'ネ' => vec!['n', 'e'],
        'ノ' => vec!['n', 'o'],
        'ハ' => vec!['h', 'a'],
        'ヒ' => vec!['h', 'i'],
        'フ' => vec!['f', 'u'],
        'ヘ' => vec!['h', 'e'],
        'ホ' => vec!['h', 'o'],
        'マ' => vec!['m', 'a'],
        'ミ' => vec!['m', 'i'],
        'ム' => vec!['m', 'u'],
        'メ' => vec!['m', 'e'],
        'モ' => vec!['m', 'o'],
        'ヤ' => vec!['y', 'a'],
        'ユ' => vec!['y', 'u'],
        'ヨ' => vec!['y', 'o'],
        'ラ' => vec!['r', 'a'],
        'リ' => vec!['r', 'i'],
        'ル' => vec!['r', 'u'],
        'レ' => vec!['r', 'e'],
        'ロ' => vec!['r', 'o'],
        'ワ' => vec!['w', 'a'],
        'ヲ' => vec!['w', 'o'],
        'ン' => vec!['n'],
        'ガ' => vec!['g', 'a'],
        'ギ' => vec!['g', 'i'],
        'グ' => vec!['g', 'u'],
        'ゲ' => vec!['g', 'e'],
        'ゴ' => vec!['g', 'o'],
        'ザ' => vec!['z', 'a'],
        'ジ' => vec!['j', 'i'],
        'ズ' => vec!['z', 'u'],
        'ゼ' => vec!['z', 'e'],
        'ゾ' => vec!['z', 'o'],
        'ダ' => vec!['d', 'a'],
        'ヂ' => vec!['d', 'i'],
        'ヅ' => vec!['d', 'u'],
        'デ' => vec!['d', 'e'],
        'ド' => vec!['d', 'o'],
        'バ' => vec!['b', 'a'],
        'ビ' => vec!['b', 'i'],
        'ブ' => vec!['b', 'u'],
        'ベ' => vec!['b', 'e'],
        'ボ' => vec!['b', 'o'],
        'パ' => vec!['p', 'a'],
        'ピ' => vec!['p', 'i'],
        'プ' => vec!['p', 'u'],
        'ペ' => vec!['p', 'e'],
        'ポ' => vec!['p', 'o'],
        'ァ' => vec!['a'],
        'ィ' => vec!['i'],
        'ゥ' => vec!['u'],
        'ェ' => vec!['e'],
        'ォ' => vec!['o'],
        _ => vec![ch],
    }
}

/// Converts a katakana string to its Hepburn romanization.
pub fn katakana_to_romaji(katakana: &str) -> (r: String)
    ensures
        r@ == spec_katakana_to_romaji(katakana@),
{
    let chars = chars_of(katakana);
    let len = chars.len();
    let mut result: Vec<char> = Vec::new();
    let mut i: usize = 0;
    while i < len
        invariant
            len == chars@.len(),
            chars@ == katakana@,
            i <= len,
            romaji_from(chars@, i as int, result@) == spec_katakana_to_romaji(katakana@),
        decreases len - i,
    {
        let ch = chars[i];
        if ch == 'ッ' || ch == 'っ' {
            if i + 1 < len {
                let next_romaji = single_katakana_to_romaji(chars[i + 1]);
                if next_romaji.len() > 0 && is_ascii_alphabetic(next_romaji[0]) {
                    result.push(next_romaji[0]);
                }
            }
            i = i + 1;
            continue;
        }
        if ch == 'ー' {
            let n = result.len();
            if n > 0 {
                let last = result[n - 1];
                if last == 'a' || last == 'i' || last == 'u' || last == 'e' || last == 'o' {
                    result.push(last);
                }
            }
            i = i + 1;
            continue;
        }
        if i + 1 < len && is_small_kana(chars[i + 1]) {
            if let Some(combo) = two_char_romaji(ch, chars[i + 1]) {
                let mut c = combo;
                result.append(&mut c);
                i = i + 2;
                continue;
            }
        }
        let mut single = single_katakana_to_romaji(ch);
        result.append(&mut single);
        i = i + 1;
    }
    string_from_chars(&result)
}


/// Completion mode.
#[derive(Debug, Clone, Copy, PartialEq, Eq, Structural)]
pub enum CompletionMode {
    /// Index time: readings are emitted beside each token.
    Index,
    /// Query time: tokens pass through unchanged.
    Query,
}

/// What a morpheme contributes to a reading: its reading feature where it
/// is set, else its surface.
pub open spec fn reading_piece(m: Morpheme) -> Seq<char> {
    match m.details {
        Some(d) => if d@.len() > READING_FEATURE && !is_unset_feature(d@[READING_FEATURE as int]@) {
            d@[READING_FEATURE as int]@
        } else {
            m.surface@
        },
        None => m.surface@,
    }
}

/// The readings of the morphemes, one after the other.
pub open spec fn concat_readings(ms: Seq<Morpheme>) -> Seq<char>
    decreases ms.len(),
{
    if ms.len() == 0 {
        Seq::empty()
    } else {
        concat_readings(ms.drop_last()) + reading_piece(ms.last())
    }
}

/// The katakana reading of a term, given its analysis: the readings of its
/// morphemes one after the other, unless the analysis failed or found
/// nothing, or the reading is empty.
pub open spec fn spec_katakana_reading(analysis: Option<Vec<Morpheme>>) -> Option<Seq<char>> {
    match analysis {
        Some(ms) => if ms@.len() == 0 {
            None
        } else {
            let r = concat_readings(ms@);
            if r.len() == 0 {
                None
            } else {
                Some(r)
            }
        },
        None => None,
    }
}

/// The terms that the completion filter emits at index time beside a token
/// with term `term`, given the analysis of the term: the katakana reading
/// where it differs from the term, then its romanization where that is
/// neither empty nor the term itself.
pub open spec fn completion_terms(term: Seq<char>, analysis: Option<Vec<Morpheme>>) -> Seq<
    Seq<char>,
> {
    match spec_katakana_reading(analysis) {
        None => Seq::empty(),
        Some(kana) => {
            let romaji = spec_katakana_to_romaji(kana);
            let with_kana: Seq<Seq<char>> = if kana != term {
                seq![kana]
            } else {
                Seq::empty()
            };
            if romaji.len() > 0 && romaji != term {
                with_kana.push(romaji)
            } else {
                with_kana
            }
        },
    }
}

/// Japanese completion filter: at index time, emits beside each token its
/// katakana reading and the romanization of that reading, at the token's
/// place.
#[derive(Debug, Clone, Copy)]
pub struct JapaneseCompletionFilter {
    pub mode: CompletionMode,
}

impl JapaneseCompletionFilter {
    pub fn new(mode: CompletionMode) -> (f: Self)
        ensures
            f.mode == mode,
    {
        JapaneseCompletionFilter { mode }
    }

    /// The katakana reading of `surface`, given `analysis`, the analysis of
    /// `surface`.
    pub fn get_katakana_reading(&self, surface: &str, analysis: &Option<Vec<Morpheme>>) -> (r:
        Option<String>)
        ensures
            opt_chars(r) == spec_katakana_reading(*analysis),
    {
        let ms = match analysis {
            Some(ms) => ms,
            None => {
                return None;
            },
        };
        if ms.len() == 0 {
            return None;
        }
        let mut reading: Vec<char> = Vec::new();
        let mut i: usize = 0;
        while i < ms.len()
            invariant
                i <= ms@.len(),
                reading@ == concat_readings(ms@.take(i as int)),
            decreases ms@.len() - i,
        {
            let m = &ms[i];
            let piece: Vec<char> = match &m.details {
                Some(d) => {
                    if d.len() > READING_FEATURE && !is_unset(d[READING_FEATURE].as_str()) {
                        chars_of(d[READING_FEATURE].as_str())
                    } else {
                        chars_of(m.surface.as_str())
                    }
                },
                None => chars_of(m.surface.as_str()),
            };
            let mut p = piece;
            reading.append(&mut p);
            assert(ms@.take(i + 1).drop_last() =~= ms@.take(i as int));
            i = i + 1;
        }
        assert(ms@.take(ms@.len() as int) =~= ms@);
        let reading = string_from_chars(&reading);
        if reading.as_str().is_empty() {
            None
        } else {
            Some(reading)
        }
    }

    /// At index time, emits beside the token its katakana reading and the
    /// romanization of that reading, each where it differs from the term
    /// (see `completion_terms`), given `analysis`, the analysis of the term.
    /// Never deletes the token nor changes it.
    pub fn filter(&self, token: &mut Token, analysis: &Option<Vec<Morpheme>>) -> (r: (
        bool,
        Option<Vec<Token>>,
    ))
        ensures
            *final(token) == *old(token),
            r.0 == false,
            self.mode == CompletionMode::Query ==> r.1 is None,
            self.mode == CompletionMode::Index ==> {
                let terms = completion_terms(old(token).term@, *analysis);
                &&& terms.len() == 0 ==> r.1 is None
                &&& terms.len() > 0 ==> (r.1 matches Some(extras) && {
                    &&& extras@.len() == terms.len()
                    &&& forall|i: int|
                        0 <= i < extras@.len() ==> #[trigger] extras@[i].term@ == terms[i]
                            && same_place(extras@[i], *old(token))
                })
            },
    {
        if self.mode == CompletionMode::Query {
            return (false, None);
        }
        let mut extras: Vec<Token> = Vec::new();
        if let Some(katakana) = self.get_katakana_reading(token.term.as_str(), analysis) {
            let romaji = katakana_to_romaji(katakana.as_str());
            if !str_eq(katakana.as_str(), token.term.as_str()) {
                extras.push(
                    Token {
                        term: katakana,
                        start_offset: token.start_offset,
                        end_offset: token.end_offset,
                        position: token.position,
                    },
                );
            }
            if !romaji.as_str().is_empty() && !str_eq(romaji.as_str(), token.term.as_str()) {
                extras.push(
                    Token {
                        term: romaji,
                        start_offset: token.start_offset,
                        end_offset: token.end_offset,
                        position: token.position,
                    },
                );
            }
        }
        if extras.len() == 0 {
            (false, None)
        } else {
            (false, Some(extras))
        }
    }
}

/// A character that romanization writes as itself: outside the kana table,
/// and neither a small tsu nor a long vowel mark.
pub open spec fn romanizes_to_itself(c: char) -> bool {
    &&& spec_single_katakana_to_romaji(c) == seq![c]
    &&& c != 'ッ'
    &&& c != 'っ'
    &&& c != 'ー'
}

/// Text with no kana, such as ASCII text, romanizes to itself.
pub proof fn lemma_romaji_leaves_other_text(s: Seq<char>)
    requires
        forall|i: int| 0 <= i < s.len() ==> romanizes_to_itself(#[trigger] s[i]),
    ensures
        spec_katakana_to_romaji(s) == s,
{
    assert(s.take(0) =~= Seq::<char>::empty());
    lemma_romaji_from_other_text(s, 0);
    assert(s.take(s.len() as int) =~= s);
}

proof fn lemma_romaji_from_other_text(s: Seq<char>, i: int)
    requires
        0 <= i <= s.len(),
        forall|k: int| 0 <= k < s.len() ==> romanizes_to_itself(#[trigger] s[k]),
    ensures
        romaji_from(s, i, s.take(i)) == s.take(s.len() as int),
    decreases s.len() - i,
{
    if i < s.len() {
        let ch = s[i];
        assert(romanizes_to_itself(ch));
        if i + 1 < s.len() {
            assert(spec_two_char_romaji(ch, s[i + 1]) is None);
        }
        assert(s.take(i) + spec_single_katakana_to_romaji(ch) =~= s.take(i + 1));
        lemma_romaji_from_other_text(s, i + 1);
    }
}

/// A character that continues the romanization of what comes before it: a
/// long vowel mark, a small tsu, or a small kana.
pub open spec fn joins_previous(c: char) -> bool {
    c == 'ー' || c == 'ッ' || c == 'っ' || spec_is_small_kana(c)
}

proof fn lemma_single_romaji_not_empty(ch: char)
    ensures
        spec_single_katakana_to_romaji(ch).len() > 0,
{
}

proof fn lemma_pair_romaji_not_empty(base: char, small: char)
    ensures
        spec_two_char_romaji(base, small) matches Some(r) ==> r.len() > 0,
{
}

/// Romanizing `s1 + s2` up to the end of `s1` gives the romanization of
/// `s1`, when nothing at the end of `s1` looks into `s2`.
proof fn lemma_romaji_first_part(s1: Seq<char>, s2: Seq<char>, i: int, acc: Seq<char>)
    requires
        0 <= i <= s1.len(),
        s1.len() > 0 ==> s1.last() != 'ッ' && s1.last() != 'っ',
        s2.len() > 0 ==> !spec_is_small_kana(s2[0]),
    ensures
        romaji_from(s1 + s2, i, acc) == romaji_from(s1 + s2, s1.len() as int, romaji_from(s1, i, acc)),
    decreases s1.len() - i,
{
    let s = s1 + s2;
    let n = s1.len() as int;
    if i < n {
        let ch = s1[i];
        assert(s[i] == ch);
        if i + 1 < n {
            assert(s[i + 1] == s1[i + 1]);
        }
        if ch == 'ッ' || ch == 'っ' {
            lemma_romaji_first_part(s1, s2, i + 1, if i + 1 < n && spec_single_katakana_to_romaji(s1[i + 1]).len() > 0 && spec_is_ascii_alphabetic(spec_single_katakana_to_romaji(s1[i + 1])[0]) {
                acc.push(spec_single_katakana_to_romaji(s1[i + 1])[0])
            } else {
                acc
            });
        } else if ch == 'ー' {
            lemma_romaji_first_part(s1, s2, i + 1, if acc.len() > 0 && is_romaji_vowel(acc.last()) {
                acc.push(acc.last())
            } else {
                acc
            });
        } else if i + 1 < n && spec_is_small_kana(s1[i + 1]) && spec_two_char_romaji(ch, s1[i + 1]) is Some {
            lemma_romaji_first_part(s1, s2, i + 2, acc + spec_two_char_romaji(ch, s1[i + 1])->0);
        } else {
            if i + 1 == n && s2.len() > 0 {
                assert(s[i + 1] == s2[0]);
            }
            lemma_romaji_first_part(s1, s2, i + 1, acc + spec_single_katakana_to_romaji(ch));
        }
    }
}

/// From the end of `s1` on, romanizing `s1 + s2` after `a + b` appends to
/// `a` what romanizing `s2` appends to `b`, once `b` holds something or
/// when `s2` does not start by continuing what came before.
proof fn lemma_romaji_second_part(s1: Seq<char>, s2: Seq<char>, k: int, a: Seq<char>, b: Seq<char>)
    requires
        0 <= k <= s2.len(),
        b.len() > 0 || (k == 0 && (s2.len() > 0 ==> !(s2[0] == 'ー' || s2[0] == 'ッ' || s2[0] == 'っ'))),
    ensures
        romaji_from(s1 + s2, s1.len() + k, a + b) == a + romaji_from(s2, k, b),
    decreases s2.len() - k,
{
    let s = s1 + s2;
    let n = s1.len() as int;
    if k < s2.len() {
        let ch = s2[k];
        assert(s[n + k] == ch);
        if k + 1 < s2.len() {
            assert(s[n + k + 1] == s2[k + 1]);
        }
        if ch == 'ッ' || ch == 'っ' {
            let next = if k + 1 < s2.len() {
                spec_single_katakana_to_romaji(s2[k + 1])
            } else {
                Seq::empty()
            };
            let b2 = if next.len() > 0 && spec_is_ascii_alphabetic(next[0]) {
                b.push(next[0])
            } else {
                b
            };
            assert((a + b).push(next[0]) =~= a + b.push(next[0]));
            lemma_romaji_second_part(s1, s2, k + 1, a, b2);
        } else if ch == 'ー' {
            let b2 = if is_romaji_vowel(b.last()) {
                b.push(b.last())
            } else {
                b
            };
            assert((a + b).last() == b.last());
            assert((a + b).push(b.last()) =~= a + b.push(b.last()));
            lemma_romaji_second_part(s1, s2, k + 1, a, b2);
        } else if k + 1 < s2.len() && spec_is_small_kana(s2[k + 1]) && spec_two_char_romaji(ch, s2[k + 1]) is Some {
            let r = spec_two_char_romaji(ch, s2[k + 1])->0;
            lemma_pair_romaji_not_empty(ch, s2[k + 1]);
            assert((a + b) + r =~= a + (b + r));
            lemma_romaji_second_part(s1, s2, k + 2, a, b + r);
        } else {
            let r = spec_single_katakana_to_romaji(ch);
            lemma_single_romaji_not_empty(ch);
            assert((a + b) + r =~= a + (b + r));
            lemma_romaji_second_part(s1, s2, k + 1, a, b + r);
        }
    } else {
        assert(s.len() == n + k);
    }
}

/// Romanization works piece by piece: romanizing two strings joined gives
/// the two romanizations joined, unless the first ends with a small tsu or
/// the second starts with a long vowel mark, a small tsu or a small kana,
/// which continue what comes before them.
pub proof fn lemma_romaji_of_join(s1: Seq<char>, s2: Seq<char>)
    requires
        s1.len() > 0 ==> s1.last() != 'ッ' && s1.last() != 'っ',
        s2.len() > 0 ==> !joins_previous(s2[0]),
    ensures
        spec_katakana_to_romaji(s1 + s2) == spec_katakana_to_romaji(s1) + spec_katakana_to_romaji(s2),
{
    let a = spec_katakana_to_romaji(s1);
    lemma_romaji_first_part(s1, s2, 0, Seq::empty());
    assert(a + Seq::<char>::empty() =~= a);
    lemma_romaji_second_part(s1, s2, 0, a, Seq::empty());
    assert(s1.len() + 0 == s1.len());
}

/// Every kana of the full rows of the grid is written as the onset of its
/// row (its consonant, or sh, ch, ts, f, j where Hepburn writes those)
/// followed by the vowel of its column: ネ, in the n row and the e column,
/// is written ne.
pub proof fn lemma_grid_kana_romanize_by_row_and_column(r: int, j: int)
    requires
        0 <= r < full_rows(),
        0 <= j < 5,
    ensures
        spec_single_katakana_to_romaji(kana_row(r)[j]) == grid_syllable(r, j),
{
    if r == 0 {
        if j == 0 {
            assert(kana_row(r)[j] == 'ア');
            assert(spec_single_katakana_to_romaji('ア') =~= grid_syllable(r, j));
        } else if j == 1 {
            assert(kana_row(r)[j] == 'イ');
            assert(spec_single_katakana_to_romaji('イ') =~= grid_syllable(r, j));
        } else if j == 2 {
            assert(kana_row(r)[j] == 'ウ');
            assert(spec_single_katakana_to_romaji('ウ') =~= grid_syllable(r, j));
        } else if j == 3 {
            assert(kana_row(r)[j] == 'エ');
            assert(spec_single_katakana_to_romaji('エ') =~= grid_syllable(r, j));
        } else if j == 4 {
            assert(kana_row(r)[j] == 'オ');
            assert(spec_single_katakana_to_romaji('オ') =~= grid_syllable(r, j));
        }
    } else if r == 1 {
        if j == 0 {
            assert(kana_row(r)[j] == 'カ');
            assert(spec_single_katakana_to_romaji('カ') =~= grid_syllable(r, j));
        } else if j == 1 {
            assert(kana_row(r)[j] == 'キ');
            assert(spec_single_katakana_to_romaji('キ') =~= grid_syllable(r, j));
        } else if j == 2 {
            assert(kana_row(r)[j] == 'ク');
            assert(spec_single_katakana_to_romaji('ク') =~= grid_syllable(r, j));
        } else if j == 3 {
            assert(kana_row(r)[j] == 'ケ');
            assert(spec_single_katakana_to_romaji('ケ') =~= grid_syllable(r, j));
        } else if j == 4 {
            assert(kana_row(r)[j] == 'コ');
            assert(spec_single_katakana_to_romaji('コ') =~= grid_syllable(r, j));
        }
    } else if r == 2 {
        if j == 0 {
            assert(kana_row(r)[j] == 'サ');
            assert(spec_single_katakana_to_romaji('サ') =~= grid_syllable(r, j));
        } else if j == 1 {
            assert(kana_row(r)[j] == 'シ');
            assert(spec_single_katakana_to_romaji('シ') =~= grid_syllable(r, j));
        } else if j == 2 {
            assert(kana_row(r)[j] == 'ス');
            assert(spec_single_katakana_to_romaji('ス') =~= grid_syllable(r, j));
        } else if j == 3 {
            assert(kana_row(r)[j] == 'セ');
            assert(spec_single_katakana_to_romaji('セ') =~= grid_syllable(r, j));
        } else if j == 4 {
            assert(kana_row(r)[j] == 'ソ');
            assert(spec_single_katakana_to_romaji('ソ') =~= grid_syllable(r, j));
        }
    } else if r == 3 {
        if j == 0 {
            assert(kana_row(r)[j] == 'タ');
            assert(spec_single_katakana_to_romaji('タ') =~= grid_syllable(r, j));
        } else if j == 1 {
            assert(kana_row(r)[j] == 'チ');
            assert(spec_single_katakana_to_romaji('チ') =~= grid_syllable(r, j));
        } else if j == 2 {
            assert(kana_row(r)[j] == 'ツ');
            assert(spec_single_katakana_to_romaji('ツ') =~= grid_syllable(r, j));
        } else if j == 3 {
            assert(kana_row(r)[j] == 'テ');
            assert(spec_single_katakana_to_romaji('テ') =~= grid_syllable(r, j));
        } else if j == 4 {
            assert(kana_row(r)[j] == 'ト');
            assert(spec_single_katakana_to_romaji('ト') =~= grid_syllable(r, j));
        }
    } else if r == 4 {
        if j == 0 {
            assert(kana_row(r)[j] == 'ナ');
            assert(spec_single_katakana_to_romaji('ナ') =~= grid_syllable(r, j));
        } else if j == 1 {
            assert(kana_row(r)[j] == 'ニ');
            assert(spec_single_katakana_to_romaji('ニ') =~= grid_syllable(r, j));
        } else if j == 2 {
            assert(kana_row(r)[j] == 'ヌ');
            assert(spec_single_katakana_to_romaji('ヌ') =~= grid_syllable(r, j));
        } else if j == 3 {
            assert(kana_row(r)[j] == 'ネ');
            assert(spec_single_katakana_to_romaji('ネ') =~= grid_syllable(r, j));
        } else if j == 4 {
            assert(kana_row(r)[j] == 'ノ');
            assert(spec_single_katakana_to_romaji('ノ') =~= grid_syllable(r, j));
        }
    } else if r == 5 {
        if j == 0 {
            assert(kana_row(r)[j] == 'ハ');
            assert(spec_single_katakana_to_romaji('ハ') =~= grid_syllable(r, j));
        } else if j == 1 {
            assert(kana_row(r)[j] == 'ヒ');
            assert(spec_single_katakana_to_romaji('ヒ') =~= grid_syllable(r, j));
        } else if j == 2 {
            assert(kana_row(r)[j] == 'フ');
            assert(spec_single_katakana_to_romaji('フ') =~= grid_syllable(r, j));
        } else if j == 3 {
            assert(kana_row(r)[j] == 'ヘ');
            assert(spec_single_katakana_to_romaji('ヘ') =~= grid_syllable(r, j));
        } else if j == 4 {
            assert(kana_row(r)[j] == 'ホ');
            assert(spec_single_katakana_to_romaji('ホ') =~= grid_syllable(r, j));
        }
    } else if r == 6 {
        if j == 0 {
            assert(kana_row(r)[j] == 'マ');
            assert(spec_single_katakana_to_romaji('マ') =~= grid_syllable(r, j));
        } else if j == 1 {
            assert(kana_row(r)[j] == 'ミ');
            assert(spec_single_katakana_to_romaji('ミ') =~= grid_syllable(r, j));
        } else if j == 2 {
            assert(kana_row(r)[j] == 'ム');
            assert(spec_single_katakana_to_romaji('ム') =~= grid_syllable(r, j));
        } else if j == 3 {
            assert(kana_row(r)[j] == 'メ');
            assert(spec_single_katakana_to_romaji('メ') =~= grid_syllable(r, j));
        } else if j == 4 {
            assert(kana_row(r)[j] == 'モ');
            assert(spec_single_katakana_to_romaji('モ') =~= grid_syllable(r, j));
        }
    } else if r == 7 {
        if j == 0 {
            assert(kana_row(r)[j] == 'ラ');
            assert(spec_single_katakana_to_romaji('ラ') =~= grid_syllable(r, j));
        } else if j == 1 {
            assert(kana_row(r)[j] == 'リ');
            assert(spec_single_katakana_to_romaji('リ') =~= grid_syllable(r, j));
        } else if j == 2 {
            assert(kana_row(r)[j] == 'ル');
            assert(spec_single_katakana_to_romaji('ル') =~= grid_syllable(r, j));
        } else if j == 3 {
            assert(kana_row(r)[j] == 'レ');
            assert(spec_single_katakana_to_romaji('レ') =~= grid_syllable(r, j));
        } else if j == 4 {
            assert(kana_row(r)[j] == 'ロ');
            assert(spec_single_katakana_to_romaji('ロ') =~= grid_syllable(r, j));
        }
    } else if r == 8 {
        if j == 0 {
            assert(kana_row(r)[j] == 'ガ');
            assert(spec_single_katakana_to_romaji('ガ') =~= grid_syllable(r, j));
        } else if j == 1 {
            assert(kana_row(r)[j] == 'ギ');
            assert(spec_single_katakana_to_romaji('ギ') =~= grid_syllable(r, j));
        } else if j == 2 {
            assert(kana_row(r)[j] == 'グ');
            assert(spec_single_katakana_to_romaji('グ') =~= grid_syllable(r, j));
        } else if j == 3 {
            assert(kana_row(r)[j] == 'ゲ');
            assert(spec_single_katakana_to_romaji('ゲ') =~= grid_syllable(r, j));
        } else if j == 4 {
            assert(kana_row(r)[j] == 'ゴ');
            assert(spec_single_katakana_to_romaji('ゴ') =~= grid_syllable(r, j));
        }
    } else if r == 9 {
        if j == 0 {
            assert(kana_row(r)[j] == 'ザ');
            assert(spec_single_katakana_to_romaji('ザ') =~= grid_syllable(r, j));
        } else if j == 1 {
            assert(kana_row(r)[j] == 'ジ');
            assert(spec_single_katakana_to_romaji('ジ') =~= grid_syllable(r, j));
        } else if j == 2 {
            assert(kana_row(r)[j] == 'ズ');
            assert(spec_single_katakana_to_romaji('ズ') =~= grid_syllable(r, j));
        } else if j == 3 {
            assert(kana_row(r)[j] == 'ゼ');
            assert(spec_single_katakana_to_romaji('ゼ') =~= grid_syllable(r, j));
        } else if j == 4 {
            assert(kana_row(r)[j] == 'ゾ');
            assert(spec_single_katakana_to_romaji('ゾ') =~= grid_syllable(r, j));
        }
    } else if r == 10 {
        if j == 0 {
            assert(kana_row(r)[j] == 'ダ');
            assert(spec_single_katakana_to_romaji('ダ') =~= grid_syllable(r, j));
        } else if j == 1 {
            assert(kana_row(r)[j] == 'ヂ');
            assert(spec_single_katakana_to_romaji('ヂ') =~= grid_syllable(r, j));
        } else if j == 2 {
            assert(kana_row(r)[j] == 'ヅ');
            assert(spec_single_katakana_to_romaji('ヅ') =~= grid_syllable(r, j));
        } else if j == 3 {
            assert(kana_row(r)[j] == 'デ');
            assert(spec_single_katakana_to_romaji('デ') =~= grid_syllable(r, j));
        } else if j == 4 {
            assert(kana_row(r)[j] == 'ド');
            assert(spec_single_katakana_to_romaji('ド') =~= grid_syllable(r, j));
        }
    } else if r == 11 {
        if j == 0 {
            assert(kana_row(r)[j] == 'バ');
            assert(spec_single_katakana_to_romaji('バ') =~= grid_syllable(r, j));
        } else if j == 1 {
            assert(kana_row(r)[j] == 'ビ');
            assert(spec_single_katakana_to_romaji('ビ') =~= grid_syllable(r, j));
        } else if j == 2 {
            assert(kana_row(r)[j] == 'ブ');
            assert(spec_single_katakana_to_romaji('ブ') =~= grid_syllable(r, j));
        } else if j == 3 {
            assert(kana_row(r)[j] == 'ベ');
            assert(spec_single_katakana_to_romaji('ベ') =~= grid_syllable(r, j));
        } else if j == 4 {
            assert(kana_row(r)[j] == 'ボ');
            assert(spec_single_katakana_to_romaji('ボ') =~= grid_syllable(r, j));
        }
    } else if r == 12 {
        if j == 0 {
            assert(kana_row(r)[j] == 'パ');
            assert(spec_single_katakana_to_romaji('パ') =~= grid_syllable(r, j));
        } else if j == 1 {
            assert(kana_row(r)[j] == 'ピ');
            assert(spec_single_katakana_to_romaji('ピ') =~= grid_syllable(r, j));
        } else if j == 2 {
            assert(kana_row(r)[j] == 'プ');
            assert(spec_single_katakana_to_romaji('プ') =~= grid_syllable(r, j));
        } else if j == 3 {
            assert(kana_row(r)[j] == 'ペ');
            assert(spec_single_katakana_to_romaji('ペ') =~= grid_syllable(r, j));
        } else if j == 4 {
            assert(kana_row(r)[j] == 'ポ');
            assert(spec_single_katakana_to_romaji('ポ') =~= grid_syllable(r, j));
        }
    }
}

/// The kana outside the full rows: ya, yu, yo and wa, wo in their
/// columns, and n; small vowels are written as their full-size forms.
pub proof fn lemma_other_kana_romanize()
    ensures
        spec_single_katakana_to_romaji('ヤ') == seq!['y'].push(column_vowel(0)),
        spec_single_katakana_to_romaji('ユ') == seq!['y'].push(column_vowel(2)),
        spec_single_katakana_to_romaji('ヨ') == seq!['y'].push(column_vowel(4)),
        spec_single_katakana_to_romaji('ワ') == seq!['w'].push(column_vowel(0)),
        spec_single_katakana_to_romaji('ヲ') == seq!['w'].push(column_vowel(4)),
        spec_single_katakana_to_romaji('ン') == seq!['n'],
            spec_single_katakana_to_romaji('ァ') == spec_single_katakana_to_romaji('ア'),
            spec_single_katakana_to_romaji('ィ') == spec_single_katakana_to_romaji('イ'),
            spec_single_katakana_to_romaji('ゥ') == spec_single_katakana_to_romaji('ウ'),
            spec_single_katakana_to_romaji('ェ') == spec_single_katakana_to_romaji('エ'),
            spec_single_katakana_to_romaji('ォ') == spec_single_katakana_to_romaji('オ'),
{
}

/// A kana followed by a small kana is written as a contracted syllable:
/// the kana is one of the i column (of a row with a consonant, but for d),
/// written without its vowel and with a y unless it is sh, ch or j, and
/// then comes the vowel of the small kana's full-size form: キュ is kyu,
/// ジャ is ja.
pub proof fn lemma_pair_is_contracted_syllable(main: char, small: char)
    requires
        spec_two_char_romaji(main, small) is Some,
    ensures
        spec_two_char_romaji(main, small)->0 == contracted_onset(
            spec_single_katakana_to_romaji(main),
        ).push(spec_single_katakana_to_romaji(full_size(small)).last()),
        (small == 'ャ' || small == 'ュ' || small == 'ョ'),
        exists|r: int| 1 <= r < full_rows() && r != 10 && main == #[trigger] kana_row(r)[1],
{
    if main == 'キ' {
        assert(main == kana_row(1)[1]);
        if small == 'ャ' {
            assert(spec_two_char_romaji(main, small)->0 =~= contracted_onset(spec_single_katakana_to_romaji(main)).push(spec_single_katakana_to_romaji(full_size(small)).last()));
        } else if small == 'ュ' {
            assert(spec_two_char_romaji(main, small)->0 =~= contracted_onset(spec_single_katakana_to_romaji(main)).push(spec_single_katakana_to_romaji(full_size(small)).last()));
        } else if small == 'ョ' {
            assert(spec_two_char_romaji(main, small)->0 =~= contracted_onset(spec_single_katakana_to_romaji(main)).push(spec_single_katakana_to_romaji(full_size(small)).last()));
        }
    } else if main == 'シ' {
        assert(main == kana_row(2)[1]);
        if small == 'ャ' {
            assert(spec_two_char_romaji(main, small)->0 =~= contracted_onset(spec_single_katakana_to_romaji(main)).push(spec_single_katakana_to_romaji(full_size(small)).last()));
        } else if small == 'ュ' {
            assert(spec_two_char_romaji(main, small)->0 =~= contracted_onset(spec_single_katakana_to_romaji(main)).push(spec_single_katakana_to_romaji(full_size(small)).last()));
        } else if small == 'ョ' {
            assert(spec_two_char_romaji(main, small)->0 =~= contracted_onset(spec_single_katakana_to_romaji(main)).push(spec_single_katakana_to_romaji(full_size(small)).last()));
        }
    } else if main == 'チ' {
        assert(main == kana_row(3)[1]);
        if small == 'ャ' {
            assert(spec_two_char_romaji(main, small)->0 =~= contracted_onset(spec_single_katakana_to_romaji(main)).push(spec_single_katakana_to_romaji(full_size(small)).last()));
        } else if small == 'ュ' {
            assert(spec_two_char_romaji(main, small)->0 =~= contracted_onset(spec_single_katakana_to_romaji(main)).push(spec_single_katakana_to_romaji(full_size(small)).last()));
        } else if small == 'ョ' {
            assert(spec_two_char_romaji(main, small)->0 =~= contracted_onset(spec_single_katakana_to_romaji(main)).push(spec_single_katakana_to_romaji(full_size(small)).last()));
        }
    } else if main == 'ニ' {
        assert(main == kana_row(4)[1]);
        if small == 'ャ' {
            assert(spec_two_char_romaji(main, small)->0 =~= contracted_onset(spec_single_katakana_to_romaji(main)).push(spec_single_katakana_to_romaji(full_size(small)).last()));
        } else if small == 'ュ' {
            assert(spec_two_char_romaji(main, small)->0 =~= contracted_onset(spec_single_katakana_to_romaji(main)).push(spec_single_katakana_to_romaji(full_size(small)).last()));
        } else if small == 'ョ' {
            assert(spec_two_char_romaji(main, small)->0 =~= contracted_onset(spec_single_katakana_to_romaji(main)).push(spec_single_katakana_to_romaji(full_size(small)).last()));
        }
    } else if main == 'ヒ' {
        assert(main == kana_row(5)[1]);
        if small == 'ャ' {
            assert(spec_two_char_romaji(main, small)->0 =~= contracted_onset(spec_single_katakana_to_romaji(main)).push(spec_single_katakana_to_romaji(full_size(small)).last()));
        } else if small == 'ュ' {
            assert(spec_two_char_romaji(main, small)->0 =~= contracted_onset(spec_single_katakana_to_romaji(main)).push(spec_single_katakana_to_romaji(full_size(small)).last()));
        } else if small == 'ョ' {
            assert(spec_two_char_romaji(main, small)->0 =~= contracted_onset(spec_single_katakana_to_romaji(main)).push(spec_single_katakana_to_romaji(full_size(small)).last()));
        }
    } else if main == 'ミ' {
        assert(main == kana_row(6)[1]);
        if small == 'ャ' {
            assert(spec_two_char_romaji(main, small)->0 =~= contracted_onset(spec_single_katakana_to_romaji(main)).push(spec_single_katakana_to_romaji(full_size(small)).last()));
        } else if small == 'ュ' {
            assert(spec_two_char_romaji(main, small)->0 =~= contracted_onset(spec_single_katakana_to_romaji(main)).push(spec_single_katakana_to_romaji(full_size(small)).last()));
        } else if small == 'ョ' {
            assert(spec_two_char_romaji(main, small)->0 =~= contracted_onset(spec_single_katakana_to_romaji(main)).push(spec_single_katakana_to_romaji(full_size(small)).last()));
        }
    } else if main == 'リ' {
        assert(main == kana_row(7)[1]);
        if small == 'ャ' {
            assert(spec_two_char_romaji(main, small)->0 =~= contracted_onset(spec_single_katakana_to_romaji(main)).push(spec_single_katakana_to_romaji(full_size(small)).last()));
        } else if small == 'ュ' {
            assert(spec_two_char_romaji(main, small)->0 =~= contracted_onset(spec_single_katakana_to_romaji(main)).push(spec_single_katakana_to_romaji(full_size(small)).last()));
        } else if small == 'ョ' {
            assert(spec_two_char_romaji(main, small)->0 =~= contracted_onset(spec_single_katakana_to_romaji(main)).push(spec_single_katakana_to_romaji(full_size(small)).last()));
        }
    } else if main == 'ギ' {
        assert(main == kana_row(8)[1]);
        if small == 'ャ' {
            assert(spec_two_char_romaji(main, small)->0 =~= contracted_onset(spec_single_katakana_to_romaji(main)).push(spec_single_katakana_to_romaji(full_size(small)).last()));
        } else if small == 'ュ' {
            assert(spec_two_char_romaji(main, small)->0 =~= contracted_onset(spec_single_katakana_to_romaji(main)).push(spec_single_katakana_to_romaji(full_size(small)).last()));
        } else if small == 'ョ' {
            assert(spec_two_char_romaji(main, small)->0 =~= contracted_onset(spec_single_katakana_to_romaji(main)).push(spec_single_katakana_to_romaji(full_size(small)).last()));
        }
    } else if main == 'ジ' {
        assert(main == kana_row(9)[1]);
        if small == 'ャ' {
            assert(spec_two_char_romaji(main, small)->0 =~= contracted_onset(spec_single_katakana_to_romaji(main)).push(spec_single_katakana_to_romaji(full_size(small)).last()));
        } else if small == 'ュ' {
            assert(spec_two_char_romaji(main, small)->0 =~= contracted_onset(spec_single_katakana_to_romaji(main)).push(spec_single_katakana_to_romaji(full_size(small)).last()));
        } else if small == 'ョ' {
            assert(spec_two_char_romaji(main, small)->0 =~= contracted_onset(spec_single_katakana_to_romaji(main)).push(spec_single_katakana_to_romaji(full_size(small)).last()));
        }
    } else if main == 'ビ' {
        assert(main == kana_row(11)[1]);
        if small == 'ャ' {
            assert(spec_two_char_romaji(main, small)->0 =~= contracted_onset(spec_single_katakana_to_romaji(main)).push(spec_single_katakana_to_romaji(full_size(small)).last()));
        } else if small == 'ュ' {
            assert(spec_two_char_romaji(main, small)->0 =~= contracted_onset(spec_single_katakana_to_romaji(main)).push(spec_single_katakana_to_romaji(full_size(small)).last()));
        } else if small == 'ョ' {
            assert(spec_two_char_romaji(main, small)->0 =~= contracted_onset(spec_single_katakana_to_romaji(main)).push(spec_single_katakana_to_romaji(full_size(small)).last()));
        }
    } else if main == 'ピ' {
        assert(main == kana_row(12)[1]);
        if small == 'ャ' {
            assert(spec_two_char_romaji(main, small)->0 =~= contracted_onset(spec_single_katakana_to_romaji(main)).push(spec_single_katakana_to_romaji(full_size(small)).last()));
        } else if small == 'ュ' {
            assert(spec_two_char_romaji(main, small)->0 =~= contracted_onset(spec_single_katakana_to_romaji(main)).push(spec_single_katakana_to_romaji(full_size(small)).last()));
        } else if small == 'ョ' {
            assert(spec_two_char_romaji(main, small)->0 =~= contracted_onset(spec_single_katakana_to_romaji(main)).push(spec_single_katakana_to_romaji(full_size(small)).last()));
        }
    }
}

/// Every i-column kana of a row with a consonant (but for d) forms a
/// contracted syllable with every small kana ya, yu, yo.
pub proof fn lemma_pairs_of_i_column(r: int, small: char)
    requires
        1 <= r < full_rows(),
        r != 10,
        (small == 'ャ' || small == 'ュ' || small == 'ョ'),
    ensures
        spec_two_char_romaji(kana_row(r)[1], small) is Some,
{
    if r == 1 {
        assert(kana_row(r)[1] == 'キ');
    } else if r == 2 {
        assert(kana_row(r)[1] == 'シ');
    } else if r == 3 {
        assert(kana_row(r)[1] == 'チ');
    } else if r == 4 {
        assert(kana_row(r)[1] == 'ニ');
    } else if r == 5 {
        assert(kana_row(r)[1] == 'ヒ');
    } else if r == 6 {
        assert(kana_row(r)[1] == 'ミ');
    } else if r == 7 {
        assert(kana_row(r)[1] == 'リ');
    } else if r == 8 {
        assert(kana_row(r)[1] == 'ギ');
    } else if r == 9 {
        assert(kana_row(r)[1] == 'ジ');
    } else if r == 11 {
        assert(kana_row(r)[1] == 'ビ');
    } else if r == 12 {
        assert(kana_row(r)[1] == 'ピ');
    }
}

} // verus!
