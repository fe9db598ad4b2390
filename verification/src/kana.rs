//! The kana grid that romanization follows: rows that share a consonant,
//! columns that share a vowel.
use vstd::prelude::*;

verus! {

/// The vowel of a column of the grid: a, i, u, e, o.
pub open spec fn column_vowel(j: int) -> char {
    if j == 0 {
        'a'
    } else if j == 1 {
        'i'
    } else if j == 2 {
        'u'
    } else if j == 3 {
        'e'
    } else {
        'o'
    }
}

/// The number of full rows of the grid: the vowels, then the rows of k, s,
/// t, n, h, m, r, g, z, d, b and p.
pub open spec fn full_rows() -> int {
    13
}

/// The five katakana of a full row, in column order.
pub open spec fn kana_row(r: int) -> Seq<char> {
    if r == 0 {
        seq!['ア', 'イ', 'ウ', 'エ', 'オ']
    } else if r == 1 {
        seq!['カ', 'キ', 'ク', 'ケ', 'コ']
    } else if r == 2 {
        seq!['サ', 'シ', 'ス', 'セ', 'ソ']
    } else if r == 3 {
        seq!['タ', 'チ', 'ツ', 'テ', 'ト']
    } else if r == 4 {
        seq!['ナ', 'ニ', 'ヌ', 'ネ', 'ノ']
    } else if r == 5 {
        seq!['ハ', 'ヒ', 'フ', 'ヘ', 'ホ']
    } else if r == 6 {
        seq!['マ', 'ミ', 'ム', 'メ', 'モ']
    } else if r == 7 {
        seq!['ラ', 'リ', 'ル', 'レ', 'ロ']
    } else if r == 8 {
        seq!['ガ', 'ギ', 'グ', 'ゲ', 'ゴ']
    } else if r == 9 {
        seq!['ザ', 'ジ', 'ズ', 'ゼ', 'ゾ']
    } else if r == 10 {
        seq!['ダ', 'ヂ', 'ヅ', 'デ', 'ド']
    } else if r == 11 {
        seq!['バ', 'ビ', 'ブ', 'ベ', 'ボ']
    } else {
        seq!['パ', 'ピ', 'プ', 'ペ', 'ポ']
    }
}

/// The consonant of a full row; none for the row of vowels.
pub open spec fn row_consonant(r: int) -> Option<char> {
    if r == 0 {
        None
    } else if r == 1 {
        Some('k')
    } else if r == 2 {
        Some('s')
    } else if r == 3 {
        Some('t')
    } else if r == 4 {
        Some('n')
    } else if r == 5 {
        Some('h')
    } else if r == 6 {
        Some('m')
    } else if r == 7 {
        Some('r')
    } else if r == 8 {
        Some('g')
    } else if r == 9 {
        Some('z')
    } else if r == 10 {
        Some('d')
    } else if r == 11 {
        Some('b')
    } else {
        Some('p')
    }
}

/// What is written before the vowel in column `j` of a row with consonant
/// `c`: the consonant, except for shi, chi, tsu, fu and ji.
pub open spec fn hepburn_onset(c: Option<char>, j: int) -> Seq<char> {
    if c == Some('s') && j == 1 {
        seq!['s', 'h']
    } else if c == Some('t') && j == 1 {
        seq!['c', 'h']
    } else if c == Some('t') && j == 2 {
        seq!['t', 's']
    } else if c == Some('h') && j == 2 {
        seq!['f']
    } else if c == Some('z') && j == 1 {
        seq!['j']
    } else {
        match c {
            Some(x) => seq![x],
            None => Seq::empty(),
        }
    }
}

/// The syllable at row `r`, column `j` of the grid: its onset, then the
/// column's vowel.
pub open spec fn grid_syllable(r: int, j: int) -> Seq<char> {
    hepburn_onset(row_consonant(r), j).push(column_vowel(j))
}

/// The full-size kana of a small kana; any other character is itself.
pub open spec fn full_size(c: char) -> char {
    match c {
        'ャ' => 'ヤ',
        'ュ' => 'ユ',
        'ョ' => 'ヨ',
        'ァ' => 'ア',
        'ィ' => 'イ',
        'ゥ' => 'ウ',
        'ェ' => 'エ',
        'ォ' => 'オ',
        _ => c,
    }
}

/// The onset of a contracted syllable (kya, sha, ja) made from the
/// romanization of an i-column kana: without its vowel, and with a y added
/// unless the onset is already sh, ch or j (two letters ending in h, or
/// the single j).
pub open spec fn contracted_onset(syllable: Seq<char>) -> Seq<char> {
    let onset = syllable.drop_last();
    if (onset.len() == 2 && onset[1] == 'h') || (onset.len() == 1 && onset[0] == 'j') {
        onset
    } else {
        onset.push('y')
    }
}

} // verus!
