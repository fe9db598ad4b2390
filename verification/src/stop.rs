//! Japanese stop words.
use vstd::prelude::*;

use crate::text::strings_of;
use crate::token::Token;
use crate::word_set::{
    word_set_clone, word_set_contains, word_set_contents, word_set_from, words_set, WordSet,
};

verus! {

/// The default Japanese stop words: common particles, copulas and
/// auxiliary forms.
pub open spec fn spec_japanese_stop_words() -> Seq<&'static str> {
    seq![
        "の", "に", "は", "を", "た", "が", "で", "て", "と", "し", "れ", "さ", "ある", "いる", "も",
        "する", "から", "な", "こと", "として", "い", "や", "れる", "など", "なっ", "ない", "この", "ため", "その",
        "あっ", "よう", "また", "もの", "という", "あり", "まで", "られ", "なる", "へ", "か", "だ", "これ",
        "によって", "により", "おり", "より", "による", "ず", "なり", "られる", "において", "に対して", "ほか", "ながら",
        "うち", "そして", "とともに", "ただし", "かつて", "それぞれ", "または", "お", "ほど", "ものの", "についで", "あ",
        "う", "え", "お", "か", "き", "く", "け", "こ",
    ]
}

/// The set of the views of a list of string slices.
pub open spec fn str_set(list: Seq<&str>) -> Set<Seq<char>> {
    Set::new(|w: Seq<char>| exists|i: int| 0 <= i < list.len() && #[trigger] list[i]@ == w)
}

/// The default Japanese stop words, letter by letter.
pub open spec fn japanese_stop_word_chars() -> Seq<Seq<char>> {
    seq![
        seq!['の'],
        seq!['に'],
        seq!['は'],
        seq!['を'],
        seq!['た'],
        seq!['が'],
        seq!['で'],
        seq!['て'],
        seq!['と'],
        seq!['し'],
        seq!['れ'],
        seq!['さ'],
        seq!['あ', 'る'],
        seq!['い', 'る'],
        seq!['も'],
        seq!['す', 'る'],
        seq!['か', 'ら'],
        seq!['な'],
        seq!['こ', 'と'],
        seq!['と', 'し', 'て'],
        seq!['い'],
        seq!['や'],
        seq!['れ', 'る'],
        seq!['な', 'ど'],
        seq!['な', 'っ'],
        seq!['な', 'い'],
        seq!['こ', 'の'],
        seq!['た', 'め'],
        seq!['そ', 'の'],
        seq!['あ', 'っ'],
        seq!['よ', 'う'],
        seq!['ま', 'た'],
        seq!['も', 'の'],
        seq!['と', 'い', 'う'],
        seq!['あ', 'り'],
        seq!['ま', 'で'],
        seq!['ら', 'れ'],
        seq!['な', 'る'],
        seq!['へ'],
        seq!['か'],
        seq!['だ'],
        seq!['こ', 'れ'],
        seq!['に', 'よ', 'っ', 'て'],
        seq!['に', 'よ', 'り'],
        seq!['お', 'り'],
        seq!['よ', 'り'],
        seq!['に', 'よ', 'る'],
        seq!['ず'],
        seq!['な', 'り'],
        seq!['ら', 'れ', 'る'],
        seq!['に', 'お', 'い', 'て'],
        seq!['に', '対', 'し', 'て'],
        seq!['ほ', 'か'],
        seq!['な', 'が', 'ら'],
        seq!['う', 'ち'],
        seq!['そ', 'し', 'て'],
        seq!['と', 'と', 'も', 'に'],
        seq!['た', 'だ', 'し'],
        seq!['か', 'つ', 'て'],
        seq!['そ', 'れ', 'ぞ', 'れ'],
        seq!['ま', 'た', 'は'],
        seq!['お'],
        seq!['ほ', 'ど'],
        seq!['も', 'の', 'の'],
        seq!['に', 'つ', 'い', 'で'],
        seq!['あ'],
        seq!['う'],
        seq!['え'],
        seq!['お'],
        seq!['か'],
        seq!['き'],
        seq!['く'],
        seq!['け'],
        seq!['こ'],
    ]
}

/// The default stop words are exactly those of `japanese_stop_word_chars`:
/// among them the particles の, に, は, を, が, から and より.
pub proof fn lemma_default_stop_words_are()
    ensures
        str_set(spec_japanese_stop_words()) == japanese_stop_word_chars().to_set(),
{
    reveal_strlit("の");
    reveal_strlit("に");
    reveal_strlit("は");
    reveal_strlit("を");
    reveal_strlit("た");
    reveal_strlit("が");
    reveal_strlit("で");
    reveal_strlit("て");
    reveal_strlit("と");
    reveal_strlit("し");
    reveal_strlit("れ");
    reveal_strlit("さ");
    reveal_strlit("ある");
    reveal_strlit("いる");
    reveal_strlit("も");
    reveal_strlit("する");
    reveal_strlit("から");
    reveal_strlit("な");
    reveal_strlit("こと");
    reveal_strlit("として");
    reveal_strlit("い");
    reveal_strlit("や");
    reveal_strlit("れる");
    reveal_strlit("など");
    reveal_strlit("なっ");
    reveal_strlit("ない");
    reveal_strlit("この");
    reveal_strlit("ため");
    reveal_strlit("その");
    reveal_strlit("あっ");
    reveal_strlit("よう");
    reveal_strlit("また");
    reveal_strlit("もの");
    reveal_strlit("という");
    reveal_strlit("あり");
    reveal_strlit("まで");
    reveal_strlit("られ");
    reveal_strlit("なる");
    reveal_strlit("へ");
    reveal_strlit("か");
    reveal_strlit("だ");
    reveal_strlit("これ");
    reveal_strlit("によって");
    reveal_strlit("により");
    reveal_strlit("おり");
    reveal_strlit("より");
    reveal_strlit("による");
    reveal_strlit("ず");
    reveal_strlit("なり");
    reveal_strlit("られる");
    reveal_strlit("において");
    reveal_strlit("に対して");
    reveal_strlit("ほか");
    reveal_strlit("ながら");
    reveal_strlit("うち");
    reveal_strlit("そして");
    reveal_strlit("とともに");
    reveal_strlit("ただし");
    reveal_strlit("かつて");
    reveal_strlit("それぞれ");
    reveal_strlit("または");
    reveal_strlit("お");
    reveal_strlit("ほど");
    reveal_strlit("ものの");
    reveal_strlit("についで");
    reveal_strlit("あ");
    reveal_strlit("う");
    reveal_strlit("え");
    reveal_strlit("き");
    reveal_strlit("く");
    reveal_strlit("け");
    reveal_strlit("こ");
    let list = spec_japanese_stop_words();
    let chars = japanese_stop_word_chars();
    assert(list.len() == chars.len());
    assert forall|i: int| 0 <= i < list.len() implies #[trigger] list[i]@ == chars[i] by {
        if i == 0 {
            assert(list[i] == "の");
        } else if i == 1 {
            assert(list[i] == "に");
        } else if i == 2 {
            assert(list[i] == "は");
        } else if i == 3 {
            assert(list[i] == "を");
        } else if i == 4 {
            assert(list[i] == "た");
        } else if i == 5 {
            assert(list[i] == "が");
        } else if i == 6 {
            assert(list[i] == "で");
        } else if i == 7 {
            assert(list[i] == "て");
        } else if i == 8 {
            assert(list[i] == "と");
        } else if i == 9 {
            assert(list[i] == "し");
        } else if i == 10 {
            assert(list[i] == "れ");
        } else if i == 11 {
            assert(list[i] == "さ");
        } else if i == 12 {
            assert(list[i] == "ある");
        } else if i == 13 {
            assert(list[i] == "いる");
        } else if i == 14 {
            assert(list[i] == "も");
        } else if i == 15 {
            assert(list[i] == "する");
        } else if i == 16 {
            assert(list[i] == "から");
        } else if i == 17 {
            assert(list[i] == "な");
        } else if i == 18 {
            assert(list[i] == "こと");
        } else if i == 19 {
            assert(list[i] == "として");
        } else if i == 20 {
            assert(list[i] == "い");
        } else if i == 21 {
            assert(list[i] == "や");
        } else if i == 22 {
            assert(list[i] == "れる");
        } else if i == 23 {
            assert(list[i] == "など");
        } else if i == 24 {
            assert(list[i] == "なっ");
        } else if i == 25 {
            assert(list[i] == "ない");
        } else if i == 26 {
            assert(list[i] == "この");
        } else if i == 27 {
            assert(list[i] == "ため");
        } else if i == 28 {
            assert(list[i] == "その");
        } else if i == 29 {
            assert(list[i] == "あっ");
        } else if i == 30 {
            assert(list[i] == "よう");
        } else if i == 31 {
            assert(list[i] == "また");
        } else if i == 32 {
            assert(list[i] == "もの");
        } else if i == 33 {
            assert(list[i] == "という");
        } else if i == 34 {
            assert(list[i] == "あり");
        } else if i == 35 {
            assert(list[i] == "まで");
        } else if i == 36 {
            assert(list[i] == "られ");
        } else if i == 37 {
            assert(list[i] == "なる");
        } else if i == 38 {
            assert(list[i] == "へ");
        } else if i == 39 {
            assert(list[i] == "か");
        } else if i == 40 {
            assert(list[i] == "だ");
        } else if i == 41 {
            assert(list[i] == "これ");
        } else if i == 42 {
            assert(list[i] == "によって");
        } else if i == 43 {
            assert(list[i] == "により");
        } else if i == 44 {
            assert(list[i] == "おり");
        } else if i == 45 {
            assert(list[i] == "より");
        } else if i == 46 {
            assert(list[i] == "による");
        } else if i == 47 {
            assert(list[i] == "ず");
        } else if i == 48 {
            assert(list[i] == "なり");
        } else if i == 49 {
            assert(list[i] == "られる");
        } else if i == 50 {
            assert(list[i] == "において");
        } else if i == 51 {
            assert(list[i] == "に対して");
        } else if i == 52 {
            assert(list[i] == "ほか");
        } else if i == 53 {
            assert(list[i] == "ながら");
        } else if i == 54 {
            assert(list[i] == "うち");
        } else if i == 55 {
            assert(list[i] == "そして");
        } else if i == 56 {
            assert(list[i] == "とともに");
        } else if i == 57 {
            assert(list[i] == "ただし");
        } else if i == 58 {
            assert(list[i] == "かつて");
        } else if i == 59 {
            assert(list[i] == "それぞれ");
        } else if i == 60 {
            assert(list[i] == "または");
        } else if i == 61 {
            assert(list[i] == "お");
        } else if i == 62 {
            assert(list[i] == "ほど");
        } else if i == 63 {
            assert(list[i] == "ものの");
        } else if i == 64 {
            assert(list[i] == "についで");
        } else if i == 65 {
            assert(list[i] == "あ");
        } else if i == 66 {
            assert(list[i] == "う");
        } else if i == 67 {
            assert(list[i] == "え");
        } else if i == 68 {
            assert(list[i] == "お");
        } else if i == 69 {
            assert(list[i] == "か");
        } else if i == 70 {
            assert(list[i] == "き");
        } else if i == 71 {
            assert(list[i] == "く");
        } else if i == 72 {
            assert(list[i] == "け");
        } else if i == 73 {
            assert(list[i] == "こ");
        }
    }
    assert forall|w: Seq<char>| str_set(list).contains(w) <==> chars.to_set().contains(w) by {
        if str_set(list).contains(w) {
            let i = choose|i: int| 0 <= i < list.len() && #[trigger] list[i]@ == w;
            assert(chars[i] == w);
        }
        if chars.to_set().contains(w) {
            let i = choose|i: int| 0 <= i < chars.len() && chars[i] == w;
            assert(list[i]@ == w);
        }
    }
    assert(str_set(list) =~= chars.to_set());
}

/// The default Japanese stop words.
pub fn japanese_stop_words() -> (v: Vec<&'static str>)
    ensures
        v@ == spec_japanese_stop_words(),
{
    vec![
        "の", "に", "は", "を", "た", "が", "で", "て", "と", "し", "れ", "さ", "ある", "いる", "も",
        "する", "から", "な", "こと", "として", "い", "や", "れる", "など", "なっ", "ない", "この", "ため", "その",
        "あっ", "よう", "また", "もの", "という", "あり", "まで", "られ", "なる", "へ", "か", "だ", "これ",
        "によって", "により", "おり", "より", "による", "ず", "なり", "られる", "において", "に対して", "ほか", "ながら",
        "うち", "そして", "とともに", "ただし", "かつて", "それぞれ", "または", "お", "ほど", "ものの", "についで", "あ",
        "う", "え", "お", "か", "き", "く", "け", "こ",
    ]
}

/// Removes Japanese stop words from the token stream.
pub struct JapaneseStopFilter {
    stop_words: WordSet,
}

impl JapaneseStopFilter {
    /// The stop words of this filter.
    pub closed spec fn spec_stop_words(&self) -> Set<Seq<char>> {
        word_set_contents(self.stop_words)
    }

    /// A filter with the default Japanese stop words.
    pub fn new() -> (f: Self)
        ensures
            f.spec_stop_words() == str_set(spec_japanese_stop_words()),
            f.spec_stop_words() == japanese_stop_word_chars().to_set(),
    {
        proof {
            lemma_default_stop_words_are();
        }
        let list = japanese_stop_words();
        let words = strings_of(&list);
        let stop_words = word_set_from(&words);
        assert(words_set(words@) =~= str_set(list@)) by {
            assert forall|w: Seq<char>| str_set(list@).contains(w) implies words_set(
                words@,
            ).contains(w) by {
                let k = choose|k: int| 0 <= k < list@.len() && #[trigger] list@[k]@ == w;
                assert(words@[k]@ == w);
            }
        }
        JapaneseStopFilter { stop_words }
    }

    /// A filter with the given stop words.
    pub fn with_words(words: Vec<String>) -> (f: Self)
        ensures
            f.spec_stop_words() == words_set(words@),
    {
        JapaneseStopFilter { stop_words: word_set_from(&words) }
    }

    /// Deletes the token exactly when its term is a stop word; leaves the
    /// token as it is and adds none.
    pub fn filter(&self, token: &mut Token) -> (r: (bool, Option<Vec<Token>>))
        ensures
            *final(token) == *old(token),
            r.0 == self.spec_stop_words().contains(old(token).term@),
            r.1 is None,
    {
        let deleted = word_set_contains(&self.stop_words, token.term.as_str());
        (deleted, None)
    }
}

impl Clone for JapaneseStopFilter {
    fn clone(&self) -> (f: Self)
        ensures
            f.spec_stop_words() == self.spec_stop_words(),
    {
        JapaneseStopFilter { stop_words: word_set_clone(&self.stop_words) }
    }
}

impl Default for JapaneseStopFilter {
    fn default() -> (f: Self)
        ensures
            f.spec_stop_words() == str_set(spec_japanese_stop_words()),
            f.spec_stop_words() == japanese_stop_word_chars().to_set(),
    {
        Self::new()
    }
}

} // verus!
