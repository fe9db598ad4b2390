//! Exact values, edge cases and the library's laws on concrete inputs.

use kuromoji_analysis::completion::katakana_to_romaji as completion_romaji;
use kuromoji_analysis::number::{decimal_string, number_term_in_range, parse_kanji_number};
use kuromoji_analysis::readingform::katakana_to_romaji as reading_romaji;
use kuromoji_analysis::{
    CompletionMode, JapaneseCompletionFilter, JapaneseStopFilter, KuromojiBaseformFilter,
    KuromojiMode, KuromojiNumberFilter, KuromojiPartOfSpeechFilter, KuromojiReadingformFilter,
    KuromojiStemmerFilter, KuromojiTokenizer, Morpheme, ReadingFormType, SegmentationMode, Token,
};

fn word(surface: &str, features: &str) -> Morpheme {
    Morpheme {
        surface: surface.to_string(),
        byte_start: 0,
        byte_end: surface.len(),
        details: Some(features.split(',').map(|s| s.to_string()).collect()),
        unknown: false,
    }
}

fn number(term: &str) -> String {
    assert!(number_term_in_range(term));
    let mut token = Token::new(term, 0, 0, 0);
    let (deleted, extras) = KuromojiNumberFilter::new().filter(&mut token);
    assert!(!deleted);
    assert!(extras.is_none());
    token.term
}

#[test]
fn number_multiplicative_values() {
    assert_eq!(number("二万三千"), "23000");
    assert_eq!(number("兆"), "1000000000000");
    assert_eq!(number("三億五千万"), "350000000");
    assert_eq!(number("十十"), "20");
    assert_eq!(number("〇十"), "10");
    assert_eq!(number("千九百九十九"), "1999");
}

#[test]
fn number_positional_values() {
    assert_eq!(number("〇〇"), "0");
    assert_eq!(number("二〇二四"), "2024");
    assert_eq!(parse_kanji_number("九"), Some(9));
    assert_eq!(parse_kanji_number(""), None);
}

#[test]
fn number_positional_overflow_leaves_term() {
    let long = "九".repeat(25);
    assert_eq!(parse_kanji_number(&long), None);
    assert_eq!(number(&long), long);
}

#[test]
fn number_out_of_u64_range_is_detected() {
    let mut term = "九千".repeat(2100);
    term.push('兆');
    assert!(!number_term_in_range(&term));
    assert!(number_term_in_range("九千兆"));
}

#[test]
fn number_fullwidth_with_separators() {
    assert_eq!(number("１，２３４．５"), "1,234.5");
    assert_eq!(number(""), "");
    assert_eq!(number("３a"), "３a");
}

#[test]
fn number_filter_is_idempotent() {
    for term in ["百二十三", "３４", "一二三", "東京", "", "九九九九九九九九九九九九九九九九九九九九九"] {
        let once = number(term);
        assert_eq!(number(&once), once);
    }
}

#[test]
fn number_keeps_offsets() {
    let mut token = Token::new("十二", 3, 5, 7);
    KuromojiNumberFilter::new().filter(&mut token);
    assert_eq!((token.term.as_str(), token.start_offset, token.end_offset, token.position), ("12", 3, 5, 7));
}

#[test]
fn decimal_spelling() {
    assert_eq!(decimal_string(0), "0");
    assert_eq!(decimal_string(18446744073709551615), "18446744073709551615");
}

#[test]
fn completion_romaji_leaves_other_text() {
    assert_eq!(completion_romaji("hello"), "hello");
    assert_eq!(completion_romaji("東京"), "東京");
    assert_eq!(completion_romaji("ンー"), "n");
    assert_eq!(completion_romaji("ニっポン"), "nippon");
    assert_eq!(completion_romaji("ッ"), "");
}

#[test]
fn reading_romaji_edge_cases() {
    assert_eq!(reading_romaji("トウキョウ"), "toukyou");
    assert_eq!(reading_romaji("ヴァイオリン"), "vuiorin");
    assert_eq!(reading_romaji("ンー"), "nn");
    assert_eq!(reading_romaji("ジェット"), "jetto");
    assert_eq!(reading_romaji("hello"), "");
    assert_eq!(reading_romaji("ッア"), "a");
}

#[test]
fn reading_romaji_is_lowercase_ascii() {
    for s in ["コンピューター", "ヴァイオリン", "キャッシュ", "ーア", "テスト！"] {
        assert!(reading_romaji(s).chars().all(|c| c.is_ascii_lowercase()));
    }
}

#[test]
fn romaji_reading_is_romanized_katakana_reading() {
    let analysis = Some(vec![word("東京", "名詞,固有名詞,地域,一般,*,*,東京,トウキョウ,トーキョー")]);
    let kana = KuromojiReadingformFilter::new(ReadingFormType::Katakana).get_reading(&analysis);
    let romaji = KuromojiReadingformFilter::new(ReadingFormType::Romaji).get_reading(&analysis);
    assert_eq!(kana.as_deref(), Some("トウキョウ"));
    assert_eq!(romaji, kana.map(|k| reading_romaji(&k)));
}

#[test]
fn reading_needs_a_set_reading_feature() {
    let f = KuromojiReadingformFilter::new(ReadingFormType::Katakana);
    assert_eq!(f.get_reading(&Some(vec![word("x", "名詞,一般,*,*,*,*,x,*,*")])), None);
    assert_eq!(f.get_reading(&None), None);
    let two = Some(vec![word("行っ", "動詞,自立,*,*,*,*,行く,イッ,イッ"), word("た", "助動詞,*,*,*,*,*,た,タ,タ")]);
    assert_eq!(f.get_reading(&two), None);
}

#[test]
fn tokenizer_offsets_are_exact() {
    let text = "東京都に行く";
    let ms = vec![
        Morpheme { surface: "東京".to_string(), byte_start: 0, byte_end: 6, details: None, unknown: false },
        Morpheme { surface: "都".to_string(), byte_start: 6, byte_end: 9, details: None, unknown: false },
        Morpheme { surface: String::new(), byte_start: 9, byte_end: 9, details: None, unknown: false },
        Morpheme { surface: "に".to_string(), byte_start: 9, byte_end: 12, details: None, unknown: false },
        Morpheme { surface: "行く".to_string(), byte_start: 12, byte_end: 18, details: None, unknown: false },
    ];
    let analysis = Some(ms);
    let tok = KuromojiTokenizer::new(KuromojiMode::Normal);
    assert!(tok.analysis_fits(text, &analysis, &None));
    let tokens = tok.tokenize(text, &analysis, &None);
    let got: Vec<(&str, u32, u32, u32)> =
        tokens.iter().map(|t| (t.term.as_str(), t.start_offset, t.end_offset, t.position)).collect();
    assert_eq!(got, vec![("東京", 0, 2, 0), ("都", 2, 3, 1), ("に", 3, 4, 2), ("行く", 4, 6, 3)]);
}

#[test]
fn tokenizer_failed_analysis_gives_no_tokens() {
    let tok = KuromojiTokenizer::new(KuromojiMode::Search);
    assert!(tok.analysis_fits("東京", &None, &None));
    assert!(tok.tokenize("東京", &None, &None).is_empty());
    // A failed decomposed analysis leaves the decompounding modes nothing.
    let plain = Some(vec![Morpheme { surface: "東京".to_string(), byte_start: 0, byte_end: 6, details: None, unknown: false }]);
    assert!(tok.analysis_fits("東京", &plain, &None));
    assert!(tok.tokenize("東京", &plain, &None).is_empty());
    let normal = KuromojiTokenizer::new(KuromojiMode::Normal);
    assert_eq!(normal.tokenize("東京", &plain, &None).len(), 1);
}

#[test]
fn tokenizer_rejects_offsets_inside_a_character() {
    let analysis = Some(vec![Morpheme { surface: "東".to_string(), byte_start: 1, byte_end: 3, details: None, unknown: false }]);
    let tok = KuromojiTokenizer::new(KuromojiMode::Normal);
    assert!(!tok.analysis_fits("東京", &analysis, &None));
    let beyond = Some(vec![Morpheme { surface: "京".to_string(), byte_start: 3, byte_end: 9, details: None, unknown: false }]);
    assert!(!tok.analysis_fits("東京", &beyond, &None));
    // The decomposed analysis is checked in the decompounding modes only.
    let whole = Some(vec![Morpheme { surface: "東京".to_string(), byte_start: 0, byte_end: 6, details: None, unknown: false }]);
    assert!(tok.analysis_fits("東京", &whole, &analysis));
    let search = KuromojiTokenizer::new(KuromojiMode::Search);
    assert!(!search.analysis_fits("東京", &whole, &analysis));
    assert!(search.analysis_fits("東京", &whole, &whole));
}

#[test]
fn segmentation_modes() {
    assert_eq!(KuromojiMode::Normal.to_lindera_mode(), SegmentationMode::Normal);
    assert_eq!(KuromojiMode::Search.to_lindera_mode(), SegmentationMode::Decompose);
    assert_eq!(KuromojiMode::Extended.to_lindera_mode(), SegmentationMode::Decompose);
}

#[test]
fn part_of_speech_tags_match_by_prefix() {
    let ni = Some(vec![word("に", "助詞,格助詞,一般,*,*,*,に,ニ,ニ")]);
    assert!(KuromojiPartOfSpeechFilter::new(vec!["助詞,格助詞".to_string()]).should_remove(&ni));
    assert!(!KuromojiPartOfSpeechFilter::new(vec!["助詞,係助詞".to_string()]).should_remove(&ni));
    assert!(KuromojiPartOfSpeechFilter::new(vec!["助詞,格助詞,一般,*".to_string()]).should_remove(&ni));
    assert!(!KuromojiPartOfSpeechFilter::new(vec!["助詞,格助詞,一般,*,*".to_string()]).should_remove(&ni));
    let short = Some(vec![word("x", "助詞")]);
    assert!(KuromojiPartOfSpeechFilter::with_defaults().should_remove(&short));
    let none = Some(vec![Morpheme { surface: "x".to_string(), byte_start: 0, byte_end: 1, details: None, unknown: false }]);
    assert!(!KuromojiPartOfSpeechFilter::with_defaults().should_remove(&none));
    assert!(!KuromojiPartOfSpeechFilter::with_defaults().should_remove(&None));
    let two = Some(vec![word("に", "助詞,格助詞,一般,*"), word("に", "助詞,格助詞,一般,*")]);
    assert!(!KuromojiPartOfSpeechFilter::with_defaults().should_remove(&two));
}

#[test]
fn part_of_speech_clone_keeps_tags() {
    let f = KuromojiPartOfSpeechFilter::new(vec!["名詞".to_string()]);
    let g = f.clone();
    let tokyo = Some(vec![word("東京", "名詞,固有名詞,地域,一般")]);
    assert!(g.should_remove(&tokyo));
}

#[test]
fn baseform_needs_a_set_and_different_base() {
    let f = KuromojiBaseformFilter::new();
    let star = Some(vec![word("x", "名詞,一般,*,*,*,*,*")]);
    assert_eq!(f.get_baseform("x", &star), None);
    let nomi = Some(vec![word("飲み", "動詞,自立,*,*,五段・マ行,連用形,飲む,ノミ,ノミ")]);
    assert_eq!(f.get_baseform("飲み", &nomi).as_deref(), Some("飲む"));
    let mut token = Token::new("飲み", 1, 3, 2);
    let (deleted, extras) = f.filter(&mut token, &nomi);
    assert!(!deleted && extras.is_none());
    assert_eq!((token.term.as_str(), token.start_offset, token.end_offset, token.position), ("飲む", 1, 3, 2));
}

#[test]
fn completion_joins_readings_of_all_morphemes() {
    let f = JapaneseCompletionFilter::new(CompletionMode::Index);
    let itta = Some(vec![
        word("行っ", "動詞,自立,*,*,五段・カ行促音便,連用タ接続,行く,イッ,イッ"),
        word("た", "助動詞,*,*,*,特殊・タ,基本形,た,タ,タ"),
    ]);
    assert_eq!(f.get_katakana_reading("行った", &itta).as_deref(), Some("イッタ"));
    let mut token = Token::new("行った", 4, 7, 3);
    let (deleted, extras) = f.filter(&mut token, &itta);
    assert!(!deleted);
    assert_eq!(token.term, "行った");
    let extras = extras.unwrap();
    let got: Vec<(&str, u32, u32, u32)> =
        extras.iter().map(|t| (t.term.as_str(), t.start_offset, t.end_offset, t.position)).collect();
    assert_eq!(got, vec![("イッタ", 4, 7, 3), ("itta", 4, 7, 3)]);
}

#[test]
fn completion_without_romaji_for_other_text() {
    let f = JapaneseCompletionFilter::new(CompletionMode::Index);
    // A reading whose romanization is empty: only the reading is emitted.
    let tsu = Some(vec![word("っ", "記号,一般,*,*,*,*,っ,ッ,ッ")]);
    let mut token = Token::new("っ", 0, 1, 0);
    let (_, extras) = f.filter(&mut token, &tsu);
    let got: Vec<String> = extras.unwrap().into_iter().map(|t| t.term).collect();
    assert_eq!(got, vec!["ッ".to_string()]);
    // A reading outside the kana table romanizes to itself.
    let ab = Some(vec![word("ab", "名詞,一般,*,*,*,*,ab,AB,AB")]);
    let mut token = Token::new("ab", 0, 2, 0);
    let (_, extras) = f.filter(&mut token, &ab);
    let got: Vec<String> = extras.unwrap().into_iter().map(|t| t.term).collect();
    assert_eq!(got, vec!["AB".to_string(), "AB".to_string()]);
    assert_eq!(f.get_katakana_reading("x", &Some(vec![])), None);
    assert_eq!(f.get_katakana_reading("x", &None), None);
}

#[test]
fn stemmer_edge_cases() {
    let mut t = Token::new("ーー", 0, 0, 0);
    KuromojiStemmerFilter::with_min_length(2).filter(&mut t);
    assert_eq!(t.term, "ー");
    let mut e = Token::new("", 0, 0, 0);
    KuromojiStemmerFilter::with_min_length(0).filter(&mut e);
    assert_eq!(e.term, "");
    let mut k = Token::new("ㇰㇱー", 0, 0, 0);
    KuromojiStemmerFilter::with_min_length(3).filter(&mut k);
    assert_eq!(k.term, "ㇰㇱ");
}

#[test]
fn stop_words_exactly_the_list() {
    let empty = JapaneseStopFilter::with_words(vec![]);
    let mut t = Token::new("の", 0, 1, 0);
    assert!(!empty.filter(&mut t).0);
    let default = JapaneseStopFilter::new().clone();
    for w in ["という", "に対して", "こ", "お", "か"] {
        let mut t = Token::new(w, 0, 1, 0);
        assert!(default.filter(&mut t).0, "{} is a stop word", w);
    }
    let mut t = Token::new("ここ", 0, 1, 0);
    assert!(!default.filter(&mut t).0);
}

fn piece(surface: &str, byte_start: usize, unknown: bool) -> Morpheme {
    Morpheme {
        surface: surface.to_string(),
        byte_start,
        byte_end: byte_start + surface.len(),
        details: None,
        unknown,
    }
}

fn places(tokens: &[Token]) -> Vec<(&str, u32, u32, u32)> {
    tokens.iter().map(|t| (t.term.as_str(), t.start_offset, t.end_offset, t.position)).collect()
}

#[test]
fn search_mode_places_parts_then_compound() {
    let text = "関西国際空港";
    let plain = Some(vec![piece("関西国際空港", 0, false)]);
    let parts = Some(vec![piece("関西", 0, false), piece("国際", 6, false), piece("空港", 12, false)]);
    let search = KuromojiTokenizer::new(KuromojiMode::Search);
    assert!(search.analysis_fits(text, &plain, &parts));
    assert_eq!(
        places(&search.tokenize(text, &plain, &parts)),
        vec![("関西", 0, 2, 0), ("国際", 2, 4, 1), ("空港", 4, 6, 2), ("関西国際空港", 0, 6, 3)]
    );
    let normal = KuromojiTokenizer::new(KuromojiMode::Normal);
    assert_eq!(places(&normal.tokenize(text, &plain, &parts)), vec![("関西国際空港", 0, 6, 0)]);
    // A word the decomposed analysis leaves whole comes once.
    let tokyo = Some(vec![piece("東京", 0, false)]);
    assert_eq!(places(&search.tokenize("東京", &tokyo, &tokyo)), vec![("東京", 0, 2, 0)]);
}

#[test]
fn extended_mode_places_unigrams() {
    let text = "東京ガンダム";
    let analysis = Some(vec![piece("東京", 0, false), piece("ガンダム", 6, true)]);
    let extended = KuromojiTokenizer::new(KuromojiMode::Extended);
    assert!(extended.analysis_fits(text, &analysis, &analysis));
    assert_eq!(
        places(&extended.tokenize(text, &analysis, &analysis)),
        vec![("東京", 0, 2, 0), ("ガ", 2, 3, 1), ("ン", 3, 4, 2), ("ダ", 4, 5, 3), ("ム", 5, 6, 4)]
    );
    let search = KuromojiTokenizer::new(KuromojiMode::Search);
    assert_eq!(
        places(&search.tokenize(text, &analysis, &analysis)),
        vec![("東京", 0, 2, 0), ("ガンダム", 2, 6, 1)]
    );
}

#[test]
fn romaji_of_a_join_is_the_join_of_romaji() {
    for (a, b) in [("トウ", "キョウ"), ("コー", "ヒー"), ("ニッ", "ポン"), ("コ", "ーヒー")] {
        let joined = format!("{}{}", a, b);
        let expected = format!("{}{}", completion_romaji(a), completion_romaji(b));
        if a.ends_with('ッ') || b.starts_with('ー') {
            assert_ne!(completion_romaji(&joined), expected);
        } else {
            assert_eq!(completion_romaji(&joined), expected);
        }
    }
}

#[test]
fn leading_unit_reads_as_one() {
    assert_eq!(number("十二"), "12");
    assert_eq!(number("一十二"), "12");
    assert_eq!(number("万"), number("一万"));
    assert_eq!(number("百五"), number("一百五"));
}
