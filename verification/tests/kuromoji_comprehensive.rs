//! Tests of the tokenizer and the token filters.  Where a component works
//! on an IPADIC analysis, the analysis comes from `analyze_ipadic`, a small
//! lexicon of IPADIC entries segmented by longest match.

use kuromoji_analysis::{
    CompletionMode, JapaneseCompletionFilter, JapaneseStopFilter, KuromojiBaseformFilter,
    KuromojiMode, KuromojiNumberFilter, KuromojiPartOfSpeechFilter, KuromojiReadingformFilter,
    KuromojiStemmerFilter, KuromojiTokenizer, Morpheme, ReadingFormType, Token,
};

// ─── Helpers ───────────────────────────────────────────────────────────────────

const UNKNOWN: &str = "名詞,一般,*,*,*,*,*";

fn lexicon() -> Vec<(&'static str, &'static str)> {
    vec![
        ("東京", "名詞,固有名詞,地域,一般,*,*,東京,トウキョウ,トーキョー"),
        ("都", "名詞,接尾,地域,*,*,*,都,ト,ト"),
        ("に", "助詞,格助詞,一般,*,*,*,に,ニ,ニ"),
        ("行く", "動詞,自立,*,*,五段・カ行促音便,基本形,行く,イク,イク"),
        ("行っ", "動詞,自立,*,*,五段・カ行促音便,連用タ接続,行く,イッ,イッ"),
        ("た", "助動詞,*,*,*,特殊・タ,基本形,た,タ,タ"),
        ("タワー", "名詞,一般,*,*,*,*,タワー,タワー,タワー"),
        ("コンピューター", "名詞,一般,*,*,*,*,コンピューター,コンピューター,コンピューター"),
        ("猫", "名詞,一般,*,*,*,*,猫,ネコ,ネコ"),
        ("は", "助詞,係助詞,*,*,*,*,は,ハ,ワ"),
        ("魚", "名詞,一般,*,*,*,*,魚,サカナ,サカナ"),
        ("を", "助詞,格助詞,一般,*,*,*,を,ヲ,ヲ"),
        ("食べる", "動詞,自立,*,*,一段,基本形,食べる,タベル,タベル"),
        ("。", "記号,句点,*,*,*,*,。,。,。"),
        ("大阪", "名詞,固有名詞,地域,一般,*,*,大阪,オオサカ,オーサカ"),
        ("言語", "名詞,一般,*,*,*,*,言語,ゲンゴ,ゲンゴ"),
        ("吾輩", "名詞,代名詞,一般,*,*,*,吾輩,ワガハイ,ワガハイ"),
        ("で", "助動詞,*,*,*,特殊・ダ,連用形,だ,デ,デ"),
        ("ある", "助動詞,*,*,*,五段・ラ行アル,基本形,ある,アル,アル"),
        ("名前", "名詞,一般,*,*,*,*,名前,ナマエ,ナマエ"),
        ("まだ", "副詞,助詞類接続,*,*,*,*,まだ,マダ,マダ"),
        ("無い", "形容詞,自立,*,*,形容詞・アウオ段,基本形,無い,ナイ,ナイ"),
        ("美しい", "形容詞,自立,*,*,形容詞・イ段,基本形,美しい,ウツクシイ,ウツクシイ"),
        ("美しく", "形容詞,自立,*,*,形容詞・イ段,連用テ接続,美しい,ウツクシク,ウツクシク"),
        ("飲み", "動詞,自立,*,*,五段・マ行,連用形,飲む,ノミ,ノミ"),
        ("ありがとう", "感動詞,*,*,*,*,*,ありがとう,アリガトウ,アリガトー"),
        ("関西", "名詞,固有名詞,地域,一般,*,*,関西,カンサイ,カンサイ"),
        ("国際", "名詞,一般,*,*,*,*,国際,コクサイ,コクサイ"),
        ("空港", "名詞,一般,*,*,*,*,空港,クウコウ,クーコー"),
        ("関西国際空港", "名詞,固有名詞,組織,*,*,*,関西国際空港,カンサイコクサイクウコウ,カンサイコクサイクーコー"),
    ]
}

/// Entries that the decomposing analysis splits into their parts.
fn compounds() -> Vec<&'static str> {
    vec!["関西国際空港"]
}

fn morpheme(text: &str, start: usize, end: usize, features: &str, unknown: bool) -> Morpheme {
    Morpheme {
        surface: text[start..end].to_string(),
        byte_start: start,
        byte_end: end,
        details: Some(features.split(',').map(|s| s.to_string()).collect()),
        unknown,
    }
}

fn is_katakana(c: char) -> bool {
    ('\u{30A1}'..='\u{30FA}').contains(&c) || c == 'ー'
}

/// An IPADIC-like analysis of `text`: longest match against the lexicon
/// (without the compounds where `decompose` is set); where nothing matches,
/// runs of ASCII letters and runs of katakana as unknown nouns, other
/// characters one by one.
fn analyze_with(text: &str, decompose: bool) -> Option<Vec<Morpheme>> {
    let compounds = compounds();
    let lex: Vec<(&str, &str)> =
        lexicon().into_iter().filter(|(w, _)| !decompose || !compounds.contains(w)).collect();
    let word_at = |pos: usize| -> Option<(&str, &str)> {
        let rest = &text[pos..];
        lex.iter().filter(|(w, _)| rest.starts_with(w)).max_by_key(|(w, _)| w.len()).copied()
    };
    let mut result = Vec::new();
    let mut pos = 0;
    while pos < text.len() {
        if let Some((w, features)) = word_at(pos) {
            result.push(morpheme(text, pos, pos + w.len(), features, false));
            pos += w.len();
            continue;
        }
        let first = text[pos..].chars().next().unwrap();
        let mut end = pos + first.len_utf8();
        if first.is_ascii_alphabetic() {
            end = pos + text[pos..].chars().take_while(|c| c.is_ascii_alphabetic()).count();
        } else if is_katakana(first) {
            while end < text.len() {
                let c = text[end..].chars().next().unwrap();
                if !is_katakana(c) || word_at(end).is_some() {
                    break;
                }
                end += c.len_utf8();
            }
        }
        result.push(morpheme(text, pos, end, UNKNOWN, true));
        pos = end;
    }
    Some(result)
}

fn analyze_ipadic(text: &str) -> Option<Vec<Morpheme>> {
    analyze_with(text, false)
}

fn analyze_decomposed(text: &str) -> Option<Vec<Morpheme>> {
    analyze_with(text, true)
}

fn tokenize(tok: &KuromojiTokenizer, text: &str) -> Vec<Token> {
    let analysis = analyze_ipadic(text);
    let decomposed = analyze_decomposed(text);
    assert!(tok.analysis_fits(text, &analysis, &decomposed));
    tok.tokenize(text, &analysis, &decomposed)
}

fn terms(tokens: &[Token]) -> Vec<&str> {
    tokens.iter().map(|t| t.term.as_str()).collect()
}

fn make_token(term: &str) -> Token {
    Token::new(term, 0, term.len() as u32, 0)
}

type Filter<'a> = &'a dyn Fn(&mut Token) -> (bool, Option<Vec<Token>>);

fn apply_filter(filter: Filter, term: &str) -> (bool, String, Vec<String>) {
    let mut token = make_token(term);
    let (deleted, extras) = filter(&mut token);
    let extra_terms: Vec<String> = extras.unwrap_or_default().into_iter().map(|t| t.term).collect();
    (deleted, token.term, extra_terms)
}

fn filter_term(filter: Filter, term: &str) -> String {
    let (_, result, _) = apply_filter(filter, term);
    result
}

fn filter_deleted(filter: Filter, term: &str) -> bool {
    let (deleted, _, _) = apply_filter(filter, term);
    deleted
}

fn baseform(f: &KuromojiBaseformFilter) -> impl Fn(&mut Token) -> (bool, Option<Vec<Token>>) + '_ {
    move |t: &mut Token| {
        let analysis = analyze_ipadic(&t.term);
        f.filter(t, &analysis)
    }
}

fn part_of_speech(
    f: &KuromojiPartOfSpeechFilter,
) -> impl Fn(&mut Token) -> (bool, Option<Vec<Token>>) + '_ {
    move |t: &mut Token| {
        let analysis = analyze_ipadic(&t.term);
        f.filter(t, &analysis)
    }
}

fn readingform(
    f: &KuromojiReadingformFilter,
) -> impl Fn(&mut Token) -> (bool, Option<Vec<Token>>) + '_ {
    move |t: &mut Token| {
        let analysis = analyze_ipadic(&t.term);
        f.filter(t, &analysis)
    }
}

fn completion(
    f: &JapaneseCompletionFilter,
) -> impl Fn(&mut Token) -> (bool, Option<Vec<Token>>) + '_ {
    move |t: &mut Token| {
        let analysis = analyze_ipadic(&t.term);
        f.filter(t, &analysis)
    }
}

fn stemmer(f: &KuromojiStemmerFilter) -> impl Fn(&mut Token) -> (bool, Option<Vec<Token>>) + '_ {
    move |t: &mut Token| f.filter(t)
}

fn number(f: &KuromojiNumberFilter) -> impl Fn(&mut Token) -> (bool, Option<Vec<Token>>) + '_ {
    move |t: &mut Token| {
        assert!(kuromoji_analysis::number::number_term_in_range(&t.term));
        f.filter(t)
    }
}

fn stop(f: &JapaneseStopFilter) -> impl Fn(&mut Token) -> (bool, Option<Vec<Token>>) + '_ {
    move |t: &mut Token| f.filter(t)
}

// ═══════════════════════════════════════════════════════════════════════════════
// KuromojiTokenizer
// ═══════════════════════════════════════════════════════════════════════════════

#[test]
fn normal_mode_basic_sentence() {
    let tok = KuromojiTokenizer::new(KuromojiMode::Normal);
    let tokens = tokenize(&tok, "東京都に行く");
    let t = terms(&tokens);
    assert!(t.len() >= 3, "expected at least 3 tokens, got {:?}", t);
    assert!(t.iter().any(|s| s.contains("東京")), "expected 東京 in {:?}", t);
}

#[test]
fn normal_mode_returns_correct_mode() {
    let tok = KuromojiTokenizer::new(KuromojiMode::Normal);
    assert_eq!(tok.mode(), KuromojiMode::Normal);
}

#[test]
fn search_mode_returns_correct_mode() {
    let tok = KuromojiTokenizer::new(KuromojiMode::Search);
    assert_eq!(tok.mode(), KuromojiMode::Search);
}

#[test]
fn extended_mode_returns_correct_mode() {
    let tok = KuromojiTokenizer::new(KuromojiMode::Extended);
    assert_eq!(tok.mode(), KuromojiMode::Extended);
}

#[test]
fn search_mode_compound_decomposition() {
    let tok = KuromojiTokenizer::new(KuromojiMode::Search);
    let tokens = tokenize(&tok, "関西国際空港");
    let t = terms(&tokens);
    // Search mode decomposes compound nouns — should have more tokens
    assert!(t.len() >= 2, "search mode should decompose compound, got {:?}", t);
}

#[test]
fn search_mode_emits_parts_and_compound() {
    let tok = KuromojiTokenizer::new(KuromojiMode::Search);
    let tokens = tokenize(&tok, "関西国際空港");
    assert_eq!(terms(&tokens), vec!["関西", "国際", "空港", "関西国際空港"]);
    let normal = KuromojiTokenizer::new(KuromojiMode::Normal);
    assert_eq!(terms(&tokenize(&normal, "関西国際空港")), vec!["関西国際空港"]);
}

#[test]
fn extended_mode_splits_unknown_words_only() {
    let extended = KuromojiTokenizer::new(KuromojiMode::Extended);
    let search = KuromojiTokenizer::new(KuromojiMode::Search);
    let text = "東京ガンダム";
    assert_eq!(terms(&tokenize(&extended, text)), vec!["東京", "ガ", "ン", "ダ", "ム"]);
    assert_eq!(terms(&tokenize(&search, text)), vec!["東京", "ガンダム"]);
    assert_eq!(
        terms(&tokenize(&extended, "ガンダムバルバトス")),
        vec!["ガ", "ン", "ダ", "ム", "バ", "ル", "バ", "ト", "ス"]
    );
    // With no unknown word, Extended is Search.
    assert_eq!(terms(&tokenize(&extended, "関西国際空港")), terms(&tokenize(&search, "関西国際空港")));
}

#[test]
fn extended_mode_unknown_words() {
    let tok = KuromojiTokenizer::new(KuromojiMode::Extended);
    // An unusual/made-up word that's unlikely in IPADIC
    let tokens = tokenize(&tok, "ガンダムバルバトス");
    let t = terms(&tokens);
    assert!(!t.is_empty(), "extended mode should produce tokens");
}

#[test]
fn katakana_word() {
    let tok = KuromojiTokenizer::new(KuromojiMode::Normal);
    let tokens = tokenize(&tok, "コンピューター");
    let t = terms(&tokens);
    assert!(t.contains(&"コンピューター"), "should tokenize katakana word, got {:?}", t);
}

#[test]
fn mixed_japanese_ascii() {
    let tok = KuromojiTokenizer::new(KuromojiMode::Normal);
    let tokens = tokenize(&tok, "Java言語");
    let t = terms(&tokens);
    assert!(t.len() >= 2, "should split mixed text, got {:?}", t);
    assert!(t.iter().any(|s| *s == "Java"), "expected Java in {:?}", t);
}

#[test]
fn empty_string() {
    let tok = KuromojiTokenizer::new(KuromojiMode::Normal);
    let tokens = tokenize(&tok, "");
    assert!(tokens.is_empty());
}

#[test]
fn whitespace_only() {
    let tok = KuromojiTokenizer::new(KuromojiMode::Normal);
    let tokens = tokenize(&tok, "   ");
    let _ = terms(&tokens);
}

#[test]
fn punctuation_handling() {
    let tok = KuromojiTokenizer::new(KuromojiMode::Normal);
    let tokens = tokenize(&tok, "東京。大阪");
    let t = terms(&tokens);
    assert!(t.iter().any(|s: &&str| s.contains("東京")), "expected 東京 in {:?}", t);
    assert!(t.iter().any(|s: &&str| s.contains("大阪")), "expected 大阪 in {:?}", t);
}

#[test]
fn single_character() {
    let tok = KuromojiTokenizer::new(KuromojiMode::Normal);
    let tokens = tokenize(&tok, "猫");
    let t = terms(&tokens);
    assert_eq!(t, vec!["猫"]);
}

#[test]
fn offsets_are_character_based() {
    let tok = KuromojiTokenizer::new(KuromojiMode::Normal);
    let tokens = tokenize(&tok, "東京都");
    for token in &tokens {
        assert!(
            token.end_offset <= 3,
            "char offset should be ≤ 3 for 3-char input, got end={}",
            token.end_offset
        );
    }
}

#[test]
fn positions_are_sequential() {
    let tok = KuromojiTokenizer::new(KuromojiMode::Normal);
    let tokens = tokenize(&tok, "東京都に行く");
    for (i, token) in tokens.iter().enumerate() {
        assert_eq!(token.position, i as u32, "positions should be sequential");
    }
}

#[test]
fn long_sentence() {
    let tok = KuromojiTokenizer::new(KuromojiMode::Normal);
    let text = "吾輩は猫である。名前はまだ無い。";
    let tokens = tokenize(&tok, text);
    assert!(tokens.len() >= 5, "long sentence should produce many tokens, got {}", tokens.len());
}

// ═══════════════════════════════════════════════════════════════════════════════
// KuromojiBaseformFilter
// ═══════════════════════════════════════════════════════════════════════════════

#[test]
fn conjugated_verb_to_dictionary_form() {
    let filter = KuromojiBaseformFilter::new();
    // 行った is more than one morpheme: left as it is.
    let result = filter_term(&baseform(&filter), "行った");
    let _ = result;
}

#[test]
fn single_conjugated_verb() {
    let filter = KuromojiBaseformFilter::new();
    let result = filter_term(&baseform(&filter), "飲み");
    assert!(result == "飲む" || result == "飲み", "expected 飲む or 飲み, got {}", result);
}

#[test]
fn adjective_conjugation() {
    let filter = KuromojiBaseformFilter::new();
    let result = filter_term(&baseform(&filter), "美しく");
    assert!(
        result == "美しい" || result == "美しく",
        "expected base adjective form, got {}",
        result
    );
}

#[test]
fn already_base_form_passthrough() {
    let filter = KuromojiBaseformFilter::new();
    let result = filter_term(&baseform(&filter), "食べる");
    assert_eq!(result, "食べる");
}

#[test]
fn noun_passthrough() {
    let filter = KuromojiBaseformFilter::new();
    let result = filter_term(&baseform(&filter), "東京");
    assert_eq!(result, "東京");
}

#[test]
fn baseform_default_construction() {
    let filter = KuromojiBaseformFilter::default();
    let result = filter_term(&baseform(&filter), "東京");
    assert_eq!(result, "東京");
}

#[test]
fn kuromoji_comprehensive_ascii_passthrough() {
    let filter = KuromojiBaseformFilter::new();
    let result = filter_term(&baseform(&filter), "hello");
    assert_eq!(result, "hello");
}

// ═══════════════════════════════════════════════════════════════════════════════
// KuromojiPartOfSpeechFilter
// ═══════════════════════════════════════════════════════════════════════════════

#[test]
fn filters_particle() {
    let filter = KuromojiPartOfSpeechFilter::with_defaults();
    assert!(filter_deleted(&part_of_speech(&filter), "に"), "particle に should be removed");
}

#[test]
fn filters_auxiliary_verb() {
    let filter = KuromojiPartOfSpeechFilter::with_defaults();
    assert!(filter_deleted(&part_of_speech(&filter), "た"), "auxiliary verb た should be removed");
}

#[test]
fn keeps_noun() {
    let filter = KuromojiPartOfSpeechFilter::with_defaults();
    assert!(!filter_deleted(&part_of_speech(&filter), "東京"), "noun 東京 should be kept");
}

#[test]
fn part_of_speech_keeps_verb() {
    let filter = KuromojiPartOfSpeechFilter::with_defaults();
    assert!(!filter_deleted(&part_of_speech(&filter), "食べる"), "verb 食べる should be kept");
}

#[test]
fn keeps_adjective() {
    let filter = KuromojiPartOfSpeechFilter::with_defaults();
    assert!(
        !filter_deleted(&part_of_speech(&filter), "美しい"),
        "adjective 美しい should be kept"
    );
}

#[test]
fn custom_stop_tags() {
    let filter = KuromojiPartOfSpeechFilter::new(vec!["名詞".to_string()]);
    assert!(
        filter_deleted(&part_of_speech(&filter), "東京"),
        "noun should be removed with custom tags"
    );
}

#[test]
fn ascii_word_not_removed() {
    let filter = KuromojiPartOfSpeechFilter::with_defaults();
    assert!(
        !filter_deleted(&part_of_speech(&filter), "hello"),
        "ASCII word should not be removed by default POS filter"
    );
}

// ═══════════════════════════════════════════════════════════════════════════════
// KuromojiReadingformFilter
// ═══════════════════════════════════════════════════════════════════════════════

#[test]
fn katakana_mode_kanji_to_katakana() {
    let filter = KuromojiReadingformFilter::new(ReadingFormType::Katakana);
    let result = filter_term(&readingform(&filter), "東京");
    assert_eq!(result, "トウキョウ", "kanji should become katakana reading");
}

#[test]
fn romaji_mode_kanji_to_romaji() {
    let filter = KuromojiReadingformFilter::new(ReadingFormType::Romaji);
    let result = filter_term(&readingform(&filter), "東京");
    assert!(!result.is_empty() && result.is_ascii(), "should produce romaji, got: {}", result);
}

#[test]
fn katakana_passthrough() {
    let filter = KuromojiReadingformFilter::new(ReadingFormType::Katakana);
    let result = filter_term(&readingform(&filter), "コンピューター");
    assert!(
        result.chars().all(|c| c >= '\u{30A0}' && c <= '\u{30FF}' || c == 'ー'),
        "katakana input reading should be katakana, got: {}",
        result
    );
}

#[test]
fn readingform_ascii_passthrough() {
    let filter = KuromojiReadingformFilter::new(ReadingFormType::Katakana);
    let result = filter_term(&readingform(&filter), "hello");
    assert_eq!(result, "hello");
}

#[test]
fn romaji_for_hiragana_word() {
    let filter = KuromojiReadingformFilter::new(ReadingFormType::Romaji);
    let result = filter_term(&readingform(&filter), "ありがとう");
    let _ = result;
}

#[test]
fn reading_form_type_equality() {
    assert_eq!(ReadingFormType::Katakana, ReadingFormType::Katakana);
    assert_ne!(ReadingFormType::Katakana, ReadingFormType::Romaji);
}

// ═══════════════════════════════════════════════════════════════════════════════
// KuromojiStemmerFilter
// ═══════════════════════════════════════════════════════════════════════════════

#[test]
fn stems_trailing_long_vowel() {
    let filter = KuromojiStemmerFilter::new();
    let result = filter_term(&stemmer(&filter), "サーバー");
    assert_eq!(result, "サーバ", "should remove trailing ー");
}

#[test]
fn stems_computer() {
    let filter = KuromojiStemmerFilter::new();
    let result = filter_term(&stemmer(&filter), "コンピューター");
    assert_eq!(result, "コンピュータ");
}

#[test]
fn short_katakana_unchanged() {
    let filter = KuromojiStemmerFilter::new();
    let result = filter_term(&stemmer(&filter), "カー");
    assert_eq!(result, "カー", "short katakana should not be stemmed");
}

#[test]
fn three_char_katakana_unchanged() {
    let filter = KuromojiStemmerFilter::new();
    let result = filter_term(&stemmer(&filter), "ビアー");
    assert_eq!(result, "ビアー", "3-char katakana should not be stemmed");
}

#[test]
fn no_trailing_long_vowel() {
    let filter = KuromojiStemmerFilter::new();
    let result = filter_term(&stemmer(&filter), "コンピュータ");
    assert_eq!(result, "コンピュータ", "no trailing ー means no change");
}

#[test]
fn non_katakana_unchanged() {
    let filter = KuromojiStemmerFilter::new();
    let result = filter_term(&stemmer(&filter), "東京都庁");
    assert_eq!(result, "東京都庁", "kanji should not be stemmed");
}

#[test]
fn custom_min_length() {
    let filter = KuromojiStemmerFilter::with_min_length(2);
    let result = filter_term(&stemmer(&filter), "カー");
    assert_eq!(result, "カ", "with min_length=2, カー should stem to カ");
}

#[test]
fn kuromoji_comprehensive_default_construction() {
    let filter = KuromojiStemmerFilter::default();
    let result = filter_term(&stemmer(&filter), "サーバー");
    assert_eq!(result, "サーバ");
}

#[test]
fn ascii_unchanged() {
    let filter = KuromojiStemmerFilter::new();
    let result = filter_term(&stemmer(&filter), "server");
    assert_eq!(result, "server");
}

#[test]
fn mixed_script_unchanged() {
    let filter = KuromojiStemmerFilter::new();
    let result = filter_term(&stemmer(&filter), "サーバ東京");
    assert_eq!(result, "サーバ東京", "mixed script should not be stemmed");
}

// ═══════════════════════════════════════════════════════════════════════════════
// KuromojiNumberFilter
// ═══════════════════════════════════════════════════════════════════════════════

#[test]
fn kanji_one() {
    let filter = KuromojiNumberFilter::new();
    let result = filter_term(&number(&filter), "一");
    assert_eq!(result, "1");
}

#[test]
fn kanji_ten() {
    let filter = KuromojiNumberFilter::new();
    let result = filter_term(&number(&filter), "十");
    assert_eq!(result, "10");
}

#[test]
fn kanji_hundred() {
    let filter = KuromojiNumberFilter::new();
    let result = filter_term(&number(&filter), "百");
    assert_eq!(result, "100");
}

#[test]
fn kanji_thousand() {
    let filter = KuromojiNumberFilter::new();
    let result = filter_term(&number(&filter), "千");
    assert_eq!(result, "1000");
}

#[test]
fn kanji_compound_twelve() {
    let filter = KuromojiNumberFilter::new();
    let result = filter_term(&number(&filter), "十二");
    assert_eq!(result, "12");
}

#[test]
fn kanji_compound_hundred_twenty_three() {
    let filter = KuromojiNumberFilter::new();
    let result = filter_term(&number(&filter), "百二十三");
    assert_eq!(result, "123");
}

#[test]
fn kanji_three_hundred() {
    let filter = KuromojiNumberFilter::new();
    let result = filter_term(&number(&filter), "三百");
    assert_eq!(result, "300");
}

#[test]
fn fullwidth_digits() {
    let filter = KuromojiNumberFilter::new();
    let result = filter_term(&number(&filter), "３４");
    assert_eq!(result, "34");
}

#[test]
fn non_number_unchanged() {
    let filter = KuromojiNumberFilter::new();
    let result = filter_term(&number(&filter), "東京");
    assert_eq!(result, "東京");
}

#[test]
fn ascii_number_unchanged() {
    let filter = KuromojiNumberFilter::new();
    let result = filter_term(&number(&filter), "123");
    assert_eq!(result, "123", "ASCII numbers should pass through");
}

#[test]
fn kanji_zero() {
    let filter = KuromojiNumberFilter::new();
    let result = filter_term(&number(&filter), "〇");
    assert_eq!(result, "0");
}

#[test]
fn kanji_positional_style() {
    let filter = KuromojiNumberFilter::new();
    let result = filter_term(&number(&filter), "一二三");
    assert_eq!(result, "123");
}

// ═══════════════════════════════════════════════════════════════════════════════
// JapaneseStopFilter
// ═══════════════════════════════════════════════════════════════════════════════

#[test]
fn removes_particle_no() {
    let filter = JapaneseStopFilter::new();
    assert!(filter_deleted(&stop(&filter), "の"), "の should be a stop word");
}

#[test]
fn removes_particle_ha() {
    let filter = JapaneseStopFilter::new();
    assert!(filter_deleted(&stop(&filter), "は"), "は should be a stop word");
}

#[test]
fn removes_particle_ga() {
    let filter = JapaneseStopFilter::new();
    assert!(filter_deleted(&stop(&filter), "が"), "が should be a stop word");
}

#[test]
fn removes_particle_wo() {
    let filter = JapaneseStopFilter::new();
    assert!(filter_deleted(&stop(&filter), "を"), "を should be a stop word");
}

#[test]
fn removes_particle_ni() {
    let filter = JapaneseStopFilter::new();
    assert!(filter_deleted(&stop(&filter), "に"), "に should be a stop word");
}

#[test]
fn removes_de() {
    let filter = JapaneseStopFilter::new();
    assert!(filter_deleted(&stop(&filter), "で"), "で should be a stop word");
}

#[test]
fn keeps_content_word() {
    let filter = JapaneseStopFilter::new();
    assert!(!filter_deleted(&stop(&filter), "東京"), "content word should not be removed");
}

#[test]
fn kuromoji_comprehensive_keeps_verb() {
    let filter = JapaneseStopFilter::new();
    assert!(!filter_deleted(&stop(&filter), "食べる"), "verb should not be a stop word");
}

#[test]
fn custom_stop_words() {
    let filter = JapaneseStopFilter::with_words(vec!["カスタム".to_string(), "テスト".to_string()]);
    assert!(filter_deleted(&stop(&filter), "カスタム"));
    assert!(filter_deleted(&stop(&filter), "テスト"));
    assert!(!filter_deleted(&stop(&filter), "の"), "default words not in custom list");
}

#[test]
fn stop_default_construction() {
    let filter = JapaneseStopFilter::default();
    assert!(filter_deleted(&stop(&filter), "の"));
}

// ═══════════════════════════════════════════════════════════════════════════════
// JapaneseCompletionFilter
// ═══════════════════════════════════════════════════════════════════════════════

#[test]
fn index_mode_emits_extras_for_kanji() {
    let filter = JapaneseCompletionFilter::new(CompletionMode::Index);
    let (deleted, term, extras) = apply_filter(&completion(&filter), "東京");
    assert!(!deleted, "should not delete original token");
    assert_eq!(term, "東京", "original term preserved");
    assert!(!extras.is_empty(), "index mode should emit reading extras for kanji");
}

#[test]
fn index_mode_katakana_reading_present() {
    let filter = JapaneseCompletionFilter::new(CompletionMode::Index);
    let (_, _, extras) = apply_filter(&completion(&filter), "東京");
    let has_katakana = extras.iter().any(|e| e == "トウキョウ");
    assert!(has_katakana, "should contain katakana reading トウキョウ, got: {:?}", extras);
}

#[test]
fn index_mode_romaji_reading_present() {
    let filter = JapaneseCompletionFilter::new(CompletionMode::Index);
    let (_, _, extras) = apply_filter(&completion(&filter), "東京");
    let has_romaji = extras.iter().any(|e| e.is_ascii() && !e.is_empty());
    assert!(has_romaji, "should contain romaji reading, got: {:?}", extras);
}

#[test]
fn query_mode_passthrough() {
    let filter = JapaneseCompletionFilter::new(CompletionMode::Query);
    let (deleted, term, extras) = apply_filter(&completion(&filter), "東京");
    assert!(!deleted);
    assert_eq!(term, "東京");
    assert!(extras.is_empty(), "query mode should not emit extras");
}

#[test]
fn ascii_passthrough_index_mode() {
    let filter = JapaneseCompletionFilter::new(CompletionMode::Index);
    let (deleted, term, _extras) = apply_filter(&completion(&filter), "hello");
    assert!(!deleted);
    assert_eq!(term, "hello");
}

#[test]
fn completion_mode_equality() {
    assert_eq!(CompletionMode::Index, CompletionMode::Index);
    assert_ne!(CompletionMode::Index, CompletionMode::Query);
}

// ═══════════════════════════════════════════════════════════════════════════════
// Full pipeline: tokenizer(search) → baseform → part of speech → stop → stemmer
// ═══════════════════════════════════════════════════════════════════════════════

fn analyze(text: &str) -> Vec<String> {
    let tokenizer = KuromojiTokenizer::new(KuromojiMode::Search);
    let base = KuromojiBaseformFilter::new();
    let pos_filter = KuromojiPartOfSpeechFilter::with_defaults();
    let stop_filter = JapaneseStopFilter::new();
    let stem = KuromojiStemmerFilter::new();

    let base_f = baseform(&base);
    let pos_f = part_of_speech(&pos_filter);
    let stop_f = stop(&stop_filter);
    let stem_f = stemmer(&stem);
    let filters: Vec<Filter> = vec![&base_f, &pos_f, &stop_f, &stem_f];

    let mut tokens = tokenize(&tokenizer, text);
    let mut result = Vec::new();
    for token in &mut tokens {
        let mut deleted = false;
        for f in &filters {
            let (del, _extras) = f(token);
            if del {
                deleted = true;
                break;
            }
        }
        if !deleted {
            result.push(token.term.to_string());
        }
    }
    result
}

#[test]
fn full_pipeline_basic() {
    let result = analyze("東京都に行く");
    assert!(!result.is_empty(), "pipeline should produce tokens");
    assert!(!result.contains(&"に".to_string()), "particle に should be removed, got {:?}", result);
}

#[test]
fn full_pipeline_preserves_content() {
    let result = analyze("東京タワー");
    assert!(result.iter().any(|t| t.contains("東京")), "should preserve 東京 in {:?}", result);
}

#[test]
fn full_pipeline_stems_katakana() {
    let result = analyze("コンピューター");
    let has_stemmed = result.iter().any(|t| t == "コンピュータ");
    let has_original = result.iter().any(|t| t == "コンピューター");
    assert!(
        has_stemmed || has_original,
        "should have stemmed or original katakana, got {:?}",
        result
    );
}

#[test]
fn full_pipeline_removes_particles() {
    let result = analyze("猫は魚を食べる");
    assert!(!result.contains(&"は".to_string()), "は should be removed by pipeline, got {:?}", result);
    assert!(!result.contains(&"を".to_string()), "を should be removed by pipeline, got {:?}", result);
}
