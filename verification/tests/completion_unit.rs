use kuromoji_analysis::completion::katakana_to_romaji;
use kuromoji_analysis::{CompletionMode, JapaneseCompletionFilter, Morpheme, Token};

fn ipadic_word(surface: &str, features: &[&str]) -> Option<Vec<Morpheme>> {
    Some(vec![Morpheme {
        surface: surface.to_string(),
        byte_start: 0,
        byte_end: surface.len(),
        details: Some(features.iter().map(|s| s.to_string()).collect()),
        unknown: false,
    }])
}

#[test]
fn test_romaji_conversion_basic() {
    assert_eq!(katakana_to_romaji("トウキョウ"), "toukyou");
    assert_eq!(katakana_to_romaji("オオサカ"), "oosaka");
    assert_eq!(katakana_to_romaji("サッポロ"), "sapporo");
}

#[test]
fn test_romaji_combination_kana() {
    assert_eq!(katakana_to_romaji("シャチョウ"), "shachou");
    assert_eq!(katakana_to_romaji("キョウト"), "kyouto");
    assert_eq!(katakana_to_romaji("ジュウ"), "juu");
}

#[test]
fn test_romaji_long_vowel() {
    assert_eq!(katakana_to_romaji("コーヒー"), "koohii");
    assert_eq!(katakana_to_romaji("ラーメン"), "raamen");
}

#[test]
fn test_romaji_gemination() {
    assert_eq!(katakana_to_romaji("ニッポン"), "nippon");
    assert_eq!(katakana_to_romaji("サッカー"), "sakkaa");
}

#[test]
fn test_query_mode_passthrough() {
    let filter = JapaneseCompletionFilter::new(CompletionMode::Query);
    let mut token = Token::new("東京", 0, 6, 0);
    let analysis = ipadic_word(
        "東京",
        &["名詞", "固有名詞", "地域", "一般", "*", "*", "東京", "トウキョウ", "トーキョー"],
    );
    let (deleted, extras) = filter.filter(&mut token, &analysis);
    assert!(!deleted);
    assert!(extras.is_none());
    assert_eq!(token.term.as_str(), "東京");
}

#[test]
fn test_index_mode_emits_readings() {
    let filter = JapaneseCompletionFilter::new(CompletionMode::Index);
    let mut token = Token::new("東京", 0, 6, 0);
    let analysis = ipadic_word(
        "東京",
        &["名詞", "固有名詞", "地域", "一般", "*", "*", "東京", "トウキョウ", "トーキョー"],
    );
    let (deleted, extras) = filter.filter(&mut token, &analysis);
    assert!(!deleted);
    assert_eq!(token.term.as_str(), "東京");
    if let Some(extra_tokens) = extras {
        assert!(!extra_tokens.is_empty());
        for et in &extra_tokens {
            assert_eq!(et.position, token.position);
        }
    }
}

#[test]
fn test_ascii_passthrough() {
    let filter = JapaneseCompletionFilter::new(CompletionMode::Index);
    let mut token = Token::new("hello", 0, 5, 0);
    let analysis = ipadic_word("hello", &["名詞", "一般", "*", "*", "*", "*", "*"]);
    let (deleted, _extras) = filter.filter(&mut token, &analysis);
    assert!(!deleted);
    assert_eq!(token.term.as_str(), "hello");
}

#[test]
fn katakana_term_still_gets_its_romaji() {
    let filter = JapaneseCompletionFilter::new(CompletionMode::Index);
    let analysis = ipadic_word(
        "コーヒー",
        &["名詞", "一般", "*", "*", "*", "*", "コーヒー", "コーヒー", "コーヒー"],
    );
    assert_eq!(filter.get_katakana_reading("コーヒー", &analysis).as_deref(), Some("コーヒー"));
    let mut token = Token::new("コーヒー", 0, 4, 2);
    let (deleted, extras) = filter.filter(&mut token, &analysis);
    assert!(!deleted);
    assert_eq!(token.term, "コーヒー");
    let got: Vec<(String, u32, u32, u32)> = extras
        .unwrap()
        .into_iter()
        .map(|t| (t.term, t.start_offset, t.end_offset, t.position))
        .collect();
    assert_eq!(got, vec![("koohii".to_string(), 0, 4, 2)]);
}
