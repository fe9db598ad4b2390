# kuromoji_analysis

Japanese text analysis in the manner of Elasticsearch's `analysis-kuromoji`,
written in Verus.

- `src/` is the verified library: katakana romanization (`completion`,
  `readingform`), kanji numeral and fullwidth digit normalization (`number`),
  katakana stemming (`stemmer`), stop words (`stop`, on a hashbrown set in
  `word_set`), and what the tokenizer and the dictionary filters decide once
  an IPADIC morphological analysis is at hand (`tokenizer`, `baseform`,
  `part_of_speech`, `readingform`, `completion`, over the `Morpheme` model of
  `morpheme`).
- `app/` runs lindera's embedded IPADIC analysis, hands the morphemes to the
  library, and offers the components as tokenizer, token filters and analyzer
  of the pizza analysis engine.
- `tests/` exercises the library; dictionary-based filters are given
  IPADIC-like analyses.
