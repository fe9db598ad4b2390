//! Japanese morphological tokenization: segmentation modes, and the tokens
//! made of the morphemes of an analysis.
use vstd::prelude::*;
use vstd::string::StringSliceAdditionalSpecFns;
use vstd::utf8::{
    decode_utf8, decode_utf8_split, encode_utf8_decode_utf8, encode_utf8_valid_utf8,
    is_char_boundary,
};

use crate::morpheme::Morpheme;
use crate::text::{chars_of, push_char};
use crate::token::{token_views, Token, TokenView};

verus! {

/// Segmentation mode for Japanese morphological analysis.
#[derive(Debug, Clone, Copy, PartialEq, Eq, Structural)]
pub enum KuromojiMode {
    /// Standard segmentation, with no decomposition of compounds.
    Normal,
    /// Decomposes compounds, for better recall.
    Search,
    /// Like `Search`, with unigrams for unknown words.
    Extended,
}

/// The segmentation modes of the morphological analyzer: plain, or with
/// compounds decomposed.
#[derive(Debug, Clone, Copy, PartialEq, Eq, Structural)]
pub enum SegmentationMode {
    Normal,
    Decompose,
}

/// The analyzer mode for each tokenizer mode: `Search` and `Extended` both
/// decompose compounds.
pub open spec fn spec_segmentation_mode(mode: KuromojiMode) -> SegmentationMode {
    match mode {
        KuromojiMode::Normal => SegmentationMode::Normal,
        KuromojiMode::Search => SegmentationMode::Decompose,
        KuromojiMode::Extended => SegmentationMode::Decompose,
    }
}

impl KuromojiMode {
    /// The segmentation mode that the analyzer runs in for this mode.
    pub fn to_lindera_mode(self) -> (m: SegmentationMode)
        ensures
            m == spec_segmentation_mode(self),
    {
        match self {
            KuromojiMode::Normal => SegmentationMode::Normal,
            KuromojiMode::Search => SegmentationMode::Decompose,
            KuromojiMode::Extended => SegmentationMode::Decompose,
        }
    }
}

/// The number of characters in the first `byte` bytes of `text`.
pub open spec fn char_offset(text: &str, byte: int) -> int {
    decode_utf8(text.spec_bytes().subrange(0, byte)).len() as int
}

/// The token for a morpheme at position `p`: its surface as term, and the
/// character offsets of its byte range.  Offsets and positions are kept
/// modulo 2^32.
pub open spec fn morpheme_token(text: &str, m: Morpheme, p: int) -> TokenView {
    TokenView {
        term: m.surface@,
        start_offset: char_offset(text, m.byte_start as int) as u32,
        end_offset: char_offset(text, m.byte_end as int) as u32,
        position: p as u32,
    }
}

/// The tokens made of the morphemes of an analysis of `text`: one for each
/// morpheme with a non-empty surface, in order, with positions counting up
/// from zero.
pub open spec fn spec_tokens(text: &str, ms: Seq<Morpheme>) -> Seq<TokenView>
    decreases ms.len(),
{
    if ms.len() == 0 {
        Seq::empty()
    } else {
        let prev = spec_tokens(text, ms.drop_last());
        let m = ms.last();
        if m.surface@.len() == 0 {
            prev
        } else {
            prev.push(morpheme_token(text, m, prev.len() as int))
        }
    }
}

/// The one-character token for the character at index `c` of `text`, at
/// position `p`.
pub open spec fn unigram_token(text: &str, c: int, p: int) -> TokenView {
    TokenView {
        term: seq![text@[c]],
        start_offset: c as u32,
        end_offset: (c + 1) as u32,
        position: p as u32,
    }
}

/// The unigrams of a morpheme, from position `p`: one token for each
/// character of its range.
pub open spec fn unigram_tokens(text: &str, m: Morpheme, p: int) -> Seq<TokenView> {
    let cs = char_offset(text, m.byte_start as int);
    let ce = char_offset(text, m.byte_end as int);
    Seq::new(
        if cs < ce {
            (ce - cs) as nat
        } else {
            0
        },
        |j: int| unigram_token(text, cs + j, p + j),
    )
}

/// A morpheme of the decomposed analysis is a part of `m`: it is not empty
/// and lies within the byte range of `m`.
pub open spec fn is_part_of(d: Morpheme, m: Morpheme) -> bool {
    &&& d.surface@.len() > 0
    &&& m.byte_start <= d.byte_start
    &&& d.byte_end <= m.byte_end
}

/// The parts of `m` among the morphemes `ds` of the decomposed analysis,
/// in order.
pub open spec fn parts_within(m: Morpheme, ds: Seq<Morpheme>) -> Seq<Morpheme>
    decreases ds.len(),
{
    if ds.len() == 0 {
        Seq::empty()
    } else {
        let prev = parts_within(m, ds.drop_last());
        if is_part_of(ds.last(), m) {
            prev.push(ds.last())
        } else {
            prev
        }
    }
}

/// The tokens of a list of parts, from position `p`.
pub open spec fn part_tokens(text: &str, ps: Seq<Morpheme>, p: int) -> Seq<TokenView> {
    Seq::new(ps.len(), |k: int| morpheme_token(text, ps[k], p + k))
}

/// The tokens that one morpheme `m` of the plain analysis gives in the
/// decompounding modes, from position `p`: none for an empty surface; in
/// `Extended` mode, the unigrams of an unknown word; else, where the
/// decomposed analysis splits `m` into two parts or more, the parts and
/// then the whole compound; else `m` itself.
pub open spec fn decompounded_tokens(
    text: &str,
    m: Morpheme,
    ds: Seq<Morpheme>,
    extended: bool,
    p: int,
) -> Seq<TokenView> {
    if m.surface@.len() == 0 {
        Seq::empty()
    } else if extended && m.unknown {
        unigram_tokens(text, m, p)
    } else {
        let ps = parts_within(m, ds);
        if ps.len() >= 2 {
            part_tokens(text, ps, p).push(morpheme_token(text, m, p + ps.len()))
        } else {
            seq![morpheme_token(text, m, p)]
        }
    }
}

/// The tokens of `text` in the decompounding modes, given its plain
/// analysis `ms` and its decomposed analysis `ds`: those of each morpheme
/// of `ms` in turn, with positions counting up from zero.
pub open spec fn spec_search_tokens(
    text: &str,
    ms: Seq<Morpheme>,
    ds: Seq<Morpheme>,
    extended: bool,
) -> Seq<TokenView>
    decreases ms.len(),
{
    if ms.len() == 0 {
        Seq::empty()
    } else {
        let prev = spec_search_tokens(text, ms.drop_last(), ds, extended);
        prev + decompounded_tokens(text, ms.last(), ds, extended, prev.len() as int)
    }
}

/// The tokens of `text` in `mode`, given `analysis`, its plain analysis,
/// and `decomposed`, its analysis with compounds decomposed (read in the
/// `Search` and `Extended` modes only); none where an analysis that the
/// mode reads failed.
pub open spec fn spec_tokenize(
    text: &str,
    mode: KuromojiMode,
    analysis: Option<Vec<Morpheme>>,
    decomposed: Option<Vec<Morpheme>>,
) -> Seq<TokenView> {
    match analysis {
        None => Seq::empty(),
        Some(ms) => match mode {
            KuromojiMode::Normal => spec_tokens(text, ms@),
            _ => match decomposed {
                None => Seq::empty(),
                Some(ds) => spec_search_tokens(text, ms@, ds@, mode == KuromojiMode::Extended),
            },
        },
    }
}

/// Every non-empty morpheme has its byte range on character boundaries of
/// `text`.
pub open spec fn on_char_boundaries(text: &str, ms: Seq<Morpheme>) -> bool {
    forall|i: int|
        0 <= i < ms.len() && #[trigger] ms[i].surface@.len() > 0 ==> is_char_boundary(
            text.spec_bytes(),
            ms[i].byte_start as int,
        ) && is_char_boundary(text.spec_bytes(), ms[i].byte_end as int)
}

/// The analyses can be made into tokens in `mode`: the morphemes that the
/// mode reads lie on character boundaries, and there are at most
/// `u32::MAX` tokens.
pub open spec fn tokenize_fits(
    text: &str,
    mode: KuromojiMode,
    analysis: Option<Vec<Morpheme>>,
    decomposed: Option<Vec<Morpheme>>,
) -> bool {
    &&& analysis matches Some(ms) ==> {
        &&& on_char_boundaries(text, ms@)
        &&& mode != KuromojiMode::Normal ==> (decomposed matches Some(ds) ==> on_char_boundaries(
            text,
            ds@,
        ))
    }
    &&& spec_tokenize(text, mode, analysis, decomposed).len() <= u32::MAX
}

proof fn lemma_tokens_prefix(text: &str, ms: Seq<Morpheme>, k: int)
    requires
        0 <= k <= ms.len(),
    ensures
        spec_tokens(text, ms.take(k)).len() <= spec_tokens(text, ms).len(),
    decreases ms.len(),
{
    if k == ms.len() {
        assert(ms.take(k) =~= ms);
    } else {
        lemma_tokens_prefix(text, ms.drop_last(), k);
        assert(ms.drop_last().take(k) =~= ms.take(k));
    }
}

proof fn lemma_search_prefix(
    text: &str,
    ms: Seq<Morpheme>,
    ds: Seq<Morpheme>,
    extended: bool,
    k: int,
)
    requires
        0 <= k <= ms.len(),
    ensures
        spec_search_tokens(text, ms.take(k), ds, extended).len() <= spec_search_tokens(
            text,
            ms,
            ds,
            extended,
        ).len(),
    decreases ms.len(),
{
    if k == ms.len() {
        assert(ms.take(k) =~= ms);
    } else {
        lemma_search_prefix(text, ms.drop_last(), ds, extended, k);
        assert(ms.drop_last().take(k) =~= ms.take(k));
    }
}

proof fn lemma_parts_prefix(m: Morpheme, ds: Seq<Morpheme>, k: int)
    requires
        0 <= k <= ds.len(),
    ensures
        parts_within(m, ds.take(k)).len() <= parts_within(m, ds).len(),
    decreases ds.len(),
{
    if k == ds.len() {
        assert(ds.take(k) =~= ds);
    } else {
        lemma_parts_prefix(m, ds.drop_last(), k);
        assert(ds.drop_last().take(k) =~= ds.take(k));
    }
}

/// The parts of a morpheme lie on character boundaries where the decomposed
/// analysis does.
proof fn lemma_parts_on_boundaries(text: &str, m: Morpheme, ds: Seq<Morpheme>)
    requires
        on_char_boundaries(text, ds),
    ensures
        on_char_boundaries(text, parts_within(m, ds)),
        forall|i: int|
            0 <= i < parts_within(m, ds).len() ==> #[trigger] parts_within(m, ds)[i].surface@.len()
                > 0,
    decreases ds.len(),
{
    if ds.len() > 0 {
        let ps = parts_within(m, ds.drop_last());
        assert(on_char_boundaries(text, ds.drop_last())) by {
            assert forall|i: int|
                0 <= i < ds.drop_last().len() && #[trigger] ds.drop_last()[i].surface@.len()
                    > 0 implies is_char_boundary(
                text.spec_bytes(),
                ds.drop_last()[i].byte_start as int,
            ) && is_char_boundary(text.spec_bytes(), ds.drop_last()[i].byte_end as int) by {
                assert(ds[i].surface@.len() > 0);
            }
        }
        lemma_parts_on_boundaries(text, m, ds.drop_last());
        if is_part_of(ds.last(), m) {
            assert(ds[ds.len() - 1].surface@.len() > 0);
            let qs = ps.push(ds.last());
            assert forall|i: int| 0 <= i < qs.len() implies #[trigger] qs[i].surface@.len() > 0 by {
                if i < ps.len() {
                    assert(ps[i].surface@.len() > 0);
                }
            }
            assert forall|i: int|
                0 <= i < qs.len() && #[trigger] qs[i].surface@.len() > 0 implies is_char_boundary(
                text.spec_bytes(),
                qs[i].byte_start as int,
            ) && is_char_boundary(text.spec_bytes(), qs[i].byte_end as int) by {
                if i < ps.len() {
                    assert(ps[i].surface@.len() > 0);
                }
            }
        }
    }
}

/// The number of characters in the first `byte` bytes of `text`.
fn chars_before(text: &str, byte: usize) -> (n: usize)
    requires
        is_char_boundary(text.spec_bytes(), byte as int),
    ensures
        n == char_offset(text, byte as int),
{
    let (prefix, _rest) = text.split_at(byte);
    proof {
        encode_utf8_decode_utf8(prefix@);
        assert(prefix.spec_bytes() =~= text.spec_bytes().subrange(0, byte as int));
    }
    prefix.unicode_len()
}

/// Whether every non-empty morpheme lies on character boundaries of `text`.
fn boundaries_hold(text: &str, ms: &Vec<Morpheme>) -> (r: bool)
    ensures
        r == on_char_boundaries(text, ms@),
{
    let mut i: usize = 0;
    while i < ms.len()
        invariant
            i <= ms@.len(),
            forall|k: int|
                0 <= k < i && #[trigger] ms@[k].surface@.len() > 0 ==> is_char_boundary(
                    text.spec_bytes(),
                    ms@[k].byte_start as int,
                ) && is_char_boundary(text.spec_bytes(), ms@[k].byte_end as int),
        decreases ms@.len() - i,
    {
        let m = &ms[i];
        if !m.surface.as_str().is_empty() {
            assert(ms@[i as int].surface@.len() > 0);
            if !text.is_char_boundary(m.byte_start) || !text.is_char_boundary(m.byte_end) {
                return false;
            }
        }
        i = i + 1;
    }
    true
}

/// Appends the token of `m` at the next position.
fn push_morpheme_token(text: &str, m: &Morpheme, result: &mut Vec<Token>)
    requires
        is_char_boundary(text.spec_bytes(), m.byte_start as int),
        is_char_boundary(text.spec_bytes(), m.byte_end as int),
        old(result)@.len() <= u32::MAX,
    ensures
        token_views(final(result)@) == token_views(old(result)@).push(
            morpheme_token(text, *m, old(result)@.len() as int),
        ),
{
    let start_offset = chars_before(text, m.byte_start) as u32;
    let end_offset = chars_before(text, m.byte_end) as u32;
    let position = result.len() as u32;
    result.push(Token { term: m.surface.clone(), start_offset, end_offset, position });
    assert(token_views(result@) =~= token_views(old(result)@).push(
        morpheme_token(text, *m, old(result)@.len() as int),
    ));
}

/// The number of parts of `m` in the decomposed analysis.
fn count_parts(m: &Morpheme, ds: &Vec<Morpheme>) -> (n: usize)
    ensures
        n == parts_within(*m, ds@).len(),
{
    let mut n: usize = 0;
    let mut j: usize = 0;
    while j < ds.len()
        invariant
            j <= ds@.len(),
            n == parts_within(*m, ds@.take(j as int)).len(),
            n <= j,
        decreases ds@.len() - j,
    {
        let d = &ds[j];
        assert(ds@.take(j + 1).drop_last() =~= ds@.take(j as int));
        if !d.surface.as_str().is_empty() && m.byte_start <= d.byte_start && d.byte_end
            <= m.byte_end {
            n = n + 1;
        }
        j = j + 1;
    }
    assert(ds@.take(ds@.len() as int) =~= ds@);
    n
}

/// Appends the tokens of the parts of `m`, from the next position.
fn push_parts(text: &str, m: &Morpheme, ds: &Vec<Morpheme>, result: &mut Vec<Token>)
    requires
        on_char_boundaries(text, ds@),
        old(result)@.len() + parts_within(*m, ds@).len() <= u32::MAX,
    ensures
        token_views(final(result)@) == token_views(old(result)@) + part_tokens(
            text,
            parts_within(*m, ds@),
            old(result)@.len() as int,
        ),
{
    let ghost base = old(result)@.len() as int;
    let ghost before = token_views(old(result)@);
    let mut j: usize = 0;
    while j < ds.len()
        invariant
            j <= ds@.len(),
            on_char_boundaries(text, ds@),
            base + parts_within(*m, ds@).len() <= u32::MAX,
            token_views(result@) == before + part_tokens(
                text,
                parts_within(*m, ds@.take(j as int)),
                base,
            ),
            result@.len() == base + parts_within(*m, ds@.take(j as int)).len(),
        decreases ds@.len() - j,
    {
        let d = &ds[j];
        let ghost prev = parts_within(*m, ds@.take(j as int));
        assert(ds@.take(j + 1).drop_last() =~= ds@.take(j as int));
        assert(ds@.take(j + 1).last() == *d);
        proof {
            lemma_parts_prefix(*m, ds@, j + 1);
        }
        if !d.surface.as_str().is_empty() && m.byte_start <= d.byte_start && d.byte_end
            <= m.byte_end {
            assert(ds@[j as int].surface@.len() > 0);
            assert(parts_within(*m, ds@.take(j + 1)) == prev.push(*d));
            push_morpheme_token(text, d, result);
            assert(part_tokens(text, prev.push(*d), base) =~= part_tokens(text, prev, base).push(
                morpheme_token(text, *d, base + prev.len()),
            ));
            assert(token_views(result@) =~= before + part_tokens(
                text,
                parts_within(*m, ds@.take(j + 1)),
                base,
            ));
        } else {
            assert(parts_within(*m, ds@.take(j + 1)) == prev);
        }
        j = j + 1;
    }
    assert(ds@.take(ds@.len() as int) =~= ds@);
}

/// Appends the unigrams of `m`, from the next position.
fn push_unigrams(text: &str, chars: &Vec<char>, m: &Morpheme, result: &mut Vec<Token>)
    requires
        chars@ == text@,
        is_char_boundary(text.spec_bytes(), m.byte_start as int),
        is_char_boundary(text.spec_bytes(), m.byte_end as int),
        old(result)@.len() + unigram_tokens(text, *m, 0).len() <= u32::MAX,
    ensures
        token_views(final(result)@) == token_views(old(result)@) + unigram_tokens(
            text,
            *m,
            old(result)@.len() as int,
        ),
{
    let ghost base = old(result)@.len() as int;
    let ghost before = token_views(old(result)@);
    let cs = chars_before(text, m.byte_start);
    let ce = chars_before(text, m.byte_end);
    proof {
        lemma_char_offset_within_text(text, m.byte_start as int);
        lemma_char_offset_within_text(text, m.byte_end as int);
    }
    let mut c: usize = cs;
    while c < ce
        invariant
            cs <= c <= ce || ce <= cs == c,
            ce <= chars@.len(),
            chars@ == text@,
            cs == char_offset(text, m.byte_start as int),
            ce == char_offset(text, m.byte_end as int),
            base + unigram_tokens(text, *m, 0).len() <= u32::MAX,
            result@.len() == base + (c - cs),
            token_views(result@) == before + Seq::new(
                (c - cs) as nat,
                |j: int| unigram_token(text, cs + j, base + j),
            ),
        decreases ce - c,
    {
        let mut term = String::new();
        push_char(&mut term, chars[c]);
        assert(term@ =~= seq![text@[c as int]]);
        let position = result.len() as u32;
        let ghost views = token_views(result@);
        let tok = Token { term, start_offset: c as u32, end_offset: (c + 1) as u32, position };
        assert(tok@ == unigram_token(text, cs + (c - cs), base + (c - cs)));
        result.push(tok);
        assert(token_views(result@) =~= views.push(tok@));
        assert(token_views(result@) =~= before + Seq::new(
            (c + 1 - cs) as nat,
            |j: int| unigram_token(text, cs + j, base + j),
        ));
        c = c + 1;
    }
    assert(token_views(result@) =~= before + unigram_tokens(text, *m, base));
}

/// The tokens of `text` in the decompounding modes.
fn search_tokens(text: &str, ms: &Vec<Morpheme>, ds: &Vec<Morpheme>, extended: bool) -> (r: Vec<
    Token,
>)
    requires
        on_char_boundaries(text, ms@),
        on_char_boundaries(text, ds@),
        spec_search_tokens(text, ms@, ds@, extended).len() <= u32::MAX,
    ensures
        token_views(r@) == spec_search_tokens(text, ms@, ds@, extended),
{
    let chars = chars_of(text);
    let mut result: Vec<Token> = Vec::new();
    let mut i: usize = 0;
    while i < ms.len()
        invariant
            i <= ms@.len(),
            chars@ == text@,
            on_char_boundaries(text, ms@),
            on_char_boundaries(text, ds@),
            spec_search_tokens(text, ms@, ds@, extended).len() <= u32::MAX,
            token_views(result@) == spec_search_tokens(text, ms@.take(i as int), ds@, extended),
        decreases ms@.len() - i,
    {
        let m = &ms[i];
        let ghost prev = token_views(result@);
        assert(ms@.take(i + 1).drop_last() =~= ms@.take(i as int));
        proof {
            lemma_search_prefix(text, ms@, ds@, extended, i + 1);
        }
        assert(spec_search_tokens(text, ms@.take(i + 1), ds@, extended) == prev
            + decompounded_tokens(text, *m, ds@, extended, prev.len() as int));
        if !m.surface.as_str().is_empty() {
            assert(ms@[i as int].surface@.len() > 0);
            if extended && m.unknown {
                push_unigrams(text, &chars, m, &mut result);
            } else {
                let n = count_parts(m, ds);
                if n >= 2 {
                    push_parts(text, m, ds, &mut result);
                }
                assert(token_views(result@).len() == result@.len());
                assert(result@.len() < prev.len() + decompounded_tokens(
                    text,
                    *m,
                    ds@,
                    extended,
                    prev.len() as int,
                ).len());
                push_morpheme_token(text, m, &mut result);
            }
        }
        assert(token_views(result@) =~= spec_search_tokens(
            text,
            ms@.take(i + 1),
            ds@,
            extended,
        ));
        i = i + 1;
    }
    assert(ms@.take(ms@.len() as int) =~= ms@);
    result
}

/// The tokens of `text` in the plain mode.
fn plain_tokens(text: &str, ms: &Vec<Morpheme>) -> (r: Vec<Token>)
    requires
        on_char_boundaries(text, ms@),
        spec_tokens(text, ms@).len() <= u32::MAX,
    ensures
        token_views(r@) == spec_tokens(text, ms@),
{
    let mut result: Vec<Token> = Vec::new();
    let mut i: usize = 0;
    while i < ms.len()
        invariant
            i <= ms@.len(),
            on_char_boundaries(text, ms@),
            spec_tokens(text, ms@).len() <= u32::MAX,
            token_views(result@) == spec_tokens(text, ms@.take(i as int)),
        decreases ms@.len() - i,
    {
        let m = &ms[i];
        assert(ms@.take(i + 1).drop_last() =~= ms@.take(i as int));
        proof {
            lemma_tokens_prefix(text, ms@, i + 1);
        }
        if !m.surface.as_str().is_empty() {
            assert(ms@[i as int].surface@.len() > 0);
            push_morpheme_token(text, m, &mut result);
        }
        assert(token_views(result@) =~= spec_tokens(text, ms@.take(i + 1)));
        i = i + 1;
    }
    assert(ms@.take(ms@.len() as int) =~= ms@);
    result
}

/// Whether there are at most `u32::MAX` tokens in the plain mode.
fn plain_count_fits(text: &str, ms: &Vec<Morpheme>) -> (r: bool)
    ensures
        r == (spec_tokens(text, ms@).len() <= u32::MAX),
{
    let mut count: usize = 0;
    let mut i: usize = 0;
    while i < ms.len()
        invariant
            i <= ms@.len(),
            count == spec_tokens(text, ms@.take(i as int)).len(),
            count <= i,
        decreases ms@.len() - i,
    {
        assert(ms@.take(i + 1).drop_last() =~= ms@.take(i as int));
        if !ms[i].surface.as_str().is_empty() {
            count = count + 1;
        }
        i = i + 1;
    }
    assert(ms@.take(ms@.len() as int) =~= ms@);
    count <= 0xffff_ffffusize
}

/// Whether there are at most `u32::MAX` tokens in the decompounding modes.
fn search_count_fits(text: &str, ms: &Vec<Morpheme>, ds: &Vec<Morpheme>, extended: bool) -> (r:
    bool)
    requires
        on_char_boundaries(text, ms@),
    ensures
        r == (spec_search_tokens(text, ms@, ds@, extended).len() <= u32::MAX),
{
    let limit: usize = 0xffff_ffff;
    let mut count: usize = 0;
    let mut i: usize = 0;
    while i < ms.len()
        invariant
            i <= ms@.len(),
            limit == u32::MAX,
            on_char_boundaries(text, ms@),
            count == spec_search_tokens(text, ms@.take(i as int), ds@, extended).len(),
            count <= limit,
        decreases ms@.len() - i,
    {
        let m = &ms[i];
        assert(ms@.take(i + 1).drop_last() =~= ms@.take(i as int));
        proof {
            lemma_search_prefix(text, ms@, ds@, extended, i + 1);
        }
        let ghost p = count as int;
        if !m.surface.as_str().is_empty() {
            assert(ms@[i as int].surface@.len() > 0);
            let k: usize = if extended && m.unknown {
                let cs = chars_before(text, m.byte_start);
                let ce = chars_before(text, m.byte_end);
                if cs < ce {
                    ce - cs
                } else {
                    0
                }
            } else {
                let n = count_parts(m, ds);
                if n >= 2 {
                    if n >= limit - count {
                        return false;
                    }
                    n + 1
                } else {
                    1
                }
            };
            assert(k == decompounded_tokens(text, *m, ds@, extended, p).len());
            if k > limit - count {
                return false;
            }
            count = count + k;
        }
        assert(count == spec_search_tokens(text, ms@.take(i + 1), ds@, extended).len());
        i = i + 1;
    }
    assert(ms@.take(ms@.len() as int) =~= ms@);
    true
}

/// Japanese morphological tokenizer, in one of three segmentation modes.
#[derive(Debug, Clone, Copy)]
pub struct KuromojiTokenizer {
    mode: KuromojiMode,
}

impl KuromojiTokenizer {
    pub closed spec fn spec_mode(&self) -> KuromojiMode {
        self.mode
    }

    pub fn new(mode: KuromojiMode) -> (t: Self)
        ensures
            t.spec_mode() == mode,
    {
        KuromojiTokenizer { mode }
    }

    /// The segmentation mode.
    pub fn mode(&self) -> (m: KuromojiMode)
        ensures
            m == self.spec_mode(),
    {
        self.mode
    }

    /// Whether the tokens of `text` can be made from `analysis` and
    /// `decomposed` in this tokenizer's mode: the condition under which
    /// `tokenize` may be called.
    pub fn analysis_fits(
        &self,
        text: &str,
        analysis: &Option<Vec<Morpheme>>,
        decomposed: &Option<Vec<Morpheme>>,
    ) -> (r: bool)
        ensures
            r == tokenize_fits(text, self.spec_mode(), *analysis, *decomposed),
    {
        let ms = match analysis {
            Some(ms) => ms,
            None => {
                return true;
            },
        };
        if !boundaries_hold(text, ms) {
            return false;
        }
        match self.mode {
            KuromojiMode::Normal => plain_count_fits(text, ms),
            _ => {
                let ds = match decomposed {
                    Some(ds) => ds,
                    None => {
                        return true;
                    },
                };
                if !boundaries_hold(text, ds) {
                    return false;
                }
                search_count_fits(text, ms, ds, self.mode == KuromojiMode::Extended)
            },
        }
    }

    /// The tokens of `text` in this tokenizer's mode, given `analysis`, the
    /// plain analysis of `text`, and `decomposed`, its analysis with
    /// compounds decomposed.  In the `Search` and `Extended` modes each
    /// compound comes with its parts; in the `Extended` mode unknown words
    /// come as unigrams.
    pub fn tokenize(
        &self,
        text: &str,
        analysis: &Option<Vec<Morpheme>>,
        decomposed: &Option<Vec<Morpheme>>,
    ) -> (r: Vec<Token>)
        requires
            tokenize_fits(text, self.spec_mode(), *analysis, *decomposed),
        ensures
            token_views(r@) == spec_tokenize(text, self.spec_mode(), *analysis, *decomposed),
    {
        let ms = match analysis {
            Some(ms) => ms,
            None => {
                let empty: Vec<Token> = Vec::new();
                assert(token_views(empty@) =~= Seq::<TokenView>::empty());
                return empty;
            },
        };
        match self.mode {
            KuromojiMode::Normal => plain_tokens(text, ms),
            _ => match decomposed {
                Some(ds) => search_tokens(text, ms, ds, self.mode == KuromojiMode::Extended),
                None => {
                    let empty: Vec<Token> = Vec::new();
                    assert(token_views(empty@) =~= Seq::<TokenView>::empty());
                    empty
                },
            },
        }
    }
}

/// A character boundary lies within the text's characters.
proof fn lemma_char_offset_within_text(text: &str, byte: int)
    requires
        is_char_boundary(text.spec_bytes(), byte),
    ensures
        0 <= char_offset(text, byte) <= text@.len(),
{
    let bytes = text.spec_bytes();
    encode_utf8_valid_utf8(text@);
    decode_utf8_split(bytes, byte);
    encode_utf8_decode_utf8(text@);
}

proof fn lemma_plain_positions(text: &str, ms: Seq<Morpheme>)
    requires
        spec_tokens(text, ms).len() <= u32::MAX,
    ensures
        forall|i: int|
            0 <= i < spec_tokens(text, ms).len() ==> #[trigger] spec_tokens(text, ms)[i].position
                == i,
    decreases ms.len(),
{
    if ms.len() > 0 {
        lemma_plain_positions(text, ms.drop_last());
    }
}

proof fn lemma_search_positions(text: &str, ms: Seq<Morpheme>, ds: Seq<Morpheme>, extended: bool)
    requires
        spec_search_tokens(text, ms, ds, extended).len() <= u32::MAX,
    ensures
        forall|i: int|
            0 <= i < spec_search_tokens(text, ms, ds, extended).len() ==> #[trigger] spec_search_tokens(
                text,
                ms,
                ds,
                extended,
            )[i].position == i,
    decreases ms.len(),
{
    if ms.len() > 0 {
        let prev = spec_search_tokens(text, ms.drop_last(), ds, extended);
        let p = prev.len() as int;
        let dec = decompounded_tokens(text, ms.last(), ds, extended, p);
        let all = spec_search_tokens(text, ms, ds, extended);
        lemma_search_positions(text, ms.drop_last(), ds, extended);
        assert forall|k: int| 0 <= k < dec.len() implies #[trigger] dec[k].position == p + k by {
            let m = ms.last();
            if m.surface@.len() > 0 && !(extended && m.unknown) {
                let ps = parts_within(m, ds);
                if ps.len() >= 2 && k < ps.len() {
                    assert(dec[k] == part_tokens(text, ps, p)[k]);
                }
            }
        }
        assert forall|i: int| 0 <= i < all.len() implies #[trigger] all[i].position == i by {
            if i >= p {
                assert(all[i] == dec[i - p]);
            } else {
                assert(all[i] == prev[i]);
            }
        }
    }
}

/// Positions run from zero, one per token, in order, in every mode.
pub proof fn lemma_positions_sequential(
    text: &str,
    mode: KuromojiMode,
    analysis: Option<Vec<Morpheme>>,
    decomposed: Option<Vec<Morpheme>>,
)
    requires
        tokenize_fits(text, mode, analysis, decomposed),
    ensures
        forall|i: int|
            0 <= i < spec_tokenize(text, mode, analysis, decomposed).len() ==> #[trigger] spec_tokenize(
                text,
                mode,
                analysis,
                decomposed,
            )[i].position == i,
{
    match analysis {
        Some(ms) => match mode {
            KuromojiMode::Normal => lemma_plain_positions(text, ms@),
            _ => match decomposed {
                Some(ds) => lemma_search_positions(
                    text,
                    ms@,
                    ds@,
                    mode == KuromojiMode::Extended,
                ),
                None => {},
            },
        },
        None => {},
    }
}

proof fn lemma_boundaries_drop_last(text: &str, ms: Seq<Morpheme>)
    requires
        ms.len() > 0,
        on_char_boundaries(text, ms),
    ensures
        on_char_boundaries(text, ms.drop_last()),
{
    assert forall|i: int|
        0 <= i < ms.drop_last().len() && #[trigger] ms.drop_last()[i].surface@.len() > 0 implies is_char_boundary(
        text.spec_bytes(),
        ms.drop_last()[i].byte_start as int,
    ) && is_char_boundary(text.spec_bytes(), ms.drop_last()[i].byte_end as int) by {
        assert(ms[i].surface@.len() > 0);
    }
}

/// Offsets of a token in range: both within the text's characters.
pub open spec fn offsets_within(t: TokenView, len: int) -> bool {
    t.start_offset <= len && t.end_offset <= len
}

proof fn lemma_morpheme_token_within(text: &str, m: Morpheme, p: int)
    requires
        is_char_boundary(text.spec_bytes(), m.byte_start as int),
        is_char_boundary(text.spec_bytes(), m.byte_end as int),
        text@.len() <= u32::MAX,
    ensures
        offsets_within(morpheme_token(text, m, p), text@.len() as int),
{
    lemma_char_offset_within_text(text, m.byte_start as int);
    lemma_char_offset_within_text(text, m.byte_end as int);
}

proof fn lemma_plain_offsets(text: &str, ms: Seq<Morpheme>)
    requires
        on_char_boundaries(text, ms),
        text@.len() <= u32::MAX,
    ensures
        forall|i: int|
            0 <= i < spec_tokens(text, ms).len() ==> offsets_within(
                #[trigger] spec_tokens(text, ms)[i],
                text@.len() as int,
            ),
    decreases ms.len(),
{
    if ms.len() > 0 {
        lemma_boundaries_drop_last(text, ms);
        lemma_plain_offsets(text, ms.drop_last());
        let m = ms.last();
        if m.surface@.len() > 0 {
            assert(ms[ms.len() - 1].surface@.len() > 0);
            lemma_morpheme_token_within(text, m, spec_tokens(text, ms.drop_last()).len() as int);
        }
    }
}

proof fn lemma_decompounded_offsets(
    text: &str,
    m: Morpheme,
    ds: Seq<Morpheme>,
    extended: bool,
    p: int,
)
    requires
        m.surface@.len() > 0 ==> is_char_boundary(text.spec_bytes(), m.byte_start as int)
            && is_char_boundary(text.spec_bytes(), m.byte_end as int),
        on_char_boundaries(text, ds),
        text@.len() <= u32::MAX,
    ensures
        forall|k: int|
            0 <= k < decompounded_tokens(text, m, ds, extended, p).len() ==> offsets_within(
                #[trigger] decompounded_tokens(text, m, ds, extended, p)[k],
                text@.len() as int,
            ),
{
    let dec = decompounded_tokens(text, m, ds, extended, p);
    if m.surface@.len() > 0 {
        lemma_morpheme_token_within(text, m, p);
        if extended && m.unknown {
            lemma_char_offset_within_text(text, m.byte_end as int);
        } else {
            let ps = parts_within(m, ds);
            lemma_parts_on_boundaries(text, m, ds);
            lemma_morpheme_token_within(text, m, p + ps.len());
            if ps.len() >= 2 {
                assert forall|k: int| 0 <= k < dec.len() implies offsets_within(
                    #[trigger] dec[k],
                    text@.len() as int,
                ) by {
                    if k < ps.len() {
                        assert(ps[k].surface@.len() > 0);
                        lemma_morpheme_token_within(text, ps[k], p + k);
                        assert(dec[k] == part_tokens(text, ps, p)[k]);
                    }
                }
            }
        }
    }
}

proof fn lemma_search_offsets(text: &str, ms: Seq<Morpheme>, ds: Seq<Morpheme>, extended: bool)
    requires
        on_char_boundaries(text, ms),
        on_char_boundaries(text, ds),
        text@.len() <= u32::MAX,
    ensures
        forall|i: int|
            0 <= i < spec_search_tokens(text, ms, ds, extended).len() ==> offsets_within(
                #[trigger] spec_search_tokens(text, ms, ds, extended)[i],
                text@.len() as int,
            ),
    decreases ms.len(),
{
    if ms.len() > 0 {
        let prev = spec_search_tokens(text, ms.drop_last(), ds, extended);
        let p = prev.len() as int;
        let m = ms.last();
        let dec = decompounded_tokens(text, m, ds, extended, p);
        let all = spec_search_tokens(text, ms, ds, extended);
        lemma_boundaries_drop_last(text, ms);
        lemma_search_offsets(text, ms.drop_last(), ds, extended);
        if m.surface@.len() > 0 {
            assert(ms[ms.len() - 1].surface@.len() > 0);
        }
        lemma_decompounded_offsets(text, m, ds, extended, p);
        assert forall|i: int| 0 <= i < all.len() implies offsets_within(
            #[trigger] all[i],
            text@.len() as int,
        ) by {
            if i >= p {
                assert(all[i] == dec[i - p]);
            } else {
                assert(all[i] == prev[i]);
            }
        }
    }
}

/// Offsets count characters: in every mode, no token starts or ends beyond
/// the text's last character.
pub proof fn lemma_offsets_within_text(
    text: &str,
    mode: KuromojiMode,
    analysis: Option<Vec<Morpheme>>,
    decomposed: Option<Vec<Morpheme>>,
)
    requires
        tokenize_fits(text, mode, analysis, decomposed),
        text@.len() <= u32::MAX,
    ensures
        forall|i: int|
            0 <= i < spec_tokenize(text, mode, analysis, decomposed).len() ==> offsets_within(
                #[trigger] spec_tokenize(text, mode, analysis, decomposed)[i],
                text@.len() as int,
            ),
{
    match analysis {
        Some(ms) => match mode {
            KuromojiMode::Normal => lemma_plain_offsets(text, ms@),
            _ => match decomposed {
                Some(ds) => lemma_search_offsets(text, ms@, ds@, mode == KuromojiMode::Extended),
                None => {},
            },
        },
        None => {},
    }
}

/// `Extended` mode is `Search` mode where the plain analysis finds no
/// unknown word.
pub proof fn lemma_extended_is_search_without_unknown(
    text: &str,
    analysis: Option<Vec<Morpheme>>,
    decomposed: Option<Vec<Morpheme>>,
)
    requires
        analysis matches Some(ms) ==> forall|i: int| 0 <= i < ms@.len() ==> !(#[trigger] ms@[i]).unknown,
    ensures
        spec_tokenize(text, KuromojiMode::Extended, analysis, decomposed) == spec_tokenize(
            text,
            KuromojiMode::Search,
            analysis,
            decomposed,
        ),
{
    if let (Some(ms), Some(ds)) = (analysis, decomposed) {
        lemma_search_extended_agree(text, ms@, ds@);
    }
}

proof fn lemma_search_extended_agree(text: &str, ms: Seq<Morpheme>, ds: Seq<Morpheme>)
    requires
        forall|i: int| 0 <= i < ms.len() ==> !(#[trigger] ms[i]).unknown,
    ensures
        spec_search_tokens(text, ms, ds, true) == spec_search_tokens(text, ms, ds, false),
    decreases ms.len(),
{
    if ms.len() > 0 {
        assert(!ms[ms.len() - 1].unknown);
        lemma_search_extended_agree(text, ms.drop_last(), ds);
    }
}

} // verus!
