//! Part-of-speech stop filter: removes tokens by their part of speech.
use vstd::prelude::*;

use crate::morpheme::Morpheme;
use crate::stop::str_set;
use crate::text::{chars_of, starts_with, string_from_chars, strings_of};
use crate::token::Token;
use crate::word_set::{
    word_set_clone, word_set_contents, word_set_from, word_set_words, words_set, WordSet,
};

verus! {

/// The default stop tags: function words that add little to a search.
pub open spec fn spec_default_stop_tags() -> Seq<&'static str> {
    seq!["助詞", "助動詞", "接続詞", "記号", "フィラー", "非言語音"]
}

/// The default stop tags.
pub fn default_stop_tags() -> (v: Vec<&'static str>)
    ensures
        v@ == spec_default_stop_tags(),
{
    vec!["助詞", "助動詞", "接続詞", "記号", "フィラー", "非言語音"]
}

/// The default stop tags, letter by letter: particles (助詞), auxiliary
/// verbs (助動詞), conjunctions (接続詞), symbols (記号), fillers (フィラー)
/// and non-verbal sounds (非言語音).
pub open spec fn default_stop_tag_chars() -> Seq<Seq<char>> {
    seq![
        seq!['助', '詞'],
        seq!['助', '動', '詞'],
        seq!['接', '続', '詞'],
        seq!['記', '号'],
        seq!['フ', 'ィ', 'ラ', 'ー'],
        seq!['非', '言', '語', '音'],
    ]
}

/// The default stop tags are exactly the six parts of speech of
/// `default_stop_tag_chars`.
pub proof fn lemma_default_stop_tags_are()
    ensures
        str_set(spec_default_stop_tags()) == default_stop_tag_chars().to_set(),
{
    reveal_strlit("助詞");
    reveal_strlit("助動詞");
    reveal_strlit("接続詞");
    reveal_strlit("記号");
    reveal_strlit("フィラー");
    reveal_strlit("非言語音");
    let list = spec_default_stop_tags();
    let chars = default_stop_tag_chars();
    assert(list.len() == chars.len());
    assert forall|i: int| 0 <= i < list.len() implies #[trigger] list[i]@ == chars[i] by {
        if i == 0 {
            assert(list[i] == "助詞");
        } else if i == 1 {
            assert(list[i] == "助動詞");
        } else if i == 2 {
            assert(list[i] == "接続詞");
        } else if i == 3 {
            assert(list[i] == "記号");
        } else if i == 4 {
            assert(list[i] == "フィラー");
        } else if i == 5 {
            assert(list[i] == "非言語音");
        }
    }
    assert forall|w: Seq<char>| str_set(list).contains(w) <==> chars.to_set().contains(w) by {
        if str_set(list).contains(w) {
            let i = choose|i: int| 0 <= i < list.len() && #[trigger] list[i]@ == w;
            assert(chars[i] == w);
        }
        if chars.to_set().contains(w) {
            let i = choose|i: int| 0 <= i < chars.len() && chars[i] == w;
            assert(list[i]@ == w);
        }
    }
    assert(str_set(list) =~= chars.to_set());
}

/// The parts joined by commas.
pub open spec fn comma_join(parts: Seq<Seq<char>>) -> Seq<char>
    decreases parts.len(),
{
    if parts.len() == 0 {
        Seq::empty()
    } else if parts.len() == 1 {
        parts[0]
    } else {
        comma_join(parts.drop_last()) + seq![','] + parts.last()
    }
}

/// The part-of-speech tag of a morpheme: its first four features (fewer if
/// it has fewer) joined by commas, as in 名詞,一般,*,*.
pub open spec fn pos_tag(details: Seq<String>) -> Seq<char> {
    let n = if details.len() < 4 {
        details.len() as int
    } else {
        4
    };
    comma_join(details.take(n).map_values(|d: String| d@))
}

/// Whether a token goes, given the analysis of its term: the analysis
/// found exactly one morpheme, which has features, and some stop tag is a
/// prefix of its part-of-speech tag.
pub open spec fn spec_should_remove(stop_tags: Set<Seq<char>>, analysis: Option<Vec<Morpheme>>) -> bool {
    match analysis {
        Some(ms) => ms@.len() == 1 && match ms@[0].details {
            Some(d) => exists|tag: Seq<char>| #[trigger]
                stop_tags.contains(tag) && tag.is_prefix_of(pos_tag(d@)),
            None => false,
        },
        None => false,
    }
}

/// The part-of-speech tag of a morpheme's features.
pub fn join_pos_tag(details: &Vec<String>) -> (r: String)
    ensures
        r@ == pos_tag(details@),
{
    let n: usize = if details.len() < 4 {
        details.len()
    } else {
        4
    };
    let ghost parts = details@.take(n as int).map_values(|d: String| d@);
    let mut out: Vec<char> = Vec::new();
    let mut i: usize = 0;
    while i < n
        invariant
            n <= details@.len(),
            i <= n,
            parts == details@.take(n as int).map_values(|d: String| d@),
            out@ == comma_join(parts.take(i as int)),
        decreases n - i,
    {
        let piece = chars_of(details[i].as_str());
        let ghost before = out@;
        if i > 0 {
            out.push(',');
        }
        let mut j: usize = 0;
        while j < piece.len()
            invariant
                j <= piece@.len(),
                out@ == (if i > 0 {
                    before + seq![',']
                } else {
                    before
                }) + piece@.take(j as int),
            decreases piece@.len() - j,
        {
            out.push(piece[j]);
            assert(piece@.take(j + 1) =~= piece@.take(j as int).push(piece@[j as int]));
            j = j + 1;
        }
        assert(piece@.take(piece@.len() as int) =~= piece@);
        assert(parts.take(i + 1).drop_last() =~= parts.take(i as int));
        assert(parts[i as int] == details@[i as int]@);
        if i == 0 {
            assert(before =~= Seq::<char>::empty());
            assert(out@ =~= parts.take(1)[0]);
        }
        i = i + 1;
    }
    assert(parts.take(n as int) =~= parts);
    string_from_chars(&out)
}

/// Removes tokens whose part of speech matches one of the stop tags.  A
/// tag matches by prefix: 助詞 matches 助詞,格助詞,一般.
pub struct KuromojiPartOfSpeechFilter {
    stop_tags: WordSet,
}

impl KuromojiPartOfSpeechFilter {
    /// The stop tags of this filter.
    pub closed spec fn spec_stop_tags(&self) -> Set<Seq<char>> {
        word_set_contents(self.stop_tags)
    }

    /// A filter with the given stop tags.
    pub fn new(stop_tags: Vec<String>) -> (f: Self)
        ensures
            f.spec_stop_tags() == words_set(stop_tags@),
    {
        KuromojiPartOfSpeechFilter { stop_tags: word_set_from(&stop_tags) }
    }

    /// A filter with the default stop tags.
    pub fn with_defaults() -> (f: Self)
        ensures
            f.spec_stop_tags() == str_set(spec_default_stop_tags()),
            f.spec_stop_tags() == default_stop_tag_chars().to_set(),
    {
        proof {
            lemma_default_stop_tags_are();
        }
        let list = default_stop_tags();
        let tags = strings_of(&list);
        let f = Self::new(tags);
        assert(words_set(tags@) =~= str_set(list@)) by {
            assert forall|w: Seq<char>| str_set(list@).contains(w) implies words_set(
                tags@,
            ).contains(w) by {
                let k = choose|k: int| 0 <= k < list@.len() && #[trigger] list@[k]@ == w;
                assert(tags@[k]@ == w);
            }
        }
        f
    }

    /// Whether a token goes, given `analysis`, the analysis of its term.
    pub fn should_remove(&self, analysis: &Option<Vec<Morpheme>>) -> (r: bool)
        ensures
            r == spec_should_remove(self.spec_stop_tags(), *analysis),
    {
        let ms = match analysis {
            Some(ms) => ms,
            None => {
                return false;
            },
        };
        if ms.len() != 1 {
            return false;
        }
        let details = match &ms[0].details {
            Some(d) => d,
            None => {
                return false;
            },
        };
        let pos = join_pos_tag(details);
        let tags = word_set_words(&self.stop_tags);
        let ghost removed = exists|tag: Seq<char>| #[trigger]
            self.spec_stop_tags().contains(tag) && tag.is_prefix_of(pos@);
        assert(spec_should_remove(self.spec_stop_tags(), *analysis) == removed);
        let mut i: usize = 0;
        while i < tags.len()
            invariant
                i <= tags@.len(),
                pos@ == pos_tag(details@),
                spec_should_remove(self.spec_stop_tags(), *analysis) == removed,
                removed == exists|tag: Seq<char>| #[trigger]
                    self.spec_stop_tags().contains(tag) && tag.is_prefix_of(pos@),
                forall|k: int| 0 <= k < i ==> !(#[trigger] tags@[k]@).is_prefix_of(pos@),
                forall|k: int|
                    0 <= k < tags@.len() ==> word_set_contents(self.stop_tags).contains(
                        #[trigger] tags@[k]@,
                    ),
                forall|w: Seq<char>|
                    word_set_contents(self.stop_tags).contains(w) ==> exists|k: int|
                        0 <= k < tags@.len() && #[trigger] tags@[k]@ == w,
            decreases tags@.len() - i,
        {
            if starts_with(pos.as_str(), tags[i].as_str()) {
                let ghost tag = tags@[i as int]@;
                assert(self.spec_stop_tags().contains(tag));
                return true;
            }
            i = i + 1;
        }
        proof {
            assert forall|tag: Seq<char>| #[trigger]
                self.spec_stop_tags().contains(tag) implies !tag.is_prefix_of(pos@) by {
                let k = choose|k: int| 0 <= k < tags@.len() && #[trigger] tags@[k]@ == tag;
                assert(!tags@[k]@.is_prefix_of(pos@));
            }
        }
        false
    }

    /// Deletes the token when its part of speech matches a stop tag, given
    /// `analysis`, the analysis of its term; leaves the token as it is and
    /// adds none.
    pub fn filter(&self, token: &mut Token, analysis: &Option<Vec<Morpheme>>) -> (r: (
        bool,
        Option<Vec<Token>>,
    ))
        ensures
            *final(token) == *old(token),
            r.0 == spec_should_remove(self.spec_stop_tags(), *analysis),
            r.1 is None,
    {
        let deleted = self.should_remove(analysis);
        (deleted, None)
    }
}

impl Clone for KuromojiPartOfSpeechFilter {
    fn clone(&self) -> (f: Self)
        ensures
            f.spec_stop_tags() == self.spec_stop_tags(),
    {
        KuromojiPartOfSpeechFilter { stop_tags: word_set_clone(&self.stop_tags) }
    }
}

/// The first part begins the joined parts.
proof fn lemma_comma_join_starts_with_first(parts: Seq<Seq<char>>)
    requires
        parts.len() > 0,
    ensures
        parts[0].is_prefix_of(comma_join(parts)),
    decreases parts.len(),
{
    if parts.len() > 1 {
        lemma_comma_join_starts_with_first(parts.drop_last());
        let a = comma_join(parts.drop_last());
        assert(a.is_prefix_of(a + seq![','] + parts.last()));
    }
}

/// With the default stop tags, a term analysed as one morpheme whose part
/// of speech is a particle, an auxiliary verb, a conjunction, a symbol, a
/// filler or a non-verbal sound is removed: 。, a 記号, goes.
pub proof fn lemma_defaults_remove_function_words(analysis: Option<Vec<Morpheme>>)
    requires
        analysis matches Some(ms) && ms@.len() == 1 && (ms@[0].details matches Some(d) && d@.len()
            > 0 && default_stop_tag_chars().contains(d@[0]@)),
    ensures
        spec_should_remove(default_stop_tag_chars().to_set(), analysis),
{
    let ms = analysis->0;
    let d = ms@[0].details->0;
    let n = if d@.len() < 4 {
        d@.len() as int
    } else {
        4
    };
    let parts = d@.take(n).map_values(|x: String| x@);
    lemma_comma_join_starts_with_first(parts);
    assert(parts[0] == d@[0]@);
    assert(default_stop_tag_chars().to_set().contains(d@[0]@));
}

} // verus!
