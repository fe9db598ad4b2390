//! Sets of words, held in a hashbrown hash set.
use vstd::prelude::*;

verus! {

/// A set of words.
#[verifier::external_body]
pub struct WordSet {
    set: hashbrown::HashSet<String>,
}

/// The words that a set holds.
pub uninterp spec fn word_set_contents(set: WordSet) -> Set<Seq<char>>;

/// An empty set: `hashbrown::HashSet::new`, which holds nothing.
#[verifier::external_body]
pub(crate) fn word_set_new() -> (s: WordSet)
    ensures
        word_set_contents(s) == Set::<Seq<char>>::empty(),
{
    WordSet { set: hashbrown::HashSet::new() }
}

/// `hashbrown::HashSet::insert`: afterwards the set holds the word besides
/// what it held; the result tells whether the word was new.
#[verifier::external_body]
pub(crate) fn word_set_insert(set: &mut WordSet, word: String) -> (added: bool)
    ensures
        word_set_contents(*final(set)) == word_set_contents(*old(set)).insert(word@),
        added == !word_set_contents(*old(set)).contains(word@),
{
    set.set.insert(word)
}

/// `hashbrown::HashSet::contains`: whether the set holds the word.
#[verifier::external_body]
pub(crate) fn word_set_contains(set: &WordSet, word: &str) -> (r: bool)
    ensures
        r == word_set_contents(*set).contains(word@),
{
    set.set.contains(word)
}

/// `hashbrown::HashSet::iter`, each word copied out: every word of the set
/// once, in an order that the hasher decides.
#[verifier::external_body]
pub(crate) fn word_set_words(set: &WordSet) -> (v: Vec<String>)
    ensures
        forall|i: int| 0 <= i < v@.len() ==> word_set_contents(*set).contains(#[trigger] v@[i]@),
        forall|w: Seq<char>|
            word_set_contents(*set).contains(w) ==> exists|i: int|
                0 <= i < v@.len() && #[trigger] v@[i]@ == w,
        forall|i: int, j: int| 0 <= i < j < v@.len() ==> v@[i]@ != v@[j]@,
{
    set.set.iter().cloned().collect()
}

/// `hashbrown::HashSet::clone`: a set holding the same words.
#[verifier::external_body]
pub(crate) fn word_set_clone(set: &WordSet) -> (r: WordSet)
    ensures
        word_set_contents(r) == word_set_contents(*set),
{
    WordSet { set: set.set.clone() }
}

/// The set of the words of a list.
pub open spec fn words_set(words: Seq<String>) -> Set<Seq<char>> {
    Set::new(|w: Seq<char>| exists|i: int| 0 <= i < words.len() && #[trigger] words[i]@ == w)
}

/// A set holding exactly the given words.
pub fn word_set_from(words: &Vec<String>) -> (s: WordSet)
    ensures
        word_set_contents(s) == words_set(words@),
{
    let mut set = word_set_new();
    let mut i: usize = 0;
    while i < words.len()
        invariant
            i <= words@.len(),
            word_set_contents(set) == words_set(words@.take(i as int)),
        decreases words@.len() - i,
    {
        let ghost before = word_set_contents(set);
        word_set_insert(&mut set, words[i].clone());
        assert(word_set_contents(set) =~= words_set(words@.take(i + 1))) by {
            assert forall|w: Seq<char>|
                words_set(words@.take(i + 1)).contains(w) implies #[trigger] word_set_contents(
                set,
            ).contains(w) by {
                let k = choose|k: int| 0 <= k < i + 1 && #[trigger] words@.take(i + 1)[k]@ == w;
                if k < i {
                    assert(words@.take(i as int)[k]@ == w);
                }
            }
            assert forall|w: Seq<char>| #[trigger]
                word_set_contents(set).contains(w) implies words_set(words@.take(i + 1)).contains(
                w,
            ) by {
                if w == words@[i as int]@ {
                    assert(words@.take(i + 1)[i as int]@ == w);
                } else {
                    let k = choose|k: int| 0 <= k < i && #[trigger] words@.take(i as int)[k]@ == w;
                    assert(words@.take(i + 1)[k]@ == w);
                }
            }
        }
        i = i + 1;
    }
    assert(words@.take(words@.len() as int) =~= words@);
    set
}

} // verus!
