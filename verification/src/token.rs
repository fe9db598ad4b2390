//! Tokens of the analysis chain.
use vstd::prelude::*;

verus! {

/// A token: its term, its character offsets in the analysed text, and its
/// position among the tokens of that text.
#[derive(Debug, Clone, PartialEq, Eq)]
pub struct Token {
    pub term: String,
    pub start_offset: u32,
    pub end_offset: u32,
    pub position: u32,
}

impl Token {
    pub fn new(term: &str, start_offset: u32, end_offset: u32, position: u32) -> (t: Token)
        ensures
            t.term@ == term@,
            t.start_offset == start_offset,
            t.end_offset == end_offset,
            t.position == position,
    {
        Token { term: term.to_owned(), start_offset, end_offset, position }
    }
}

/// A token by its term's characters.
pub struct TokenView {
    pub term: Seq<char>,
    pub start_offset: u32,
    pub end_offset: u32,
    pub position: u32,
}

impl View for Token {
    type V = TokenView;

    open spec fn view(&self) -> TokenView {
        TokenView {
            term: self.term@,
            start_offset: self.start_offset,
            end_offset: self.end_offset,
            position: self.position,
        }
    }
}

/// The views of a list of tokens.
pub open spec fn token_views(tokens: Seq<Token>) -> Seq<TokenView> {
    tokens.map_values(|t: Token| t@)
}

/// What a filter leaves of a token besides its term: the same offsets and
/// position.
pub open spec fn same_place(a: Token, b: Token) -> bool {
    &&& a.start_offset == b.start_offset
    &&& a.end_offset == b.end_offset
    &&& a.position == b.position
}

} // verus!
