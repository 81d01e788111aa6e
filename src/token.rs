//! The token that flows through a normalization pipeline.
use vstd::prelude::*;

verus! {

/// Writing system of a token, as detected upstream.
#[derive(Clone, Copy, Debug, PartialEq, Eq, Structural)]
pub enum Script {
    Arabic,
    Cj,
    Cyrillic,
    Greek,
    Hangul,
    Hebrew,
    Latin,
    Thai,
    Other,
}

/// Language of a token, as detected upstream.
#[derive(Clone, Copy, Debug, PartialEq, Eq, Structural)]
pub enum Language {
    Ara,
    Cmn,
    Deu,
    Eng,
    Fra,
    Heb,
    Jpn,
    Kor,
    Rus,
    Tha,
}

/// A piece of source text and what the pipeline knows about it.
///
/// `char_start`/`char_end` and `byte_start`/`byte_end` locate the token in
/// the original source text; `char_map`, when present, holds one
/// `(original bytes, normalized bytes)` pair per character of the text that
/// the last map-building stage read.
#[derive(Clone, Debug, PartialEq, Eq)]
pub struct Token {
    pub lemma: String,
    pub char_start: usize,
    pub char_end: usize,
    pub byte_start: usize,
    pub byte_end: usize,
    pub char_map: Option<Vec<(u8, u8)>>,
    pub script: Script,
    pub language: Option<Language>,
}

/// The mathematical value of a [`Token`].
pub struct TokenView {
    pub lemma: Seq<char>,
    pub char_start: usize,
    pub char_end: usize,
    pub byte_start: usize,
    pub byte_end: usize,
    pub char_map: Option<Seq<(u8, u8)>>,
    pub script: Script,
    pub language: Option<Language>,
}

impl View for Token {
    type V = TokenView;

    open spec fn view(&self) -> TokenView {
        TokenView {
            lemma: self.lemma@,
            char_start: self.char_start,
            char_end: self.char_end,
            byte_start: self.byte_start,
            byte_end: self.byte_end,
            char_map: match self.char_map {
                Some(m) => Some(m@),
                None => None,
            },
            script: self.script,
            language: self.language,
        }
    }
}

impl Token {
    /// The token's current text.
    pub fn lemma(&self) -> (r: &str)
        ensures
            r@ == self.lemma@,
    {
        self.lemma.as_str()
    }
}

} // verus!
