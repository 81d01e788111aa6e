//! The compatibility-decomposition stage of a normalization pipeline.
use vstd::prelude::*;

use crate::decompose::{
    char_map_of, decompose, decompose_each, decompose_with_char_map, decomposed_bytes,
    lemma_char_map_of_sums, nfkd_of_text, original_bytes, spans_fit,
};
use crate::token::{Language, Script, Token, TokenView};
use crate::utf8::utf8_len;

verus! {

/// Options that the pipeline hands to every normalizer.
#[derive(Clone, Copy, Debug, PartialEq, Eq, Structural, Default)]
pub struct NormalizerOption {
    /// Build a map between byte spans before and after the rewrite.
    pub create_char_map: bool,
}

/// A normalizer that rewrites a token's text into its compatibility
/// decomposition, for every script and language.
pub struct CompatibilityDecompositionNormalizer;

/// The token that the stage produces from `t`.
///
/// With a map requested, each character is decomposed on its own and the
/// map is rebuilt from the current text, replacing any earlier one; without,
/// the text is decomposed as a whole and the map is left as it was.
pub open spec fn normalized(t: TokenView, create_char_map: bool) -> TokenView {
    if create_char_map {
        TokenView { lemma: decompose_each(t.lemma), char_map: Some(char_map_of(t.lemma)), ..t }
    } else {
        TokenView { lemma: nfkd_of_text(t.lemma), ..t }
    }
}

/// When a map is built, its first components add up to the byte length of
/// the text before the rewrite, and its second components to the byte length
/// of the text after it.
pub proof fn lemma_char_map_sums(t: TokenView)
    requires
        spans_fit(t.lemma),
    ensures
        normalized(t, true).char_map matches Some(m) && original_bytes(m) == utf8_len(t.lemma)
            && decomposed_bytes(m) == utf8_len(normalized(t, true).lemma),
{
    lemma_char_map_of_sums(t.lemma);
}

/// When a map is built, it has one entry per character of the text before
/// the rewrite.
pub proof fn lemma_char_map_entry_count(t: TokenView)
    ensures
        normalized(t, true).char_map matches Some(m) && m.len() == t.lemma.len(),
{
}

/// An empty text can always be rewritten with a map, and gives an empty text
/// and an empty map.
pub proof fn lemma_empty_lemma(t: TokenView)
    requires
        t.lemma.len() == 0,
    ensures
        spans_fit(t.lemma),
        normalized(t, true).lemma.len() == 0,
        normalized(t, true).char_map == Some(Seq::<(u8, u8)>::empty()),
{
    assert(char_map_of(t.lemma) =~= Seq::<(u8, u8)>::empty());
}

impl CompatibilityDecompositionNormalizer {
    /// Rewrites `token` and yields it as the only token of the result.
    pub fn normalize(&self, token: Token, options: NormalizerOption) -> (r: Vec<Token>)
        requires
            options.create_char_map ==> spans_fit(token.lemma@),
        ensures
            r.len() == 1,
            r[0]@ == normalized(token@, options.create_char_map),
            r[0].char_start == token.char_start,
            r[0].char_end == token.char_end,
            r[0].byte_start == token.byte_start,
            r[0].byte_end == token.byte_end,
            r[0].script == token.script,
            r[0].language == token.language,
            !options.create_char_map ==> r[0]@.char_map == token@.char_map,
            token.lemma@.len() == 0 ==> r[0].lemma@.len() == 0,
    {
        let mut token = token;
        if options.create_char_map {
            match decompose_with_char_map(token.lemma()) {
                Some((lemma, char_map)) => {
                    token.lemma = lemma;
                    token.char_map = Some(char_map);
                },
                // ruled out by the precondition
                None => {},
            }
        } else {
            token.lemma = decompose(token.lemma());
        }
        vec![token]
    }

    /// Like [`Self::normalize`], for any text: returns `None` exactly when a
    /// map is requested and some character's decomposition is too long for
    /// its byte length to be recorded in one entry.
    pub fn try_normalize(&self, token: Token, options: NormalizerOption) -> (r: Option<Vec<Token>>)
        ensures
            r is Some <==> (!options.create_char_map || spans_fit(token.lemma@)),
            r matches Some(v) ==> v.len() == 1 && v[0]@ == normalized(
                token@,
                options.create_char_map,
            ),
    {
        if options.create_char_map && decompose_with_char_map(token.lemma()).is_none() {
            return None;
        }
        Some(self.normalize(token, options))
    }

    /// Whether the stage applies to a token of this script and language: it
    /// always does.
    pub fn should_normalize(&self, script: Script, language: Option<Language>) -> (r: bool)
        ensures
            r,
    {
        true
    }
}

} // verus!
