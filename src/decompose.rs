//! Compatibility decomposition of text, character by character, with the
//! map of byte spans that records how many bytes each original character
//! occupied before and after decomposition.
use unicode_normalization::UnicodeNormalization;
use vstd::prelude::*;
use vstd::string::*;

use crate::utf8::{char_utf8_width, char_width, lemma_utf8_len_concat, lemma_utf8_len_encoding, utf8_len};

verus! {

/// The compatibility decomposition of one character, as the Unicode tables
/// of `unicode_normalization` give it.
pub uninterp spec fn nfkd_of_char(c: char) -> Seq<char>;

/// The compatibility decomposition (NFKD) of a whole text, canonical
/// reordering of combining marks included, as `unicode_normalization` computes it.
pub uninterp spec fn nfkd_of_text(s: Seq<char>) -> Seq<char>;

/// Relies on `<char as unicode_normalization::UnicodeNormalization>::nfkd`:
/// the decomposition of a single character, which depends on that character alone.
#[verifier::external_body]
fn nfkd_char(c: char) -> (r: String)
    ensures
        r@ == nfkd_of_char(c),
{
    c.nfkd().collect()
}

/// Relies on `<&str as unicode_normalization::UnicodeNormalization>::nfkd`:
/// the NFKD form of a text, which depends on its characters alone; the
/// iterator yields nothing for an empty text.
#[verifier::external_body]
fn nfkd_text(s: &str) -> (r: String)
    ensures
        r@ == nfkd_of_text(s@),
        s@.len() == 0 ==> r@.len() == 0,
{
    s.nfkd().collect()
}

/// The text obtained by replacing each character of `s` with its own
/// decomposition, in order.
pub open spec fn decompose_each(s: Seq<char>) -> Seq<char>
    decreases s.len(),
{
    if s.len() == 0 {
        Seq::empty()
    } else {
        decompose_each(s.drop_last()) + nfkd_of_char(s.last())
    }
}

/// The map entry of one character: its own byte length, and the byte
/// length of its decomposition.
pub open spec fn span_of(c: char) -> (u8, u8) {
    (char_width(c) as u8, utf8_len(nfkd_of_char(c)) as u8)
}

/// One entry per character of `s`, in order.
pub open spec fn char_map_of(s: Seq<char>) -> Seq<(u8, u8)> {
    s.map_values(|c: char| span_of(c))
}

/// The decomposition of `c` is short enough for its byte length to fit a map entry.
pub open spec fn span_fits(c: char) -> bool {
    utf8_len(nfkd_of_char(c)) <= 255
}

/// Every character of `s` has a decomposition that fits a map entry.
pub open spec fn spans_fit(s: Seq<char>) -> bool {
    forall|i: int| 0 <= i < s.len() ==> #[trigger] span_fits(s[i])
}

/// Sum of the original-side byte spans of `m`.
pub open spec fn original_bytes(m: Seq<(u8, u8)>) -> nat
    decreases m.len(),
{
    if m.len() == 0 {
        0
    } else {
        original_bytes(m.drop_last()) + m.last().0 as nat
    }
}

/// Sum of the decomposed-side byte spans of `m`.
pub open spec fn decomposed_bytes(m: Seq<(u8, u8)>) -> nat
    decreases m.len(),
{
    if m.len() == 0 {
        0
    } else {
        decomposed_bytes(m.drop_last()) + m.last().1 as nat
    }
}

/// Where every span fits, the map of `s` adds up to the byte length of `s`
/// on one side and to that of its decomposition on the other.
pub proof fn lemma_char_map_of_sums(s: Seq<char>)
    requires
        spans_fit(s),
    ensures
        original_bytes(char_map_of(s)) == utf8_len(s),
        decomposed_bytes(char_map_of(s)) == utf8_len(decompose_each(s)),
    decreases s.len(),
{
    if s.len() > 0 {
        let prefix = s.drop_last();
        let c = s.last();
        assert(char_map_of(s).drop_last() =~= char_map_of(prefix));
        assert(span_fits(s[s.len() - 1]));
        assert(spans_fit(prefix)) by {
            assert forall|i: int| 0 <= i < prefix.len() implies #[trigger] span_fits(prefix[i]) by {
                assert(prefix[i] == s[i]);
            }
        }
        lemma_char_map_of_sums(prefix);
        lemma_utf8_len_concat(decompose_each(prefix), nfkd_of_char(c));
    }
}

/// Decomposes `text` as a whole into its NFKD form.
pub fn decompose(text: &str) -> (r: String)
    ensures
        r@ == nfkd_of_text(text@),
        text@.len() == 0 ==> r@.len() == 0,
{
    nfkd_text(text)
}

/// Decomposes `text` one character at a time and records, for each
/// character, the pair (bytes before, bytes after).
///
/// Returns `None` exactly when some character's decomposition is longer
/// than 255 bytes, so that its span cannot be recorded.
pub fn decompose_with_char_map(text: &str) -> (r: Option<(String, Vec<(u8, u8)>)>)
    ensures
        r is Some <==> spans_fit(text@),
        r matches Some((out, map)) ==> out@ == decompose_each(text@) && map@ == char_map_of(
            text@,
        ),
{
    let mut out = String::new();
    let mut map: Vec<(u8, u8)> = Vec::new();
    for c in it: text.chars()
        invariant
            it.seq() == text@,
            map@.len() == it.index(),
            out@ == decompose_each(text@.take(it.index() as int)),
            map@ == char_map_of(text@.take(it.index() as int)),
            spans_fit(text@.take(it.index() as int)),
    {
        let ghost i = it.index() as int;
        let ghost done = text@.take(i);
        assert(i < text@.len() && c == text@[i]);
        let piece = nfkd_char(c);
        let len = piece.as_str().as_bytes().len();
        proof {
            lemma_utf8_len_encoding(piece@);
        }
        if len > 255 {
            assert(!span_fits(text@[i]));
            return None;
        }
        map.push((char_utf8_width(c), len as u8));
        out.append(piece.as_str());
        proof {
            let next = text@.take(i + 1);
            assert(next.drop_last() =~= done);
            assert(next.last() == c);
            assert(next =~= done.push(c));
            assert(char_map_of(next) =~= char_map_of(done).push(span_of(c)));
            assert(span_fits(c));
            assert forall|j: int| 0 <= j < next.len() implies #[trigger] span_fits(next[j]) by {
                if j < i {
                    assert(next[j] == done[j]);
                }
            }
        }
    }
    proof {
        assert(text@.take(text@.len() as int) =~= text@);
    }
    Some((out, map))
}

} // verus!
