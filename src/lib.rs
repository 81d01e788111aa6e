//! A normalizer stage that rewrites a token's text into its Unicode
//! compatibility decomposition (NFKD), optionally recording a per-character
//! map between byte spans of the text before and after the rewrite.
pub mod decompose;
pub mod normalizer;
pub mod token;
pub mod utf8;
