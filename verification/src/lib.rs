//! A synthesis engine for sparse vectors in BM25-style lexical retrieval.
//!
//! A text is cut into tokens by one of several tokenizer backends, which a
//! [`tokenizer::TokenizerRegistry`] builds on first use and keeps. The
//! tokens are looked up in term statistics that the host maintains; what
//! the lookups found is gathered into a sparse vector ([`synthesis`]),
//! weighted by the host, and rendered in the dialect of the vector index
//! that will read it ([`formatter`]).
//!
//! The library reads no file, opens no connection and does no arithmetic
//! on fractions: the host loads subword tokenizers, resolves tokens and
//! computes weights, and hands each of them over.

pub mod error;
pub mod formatter;
pub mod synthesis;
pub mod text;
pub mod tokenizer;
pub mod vector;
pub mod whitespace;

use vstd::prelude::*;
use crate::error::EngineError;
use crate::text::optional_text;
use crate::tokenizer::{outcome_texts, tokenize_step, Tokenize, TokenizerRegistry};

verus! {

/// Tokenizes the text `t` with the tokenizer that `tokenizer` and `model`
/// name, out of `registry`.
pub fn tokenize<S: Tokenize>(
    registry: &mut TokenizerRegistry<S>,
    t: &str,
    tokenizer: &str,
    model: Option<&str>,
) -> (r: Result<Vec<String>, EngineError>)
    ensures
        tokenize_step(
            old(registry)@,
            final(registry)@,
            tokenizer@,
            optional_text(model),
            t@,
            outcome_texts(r),
        ),
{
    crate::tokenizer::tokenize(registry, tokenizer, model, t)
}

} // verus!
