use vstd::prelude::*;
use crate::error::EngineError;
use crate::text::{decimal, decimal_string, same_text, texts};
use crate::tokenizer::{outcome_texts, Tokenize};
use crate::whitespace::{split_whitespace, whitespace_tokens};

verus! {

/// `jieba_rs::Jieba`, a segmenter for Chinese with its dictionary.
#[verifier::external_type_specification]
#[verifier::external_body]
pub struct ExJieba(jieba_rs::Jieba);

/// `tiktoken_rs::CoreBPE`, a byte pair encoder with its vocabulary.
#[verifier::external_type_specification]
#[verifier::external_body]
pub struct ExCoreBPE(tiktoken_rs::CoreBPE);

/// The words that `jieba_rs::Jieba::cut` finds in `text`, with the
/// dictionary that `jieba_rs` brings along and with its hidden Markov
/// model switched on for what the dictionary does not hold.
pub uninterp spec fn jieba_words(text: Seq<char>) -> Seq<Seq<char>>;

/// The words that `tiniestsegmenter::tokenize` finds in `text`.
pub uninterp spec fn tiniestsegmenter_words(text: Seq<char>) -> Seq<Seq<char>>;

/// The encoding that `tiktoken_rs::tokenizer::get_tokenizer` knows the
/// model `model` to use, if it knows the model.
pub uninterp spec fn tiktoken_model_encoding(model: Seq<char>) -> Option<TiktokenEncoding>;

/// The ranks that `tiktoken_rs::CoreBPE::encode` gives for `text` with
/// the vocabulary that `tiktoken_rs` builds for `vocabulary`, where no
/// special token is let through; nothing where it reports an error
/// instead.
pub uninterp spec fn tiktoken_ranks(vocabulary: TiktokenEncoding, text: Seq<char>) -> Option<
    Seq<u32>,
>;

/// The encodings of the byte pair tokenizer. Six of them go by a name of
/// their own; `O200kHarmony` is reached through the models that use it.
#[derive(Clone, Copy, Debug, PartialEq, Eq, Structural)]
pub enum TiktokenEncoding {
    O200kHarmony,
    O200kBase,
    Cl100kBase,
    P50kBase,
    R50kBase,
    P50kEdit,
    Gpt2,
}

/// Splits on runs of Unicode whitespace. There is nothing to construct.
pub struct WhitespaceTokenizer;

/// The segmenter for Chinese, with the dictionary it brings along.
pub struct JiebaTokenizer {
    jieba: jieba_rs::Jieba,
}

/// The segmenter for Japanese. There is nothing to construct.
pub struct TiniestsegmenterTokenizer;

/// A byte pair encoder with the vocabulary of one encoding. Only `new`
/// makes one, so the encoder is always the one that `tiktoken_rs` builds
/// for the vocabulary that the label names.
pub struct TiktokenTokenizer {
    vocabulary: TiktokenEncoding,
    tokenizer: tiktoken_rs::CoreBPE,
}

impl View for TiktokenTokenizer {
    type V = TiktokenEncoding;

    /// The encoding whose vocabulary the encoder holds.
    closed spec fn view(&self) -> TiktokenEncoding {
        self.vocabulary
    }
}

impl TiktokenEncoding {
    /// The encoding whose vocabulary this one uses: `Gpt2` has none of its
    /// own and encodes with that of `R50kBase`.
    pub open spec fn vocabulary(self) -> TiktokenEncoding {
        match self {
            TiktokenEncoding::Gpt2 => TiktokenEncoding::R50kBase,
            _ => self,
        }
    }

    /// The encoding whose vocabulary this one uses.
    pub fn vocabulary_used(self) -> (r: TiktokenEncoding)
        ensures
            r == self.vocabulary(),
    {
        match self {
            TiktokenEncoding::Gpt2 => TiktokenEncoding::R50kBase,
            _ => self,
        }
    }
}

/// `tiktoken_rs::tokenizer::get_tokenizer`: looks the model up in the
/// table of model names that `tiktoken_rs` keeps. The result is the
/// table's answer, variant for variant.
#[verifier::external_body]
fn model_encoding(model: &str) -> (r: Option<TiktokenEncoding>)
    ensures
        r == tiktoken_model_encoding(model@),
{
    tiktoken_rs::tokenizer::get_tokenizer(model).map(
        |found| match found {
            tiktoken_rs::tokenizer::Tokenizer::O200kHarmony => TiktokenEncoding::O200kHarmony,
            tiktoken_rs::tokenizer::Tokenizer::O200kBase => TiktokenEncoding::O200kBase,
            tiktoken_rs::tokenizer::Tokenizer::Cl100kBase => TiktokenEncoding::Cl100kBase,
            tiktoken_rs::tokenizer::Tokenizer::P50kBase => TiktokenEncoding::P50kBase,
            tiktoken_rs::tokenizer::Tokenizer::R50kBase => TiktokenEncoding::R50kBase,
            tiktoken_rs::tokenizer::Tokenizer::P50kEdit => TiktokenEncoding::P50kEdit,
            tiktoken_rs::tokenizer::Tokenizer::Gpt2 => TiktokenEncoding::Gpt2,
        },
    )
}

/// `tiktoken_rs::o200k_harmony`: builds the encoder from the vocabulary
/// that `tiktoken_rs` holds. The vocabulary is compiled into `tiktoken_rs`, so
/// the encoder always comes.
#[verifier::external_body]
fn o200k_harmony() -> (r: Option<tiktoken_rs::CoreBPE>)
    ensures
        r is Some,
{
    tiktoken_rs::o200k_harmony().ok()
}

/// `tiktoken_rs::o200k_base`: builds the encoder from the vocabulary that
/// `tiktoken_rs` holds. The vocabulary is compiled into `tiktoken_rs`, so
/// the encoder always comes.
#[verifier::external_body]
fn o200k_base() -> (r: Option<tiktoken_rs::CoreBPE>)
    ensures
        r is Some,
{
    tiktoken_rs::o200k_base().ok()
}

/// `tiktoken_rs::cl100k_base`: builds the encoder from the vocabulary
/// that `tiktoken_rs` holds. The vocabulary is compiled into `tiktoken_rs`, so
/// the encoder always comes.
#[verifier::external_body]
fn cl100k_base() -> (r: Option<tiktoken_rs::CoreBPE>)
    ensures
        r is Some,
{
    tiktoken_rs::cl100k_base().ok()
}

/// `tiktoken_rs::p50k_base`: builds the encoder from the vocabulary that
/// `tiktoken_rs` holds. The vocabulary is compiled into `tiktoken_rs`, so
/// the encoder always comes.
#[verifier::external_body]
fn p50k_base() -> (r: Option<tiktoken_rs::CoreBPE>)
    ensures
        r is Some,
{
    tiktoken_rs::p50k_base().ok()
}

/// `tiktoken_rs::p50k_edit`: builds the encoder from the vocabulary that
/// `tiktoken_rs` holds. The vocabulary is compiled into `tiktoken_rs`, so
/// the encoder always comes.
#[verifier::external_body]
fn p50k_edit() -> (r: Option<tiktoken_rs::CoreBPE>)
    ensures
        r is Some,
{
    tiktoken_rs::p50k_edit().ok()
}

/// `tiktoken_rs::r50k_base`: builds the encoder from the vocabulary that
/// `tiktoken_rs` holds. The vocabulary is compiled into `tiktoken_rs`, so
/// the encoder always comes.
#[verifier::external_body]
fn r50k_base() -> (r: Option<tiktoken_rs::CoreBPE>)
    ensures
        r is Some,
{
    tiktoken_rs::r50k_base().ok()
}

/// The encoding that goes by the name `name`, if one does.
pub open spec fn encoding_named(name: Seq<char>) -> Option<TiktokenEncoding> {
    if name == "o200k_base"@ {
        Some(TiktokenEncoding::O200kBase)
    } else if name == "cl100k_base"@ {
        Some(TiktokenEncoding::Cl100kBase)
    } else if name == "p50k_base"@ {
        Some(TiktokenEncoding::P50kBase)
    } else if name == "p50k_edit"@ {
        Some(TiktokenEncoding::P50kEdit)
    } else if name == "r50k_base"@ {
        Some(TiktokenEncoding::R50kBase)
    } else if name == "gpt2"@ {
        Some(TiktokenEncoding::Gpt2)
    } else {
        None
    }
}

/// The encoding that `model` stands for: the encoding that goes by that
/// name, or else the encoding of the model that it names.
pub open spec fn resolved_encoding(model: Seq<char>) -> Option<TiktokenEncoding> {
    match encoding_named(model) {
        Some(encoding) => Some(encoding),
        None => tiktoken_model_encoding(model),
    }
}

/// The vocabulary that an encoder for `model` holds, if `model` stands
/// for an encoding.
pub open spec fn resolved_vocabulary(model: Seq<char>) -> Option<TiktokenEncoding> {
    match resolved_encoding(model) {
        Some(encoding) => Some(encoding.vocabulary()),
        None => None,
    }
}

/// The decimal numerals of a sequence of ranks.
pub open spec fn rank_texts(ranks: Seq<u32>) -> Seq<Seq<char>> {
    ranks.map_values(|rank: u32| decimal(rank as nat))
}

/// What an encoder's answer comes to: the numerals of the ranks, or a
/// failure where the encoder reported an error.
pub open spec fn ranked(encoded: Option<Seq<u32>>) -> Result<Seq<Seq<char>>, EngineError> {
    match encoded {
        Some(ranks) => Ok(rank_texts(ranks)),
        None => Err(EngineError::TokenizationFailure),
    }
}

/// The ranks behind an optional vector of ranks.
pub open spec fn optional_ranks(encoded: Option<Vec<u32>>) -> Option<Seq<u32>> {
    match encoded {
        Some(ranks) => Some(ranks@),
        None => None,
    }
}

/// The encoding that goes by the name `name`, if one does.
pub fn encoding_by_name(name: &str) -> (r: Option<TiktokenEncoding>)
    ensures
        r == encoding_named(name@),
{
    if same_text(name, "o200k_base") {
        Some(TiktokenEncoding::O200kBase)
    } else if same_text(name, "cl100k_base") {
        Some(TiktokenEncoding::Cl100kBase)
    } else if same_text(name, "p50k_base") {
        Some(TiktokenEncoding::P50kBase)
    } else if same_text(name, "p50k_edit") {
        Some(TiktokenEncoding::P50kEdit)
    } else if same_text(name, "r50k_base") {
        Some(TiktokenEncoding::R50kBase)
    } else if same_text(name, "gpt2") {
        Some(TiktokenEncoding::Gpt2)
    } else {
        None
    }
}

/// Renders each rank as its decimal numeral.
pub fn rank_tokens(ranks: &Vec<u32>) -> (r: Vec<String>)
    ensures
        texts(r@) == rank_texts(ranks@),
{
    let mut out: Vec<String> = Vec::new();
    let mut i: usize = 0;
    while i < ranks.len()
        invariant
            i <= ranks.len(),
            texts(out@) == rank_texts(ranks@.take(i as int)),
        decreases ranks.len() - i,
    {
        let ghost before = texts(out@);
        out.push(decimal_string(ranks[i] as u64));
        proof {
            assert(texts(out@) =~= before.push(decimal(ranks@[i as int] as nat)));
            assert(rank_texts(ranks@.take(i + 1)) =~= rank_texts(ranks@.take(i as int)).push(
                decimal(ranks@[i as int] as nat),
            ));
        }
        i += 1;
    }
    proof {
        assert(ranks@.take(i as int) =~= ranks@);
    }
    out
}

/// What an encoder's answer means for its caller: the numerals of the
/// ranks, or a failure where the encoder reported an error.
pub fn ranked_outcome(encoded: Option<Vec<u32>>) -> (r: Result<Vec<String>, EngineError>)
    ensures
        outcome_texts(r) == ranked(optional_ranks(encoded)),
{
    match encoded {
        Some(ranks) => Ok(rank_tokens(&ranks)),
        None => Err(EngineError::TokenizationFailure),
    }
}

/// What the answer of a tokenizer that may report an error means for its
/// caller: the tokens where it gave some, a failure where it reported an
/// error. A backend of the host's own, such as a subword tokenizer, hands
/// its answer through here.
pub fn encoded_outcome(encoded: Option<Vec<String>>) -> (r: Result<Vec<String>, EngineError>)
    ensures
        match encoded {
            Some(tokens) => r == Ok::<Vec<String>, EngineError>(tokens),
            None => r == Err::<Vec<String>, EngineError>(EngineError::TokenizationFailure),
        },
{
    match encoded {
        Some(tokens) => Ok(tokens),
        None => Err(EngineError::TokenizationFailure),
    }
}

impl Tokenize for WhitespaceTokenizer {
    open spec fn admits(&self, text: Seq<char>, outcome: Result<Seq<Seq<char>>, EngineError>) -> bool {
        outcome == Ok::<Seq<Seq<char>>, EngineError>(split_whitespace(text))
    }

    fn tokenize(&self, s: &str) -> (r: Result<Vec<String>, EngineError>) {
        Ok(whitespace_tokens(s))
    }
}

impl JiebaTokenizer {
    /// `jieba_rs::Jieba::new`: the segmenter with the dictionary that
    /// `jieba_rs` brings along.
    #[verifier::external_body]
    pub(crate) fn new() -> (r: JiebaTokenizer) {
        JiebaTokenizer { jieba: jieba_rs::Jieba::new() }
    }

    /// `jieba_rs::Jieba::cut` with its hidden Markov model switched on:
    /// the words of `s`, each as a string of its own.
    #[verifier::external_body]
    fn cut(&self, s: &str) -> (r: Vec<String>)
        ensures
            texts(r@) == jieba_words(s@),
    {
        self.jieba.cut(s, true).iter().map(|word| word.to_string()).collect()
    }
}

impl Tokenize for JiebaTokenizer {
    open spec fn admits(&self, text: Seq<char>, outcome: Result<Seq<Seq<char>>, EngineError>) -> bool {
        outcome == Ok::<Seq<Seq<char>>, EngineError>(jieba_words(text))
    }

    fn tokenize(&self, s: &str) -> (r: Result<Vec<String>, EngineError>) {
        Ok(self.cut(s))
    }
}

impl TiniestsegmenterTokenizer {
    /// `tiniestsegmenter::tokenize`: the words of `s`, each as a string
    /// of its own.
    #[verifier::external_body]
    fn segment(s: &str) -> (r: Vec<String>)
        ensures
            texts(r@) == tiniestsegmenter_words(s@),
    {
        tiniestsegmenter::tokenize(s).iter().map(|word| word.to_string()).collect()
    }
}

impl Tokenize for TiniestsegmenterTokenizer {
    open spec fn admits(&self, text: Seq<char>, outcome: Result<Seq<Seq<char>>, EngineError>) -> bool {
        outcome == Ok::<Seq<Seq<char>>, EngineError>(tiniestsegmenter_words(text))
    }

    fn tokenize(&self, s: &str) -> (r: Result<Vec<String>, EngineError>) {
        Ok(TiniestsegmenterTokenizer::segment(s))
    }
}

impl TiktokenTokenizer {
    /// Builds the encoder for `model`, which names an encoding or a model.
    /// Fails where it names neither.
    pub fn new(model: &str) -> (r: Result<TiktokenTokenizer, EngineError>)
        ensures
            match resolved_vocabulary(model@) {
                Some(vocabulary) => r is Ok && r->Ok_0@ == vocabulary,
                None => r is Err && r->Err_0 == EngineError::ModelLoadFailure,
            },
    {
        let selected = match encoding_by_name(model) {
            Some(encoding) => Some(encoding),
            None => model_encoding(model),
        };
        match selected {
            Some(encoding) => {
                let built = match encoding {
                    TiktokenEncoding::O200kHarmony => o200k_harmony(),
                    TiktokenEncoding::O200kBase => o200k_base(),
                    TiktokenEncoding::Cl100kBase => cl100k_base(),
                    TiktokenEncoding::P50kBase => p50k_base(),
                    TiktokenEncoding::P50kEdit => p50k_edit(),
                    TiktokenEncoding::R50kBase => r50k_base(),
                    TiktokenEncoding::Gpt2 => r50k_base(),
                };
                Ok(
                    TiktokenTokenizer {
                        vocabulary: encoding.vocabulary_used(),
                        tokenizer: built.unwrap(),
                    },
                )
            },
            None => Err(EngineError::ModelLoadFailure),
        }
    }

    /// `tiktoken_rs::CoreBPE::encode` with an empty set of special tokens
    /// to let through: the ranks of the pieces of `s`, or nothing where the
    /// encoder reports an error, as it does where the matcher that cuts
    /// `s` runs out of its budget. Either way the answer depends on the
    /// vocabulary and on `s` alone.
    #[verifier::external_body]
    fn encode(&self, s: &str) -> (r: Option<Vec<u32>>)
        ensures
            optional_ranks(r) == tiktoken_ranks(self@, s@),
    {
        self.tokenizer.encode(s, &std::collections::HashSet::new()).ok().map(|(ranks, _)| ranks)
    }
}

impl Tokenize for TiktokenTokenizer {
    open spec fn admits(&self, text: Seq<char>, outcome: Result<Seq<Seq<char>>, EngineError>) -> bool {
        outcome == ranked(tiktoken_ranks(self@, text))
    }

    fn tokenize(&self, s: &str) -> (r: Result<Vec<String>, EngineError>) {
        ranked_outcome(self.encode(s))
    }
}

} // verus!
