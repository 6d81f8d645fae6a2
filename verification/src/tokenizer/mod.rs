pub mod backends;

use vstd::hash_map::StringHashMap;
use vstd::prelude::*;
use crate::error::EngineError;
use crate::text::{optional_text, same_text, texts};
use crate::tokenizer::backends::{
    jieba_words, ranked, resolved_encoding, resolved_vocabulary, tiktoken_ranks,
    tiniestsegmenter_words, JiebaTokenizer, TiktokenEncoding, TiktokenTokenizer,
    TiniestsegmenterTokenizer, WhitespaceTokenizer,
};
use crate::whitespace::split_whitespace;

verus! {

/// What a call that yields tokens comes to, with each token by its text.
pub open spec fn outcome_texts(r: Result<Vec<String>, EngineError>) -> Result<
    Seq<Seq<char>>,
    EngineError,
> {
    match r {
        Ok(tokens) => Ok(texts(tokens@)),
        Err(e) => Err(e),
    }
}

/// What every tokenizer backend can do: cut a text into tokens. The
/// library brings four backends. The subword backend is the host's: it
/// implements this trait for the tokenizer that it loads.
pub trait Tokenize {
    /// Whether `outcome` is one that this tokenizer may come to on `text`.
    /// A backend that says nothing of itself admits every outcome.
    open spec fn admits(
        &self,
        text: Seq<char>,
        outcome: Result<Seq<Seq<char>>, EngineError>,
    ) -> bool {
        true
    }

    /// Cuts `s` into its tokens, in the order in which they occur.
    fn tokenize(&self, s: &str) -> (r: Result<Vec<String>, EngineError>)
        ensures
            self.admits(s@, outcome_texts(r)),
    ;
}

/// The backends that the registry can dispatch to. The two that are
/// parameterized carry the name of the model or encoding asked for.
#[derive(Clone, Copy, Debug)]
pub enum TokenizerKind<'a> {
    Whitespace,
    HuggingFace(&'a str),
    Jieba,
    TinySegmenter,
    Tiktoken(&'a str),
}

/// A tokenizer kind with its model name as a sequence of characters.
pub enum KindView {
    Whitespace,
    HuggingFace(Seq<char>),
    Jieba,
    TinySegmenter,
    Tiktoken(Seq<char>),
}

impl<'a> View for TokenizerKind<'a> {
    type V = KindView;

    open spec fn view(&self) -> KindView {
        match self {
            TokenizerKind::Whitespace => KindView::Whitespace,
            TokenizerKind::HuggingFace(model) => KindView::HuggingFace(model@),
            TokenizerKind::Jieba => KindView::Jieba,
            TokenizerKind::TinySegmenter => KindView::TinySegmenter,
            TokenizerKind::Tiktoken(model) => KindView::Tiktoken(model@),
        }
    }
}

/// A parameterized kind with its model, or the failure to name one.
pub open spec fn with_model(
    model: Option<Seq<char>>,
    kind: spec_fn(Seq<char>) -> KindView,
) -> Result<KindView, EngineError> {
    match model {
        Some(name) => Ok(kind(name)),
        None => Err(EngineError::MissingModelParameter),
    }
}

/// The kind that a kind token and an optional model name: `"hf"` and
/// `"tiktoken"` need a model, `"ws"`, `"jieba"` and `"tiniestsegmenter"`
/// take none, and any other token names no kind.
pub open spec fn kind_named(tokenizer: Seq<char>, model: Option<Seq<char>>) -> Result<
    KindView,
    EngineError,
> {
    if tokenizer == "hf"@ {
        with_model(model, |name: Seq<char>| KindView::HuggingFace(name))
    } else if tokenizer == "tiktoken"@ {
        with_model(model, |name: Seq<char>| KindView::Tiktoken(name))
    } else if tokenizer == "ws"@ {
        Ok(KindView::Whitespace)
    } else if tokenizer == "jieba"@ {
        Ok(KindView::Jieba)
    } else if tokenizer == "tiniestsegmenter"@ {
        Ok(KindView::TinySegmenter)
    } else {
        Err(EngineError::UnsupportedTokenizerKind)
    }
}

/// A kind or a failure, with the kind by its view.
pub open spec fn kind_outcome(r: Result<TokenizerKind<'_>, EngineError>) -> Result<
    KindView,
    EngineError,
> {
    match r {
        Ok(kind) => Ok(kind@),
        Err(e) => Err(e),
    }
}

impl<'a> TokenizerKind<'a> {
    /// Reads a kind token and the model that came with it.
    pub fn parse(tokenizer: &str, model: Option<&'a str>) -> (r: Result<
        TokenizerKind<'a>,
        EngineError,
    >)
        ensures
            kind_outcome(r) == kind_named(tokenizer@, optional_text(model)),
    {
        if same_text(tokenizer, "hf") {
            match model {
                Some(name) => Ok(TokenizerKind::HuggingFace(name)),
                None => Err(EngineError::MissingModelParameter),
            }
        } else if same_text(tokenizer, "tiktoken") {
            match model {
                Some(name) => Ok(TokenizerKind::Tiktoken(name)),
                None => Err(EngineError::MissingModelParameter),
            }
        } else if same_text(tokenizer, "ws") {
            Ok(TokenizerKind::Whitespace)
        } else if same_text(tokenizer, "jieba") {
            Ok(TokenizerKind::Jieba)
        } else if same_text(tokenizer, "tiniestsegmenter") {
            Ok(TokenizerKind::TinySegmenter)
        } else {
            Err(EngineError::UnsupportedTokenizerKind)
        }
    }
}

/// The tokenizer instances of a process: one slot for each kind that takes
/// no model, and for each kind that takes one a cache keyed by the model's
/// name. An instance is built when it is first asked for, and from then on
/// it is neither built again nor dropped.
///
/// `S` is the subword backend of the host. The registry reads no file and
/// opens no connection, so it builds no subword tokenizer: the host loads
/// one and hands it over through `load_subword`, and a model for which
/// none was handed over cannot be loaded.
#[verifier::reject_recursive_types(S)]
pub struct TokenizerRegistry<S> {
    hf: StringHashMap<S>,
    tiktoken: StringHashMap<TiktokenTokenizer>,
    jieba: Option<JiebaTokenizer>,
    tiniestsegmenter: Option<TiniestsegmenterTokenizer>,
    whitespace: Option<WhitespaceTokenizer>,
}

/// What a registry holds.
#[verifier::reject_recursive_types(S)]
pub struct RegistryView<S> {
    pub hf: Map<Seq<char>, S>,
    pub tiktoken: Map<Seq<char>, TiktokenTokenizer>,
    pub jieba: Option<JiebaTokenizer>,
    pub tiniestsegmenter: Option<TiniestsegmenterTokenizer>,
    pub whitespace: Option<WhitespaceTokenizer>,
}

impl<S> RegistryView<S> {
    /// The registry that holds no instance.
    pub open spec fn empty() -> RegistryView<S> {
        RegistryView {
            hf: Map::empty(),
            tiktoken: Map::empty(),
            jieba: None,
            tiniestsegmenter: None,
            whitespace: None,
        }
    }

    /// Whether the instance for `kind` is there.
    pub open spec fn holds(self, kind: KindView) -> bool {
        match kind {
            KindView::Whitespace => self.whitespace is Some,
            KindView::HuggingFace(model) => self.hf.contains_key(model),
            KindView::Jieba => self.jieba is Some,
            KindView::TinySegmenter => self.tiniestsegmenter is Some,
            KindView::Tiktoken(model) => self.tiktoken.contains_key(model),
        }
    }

    /// Whether a call can put the instance for `kind` there: a subword
    /// tokenizer only comes from the host, and a byte pair encoder needs a
    /// name that stands for an encoding.
    pub open spec fn can_build(kind: KindView) -> bool {
        match kind {
            KindView::HuggingFace(_) => false,
            KindView::Tiktoken(model) => resolved_encoding(model) is Some,
            _ => true,
        }
    }

    /// Every byte pair encoder is cached under a name that stands for the
    /// vocabulary it holds.
    pub open spec fn well_formed(self) -> bool {
        forall|model: Seq<char>| #[trigger]
            self.tiktoken.contains_key(model) ==> resolved_vocabulary(model) == Some(
                self.tiktoken[model]@,
            )
    }

    /// Whether `after` holds every instance of `self`, each as it was.
    pub open spec fn retained_by(self, after: RegistryView<S>) -> bool {
        &&& forall|model: Seq<char>| #[trigger]
            self.hf.contains_key(model) ==> after.hf.contains_key(model) && after.hf[model]
                == self.hf[model]
        &&& forall|model: Seq<char>| #[trigger]
            self.tiktoken.contains_key(model) ==> after.tiktoken.contains_key(model)
                && after.tiktoken[model] == self.tiktoken[model]
        &&& self.jieba is Some ==> after.jieba == self.jieba
        &&& self.tiniestsegmenter is Some ==> after.tiniestsegmenter == self.tiniestsegmenter
        &&& self.whitespace is Some ==> after.whitespace == self.whitespace
    }

    /// Whether `after` is `self` with the instance for `kind` put in, and
    /// nothing else changed.
    pub open spec fn gains(self, after: RegistryView<S>, kind: KindView) -> bool {
        &&& after.holds(kind)
        &&& match kind {
            KindView::Whitespace => after == (RegistryView { whitespace: after.whitespace, ..self }),
            KindView::HuggingFace(model) => after == (RegistryView {
                hf: self.hf.insert(model, after.hf[model]),
                ..self
            }),
            KindView::Jieba => after == (RegistryView { jieba: after.jieba, ..self }),
            KindView::TinySegmenter => after == (RegistryView {
                tiniestsegmenter: after.tiniestsegmenter,
                ..self
            }),
            KindView::Tiktoken(model) => after == (RegistryView {
                tiktoken: self.tiktoken.insert(model, after.tiktoken[model]),
                ..self
            }),
        }
    }
}

/// What a kind that the library brings the backend for comes to on
/// `text`, once its instance is there. It says nothing of the subword
/// kind, whose outcome is the host's backend's.
pub open spec fn expected_outcome(kind: KindView, text: Seq<char>) -> Result<
    Seq<Seq<char>>,
    EngineError,
> {
    match kind {
        KindView::Whitespace => Ok(split_whitespace(text)),
        KindView::Jieba => Ok(jieba_words(text)),
        KindView::TinySegmenter => Ok(tiniestsegmenter_words(text)),
        KindView::Tiktoken(model) => ranked(
            tiktoken_ranks(resolved_vocabulary(model)->Some_0, text),
        ),
        KindView::HuggingFace(_) => arbitrary(),
    }
}

/// What tokenizing `text` with `kind` does to a registry and comes to.
///
/// An instance that is there is used as it is. One that is missing is
/// built and kept wherever it can be built; where it cannot, the call
/// fails with `ModelLoadFailure` and the registry stays as it was. With
/// the instance there, the outcome is what the instance comes to.
pub open spec fn kind_step<S: Tokenize>(
    before: RegistryView<S>,
    after: RegistryView<S>,
    kind: KindView,
    text: Seq<char>,
    outcome: Result<Seq<Seq<char>>, EngineError>,
) -> bool {
    &&& after.holds(kind) <==> before.holds(kind) || RegistryView::<S>::can_build(kind)
    &&& if before.holds(kind) || !after.holds(kind) {
        after == before
    } else {
        before.gains(after, kind)
    }
    &&& !after.holds(kind) ==> outcome == Err::<Seq<Seq<char>>, EngineError>(
        EngineError::ModelLoadFailure,
    )
    &&& after.holds(kind) ==> match kind {
        KindView::HuggingFace(model) => after.hf[model].admits(text, outcome),
        KindView::Tiktoken(model) => {
            &&& outcome == ranked(tiktoken_ranks(after.tiktoken[model]@, text))
            &&& !before.holds(kind) ==> resolved_vocabulary(model) == Some(
                after.tiktoken[model]@,
            )
        },
        _ => outcome == expected_outcome(kind, text),
    }
}

/// What one call of `tokenize` does to a registry and comes to: a kind
/// token that names no kind, or that lacks its model, fails before the
/// registry is touched.
pub open spec fn tokenize_step<S: Tokenize>(
    before: RegistryView<S>,
    after: RegistryView<S>,
    tokenizer: Seq<char>,
    model: Option<Seq<char>>,
    text: Seq<char>,
    outcome: Result<Seq<Seq<char>>, EngineError>,
) -> bool {
    match kind_named(tokenizer, model) {
        Ok(kind) => kind_step(before, after, kind, text, outcome),
        Err(e) => after == before && outcome == Err::<Seq<Seq<char>>, EngineError>(e),
    }
}

impl<S> View for TokenizerRegistry<S> {
    type V = RegistryView<S>;

    closed spec fn view(&self) -> RegistryView<S> {
        RegistryView {
            hf: self.hf@,
            tiktoken: self.tiktoken@,
            jieba: self.jieba,
            tiniestsegmenter: self.tiniestsegmenter,
            whitespace: self.whitespace,
        }
    }
}

/// Tokenizes `s` with the instance that `cache` holds for `model`. Where
/// it holds none, `new_fn` is asked for one first, which is kept if it
/// comes; if none comes, the cache stays as it was.
pub fn _hashmap_tokenize<T: Tokenize, F: Fn(&str) -> Result<T, EngineError>>(
    cache: &mut StringHashMap<T>,
    model: &str,
    new_fn: F,
    s: &str,
) -> (r: Result<Vec<String>, EngineError>)
    requires
        call_requires(new_fn, (model,)),
    ensures
        old(cache)@.contains_key(model@) ==> final(cache)@ == old(cache)@,
        !old(cache)@.contains_key(model@) ==> exists|built: Result<T, EngineError>|
            call_ensures(new_fn, (model,), built) && match built {
                Ok(instance) => final(cache)@ == old(cache)@.insert(model@, instance),
                Err(e) => final(cache)@ == old(cache)@ && r == Err::<Vec<String>, EngineError>(e),
            },
        final(cache)@.contains_key(model@) ==> final(cache)@[model@].admits(s@, outcome_texts(r)),
{
    if !cache.contains_key(model) {
        let built = new_fn(model);
        match built {
            Ok(instance) => {
                cache.insert(String::from_str(model), instance);
                assert(call_ensures(new_fn, (model,), Ok::<T, EngineError>(instance)));
            },
            Err(e) => {
                assert(call_ensures(new_fn, (model,), Err::<T, EngineError>(e)));
                return Err(e);
            },
        }
    }
    let instance = cache.get(model).unwrap();
    instance.tokenize(s)
}

impl<S: Tokenize> TokenizerRegistry<S> {
    /// A registry that holds no instance yet.
    pub fn new() -> (r: TokenizerRegistry<S>)
        ensures
            r@ == RegistryView::<S>::empty(),
            r@.well_formed(),
    {
        TokenizerRegistry {
            hf: StringHashMap::new(),
            tiktoken: StringHashMap::new(),
            jieba: None,
            tiniestsegmenter: None,
            whitespace: None,
        }
    }

    /// Whether the instance for `kind` is there.
    pub fn is_loaded(&self, kind: &TokenizerKind) -> (r: bool)
        ensures
            r == self@.holds(kind@),
    {
        match kind {
            TokenizerKind::Whitespace => self.whitespace.is_some(),
            TokenizerKind::HuggingFace(model) => self.hf.contains_key(model),
            TokenizerKind::Jieba => self.jieba.is_some(),
            TokenizerKind::TinySegmenter => self.tiniestsegmenter.is_some(),
            TokenizerKind::Tiktoken(model) => self.tiktoken.contains_key(model),
        }
    }

    /// Whether tokenizing with this kind token and model would fail for
    /// want of a subword tokenizer: the host then loads the one for the
    /// model and hands it to `load_subword`.
    pub fn needs_subword(&self, tokenizer: &str, model: Option<&str>) -> (r: bool)
        ensures
            r == (kind_named(tokenizer@, optional_text(model)) matches Ok(
                KindView::HuggingFace(name),
            ) && !self@.hf.contains_key(name)),
    {
        match TokenizerKind::parse(tokenizer, model) {
            Ok(TokenizerKind::HuggingFace(name)) => !self.hf.contains_key(name),
            _ => false,
        }
    }

    /// Keeps `instance` as the subword tokenizer for `model`, unless one is
    /// there already: that one stays, and `instance` is dropped. Says
    /// whether `instance` was kept.
    pub fn load_subword(&mut self, model: &str, instance: S) -> (kept: bool)
        ensures
            kept == !old(self)@.hf.contains_key(model@),
            !kept ==> final(self)@ == old(self)@,
            kept ==> final(self)@ == (RegistryView {
                hf: old(self)@.hf.insert(model@, instance),
                ..old(self)@
            }),
            old(self)@.well_formed() ==> final(self)@.well_formed(),
    {
        if self.hf.contains_key(model) {
            return false;
        }
        self.hf.insert(String::from_str(model), instance);
        assert(self@.tiktoken == old(self)@.tiktoken);
        true
    }

    /// Tokenizes `s` with the instance for `kind` if it is there, and does
    /// nothing otherwise. The registry is only read, so callers that find
    /// the instance there need not wait for one another.
    pub fn tokenize_loaded(&self, kind: &TokenizerKind, s: &str) -> (r: Option<
        Result<Vec<String>, EngineError>,
    >)
        ensures
            r is Some <==> self@.holds(kind@),
            r matches Some(outcome) ==> kind_step(self@, self@, kind@, s@, outcome_texts(outcome)),
    {
        match kind {
            TokenizerKind::HuggingFace(model) => match self.hf.get(model) {
                Some(instance) => Some(instance.tokenize(s)),
                None => None,
            },
            TokenizerKind::Tiktoken(model) => match self.tiktoken.get(model) {
                Some(instance) => Some(instance.tokenize(s)),
                None => None,
            },
            TokenizerKind::Whitespace => match &self.whitespace {
                Some(instance) => Some(instance.tokenize(s)),
                None => None,
            },
            TokenizerKind::Jieba => match &self.jieba {
                Some(instance) => Some(instance.tokenize(s)),
                None => None,
            },
            TokenizerKind::TinySegmenter => match &self.tiniestsegmenter {
                Some(instance) => Some(instance.tokenize(s)),
                None => None,
            },
        }
    }

    /// Tokenizes `s` with the instance for `kind`, building the instance
    /// first where it is missing and can be built.
    pub fn tokenize(&mut self, kind: &TokenizerKind, s: &str) -> (r: Result<
        Vec<String>,
        EngineError,
    >)
        ensures
            kind_step(old(self)@, final(self)@, kind@, s@, outcome_texts(r)),
    {
        match kind {
            TokenizerKind::HuggingFace(model) => match self.hf.get(model) {
                Some(instance) => instance.tokenize(s),
                // A subword tokenizer comes in through `load_subword` only:
                // one that was never handed over cannot be loaded.
                None => Err(EngineError::ModelLoadFailure),
            },
            TokenizerKind::Tiktoken(model) => {
                _hashmap_tokenize(&mut self.tiktoken, model, TiktokenTokenizer::new, s)
            },
            TokenizerKind::Whitespace => {
                if self.whitespace.is_none() {
                    self.whitespace = Some(WhitespaceTokenizer);
                }
                self.whitespace.as_ref().unwrap().tokenize(s)
            },
            TokenizerKind::Jieba => {
                if self.jieba.is_none() {
                    self.jieba = Some(JiebaTokenizer::new());
                }
                self.jieba.as_ref().unwrap().tokenize(s)
            },
            TokenizerKind::TinySegmenter => {
                if self.tiniestsegmenter.is_none() {
                    self.tiniestsegmenter = Some(TiniestsegmenterTokenizer);
                }
                self.tiniestsegmenter.as_ref().unwrap().tokenize(s)
            },
        }
    }
}

/// Tokenizes `s` with the tokenizer that `tokenizer` and `model` name,
/// out of `registry`.
pub fn tokenize<S: Tokenize>(
    registry: &mut TokenizerRegistry<S>,
    tokenizer: &str,
    model: Option<&str>,
    s: &str,
) -> (r: Result<Vec<String>, EngineError>)
    ensures
        tokenize_step(
            old(registry)@,
            final(registry)@,
            tokenizer@,
            optional_text(model),
            s@,
            outcome_texts(r),
        ),
{
    match TokenizerKind::parse(tokenizer, model) {
        Ok(kind) => registry.tokenize(&kind, s),
        Err(e) => Err(e),
    }
}

/// What a registry holds, it goes on holding as it is: a call of
/// `tokenize` drops no instance and builds none again. A registry whose
/// encoders match their names stays so.
pub proof fn lemma_instances_are_retained<S: Tokenize>(
    before: RegistryView<S>,
    after: RegistryView<S>,
    tokenizer: Seq<char>,
    model: Option<Seq<char>>,
    text: Seq<char>,
    outcome: Result<Seq<Seq<char>>, EngineError>,
)
    requires
        tokenize_step(before, after, tokenizer, model, text, outcome),
    ensures
        before.retained_by(after),
        before.well_formed() ==> after.well_formed(),
{
}

/// Two calls for the same kind and model use the same instance: once a
/// call has yielded tokens, a later call for that kind and model finds
/// the instance there and leaves the registry as it is.
pub proof fn lemma_instance_is_built_once<S: Tokenize>(
    before: RegistryView<S>,
    between: RegistryView<S>,
    after: RegistryView<S>,
    tokenizer: Seq<char>,
    model: Option<Seq<char>>,
    first_text: Seq<char>,
    second_text: Seq<char>,
    first: Result<Seq<Seq<char>>, EngineError>,
    second: Result<Seq<Seq<char>>, EngineError>,
)
    requires
        tokenize_step(before, between, tokenizer, model, first_text, first),
        tokenize_step(between, after, tokenizer, model, second_text, second),
        first is Ok,
    ensures
        after == between,
        kind_named(tokenizer, model) is Ok,
        between.holds(kind_named(tokenizer, model)->Ok_0),
{
}

/// For a kind that the library brings the backend for, the outcome
/// depends on the kind token, the model and the text alone: whichever
/// registries two calls run on, both come to the same. The subword kind
/// is left out: its backend is the host's, and may make random choices.
pub proof fn lemma_tokenize_is_deterministic<S: Tokenize>(
    first_before: RegistryView<S>,
    first_after: RegistryView<S>,
    second_before: RegistryView<S>,
    second_after: RegistryView<S>,
    tokenizer: Seq<char>,
    model: Option<Seq<char>>,
    text: Seq<char>,
    first: Result<Seq<Seq<char>>, EngineError>,
    second: Result<Seq<Seq<char>>, EngineError>,
)
    requires
        first_before.well_formed(),
        second_before.well_formed(),
        tokenize_step(first_before, first_after, tokenizer, model, text, first),
        tokenize_step(second_before, second_after, tokenizer, model, text, second),
        !(kind_named(tokenizer, model) matches Ok(KindView::HuggingFace(_))),
    ensures
        first == second,
        kind_named(tokenizer, model) is Ok && first_after.holds(kind_named(tokenizer, model)->Ok_0)
            ==> first == expected_outcome(kind_named(tokenizer, model)->Ok_0, text),
{
}

/// For the subword kind, a later call on the same registry is served by
/// the very instance that served the earlier one, so both outcomes are
/// among those that this one instance admits. Where the instance admits
/// one outcome only for a text, as a backend without random choices does,
/// both calls come to the same.
pub proof fn lemma_subword_calls_share_the_instance<S: Tokenize>(
    before: RegistryView<S>,
    between: RegistryView<S>,
    after: RegistryView<S>,
    model: Seq<char>,
    text: Seq<char>,
    first: Result<Seq<Seq<char>>, EngineError>,
    second: Result<Seq<Seq<char>>, EngineError>,
)
    requires
        kind_step(before, between, KindView::HuggingFace(model), text, first),
        kind_step(between, after, KindView::HuggingFace(model), text, second),
        before.hf.contains_key(model),
    ensures
        after == before,
        before.hf[model].admits(text, first),
        before.hf[model].admits(text, second),
        (forall|a: Result<Seq<Seq<char>>, EngineError>, b: Result<Seq<Seq<char>>, EngineError>|
            before.hf[model].admits(text, a) && before.hf[model].admits(text, b) ==> a == b)
            ==> first == second,
{
}

/// A byte pair encoder is built for every name that stands for an
/// encoding, and for no other: with such a name the call comes to what
/// the encoder comes to, and with any other it fails with
/// `ModelLoadFailure` and builds nothing.
pub proof fn lemma_encoder_is_built_for_known_names<S: Tokenize>(
    before: RegistryView<S>,
    after: RegistryView<S>,
    model: Seq<char>,
    text: Seq<char>,
    outcome: Result<Seq<Seq<char>>, EngineError>,
)
    requires
        before.well_formed(),
        kind_step(before, after, KindView::Tiktoken(model), text, outcome),
    ensures
        resolved_encoding(model) is Some ==> after.tiktoken.contains_key(model) && outcome
            == expected_outcome(KindView::Tiktoken(model), text),
        resolved_encoding(model) is None ==> after == before && outcome == Err::<
            Seq<Seq<char>>,
            EngineError,
        >(EngineError::ModelLoadFailure),
{
}

/// Each of the six names of encodings stands for its encoding, whatever
/// models the table of `tiktoken_rs` knows.
pub proof fn lemma_encoding_names_resolve()
    ensures
        resolved_encoding("o200k_base"@) == Some(TiktokenEncoding::O200kBase),
        resolved_encoding("cl100k_base"@) == Some(TiktokenEncoding::Cl100kBase),
        resolved_encoding("p50k_base"@) == Some(TiktokenEncoding::P50kBase),
        resolved_encoding("p50k_edit"@) == Some(TiktokenEncoding::P50kEdit),
        resolved_encoding("r50k_base"@) == Some(TiktokenEncoding::R50kBase),
        resolved_encoding("gpt2"@) == Some(TiktokenEncoding::Gpt2),
{
    reveal_strlit("o200k_base");
    reveal_strlit("cl100k_base");
    reveal_strlit("p50k_base");
    reveal_strlit("p50k_edit");
    reveal_strlit("r50k_base");
    reveal_strlit("gpt2");
    // The names differ in length or in one of their first six characters.
    assert("cl100k_base"@.len() != "o200k_base"@.len());
    assert("p50k_base"@[0] != "o200k_base"@[0]);
    assert("p50k_edit"@[5] != "p50k_base"@[5]);
    assert("r50k_base"@[0] != "p50k_base"@[0]);
    assert("gpt2"@.len() == 4);
}

/// `"gpt2"` tokenizes as `"r50k_base"` does: both use one vocabulary.
pub proof fn lemma_gpt2_tokenizes_as_r50k_base(text: Seq<char>)
    ensures
        expected_outcome(KindView::Tiktoken("gpt2"@), text) == expected_outcome(
            KindView::Tiktoken("r50k_base"@),
            text,
        ),
{
    lemma_encoding_names_resolve();
}

/// A kind token that names no kind, or a parameterized kind without its
/// model, fails with the error that says so and leaves the registry
/// untouched.
pub proof fn lemma_kind_errors_touch_nothing<S: Tokenize>(
    before: RegistryView<S>,
    after: RegistryView<S>,
    tokenizer: Seq<char>,
    model: Option<Seq<char>>,
    text: Seq<char>,
    outcome: Result<Seq<Seq<char>>, EngineError>,
)
    requires
        tokenize_step(before, after, tokenizer, model, text, outcome),
        kind_named(tokenizer, model) is Err,
    ensures
        after == before,
        outcome is Err,
        outcome->Err_0 == EngineError::UnsupportedTokenizerKind || outcome->Err_0
            == EngineError::MissingModelParameter,
        outcome->Err_0 == EngineError::MissingModelParameter <==> model is None && (tokenizer
            == "hf"@ || tokenizer == "tiktoken"@),
{
}

} // verus!
