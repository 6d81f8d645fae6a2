use vstd::prelude::*;

verus! {

/// Why a call into the engine failed. Every failure is final for the call
/// that met it: nothing is retried, and no partial result is handed out.
#[derive(Clone, Copy, Debug, PartialEq, Eq, Structural)]
pub enum EngineError {
    /// The tokenizer kind is none of those the registry knows.
    UnsupportedTokenizerKind,
    /// A kind that is parameterized by a model was asked for without one.
    MissingModelParameter,
    /// The model or encoding could not be resolved or loaded.
    ModelLoadFailure,
    /// A loaded subword tokenizer gave up on the text it was handed.
    TokenizationFailure,
    /// The output dialect is none of those the formatter knows.
    UnsupportedOutputDialect,
}

impl EngineError {
    /// What `message` says of each failure.
    pub open spec fn description(self) -> Seq<char> {
        match self {
            EngineError::UnsupportedTokenizerKind => "Unknown tokenizer"@,
            EngineError::MissingModelParameter => "model must be provided"@,
            EngineError::ModelLoadFailure => "Unknown model"@,
            EngineError::TokenizationFailure => "failed to tokenize"@,
            EngineError::UnsupportedOutputDialect => "unknown svector style"@,
        }
    }

    /// A short description for whoever shows the failure to a user.
    pub fn message(&self) -> (r: String)
        ensures
            r@ == self.description(),
    {
        let text = match self {
            EngineError::UnsupportedTokenizerKind => "Unknown tokenizer",
            EngineError::MissingModelParameter => "model must be provided",
            EngineError::ModelLoadFailure => "Unknown model",
            EngineError::TokenizationFailure => "failed to tokenize",
            EngineError::UnsupportedOutputDialect => "unknown svector style",
        };
        String::from_str(text)
    }
}

} // verus!
