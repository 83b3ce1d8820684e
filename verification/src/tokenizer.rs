//! The byte-pair encodings that count tokens.

use vstd::prelude::*;

verus! {

/// The tokenizer of the `tiktoken_rs` crate.
#[verifier::external_type_specification]
#[verifier::external_body]
pub struct ExCoreBPE(tiktoken_rs::CoreBPE);

/// The error that `tiktoken_rs` gives where loading or counting fails.
#[verifier::external_type_specification]
#[verifier::external_body]
pub struct ExAnyhowError(anyhow::Error);

/// The name of the vocabulary that a tokenizer holds.
pub uninterp spec fn vocabulary_name(bpe: tiktoken_rs::CoreBPE) -> Seq<char>;

/// How many tokens the ordinary encoding, the one in which no special token
/// is recognised, gives for `text` with the vocabulary named `vocabulary`;
/// `None` where the encoder gives up on the text.
pub uninterp spec fn ordinary_token_count(vocabulary: Seq<char>, text: Seq<char>) -> Option<nat>;

/// `tiktoken_rs::cl100k_base`: builds the tokenizer of the vocabulary
/// cl100k_base. It takes no input and reads only the vocabulary that is
/// compiled into the crate, so it gives the same on every call: the claim
/// is that this is a tokenizer, and no error.
#[verifier::external_body]
fn load_cl100k() -> (loaded: Result<tiktoken_rs::CoreBPE, anyhow::Error>)
    ensures
        loaded is Ok,
        loaded matches Ok(bpe) ==> vocabulary_name(bpe) == "cl100k_base"@,
{
    tiktoken_rs::cl100k_base()
}

/// `tiktoken_rs::o200k_base`: builds the tokenizer of the vocabulary
/// o200k_base. It takes no input and reads only the vocabulary that is
/// compiled into the crate, so it gives the same on every call: the claim
/// is that this is a tokenizer, and no error.
#[verifier::external_body]
fn load_o200k() -> (loaded: Result<tiktoken_rs::CoreBPE, anyhow::Error>)
    ensures
        loaded is Ok,
        loaded matches Ok(bpe) ==> vocabulary_name(bpe) == "o200k_base"@,
{
    tiktoken_rs::o200k_base()
}

/// `tiktoken_rs::CoreBPE::count` with no special token allowed, which
/// counts the tokens of the ordinary encoding and hands back as an error
/// what would stop that encoding: the text is split with a backtracking
/// regular expression, and the engine may give up. Whether it does, and the
/// number of tokens where it does not, depend on the vocabulary and the
/// text alone.
#[verifier::external_body]
fn count_ordinary(bpe: &tiktoken_rs::CoreBPE, text: &str) -> (counted: Result<usize, anyhow::Error>)
    ensures
        counted is Ok <==> ordinary_token_count(vocabulary_name(*bpe), text@) is Some,
        counted matches Ok(count) ==> ordinary_token_count(vocabulary_name(*bpe), text@) == Some(
            count as nat,
        ),
{
    bpe.count(text, &std::collections::HashSet::new())
}

/// `anyhow::Error` shown with its chain of causes. Nothing is claimed of
/// the text.
#[verifier::external_body]
fn load_error_text(error: &anyhow::Error) -> (text: String) {
    format!("{error:#}")
}

/// The encodings that can be loaded.
#[derive(Clone, Copy, Debug, PartialEq, Eq)]
pub enum Encoding {
    Cl100kBase,
    O200kBase,
}

/// The name of the vocabulary of an encoding.
pub open spec fn vocabulary_of(encoding: Encoding) -> Seq<char> {
    match encoding {
        Encoding::Cl100kBase => "cl100k_base"@,
        Encoding::O200kBase => "o200k_base"@,
    }
}

/// How many tokens `encoding` counts in `text`; `None` where its encoder
/// gives up on the text.
pub open spec fn token_count(encoding: Encoding, text: Seq<char>) -> Option<nat> {
    ordinary_token_count(vocabulary_of(encoding), text)
}

/// Why an encoding could not be loaded.
#[derive(Clone, Debug, PartialEq, Eq)]
pub struct LoadError {
    /// What the loader reported.
    pub reason: String,
}

impl LoadError {
    /// The text shown for this error.
    pub fn message(&self) -> (text: String)
        ensures
            text@ == "failed to load encoding: "@ + self.reason@,
    {
        let mut text = String::new();
        text.append("failed to load encoding: ");
        text.append(self.reason.as_str());
        assert(text@ =~= "failed to load encoding: "@ + self.reason@);
        text
    }
}

/// A loaded encoding. It is never changed once loaded, so one tokenizer can
/// serve every file of a run.
pub struct Tokenizer {
    encoding: Encoding,
    bpe: tiktoken_rs::CoreBPE,
}

impl Tokenizer {
    #[verifier::type_invariant]
    spec fn holds_its_vocabulary(self) -> bool {
        vocabulary_name(self.bpe) == vocabulary_of(self.encoding)
    }

    /// The encoding that was loaded.
    pub closed spec fn encoding_spec(&self) -> Encoding {
        self.encoding
    }

    /// The encoding that was loaded.
    pub fn encoding(&self) -> (encoding: Encoding)
        ensures
            encoding == self.encoding_spec(),
    {
        self.encoding
    }

    /// Counts the tokens of `text`, the whole of it in one pass and without
    /// special tokens; `None` where the encoder gives up on the text.
    pub fn count(&self, text: &str) -> (tokens: Option<u64>)
        ensures
            tokens is Some <==> token_count(self.encoding_spec(), text@) is Some,
            tokens matches Some(count) ==> token_count(self.encoding_spec(), text@) == Some(
                count as nat,
            ),
    {
        proof {
            use_type_invariant(self);
        }
        match count_ordinary(&self.bpe, text) {
            Ok(count) => Some(count as u64),
            Err(_) => None,
        }
    }
}

impl Encoding {
    /// The name of the vocabulary of this encoding.
    pub fn name(&self) -> (name: &'static str)
        ensures
            name@ == vocabulary_of(*self),
    {
        match self {
            Encoding::Cl100kBase => "cl100k_base",
            Encoding::O200kBase => "o200k_base",
        }
    }

    /// Loads the tokenizer of this encoding. The vocabularies are part of
    /// the program, so loading succeeds, and the tokenizer is of this
    /// encoding.
    pub fn load(&self) -> (loaded: Result<Tokenizer, LoadError>)
        ensures
            loaded is Ok,
            loaded matches Ok(tokenizer) ==> tokenizer.encoding_spec() == *self,
    {
        match self {
            Encoding::Cl100kBase => Self::loaded_as(Encoding::Cl100kBase, load_cl100k()),
            Encoding::O200kBase => Self::loaded_as(Encoding::O200kBase, load_o200k()),
        }
    }

    /// The tokenizer of `encoding` out of what its loader gave: the
    /// tokenizer where there is one, else the loader's error as text.
    fn loaded_as(encoding: Encoding, loaded: Result<tiktoken_rs::CoreBPE, anyhow::Error>) -> (made:
        Result<Tokenizer, LoadError>)
        requires
            loaded matches Ok(bpe) ==> vocabulary_name(bpe) == vocabulary_of(encoding),
        ensures
            made is Ok <==> loaded is Ok,
            made matches Ok(tokenizer) ==> tokenizer.encoding_spec() == encoding,
    {
        match loaded {
            Ok(bpe) => Ok(Tokenizer { encoding, bpe }),
            Err(error) => Err(LoadError { reason: load_error_text(&error) }),
        }
    }
}

} // verus!
