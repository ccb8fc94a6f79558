//! Token counting over the cl100k byte-pair encoding.
//!
//! The tokenizer itself lives in the `tiktoken_rs` crate; this module wraps
//! it behind a pair of trusted declarations and builds the counting,
//! limit-checking and truncation operations on top of them with full
//! contracts.

use vstd::prelude::*;
use vstd::string::*;
use vstd::utf8::{decode_utf8, valid_utf8};

verus! {

/// The token sequence that the cl100k byte-pair encoder produces for a text
/// (no special tokens allowed, so the result depends on the text alone).
pub uninterp spec fn cl100k_tokens(s: Seq<char>) -> Seq<u32>;

/// The bytes that the cl100k decoder produces for a token sequence, or
/// `None` when a token is outside the vocabulary.
pub uninterp spec fn cl100k_decode_bytes(tokens: Seq<u32>) -> Option<Seq<u8>>;

#[verifier::external_type_specification]
#[verifier::external_body]
pub struct ExCoreBPE(tiktoken_rs::CoreBPE);

/// Result of counting one text.
pub struct TokenCountResult {
    pub text: String,
    pub token_count: usize,
    pub char_count: usize,
}

/// Token counting service. The only constructor loads the cl100k encoding,
/// so every value of this type counts with that encoding.
pub struct TokenCounter {
    bpe: tiktoken_rs::CoreBPE,
}

/// What `truncate_to_limit` returns: the text itself when it fits, otherwise
/// the decoding of its first `limit` tokens, falling back to a character
/// prefix (four characters per token) when those tokens do not decode to
/// valid text.
pub open spec fn spec_truncated(s: Seq<char>, limit: nat) -> Seq<char> {
    if cl100k_tokens(s).len() <= limit {
        s
    } else {
        match cl100k_decode_bytes(cl100k_tokens(s).take(limit as int)) {
            Some(bytes) => if valid_utf8(bytes) {
                decode_utf8(bytes)
            } else {
                s.take(char_fallback_len(s, limit) as int)
            },
            None => s.take(char_fallback_len(s, limit) as int),
        }
    }
}

/// Length of the character-prefix fallback: four characters per allowed
/// token, clipped to the text length.
pub open spec fn char_fallback_len(s: Seq<char>, limit: nat) -> nat {
    if 4 * limit <= s.len() {
        4 * limit
    } else {
        s.len()
    }
}

impl TokenCounter {
    /// Relies on `tiktoken_rs::cl100k_base`: loads the cl100k encoding from
    /// a fixed asset embedded in that crate, whose parse always succeeds,
    /// so a counter is always returned.
    #[verifier::external_body]
    pub fn new() -> (r: Result<TokenCounter, String>)
        ensures
            r is Ok,
    {
        match tiktoken_rs::cl100k_base() {
            Ok(bpe) => Ok(TokenCounter { bpe }),
            Err(e) => Err(format!("Failed to load tokenizer: {}", e)),
        }
    }

    /// Relies on `tiktoken_rs::CoreBPE::encode_ordinary`: byte-pair encodes
    /// the text without special-token handling, a pure function of the text
    /// for the cl100k encoding that `new` loads; the empty text encodes to
    /// no tokens.
    #[verifier::external_body]
    fn encode_raw(&self, text: &str) -> (r: Vec<u32>)
        ensures
            r@ == cl100k_tokens(text@),
            text@.len() == 0 ==> r@.len() == 0,
    {
        self.bpe.encode_ordinary(text)
    }

    /// Relies on `tiktoken_rs::CoreBPE::decode_bytes`: maps each token back
    /// to its bytes, failing on tokens outside the vocabulary; a pure
    /// function of the token sequence for the cl100k encoding.
    #[verifier::external_body]
    fn decode_raw(&self, tokens: &Vec<u32>) -> (r: Option<Vec<u8>>)
        ensures
            match r {
                Some(bytes) => cl100k_decode_bytes(tokens@) == Some(bytes@),
                None => cl100k_decode_bytes(tokens@) is None,
            },
    {
        match self.bpe.decode_bytes(tokens) {
            Ok(bytes) => Some(bytes),
            Err(_) => None,
        }
    }

    /// Count the tokens of one text.
    pub fn count_tokens(&self, text: &str) -> (r: TokenCountResult)
        ensures
            r.text@ == text@,
            r.token_count == cl100k_tokens(text@).len(),
            r.char_count == text@.len(),
            text@.len() == 0 ==> r.token_count == 0,
    {
        let tokens = self.encode_raw(text);
        TokenCountResult {
            text: text.to_owned(),
            token_count: tokens.len(),
            char_count: text.unicode_len(),
        }
    }

    /// Token count alone.
    pub fn count(&self, text: &str) -> (n: usize)
        ensures
            n == cl100k_tokens(text@).len(),
            text@.len() == 0 ==> n == 0,
    {
        let tokens = self.encode_raw(text);
        tokens.len()
    }

    /// Count each text of a batch.
    pub fn count_tokens_batch(&self, texts: &Vec<String>) -> (r: Vec<TokenCountResult>)
        ensures
            r@.len() == texts@.len(),
            forall|i: int| 0 <= i < r@.len() ==> {
                &&& #[trigger] r@[i].text@ == texts@[i]@
                &&& r@[i].token_count == cl100k_tokens(texts@[i]@).len()
                &&& r@[i].char_count == texts@[i]@.len()
            },
    {
        let mut out: Vec<TokenCountResult> = Vec::new();
        let mut i: usize = 0;
        while i < texts.len()
            invariant
                i <= texts@.len(),
                out@.len() == i,
                forall|j: int| 0 <= j < i ==> {
                    &&& #[trigger] out@[j].text@ == texts@[j]@
                    &&& out@[j].token_count == cl100k_tokens(texts@[j]@).len()
                    &&& out@[j].char_count == texts@[j]@.len()
                },
            decreases texts@.len() - i,
        {
            out.push(self.count_tokens(texts[i].as_str()));
            i += 1;
        }
        out
    }

    /// Whether the text's token count stays within `limit`.
    pub fn is_within_limit(&self, text: &str, limit: usize) -> (r: bool)
        ensures
            r <==> cl100k_tokens(text@).len() <= limit,
    {
        let tokens = self.encode_raw(text);
        tokens.len() <= limit
    }

    /// Truncate a text to at most `limit` tokens, preferring a cut on a
    /// token boundary and falling back to a character prefix when the kept
    /// tokens do not decode to valid text.
    pub fn truncate_to_limit(&self, text: &str, limit: usize) -> (r: String)
        ensures
            r@ == spec_truncated(text@, limit as nat),
    {
        let mut tokens = self.encode_raw(text);
        if tokens.len() <= limit {
            return text.to_owned();
        }
        tokens.truncate(limit);
        proof {
            assert(tokens@ == cl100k_tokens(text@).take(limit as int));
        }
        match self.decode_raw(&tokens) {
            Some(bytes) => {
                match bytes_to_string(bytes) {
                    Some(s) => s,
                    None => char_prefix(text, limit),
                }
            },
            None => char_prefix(text, limit),
        }
    }
}

/// The character-prefix fallback of `truncate_to_limit`.
fn char_prefix(text: &str, limit: usize) -> (r: String)
    ensures
        r@ == text@.take(char_fallback_len(text@, limit as nat) as int),
{
    let n = text.unicode_len();
    let cut: usize = if limit <= usize::MAX / 4 && 4 * limit <= n {
        4 * limit
    } else {
        n
    };
    proof {
        assert(cut as nat == char_fallback_len(text@, limit as nat));
    }
    let piece = text.substring_char(0, cut);
    piece.to_owned()
}

/// Relies on `String::from_utf8` of std: succeeds exactly on valid UTF-8 and
/// then returns the decoded characters, as `vstd::utf8` models them.
#[verifier::external_body]
pub fn bytes_to_string(bytes: Vec<u8>) -> (r: Option<String>)
    ensures
        match r {
            Some(s) => valid_utf8(bytes@) && s@ == decode_utf8(bytes@),
            None => !valid_utf8(bytes@),
        },
{
    match String::from_utf8(bytes) {
        Ok(s) => Some(s),
        Err(_) => None,
    }
}

} // verus!
