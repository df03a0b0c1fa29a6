//! Token estimation: how much of a model's context a text is likely to use.

use vstd::prelude::*;
use vstd::string::StrSliceExecFns;
use vstd::string::StringSliceAdditionalSpecFns;
use vstd::utf8::decode_utf8;
use vstd::utf8::encode_utf8;
use vstd::utf8::encode_utf8_decode_utf8;
use vstd::utf8::encode_utf8_valid_utf8;
use vstd::utf8::is_char_boundary;
use vstd::utf8::is_char_boundary_iff_not_is_continuation_byte;
use vstd::utf8::is_char_boundary_start_end_of_seq;
use vstd::utf8::valid_utf8_split;
use crate::text::char_is_alphanumeric;
use crate::text::char_is_whitespace;
use crate::text::is_alphanumeric;
use crate::text::is_whitespace;

verus! {

/// Characters that the simple strategy counts as one token.
pub const SIMPLE_CHARS_PER_TOKEN: usize = 4;

/// Special characters that add one token in the enhanced strategy.
pub const ENHANCED_SPECIAL_DIVISOR: usize = 10;

/// Type of tokenizer to use for estimation.
#[derive(Debug, Clone, Copy, PartialEq, Eq, Structural)]
pub enum TokenizerKind {
    /// Simple character-based tokenizer (~4 chars per token)
    Simple,
    /// Enhanced tokenizer with word and special character analysis
    Enhanced,
}

/// Whether a word begins at position `i` of `s`: a character that is not
/// whitespace, at the start or directly after whitespace.
pub open spec fn word_starts_at(s: Seq<char>, i: int) -> bool {
    &&& 0 <= i < s.len()
    &&& !char_is_whitespace(s[i])
    &&& (i == 0 || char_is_whitespace(s[i - 1]))
}

/// Number of whitespace-separated words in `s`.
pub open spec fn word_count(s: Seq<char>) -> nat
    decreases s.len(),
{
    if s.len() == 0 {
        0
    } else {
        word_count(s.drop_last()) + if word_starts_at(s, s.len() - 1) {
            1nat
        } else {
            0nat
        }
    }
}

/// Whether `c` is neither alphanumeric nor whitespace.
pub open spec fn is_special(c: char) -> bool {
    !char_is_alphanumeric(c) && !char_is_whitespace(c)
}

/// Number of special characters in `s`.
pub open spec fn special_count(s: Seq<char>) -> nat
    decreases s.len(),
{
    if s.len() == 0 {
        0
    } else {
        special_count(s.drop_last()) + if is_special(s.last()) {
            1nat
        } else {
            0nat
        }
    }
}

/// The simple estimate: a quarter of the character count, rounded up.
pub open spec fn simple_tokens(s: Seq<char>) -> nat {
    ((s.len() + 3) / 4) as nat
}

/// The enhanced estimate: the mean of 1.3 tokens per word and a quarter
/// token per character, plus a tenth of a token per special character, and
/// at least one token for a text that is not empty.
pub open spec fn enhanced_tokens(s: Seq<char>) -> nat {
    if s.len() == 0 {
        0
    } else {
        let by_words = word_count(s) * 13 / 10;
        let by_chars = s.len() / 4;
        let total = (by_words + by_chars) / 2 + special_count(s) / 10;
        if total < 1 {
            1
        } else {
            total as nat
        }
    }
}

/// A text has no more words than characters.
pub proof fn lemma_word_count_bound(s: Seq<char>)
    ensures
        word_count(s) <= s.len(),
    decreases s.len(),
{
    if s.len() > 0 {
        lemma_word_count_bound(s.drop_last());
    }
}

/// A text has no more special characters than characters.
pub proof fn lemma_special_count_bound(s: Seq<char>)
    ensures
        special_count(s) <= s.len(),
    decreases s.len(),
{
    if s.len() > 0 {
        lemma_special_count_bound(s.drop_last());
    }
}

/// Counts words in text (whitespace-separated).
pub fn count_words(text: &str) -> (n: usize)
    ensures
        n == word_count(text@),
{
    let len = text.unicode_len();
    let mut n: usize = 0;
    let mut after_whitespace = true;
    for c in iter: text.chars()
        invariant
            iter.seq() == text@,
            len == text@.len(),
            n == word_count(text@.take(iter.index() as int)),
            n <= iter.index() <= len,
            after_whitespace == (iter.index() == 0 || char_is_whitespace(
                text@[iter.index() - 1],
            )),
    {
        proof {
            let k = iter.index() as int;
            assert(text@.take(k + 1).drop_last() == text@.take(k));
        }
        let whitespace = is_whitespace(c);
        if !whitespace && after_whitespace {
            n = n + 1;
        }
        after_whitespace = whitespace;
    }
    proof {
        assert(text@.take(len as int) == text@);
    }
    n
}

/// Counts special (non-alphanumeric) characters.
pub fn count_special_chars(text: &str) -> (n: usize)
    ensures
        n == special_count(text@),
{
    let len = text.unicode_len();
    let mut n: usize = 0;
    for c in iter: text.chars()
        invariant
            iter.seq() == text@,
            len == text@.len(),
            n == special_count(text@.take(iter.index() as int)),
            n <= iter.index() <= len,
    {
        proof {
            let k = iter.index() as int;
            assert(text@.take(k + 1).drop_last() == text@.take(k));
        }
        if !is_alphanumeric(c) && !is_whitespace(c) {
            n = n + 1;
        }
    }
    proof {
        assert(text@.take(len as int) == text@);
    }
    n
}

/// Trait for estimating token counts in text.
///
/// An estimate depends on the text alone, and is zero for the empty text
/// only.
pub trait TokenEstimator: Send + Sync {
    /// The estimate for `text`.
    spec fn tokens(&self, text: Seq<char>) -> nat;

    /// An estimate is zero exactly for the empty text.
    proof fn lemma_zero_iff_empty(&self, text: Seq<char>)
        ensures
            self.tokens(text) == 0 <==> text.len() == 0,
    ;

    /// Estimates the number of tokens in the given text.
    fn estimate(&self, text: &str) -> (n: usize)
        ensures
            n == self.tokens(text@),
    ;

    /// Estimates tokens for a batch of texts, one estimate per text, in order.
    fn estimate_batch(&self, texts: &[&str]) -> (counts: Vec<usize>)
        ensures
            counts.len() == texts.len(),
            forall|i: int| 0 <= i < texts.len() ==> counts[i] == self.tokens(#[trigger] texts[i]@),
    {
        let mut counts: Vec<usize> = Vec::new();
        let mut i: usize = 0;
        while i < texts.len()
            invariant
                i <= texts.len(),
                counts.len() == i,
                forall|j: int| 0 <= j < i ==> counts[j] == self.tokens(#[trigger] texts[j]@),
            decreases texts.len() - i,
        {
            let n = self.estimate(texts[i]);
            counts.push(n);
            i = i + 1;
        }
        counts
    }
}

/// Simple character-based tokenizer.
///
/// Uses a heuristic of approximately 4 characters per token,
/// which works reasonably well for source code.
#[derive(Debug, Clone, Copy)]
pub struct SimpleTokenizer;

impl TokenEstimator for SimpleTokenizer {
    open spec fn tokens(&self, text: Seq<char>) -> nat {
        simple_tokens(text)
    }

    proof fn lemma_zero_iff_empty(&self, text: Seq<char>) {
    }

    fn estimate(&self, text: &str) -> (n: usize) {
        let char_count = text.unicode_len();
        char_count / SIMPLE_CHARS_PER_TOKEN + if char_count % SIMPLE_CHARS_PER_TOKEN != 0 {
            1
        } else {
            0
        }
    }
}

/// Enhanced tokenizer with multiple heuristics.
///
/// This tokenizer considers:
/// - Word count (weighted by 1.3)
/// - Character count (divided by 4)
/// - Special characters (penalty factor)
#[derive(Debug, Clone, Copy)]
pub struct EnhancedTokenizer;

impl TokenEstimator for EnhancedTokenizer {
    open spec fn tokens(&self, text: Seq<char>) -> nat {
        enhanced_tokens(text)
    }

    proof fn lemma_zero_iff_empty(&self, text: Seq<char>) {
    }

    fn estimate(&self, text: &str) -> (n: usize) {
        let chars = text.unicode_len();
        if chars == 0 {
            return 0;
        }
        let words = count_words(text);
        let special_chars = count_special_chars(text);
        proof {
            lemma_word_count_bound(text@);
            lemma_special_count_bound(text@);
        }
        let word_estimate: u128 = (words as u128) * 13 / 10;
        let char_estimate: u128 = (chars / SIMPLE_CHARS_PER_TOKEN) as u128;
        let special_penalty: u128 = (special_chars / ENHANCED_SPECIAL_DIVISOR) as u128;
        let total: u128 = (word_estimate + char_estimate) / 2 + special_penalty;
        if total < 1 {
            1
        } else {
            total as usize
        }
    }
}

/// The estimator that a [`TokenizerKind`] selects.
#[derive(Debug, Clone, Copy)]
pub enum Tokenizer {
    /// The simple strategy.
    Simple(SimpleTokenizer),
    /// The enhanced strategy.
    Enhanced(EnhancedTokenizer),
}

impl TokenEstimator for Tokenizer {
    open spec fn tokens(&self, text: Seq<char>) -> nat {
        match self {
            Tokenizer::Simple(_) => simple_tokens(text),
            Tokenizer::Enhanced(_) => enhanced_tokens(text),
        }
    }

    proof fn lemma_zero_iff_empty(&self, text: Seq<char>) {
    }

    fn estimate(&self, text: &str) -> (n: usize) {
        match self {
            Tokenizer::Simple(simple) => simple.estimate(text),
            Tokenizer::Enhanced(enhanced) => enhanced.estimate(text),
        }
    }
}

impl TokenizerKind {
    /// Creates a new tokenizer instance of this kind.
    #[must_use]
    pub fn create(self) -> (tokenizer: Tokenizer)
        ensures
            tokenizer == match self {
                TokenizerKind::Simple => Tokenizer::Simple(SimpleTokenizer),
                TokenizerKind::Enhanced => Tokenizer::Enhanced(EnhancedTokenizer),
            },
    {
        match self {
            TokenizerKind::Simple => Tokenizer::Simple(SimpleTokenizer),
            TokenizerKind::Enhanced => Tokenizer::Enhanced(EnhancedTokenizer),
        }
    }
}

/// Whether byte offset `i` of `text`, encoded as UTF-8, is where a
/// character starts or where the text ends.
pub open spec fn on_char_boundary(text: Seq<char>, i: int) -> bool {
    is_char_boundary(encode_utf8(text), i)
}

/// The text that the bytes `start..end` of `text` hold, with `end` cut down
/// to the length of `text` in bytes.
pub open spec fn byte_slice(text: Seq<char>, start: int, end: int) -> Seq<char> {
    let bytes = encode_utf8(text);
    let stop = if end < bytes.len() {
        end
    } else {
        bytes.len() as int
    };
    decode_utf8(bytes.subrange(start, stop))
}

/// Estimates tokens for the bytes `start..end` of `text`, with `end` cut
/// down to the text's length. A `start` at or behind the end gives 0.
/// Both offsets have to fall on character boundaries.
pub fn estimate_slice<E: TokenEstimator>(estimator: &E, text: &str, start: usize, end: usize) -> (n:
    usize)
    requires
        start < encode_utf8(text@).len() ==> {
            &&& start <= end
            &&& on_char_boundary(text@, start as int)
            &&& end < encode_utf8(text@).len() ==> on_char_boundary(text@, end as int)
        },
    ensures
        n == if start >= encode_utf8(text@).len() {
            0
        } else {
            estimator.tokens(byte_slice(text@, start as int, end as int))
        },
{
    let len = text.as_bytes().len();
    if start >= len {
        return 0;
    }
    let end = if end < len {
        end
    } else {
        len
    };
    let ghost bytes = encode_utf8(text@);
    proof {
        encode_utf8_valid_utf8(text@);
        valid_utf8_split(bytes, start as int);
    }
    let (_, tail) = text.split_at(start);
    proof {
        let rest = bytes.subrange(start as int, len as int);
        assert(tail.spec_bytes() == rest);
        if end == len {
            is_char_boundary_start_end_of_seq(rest);
        } else if end > start {
            is_char_boundary_iff_not_is_continuation_byte(bytes, end as int);
            is_char_boundary_iff_not_is_continuation_byte(rest, end - start);
        }
    }
    let (slice, _) = tail.split_at(end - start);
    proof {
        assert(slice.spec_bytes() == bytes.subrange(start as int, end as int));
        encode_utf8_decode_utf8(slice@);
    }
    estimator.estimate(slice)
}

} // verus!
