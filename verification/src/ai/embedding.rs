//! Providers of embeddings.

use vstd::prelude::*;

use crate::ai::error::{config_error, misconfigured, AiError};
use crate::ai::provider::{allowed_base, is_allowed_base, DisabledProvider};
use crate::text::{is_blank, join2, to_chars, trim_end_char, trim_end_of, trimmed};

verus! {

/// A text to be embedded.
#[derive(Debug)]
pub struct EmbeddingInput {
    pub id: String,
    pub text: String,
}

/// An embedding before its vector is scaled to unit length.
#[derive(Debug)]
pub struct RawEmbedding {
    pub id: String,
    pub model: String,
    pub dimensions: usize,
    pub weights: Vec<usize>,
}

/// A provider of embeddings that answers at once.
pub trait EmbeddingProvider {
    fn name(&self) -> &str;

    fn dimensions(&self) -> usize;

    fn is_available(&self) -> bool;

    fn embed(&self, inputs: &Vec<EmbeddingInput>) -> Result<Vec<RawEmbedding>, AiError>;
}

impl EmbeddingProvider for DisabledProvider {
    fn name(&self) -> (r: &str)
        ensures
            r@ == "disabled"@,
    {
        "disabled"
    }

    fn dimensions(&self) -> (r: usize)
        ensures
            r == 0,
    {
        0
    }

    fn is_available(&self) -> (r: bool)
        ensures
            !r,
    {
        false
    }

    fn embed(&self, inputs: &Vec<EmbeddingInput>) -> (r: Result<Vec<RawEmbedding>, AiError>)
        ensures
            r matches Err(e) && e is Disabled,
    {
        Err(AiError::Disabled)
    }
}

// ---------------------------------------------------------------------------
// Local embeddings
// ---------------------------------------------------------------------------

/// Embeds a text as a bag of its characters and their places.
#[derive(Debug, Clone, Copy, PartialEq, Eq, Structural)]
pub struct HashEmbeddingProvider {
    pub dimensions: usize,
}

impl Default for HashEmbeddingProvider {
    fn default() -> (r: HashEmbeddingProvider)
        ensures
            r.dimensions == 32,
    {
        HashEmbeddingProvider { dimensions: 32 }
    }
}

/// The dimension that the character `c` at place `i` counts for.
pub open spec fn bucket(c: char, i: int, dimensions: int) -> int {
    (((c as u32) as usize).wrapping_add(i as usize) as int) % dimensions
}

/// How many characters of the text count for the dimension `k`.
pub open spec fn bucket_count(text: Seq<char>, dimensions: int, k: int) -> nat
    decreases text.len(),
{
    if text.len() == 0 {
        0
    } else {
        bucket_count(text.drop_last(), dimensions, k) + if bucket(
            text.last(),
            text.len() - 1,
            dimensions,
        ) == k {
            1nat
        } else {
            0nat
        }
    }
}

proof fn lemma_bucket_count_bound(text: Seq<char>, dimensions: int, k: int)
    ensures
        bucket_count(text, dimensions, k) <= text.len(),
    decreases text.len(),
{
    if text.len() > 0 {
        lemma_bucket_count_bound(text.drop_last(), dimensions, k);
    }
}

fn embed_text(text: &str, dimensions: usize) -> (r: Vec<usize>)
    requires
        dimensions >= 1,
    ensures
        r@.len() == dimensions,
        forall|k: int|
            0 <= k < dimensions ==> #[trigger] r@[k] == bucket_count(text@, dimensions as int, k),
{
    let chars = to_chars(text);
    let n: usize = chars.len();
    let mut weights: Vec<usize> = Vec::new();
    let mut k: usize = 0;
    while k < dimensions
        invariant
            0 <= k <= dimensions,
            weights@.len() == k,
            forall|j: int| 0 <= j < k ==> #[trigger] weights@[j] == 0,
        decreases dimensions - k,
    {
        weights.push(0);
        k = k + 1;
    }
    let mut i: usize = 0;
    assert(text@.take(0) =~= Seq::empty());
    while i < n
        invariant
            0 <= i <= n == chars@.len(),
            dimensions >= 1,
            chars@ == text@,
            weights@.len() == dimensions,
            forall|j: int|
                0 <= j < dimensions ==> #[trigger] weights@[j] == bucket_count(
                    text@.take(i as int),
                    dimensions as int,
                    j,
                ),
        decreases n - i,
    {
        let c: char = chars[i];
        let at: usize = ((c as u32) as usize).wrapping_add(i) % dimensions;
        proof {
            let next = text@.take(i + 1);
            assert(next.drop_last() =~= text@.take(i as int));
            assert(next.last() == c);
            assert(at == bucket(c, i as int, dimensions as int));
            lemma_bucket_count_bound(text@.take(i as int), dimensions as int, at as int);
        }
        let ghost before = weights@;
        let count: usize = weights[at];
        weights.set(at, count + 1);
        i = i + 1;
    }
    assert(text@.take(n as int) =~= text@);
    weights
}

pub open spec fn at_least_one(n: usize) -> usize {
    if n < 1 {
        1
    } else {
        n
    }
}

/// The embedding of one text.
pub open spec fn is_hash_embedding(e: RawEmbedding, input: EmbeddingInput, dimensions: usize) -> bool {
    &&& e.id@ == input.id@
    &&& e.model@ == "hash-embed-v1"@
    &&& e.dimensions == dimensions
    &&& e.weights@.len() == dimensions
    &&& forall|k: int|
        0 <= k < dimensions ==> #[trigger] e.weights@[k] == bucket_count(
            input.text@,
            dimensions as int,
            k,
        )
}

impl EmbeddingProvider for HashEmbeddingProvider {
    fn name(&self) -> (r: &str)
        ensures
            r@ == "hash-embed"@,
    {
        "hash-embed"
    }

    fn dimensions(&self) -> (r: usize)
        ensures
            r == at_least_one(self.dimensions),
    {
        if self.dimensions < 1 {
            1
        } else {
            self.dimensions
        }
    }

    fn is_available(&self) -> (r: bool)
        ensures
            r,
    {
        true
    }

    fn embed(&self, inputs: &Vec<EmbeddingInput>) -> (r: Result<Vec<RawEmbedding>, AiError>)
        ensures
            r matches Ok(list) && list@.len() == inputs@.len() && forall|i: int|
                0 <= i < list@.len() ==> is_hash_embedding(
                    #[trigger] list@[i],
                    inputs@[i],
                    at_least_one(self.dimensions),
                ),
    {
        let dimensions: usize = EmbeddingProvider::dimensions(self);
        let mut out: Vec<RawEmbedding> = Vec::new();
        let mut i: usize = 0;
        while i < inputs.len()
            invariant
                0 <= i <= inputs@.len(),
                dimensions == at_least_one(self.dimensions),
                out@.len() == i,
                forall|j: int|
                    0 <= j < i ==> is_hash_embedding(#[trigger] out@[j], inputs@[j], dimensions),
            decreases inputs@.len() - i,
        {
            let weights = embed_text(inputs[i].text.as_str(), dimensions);
            out.push(
                RawEmbedding {
                    id: inputs[i].id.clone(),
                    model: "hash-embed-v1".to_owned(),
                    dimensions,
                    weights,
                },
            );
            i = i + 1;
        }
        Ok(out)
    }
}

/// Counting places loses no character: the weights of a text add up to its length.
pub proof fn lemma_weights_add_up(text: Seq<char>, dimensions: int)
    requires
        dimensions >= 1,
    ensures
        weight_sum(text, dimensions, dimensions) == text.len(),
    decreases text.len(),
{
    if text.len() == 0 {
        lemma_weight_sum_empty(text, dimensions, dimensions);
    } else {
        lemma_weights_add_up(text.drop_last(), dimensions);
        let b = bucket(text.last(), text.len() - 1, dimensions);
        assert(0 <= b < dimensions);
        lemma_weight_sum_step(text, dimensions, dimensions);
    }
}

/// The sum of the first `upto` weights.
pub open spec fn weight_sum(text: Seq<char>, dimensions: int, upto: int) -> nat
    decreases upto,
{
    if upto <= 0 {
        0
    } else {
        weight_sum(text, dimensions, upto - 1) + bucket_count(text, dimensions, upto - 1)
    }
}

proof fn lemma_weight_sum_empty(text: Seq<char>, dimensions: int, upto: int)
    requires
        text.len() == 0,
    ensures
        weight_sum(text, dimensions, upto) == 0,
    decreases upto,
{
    if upto > 0 {
        lemma_weight_sum_empty(text, dimensions, upto - 1);
    }
}

proof fn lemma_weight_sum_step(text: Seq<char>, dimensions: int, upto: int)
    requires
        text.len() > 0,
        dimensions >= 1,
        upto <= dimensions,
    ensures
        weight_sum(text, dimensions, upto) == weight_sum(text.drop_last(), dimensions, upto) + if 0
            <= bucket(text.last(), text.len() - 1, dimensions) < upto {
            1nat
        } else {
            0nat
        },
    decreases upto,
{
    if upto > 0 {
        lemma_weight_sum_step(text, dimensions, upto - 1);
    }
}

// ---------------------------------------------------------------------------
// Settings of a compatible endpoint
// ---------------------------------------------------------------------------

/// An endpoint for embeddings.
#[derive(Debug)]
pub struct OpenAiCompatEmbeddingProvider {
    pub name: String,
    pub base_url: String,
    pub api_key: String,
    pub model: String,
    pub dimensions: usize,
    pub timeout_ms: u64,
}

impl OpenAiCompatEmbeddingProvider {
    /// Settings for an endpoint, which loses its trailing slashes.
    pub fn new(
        base_url: &str,
        api_key: &str,
        model: &str,
        dimensions: usize,
        timeout_ms: u64,
    ) -> (r: Result<OpenAiCompatEmbeddingProvider, AiError>)
        ensures
            ({
                let base = trim_end_char(base_url@, '/');
                if base.len() == 0 {
                    misconfigured(r, "AI embedding base URL is empty"@)
                } else if !allowed_base(base) {
                    misconfigured(
                        r,
                        "AI embedding base URL must be https:// or localhost/127.0.0.1 for MVP"@,
                    )
                } else if trimmed(api_key@).len() == 0 {
                    misconfigured(r, "AI embedding API key is empty"@)
                } else if dimensions == 0 {
                    misconfigured(r, "AI embedding dimensions must be > 0"@)
                } else {
                    r matches Ok(p) && p.name@ == "openai_compat_embed"@ && p.base_url@ == base
                        && p.api_key@ == api_key@ && p.model@ == model@ && p.dimensions
                        == dimensions && p.timeout_ms == timeout_ms
                }
            }),
    {
        let base = trim_end_of(base_url, '/');
        if base.as_str().is_empty() {
            return Err(config_error("AI embedding base URL is empty"));
        }
        if !is_allowed_base(base.as_str()) {
            return Err(
                config_error(
                    "AI embedding base URL must be https:// or localhost/127.0.0.1 for MVP",
                ),
            );
        }
        if is_blank(api_key) {
            return Err(config_error("AI embedding API key is empty"));
        }
        if dimensions == 0 {
            return Err(config_error("AI embedding dimensions must be > 0"));
        }
        Ok(
            OpenAiCompatEmbeddingProvider {
                name: "openai_compat_embed".to_owned(),
                base_url: base,
                api_key: api_key.to_owned(),
                model: model.to_owned(),
                dimensions,
                timeout_ms,
            },
        )
    }

    /// Where embeddings are asked for.
    pub fn embeddings_url(&self) -> (r: String)
        ensures
            r@ == self.base_url@ + "/embeddings"@,
    {
        join2(self.base_url.as_str(), "/embeddings")
    }
}

}
