//! Reading the answers of a compatible endpoint.

use vstd::prelude::*;

use crate::ai::error::{invalid, invalid_output, AiError};
use crate::numbers::{decimal, u64_decimal};
use crate::score::{key_of_bits, Score};
use crate::text::{chars_to_string, join2, join3, opt_view, to_chars};

verus! {

// ---------------------------------------------------------------------------
// JSON
// ---------------------------------------------------------------------------

/// The text at a JSON pointer of a document, if there is text there, or why the document
/// is not JSON.
pub uninterp spec fn json_text(document: Seq<u8>, pointer: Seq<char>) -> Result<
    Option<Seq<char>>,
    Seq<char>,
>;

/// The unsigned integer at a JSON pointer of a document, if there is one there, or why
/// the document is not JSON.
pub uninterp spec fn json_count(document: Seq<u8>, pointer: Seq<char>) -> Result<
    Option<u64>,
    Seq<char>,
>;

/// The lists of numbers in a JSON document: those under a field of each member of a list,
/// each number by the bits of its double. A member without such a list, and an entry that is
/// no number, are nothing. Nothing at all where there is no such list, or why the document is
/// not JSON.
pub uninterp spec fn json_numbers(
    document: Seq<u8>,
    list: Seq<char>,
    field: Seq<char>,
) -> Result<Option<Seq<Option<Seq<Option<u64>>>>>, Seq<char>>;

/// Why a text is not JSON; nothing where it is.
pub uninterp spec fn json_fault(text: Seq<char>) -> Option<Seq<char>>;

/// The text of bytes, with a replacement character for what is not UTF-8.
pub uninterp spec fn lossy_text(bytes: Seq<u8>) -> Seq<char>;

pub open spec fn text_found(r: Result<Option<String>, String>) -> Result<
    Option<Seq<char>>,
    Seq<char>,
> {
    match r {
        Ok(found) => Ok(opt_view(found)),
        Err(reason) => Err(reason@),
    }
}

pub open spec fn count_found(r: Result<Option<u64>, String>) -> Result<Option<u64>, Seq<char>> {
    match r {
        Ok(found) => Ok(found),
        Err(reason) => Err(reason@),
    }
}

/// `serde_json::from_slice`, then `Value::pointer` and `Value::as_str`: what they find
/// depends on the document and the pointer alone.
#[verifier::external_body]
fn json_text_at(document: &[u8], pointer: &str) -> (r: Result<Option<String>, String>)
    ensures
        text_found(r) == json_text(document@, pointer@),
{
    let value: serde_json::Value = serde_json::from_slice(document).map_err(|e| e.to_string())?;
    Ok(value.pointer(pointer).and_then(|v| v.as_str()).map(|s| s.to_owned()))
}

/// `serde_json::from_slice`, then `Value::pointer` and `Value::as_u64`: what they find
/// depends on the document and the pointer alone.
#[verifier::external_body]
fn json_count_at(document: &[u8], pointer: &str) -> (r: Result<Option<u64>, String>)
    ensures
        count_found(r) == json_count(document@, pointer@),
{
    let value: serde_json::Value = serde_json::from_slice(document).map_err(|e| e.to_string())?;
    Ok(value.pointer(pointer).and_then(|v| v.as_u64()))
}

pub open spec fn bits_found(found: Option<Vec<Option<Vec<Option<u64>>>>>) -> Option<
    Seq<Option<Seq<Option<u64>>>>,
> {
    match found {
        Some(rows) => Some(
            rows@.map_values(
                |row: Option<Vec<Option<u64>>>|
                    match row {
                        Some(bits) => Some(bits@),
                        None => None,
                    },
            ),
        ),
        None => None,
    }
}

pub open spec fn numbers_found(
    r: Result<Option<Vec<Option<Vec<Option<u64>>>>>, String>,
) -> Result<Option<Seq<Option<Seq<Option<u64>>>>>, Seq<char>> {
    match r {
        Ok(found) => Ok(bits_found(found)),
        Err(reason) => Err(reason@),
    }
}

/// `serde_json::from_slice`, then `Value::get`, `Value::as_array` and `Value::as_f64`: what
/// they find depends on the document, the list and the field alone.
#[verifier::external_body]
fn json_numbers_in(document: &[u8], list: &str, field: &str) -> (r: Result<
    Option<Vec<Option<Vec<Option<u64>>>>>,
    String,
>)
    ensures
        numbers_found(r) == json_numbers(document@, list@, field@),
{
    let value: serde_json::Value = serde_json::from_slice(document).map_err(|e| e.to_string())?;
    let rows = value.get(list).and_then(|v| v.as_array());
    let bits = |row: &Vec<serde_json::Value>| {
        row.iter().map(|v| v.as_f64().map(|x| x.to_bits())).collect()
    };
    Ok(rows.map(|rows| {
        rows.iter().map(|row| row.get(field).and_then(|v| v.as_array()).map(bits)).collect()
    }))
}

/// `serde_json::from_str`: whether a text is JSON, and the message where it is not,
/// depends on the text alone.
#[verifier::external_body]
fn json_fault_in(text: &str) -> (r: Option<String>)
    ensures
        opt_view(r) == json_fault(text@),
{
    serde_json::from_str::<serde_json::Value>(text).err().map(|e| e.to_string())
}

/// `String::from_utf8_lossy`: the text depends on the bytes alone.
#[verifier::external_body]
fn utf8_lossy(bytes: &[u8]) -> (r: String)
    ensures
        r@ == lossy_text(bytes@),
{
    String::from_utf8_lossy(bytes).into_owned()
}

// ---------------------------------------------------------------------------
// Status
// ---------------------------------------------------------------------------

pub open spec fn is_success(status: u16) -> bool {
    200 <= status <= 299
}

/// The first two hundred characters of a body.
pub open spec fn snippet(body: Seq<char>) -> Seq<char> {
    if body.len() <= 200 {
        body
    } else {
        body.take(200)
    }
}

pub open spec fn rejection(status: u16, body: Seq<char>) -> Seq<char> {
    "HTTP "@ + decimal(status as nat) + " body="@ + snippet(body)
}

/// What the status alone decides: too many requests and every other failure are errors.
pub open spec fn refused_by_status<T>(
    r: Result<T, AiError>,
    status: u16,
    body: Seq<char>,
) -> bool {
    if status == 429 {
        r matches Err(e) && e is RateLimited
    } else {
        r matches Err(AiError::ProviderRejected(text)) && text@ == rejection(status, body)
    }
}

/// The error that goes with a status that is not success. `body` is the answer's text.
pub fn status_error(status: u16, body: &str) -> (r: Option<AiError>)
    ensures
        r is None <==> is_success(status),
        r matches Some(e) ==> refused_by_status(Err::<(), AiError>(e), status, body@),
{
    if status == 429 {
        return Some(AiError::RateLimited);
    }
    if 200 <= status && status <= 299 {
        return None;
    }
    let chars = to_chars(body);
    let end: usize = if chars.len() <= 200 {
        chars.len()
    } else {
        200
    };
    let safe = chars_to_string(&chars, 0, end);
    assert(safe@ =~= snippet(body@));
    let mut text = join3("HTTP ", u64_decimal(status as u64).as_str(), " body=");
    text.append(safe.as_str());
    Some(AiError::ProviderRejected(text))
}

// ---------------------------------------------------------------------------
// Completions
// ---------------------------------------------------------------------------

/// A completion: its content as JSON text, and what it cost.
#[derive(Debug)]
pub struct Completion {
    pub content: String,
    pub usage_input: u32,
    pub usage_output: u32,
}

pub open spec fn count_or_zero(found: Result<Option<u64>, Seq<char>>) -> u32 {
    match found {
        Ok(Some(n)) => n as u32,
        _ => 0,
    }
}

/// What a successful answer comes to, from what was found in it: `content` is the text of
/// the first choice, `fault` says why that text is not JSON.
pub open spec fn completion_read(
    r: Result<Completion, AiError>,
    content: Result<Option<Seq<char>>, Seq<char>>,
    fault: Option<Seq<char>>,
    input: Result<Option<u64>, Seq<char>>,
    output: Result<Option<u64>, Seq<char>>,
) -> bool {
    match content {
        Err(reason) => invalid(r, reason),
        Ok(None) => invalid(r, "missing choices[0].message.content"@),
        Ok(Some(text)) => match fault {
            Some(reason) => invalid(r, "content is not JSON: "@ + reason),
            None => r matches Ok(c) && c.content@ == text && c.usage_input == count_or_zero(input)
                && c.usage_output == count_or_zero(output),
        },
    }
}

/// Why the content that was found is not JSON.
pub open spec fn content_fault(content: Result<Option<Seq<char>>, Seq<char>>) -> Option<Seq<char>> {
    match content {
        Ok(Some(text)) => json_fault(text),
        _ => None,
    }
}

/// Turns what was found in a successful answer into a completion.
pub fn completion_from_fields(
    content: Result<Option<String>, String>,
    fault: Option<String>,
    input: Result<Option<u64>, String>,
    output: Result<Option<u64>, String>,
) -> (r: Result<Completion, AiError>)
    ensures
        completion_read(
            r,
            text_found(content),
            opt_view(fault),
            count_found(input),
            count_found(output),
        ),
{
    let text = match content {
        Err(reason) => return Err(AiError::InvalidOutput(reason)),
        Ok(None) => return Err(invalid_output("missing choices[0].message.content")),
        Ok(Some(text)) => text,
    };
    match fault {
        Some(reason) => {
            return Err(
                invalid_output(join2("content is not JSON: ", reason.as_str()).as_str()),
            );
        },
        None => {},
    }
    let usage_input: u32 = match input {
        Ok(Some(n)) => n as u32,
        _ => 0,
    };
    let usage_output: u32 = match output {
        Ok(Some(n)) => n as u32,
        _ => 0,
    };
    Ok(Completion { content: text, usage_input, usage_output })
}

/// Reads the answer to a request for a completion.
pub fn read_completion(status: u16, body: &[u8]) -> (r: Result<Completion, AiError>)
    ensures
        !is_success(status) ==> refused_by_status(r, status, lossy_text(body@)),
        is_success(status) ==> ({
            let content = json_text(body@, "/choices/0/message/content"@);
            completion_read(
                r,
                content,
                content_fault(content),
                json_count(body@, "/usage/prompt_tokens"@),
                json_count(body@, "/usage/completion_tokens"@),
            )
        }),
{
    let text = utf8_lossy(body);
    match status_error(status, text.as_str()) {
        Some(error) => return Err(error),
        None => {},
    }
    let content = json_text_at(body, "/choices/0/message/content");
    let fault: Option<String> = match &content {
        Ok(Some(text)) => json_fault_in(text.as_str()),
        _ => None,
    };
    let input = json_count_at(body, "/usage/prompt_tokens");
    let output = json_count_at(body, "/usage/completion_tokens");
    completion_from_fields(content, fault, input, output)
}

// ---------------------------------------------------------------------------
// Embeddings
// ---------------------------------------------------------------------------

/// The most texts that are embedded at once.
pub const MAX_EMBEDDING_BATCH: usize = 64;

/// Whether a batch is asked for at all: an empty one is answered at once, an oversized one
/// is refused.
pub fn plan_embedding_batch(inputs: usize) -> (r: Result<bool, AiError>)
    ensures
        inputs == 0 ==> r == Ok::<bool, AiError>(false),
        1 <= inputs <= MAX_EMBEDDING_BATCH ==> r == Ok::<bool, AiError>(true),
        inputs > MAX_EMBEDDING_BATCH ==> (r matches Err(AiError::ProviderRejected(text)) && text@
            == "embedding batch exceeds 64 inputs"@),
{
    if inputs == 0 {
        return Ok(false);
    }
    if inputs > MAX_EMBEDDING_BATCH {
        return Err(AiError::ProviderRejected("embedding batch exceeds 64 inputs".to_owned()));
    }
    Ok(true)
}

/// One row of an embeddings answer, as far as it is well-formed: the numbers of its
/// vector, where there is one.
#[derive(Debug)]
pub struct EmbeddingRow {
    pub values: Option<Vec<Option<Score>>>,
}

impl EmbeddingRow {
    pub open spec fn numbers(self) -> Option<Seq<Option<Score>>> {
        match self.values {
            Some(values) => Some(values@),
            None => None,
        }
    }
}

pub open spec fn row_numbers(rows: Seq<EmbeddingRow>) -> Seq<Option<Seq<Option<Score>>>> {
    rows.map_values(|row: EmbeddingRow| row.numbers())
}

/// Why a row is refused.
pub open spec fn row_fault(row: Option<Seq<Option<Score>>>, at: int) -> Option<Seq<char>> {
    match row {
        None => Some("data["@ + decimal(at as nat) + "].embedding missing"@),
        Some(values) => if exists|i: int| 0 <= i < values.len() && (#[trigger] values[i]) is None {
            Some("data["@ + decimal(at as nat) + "].embedding non-float"@)
        } else if values.len() == 0 {
            Some("data["@ + decimal(at as nat) + "].embedding empty"@)
        } else {
            None
        },
    }
}

/// Why the first faulty row from `at` on is refused.
pub open spec fn rows_fault(rows: Seq<Option<Seq<Option<Score>>>>, at: int) -> Option<Seq<char>>
    decreases rows.len() - at,
{
    if at >= rows.len() {
        None
    } else if row_fault(rows[at], at) is Some {
        row_fault(rows[at], at)
    } else {
        rows_fault(rows, at + 1)
    }
}

/// `vector` holds the numbers of a well-formed row.
pub open spec fn row_vector(vector: Seq<Score>, row: Option<Seq<Option<Score>>>) -> bool {
    row matches Some(values) && vector.len() == values.len() && forall|i: int|
        0 <= i < vector.len() ==> values[i] == Some(#[trigger] vector[i])
}

/// Reads one row; `at` is its place in the answer.
fn read_row(row: &EmbeddingRow, at: usize) -> (r: Result<Vec<Score>, AiError>)
    ensures
        match row_fault(row.numbers(), at as int) {
            Some(reason) => invalid(r, reason),
            None => r matches Ok(vector) && row_vector(vector@, row.numbers()),
        },
{
    let digits = u64_decimal(at as u64);
    let values = match &row.values {
        None => {
            let reason = join3("data[", digits.as_str(), "].embedding missing");
            return Err(AiError::InvalidOutput(reason));
        },
        Some(values) => values,
    };
    let mut vector: Vec<Score> = Vec::new();
    let mut k: usize = 0;
    while k < values.len()
        invariant
            row.values == Some(*values),
            digits@ == decimal(at as nat),
            0 <= k <= values@.len(),
            vector@.len() == k,
            forall|j: int| 0 <= j < k ==> values@[j] == Some(#[trigger] vector@[j]),
            forall|j: int| 0 <= j < k ==> (#[trigger] values@[j]) is Some,
        decreases values@.len() - k,
    {
        match values[k] {
            Some(value) => {
                vector.push(value);
            },
            None => {
                assert(values@[k as int] is None);
                let reason = join3("data[", digits.as_str(), "].embedding non-float");
                return Err(AiError::InvalidOutput(reason));
            },
        }
        k = k + 1;
    }
    if vector.len() == 0 {
        let reason = join3("data[", digits.as_str(), "].embedding empty");
        return Err(AiError::InvalidOutput(reason));
    }
    Ok(vector)
}

fn read_rows(rows: &Vec<EmbeddingRow>) -> (r: Result<Vec<Vec<Score>>, AiError>)
    ensures
        match rows_fault(row_numbers(rows@), 0) {
            Some(reason) => invalid(r, reason),
            None => r matches Ok(vectors) && vectors@.len() == rows@.len() && forall|i: int|
                0 <= i < vectors@.len() ==> row_vector(
                    (#[trigger] vectors@[i])@,
                    row_numbers(rows@)[i],
                ),
        },
{
    let ghost all = row_numbers(rows@);
    let mut vectors: Vec<Vec<Score>> = Vec::new();
    let mut i: usize = 0;
    while i < rows.len()
        invariant
            0 <= i <= rows@.len(),
            all == row_numbers(rows@),
            vectors@.len() == i,
            rows_fault(all, 0) == rows_fault(all, i as int),
            forall|j: int| 0 <= j < i ==> row_vector((#[trigger] vectors@[j])@, all[j]),
        decreases rows@.len() - i,
    {
        assert(all[i as int] == rows@[i as int].numbers());
        match read_row(&rows[i], i) {
            Ok(vector) => {
                vectors.push(vector);
            },
            Err(error) => return Err(error),
        }
        i = i + 1;
    }
    Ok(vectors)
}

/// `r` is what the rows of an answer come to: one vector for each input, in order.
pub open spec fn vectors_read(
    r: Result<Vec<Vec<Score>>, AiError>,
    inputs: nat,
    data: Option<Seq<Option<Seq<Option<Score>>>>>,
) -> bool {
    match data {
        None => invalid(r, "missing embeddings data array"@),
        Some(rows) => if rows.len() != inputs {
            invalid(
                r,
                "embedding count "@ + decimal(rows.len()) + " != input count "@ + decimal(inputs),
            )
        } else if rows_fault(rows, 0) is Some {
            invalid(r, rows_fault(rows, 0)->0)
        } else {
            r matches Ok(vectors) && vectors@.len() == inputs && forall|i: int|
                0 <= i < vectors@.len() ==> row_vector((#[trigger] vectors@[i])@, rows[i])
        },
    }
}

/// Reads the rows of an embeddings answer.
pub fn embedding_vectors(inputs: usize, data: Option<Vec<EmbeddingRow>>) -> (r: Result<
    Vec<Vec<Score>>,
    AiError,
>)
    ensures
        vectors_read(
            r,
            inputs as nat,
            match data {
                Some(rows) => Some(row_numbers(rows@)),
                None => None,
            },
        ),
{
    match data {
        None => Err(invalid_output("missing embeddings data array")),
        Some(rows) => {
            if rows.len() != inputs {
                let mut reason = join3(
                    "embedding count ",
                    u64_decimal(rows.len() as u64).as_str(),
                    " != input count ",
                );
                reason.append(u64_decimal(inputs as u64).as_str());
                return Err(AiError::InvalidOutput(reason));
            }
            read_rows(&rows)
        },
    }
}

/// The numbers of a row, from their bits.
pub open spec fn row_scores(row: Option<Seq<Option<u64>>>) -> Option<Seq<Option<Score>>> {
    match row {
        Some(bits) => Some(
            bits.map_values(
                |b: Option<u64>|
                    match b {
                        Some(b) => Some(Score { key: key_of_bits(b) }),
                        None => None,
                    },
            ),
        ),
        None => None,
    }
}

pub open spec fn rows_scores(found: Option<Seq<Option<Seq<Option<u64>>>>>) -> Option<
    Seq<Option<Seq<Option<Score>>>>,
> {
    match found {
        Some(rows) => Some(rows.map_values(|row: Option<Seq<Option<u64>>>| row_scores(row))),
        None => None,
    }
}

fn row_from_bits(bits: &Option<Vec<Option<u64>>>) -> (r: EmbeddingRow)
    ensures
        r.numbers() == row_scores(
            match *bits {
                Some(bits) => Some(bits@),
                None => None,
            },
        ),
{
    let bits = match bits {
        Some(bits) => bits,
        None => return EmbeddingRow { values: None },
    };
    let ghost expected = row_scores(Some(bits@))->0;
    let mut values: Vec<Option<Score>> = Vec::new();
    let mut i: usize = 0;
    while i < bits.len()
        invariant
            0 <= i <= bits@.len(),
            expected == row_scores(Some(bits@))->0,
            values@.len() == i,
            forall|j: int| 0 <= j < i ==> #[trigger] values@[j] == expected[j],
        decreases bits@.len() - i,
    {
        let value = match bits[i] {
            Some(b) => Some(Score::from_bits(b)),
            None => None,
        };
        values.push(value);
        i = i + 1;
    }
    assert(values@ =~= expected);
    EmbeddingRow { values: Some(values) }
}

fn rows_from_bits(found: Option<Vec<Option<Vec<Option<u64>>>>>) -> (r: Option<Vec<EmbeddingRow>>)
    ensures
        (match r {
            Some(rows) => Some(row_numbers(rows@)),
            None => None,
        }) == rows_scores(bits_found(found)),
{
    let found = match found {
        Some(found) => found,
        None => return None,
    };
    let ghost expected = rows_scores(bits_found(Some(found)))->0;
    let mut rows: Vec<EmbeddingRow> = Vec::new();
    let mut i: usize = 0;
    while i < found.len()
        invariant
            0 <= i <= found@.len(),
            expected == rows_scores(bits_found(Some(found)))->0,
            rows@.len() == i,
            forall|j: int| 0 <= j < i ==> (#[trigger] rows@[j]).numbers() == expected[j],
        decreases found@.len() - i,
    {
        rows.push(row_from_bits(&found[i]));
        i = i + 1;
    }
    assert(row_numbers(rows@) =~= expected);
    Some(rows)
}

/// Reads the answer to a request for embeddings of so many inputs.
pub fn read_embeddings(status: u16, body: &[u8], inputs: usize) -> (r: Result<
    Vec<Vec<Score>>,
    AiError,
>)
    ensures
        !is_success(status) ==> refused_by_status(r, status, lossy_text(body@)),
        is_success(status) ==> match json_numbers(body@, "data"@, "embedding"@) {
            Err(reason) => invalid(r, reason),
            Ok(found) => vectors_read(r, inputs as nat, rows_scores(found)),
        },
{
    let text = utf8_lossy(body);
    match status_error(status, text.as_str()) {
        Some(error) => return Err(error),
        None => {},
    }
    match json_numbers_in(body, "data", "embedding") {
        Err(reason) => Err(AiError::InvalidOutput(reason)),
        Ok(found) => embedding_vectors(inputs, rows_from_bits(found)),
    }
}

}
