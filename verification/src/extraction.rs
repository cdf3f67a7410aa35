//! Text and structured extraction: the verified decision and merge logic
//! around the external extraction collaborators.
//!
//! The collaborators themselves — native PDF text extraction, OCR, and the
//! remote structured-extraction call — run host-side; this module holds the
//! text-quality gate, the schema-retry policy, the prompt texts, and the
//! defaulting rules including the deterministic confidence score.

use vstd::prelude::*;

use crate::models::{ExtractedDataModel, ExtractedInvoiceData};
use crate::text::{is_space, is_space_char, spec_trim, trim_str};
use vstd::string::StringSliceAdditionalSpecFns;

verus! {

/// Native PDF text extraction and OCR fallback.
pub struct TextExtractor;

/// Position `j` starts a word: a non-whitespace character at the start of
/// the text or right after whitespace.
pub open spec fn is_word_start(s: Seq<char>, j: int) -> bool {
    0 <= j < s.len() && !is_space_char(s[j]) && (j == 0 || is_space_char(s[j - 1]))
}

/// Number of word starts among the first `n` positions.
pub open spec fn word_starts_up_to(s: Seq<char>, n: int) -> int
    decreases n,
{
    if n <= 0 {
        0
    } else {
        word_starts_up_to(s, n - 1) + if is_word_start(s, n - 1) {
            1int
        } else {
            0int
        }
    }
}

/// Number of whitespace-separated words in the text.
pub open spec fn spec_word_count(s: Seq<char>) -> int {
    word_starts_up_to(s, s.len() as int)
}

proof fn lemma_word_starts_bound(s: Seq<char>, n: int)
    requires
        0 <= n <= s.len(),
    ensures
        0 <= word_starts_up_to(s, n) <= n,
    decreases n,
{
    if n > 0 {
        lemma_word_starts_bound(s, n - 1);
    }
}

/// Counts whitespace-separated words.
pub fn count_words(s: &str) -> (r: usize)
    ensures
        r == spec_word_count(s@),
{
    let n = s.unicode_len();
    let mut count: usize = 0;
    let mut prev_space: bool = true;
    let mut i: usize = 0;
    while i < n
        invariant
            0 <= i <= n,
            n == s@.len(),
            count == word_starts_up_to(s@, i as int),
            count <= i,
            prev_space == (i == 0 || is_space_char(s@[i - 1])),
        decreases n - i,
    {
        proof {
            lemma_word_starts_bound(s@, i as int);
        }
        let c = s.get_char(i);
        if !is_space(c) && prev_space {
            count = count + 1;
        }
        prev_space = is_space(c);
        i = i + 1;
    }
    count
}

impl TextExtractor {
    /// The extracted text is substantial enough to hand to structured
    /// extraction: over 50 bytes and more than 10 words.
    pub fn validate_text_quality(text: &str) -> (r: bool)
        ensures
            r == (text.spec_bytes().len() > 50 && spec_word_count(text@) > 10),
    {
        let bytes = text.as_bytes();
        if bytes.len() <= 50 {
            return false;
        }
        count_words(text) > 10
    }

    /// The native PDF text layer yielded something beyond whitespace; when
    /// it did not, the OCR fallback is owed.
    pub fn has_text_layer(text: &str) -> (r: bool)
        ensures
            r == (spec_trim(text@).len() != 0),
    {
        let t = trim_str(text);
        t.as_str().unicode_len() != 0
    }
}

/// The remote structured-extraction collaborator.
pub struct OpenAIExtractor;

/// The instruction text sent with every extraction request.
pub open spec fn spec_system_prompt() -> Seq<char> {
    "You are an invoice extraction system. Return JSON only and match the schema exactly.\nFields:\n- invoice_number (string|null)\n- invoice_date (YYYY-MM-DD|null)\n- due_date (YYYY-MM-DD|null)\n- counterparty_name (string|null)\n- total_amount (number|null)\n- currency (string|null)\n- tax_amount (number|null)\n- net_amount (number|null)\n- extraction_notes (string, short)\n- confidence_score (number|null)\n"@
}

/// The system prompt for structured extraction, character for character
/// [`spec_system_prompt`].
pub fn system_prompt() -> (r: String)
    ensures
        r@ == spec_system_prompt(),
{
    "You are an invoice extraction system. Return JSON only and match the schema exactly.\nFields:\n- invoice_number (string|null)\n- invoice_date (YYYY-MM-DD|null)\n- due_date (YYYY-MM-DD|null)\n- counterparty_name (string|null)\n- total_amount (number|null)\n- currency (string|null)\n- tax_amount (number|null)\n- net_amount (number|null)\n- extraction_notes (string, short)\n- confidence_score (number|null)\n".to_owned()
}

/// Prefix of the one corrective retry prompt.
pub open spec fn spec_correction_prefix() -> Seq<char> {
    "Fixe dieses JSON so, dass es exakt dem Schema entspricht. Nur JSON ausgeben. JSON:\n"@
}

/// The corrective prompt sent when the first response fails validation.
pub fn correction_prompt(raw: &str) -> (r: String)
    ensures
        r@ == spec_correction_prefix() + raw@,
{
    let mut s =
        "Fixe dieses JSON so, dass es exakt dem Schema entspricht. Nur JSON ausgeben. JSON:\n".to_owned();
    s.append(raw);
    s
}

/// What the schema-validation outcome asks for next.
pub enum ExtractionStep {
    /// The response is schema-valid; merge it.
    Accept,
    /// First failure: retry once with the contained corrective prompt.
    Retry(String),
    /// Second failure: the extraction has failed.
    Reject,
}

/// The retry policy around schema validation: a valid response is accepted;
/// the first invalid response earns exactly one corrective retry carrying
/// the raw response; an invalid retry fails the extraction.
pub fn after_validation(valid: bool, first_attempt: bool, raw: &str) -> (r: ExtractionStep)
    ensures
        valid ==> r is Accept,
        !valid && first_attempt ==> (r matches ExtractionStep::Retry(p) && p@
            == spec_correction_prefix() + raw@),
        !valid && !first_attempt ==> r is Reject,
{
    if valid {
        ExtractionStep::Accept
    } else if first_attempt {
        ExtractionStep::Retry(correction_prompt(raw))
    } else {
        ExtractionStep::Reject
    }
}

/// The deterministic presence-weighted confidence score, in hundredths: a
/// base of 0.40, plus 0.10 for each of invoice number, date, counterparty
/// and amount being present, plus 0.05 when a tax or net amount is present,
/// clamped to at most 1.00.
pub open spec fn spec_confidence(d: ExtractedDataModel) -> u32 {
    let t = 40 + (if d.invoice_number is Some {
        10int
    } else {
        0int
    }) + (if d.invoice_date is Some {
        10int
    } else {
        0int
    }) + (if d.counterparty_name is Some {
        10int
    } else {
        0int
    }) + (if d.total_amount is Some {
        10int
    } else {
        0int
    }) + (if d.tax_amount is Some || d.net_amount is Some {
        5int
    } else {
        0int
    });
    if t > 100 {
        100u32
    } else {
        t as u32
    }
}

/// Computes the default confidence score, as [`spec_confidence`] states.
pub fn compute_confidence(data: &ExtractedInvoiceData) -> (r: u32)
    ensures
        r == spec_confidence(data@),
{
    let mut score: u32 = 40;
    if data.invoice_number.is_some() {
        score = score + 10;
    }
    if data.invoice_date.is_some() {
        score = score + 10;
    }
    if data.counterparty_name.is_some() {
        score = score + 10;
    }
    if data.total_amount.is_some() {
        score = score + 10;
    }
    if data.tax_amount.is_some() || data.net_amount.is_some() {
        score = score + 5;
    }
    if score > 100 {
        score = 100;
    }
    score
}

/// The defaulting pass over a schema-valid extraction result: a missing
/// currency becomes `EUR`, blank notes become a fixed marker, and a missing
/// confidence score is computed as [`spec_confidence`] of the fields.
pub open spec fn spec_finalize_extraction(d: ExtractedDataModel) -> ExtractedDataModel {
    ExtractedDataModel {
        currency: match d.currency {
            Some(c) => Some(c),
            None => Some("EUR"@),
        },
        extraction_notes: if spec_trim(d.extraction_notes).len() == 0 {
            "notes missing"@
        } else {
            d.extraction_notes
        },
        confidence_score: match d.confidence_score {
            Some(c) => Some(c),
            None => Some(spec_confidence(d)),
        },
        ..d
    }
}

/// Applies the defaulting pass, as [`spec_finalize_extraction`] states.
pub fn finalize_extraction(data: &mut ExtractedInvoiceData)
    ensures
        final(data)@ == spec_finalize_extraction(old(data)@),
{
    if data.currency.is_none() {
        data.currency = Some("EUR".to_owned());
    }
    let blank = {
        let t = trim_str(data.extraction_notes.as_str());
        t.as_str().unicode_len() == 0
    };
    if blank {
        data.extraction_notes = "notes missing".to_owned();
    }
    if data.confidence_score.is_none() {
        let c = compute_confidence(data);
        data.confidence_score = Some(c);
    }
}

} // verus!
