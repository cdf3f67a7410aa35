//! Data model of the ingestion core: invoice records, field overrides,
//! extraction payloads and their mathematical views.

use vstd::prelude::*;

verus! {

/// Ingestion state of a tracked document.
///
/// Allowed transitions are `Pending -> Processed`, `Pending -> Failed` and
/// `* -> Missing`; a record leaves `Missing` only through a new processing
/// run that sees the path again.
#[derive(Clone, Copy, PartialEq, Eq, Structural, Debug)]
pub enum IngestionStatus {
    Pending,
    Processed,
    Failed,
    Missing,
}

/// Mathematical view of an [`Invoice`]: every text field as a character
/// sequence. Two invoices with equal views are byte-identical when stored.
pub struct InvoiceModel {
    pub id: Seq<char>,
    pub category: Seq<char>,
    pub file_path: Option<Seq<char>>,
    pub file_hash: Seq<char>,
    pub file_modified_at: Seq<char>,
    pub ingestion_status: IngestionStatus,
    pub ocr_text: Option<Seq<char>>,
    pub extracted_json: Seq<char>,
    pub confidence_score: u32,
    pub invoice_number: Option<Seq<char>>,
    pub invoice_date: Option<Seq<char>>,
    pub due_date: Option<Seq<char>>,
    pub counterparty_name: Option<Seq<char>>,
    pub total_amount: Seq<char>,
    pub currency: Seq<char>,
    pub tax_amount: Option<Seq<char>>,
    pub net_amount: Option<Seq<char>>,
    pub status: Seq<char>,
    pub paid_at: Option<Seq<char>>,
    pub created_at: Seq<char>,
    pub updated_at: Seq<char>,
}

/// One tracked source document. The identity is generated once and never
/// changes; the fingerprint pair (`file_hash`, `file_modified_at`) decides
/// whether a reprocessing pass is skipped. Amounts are fixed-point decimal
/// strings and the confidence score is held in hundredths (0..=100), so no
/// binary floating point is ever stored.
pub struct Invoice {
    pub id: String,
    pub category: String,
    pub file_path: Option<String>,
    pub file_hash: String,
    pub file_modified_at: String,
    pub ingestion_status: IngestionStatus,
    pub ocr_text: Option<String>,
    pub extracted_json: String,
    pub confidence_score: u32,
    pub invoice_number: Option<String>,
    pub invoice_date: Option<String>,
    pub due_date: Option<String>,
    pub counterparty_name: Option<String>,
    pub total_amount: String,
    pub currency: String,
    pub tax_amount: Option<String>,
    pub net_amount: Option<String>,
    pub status: String,
    pub paid_at: Option<String>,
    pub created_at: String,
    pub updated_at: String,
}

/// View of an optional owned string.
pub open spec fn opt_str_view(o: Option<String>) -> Option<Seq<char>> {
    match o {
        Some(s) => Some(s@),
        None => None,
    }
}

impl View for Invoice {
    type V = InvoiceModel;

    open spec fn view(&self) -> InvoiceModel {
        InvoiceModel {
            id: self.id@,
            category: self.category@,
            file_path: opt_str_view(self.file_path),
            file_hash: self.file_hash@,
            file_modified_at: self.file_modified_at@,
            ingestion_status: self.ingestion_status,
            ocr_text: opt_str_view(self.ocr_text),
            extracted_json: self.extracted_json@,
            confidence_score: self.confidence_score,
            invoice_number: opt_str_view(self.invoice_number),
            invoice_date: opt_str_view(self.invoice_date),
            due_date: opt_str_view(self.due_date),
            counterparty_name: opt_str_view(self.counterparty_name),
            total_amount: self.total_amount@,
            currency: self.currency@,
            tax_amount: opt_str_view(self.tax_amount),
            net_amount: opt_str_view(self.net_amount),
            status: self.status@,
            paid_at: opt_str_view(self.paid_at),
            created_at: self.created_at@,
            updated_at: self.updated_at@,
        }
    }
}

/// Copies an optional string; the copy has the same view.
pub fn dup_opt_string(o: &Option<String>) -> (r: Option<String>)
    ensures
        opt_str_view(r) == opt_str_view(*o),
{
    match o {
        Some(s) => Some(s.clone()),
        None => None,
    }
}

impl Invoice {
    /// A copy whose view equals this invoice's view.
    pub fn duplicate(&self) -> (r: Invoice)
        ensures
            r@ == self@,
    {
        Invoice {
            id: self.id.clone(),
            category: self.category.clone(),
            file_path: dup_opt_string(&self.file_path),
            file_hash: self.file_hash.clone(),
            file_modified_at: self.file_modified_at.clone(),
            ingestion_status: self.ingestion_status,
            ocr_text: dup_opt_string(&self.ocr_text),
            extracted_json: self.extracted_json.clone(),
            confidence_score: self.confidence_score,
            invoice_number: dup_opt_string(&self.invoice_number),
            invoice_date: dup_opt_string(&self.invoice_date),
            due_date: dup_opt_string(&self.due_date),
            counterparty_name: dup_opt_string(&self.counterparty_name),
            total_amount: self.total_amount.clone(),
            currency: self.currency.clone(),
            tax_amount: dup_opt_string(&self.tax_amount),
            net_amount: dup_opt_string(&self.net_amount),
            status: self.status.clone(),
            paid_at: dup_opt_string(&self.paid_at),
            created_at: self.created_at.clone(),
            updated_at: self.updated_at.clone(),
        }
    }
}

/// A manual per-field correction, applied by the presentation layer on top
/// of the extracted values; never written by the ingestion core itself.
pub struct InvoiceOverride {
    pub id: String,
    pub invoice_id: String,
    pub field_name: String,
    pub override_value: String,
    pub created_at: String,
    pub updated_at: String,
}

/// Reduced listing row for an invoice; the confidence score is held in
/// hundredths, as in [`Invoice`].
pub struct InvoiceSummary {
    pub id: String,
    pub invoice_date: Option<String>,
    pub counterparty_name: Option<String>,
    pub total_amount: String,
    pub status: String,
    pub confidence_score: u32,
    pub file_path: Option<String>,
}

/// An invoice together with the overrides recorded for it.
pub struct InvoiceDetail {
    pub invoice: Invoice,
    pub overrides: Vec<InvoiceOverride>,
}

/// Request payload for changing one override field.
pub struct UpdateInvoicePayload {
    pub invoice_id: String,
    pub field_name: String,
    pub value: String,
}

/// View of the structured data returned by one extraction call.
pub struct ExtractedDataModel {
    pub invoice_number: Option<Seq<char>>,
    pub invoice_date: Option<Seq<char>>,
    pub due_date: Option<Seq<char>>,
    pub counterparty_name: Option<Seq<char>>,
    pub total_amount: Option<i64>,
    pub currency: Option<Seq<char>>,
    pub tax_amount: Option<i64>,
    pub net_amount: Option<i64>,
    pub extraction_notes: Seq<char>,
    pub confidence_score: Option<u32>,
}

/// Structured fields produced by one extraction call. Amounts are integer
/// cents; the confidence score is in hundredths (0..=100).
pub struct ExtractedInvoiceData {
    pub invoice_number: Option<String>,
    pub invoice_date: Option<String>,
    pub due_date: Option<String>,
    pub counterparty_name: Option<String>,
    pub total_amount: Option<i64>,
    pub currency: Option<String>,
    pub tax_amount: Option<i64>,
    pub net_amount: Option<i64>,
    pub extraction_notes: String,
    pub confidence_score: Option<u32>,
}

impl View for ExtractedInvoiceData {
    type V = ExtractedDataModel;

    open spec fn view(&self) -> ExtractedDataModel {
        ExtractedDataModel {
            invoice_number: opt_str_view(self.invoice_number),
            invoice_date: opt_str_view(self.invoice_date),
            due_date: opt_str_view(self.due_date),
            counterparty_name: opt_str_view(self.counterparty_name),
            total_amount: self.total_amount,
            currency: opt_str_view(self.currency),
            tax_amount: self.tax_amount,
            net_amount: self.net_amount,
            extraction_notes: self.extraction_notes@,
            confidence_score: self.confidence_score,
        }
    }
}

} // verus!
