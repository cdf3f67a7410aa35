use billly::extraction::{
    after_validation, compute_confidence, correction_prompt, finalize_extraction, system_prompt,
    ExtractionStep, TextExtractor,
};
use billly::models::ExtractedInvoiceData;

fn empty_data() -> ExtractedInvoiceData {
    ExtractedInvoiceData {
        invoice_number: None,
        invoice_date: None,
        due_date: None,
        counterparty_name: None,
        total_amount: None,
        currency: None,
        tax_amount: None,
        net_amount: None,
        extraction_notes: String::new(),
        confidence_score: None,
    }
}

#[test]
fn confidence_for_three_present_fields_is_seventy_hundredths() {
    let mut d = empty_data();
    d.invoice_number = Some("R-100".to_string());
    d.invoice_date = Some("2024-03-01".to_string());
    d.total_amount = Some(1950);
    assert_eq!(compute_confidence(&d), 70);
}

#[test]
fn confidence_base_is_forty_hundredths() {
    assert_eq!(compute_confidence(&empty_data()), 40);
}

#[test]
fn confidence_with_every_field_is_eighty_five_hundredths() {
    let mut d = empty_data();
    d.invoice_number = Some("R-100".to_string());
    d.invoice_date = Some("2024-03-01".to_string());
    d.counterparty_name = Some("ACME".to_string());
    d.total_amount = Some(1950);
    d.tax_amount = Some(310);
    d.net_amount = Some(1640);
    assert_eq!(compute_confidence(&d), 85);
}

#[test]
fn tax_or_net_alone_earns_the_five_hundredths() {
    let mut d = empty_data();
    d.net_amount = Some(1640);
    assert_eq!(compute_confidence(&d), 45);
}

#[test]
fn finalize_fills_currency_notes_and_confidence() {
    let mut d = empty_data();
    d.total_amount = Some(1950);
    d.extraction_notes = "   ".to_string();
    finalize_extraction(&mut d);
    assert_eq!(d.currency, Some("EUR".to_string()));
    assert_eq!(d.extraction_notes, "notes missing".to_string());
    assert_eq!(d.confidence_score, Some(50));
}

#[test]
fn finalize_keeps_given_values() {
    let mut d = empty_data();
    d.currency = Some("USD".to_string());
    d.extraction_notes = "clean scan".to_string();
    d.confidence_score = Some(90);
    finalize_extraction(&mut d);
    assert_eq!(d.currency, Some("USD".to_string()));
    assert_eq!(d.extraction_notes, "clean scan".to_string());
    assert_eq!(d.confidence_score, Some(90));
}

#[test]
fn text_quality_needs_length_and_words() {
    let good = "Invoice number R-100 issued on 2024-03-01 by ACME GmbH for consulting services rendered";
    assert!(TextExtractor::validate_text_quality(good));
    assert!(!TextExtractor::validate_text_quality("short text"));
    let long_one_word = "aaaaaaaaaaaaaaaaaaaaaaaaaaaaaaaaaaaaaaaaaaaaaaaaaaaaaaaaaaaa";
    assert!(!TextExtractor::validate_text_quality(long_one_word));
}

#[test]
fn text_layer_detection_ignores_whitespace() {
    assert!(TextExtractor::has_text_layer("Rechnung"));
    assert!(!TextExtractor::has_text_layer(""));
    assert!(!TextExtractor::has_text_layer(" \n\t "));
}

#[test]
fn prompts_have_the_fixed_texts() {
    assert!(system_prompt().starts_with("You are an invoice extraction system."));
    assert!(system_prompt().contains("confidence_score (number|null)"));
    let p = correction_prompt("{\"a\":1}");
    assert_eq!(
        p,
        "Fixe dieses JSON so, dass es exakt dem Schema entspricht. Nur JSON ausgeben. JSON:\n{\"a\":1}"
            .to_string()
    );
}

#[test]
fn validation_retry_policy() {
    assert!(matches!(after_validation(true, true, "x"), ExtractionStep::Accept));
    assert!(matches!(after_validation(true, false, "x"), ExtractionStep::Accept));
    match after_validation(false, true, "bad json") {
        ExtractionStep::Retry(p) => assert!(p.ends_with("bad json")),
        _ => panic!("first failure must retry"),
    }
    assert!(matches!(after_validation(false, false, "x"), ExtractionStep::Reject));
}
