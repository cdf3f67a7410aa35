//! Process-wide configuration snapshots.
//!
//! A snapshot is loaded from the persisted key/value settings and replaced
//! wholesale; consumers take a snapshot at the start of their unit of work
//! and never read shared state mid-task.

use vstd::prelude::*;

use crate::models::{dup_opt_string, opt_str_view};

verus! {

/// View of a settings snapshot.
pub struct SettingsModel {
    pub revenue_folder: Option<Seq<char>>,
    pub payable_folder: Option<Seq<char>>,
    pub openai_api_key: Option<Seq<char>>,
    pub ocr_language: Seq<char>,
}

/// One settings snapshot: the two watched folders, the opaque extraction
/// credential reference, and the OCR language code.
pub struct Settings {
    pub revenue_folder: Option<String>,
    pub payable_folder: Option<String>,
    pub openai_api_key: Option<String>,
    pub ocr_language: String,
}

impl View for Settings {
    type V = SettingsModel;

    open spec fn view(&self) -> SettingsModel {
        SettingsModel {
            revenue_folder: opt_str_view(self.revenue_folder),
            payable_folder: opt_str_view(self.payable_folder),
            openai_api_key: opt_str_view(self.openai_api_key),
            ocr_language: self.ocr_language@,
        }
    }
}

impl Settings {
    /// A copy whose view equals this snapshot's view.
    pub fn duplicate(&self) -> (r: Settings)
        ensures
            r@ == self@,
    {
        Settings {
            revenue_folder: dup_opt_string(&self.revenue_folder),
            payable_folder: dup_opt_string(&self.payable_folder),
            openai_api_key: dup_opt_string(&self.openai_api_key),
            ocr_language: self.ocr_language.clone(),
        }
    }
}

/// Incoming settings change request; absent fields are left untouched by
/// the host when persisting.
pub struct SettingsPayload {
    pub revenue_folder: Option<String>,
    pub payable_folder: Option<String>,
    pub openai_api_key: Option<String>,
    pub ocr_language: Option<String>,
}

/// Builds a settings snapshot from the persisted optional values; a missing
/// OCR language falls back to German (`deu`), the default recognition
/// language.
pub fn load_settings(
    revenue_folder: Option<String>,
    payable_folder: Option<String>,
    openai_api_key: Option<String>,
    ocr_language: Option<String>,
) -> (r: Settings)
    ensures
        r@.revenue_folder == opt_str_view(revenue_folder),
        r@.payable_folder == opt_str_view(payable_folder),
        r@.openai_api_key == opt_str_view(openai_api_key),
        r@.ocr_language == match ocr_language {
            Some(l) => l@,
            None => "deu"@,
        },
{
    Settings {
        revenue_folder,
        payable_folder,
        openai_api_key,
        ocr_language: match ocr_language {
            Some(l) => l,
            None => "deu".to_owned(),
        },
    }
}

} // verus!
