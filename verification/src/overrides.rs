//! Manual field overrides.
//!
//! The presentation layer records per-field corrections in a side table;
//! before a record or a listing row is shown, the overrides recorded for it
//! are applied in order, each known field name replacing the matching
//! field and unknown names being ignored.

use vstd::prelude::*;

use crate::models::{Invoice, InvoiceModel, InvoiceOverride, InvoiceSummary};
use crate::text::str_eq;

verus! {

/// View of a manual override.
pub struct OverrideModel {
    pub id: Seq<char>,
    pub invoice_id: Seq<char>,
    pub field_name: Seq<char>,
    pub override_value: Seq<char>,
    pub created_at: Seq<char>,
    pub updated_at: Seq<char>,
}

impl View for InvoiceOverride {
    type V = OverrideModel;

    open spec fn view(&self) -> OverrideModel {
        OverrideModel {
            id: self.id@,
            invoice_id: self.invoice_id@,
            field_name: self.field_name@,
            override_value: self.override_value@,
            created_at: self.created_at@,
            updated_at: self.updated_at@,
        }
    }
}

/// View of a listing row.
pub struct SummaryModel {
    pub id: Seq<char>,
    pub invoice_date: Option<Seq<char>>,
    pub counterparty_name: Option<Seq<char>>,
    pub total_amount: Seq<char>,
    pub status: Seq<char>,
    pub confidence_score: u32,
    pub file_path: Option<Seq<char>>,
}

impl View for InvoiceSummary {
    type V = SummaryModel;

    open spec fn view(&self) -> SummaryModel {
        SummaryModel {
            id: self.id@,
            invoice_date: crate::models::opt_str_view(self.invoice_date),
            counterparty_name: crate::models::opt_str_view(self.counterparty_name),
            total_amount: self.total_amount@,
            status: self.status@,
            confidence_score: self.confidence_score,
            file_path: crate::models::opt_str_view(self.file_path),
        }
    }
}

/// The effect of one override on a full record: a known field name
/// replaces that field with the override value; an unknown name changes
/// nothing.
pub open spec fn spec_apply_override(m: InvoiceModel, o: OverrideModel) -> InvoiceModel {
    if o.field_name == "invoice_number"@ {
        InvoiceModel { invoice_number: Some(o.override_value), ..m }
    } else if o.field_name == "invoice_date"@ {
        InvoiceModel { invoice_date: Some(o.override_value), ..m }
    } else if o.field_name == "due_date"@ {
        InvoiceModel { due_date: Some(o.override_value), ..m }
    } else if o.field_name == "counterparty_name"@ {
        InvoiceModel { counterparty_name: Some(o.override_value), ..m }
    } else if o.field_name == "total_amount"@ {
        InvoiceModel { total_amount: o.override_value, ..m }
    } else if o.field_name == "currency"@ {
        InvoiceModel { currency: o.override_value, ..m }
    } else if o.field_name == "tax_amount"@ {
        InvoiceModel { tax_amount: Some(o.override_value), ..m }
    } else if o.field_name == "net_amount"@ {
        InvoiceModel { net_amount: Some(o.override_value), ..m }
    } else if o.field_name == "status"@ {
        InvoiceModel { status: o.override_value, ..m }
    } else if o.field_name == "paid_at"@ {
        InvoiceModel { paid_at: Some(o.override_value), ..m }
    } else {
        m
    }
}

/// The effect of a list of overrides, applied in order.
pub open spec fn spec_apply_overrides(m: InvoiceModel, os: Seq<OverrideModel>) -> InvoiceModel
    decreases os.len(),
{
    if os.len() == 0 {
        m
    } else {
        spec_apply_overrides(spec_apply_override(m, os[0]), os.drop_first())
    }
}

/// Applies the recorded overrides to a record in order, as
/// [`spec_apply_overrides`] states.
pub fn apply_overrides(invoice: &mut Invoice, overrides: &[InvoiceOverride])
    ensures
        final(invoice)@ == spec_apply_overrides(
            old(invoice)@,
            overrides@.map_values(|o: InvoiceOverride| o@),
        ),
{
    let ghost os = overrides@.map_values(|o: InvoiceOverride| o@);
    let n = overrides.len();
    let mut i: usize = 0;
    proof {
        assert(os.skip(0) =~= os);
    }
    while i < n
        invariant
            0 <= i <= n,
            n == overrides@.len(),
            os == overrides@.map_values(|o: InvoiceOverride| o@),
            spec_apply_overrides(old(invoice)@, os) == spec_apply_overrides(
                invoice@,
                os.skip(i as int),
            ),
        decreases n - i,
    {
        proof {
            assert(os.skip(i as int)[0] == os[i as int]);
            assert(os.skip(i as int).drop_first() =~= os.skip(i + 1));
        }
        let o = &overrides[i];
        if str_eq(o.field_name.as_str(), "invoice_number") {
            invoice.invoice_number = Some(o.override_value.clone());
        } else if str_eq(o.field_name.as_str(), "invoice_date") {
            invoice.invoice_date = Some(o.override_value.clone());
        } else if str_eq(o.field_name.as_str(), "due_date") {
            invoice.due_date = Some(o.override_value.clone());
        } else if str_eq(o.field_name.as_str(), "counterparty_name") {
            invoice.counterparty_name = Some(o.override_value.clone());
        } else if str_eq(o.field_name.as_str(), "total_amount") {
            invoice.total_amount = o.override_value.clone();
        } else if str_eq(o.field_name.as_str(), "currency") {
            invoice.currency = o.override_value.clone();
        } else if str_eq(o.field_name.as_str(), "tax_amount") {
            invoice.tax_amount = Some(o.override_value.clone());
        } else if str_eq(o.field_name.as_str(), "net_amount") {
            invoice.net_amount = Some(o.override_value.clone());
        } else if str_eq(o.field_name.as_str(), "status") {
            invoice.status = o.override_value.clone();
        } else if str_eq(o.field_name.as_str(), "paid_at") {
            invoice.paid_at = Some(o.override_value.clone());
        }
        i = i + 1;
    }
    proof {
        assert(os.skip(n as int) =~= Seq::<OverrideModel>::empty());
    }
}

/// The effect of one override on a listing row: only the four fields a row
/// carries can be overridden; any other name changes nothing.
pub open spec fn spec_apply_override_summary(m: SummaryModel, o: OverrideModel) -> SummaryModel {
    if o.field_name == "invoice_date"@ {
        SummaryModel { invoice_date: Some(o.override_value), ..m }
    } else if o.field_name == "counterparty_name"@ {
        SummaryModel { counterparty_name: Some(o.override_value), ..m }
    } else if o.field_name == "total_amount"@ {
        SummaryModel { total_amount: o.override_value, ..m }
    } else if o.field_name == "status"@ {
        SummaryModel { status: o.override_value, ..m }
    } else {
        m
    }
}

/// The effect of a list of overrides on a listing row, in order.
pub open spec fn spec_apply_overrides_summary(m: SummaryModel, os: Seq<OverrideModel>) -> SummaryModel
    decreases os.len(),
{
    if os.len() == 0 {
        m
    } else {
        spec_apply_overrides_summary(spec_apply_override_summary(m, os[0]), os.drop_first())
    }
}

/// Applies the recorded overrides to a listing row in order, as
/// [`spec_apply_overrides_summary`] states.
pub fn apply_overrides_to_summary(summary: &mut InvoiceSummary, overrides: &[InvoiceOverride])
    ensures
        final(summary)@ == spec_apply_overrides_summary(
            old(summary)@,
            overrides@.map_values(|o: InvoiceOverride| o@),
        ),
{
    let ghost os = overrides@.map_values(|o: InvoiceOverride| o@);
    let n = overrides.len();
    let mut i: usize = 0;
    proof {
        assert(os.skip(0) =~= os);
    }
    while i < n
        invariant
            0 <= i <= n,
            n == overrides@.len(),
            os == overrides@.map_values(|o: InvoiceOverride| o@),
            spec_apply_overrides_summary(old(summary)@, os) == spec_apply_overrides_summary(
                summary@,
                os.skip(i as int),
            ),
        decreases n - i,
    {
        proof {
            assert(os.skip(i as int)[0] == os[i as int]);
            assert(os.skip(i as int).drop_first() =~= os.skip(i + 1));
        }
        let o = &overrides[i];
        if str_eq(o.field_name.as_str(), "invoice_date") {
            summary.invoice_date = Some(o.override_value.clone());
        } else if str_eq(o.field_name.as_str(), "counterparty_name") {
            summary.counterparty_name = Some(o.override_value.clone());
        } else if str_eq(o.field_name.as_str(), "total_amount") {
            summary.total_amount = o.override_value.clone();
        } else if str_eq(o.field_name.as_str(), "status") {
            summary.status = o.override_value.clone();
        }
        i = i + 1;
    }
    proof {
        assert(os.skip(n as int) =~= Seq::<OverrideModel>::empty());
    }
}

} // verus!
