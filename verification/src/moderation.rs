//! Blocks and reports.
use vstd::prelude::*;

use crate::error::{is_single_validation, ApiError};
use crate::text::{trim, trimmed};
use crate::vocab::{choices_view, contains, has_id, report_reasons, report_reasons_table};

verus! {

pub const MAX_REPORT_BODY: usize = 2000;

/// Shared by blocking and reporting: you cannot act on yourself.
pub fn target(actor: u128, subject: u128) -> (r: Result<(), ApiError>)
    ensures
        match r {
            Ok(()) => actor != subject,
            Err(e) => actor == subject && is_single_validation(
                e,
                "user_id"@,
                "you cannot do that to yourself"@,
            ),
        },
{
    if actor == subject {
        Err(ApiError::invalid_field("user_id", "you cannot do that to yourself"))
    } else {
        Ok(())
    }
}

/// Checks a report's reason and body: the reason must be one of the
/// available reasons, and the trimmed body at most 2000 characters. Gives
/// back the trimmed body to store.
pub fn validate_report(reason: &str, body: &str) -> (r: Result<String, ApiError>)
    ensures
        match r {
            Ok(b) => has_id(report_reasons_table(), reason@) && trimmed(body@).len()
                <= MAX_REPORT_BODY && b@ == trimmed(body@),
            Err(e) => if !has_id(report_reasons_table(), reason@) {
                is_single_validation(e, "reason"@, "is not one of the available reasons"@)
            } else {
                trimmed(body@).len() > MAX_REPORT_BODY && is_single_validation(
                    e,
                    "body"@,
                    "must be 2000 characters or fewer"@,
                )
            },
        },
{
    let reasons = report_reasons();
    if !contains(reasons.as_slice(), reason) {
        return Err(ApiError::invalid_field("reason", "is not one of the available reasons"));
    }
    let trimmed_body = trim(body);
    if trimmed_body.as_str().unicode_len() > MAX_REPORT_BODY {
        return Err(ApiError::invalid_field("body", "must be 2000 characters or fewer"));
    }
    Ok(trimmed_body)
}

} // verus!
