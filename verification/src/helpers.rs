//! Small constructors shared across the pipeline.

use vstd::prelude::*;
use crate::models::{MatchingInfo, MatchingStatus, UsageInfo};

verus! {

/// Addition capped at the integer's maximum.
pub open spec fn sat_add_u32(a: u32, b: u32) -> u32 {
    if a + b > u32::MAX {
        u32::MAX as u32
    } else {
        (a + b) as u32
    }
}

/// Adds two token counts, capping at the maximum.
pub fn add_tokens(a: u32, b: u32) -> (r: u32)
    ensures
        r == sat_add_u32(a, b),
{
    if b > u32::MAX - a {
        u32::MAX
    } else {
        a + b
    }
}

/// The report of a request with nothing required and nothing missing.
pub fn create_default_matching_info() -> (r: MatchingInfo)
    ensures
        r.status == MatchingStatus::Complete,
        r.total_required_fields == 0,
        r.mapped_required_fields == 0,
        r.total_optional_fields == 0,
        r.mapped_optional_fields == 0,
        r.completion_percentage == 100,
        r.missing_required_fields@.len() == 0,
        r.missing_optional_fields@.len() == 0,
{
    MatchingInfo {
        status: MatchingStatus::Complete,
        total_required_fields: 0,
        mapped_required_fields: 0,
        total_optional_fields: 0,
        mapped_optional_fields: 0,
        completion_percentage: 100,
        missing_required_fields: Vec::new(),
        missing_optional_fields: Vec::new(),
    }
}

/// Usage bookkeeping from an input and output count; the total is their sum,
/// capped at the counter's maximum.
pub fn create_usage_info(input: u32, output: u32, model: String, estimated: bool) -> (r: UsageInfo)
    ensures
        r.input_tokens == input,
        r.output_tokens == output,
        r.total_tokens == sat_add_u32(input, output),
        r.model@ == model@,
        r.estimated == estimated,
{
    let total = add_tokens(input, output);
    UsageInfo { input_tokens: input, output_tokens: output, total_tokens: total, model, estimated }
}

} // verus!
