//! Plan-time decisions: which scan targets are supported, and the fixed
//! default row-count estimate reported to the host's planner.

use vstd::prelude::*;

use crate::ScanError;

verus! {

/// The fixed cardinality estimate for a foreign table: one row, since no
/// cost-based path selection is done.
pub fn default_row_estimate() -> (n: u64)
    ensures
        n == 1,
{
    1
}

/// Accepts exactly a single-relation scan target; anything else — several
/// sources, or a non-relation source — is an unsupported plan shape.
pub fn validate_scan_target(source_count: usize, is_relation: bool) -> (r: Result<(), ScanError>)
    ensures
        r is Ok <==> (source_count == 1 && is_relation),
        r is Err ==> r->Err_0 == ScanError::PlanError,
{
    if source_count == 1 && is_relation {
        Ok(())
    } else {
        Err(ScanError::PlanError)
    }
}

} // verus!
