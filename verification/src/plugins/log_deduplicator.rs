//! Counts of a deduplication run.
use vstd::prelude::*;

verus! {

#[derive(Debug, Clone, Copy)]
pub struct DuplicateStats {
    pub original_count: u32,
    pub deduplicated_count: u32,
    pub exact_duplicate_groups: u32,
    pub similarity_groups: u32,
    pub saved_entries: u32,
}

} // verus!
