//! The state that the phases of one query's translation share.

use vstd::prelude::*;
use crate::order_by::SortMetadata;

verus! {

/// Where the count of rows still to be output is kept.
#[derive(Debug, Clone, Copy, PartialEq, Eq, Structural)]
pub struct LimitCtx {
    pub reg_limit: usize,
}

/// The state of one query's translation. It is passed by exclusive reference
/// through each phase and lives no longer than the translation.
#[derive(Debug, Clone, PartialEq, Eq)]
pub struct TranslateCtx {
    /// The sorter's handle and record register, once the sorter is configured.
    pub meta_sort: Option<SortMetadata>,
    /// For each result column, in `SELECT` order, the column of the sorter
    /// record that holds its value. The feeding phase writes it, and the
    /// draining phase reads the output row by it.
    pub result_column_indexes_in_orderby_sorter: Vec<usize>,
    /// The first of the registers that an output row is assembled in.
    pub reg_result_cols_start: Option<usize>,
    /// The register that counts the rows still to be skipped.
    pub reg_offset: Option<usize>,
    /// Where the count of rows still to be output is kept.
    pub limit_ctx: Option<LimitCtx>,
}

impl TranslateCtx {
    /// The state before any phase has run.
    pub fn new() -> (r: Self)
        ensures
            r.meta_sort is None,
            r.result_column_indexes_in_orderby_sorter@ == Seq::<usize>::empty(),
            r.reg_result_cols_start is None,
            r.reg_offset is None,
            r.limit_ctx is None,
    {
        TranslateCtx {
            meta_sort: None,
            result_column_indexes_in_orderby_sorter: Vec::new(),
            reg_result_cols_start: None,
            reg_offset: None,
            limit_ctx: None,
        }
    }
}

} // verus!
