//! The parts of a `SELECT` plan that sorting reads.

use vstd::prelude::*;
use turso_sqlite3_parser::ast::SortOrder;
use crate::expr::Expr;
use crate::expr::ExprView;
use crate::program::BranchOffset;
use crate::program::Insn;
use crate::program::InsnView;
use crate::program::ProgramBuilder;
use crate::schema::TableReferences;

verus! {

/// The sort direction of the SQL parser, `turso_sqlite3_parser::ast::SortOrder`.
/// The lowering never looks inside a value of this type: it copies the
/// direction of each sort key into the instruction that configures the sorter.
#[verifier::external_type_specification]
#[verifier::external_body]
pub struct ExSortOrder(SortOrder);

/// One column of the output, in the position that the `SELECT` clause gives it.
#[derive(Debug, Clone, PartialEq, Eq)]
pub struct ResultSetColumn {
    pub expr: Expr,
    pub alias: Option<String>,
}

/// What the mechanism that suppresses duplicate rows needs to do its check.
#[derive(Debug, Clone, PartialEq, Eq)]
pub struct DistinctCtx {
    /// The cursor that remembers the rows seen so far.
    pub cursor_id: usize,
    /// Where to go on with a row that was seen before.
    pub label_on_conflict: BranchOffset,
}

impl DistinctCtx {
    /// The check that this context makes on a window of registers.
    pub open spec fn deduplication_insn(&self, num_regs: usize, start_reg: usize) -> InsnView {
        InsnView::Distinct {
            cursor_id: self.cursor_id,
            start_reg,
            num_regs,
            pc_if_seen: self.label_on_conflict,
        }
    }

    /// Emits the check that lets a row through only the first time its values
    /// appear in the `num_regs` registers from `start_reg` on.
    pub fn emit_deduplication_insns(
        &self,
        program: &mut ProgramBuilder,
        num_regs: usize,
        start_reg: usize,
    )
        ensures
            final(program)@ == old(program)@.emit(self.deduplication_insn(num_regs, start_reg)),
    {
        program.emit_insn(
            Insn::Distinct {
                cursor_id: self.cursor_id,
                start_reg,
                num_regs,
                pc_if_seen: self.label_on_conflict,
            },
        );
    }
}

/// Whether a query keeps duplicate rows.
#[derive(Debug, Clone, PartialEq, Eq)]
pub enum Distinctness {
    NonDistinct,
    Distinct { ctx: Option<DistinctCtx> },
}

/// A `SELECT`, as far as sorting its output is concerned.
#[derive(Debug, Clone, PartialEq, Eq)]
pub struct SelectPlan {
    pub table_references: TableReferences,
    /// The output columns, in `SELECT` order.
    pub result_columns: Vec<ResultSetColumn>,
    /// The sort keys, most significant first.
    pub order_by: Option<Vec<(Expr, SortOrder)>>,
    pub limit: Option<usize>,
    pub offset: Option<usize>,
    pub distinctness: Distinctness,
}

/// The expressions of a list of sort keys, in order.
pub open spec fn key_exprs(order_by: Seq<(Expr, SortOrder)>) -> Seq<ExprView> {
    order_by.map_values(|k: (Expr, SortOrder)| k.0@)
}

/// The directions of a list of sort keys, in order.
pub open spec fn key_directions(order_by: Seq<(Expr, SortOrder)>) -> Seq<SortOrder> {
    order_by.map_values(|k: (Expr, SortOrder)| k.1)
}

/// The expressions of a list of result columns, in order.
pub open spec fn column_exprs(result_columns: Seq<ResultSetColumn>) -> Seq<ExprView> {
    result_columns.map_values(|c: ResultSetColumn| c.expr@)
}

impl SelectPlan {
    /// The expressions of the sort keys; none where the plan does not sort.
    pub open spec fn keys(&self) -> Seq<ExprView> {
        match self.order_by {
            Some(order_by) => key_exprs(order_by@),
            None => Seq::empty(),
        }
    }

    /// The expressions of the result columns.
    pub open spec fn columns(&self) -> Seq<ExprView> {
        column_exprs(self.result_columns@)
    }

    /// Whether rows are skipped before the first one is output.
    pub open spec fn skips_rows(&self) -> bool {
        self.offset matches Some(n) && n > 0
    }
}

} // verus!
