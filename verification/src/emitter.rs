//! What the phases emit for the parts of a query that they do not lower
//! themselves: expressions, `OFFSET`, and the output row with `LIMIT`.
//!
//! The engine evaluates expressions itself. So an expression is lowered to
//! one instruction, which holds the expression's tree and the register that
//! its value goes to, once it is checked that the engine can evaluate it.

use vstd::prelude::*;
use crate::context::LimitCtx;
use crate::error::LoweringError;
use crate::expr::Expr;
use crate::plan::SelectPlan;
use crate::program::BranchOffset;
use crate::program::Insn;
use crate::program::InsnView;
use crate::program::ProgramBuilder;
use crate::resolver::check_expr;
use crate::resolver::compile_failure;
use crate::resolver::Resolver;
use crate::schema::TableReferences;

verus! {

/// Compiles an expression: emits its evaluation on the current candidate row
/// into a register, and returns the register.
///
/// The expression is first checked against the tables that the query refers
/// to and the functions that the engine has. Where it cannot be evaluated the
/// failure of its first part that fails is returned and nothing is emitted.
pub fn translate_expr(
    program: &mut ProgramBuilder,
    referenced_tables: Option<&TableReferences>,
    expr: &Expr,
    target_register: usize,
    resolver: &Resolver,
) -> (r: Result<usize, LoweringError>)
    ensures
        match compile_failure(expr@, referenced_tables, resolver) {
            None => {
                &&& r == Ok::<usize, LoweringError>(target_register)
                &&& final(program)@ == old(program)@.emit(
                    InsnView::Eval { expr: expr@, dest: target_register },
                )
            },
            Some(e) => {
                &&& r is Err
                &&& r->Err_0@ == e
                &&& final(program)@ == old(program)@
            },
        },
{
    match check_expr(expr, referenced_tables, resolver) {
        Ok(()) => {},
        Err(e) => {
            return Err(e);
        },
    }
    program.emit_insn(Insn::Eval { expr: expr.clone(), dest: target_register });
    Ok(target_register)
}

/// The instructions that skip the rows that `OFFSET` asks to skip.
pub open spec fn offset_code(plan: &SelectPlan, jump_to: BranchOffset, reg_offset: Option<usize>) -> Seq<
    InsnView,
> {
    if plan.skips_rows() && reg_offset is Some {
        seq![InsnView::IfPos { reg: reg_offset->Some_0, target_pc: jump_to, decrement_by: 1 }]
    } else {
        Seq::empty()
    }
}

/// Emits the `OFFSET` check of a loop over rows: while rows remain to be
/// skipped, one is counted off and control goes to `jump_to`. Nothing is
/// emitted for a plan without a positive offset.
pub fn emit_offset(
    program: &mut ProgramBuilder,
    plan: &SelectPlan,
    jump_to: BranchOffset,
    reg_offset: Option<usize>,
)
    requires
        plan.skips_rows() ==> reg_offset is Some,
    ensures
        final(program)@ == old(program)@.emit_all(offset_code(plan, jump_to, reg_offset)),
{
    match plan.offset {
        Some(offset) => {
            if offset > 0 {
                match reg_offset {
                    Some(reg) => {
                        program.emit_insn(
                            Insn::IfPos { reg, target_pc: jump_to, decrement_by: 1 },
                        );
                        assert(program@.code =~= old(program)@.code + offset_code(
                            plan,
                            jump_to,
                            reg_offset,
                        ));
                        return ;
                    },
                    None => {},
                }
            }
        },
        None => {},
    }
    assert(program@.code =~= old(program)@.code + offset_code(plan, jump_to, reg_offset));
}

/// The instructions that output one row and count it against `LIMIT`.
pub open spec fn result_row_code(
    plan: &SelectPlan,
    result_columns_start_reg: usize,
    limit_ctx: Option<LimitCtx>,
    label_on_limit_reached: Option<BranchOffset>,
) -> Seq<InsnView> {
    let row = seq![
        InsnView::ResultRow {
            start_reg: result_columns_start_reg,
            count: plan.result_columns.len(),
        },
    ];
    if plan.limit is Some && label_on_limit_reached is Some && limit_ctx is Some {
        row.push(
            InsnView::DecrJumpZero {
                reg: limit_ctx->Some_0.reg_limit,
                target_pc: label_on_limit_reached->Some_0,
            },
        )
    } else {
        row
    }
}

/// Emits the output of one row from the registers that start at
/// `result_columns_start_reg` and, for a plan with a `LIMIT` and a place to
/// go when it is reached, the count of that row against the limit.
pub fn emit_result_row_and_limit(
    program: &mut ProgramBuilder,
    plan: &SelectPlan,
    result_columns_start_reg: usize,
    limit_ctx: Option<LimitCtx>,
    label_on_limit_reached: Option<BranchOffset>,
)
    requires
        plan.limit is Some && label_on_limit_reached is Some ==> limit_ctx is Some,
    ensures
        final(program)@ == old(program)@.emit_all(
            result_row_code(plan, result_columns_start_reg, limit_ctx, label_on_limit_reached),
        ),
{
    program.emit_insn(
        Insn::ResultRow { start_reg: result_columns_start_reg, count: plan.result_columns.len() },
    );
    if plan.limit.is_some() {
        match label_on_limit_reached {
            Some(label) => match limit_ctx {
                Some(ctx) => {
                    program.emit_insn(Insn::DecrJumpZero { reg: ctx.reg_limit, target_pc: label });
                },
                None => {},
            },
            None => {},
        }
    }
    assert(program@.code =~= old(program)@.code + result_row_code(
        plan,
        result_columns_start_reg,
        limit_ctx,
        label_on_limit_reached,
    ));
}

} // verus!
