//! What the emitted instructions do together: the draining phase decodes
//! what the feeding phase packed, and a run of the draining loop outputs the
//! sorted rows that `OFFSET` and `LIMIT` leave, each in `SELECT` order.

use vstd::prelude::*;
use crate::context::TranslateCtx;
use crate::emitter::offset_code;
use crate::engine::counters_hold;
use crate::engine::drained;
use crate::engine::holds_loop;
use crate::engine::jump_target;
use crate::engine::lemma_feeds;
use crate::engine::FeedBlock;
use crate::engine::lemma_drains;
use crate::engine::lemma_window_of_mapped;
use crate::engine::window;
use crate::engine::project;
use crate::engine::run;
use crate::engine::DrainLoop;
use crate::engine::Machine;
use crate::expr::ExprView;
use crate::layout::layout_index;
use crate::layout::layout_width;
use crate::layout::lemma_layout_index_holds_column;
use crate::layout::lemma_layout_width;
use crate::layout::lemma_output_is_select_list;
use crate::layout::output_of;
use crate::layout::record_of;
use crate::layout::skipped_columns;
use crate::layout::sorter_layout;
use crate::order_by::column_slots;
use crate::order_by::drain_code;
use crate::order_by::drained_program;
use crate::order_by::fed_program;
use crate::order_by::feed_failure;
use crate::order_by::stopped_program;
use crate::resolver::compile_failure;
use crate::resolver::evaluated_before_failure;
use crate::resolver::lemma_first_failure;
use crate::resolver::Resolver;
use crate::order_by::feed_code;
use crate::order_by::SortMetadata;
use crate::plan::Distinctness;
use crate::plan::SelectPlan;
use crate::program::BranchOffset;
use crate::program::InsnView;
use crate::program::ProgramView;

verus! {

/// Whether the context holds what the feeding phase leaves in it for a
/// plan: at the front of its list the record column of each result column.
pub open spec fn context_describes_sorter(t_ctx: &TranslateCtx, plan: &SelectPlan) -> bool {
    let slots = column_slots(plan.keys(), plan.columns());
    let recorded = t_ctx.result_column_indexes_in_orderby_sorter@;
    &&& slots.len() <= recorded.len()
    &&& recorded.take(slots.len() as int) == slots
}

/// A context describes the sorter once the feeding phase has written its
/// list.
pub proof fn lemma_feeding_describes_sorter(t_ctx: &TranslateCtx, plan: &SelectPlan)
    requires
        t_ctx.result_column_indexes_in_orderby_sorter@ == column_slots(
            plan.keys(),
            plan.columns(),
        ),
    ensures
        context_describes_sorter(t_ctx, plan),
{
    let slots = column_slots(plan.keys(), plan.columns());
    assert(slots.take(slots.len() as int) =~= slots);
}

/// The record that the feeding phase packs has one column for each sort key
/// and each result column, less the skipped ones, and the decoding view that
/// the draining phase opens has as many, whatever the context holds.
pub proof fn lemma_drain_decodes_what_feed_packs(
    t_ctx: &TranslateCtx,
    plan: &SelectPlan,
    feed_start_reg: usize,
    pseudo_cursor: usize,
    first_label: usize,
)
    requires
        t_ctx.meta_sort is Some,
    ensures
        ({
            let meta = t_ctx.meta_sort->Some_0;
            let width = plan.keys().len() + plan.columns().len() - skipped_columns(
                plan.keys(),
                plan.columns(),
            ).len();
            let feed = feed_code(plan, meta, feed_start_reg);
            let drain = drain_code(t_ctx, plan, pseudo_cursor, first_label);
            &&& width == layout_width(plan.keys(), plan.columns())
            &&& feed[feed.len() - 2] == InsnView::MakeRecord {
                start_reg: feed_start_reg,
                count: width as usize,
                dest_reg: meta.reg_sorter_data,
                index_name: None,
            }
            &&& drain[0] == InsnView::OpenPseudo {
                cursor_id: pseudo_cursor,
                content_reg: meta.reg_sorter_data,
                num_fields: width as usize,
            }
        }),
{
    lemma_layout_width(plan.keys(), plan.columns());
}

/// Where the instruction that decodes result column `i` stands in the
/// instructions that drain the sorter.
pub open spec fn decode_position(plan: &SelectPlan, t_ctx: &TranslateCtx, i: int) -> int {
    3 + offset_code(plan, BranchOffset::Label(0), t_ctx.reg_offset).len() + i
}

/// The draining phase assembles the output row in `SELECT` order: the value
/// decoded into the `i`-th output register comes from the record column that
/// the feeding phase evaluated the `i`-th result column's expression into,
/// however many result columns were skipped.
pub proof fn lemma_drain_restores_select_order(
    t_ctx: &TranslateCtx,
    plan: &SelectPlan,
    feed_start_reg: usize,
    pseudo_cursor: usize,
    first_label: usize,
    i: int,
)
    requires
        t_ctx.meta_sort is Some,
        t_ctx.reg_result_cols_start is Some,
        context_describes_sorter(t_ctx, plan),
        feed_start_reg + layout_width(plan.keys(), plan.columns()) <= usize::MAX,
        0 <= i < plan.columns().len(),
        t_ctx.reg_result_cols_start->Some_0 + i <= usize::MAX,
    ensures
        ({
            let meta = t_ctx.meta_sort->Some_0;
            let slot = layout_index(plan.keys(), plan.columns(), i);
            let feed = feed_code(plan, meta, feed_start_reg);
            let drain = drain_code(t_ctx, plan, pseudo_cursor, first_label);
            &&& 0 <= slot < layout_width(plan.keys(), plan.columns())
            &&& feed[slot] == InsnView::Eval {
                expr: plan.columns()[i],
                dest: (feed_start_reg + slot) as usize,
            }
            &&& drain[decode_position(plan, t_ctx, i)] == InsnView::Column {
                cursor_id: pseudo_cursor,
                column: slot as usize,
                dest: (t_ctx.reg_result_cols_start->Some_0 + i) as usize,
            }
        }),
{
    let keys = plan.keys();
    let columns = plan.columns();
    lemma_layout_index_holds_column(keys, columns, i);
    lemma_layout_width(keys, columns);
    let slots = column_slots(keys, columns);
    let recorded = t_ctx.result_column_indexes_in_orderby_sorter@;
    assert(recorded[i] == recorded.take(slots.len() as int)[i]);
    assert(slots[i] == layout_index(keys, columns, i) as usize);
}

/// The draining loop that is emitted at the end of a program.
pub open spec fn drain_loop(before: ProgramView, t_ctx: &TranslateCtx, plan: &SelectPlan) -> DrainLoop
    recommends
        t_ctx.meta_sort is Some,
        t_ctx.reg_result_cols_start is Some,
{
    DrainLoop {
        base: before.code.len() as int,
        view: before.cursors.len() as usize,
        data_reg: t_ctx.meta_sort->Some_0.reg_sorter_data,
        offset_reg: if plan.skips_rows() {
            t_ctx.reg_offset
        } else {
            None
        },
        limit_reg: if plan.limit is Some && t_ctx.limit_ctx is Some {
            Some(t_ctx.limit_ctx->Some_0.reg_limit)
        } else {
            None
        },
        start_reg: t_ctx.reg_result_cols_start->Some_0,
        slots: t_ctx.result_column_indexes_in_orderby_sorter@.take(
            plan.result_columns@.len() as int,
        ),
    }
}

/// Whether the draining of a plan can be emitted at the end of a program:
/// what `emit_order_by` asks of the context, and that the positions, labels
/// and cursors of the longer program can still be counted.
pub open spec fn can_drain(before: ProgramView, t_ctx: &TranslateCtx, plan: &SelectPlan) -> bool {
    &&& t_ctx.meta_sort is Some
    &&& t_ctx.reg_result_cols_start is Some
    &&& plan.result_columns@.len() <= t_ctx.result_column_indexes_in_orderby_sorter@.len()
    &&& plan.skips_rows() ==> t_ctx.reg_offset is Some
    &&& plan.limit is Some ==> t_ctx.limit_ctx is Some
    &&& before.code.len() + plan.result_columns@.len() + 7 <= usize::MAX
    &&& before.labels.len() + 2 <= usize::MAX
    &&& before.cursors.len() <= usize::MAX
}

/// The program that `emit_order_by` leaves, and any that it grows into,
/// holds the draining loop, with every jump of the loop resolved to where it
/// belongs.
pub proof fn lemma_emits_loop(
    before: ProgramView,
    t_ctx: &TranslateCtx,
    plan: &SelectPlan,
    program: ProgramView,
)
    requires
        can_drain(before, t_ctx, plan),
        drained_program(before, t_ctx, plan).grows_into(program),
    ensures
        holds_loop(program, drain_loop(before, t_ctx, plan)),
        drain_loop(before, t_ctx, plan).end() == drained_program(before, t_ctx, plan).code.len(),
{
    let emitted = drained_program(before, t_ctx, plan);
    let l = drain_loop(before, t_ctx, plan);
    let first_label = before.labels.len() as int;
    assert(program.labels[first_label] == emitted.labels[first_label]);
    assert(program.labels[first_label + 1] == emitted.labels[first_label + 1]);
    assert(program.labels[first_label + 2] == emitted.labels[first_label + 2]);
    let code = drain_code(
        t_ctx,
        plan,
        before.cursors.len() as usize,
        before.labels.len() as usize,
    );
    assert(code.len() == l.end() - l.base);
    assert forall|k: int| 0 <= k < code.len() implies #[trigger] program.code[l.base + k]
        == code[k] by {
        assert(emitted.code[l.base + k] == code[k]);
    }
    assert(program.code[l.base] == code[0]);
    assert(program.code[l.base + 1] == code[1]);
    assert(program.code[l.head()] == code[2]);
    assert(program.code[l.fetch()] == code[l.fetch() - l.base]);
    assert(program.code[l.emit_row()] == code[l.emit_row() - l.base]);
    assert(program.code[l.emit_row() + 1] == code[l.emit_row() + 1 - l.base]);
    assert(program.code[l.next()] == code[l.next() - l.base]);
    assert forall|i: int| 0 <= i < l.slots.len() implies #[trigger] program.code[l.decode(i)] == (
    InsnView::Column { cursor_id: l.view, column: l.slots[i], dest: (l.start_reg + i) as usize }) by {
        assert(program.code[l.base + (l.decode(i) - l.base)] == code[l.decode(i) - l.base]);
    }
}

/// The emitted loop, run from its first instruction in the program that
/// `emit_order_by` leaves or in any that it grows into, ends behind the last
/// emitted instruction. It outputs the sorter's rows in the sorter's order,
/// less the rows that `OFFSET` skips and no more than `LIMIT` allows, each
/// decoded into the registers of the output row. The rows that are skipped
/// come first and are not counted against the limit. Where the sorter holds
/// no row the run is over after two instructions: nothing is fetched, decoded
/// or output.
pub proof fn lemma_drain_skips_then_limits<V>(
    before: ProgramView,
    t_ctx: &TranslateCtx,
    plan: &SelectPlan,
    program: ProgramView,
    m: Machine<V>,
    offset: nat,
    limit: Option<nat>,
) -> (steps: nat)
    requires
        can_drain(before, t_ctx, plan),
        drained_program(before, t_ctx, plan).grows_into(program),
        drain_loop(before, t_ctx, plan).registers_apart(),
        m.pc == before.code.len(),
        counters_hold(drain_loop(before, t_ctx, plan), m, offset, limit),
    ensures
        ({
            let after = run(program, m, steps);
            &&& after.pc == drained_program(before, t_ctx, plan).code.len()
            &&& after.output == m.output + drained(
                drain_loop(before, t_ctx, plan).slots,
                m.rows,
                offset,
                limit,
            )
            &&& m.rows.len() == 0 ==> steps == 2 && after.output == m.output && after.registers
                == m.registers
        }),
{
    lemma_emits_loop(before, t_ctx, plan, program);
    lemma_drains(program, drain_loop(before, t_ctx, plan), m, offset, limit)
}

/// A record that holds the value of each expression of the layout is decoded
/// by the emitted loop into the values of the result columns, in `SELECT`
/// order.
pub proof fn lemma_drain_decodes_select_list<V>(
    before: ProgramView,
    t_ctx: &TranslateCtx,
    plan: &SelectPlan,
    value_of: spec_fn(ExprView) -> V,
)
    requires
        context_describes_sorter(t_ctx, plan),
        layout_width(plan.keys(), plan.columns()) <= usize::MAX,
    ensures
        project(
            drain_loop(before, t_ctx, plan).slots,
            record_of(sorter_layout(plan.keys(), plan.columns()), value_of),
        ) == plan.columns().map_values(value_of),
{
    let keys = plan.keys();
    let columns = plan.columns();
    let record = record_of(sorter_layout(keys, columns), value_of);
    let slots = drain_loop(before, t_ctx, plan).slots;
    lemma_output_is_select_list(keys, columns, value_of);
    assert(slots == column_slots(keys, columns));
    assert forall|i: int| 0 <= i < columns.len() implies project(slots, record)[i] == output_of(
        keys,
        columns,
        record,
    )[i] by {
        lemma_layout_index_holds_column(keys, columns, i);
    }
    assert(project(slots, record) =~= output_of(keys, columns, record));
}

/// A sorted query outputs the values of its result columns, in `SELECT`
/// order, for the candidate rows in the order in which the sorter yields
/// them, less the rows that `OFFSET` skips and no more than `LIMIT` allows.
///
/// A candidate row is given by the value that each expression has on it,
/// and the sorter by the candidate rows in its order: for each of them it
/// holds the record that the feeding phase packs.
pub proof fn lemma_sorted_query_outputs_select_lists<V>(
    before: ProgramView,
    t_ctx: &TranslateCtx,
    plan: &SelectPlan,
    program: ProgramView,
    m: Machine<V>,
    sorted: Seq<spec_fn(ExprView) -> V>,
    offset: nat,
    limit: Option<nat>,
) -> (steps: nat)
    requires
        can_drain(before, t_ctx, plan),
        drained_program(before, t_ctx, plan).grows_into(program),
        context_describes_sorter(t_ctx, plan),
        layout_width(plan.keys(), plan.columns()) <= usize::MAX,
        drain_loop(before, t_ctx, plan).registers_apart(),
        m.pc == before.code.len(),
        counters_hold(drain_loop(before, t_ctx, plan), m, offset, limit),
        m.rows == sorted.map_values(
            |value_of: spec_fn(ExprView) -> V|
                record_of(sorter_layout(plan.keys(), plan.columns()), value_of),
        ),
    ensures
        ({
            let after = run(program, m, steps);
            &&& after.pc == drained_program(before, t_ctx, plan).code.len()
            &&& after.output == m.output + window(sorted, offset, limit).map_values(
                |value_of: spec_fn(ExprView) -> V| plan.columns().map_values(value_of),
            )
        }),
{
    let slots = drain_loop(before, t_ctx, plan).slots;
    let layout = sorter_layout(plan.keys(), plan.columns());
    let pack = |value_of: spec_fn(ExprView) -> V| record_of(layout, value_of);
    let select = |value_of: spec_fn(ExprView) -> V| plan.columns().map_values(value_of);
    let steps = lemma_drain_skips_then_limits(before, t_ctx, plan, program, m, offset, limit);
    lemma_window_of_mapped(sorted, pack, offset, limit);
    let kept = window(sorted, offset, limit);
    assert forall|k: int| 0 <= k < kept.len() implies project(slots, pack(kept[k])) == select(
        kept[k],
    ) by {
        lemma_drain_decodes_select_list(before, t_ctx, plan, kept[k]);
    }
    assert(drained(slots, m.rows, offset, limit) =~= kept.map_values(select));
    steps
}

/// The feed block that is emitted at the end of a program, as it stands in a
/// program that the emitted one has grown into.
pub open spec fn feed_block(
    before: ProgramView,
    plan: &SelectPlan,
    meta: SortMetadata,
    program: ProgramView,
) -> FeedBlock {
    FeedBlock {
        base: before.code.len() as int,
        exprs: sorter_layout(plan.keys(), plan.columns()),
        start_reg: before.next_register,
        on_duplicate: match plan.distinctness {
            Distinctness::Distinct { ctx: Some(ctx) } => Some(
                jump_target(program.labels, ctx.label_on_conflict),
            ),
            _ => None,
        },
        record_reg: meta.reg_sorter_data,
    }
}

/// The feeding phase, run on a candidate row in the program that
/// `order_by_sorter_insert` leaves or in any that it grows into, inserts one
/// record into the sorter and ends behind the emitted instructions. The
/// record has one column for each sort key, in `ORDER BY` order, and then one
/// for each result column that no sort key equals, in `SELECT` order, each
/// with the value of its expression on the row: a result column that a sort
/// key equals has no column of its own. For a `DISTINCT` query a row whose
/// record was seen before is not inserted, and the run ends where the
/// query's check for duplicates goes on with such a row.
pub proof fn lemma_feed_inserts_record<V>(
    before: ProgramView,
    plan: &SelectPlan,
    meta: SortMetadata,
    program: ProgramView,
    m: Machine<V>,
) -> (steps: nat)
    requires
        before.next_register + layout_width(plan.keys(), plan.columns()) <= usize::MAX,
        plan.distinctness matches Distinctness::Distinct { ctx } ==> ctx is Some,
        fed_program(before, plan, meta).grows_into(program),
        m.pc == before.code.len(),
    ensures
        ({
            let after = run(program, m, steps);
            let record = record_of(sorter_layout(plan.keys(), plan.columns()), m.row);
            let checked = plan.distinctness is Distinct;
            &&& record.len() == plan.keys().len() + plan.columns().len() - skipped_columns(
                plan.keys(),
                plan.columns(),
            ).len()
            &&& if checked && m.seen.contains(record) {
                &&& after.pc == jump_target(
                    program.labels,
                    plan.distinctness->ctx->Some_0.label_on_conflict,
                )
                &&& after.inserted == m.inserted
            } else {
                &&& after.pc == fed_program(before, plan, meta).code.len()
                &&& after.inserted == m.inserted.push(record)
            }
        }),
{
    let emitted = fed_program(before, plan, meta);
    let f = feed_block(before, plan, meta, program);
    let code = feed_code(plan, meta, before.next_register);
    lemma_layout_width(plan.keys(), plan.columns());
    assert forall|k: int| 0 <= k < code.len() implies #[trigger] program.code[f.base + k]
        == code[k] by {
        assert(emitted.code[f.base + k] == code[k]);
    }
    if f.on_duplicate is Some {
        assert(program.code[f.base + f.exprs.len()] == code[f.exprs.len() as int]);
    }
    assert(program.code[f.pack()] == code[f.pack() - f.base]);
    assert(program.code[f.pack() + 1] == code[f.pack() + 1 - f.base]);
    assert forall|j: int| 0 <= j < f.exprs.len() implies #[trigger] program.code[f.base + j] == (
    InsnView::Eval { expr: f.exprs[j], dest: (f.start_reg + j) as usize }) by {
        assert(program.code[f.base + j] == code[j]);
    }
    lemma_feeds(program, f, m)
}

/// Where the feeding phase fails, its error is that of the first expression
/// of the sorter record, sort keys first, that cannot be compiled. What it
/// has emitted by then evaluates the expressions before that one and does
/// nothing else: no record is packed and none is inserted.
pub proof fn lemma_failed_feed_inserts_nothing(
    before: ProgramView,
    plan: &SelectPlan,
    resolver: &Resolver,
)
    requires
        feed_failure(plan, resolver) is Some,
    ensures
        ({
            let layout = sorter_layout(plan.keys(), plan.columns());
            let tables = Some(&plan.table_references);
            let done = evaluated_before_failure(layout, layout.len(), tables, resolver);
            let stopped = stopped_program(before, plan, resolver);
            &&& done < layout.len()
            &&& compile_failure(layout[done as int], tables, resolver) == feed_failure(
                plan,
                resolver,
            )
            &&& forall|j: int|
                0 <= j < done ==> compile_failure(#[trigger] layout[j], tables, resolver) is None
            &&& stopped.code.len() == before.code.len() + done
            &&& forall|at: int|
                before.code.len() <= at < stopped.code.len() ==> (#[trigger] stopped.code[at])
                    is Eval
        }),
{
    let layout = sorter_layout(plan.keys(), plan.columns());
    lemma_first_failure(layout, layout.len(), Some(&plan.table_references), resolver);
}

} // verus!
