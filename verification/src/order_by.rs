//! The three phases of sorting a query's output: configuring the sorter
//! before the scan, feeding it one record per candidate row, and draining it
//! in sorted order once the scan is over.

use vstd::prelude::*;
use turso_sqlite3_parser::ast::SortOrder;
use crate::collate::key_collations;
use crate::collate::lemma_collations_fail_with_prefix;
use crate::collate::refers_to_known_table;
use crate::collate::resolve_collation;
use crate::collate::CollationSeq;
use crate::context::TranslateCtx;
use crate::emitter::emit_offset;
use crate::emitter::emit_result_row_and_limit;
use crate::emitter::offset_code;
use crate::emitter::result_row_code;
use crate::emitter::translate_expr;
use crate::resolver::evaluated_before_failure;
use crate::resolver::failure_among;
use crate::resolver::lemma_fails_at;
use crate::resolver::Resolver;
use crate::error::LoweringError;
use crate::error::LoweringErrorView;
use crate::expr::exprs_are_equivalent;
use crate::expr::Expr;
use crate::expr::ExprView;
use crate::layout::layout_index;
use crate::layout::layout_width;
use crate::layout::lemma_first_key;
use crate::layout::lemma_first_key_is;
use crate::layout::lemma_layout_width;
use crate::layout::lemma_next_column;
use crate::layout::lemma_skipped_columns;
use crate::layout::lemma_stored_prefix;
use crate::layout::skipped_columns;
use crate::layout::sorter_layout;
use crate::layout::stored_columns;
use crate::plan::column_exprs;
use crate::plan::key_directions;
use crate::plan::key_exprs;
use crate::plan::Distinctness;
use crate::plan::ResultSetColumn;
use crate::plan::SelectPlan;
use crate::program::lemma_emitted_more;
use crate::program::lemma_emitted_one;
use crate::program::lemma_three_labels;
use crate::program::BranchOffset;
use crate::program::CursorType;
use crate::program::Insn;
use crate::program::InsnView;
use crate::program::ProgramBuilder;
use crate::program::ProgramView;
use crate::program::PseudoCursorType;
use crate::schema::TableReferences;

verus! {

/// What the feeding and the draining phase need to know of the sorter.
#[derive(Debug, Clone, Copy, PartialEq, Eq, Structural)]
pub struct SortMetadata {
    /// The cursor of the sorter that holds the rows.
    pub sort_cursor: usize,
    /// The register that a record is put in before it is inserted, and that
    /// a sorted record is fetched into.
    pub reg_sorter_data: usize,
}

/// Prepares the sorting of a query's output. Called once, before the scan.
///
/// A sorter cursor and the register for its records are allocated and
/// recorded in the context. Then the collation of each sort key is resolved,
/// and the sorter is configured with one column per sort key, each with the
/// key's direction and collation. Where a key has no collation the error of
/// the first such key is returned and nothing is emitted.
pub fn init_order_by(
    program: &mut ProgramBuilder,
    t_ctx: &mut TranslateCtx,
    order_by: &[(Expr, SortOrder)],
    referenced_tables: &TableReferences,
) -> (r: Result<(), LoweringError>)
    requires
        old(program).next_free_register < usize::MAX,
        forall|i: int|
            0 <= i < order_by@.len() ==> refers_to_known_table(
                (#[trigger] order_by@[i]).0@,
                referenced_tables,
            ),
    ensures
        *final(t_ctx) == (TranslateCtx {
            meta_sort: Some(
                SortMetadata {
                    sort_cursor: old(program).cursor_ref.len(),
                    reg_sorter_data: old(program).next_free_register,
                },
            ),
            ..*old(t_ctx)
        }),
        match key_collations(order_by@, referenced_tables) {
            Ok(collations) => {
                &&& r is Ok
                &&& final(program)@ == old(program)@.with_cursor(CursorType::Sorter).with_registers(
                    1,
                ).emit(
                    InsnView::SorterOpen {
                        cursor_id: old(program).cursor_ref.len(),
                        columns: order_by@.len() as usize,
                        order: key_directions(order_by@),
                        collations,
                    },
                )
            },
            Err(e) => {
                &&& r is Err
                &&& r->Err_0@ == e
                &&& final(program)@ == old(program)@.with_cursor(CursorType::Sorter).with_registers(
                    1,
                )
            },
        },
{
    let sort_cursor = program.alloc_cursor_id(CursorType::Sorter);
    t_ctx.meta_sort = Some(SortMetadata { sort_cursor, reg_sorter_data: program.alloc_register() });

    let mut collations: Vec<Option<CollationSeq>> = Vec::new();
    let mut order: Vec<SortOrder> = Vec::new();
    let mut i: usize = 0;
    while i < order_by.len()
        invariant
            i <= order_by@.len(),
            forall|i: int|
                0 <= i < order_by@.len() ==> refers_to_known_table(
                    (#[trigger] order_by@[i]).0@,
                    referenced_tables,
                ),
            key_collations(order_by@.take(i as int), referenced_tables) == Ok::<
                Seq<Option<CollationSeq>>,
                LoweringErrorView,
            >(collations@),
            order@ == key_directions(order_by@.take(i as int)),
            sort_cursor == old(program).cursor_ref.len(),
            program@ == old(program)@.with_cursor(CursorType::Sorter).with_registers(1),
            *t_ctx == (TranslateCtx {
                meta_sort: Some(
                    SortMetadata {
                        sort_cursor: old(program).cursor_ref.len(),
                        reg_sorter_data: old(program).next_free_register,
                    },
                ),
                ..*old(t_ctx)
            }),
        decreases order_by@.len() - i,
    {
        proof {
            let next = order_by@.take(i + 1);
            assert(next.drop_last() == order_by@.take(i as int));
            assert(next.last() == order_by@[i as int]);
            assert(key_directions(next) == key_directions(order_by@.take(i as int)).push(
                order_by@[i as int].1,
            ));
        }
        match resolve_collation(&order_by[i].0, referenced_tables) {
            Ok(c) => {
                collations.push(c);
            },
            Err(e) => {
                proof {
                    lemma_collations_fail_with_prefix(order_by@, referenced_tables, i + 1);
                }
                return Err(e);
            },
        }
        let direction: SortOrder = order_by[i].1;
        order.push(direction);
        i += 1;
    }
    assert(order_by@.take(i as int) == order_by@);
    program.emit_insn(
        Insn::SorterOpen { cursor_id: sort_cursor, columns: order_by.len(), order, collations },
    );
    Ok(())
}

/// The instructions that pack registers into a record and insert it.
pub open spec fn sorter_insert_code(
    start_reg: usize,
    column_count: usize,
    cursor_id: usize,
    record_reg: usize,
) -> Seq<InsnView> {
    seq![
        InsnView::MakeRecord {
            start_reg,
            count: column_count,
            dest_reg: record_reg,
            index_name: None,
        },
        InsnView::SorterInsert { cursor_id, record_reg },
    ]
}

/// Emits the insertion of one row into a sorter: the `column_count` registers
/// from `start_reg` on are packed into one record in `record_reg`, and the
/// record is handed to the sorter of `cursor_id`.
pub fn sorter_insert(
    program: &mut ProgramBuilder,
    start_reg: usize,
    column_count: usize,
    cursor_id: usize,
    record_reg: usize,
)
    ensures
        final(program)@ == old(program)@.emit_all(
            sorter_insert_code(start_reg, column_count, cursor_id, record_reg),
        ),
{
    program.emit_insn(
        Insn::MakeRecord { start_reg, count: column_count, dest_reg: record_reg, index_name: None },
    );
    program.emit_insn(Insn::SorterInsert { cursor_id, record_reg });
    assert(program@.code =~= old(program)@.code + sorter_insert_code(
        start_reg,
        column_count,
        cursor_id,
        record_reg,
    ));
}

/// The first sort key whose expression is equivalent to `expr`.
fn first_equivalent_key(order_by: &[(Expr, SortOrder)], expr: &Expr) -> (r: Option<usize>)
    ensures
        match r {
            Some(k) => key_exprs(order_by@).index_of_first(expr@) == Some(k as int),
            None => key_exprs(order_by@).index_of_first(expr@) is None,
        },
{
    let mut j: usize = 0;
    while j < order_by.len()
        invariant
            j <= order_by@.len(),
            forall|k: int| 0 <= k < j ==> #[trigger] key_exprs(order_by@)[k] != expr@,
        decreases order_by@.len() - j,
    {
        if exprs_are_equivalent(&order_by[j].0, expr) {
            proof {
                lemma_first_key_is(key_exprs(order_by@), expr@, j as int);
            }
            return Some(j);
        }
        j += 1;
    }
    proof {
        lemma_first_key(key_exprs(order_by@), expr@);
    }
    None
}

/// The pairs that a list of skipped columns holds; none where there is no list.
pub open spec fn skipped_pairs(skipped: Option<Vec<(usize, usize)>>) -> Seq<(int, int)> {
    match skipped {
        Some(v) => v@.map_values(|p: (usize, usize)| (p.0 as int, p.1 as int)),
        None => Seq::empty(),
    }
}

/// Finds the result columns that need no column of their own in the sorter
/// record, because a sort key is the same expression.
///
/// The result columns are taken in `SELECT` order and each is held against
/// the sort keys in `ORDER BY` order. Each column that equals a key gives one
/// pair: its position, and the position of the first key that equals it. The
/// result is the list of these pairs, or `None` where there is no such column.
pub fn order_by_deduplicate_result_columns(
    order_by: &[(Expr, SortOrder)],
    result_columns: &[ResultSetColumn],
) -> (r: Option<Vec<(usize, usize)>>)
    ensures
        skipped_pairs(r) == skipped_columns(key_exprs(order_by@), column_exprs(result_columns@)),
        r matches Some(v) ==> v@.len() > 0,
{
    let ghost keys = key_exprs(order_by@);
    let ghost columns = column_exprs(result_columns@);
    let mut result_column_remapping: Option<Vec<(usize, usize)>> = None;
    let mut i: usize = 0;
    while i < result_columns.len()
        invariant
            i <= result_columns@.len(),
            keys == key_exprs(order_by@),
            columns == column_exprs(result_columns@),
            skipped_pairs(result_column_remapping) == skipped_columns(keys, columns.take(i as int)),
            result_column_remapping matches Some(v) ==> v@.len() > 0,
        decreases result_columns@.len() - i,
    {
        proof {
            lemma_next_column(keys, columns, i as int);
        }
        match first_equivalent_key(order_by, &result_columns[i].expr) {
            Some(j) => {
                let ghost before = skipped_pairs(result_column_remapping);
                match result_column_remapping {
                    Some(mut v) => {
                        v.push((i, j));
                        result_column_remapping = Some(v);
                    },
                    None => {
                        let mut v: Vec<(usize, usize)> = Vec::new();
                        v.push((i, j));
                        result_column_remapping = Some(v);
                    },
                }
                assert(skipped_pairs(result_column_remapping) =~= before.push((i as int, j as int)));
            },
            None => {},
        }
        i += 1;
    }
    assert(columns.take(i as int) == columns);
    result_column_remapping
}

/// The instructions that evaluate a list of expressions, each into its own
/// register, from `start_reg` on.
pub open spec fn eval_code(exprs: Seq<ExprView>, start_reg: usize) -> Seq<InsnView> {
    Seq::new(
        exprs.len(),
        |j: int| InsnView::Eval { expr: exprs[j], dest: (start_reg + j) as usize },
    )
}

/// The check for duplicate rows that a plan asks for, if it asks for one.
pub open spec fn distinct_code(plan: &SelectPlan, num_regs: usize, start_reg: usize) -> Seq<
    InsnView,
> {
    match plan.distinctness {
        Distinctness::Distinct { ctx: Some(ctx) } => seq![
            ctx.deduplication_insn(num_regs, start_reg),
        ],
        _ => Seq::empty(),
    }
}

/// What is emitted to feed one candidate row to the sorter: every column of
/// the sorter record is evaluated into a register of its own, the registers
/// are checked for a duplicate row where the plan asks for it, and then they
/// are packed into one record and inserted.
pub open spec fn feed_code(plan: &SelectPlan, sort_metadata: SortMetadata, start_reg: usize) -> Seq<
    InsnView,
> {
    let layout = sorter_layout(plan.keys(), plan.columns());
    eval_code(layout, start_reg) + distinct_code(plan, layout.len() as usize, start_reg)
        + sorter_insert_code(
        start_reg,
        layout.len() as usize,
        sort_metadata.sort_cursor,
        sort_metadata.reg_sorter_data,
    )
}

/// A program once the feeding of the sorter is emitted at its end: as many
/// registers are given out as the sorter record has columns, and the
/// instructions of `feed_code` work on them.
pub open spec fn fed_program(before: ProgramView, plan: &SelectPlan, meta: SortMetadata) -> ProgramView {
    before.with_registers(layout_width(plan.keys(), plan.columns()) as usize).emit_all(
        feed_code(plan, meta, before.next_register),
    )
}

/// Why the feeding of a plan's sorter cannot be emitted, if it cannot: the
/// failure of the first expression of the sorter record that cannot be
/// compiled, sort keys first.
pub open spec fn feed_failure(plan: &SelectPlan, resolver: &Resolver) -> Option<LoweringErrorView> {
    let layout = sorter_layout(plan.keys(), plan.columns());
    failure_among(layout, layout.len(), Some(&plan.table_references), resolver)
}

/// A program once the feeding of the sorter has stopped at an expression that
/// cannot be compiled: the registers of the record are given out, and the
/// expressions before that one are evaluated.
pub open spec fn stopped_program(before: ProgramView, plan: &SelectPlan, resolver: &Resolver) -> ProgramView {
    let layout = sorter_layout(plan.keys(), plan.columns());
    let done = evaluated_before_failure(
        layout,
        layout.len(),
        Some(&plan.table_references),
        resolver,
    );
    before.with_registers(layout.len() as usize).emit_all(
        eval_code(layout.take(done as int), before.next_register),
    )
}

/// For each result column, in `SELECT` order, the column of the sorter record
/// in which it is found.
pub open spec fn column_slots(keys: Seq<ExprView>, columns: Seq<ExprView>) -> Seq<usize> {
    Seq::new(columns.len(), |i: int| layout_index(keys, columns, i) as usize)
}

/// The sort key recorded for result column `i` in a list of skipped columns.
fn skipped_entry(skipped: &Vec<(usize, usize)>, i: usize) -> (r: Option<usize>)
    ensures
        match r {
            Some(k) => exists|n: int| 0 <= n < skipped@.len() && #[trigger] skipped@[n] == (i, k),
            None => forall|n: int| 0 <= n < skipped@.len() ==> (#[trigger] skipped@[n]).0 != i,
        },
{
    let mut n: usize = 0;
    while n < skipped.len()
        invariant
            n <= skipped@.len(),
            forall|m: int| 0 <= m < n ==> (#[trigger] skipped@[m]).0 != i,
        decreases skipped@.len() - n,
    {
        if skipped[n].0 == i {
            return Some(skipped[n].1);
        }
        n += 1;
    }
    None
}

/// Emits what feeds one candidate row to the sorter. Called inside the scan,
/// once the row's values can be read.
///
/// As many registers as the sorter record has columns are allocated in a row.
/// The sort keys are evaluated into the first of them, in `ORDER BY` order,
/// and after them the result columns that no sort key equals, in `SELECT`
/// order. For a `DISTINCT` query the check for duplicate rows is made on
/// exactly these registers. Then they are packed into one record and inserted.
///
/// Where every expression compiles, `res_col_indexes_in_orderby_sorter` is
/// left with exactly one entry for each result column, in `SELECT` order,
/// whatever it held: the record column in which the result column is found. For a column that a sort key equals
/// that is the position of the first such key, for any other the position of
/// the register it was evaluated into. A second call on the same plan leaves
/// the same list.
///
/// Where an expression cannot be compiled, the error of the first that fails
/// is returned as the compiler gives it. The registers are allocated then and
/// the expressions before it are evaluated, but nothing is packed or
/// inserted, and the list is left as it was.
pub fn order_by_sorter_insert(
    program: &mut ProgramBuilder,
    resolver: &Resolver,
    sort_metadata: &SortMetadata,
    res_col_indexes_in_orderby_sorter: &mut Vec<usize>,
    plan: &SelectPlan,
) -> (r: Result<(), LoweringError>)
    requires
        plan.order_by is Some,
        plan.distinctness matches Distinctness::Distinct { ctx } ==> ctx is Some,
        old(program).next_free_register + layout_width(plan.keys(), plan.columns())
            <= usize::MAX,
    ensures
        match feed_failure(plan, resolver) {
            None => {
                &&& r is Ok
                &&& final(program)@ == fed_program(old(program)@, plan, *sort_metadata)
                &&& final(res_col_indexes_in_orderby_sorter)@ == column_slots(
                    plan.keys(),
                    plan.columns(),
                )
            },
            Some(e) => {
                &&& r is Err
                &&& r->Err_0@ == e
                &&& final(program)@ == stopped_program(old(program)@, plan, resolver)
                &&& final(res_col_indexes_in_orderby_sorter)@ == old(
                    res_col_indexes_in_orderby_sorter,
                )@
            },
        },
{
    let ghost keys = plan.keys();
    let ghost columns = plan.columns();
    let ghost width = layout_width(keys, columns);
    let ghost layout = sorter_layout(keys, columns);
    let tables = Some(&plan.table_references);
    let order_by = plan.order_by.as_ref().unwrap();
    let order_by_len = order_by.len();
    let result_columns = &plan.result_columns;
    // The columns that a sort key stands in for, each with the position of that key.
    let result_columns_to_skip = order_by_deduplicate_result_columns(
        order_by.as_slice(),
        result_columns.as_slice(),
    );
    let result_columns_to_skip_len = match &result_columns_to_skip {
        Some(v) => v.len(),
        None => 0,
    };
    proof {
        lemma_layout_width(keys, columns);
        lemma_skipped_columns(keys, columns);
    }

    // One register for each sort key, then one for each column that is stored.
    let orderby_sorter_column_count = order_by_len + (result_columns.len()
        - result_columns_to_skip_len);
    let start_reg = program.alloc_registers(orderby_sorter_column_count);
    let ghost allocated = program@;
    let mut i: usize = 0;
    while i < order_by_len
        invariant
            i <= order_by_len,
            order_by_len == order_by@.len(),
            keys == key_exprs(order_by@),
            layout == keys + stored_columns(keys, columns),
            tables == Some(&plan.table_references),
            start_reg + order_by_len <= usize::MAX,
            start_reg == old(program).next_free_register,
            allocated == old(program)@.with_registers(layout.len() as usize),
            layout.len() == width,
            keys == plan.keys(),
            columns == plan.columns(),
            old(program).next_free_register + width <= usize::MAX,
            failure_among(layout, i as nat, tables, resolver) is None,
            program@ == allocated.emit_all(eval_code(keys.take(i as int), start_reg)),
            *res_col_indexes_in_orderby_sorter == *old(res_col_indexes_in_orderby_sorter),
        decreases order_by_len - i,
    {
        let key_reg = start_reg + i;
        assert(layout[i as int] == keys[i as int]);
        assert(keys[i as int] == order_by@[i as int].0@);
        match translate_expr(program, tables, &order_by[i].0, key_reg, resolver) {
            Ok(_) => {},
            Err(e) => {
                proof {
                    lemma_fails_at(layout, i as nat, layout.len(), tables, resolver);
                    assert(layout.take(i as int) =~= keys.take(i as int));
                }
                return Err(e);
            },
        }
        assert(eval_code(keys.take(i + 1), start_reg) =~= eval_code(
            keys.take(i as int),
            start_reg,
        ).push(InsnView::Eval { expr: keys[i as int], dest: key_reg }));
        i += 1;
    }
    assert(keys.take(order_by_len as int) == keys);
    let mut slots: Vec<usize> = Vec::new();
    let mut cur_reg = start_reg + order_by_len;
    let mut cur_idx_in_orderby_sorter = order_by_len;
    let mut translated_result_col_count: usize = 0;
    let mut i: usize = 0;
    assert(stored_columns(keys, columns.take(0)) =~= Seq::<ExprView>::empty());
    assert(keys + stored_columns(keys, columns.take(0)) == keys);
    while i < result_columns.len()
        invariant
            i <= result_columns@.len(),
            order_by_len == keys.len(),
            columns == column_exprs(result_columns@),
            start_reg + width <= usize::MAX,
            width == layout_width(keys, columns),
            skipped_pairs(result_columns_to_skip) == skipped_columns(keys, columns),
            translated_result_col_count == stored_columns(keys, columns.take(i as int)).len(),
            cur_idx_in_orderby_sorter == order_by_len + translated_result_col_count,
            cur_reg == start_reg + cur_idx_in_orderby_sorter,
            program@ == allocated.emit_all(
                eval_code(keys + stored_columns(keys, columns.take(i as int)), start_reg),
            ),
            slots@ == column_slots(keys, columns).take(i as int),
            layout == keys + stored_columns(keys, columns),
            tables == Some(&plan.table_references),
            start_reg == old(program).next_free_register,
            allocated == old(program)@.with_registers(layout.len() as usize),
            failure_among(
                layout,
                (order_by_len + translated_result_col_count) as nat,
                tables,
                resolver,
            ) is None,
            layout.len() == width,
            keys == plan.keys(),
            columns == plan.columns(),
            old(program).next_free_register + width <= usize::MAX,
            *res_col_indexes_in_orderby_sorter == *old(res_col_indexes_in_orderby_sorter),
        decreases result_columns@.len() - i,
    {
        let ghost stored = stored_columns(keys, columns.take(i as int));
        proof {
            lemma_next_column(keys, columns, i as int);
            lemma_first_key(keys, columns[i as int]);
            lemma_skipped_columns(keys, columns);
            lemma_stored_prefix(keys, columns, i + 1);
        }
        let found = match &result_columns_to_skip {
            Some(v) => skipped_entry(v, i),
            None => None,
        };
        match found {
            Some(result_column_idx) => {
                proof {
                    let v = result_columns_to_skip->Some_0;
                    let n = choose|n: int|
                        0 <= n < v@.len() && #[trigger] v@[n] == (i, result_column_idx);
                    assert(skipped_pairs(result_columns_to_skip)[n] == (
                        i as int,
                        result_column_idx as int,
                    ));
                    assert(skipped_columns(keys, columns)[n].0 == i);
                }
                slots.push(result_column_idx);
            },
            None => {
                proof {
                    if keys.contains(columns[i as int]) {
                        let n = choose|n: int|
                            0 <= n < skipped_columns(keys, columns).len() && (
                            #[trigger] skipped_columns(keys, columns)[n]).0 == i;
                        assert(skipped_pairs(result_columns_to_skip)[n].0 == i);
                        let v = result_columns_to_skip->Some_0;
                        assert(v@[n].0 == i);
                    }
                }
                proof {
                    let all = stored_columns(keys, columns);
                    let next = stored_columns(keys, columns.take(i + 1));
                    lemma_stored_prefix(keys, columns, i as int);
                    assert(next == stored.push(columns[i as int]));
                    assert(all.take(next.len() as int)[stored.len() as int] == next[stored.len() as int]);
                    assert(all[stored.len() as int] == columns[i as int]);
                    assert(layout[order_by_len + translated_result_col_count] == columns[i as int]);
                    assert(columns[i as int] == result_columns@[i as int].expr@);
                    assert(layout.take(order_by_len + translated_result_col_count) =~= keys
                        + stored);
                }
                match translate_expr(program, tables, &result_columns[i].expr, cur_reg, resolver) {
                    Ok(_) => {},
                    Err(e) => {
                        proof {
                            let at = (order_by_len + translated_result_col_count) as nat;
                            lemma_fails_at(layout, at, layout.len(), tables, resolver);
                        }
                        return Err(e);
                    },
                }
                assert(eval_code(keys + stored.push(columns[i as int]), start_reg) =~= eval_code(
                    keys + stored,
                    start_reg,
                ).push(InsnView::Eval { expr: columns[i as int], dest: cur_reg }));
                translated_result_col_count += 1;
                slots.push(cur_idx_in_orderby_sorter);
                cur_idx_in_orderby_sorter += 1;
                cur_reg += 1;
            },
        }
        assert(slots@ =~= column_slots(keys, columns).take(i + 1));
        i += 1;
    }
    assert(columns.take(i as int) == columns);
    assert(column_slots(keys, columns).take(i as int) == column_slots(keys, columns));
    *res_col_indexes_in_orderby_sorter = slots;

    // The check for duplicate rows covers the sort keys and the stored columns.
    match &plan.distinctness {
        Distinctness::Distinct { ctx } => {
            let distinct_ctx = ctx.as_ref().unwrap();
            let num_regs = order_by_len + translated_result_col_count;
            distinct_ctx.emit_deduplication_insns(program, num_regs, start_reg);
        },
        Distinctness::NonDistinct => {},
    }
    sorter_insert(
        program,
        start_reg,
        orderby_sorter_column_count,
        sort_metadata.sort_cursor,
        sort_metadata.reg_sorter_data,
    );
    assert(program@.code =~= allocated.code + feed_code(plan, *sort_metadata, start_reg));
    Ok(())
}

/// The instructions that decode `count` columns of a record, the `i`-th from
/// record column `slots[i]` into register `start_reg + i`.
pub open spec fn decode_code(slots: Seq<usize>, count: nat, cursor_id: usize, start_reg: usize) -> Seq<
    InsnView,
> {
    Seq::new(
        count,
        |i: int| InsnView::Column { cursor_id, column: slots[i], dest: (start_reg + i) as usize },
    )
}

/// What is emitted to drain the sorter, given the cursor of the decoding view
/// and the first of the three labels of the loop: the label of the loop's
/// start, of its step to the next row, and of its end.
///
/// The decoding view is opened, as wide as the sorter record of the plan, and
/// the sorter is told to sort, with a jump to
/// the end where it holds no row. The loop's body first skips the row if
/// `OFFSET` still asks for it, by a jump to the step. Else it fetches the
/// row's record, decodes the result columns in `SELECT` order, outputs the
/// row and leaves the loop if `LIMIT` is reached. The step moves to the next
/// row and jumps back to the start while there is one.
pub open spec fn drain_code(
    t_ctx: &TranslateCtx,
    plan: &SelectPlan,
    pseudo_cursor: usize,
    first_label: usize,
) -> Seq<InsnView>
    recommends
        t_ctx.meta_sort is Some,
        t_ctx.reg_result_cols_start is Some,
{
    let meta = t_ctx.meta_sort->Some_0;
    let start_reg = t_ctx.reg_result_cols_start->Some_0;
    let loop_start = BranchOffset::Label(first_label);
    let loop_next = BranchOffset::Label((first_label + 1) as usize);
    let loop_end = BranchOffset::Label((first_label + 2) as usize);
    seq![
        InsnView::OpenPseudo {
            cursor_id: pseudo_cursor,
            content_reg: meta.reg_sorter_data,
            num_fields: layout_width(plan.keys(), plan.columns()) as usize,
        },
        InsnView::SorterSort { cursor_id: meta.sort_cursor, pc_if_empty: loop_end },
    ] + offset_code(plan, loop_next, t_ctx.reg_offset) + seq![
        InsnView::SorterData {
            cursor_id: meta.sort_cursor,
            dest_reg: meta.reg_sorter_data,
            pseudo_cursor,
        },
    ] + decode_code(
        t_ctx.result_column_indexes_in_orderby_sorter@,
        plan.result_columns@.len(),
        pseudo_cursor,
        start_reg,
    ) + result_row_code(plan, start_reg, t_ctx.limit_ctx, Some(loop_end)) + seq![
        InsnView::SorterNext { cursor_id: meta.sort_cursor, pc_if_next: loop_start },
    ]
}

/// A program once the draining of the sorter is emitted at its end.
///
/// One cursor is added, for the decoding view over a sorted record, and three
/// labels, which are all resolved: the loop's start to the first instruction
/// of its body, its step to the instruction that moves to the next row, and
/// its end to what follows the emitted instructions.
pub open spec fn drained_program(before: ProgramView, t_ctx: &TranslateCtx, plan: &SelectPlan) -> ProgramView
    recommends
        t_ctx.meta_sort is Some,
        t_ctx.reg_result_cols_start is Some,
{
    let code = drain_code(
        t_ctx,
        plan,
        before.cursors.len() as usize,
        before.labels.len() as usize,
    );
    ProgramView {
        code: before.code + code,
        next_register: before.next_register,
        cursors: before.cursors.push(
            CursorType::Pseudo(
                PseudoCursorType {
                    column_count: layout_width(plan.keys(), plan.columns()) as usize,
                },
            ),
        ),
        labels: before.labels + seq![
            Some((before.code.len() + 2) as usize),
            Some((before.code.len() + code.len() - 1) as usize),
            Some((before.code.len() + code.len()) as usize),
        ],
    }
}

/// Emits what drains the sorter and outputs its rows. Called once, when the
/// scan that feeds the sorter is over.
///
/// The context is read and left as it is. The program gets the cursor, the
/// labels and the instructions that `drained_program` describes. No step of
/// this can fail: the result is `Ok` on every plan.
pub fn emit_order_by(program: &mut ProgramBuilder, t_ctx: &mut TranslateCtx, plan: &SelectPlan) -> (r:
    Result<(), LoweringError>)
    requires
        plan.order_by is Some,
        old(t_ctx).meta_sort is Some,
        old(t_ctx).reg_result_cols_start is Some,
        plan.result_columns@.len() <= old(t_ctx).result_column_indexes_in_orderby_sorter@.len(),
        layout_width(plan.keys(), plan.columns()) <= usize::MAX,
        plan.result_columns@.len() > 0 ==> old(t_ctx).reg_result_cols_start->Some_0
            + plan.result_columns@.len() - 1 <= usize::MAX,
        plan.skips_rows() ==> old(t_ctx).reg_offset is Some,
        plan.limit is Some ==> old(t_ctx).limit_ctx is Some,
    ensures
        r is Ok,
        *final(t_ctx) == *old(t_ctx),
        final(program)@ == drained_program(old(program)@, &*old(t_ctx), plan),
{
    let ghost before = program@;
    let ghost first_label = before.labels.len() as int;
    let order_by = plan.order_by.as_ref().unwrap();
    let result_columns = &plan.result_columns;
    let sort_loop_start_label = program.allocate_label();
    let sort_loop_next_label = program.allocate_label();
    let sort_loop_end_label = program.allocate_label();
    let ghost unresolved = before.labels.push(None).push(None).push(None);

    // The view is as wide as the record that the feeding phase packs: one
    // column for each sort key and for each result column that is stored.
    let skipped: usize = match order_by_deduplicate_result_columns(
        order_by.as_slice(),
        result_columns.as_slice(),
    ) {
        Some(v) => v.len(),
        None => 0,
    };
    proof {
        lemma_layout_width(plan.keys(), plan.columns());
    }
    let sorter_column_count = order_by.len() + (result_columns.len() - skipped);
    assert(sorter_column_count == layout_width(plan.keys(), plan.columns()));

    let pseudo_cursor = program.alloc_cursor_id(
        CursorType::Pseudo(PseudoCursorType { column_count: sorter_column_count }),
    );
    let ghost cursors = before.cursors.push(
        CursorType::Pseudo(PseudoCursorType { column_count: sorter_column_count }),
    );
    let SortMetadata { sort_cursor, reg_sorter_data } = t_ctx.meta_sort.unwrap();

    let ghost open_pseudo = InsnView::OpenPseudo {
        cursor_id: pseudo_cursor,
        content_reg: reg_sorter_data,
        num_fields: sorter_column_count,
    };
    let ghost sorter_sort = InsnView::SorterSort {
        cursor_id: sort_cursor,
        pc_if_empty: sort_loop_end_label,
    };
    let ghost sorter_data = InsnView::SorterData {
        cursor_id: sort_cursor,
        dest_reg: reg_sorter_data,
        pseudo_cursor,
    };
    let ghost sorter_next = InsnView::SorterNext {
        cursor_id: sort_cursor,
        pc_if_next: sort_loop_start_label,
    };
    program.emit_insn(
        Insn::OpenPseudo {
            cursor_id: pseudo_cursor,
            content_reg: reg_sorter_data,
            num_fields: sorter_column_count,
        },
    );

    program.emit_insn(Insn::SorterSort { cursor_id: sort_cursor, pc_if_empty: sort_loop_end_label });
    program.preassign_label_to_next_insn(sort_loop_start_label);
    let ghost opening = seq![open_pseudo, sorter_sort];
    let ghost started = unresolved.update(first_label, Some((before.code.len() + 2) as usize));
    proof {
        lemma_emitted_one(before.code, Seq::empty(), open_pseudo);
        lemma_emitted_one(before.code, seq![open_pseudo], sorter_sort);
        assert(seq![open_pseudo] + seq![sorter_sort] =~= opening);
    }
    assert(program@ == ProgramView {
        code: before.code + opening,
        next_register: before.next_register,
        cursors,
        labels: started,
    });

    emit_offset(program, plan, sort_loop_next_label, t_ctx.reg_offset);
    let ghost skipping = opening + offset_code(plan, sort_loop_next_label, t_ctx.reg_offset);
    proof {
        lemma_emitted_more(
            before.code,
            opening,
            offset_code(plan, sort_loop_next_label, t_ctx.reg_offset),
        );
    }

    program.emit_insn(
        Insn::SorterData { cursor_id: sort_cursor, dest_reg: reg_sorter_data, pseudo_cursor },
    );
    let ghost fetching = skipping + seq![sorter_data];
    proof {
        lemma_emitted_one(before.code, skipping, sorter_data);
    }
    assert(program@ == ProgramView {
        code: before.code + fetching,
        next_register: before.next_register,
        cursors,
        labels: started,
    });

    // The output row is assembled in SELECT order, whatever the order of
    // the record's columns.
    let cursor_id = pseudo_cursor;
    let start_reg = t_ctx.reg_result_cols_start.unwrap();
    let ghost head = program@;
    let ghost slots = t_ctx.result_column_indexes_in_orderby_sorter@;
    let mut i: usize = 0;
    while i < result_columns.len()
        invariant
            i <= result_columns@.len(),
            result_columns@.len() <= slots.len(),
            slots == t_ctx.result_column_indexes_in_orderby_sorter@,
            result_columns@.len() > 0 ==> start_reg + result_columns@.len() - 1 <= usize::MAX,
            program@ == head.emit_all(decode_code(slots, i as nat, cursor_id, start_reg)),
        decreases result_columns@.len() - i,
    {
        let reg = start_reg + i;
        program.emit_column(cursor_id, t_ctx.result_column_indexes_in_orderby_sorter[i], reg);
        assert(decode_code(slots, (i + 1) as nat, cursor_id, start_reg) =~= decode_code(
            slots,
            i as nat,
            cursor_id,
            start_reg,
        ).push(InsnView::Column { cursor_id, column: slots[i as int], dest: reg }));
        i += 1;
    }
    let ghost decoding = fetching + decode_code(
        slots,
        result_columns@.len(),
        cursor_id,
        start_reg,
    );
    proof {
        lemma_emitted_more(
            before.code,
            fetching,
            decode_code(slots, result_columns@.len(), cursor_id, start_reg),
        );
    }

    emit_result_row_and_limit(program, plan, start_reg, t_ctx.limit_ctx, Some(sort_loop_end_label));
    let ghost row = result_row_code(plan, start_reg, t_ctx.limit_ctx, Some(sort_loop_end_label));
    let ghost output = decoding + row;
    proof {
        lemma_emitted_more(before.code, decoding, row);
    }
    assert(program@ == ProgramView {
        code: before.code + output,
        next_register: before.next_register,
        cursors,
        labels: started,
    });

    let here = program.offset();
    program.resolve_label(sort_loop_next_label, here);
    program.emit_insn(Insn::SorterNext { cursor_id: sort_cursor, pc_if_next: sort_loop_start_label });
    program.preassign_label_to_next_insn(sort_loop_end_label);
    let ghost code = output + seq![sorter_next];
    let ghost stepped = started.update(
        first_label + 1,
        Some((before.code.len() + code.len() - 1) as usize),
    );
    let ghost ended = stepped.update(
        first_label + 2,
        Some((before.code.len() + code.len()) as usize),
    );
    proof {
        lemma_emitted_one(before.code, output, sorter_next);
        lemma_three_labels(
            before.labels,
            (before.code.len() + 2) as usize,
            (before.code.len() + code.len() - 1) as usize,
            (before.code.len() + code.len()) as usize,
        );
    }
    assert(program@ == ProgramView {
        code: before.code + code,
        next_register: before.next_register,
        cursors,
        labels: ended,
    });
    assert(code == drain_code(
        &*old(t_ctx),
        plan,
        before.cursors.len() as usize,
        before.labels.len() as usize,
    ));
    Ok(())
}

} // verus!
