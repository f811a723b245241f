use sort_lowering::collate::CollationSeq;
use sort_lowering::context::LimitCtx;
use sort_lowering::context::TranslateCtx;
use sort_lowering::emitter::emit_offset;
use sort_lowering::emitter::emit_result_row_and_limit;
use sort_lowering::emitter::translate_expr;
use sort_lowering::error::LoweringError;
use sort_lowering::expr::Expr;
use sort_lowering::expr::Operator;
use sort_lowering::expr::UnaryOperator;
use sort_lowering::order_by::emit_order_by;
use sort_lowering::order_by::init_order_by;
use sort_lowering::order_by::order_by_deduplicate_result_columns;
use sort_lowering::order_by::order_by_sorter_insert;
use sort_lowering::order_by::sorter_insert;
use sort_lowering::order_by::SortMetadata;
use sort_lowering::plan::DistinctCtx;
use sort_lowering::plan::Distinctness;
use sort_lowering::plan::ResultSetColumn;
use sort_lowering::plan::SelectPlan;
use sort_lowering::program::BranchOffset;
use sort_lowering::program::CursorType;
use sort_lowering::program::Insn;
use sort_lowering::program::ProgramBuilder;
use sort_lowering::program::PseudoCursorType;
use sort_lowering::resolver::Resolver;
use sort_lowering::schema::Column;
use sort_lowering::schema::JoinedTable;
use sort_lowering::schema::Table;
use sort_lowering::schema::TableReferences;
use turso_sqlite3_parser::ast::SortOrder;

const ITEMS: usize = 1;

fn resolver() -> Resolver {
    Resolver { functions: vec!["upper".to_string(), "length".to_string()] }
}

fn col(position: usize) -> Expr {
    Expr::Column { database: None, table: ITEMS, column: position, is_rowid_alias: false }
}

fn name() -> Expr {
    col(0)
}

fn price() -> Expr {
    col(1)
}

fn upper(arg: Expr) -> Expr {
    Expr::FunctionCall { name: "upper".to_string(), distinct: false, args: vec![arg], order_by: None, filter: None, over: None }
}

fn items() -> TableReferences {
    TableReferences {
        joined_tables: vec![JoinedTable {
            internal_id: ITEMS,
            table: Table {
                name: "items".to_string(),
                columns: vec![
                    Column { name: Some("name".to_string()), collation: Some(CollationSeq::NoCase) },
                    Column { name: Some("price".to_string()), collation: None },
                    Column { name: Some("tag".to_string()), collation: Some(CollationSeq::Rtrim) },
                ],
            },
        }],
    }
}

fn select(result: Vec<Expr>, order_by: Vec<(Expr, SortOrder)>) -> SelectPlan {
    SelectPlan {
        table_references: items(),
        result_columns: result
            .into_iter()
            .map(|expr| ResultSetColumn { expr, alias: None })
            .collect(),
        order_by: Some(order_by),
        limit: None,
        offset: None,
        distinctness: Distinctness::NonDistinct,
    }
}

/// A program in which some registers, cursors and labels are taken already.
fn busy_program() -> ProgramBuilder {
    let mut program = ProgramBuilder::new();
    program.alloc_registers(4);
    program.alloc_cursor_id(CursorType::Sorter);
    program.allocate_label();
    program.emit_insn(Insn::ResultRow { start_reg: 1, count: 1 });
    program
}

/// The context as the phases before the draining leave it.
fn fed_context(program: &mut ProgramBuilder, plan: &SelectPlan) -> TranslateCtx {
    let mut t_ctx = TranslateCtx::new();
    let order_by = plan.order_by.as_ref().unwrap();
    init_order_by(program, &mut t_ctx, order_by, &plan.table_references).unwrap();
    t_ctx.reg_result_cols_start = Some(program.alloc_registers(plan.result_columns.len()));
    let meta = t_ctx.meta_sort.unwrap();
    order_by_sorter_insert(
        program,
        &resolver(),
        &meta,
        &mut t_ctx.result_column_indexes_in_orderby_sorter,
        plan,
    )
    .unwrap();
    t_ctx
}

#[test]
fn a_new_program_is_empty_and_starts_at_register_one() {
    let program = ProgramBuilder::new();
    assert_eq!(program.insns, vec![]);
    assert_eq!(program.next_free_register, 1);
    assert_eq!(program.cursor_ref, vec![]);
    assert_eq!(program.label_to_resolved_offset, vec![]);
    assert_eq!(program.offset(), BranchOffset::Offset(0));
}

#[test]
fn the_builder_hands_out_registers_cursors_and_labels_in_sequence() {
    let mut program = ProgramBuilder::new();
    assert_eq!(program.alloc_register(), 1);
    assert_eq!(program.alloc_registers(3), 2);
    assert_eq!(program.alloc_registers(0), 5);
    assert_eq!(program.alloc_register(), 5);
    assert_eq!(program.next_free_register, 6);
    assert_eq!(program.alloc_cursor_id(CursorType::Sorter), 0);
    assert_eq!(
        program.alloc_cursor_id(CursorType::Pseudo(PseudoCursorType { column_count: 2 })),
        1
    );
    assert_eq!(
        program.cursor_ref,
        vec![CursorType::Sorter, CursorType::Pseudo(PseudoCursorType { column_count: 2 })]
    );
    assert_eq!(program.allocate_label(), BranchOffset::Label(0));
    assert_eq!(program.allocate_label(), BranchOffset::Label(1));
    assert_eq!(program.label_to_resolved_offset, vec![None, None]);
}

#[test]
fn labels_are_resolved_to_instruction_positions() {
    let mut program = ProgramBuilder::new();
    let first = program.allocate_label();
    let second = program.allocate_label();
    let third = program.allocate_label();
    program.emit_insn(Insn::ResultRow { start_reg: 1, count: 1 });
    program.preassign_label_to_next_insn(second);
    program.emit_column(0, 3, 7);
    assert_eq!(program.offset(), BranchOffset::Offset(2));
    program.resolve_label(first, BranchOffset::Offset(0));
    assert_eq!(program.label_to_resolved_offset, vec![Some(0), Some(1), None]);
    program.resolve_label(third, program.offset());
    program.resolve_label(first, BranchOffset::Offset(1));
    assert_eq!(program.label_to_resolved_offset, vec![Some(1), Some(1), Some(2)]);
    assert_eq!(
        program.insns,
        vec![
            Insn::ResultRow { start_reg: 1, count: 1 },
            Insn::Column { cursor_id: 0, column: 3, dest: 7 }
        ]
    );
}

#[test]
fn an_expression_is_evaluated_into_the_register_asked_for() {
    let mut program = ProgramBuilder::new();
    let reg = program.alloc_register();
    assert_eq!(
        translate_expr(&mut program, Some(&items()), &upper(name()), reg, &resolver()),
        Ok(reg)
    );
    assert_eq!(program.insns, vec![Insn::Eval { expr: upper(name()), dest: 1 }]);
    assert_eq!(program.next_free_register, 2);
}

fn call(function: &str, args: Vec<Expr>) -> Expr {
    Expr::FunctionCall {
        name: function.to_string(),
        distinct: false,
        args,
        order_by: None,
        filter: None,
        over: None,
    }
}

fn on(table: usize, position: usize) -> Expr {
    Expr::Column { database: None, table, column: position, is_rowid_alias: false }
}

#[test]
fn an_expression_that_cannot_be_evaluated_is_not_compiled() {
    let compile = |expr: &Expr| {
        let mut program = busy_program();
        let before = program.clone();
        let r = translate_expr(&mut program, Some(&items()), expr, 2, &resolver());
        if r.is_err() {
            assert_eq!(program, before);
        }
        r
    };
    assert_eq!(compile(&col(3)), Err(LoweringError::ColumnIndexOutOfBounds));
    assert_eq!(compile(&on(7, 0)), Err(LoweringError::UnknownTable));
    assert_eq!(compile(&Expr::RowId { database: None, table: 7 }), Err(LoweringError::UnknownTable));
    assert_eq!(compile(&Expr::RowId { database: None, table: ITEMS }), Ok(2));
    assert_eq!(
        compile(&call("lower", vec![name()])),
        Err(LoweringError::UnknownFunction("lower".to_string()))
    );
    // Functions are known whatever the case of their names.
    assert_eq!(compile(&call("UPPER", vec![name()])), Ok(2));
    assert_eq!(
        compile(&Expr::FunctionCallStar { name: "count".to_string(), filter: None, over: None }),
        Err(LoweringError::UnknownFunction("count".to_string()))
    );
    // What is kept as text is not looked into.
    assert_eq!(compile(&Expr::Subquery("SELECT nothing FROM nowhere".to_string())), Ok(2));
    // Without tables no column can be read, and a literal still can.
    let mut program = ProgramBuilder::new();
    assert_eq!(
        translate_expr(&mut program, None, &name(), 1, &resolver()),
        Err(LoweringError::UnknownTable)
    );
    assert_eq!(translate_expr(&mut program, None, &call("upper", vec![]), 1, &resolver()), Ok(1));
}

#[test]
fn the_first_part_that_fails_gives_the_error() {
    let compile = |expr: &Expr| {
        translate_expr(&mut ProgramBuilder::new(), Some(&items()), expr, 1, &resolver())
    };
    let no_function = |f: &str| Err(LoweringError::UnknownFunction(f.to_string()));
    // A call before its arguments, the arguments in order, then the filter.
    assert_eq!(compile(&call("f", vec![col(3)])), no_function("f"));
    assert_eq!(
        compile(&call("upper", vec![name(), col(3), call("g", vec![])])),
        Err(LoweringError::ColumnIndexOutOfBounds)
    );
    assert_eq!(compile(&call("upper", vec![name(), call("g", vec![]), col(3)])), no_function("g"));
    let filtered = Expr::FunctionCall {
        name: "upper".to_string(),
        distinct: false,
        args: vec![name()],
        order_by: None,
        filter: Some(Box::new(on(7, 0))),
        over: None,
    };
    assert_eq!(compile(&filtered), Err(LoweringError::UnknownTable));
    // The left operand before the right.
    let both = |l: Expr, r: Expr| Expr::Binary(Box::new(l), Operator::Add, Box::new(r));
    assert_eq!(compile(&both(call("f", vec![]), call("g", vec![]))), no_function("f"));
    assert_eq!(compile(&both(name(), call("g", vec![]))), no_function("g"));
    assert_eq!(compile(&both(name(), price())), Ok(1));
    // The branches of a case in order, each condition before its result.
    let case = Expr::Case {
        base: None,
        when_then_pairs: vec![(name(), price()), (price(), call("g", vec![])), (col(3), name())],
        else_expr: Some(Box::new(call("h", vec![]))),
    };
    assert_eq!(compile(&case), no_function("g"));
    let case = Expr::Case {
        base: Some(Box::new(on(7, 0))),
        when_then_pairs: vec![(call("g", vec![]), price())],
        else_expr: None,
    };
    assert_eq!(compile(&case), Err(LoweringError::UnknownTable));
    // Deep inside other forms.
    let deep = Expr::Parenthesized(vec![Expr::Unary(
        UnaryOperator::Not,
        Box::new(Expr::IsNull(Box::new(Expr::Collate(
            Box::new(Expr::Cast {
                expr: Box::new(name()),
                target_type: Some("VARCHAR".to_string()),
                size: vec![call("g", vec![])],
            }),
            "nocase".to_string(),
        )))),
    )]);
    assert_eq!(compile(&deep), no_function("g"));
}

#[test]
fn feeding_stops_at_the_first_expression_that_cannot_be_compiled() {
    let meta = SortMetadata { sort_cursor: 0, reg_sorter_data: 3 };
    // A sort key fails: nothing is evaluated.
    let plan = select(
        vec![name(), call("g", vec![])],
        vec![(call("f", vec![]), SortOrder::Asc), (price(), SortOrder::Asc)],
    );
    let mut program = busy_program();
    let mut indexes = vec![8, 9];
    assert_eq!(
        order_by_sorter_insert(&mut program, &resolver(), &meta, &mut indexes, &plan),
        Err(LoweringError::UnknownFunction("f".to_string()))
    );
    assert_eq!(program.insns, vec![Insn::ResultRow { start_reg: 1, count: 1 }]);
    assert_eq!(program.next_free_register, 9);
    assert_eq!(indexes, vec![8, 9]);
    // A stored column fails: what stands before it in the record is
    // evaluated, nothing is packed or inserted, and the list is as it was.
    let plan = select(
        vec![name(), price(), col(3), call("g", vec![])],
        vec![(price(), SortOrder::Desc)],
    );
    let mut program = busy_program();
    assert_eq!(
        order_by_sorter_insert(&mut program, &resolver(), &meta, &mut indexes, &plan),
        Err(LoweringError::ColumnIndexOutOfBounds)
    );
    assert_eq!(
        program.insns,
        vec![
            Insn::ResultRow { start_reg: 1, count: 1 },
            Insn::Eval { expr: price(), dest: 5 },
            Insn::Eval { expr: name(), dest: 6 },
        ]
    );
    assert_eq!(program.next_free_register, 9);
    assert_eq!(program.cursor_ref, vec![CursorType::Sorter]);
    assert_eq!(indexes, vec![8, 9]);
}

#[test]
fn a_column_that_a_sort_key_stands_in_for_is_compiled_once() {
    // The key fails before the column that equals it is looked at, and a
    // column that equals a key that compiles needs no compiling of its own.
    let meta = SortMetadata { sort_cursor: 0, reg_sorter_data: 3 };
    let plan = select(vec![col(3)], vec![(col(3), SortOrder::Asc)]);
    let mut indexes = vec![];
    assert_eq!(
        order_by_sorter_insert(&mut ProgramBuilder::new(), &resolver(), &meta, &mut indexes, &plan),
        Err(LoweringError::ColumnIndexOutOfBounds)
    );
    let mut plan = select(vec![name()], vec![(name(), SortOrder::Asc)]);
    plan.table_references = TableReferences { joined_tables: vec![] };
    assert_eq!(
        order_by_sorter_insert(&mut ProgramBuilder::new(), &resolver(), &meta, &mut indexes, &plan),
        Err(LoweringError::UnknownTable)
    );
}

#[test]
fn init_configures_the_sorter_with_direction_and_collation_of_each_key() {
    let mut program = busy_program();
    let mut t_ctx = TranslateCtx::new();
    let order_by = vec![
        (price(), SortOrder::Desc),
        (name(), SortOrder::Asc),
        (Expr::Collate(Box::new(name()), "RTRIM".to_string()), SortOrder::Desc),
        (upper(name()), SortOrder::Asc),
    ];
    assert_eq!(init_order_by(&mut program, &mut t_ctx, &order_by, &items()), Ok(()));
    assert_eq!(t_ctx.meta_sort, Some(SortMetadata { sort_cursor: 1, reg_sorter_data: 5 }));
    assert_eq!(program.next_free_register, 6);
    assert_eq!(program.cursor_ref, vec![CursorType::Sorter, CursorType::Sorter]);
    assert_eq!(
        program.insns,
        vec![
            Insn::ResultRow { start_reg: 1, count: 1 },
            Insn::SorterOpen {
                cursor_id: 1,
                columns: 4,
                order: vec![SortOrder::Desc, SortOrder::Asc, SortOrder::Desc, SortOrder::Asc],
                collations: vec![
                    Some(CollationSeq::Binary),
                    Some(CollationSeq::NoCase),
                    Some(CollationSeq::Rtrim),
                    Some(CollationSeq::Binary)
                ],
            }
        ]
    );
    // Nothing else of the context is touched, and no label is made.
    assert_eq!(TranslateCtx { meta_sort: None, ..t_ctx }, TranslateCtx::new());
    assert_eq!(program.label_to_resolved_offset, vec![None]);
}

#[test]
fn init_without_sort_keys_configures_a_sorter_without_columns() {
    let mut program = ProgramBuilder::new();
    let mut t_ctx = TranslateCtx::new();
    assert_eq!(init_order_by(&mut program, &mut t_ctx, &[], &items()), Ok(()));
    assert_eq!(
        program.insns,
        vec![Insn::SorterOpen { cursor_id: 0, columns: 0, order: vec![], collations: vec![] }]
    );
}

#[test]
fn init_fails_on_an_unknown_collation_and_emits_nothing() {
    let mut program = busy_program();
    let mut t_ctx = TranslateCtx::new();
    let order_by = vec![
        (price(), SortOrder::Desc),
        (Expr::Collate(Box::new(name()), "latin1".to_string()), SortOrder::Asc),
    ];
    assert_eq!(
        init_order_by(&mut program, &mut t_ctx, &order_by, &items()),
        Err(LoweringError::UnknownCollation("latin1".to_string()))
    );
    assert_eq!(program.insns, vec![Insn::ResultRow { start_reg: 1, count: 1 }]);
    // The handle and the register were allocated before the keys were looked at.
    assert_eq!(t_ctx.meta_sort, Some(SortMetadata { sort_cursor: 1, reg_sorter_data: 5 }));
    assert_eq!(program.next_free_register, 6);
    assert_eq!(program.cursor_ref, vec![CursorType::Sorter, CursorType::Sorter]);
}

#[test]
fn init_fails_on_a_column_position_that_the_table_lacks() {
    let mut program = ProgramBuilder::new();
    let mut t_ctx = TranslateCtx::new();
    let order_by = vec![(col(3), SortOrder::Asc)];
    assert_eq!(
        init_order_by(&mut program, &mut t_ctx, &order_by, &items()),
        Err(LoweringError::ColumnIndexOutOfBounds)
    );
    assert_eq!(program.insns, vec![]);
}

#[test]
fn init_reports_the_first_key_that_fails() {
    let unknown = |name: &str| (Expr::Collate(Box::new(price()), name.to_string()), SortOrder::Asc);
    let mut program = ProgramBuilder::new();
    let mut t_ctx = TranslateCtx::new();
    let order_by = vec![(name(), SortOrder::Asc), unknown("first"), (col(9), SortOrder::Asc), unknown("last")];
    assert_eq!(
        init_order_by(&mut program, &mut t_ctx, &order_by, &items()),
        Err(LoweringError::UnknownCollation("first".to_string()))
    );
    let mut program = ProgramBuilder::new();
    let order_by = vec![(col(9), SortOrder::Asc), unknown("first")];
    assert_eq!(
        init_order_by(&mut program, &mut t_ctx, &order_by, &items()),
        Err(LoweringError::ColumnIndexOutOfBounds)
    );
}

#[test]
fn sorter_insert_packs_and_inserts() {
    let mut program = busy_program();
    sorter_insert(&mut program, 10, 3, 2, 9);
    assert_eq!(
        program.insns,
        vec![
            Insn::ResultRow { start_reg: 1, count: 1 },
            Insn::MakeRecord { start_reg: 10, count: 3, dest_reg: 9, index_name: None },
            Insn::SorterInsert { cursor_id: 2, record_reg: 9 }
        ]
    );
    assert_eq!(program.next_free_register, 5);
    assert_eq!(program.cursor_ref, vec![CursorType::Sorter]);
    assert_eq!(program.label_to_resolved_offset, vec![None]);
}

#[test]
fn feeding_stores_the_sort_key_once_for_a_column_that_equals_it() {
    // SELECT name, price ... ORDER BY price DESC
    let plan = select(vec![name(), price()], vec![(price(), SortOrder::Desc)]);
    let mut program = busy_program();
    let meta = SortMetadata { sort_cursor: 0, reg_sorter_data: 3 };
    let mut indexes = vec![];
    assert_eq!(order_by_sorter_insert(&mut program, &resolver(), &meta, &mut indexes, &plan), Ok(()));
    assert_eq!(indexes, vec![1, 0]);
    assert_eq!(
        program.insns,
        vec![
            Insn::ResultRow { start_reg: 1, count: 1 },
            Insn::Eval { expr: price(), dest: 5 },
            Insn::Eval { expr: name(), dest: 6 },
            Insn::MakeRecord { start_reg: 5, count: 2, dest_reg: 3, index_name: None },
            Insn::SorterInsert { cursor_id: 0, record_reg: 3 }
        ]
    );
    assert_eq!(program.next_free_register, 7);
    assert_eq!(program.cursor_ref, vec![CursorType::Sorter]);
    assert_eq!(program.label_to_resolved_offset, vec![None]);
}

#[test]
fn feeding_stores_every_column_where_none_equals_a_sort_key() {
    // SELECT name, price ... ORDER BY upper(name)
    let plan = select(vec![name(), price()], vec![(upper(name()), SortOrder::Asc)]);
    let mut program = ProgramBuilder::new();
    let meta = SortMetadata { sort_cursor: 0, reg_sorter_data: 1 };
    let mut indexes = vec![];
    assert_eq!(order_by_sorter_insert(&mut program, &resolver(), &meta, &mut indexes, &plan), Ok(()));
    assert_eq!(indexes, vec![1, 2]);
    assert_eq!(
        program.insns,
        vec![
            Insn::Eval { expr: upper(name()), dest: 1 },
            Insn::Eval { expr: name(), dest: 2 },
            Insn::Eval { expr: price(), dest: 3 },
            Insn::MakeRecord { start_reg: 1, count: 3, dest_reg: 1, index_name: None },
            Insn::SorterInsert { cursor_id: 0, record_reg: 1 }
        ]
    );
    assert_eq!(program.next_free_register, 4);
}

#[test]
fn feeding_mixes_stored_and_skipped_columns() {
    // SELECT c, a, upper(b), b, a ... ORDER BY a, upper(b), a DESC
    let plan = select(
        vec![col(2), col(0), upper(col(1)), col(1), col(0)],
        vec![
            (col(0), SortOrder::Asc),
            (upper(col(1)), SortOrder::Desc),
            (col(0), SortOrder::Desc),
        ],
    );
    let mut program = ProgramBuilder::new();
    let meta = SortMetadata { sort_cursor: 0, reg_sorter_data: 1 };
    let mut indexes = vec![];
    assert_eq!(order_by_sorter_insert(&mut program, &resolver(), &meta, &mut indexes, &plan), Ok(()));
    assert_eq!(indexes, vec![3, 0, 1, 4, 0]);
    assert_eq!(
        program.insns,
        vec![
            Insn::Eval { expr: col(0), dest: 1 },
            Insn::Eval { expr: upper(col(1)), dest: 2 },
            Insn::Eval { expr: col(0), dest: 3 },
            Insn::Eval { expr: col(2), dest: 4 },
            Insn::Eval { expr: col(1), dest: 5 },
            Insn::MakeRecord { start_reg: 1, count: 5, dest_reg: 1, index_name: None },
            Insn::SorterInsert { cursor_id: 0, record_reg: 1 }
        ]
    );
    assert_eq!(program.next_free_register, 6);
}

#[test]
fn feeding_replaces_what_the_list_held() {
    let plan = select(vec![name(), price()], vec![(price(), SortOrder::Desc)]);
    let mut program = ProgramBuilder::new();
    let meta = SortMetadata { sort_cursor: 0, reg_sorter_data: 1 };
    let mut indexes = vec![8, 9, 7];
    assert_eq!(order_by_sorter_insert(&mut program, &resolver(), &meta, &mut indexes, &plan), Ok(()));
    assert_eq!(indexes, vec![1, 0]);
}

#[test]
fn feeding_twice_leaves_one_entry_for_each_result_column() {
    let plan = select(
        vec![col(2), col(0), upper(col(1)), col(1), col(0)],
        vec![(col(0), SortOrder::Asc), (upper(col(1)), SortOrder::Desc)],
    );
    let mut program = ProgramBuilder::new();
    let meta = SortMetadata { sort_cursor: 0, reg_sorter_data: 1 };
    let mut indexes = vec![];
    assert_eq!(order_by_sorter_insert(&mut program, &resolver(), &meta, &mut indexes, &plan), Ok(()));
    let once = indexes.clone();
    assert_eq!(once, vec![2, 0, 1, 3, 0]);
    assert_eq!(order_by_sorter_insert(&mut program, &resolver(), &meta, &mut indexes, &plan), Ok(()));
    assert_eq!(indexes, once);
}

#[test]
fn feeding_without_result_columns_or_without_keys() {
    let meta = SortMetadata { sort_cursor: 0, reg_sorter_data: 1 };
    let plan = select(vec![], vec![(price(), SortOrder::Desc)]);
    let mut program = ProgramBuilder::new();
    let mut indexes = vec![];
    assert_eq!(order_by_sorter_insert(&mut program, &resolver(), &meta, &mut indexes, &plan), Ok(()));
    assert_eq!(indexes, vec![]);
    assert_eq!(
        program.insns,
        vec![
            Insn::Eval { expr: price(), dest: 1 },
            Insn::MakeRecord { start_reg: 1, count: 1, dest_reg: 1, index_name: None },
            Insn::SorterInsert { cursor_id: 0, record_reg: 1 }
        ]
    );
    let plan = select(vec![name()], vec![]);
    let mut program = ProgramBuilder::new();
    assert_eq!(order_by_sorter_insert(&mut program, &resolver(), &meta, &mut indexes, &plan), Ok(()));
    assert_eq!(indexes, vec![0]);
    assert_eq!(
        program.insns,
        vec![
            Insn::Eval { expr: name(), dest: 1 },
            Insn::MakeRecord { start_reg: 1, count: 1, dest_reg: 1, index_name: None },
            Insn::SorterInsert { cursor_id: 0, record_reg: 1 }
        ]
    );
}

#[test]
fn a_distinct_query_checks_exactly_the_registers_of_the_record() {
    let mut plan = select(vec![name(), price()], vec![(price(), SortOrder::Desc)]);
    plan.distinctness = Distinctness::Distinct {
        ctx: Some(DistinctCtx { cursor_id: 4, label_on_conflict: BranchOffset::Label(0) }),
    };
    let mut program = busy_program();
    let meta = SortMetadata { sort_cursor: 0, reg_sorter_data: 3 };
    let mut indexes = vec![];
    assert_eq!(order_by_sorter_insert(&mut program, &resolver(), &meta, &mut indexes, &plan), Ok(()));
    assert_eq!(
        program.insns,
        vec![
            Insn::ResultRow { start_reg: 1, count: 1 },
            Insn::Eval { expr: price(), dest: 5 },
            Insn::Eval { expr: name(), dest: 6 },
            Insn::Distinct {
                cursor_id: 4,
                start_reg: 5,
                num_regs: 2,
                pc_if_seen: BranchOffset::Label(0)
            },
            Insn::MakeRecord { start_reg: 5, count: 2, dest_reg: 3, index_name: None },
            Insn::SorterInsert { cursor_id: 0, record_reg: 3 }
        ]
    );
}

#[test]
fn the_distinct_check_is_one_instruction_on_the_window_given() {
    let ctx = DistinctCtx { cursor_id: 2, label_on_conflict: BranchOffset::Label(5) };
    let mut program = ProgramBuilder::new();
    ctx.emit_deduplication_insns(&mut program, 3, 11);
    assert_eq!(
        program.insns,
        vec![Insn::Distinct {
            cursor_id: 2,
            start_reg: 11,
            num_regs: 3,
            pc_if_seen: BranchOffset::Label(5)
        }]
    );
}

#[test]
fn the_offset_check_is_emitted_only_for_a_positive_offset() {
    let mut plan = select(vec![name()], vec![(price(), SortOrder::Desc)]);
    let mut program = ProgramBuilder::new();
    emit_offset(&mut program, &plan, BranchOffset::Label(1), Some(3));
    emit_offset(&mut program, &plan, BranchOffset::Label(1), None);
    plan.offset = Some(0);
    emit_offset(&mut program, &plan, BranchOffset::Label(1), Some(3));
    emit_offset(&mut program, &plan, BranchOffset::Label(1), None);
    assert_eq!(program.insns, vec![]);
    plan.offset = Some(2);
    emit_offset(&mut program, &plan, BranchOffset::Label(1), Some(3));
    assert_eq!(
        program.insns,
        vec![Insn::IfPos { reg: 3, target_pc: BranchOffset::Label(1), decrement_by: 1 }]
    );
}

#[test]
fn the_row_is_counted_against_a_limit_only_where_there_is_a_place_to_go() {
    let mut plan = select(vec![name(), price()], vec![(price(), SortOrder::Desc)]);
    let row = Insn::ResultRow { start_reg: 7, count: 2 };
    let limit = Some(LimitCtx { reg_limit: 3 });
    let end = Some(BranchOffset::Label(2));

    let mut program = ProgramBuilder::new();
    emit_result_row_and_limit(&mut program, &plan, 7, limit, end);
    assert_eq!(program.insns, vec![row.clone()]);

    plan.limit = Some(10);
    let mut program = ProgramBuilder::new();
    emit_result_row_and_limit(&mut program, &plan, 7, limit, None);
    assert_eq!(program.insns, vec![row.clone()]);

    let mut program = ProgramBuilder::new();
    emit_result_row_and_limit(&mut program, &plan, 7, limit, end);
    assert_eq!(
        program.insns,
        vec![row, Insn::DecrJumpZero { reg: 3, target_pc: BranchOffset::Label(2) }]
    );
}

#[test]
fn draining_reads_the_columns_back_in_select_order() {
    // SELECT name, price ... ORDER BY price DESC
    let plan = select(vec![name(), price()], vec![(price(), SortOrder::Desc)]);
    let mut program = busy_program();
    let mut t_ctx = fed_context(&mut program, &plan);
    assert_eq!(t_ctx.result_column_indexes_in_orderby_sorter, vec![1, 0]);
    let fed = program.insns.len();
    let before = t_ctx.clone();
    assert_eq!(emit_order_by(&mut program, &mut t_ctx, &plan), Ok(()));
    assert_eq!(t_ctx, before);
    // busy_program took registers 1 to 4, a sorter cursor and a label; init
    // took cursor 1 and register 5; the output row is in registers 6 and 7.
    assert_eq!(
        program.insns[fed..].to_vec(),
        vec![
            Insn::OpenPseudo { cursor_id: 2, content_reg: 5, num_fields: 2 },
            Insn::SorterSort { cursor_id: 1, pc_if_empty: BranchOffset::Label(3) },
            Insn::SorterData { cursor_id: 1, dest_reg: 5, pseudo_cursor: 2 },
            Insn::Column { cursor_id: 2, column: 1, dest: 6 },
            Insn::Column { cursor_id: 2, column: 0, dest: 7 },
            Insn::ResultRow { start_reg: 6, count: 2 },
            Insn::SorterNext { cursor_id: 1, pc_if_next: BranchOffset::Label(1) },
        ]
    );
    assert_eq!(
        program.cursor_ref,
        vec![
            CursorType::Sorter,
            CursorType::Sorter,
            CursorType::Pseudo(PseudoCursorType { column_count: 2 })
        ]
    );
    assert_eq!(
        program.label_to_resolved_offset,
        vec![None, Some(fed + 2), Some(fed + 6), Some(fed + 7)]
    );
    assert_eq!(program.insns.len(), fed + 7);
    assert_eq!(program.next_free_register, 10);
}

#[test]
fn draining_without_skipped_columns_reads_behind_the_keys() {
    // SELECT name, price ... ORDER BY upper(name)
    let plan = select(vec![name(), price()], vec![(upper(name()), SortOrder::Asc)]);
    let mut program = ProgramBuilder::new();
    let mut t_ctx = fed_context(&mut program, &plan);
    assert_eq!(t_ctx.result_column_indexes_in_orderby_sorter, vec![1, 2]);
    let fed = program.insns.len();
    assert_eq!(emit_order_by(&mut program, &mut t_ctx, &plan), Ok(()));
    assert_eq!(
        program.insns[fed..].to_vec(),
        vec![
            Insn::OpenPseudo { cursor_id: 1, content_reg: 1, num_fields: 3 },
            Insn::SorterSort { cursor_id: 0, pc_if_empty: BranchOffset::Label(2) },
            Insn::SorterData { cursor_id: 0, dest_reg: 1, pseudo_cursor: 1 },
            Insn::Column { cursor_id: 1, column: 1, dest: 2 },
            Insn::Column { cursor_id: 1, column: 2, dest: 3 },
            Insn::ResultRow { start_reg: 2, count: 2 },
            Insn::SorterNext { cursor_id: 0, pc_if_next: BranchOffset::Label(0) },
        ]
    );
}

#[test]
fn draining_skips_for_offset_first_and_leaves_on_limit_last() {
    let mut plan = select(vec![name(), price()], vec![(price(), SortOrder::Desc)]);
    plan.offset = Some(2);
    plan.limit = Some(1);
    let mut program = ProgramBuilder::new();
    let mut t_ctx = fed_context(&mut program, &plan);
    t_ctx.reg_offset = Some(program.alloc_register());
    t_ctx.limit_ctx = Some(LimitCtx { reg_limit: program.alloc_register() });
    let fed = program.insns.len();
    assert_eq!(emit_order_by(&mut program, &mut t_ctx, &plan), Ok(()));
    assert_eq!(
        program.insns[fed..].to_vec(),
        vec![
            Insn::OpenPseudo { cursor_id: 1, content_reg: 1, num_fields: 2 },
            Insn::SorterSort { cursor_id: 0, pc_if_empty: BranchOffset::Label(2) },
            Insn::IfPos { reg: 6, target_pc: BranchOffset::Label(1), decrement_by: 1 },
            Insn::SorterData { cursor_id: 0, dest_reg: 1, pseudo_cursor: 1 },
            Insn::Column { cursor_id: 1, column: 1, dest: 2 },
            Insn::Column { cursor_id: 1, column: 0, dest: 3 },
            Insn::ResultRow { start_reg: 2, count: 2 },
            Insn::DecrJumpZero { reg: 7, target_pc: BranchOffset::Label(2) },
            Insn::SorterNext { cursor_id: 0, pc_if_next: BranchOffset::Label(0) },
        ]
    );
    assert_eq!(
        program.label_to_resolved_offset,
        vec![Some(fed + 2), Some(fed + 8), Some(fed + 9)]
    );
}

#[test]
fn the_decoding_view_is_as_wide_as_the_record_that_was_packed() {
    let plans = vec![
        select(vec![name(), price()], vec![(price(), SortOrder::Desc)]),
        select(vec![name(), price()], vec![(upper(name()), SortOrder::Asc)]),
        select(vec![price(), price(), price()], vec![(price(), SortOrder::Asc)]),
        select(vec![], vec![(price(), SortOrder::Asc), (name(), SortOrder::Asc)]),
        select(
            vec![col(1), col(0), upper(col(1)), col(1), col(0)],
            vec![(col(0), SortOrder::Asc), (upper(col(1)), SortOrder::Desc)],
        ),
    ];
    for plan in plans {
        let mut program = ProgramBuilder::new();
        let mut t_ctx = fed_context(&mut program, &plan);
        emit_order_by(&mut program, &mut t_ctx, &plan).unwrap();
        let skipped = order_by_deduplicate_result_columns(
            plan.order_by.as_ref().unwrap(),
            &plan.result_columns,
        )
        .map(|v| v.len())
        .unwrap_or(0);
        let width = plan.order_by.as_ref().unwrap().len() + plan.result_columns.len() - skipped;
        let packed: Vec<usize> = program
            .insns
            .iter()
            .filter_map(|insn| match insn {
                Insn::MakeRecord { count, .. } => Some(*count),
                _ => None,
            })
            .collect();
        let opened: Vec<usize> = program
            .insns
            .iter()
            .filter_map(|insn| match insn {
                Insn::OpenPseudo { num_fields, .. } => Some(*num_fields),
                _ => None,
            })
            .collect();
        assert_eq!(packed, vec![width]);
        assert_eq!(opened, vec![width]);
    }
}

#[test]
fn the_three_phases_in_a_row_agree_on_the_width_of_the_record() {
    // SELECT name, price, price ... ORDER BY price DESC, on a fresh context
    // that nobody but the phases writes to, but for the output registers.
    let plan = select(vec![name(), price(), price()], vec![(price(), SortOrder::Desc)]);
    let mut program = ProgramBuilder::new();
    let mut t_ctx = TranslateCtx::new();
    init_order_by(&mut program, &mut t_ctx, plan.order_by.as_ref().unwrap(), &items()).unwrap();
    t_ctx.reg_result_cols_start = Some(program.alloc_registers(3));
    let meta = t_ctx.meta_sort.unwrap();
    order_by_sorter_insert(
        &mut program,
        &resolver(),
        &meta,
        &mut t_ctx.result_column_indexes_in_orderby_sorter,
        &plan,
    )
    .unwrap();
    emit_order_by(&mut program, &mut t_ctx, &plan).unwrap();
    // One key and three result columns, two of which the key stands in for.
    assert!(program
        .insns
        .contains(&Insn::MakeRecord { start_reg: 5, count: 2, dest_reg: 1, index_name: None }));
    assert!(program
        .insns
        .contains(&Insn::OpenPseudo { cursor_id: 1, content_reg: 1, num_fields: 2 }));
    assert_eq!(
        program.cursor_ref,
        vec![CursorType::Sorter, CursorType::Pseudo(PseudoCursorType { column_count: 2 })]
    );
    assert_eq!(t_ctx.result_column_indexes_in_orderby_sorter, vec![1, 0, 0]);
}

#[test]
fn draining_reads_by_the_list_and_takes_the_width_from_the_plan() {
    // More entries than result columns: the first of them are read.
    let plan = select(vec![name(), price()], vec![(price(), SortOrder::Desc)]);
    let mut program = ProgramBuilder::new();
    let mut t_ctx = fed_context(&mut program, &plan);
    t_ctx.result_column_indexes_in_orderby_sorter.push(5);
    let fed = program.insns.len();
    emit_order_by(&mut program, &mut t_ctx, &plan).unwrap();
    assert_eq!(
        program.insns[fed..fed + 5].to_vec(),
        vec![
            Insn::OpenPseudo { cursor_id: 1, content_reg: 1, num_fields: 2 },
            Insn::SorterSort { cursor_id: 0, pc_if_empty: BranchOffset::Label(2) },
            Insn::SorterData { cursor_id: 0, dest_reg: 1, pseudo_cursor: 1 },
            Insn::Column { cursor_id: 1, column: 1, dest: 2 },
            Insn::Column { cursor_id: 1, column: 0, dest: 3 },
        ]
    );
}

#[test]
fn resolving_labels_turns_jumps_into_positions() {
    let mut plan = select(vec![name(), price()], vec![(price(), SortOrder::Desc)]);
    plan.offset = Some(2);
    plan.limit = Some(1);
    plan.distinctness = Distinctness::Distinct {
        ctx: Some(DistinctCtx { cursor_id: 9, label_on_conflict: BranchOffset::Label(0) }),
    };
    let mut program = ProgramBuilder::new();
    let unresolved = program.allocate_label();
    assert_eq!(unresolved, BranchOffset::Label(0));
    let mut t_ctx = fed_context(&mut program, &plan);
    t_ctx.reg_offset = Some(program.alloc_register());
    t_ctx.limit_ctx = Some(LimitCtx { reg_limit: program.alloc_register() });
    emit_order_by(&mut program, &mut t_ctx, &plan).unwrap();
    let before = program.clone();
    program.resolve_labels();
    assert_eq!(
        program.insns,
        vec![
            Insn::SorterOpen {
                cursor_id: 0,
                columns: 1,
                order: vec![SortOrder::Desc],
                collations: vec![Some(CollationSeq::Binary)]
            },
            Insn::Eval { expr: price(), dest: 4 },
            Insn::Eval { expr: name(), dest: 5 },
            // The label of the check for duplicates was never resolved.
            Insn::Distinct {
                cursor_id: 9,
                start_reg: 4,
                num_regs: 2,
                pc_if_seen: BranchOffset::Label(0)
            },
            Insn::MakeRecord { start_reg: 4, count: 2, dest_reg: 1, index_name: None },
            Insn::SorterInsert { cursor_id: 0, record_reg: 1 },
            Insn::OpenPseudo { cursor_id: 1, content_reg: 1, num_fields: 2 },
            Insn::SorterSort { cursor_id: 0, pc_if_empty: BranchOffset::Offset(15) },
            Insn::IfPos { reg: 6, target_pc: BranchOffset::Offset(14), decrement_by: 1 },
            Insn::SorterData { cursor_id: 0, dest_reg: 1, pseudo_cursor: 1 },
            Insn::Column { cursor_id: 1, column: 1, dest: 2 },
            Insn::Column { cursor_id: 1, column: 0, dest: 3 },
            Insn::ResultRow { start_reg: 2, count: 2 },
            Insn::DecrJumpZero { reg: 7, target_pc: BranchOffset::Offset(15) },
            Insn::SorterNext { cursor_id: 0, pc_if_next: BranchOffset::Offset(8) },
        ]
    );
    // Nothing but the jumps has changed, and a second pass changes nothing.
    assert_eq!(program.label_to_resolved_offset, before.label_to_resolved_offset);
    assert_eq!(program.cursor_ref, before.cursor_ref);
    assert_eq!(program.next_free_register, before.next_free_register);
    let once = program.clone();
    program.resolve_labels();
    assert_eq!(program, once);
}
