use sort_lowering::expr::exprs_are_equivalent;
use sort_lowering::expr::Expr;
use sort_lowering::expr::LikeOperator;
use sort_lowering::expr::Literal;
use sort_lowering::expr::Operator;
use sort_lowering::expr::ResolveType;
use sort_lowering::expr::UnaryOperator;

fn col(position: usize) -> Expr {
    Expr::Column { database: None, table: 1, column: position, is_rowid_alias: false }
}

fn number(text: &str) -> Expr {
    Expr::Literal(Literal::Numeric(text.to_string()))
}

fn call(name: &str, args: Vec<Expr>) -> Expr {
    Expr::FunctionCall { name: name.to_string(), distinct: false, args, order_by: None, filter: None, over: None }
}

fn every_kind() -> Vec<Expr> {
    vec![
        Expr::Between {
            lhs: Box::new(col(0)),
            not: false,
            start: Box::new(number("1")),
            end: Box::new(number("9")),
        },
        Expr::Case {
            base: Some(Box::new(col(0))),
            when_then_pairs: vec![(number("1"), number("10")), (number("2"), number("20"))],
            else_expr: Some(Box::new(number("0"))),
        },
        Expr::InList { lhs: Box::new(col(0)), not: true, rhs: vec![number("1"), number("2")] },
        Expr::Like {
            lhs: Box::new(col(0)),
            not: false,
            op: LikeOperator::Like,
            rhs: Box::new(Expr::Literal(Literal::String("'a%'".to_string()))),
            escape: None,
        },
        number("1"),
        Expr::Literal(Literal::Null),
        col(0),
        Expr::RowId { database: None, table: 1 },
        Expr::Collate(Box::new(col(0)), "nocase".to_string()),
        Expr::Unary(UnaryOperator::Negative, Box::new(col(0))),
        Expr::Binary(Box::new(col(0)), Operator::Add, Box::new(number("1"))),
        call("upper", vec![col(0)]),
        Expr::FunctionCallStar { name: "count".to_string(), filter: None, over: None },
        Expr::Cast { expr: Box::new(col(0)), target_type: Some("TEXT".to_string()), size: vec![] },
        Expr::IsNull(Box::new(col(0))),
        Expr::NotNull(Box::new(col(0))),
        Expr::Parenthesized(vec![col(0)]),
        Expr::Variable("?1".to_string()),
        Expr::Exists("SELECT 1".to_string()),
        Expr::Subquery("SELECT 1".to_string()),
        Expr::InSelect { lhs: Box::new(col(0)), not: false, rhs: "SELECT 1".to_string() },
        Expr::InTable { lhs: Box::new(col(0)), not: false, rhs: "t".to_string(), args: vec![] },
        Expr::Raise(ResolveType::Abort, Some(Box::new(number("1")))),
        Expr::Register(3),
    ]
}

#[test]
fn every_expression_is_equivalent_to_itself_and_to_no_other_kind() {
    let all = every_kind();
    for (i, a) in all.iter().enumerate() {
        for (j, b) in all.iter().enumerate() {
            assert_eq!(exprs_are_equivalent(a, b), i == j, "{:?} against {:?}", a, b);
        }
    }
}

#[test]
fn a_copy_is_equivalent_and_equal() {
    for e in every_kind() {
        let copy = e.clone();
        assert!(exprs_are_equivalent(&e, &copy));
        assert_eq!(e, copy);
    }
}

#[test]
fn columns_differ_by_table_position_and_flags() {
    let base = Expr::Column { database: None, table: 1, column: 2, is_rowid_alias: false };
    let other_table = Expr::Column { database: None, table: 2, column: 2, is_rowid_alias: false };
    let other_column = Expr::Column { database: None, table: 1, column: 3, is_rowid_alias: false };
    let other_database =
        Expr::Column { database: Some(0), table: 1, column: 2, is_rowid_alias: false };
    let alias = Expr::Column { database: None, table: 1, column: 2, is_rowid_alias: true };
    assert!(!exprs_are_equivalent(&base, &other_table));
    assert!(!exprs_are_equivalent(&base, &other_column));
    assert!(!exprs_are_equivalent(&base, &other_database));
    assert!(!exprs_are_equivalent(&base, &alias));
    assert!(!exprs_are_equivalent(&base, &Expr::RowId { database: None, table: 1 }));
}

#[test]
fn literals_differ_by_kind_and_text() {
    let one = number("1");
    assert!(exprs_are_equivalent(&one, &number("1")));
    assert!(!exprs_are_equivalent(&one, &number("1.0")));
    assert!(!exprs_are_equivalent(&one, &Expr::Literal(Literal::String("1".to_string()))));
    assert!(!exprs_are_equivalent(&one, &Expr::Literal(Literal::Blob("1".to_string()))));
    assert!(!exprs_are_equivalent(&one, &Expr::Literal(Literal::Keyword("1".to_string()))));
    assert!(!exprs_are_equivalent(
        &Expr::Literal(Literal::CurrentDate),
        &Expr::Literal(Literal::CurrentTime)
    ));
    assert!(exprs_are_equivalent(
        &Expr::Literal(Literal::CurrentTimestamp),
        &Expr::Literal(Literal::CurrentTimestamp)
    ));
}

#[test]
fn operands_are_compared_in_order() {
    let sum = Expr::Binary(Box::new(col(0)), Operator::Add, Box::new(col(1)));
    let swapped = Expr::Binary(Box::new(col(1)), Operator::Add, Box::new(col(0)));
    let difference = Expr::Binary(Box::new(col(0)), Operator::Subtract, Box::new(col(1)));
    assert!(!exprs_are_equivalent(&sum, &swapped));
    assert!(!exprs_are_equivalent(&sum, &difference));
    assert!(exprs_are_equivalent(
        &sum,
        &Expr::Binary(Box::new(col(0)), Operator::Add, Box::new(col(1)))
    ));
    let minus = Expr::Unary(UnaryOperator::Negative, Box::new(col(0)));
    let plus = Expr::Unary(UnaryOperator::Positive, Box::new(col(0)));
    assert!(!exprs_are_equivalent(&minus, &plus));
}

#[test]
fn function_calls_differ_by_name_arguments_and_distinct() {
    let upper = call("upper", vec![col(0)]);
    assert!(exprs_are_equivalent(&upper, &call("upper", vec![col(0)])));
    assert!(!exprs_are_equivalent(&upper, &call("lower", vec![col(0)])));
    assert!(!exprs_are_equivalent(&upper, &call("UPPER", vec![col(0)])));
    assert!(!exprs_are_equivalent(&upper, &call("upper", vec![col(1)])));
    assert!(!exprs_are_equivalent(&upper, &call("upper", vec![col(0), col(1)])));
    assert!(!exprs_are_equivalent(&upper, &call("upper", vec![])));
    assert!(!exprs_are_equivalent(
        &upper,
        &Expr::FunctionCall { name: "upper".to_string(), distinct: true, args: vec![col(0)], order_by: None, filter: None, over: None }
    ));
    assert!(!exprs_are_equivalent(&upper, &col(0)));
}

#[test]
fn nested_differences_are_found() {
    let deep = |leaf: Expr| {
        call(
            "coalesce",
            vec![
                Expr::Parenthesized(vec![Expr::Unary(
                    UnaryOperator::Not,
                    Box::new(Expr::IsNull(Box::new(leaf))),
                )]),
                number("0"),
            ],
        )
    };
    assert!(exprs_are_equivalent(&deep(col(4)), &deep(col(4))));
    assert!(!exprs_are_equivalent(&deep(col(4)), &deep(col(5))));
}

#[test]
fn collate_and_cast_differ_by_their_names() {
    let nocase = Expr::Collate(Box::new(col(0)), "nocase".to_string());
    assert!(!exprs_are_equivalent(&nocase, &Expr::Collate(Box::new(col(0)), "rtrim".to_string())));
    assert!(!exprs_are_equivalent(&nocase, &Expr::Collate(Box::new(col(1)), "nocase".to_string())));
    assert!(!exprs_are_equivalent(&nocase, &col(0)));
    let cast = Expr::Cast { expr: Box::new(col(0)), target_type: Some("TEXT".to_string()), size: vec![] };
    assert!(!exprs_are_equivalent(
        &cast,
        &Expr::Cast { expr: Box::new(col(0)), target_type: Some("INT".to_string()), size: vec![] }
    ));
    assert!(!exprs_are_equivalent(&cast, &Expr::Cast { expr: Box::new(col(0)), target_type: None, size: vec![] }));
    assert!(exprs_are_equivalent(
        &Expr::Cast { expr: Box::new(col(0)), target_type: None, size: vec![] },
        &Expr::Cast { expr: Box::new(col(0)), target_type: None, size: vec![] }
    ));
}

#[test]
fn case_branches_and_lists_are_compared_item_by_item() {
    let case = |pairs: Vec<(Expr, Expr)>, else_expr: Option<Box<Expr>>| Expr::Case {
        base: None,
        when_then_pairs: pairs,
        else_expr,
    };
    let one = case(vec![(col(0), number("1"))], None);
    assert!(exprs_are_equivalent(&one, &case(vec![(col(0), number("1"))], None)));
    assert!(!exprs_are_equivalent(&one, &case(vec![(col(0), number("2"))], None)));
    assert!(!exprs_are_equivalent(&one, &case(vec![(col(1), number("1"))], None)));
    assert!(!exprs_are_equivalent(
        &one,
        &case(vec![(col(0), number("1"))], Some(Box::new(number("0"))))
    ));
    assert!(!exprs_are_equivalent(
        &one,
        &case(vec![(col(0), number("1")), (col(1), number("2"))], None)
    ));
    let list = |not: bool, rhs: Vec<Expr>| Expr::InList { lhs: Box::new(col(0)), not, rhs };
    assert!(exprs_are_equivalent(&list(false, vec![number("1")]), &list(false, vec![number("1")])));
    assert!(!exprs_are_equivalent(&list(false, vec![number("1")]), &list(true, vec![number("1")])));
    assert!(!exprs_are_equivalent(&list(false, vec![number("1")]), &list(false, vec![number("2")])));
    let like = |op: LikeOperator, escape: Option<Box<Expr>>| Expr::Like {
        lhs: Box::new(col(0)),
        not: false,
        op,
        rhs: Box::new(col(1)),
        escape,
    };
    assert!(!exprs_are_equivalent(&like(LikeOperator::Like, None), &like(LikeOperator::Glob, None)));
    assert!(!exprs_are_equivalent(
        &like(LikeOperator::Like, None),
        &like(LikeOperator::Like, Some(Box::new(col(2))))
    ));
    let between = |not: bool, end: Expr| Expr::Between {
        lhs: Box::new(col(0)),
        not,
        start: Box::new(number("1")),
        end: Box::new(end),
    };
    assert!(exprs_are_equivalent(&between(false, number("5")), &between(false, number("5"))));
    assert!(!exprs_are_equivalent(&between(false, number("5")), &between(true, number("5"))));
    assert!(!exprs_are_equivalent(&between(false, number("5")), &between(false, number("6"))));
}

#[test]
fn the_clauses_of_a_function_call_tell_calls_apart() {
    let call = |order_by: Option<&str>, filter: Option<Expr>, over: Option<&str>| Expr::FunctionCall {
        name: "sum".to_string(),
        distinct: false,
        args: vec![col(0)],
        order_by: order_by.map(str::to_string),
        filter: filter.map(Box::new),
        over: over.map(str::to_string),
    };
    let plain = call(None, None, None);
    assert!(exprs_are_equivalent(&plain, &call(None, None, None)));
    assert!(!exprs_are_equivalent(&plain, &call(Some("a"), None, None)));
    assert!(!exprs_are_equivalent(&plain, &call(None, Some(col(1)), None)));
    assert!(!exprs_are_equivalent(&plain, &call(None, None, Some("w"))));
    assert!(!exprs_are_equivalent(&call(Some("a"), None, None), &call(Some("b"), None, None)));
    assert!(!exprs_are_equivalent(
        &call(None, Some(col(1)), None),
        &call(None, Some(col(2)), None)
    ));
    assert!(exprs_are_equivalent(
        &call(Some("a"), Some(col(1)), Some("w")),
        &call(Some("a"), Some(col(1)), Some("w"))
    ));
    let star = |filter: Option<Expr>, over: Option<&str>| Expr::FunctionCallStar {
        name: "count".to_string(),
        filter: filter.map(Box::new),
        over: over.map(str::to_string),
    };
    assert!(exprs_are_equivalent(&star(Some(col(1)), None), &star(Some(col(1)), None)));
    assert!(!exprs_are_equivalent(&star(None, None), &star(Some(col(1)), None)));
    assert!(!exprs_are_equivalent(&star(None, Some("w")), &star(None, Some("v"))));
}

#[test]
fn sized_casts_and_what_holds_a_query_differ_by_their_parts() {
    let cast = |size: Vec<Expr>| Expr::Cast {
        expr: Box::new(col(0)),
        target_type: Some("VARCHAR".to_string()),
        size,
    };
    assert!(exprs_are_equivalent(&cast(vec![number("10")]), &cast(vec![number("10")])));
    assert!(!exprs_are_equivalent(&cast(vec![number("10")]), &cast(vec![number("20")])));
    assert!(!exprs_are_equivalent(&cast(vec![number("10")]), &cast(vec![])));
    assert!(!exprs_are_equivalent(
        &cast(vec![number("10")]),
        &cast(vec![number("10"), number("2")])
    ));
    assert!(!exprs_are_equivalent(
        &Expr::Subquery("SELECT 1".to_string()),
        &Expr::Subquery("SELECT 2".to_string())
    ));
    assert!(!exprs_are_equivalent(
        &Expr::Exists("SELECT 1".to_string()),
        &Expr::Exists("SELECT 2".to_string())
    ));
    let in_select = |lhs: Expr, not: bool, rhs: &str| Expr::InSelect {
        lhs: Box::new(lhs),
        not,
        rhs: rhs.to_string(),
    };
    assert!(exprs_are_equivalent(&in_select(col(0), false, "q"), &in_select(col(0), false, "q")));
    assert!(!exprs_are_equivalent(&in_select(col(0), false, "q"), &in_select(col(1), false, "q")));
    assert!(!exprs_are_equivalent(&in_select(col(0), false, "q"), &in_select(col(0), true, "q")));
    assert!(!exprs_are_equivalent(&in_select(col(0), false, "q"), &in_select(col(0), false, "r")));
    let in_table = |rhs: &str, args: Vec<Expr>| Expr::InTable {
        lhs: Box::new(col(0)),
        not: false,
        rhs: rhs.to_string(),
        args,
    };
    assert!(exprs_are_equivalent(&in_table("t", vec![col(1)]), &in_table("t", vec![col(1)])));
    assert!(!exprs_are_equivalent(&in_table("t", vec![col(1)]), &in_table("u", vec![col(1)])));
    assert!(!exprs_are_equivalent(&in_table("t", vec![col(1)]), &in_table("t", vec![col(2)])));
    assert!(!exprs_are_equivalent(
        &Expr::Raise(ResolveType::Abort, None),
        &Expr::Raise(ResolveType::Fail, None)
    ));
    assert!(!exprs_are_equivalent(
        &Expr::Raise(ResolveType::Abort, None),
        &Expr::Raise(ResolveType::Abort, Some(Box::new(number("1"))))
    ));
    assert!(!exprs_are_equivalent(&Expr::Register(3), &Expr::Register(4)));
}
