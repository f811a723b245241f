//! What it takes to evaluate an expression on a candidate row, and the check
//! that the expression compiler makes of it.
//!
//! An expression can be evaluated where every column and row identifier in it
//! belongs to a table that the query refers to, at a position that the table
//! has, and every function that it calls is one that the engine has. The
//! parts of an expression are checked in the order in which they are written,
//! a call before its arguments, and the first part that fails gives the
//! error. What is kept as text is not looked into.

use vstd::prelude::*;
use crate::collate::names_match;
use crate::collate::same_name;
use crate::error::LoweringError;
use crate::error::LoweringErrorView;
use crate::error::outcome;
use crate::expr::Expr;
use crate::expr::ExprView;
use crate::schema::TableReferences;

verus! {

/// What the expression compiler knows of the engine: the names of the
/// functions that it has.
#[derive(Debug, Clone, PartialEq, Eq)]
pub struct Resolver {
    pub functions: Vec<String>,
}

impl Resolver {
    /// Whether the engine has a function of this name, whatever the case of
    /// its letters.
    pub open spec fn knows(&self, name: Seq<char>) -> bool {
        exists|i: int|
            0 <= i < self.functions.len() && same_name((#[trigger] self.functions[i])@, name)
    }

    /// Whether the engine has a function of this name, whatever the case of
    /// its letters.
    pub fn resolve_function(&self, name: &str) -> (r: bool)
        ensures
            r == self.knows(name@),
    {
        let mut i: usize = 0;
        while i < self.functions.len()
            invariant
                i <= self.functions.len(),
                forall|j: int| 0 <= j < i ==> !same_name((#[trigger] self.functions[j])@, name@),
            decreases self.functions.len() - i,
        {
            if names_match(self.functions[i].as_str(), name) {
                return true;
            }
            i += 1;
        }
        false
    }
}

/// The earlier of two failures.
pub open spec fn first_of(a: Option<LoweringErrorView>, b: Option<LoweringErrorView>) -> Option<
    LoweringErrorView,
> {
    if a is Some {
        a
    } else {
        b
    }
}

/// Why a column or, where no position is given, the row identifier of a
/// table cannot be read, if it cannot.
pub open spec fn reference_failure(
    tables: Option<&TableReferences>,
    table: usize,
    column: Option<usize>,
) -> Option<LoweringErrorView> {
    match tables {
        None => Some(LoweringErrorView::UnknownTable),
        Some(known) => match known.table_with_id(table) {
            None => Some(LoweringErrorView::UnknownTable),
            Some(found) => match column {
                Some(position) => if found.column_at(position) is Some {
                    None
                } else {
                    Some(LoweringErrorView::ColumnIndexOutOfBounds)
                },
                None => None,
            },
        },
    }
}

/// Why a function cannot be called, if it cannot.
pub open spec fn call_failure(resolver: &Resolver, name: Seq<char>) -> Option<LoweringErrorView> {
    if resolver.knows(name) {
        None
    } else {
        Some(LoweringErrorView::UnknownFunction(name))
    }
}

/// Why an expression cannot be evaluated, if it cannot: the failure of its
/// first part that fails.
pub open spec fn compile_failure(
    e: ExprView,
    tables: Option<&TableReferences>,
    resolver: &Resolver,
) -> Option<LoweringErrorView>
    decreases e, 0nat,
{
    match e {
        ExprView::Between { lhs, start, end, .. } => first_of(
            first_of(
                compile_failure(*lhs, tables, resolver),
                compile_failure(*start, tables, resolver),
            ),
            compile_failure(*end, tables, resolver),
        ),
        ExprView::Case { base, when_then_pairs, else_expr } => first_of(
            first_of(
                optional_failure(base, tables, resolver),
                first_failing_pair(when_then_pairs, when_then_pairs.len(), tables, resolver),
            ),
            optional_failure(else_expr, tables, resolver),
        ),
        ExprView::InList { lhs, rhs, .. } => first_of(
            compile_failure(*lhs, tables, resolver),
            failure_among(rhs, rhs.len(), tables, resolver),
        ),
        ExprView::Like { lhs, rhs, escape, .. } => first_of(
            first_of(
                compile_failure(*lhs, tables, resolver),
                compile_failure(*rhs, tables, resolver),
            ),
            optional_failure(escape, tables, resolver),
        ),
        ExprView::Literal(_) => None,
        ExprView::Column { table, column, .. } => reference_failure(tables, table, Some(column)),
        ExprView::RowId { table, .. } => reference_failure(tables, table, None),
        ExprView::Collate(inner, _) => compile_failure(*inner, tables, resolver),
        ExprView::Unary(_, inner) => compile_failure(*inner, tables, resolver),
        ExprView::Binary(lhs, _, rhs) => first_of(
            compile_failure(*lhs, tables, resolver),
            compile_failure(*rhs, tables, resolver),
        ),
        ExprView::FunctionCall { name, args, filter, .. } => first_of(
            first_of(
                call_failure(resolver, name),
                failure_among(args, args.len(), tables, resolver),
            ),
            optional_failure(filter, tables, resolver),
        ),
        ExprView::FunctionCallStar { name, filter, .. } => first_of(
            call_failure(resolver, name),
            optional_failure(filter, tables, resolver),
        ),
        ExprView::Cast { expr, size, .. } => first_of(
            compile_failure(*expr, tables, resolver),
            failure_among(size, size.len(), tables, resolver),
        ),
        ExprView::Exists(_) => None,
        ExprView::Subquery(_) => None,
        ExprView::InSelect { lhs, .. } => compile_failure(*lhs, tables, resolver),
        ExprView::InTable { lhs, args, .. } => first_of(
            compile_failure(*lhs, tables, resolver),
            failure_among(args, args.len(), tables, resolver),
        ),
        ExprView::IsNull(inner) => compile_failure(*inner, tables, resolver),
        ExprView::NotNull(inner) => compile_failure(*inner, tables, resolver),
        ExprView::Parenthesized(items) => failure_among(items, items.len(), tables, resolver),
        ExprView::Raise(_, message) => optional_failure(message, tables, resolver),
        ExprView::Register(_) => None,
        ExprView::Variable(_) => None,
    }
}

/// Why an expression that may be absent cannot be evaluated, if it cannot.
pub open spec fn optional_failure(
    e: Option<Box<ExprView>>,
    tables: Option<&TableReferences>,
    resolver: &Resolver,
) -> Option<LoweringErrorView>
    decreases e, 0nat,
{
    match e {
        Some(inner) => compile_failure(*inner, tables, resolver),
        None => None,
    }
}

/// The failure of the first of the first `n` expressions of a list that
/// cannot be evaluated, if there is one.
pub open spec fn failure_among(
    list: Seq<ExprView>,
    n: nat,
    tables: Option<&TableReferences>,
    resolver: &Resolver,
) -> Option<LoweringErrorView>
    decreases list, n,
{
    if n == 0 || n > list.len() {
        None
    } else {
        first_of(
            failure_among(list, (n - 1) as nat, tables, resolver),
            compile_failure(list[n - 1], tables, resolver),
        )
    }
}

/// The failure of the first of the first `n` pairs of a list of which an
/// expression cannot be evaluated, if there is one.
pub open spec fn first_failing_pair(
    list: Seq<(ExprView, ExprView)>,
    n: nat,
    tables: Option<&TableReferences>,
    resolver: &Resolver,
) -> Option<LoweringErrorView>
    decreases list, n,
{
    if n == 0 || n > list.len() {
        None
    } else {
        first_of(
            first_failing_pair(list, (n - 1) as nat, tables, resolver),
            first_of(
                compile_failure(list[n - 1].0, tables, resolver),
                compile_failure(list[n - 1].1, tables, resolver),
            ),
        )
    }
}

/// How many of the first `n` expressions of a list stand before the first
/// of them that cannot be evaluated: all `n` where there is none.
pub open spec fn evaluated_before_failure(
    list: Seq<ExprView>,
    n: nat,
    tables: Option<&TableReferences>,
    resolver: &Resolver,
) -> nat
    decreases n,
{
    if n == 0 || n > list.len() {
        0
    } else if failure_among(list, (n - 1) as nat, tables, resolver) is Some {
        evaluated_before_failure(list, (n - 1) as nat, tables, resolver)
    } else if compile_failure(list[n - 1], tables, resolver) is Some {
        (n - 1) as nat
    } else {
        n
    }
}

/// The failure of a list is that of its first expression that cannot be
/// evaluated: every expression before it can be. A list without failure has
/// no expression that cannot be evaluated.
pub proof fn lemma_first_failure(
    list: Seq<ExprView>,
    n: nat,
    tables: Option<&TableReferences>,
    resolver: &Resolver,
)
    requires
        n <= list.len(),
    ensures
        ({
            let done = evaluated_before_failure(list, n, tables, resolver);
            &&& done <= n
            &&& forall|j: int|
                0 <= j < done ==> compile_failure(#[trigger] list[j], tables, resolver) is None
            &&& match failure_among(list, n, tables, resolver) {
                Some(e) => done < n && compile_failure(list[done as int], tables, resolver)
                    == Some(e),
                None => done == n,
            }
        }),
    decreases n,
{
    if n > 0 {
        lemma_first_failure(list, (n - 1) as nat, tables, resolver);
    }
}

/// The expression at which a list fails is the one before which every
/// expression can be evaluated.
pub proof fn lemma_fails_at(
    list: Seq<ExprView>,
    at: nat,
    n: nat,
    tables: Option<&TableReferences>,
    resolver: &Resolver,
)
    requires
        at < n <= list.len(),
        failure_among(list, at, tables, resolver) is None,
        compile_failure(list[at as int], tables, resolver) is Some,
    ensures
        failure_among(list, n, tables, resolver) == compile_failure(
            list[at as int],
            tables,
            resolver,
        ),
        evaluated_before_failure(list, n, tables, resolver) == at,
    decreases n - at,
{
    if at + 1 < n {
        lemma_fails_at(list, at, (n - 1) as nat, tables, resolver);
    }
}

/// What a check returns on a failure or on none.
pub open spec fn verdict(failure: Option<LoweringErrorView>) -> Result<(), LoweringErrorView> {
    match failure {
        Some(e) => Err(e),
        None => Ok(()),
    }
}

/// A failure among the first expressions of a list is the failure of the
/// list.
pub proof fn lemma_failure_among_stays(
    list: Seq<ExprView>,
    i: nat,
    n: nat,
    tables: Option<&TableReferences>,
    resolver: &Resolver,
)
    requires
        i <= n <= list.len(),
        failure_among(list, i, tables, resolver) is Some,
    ensures
        failure_among(list, n, tables, resolver) == failure_among(list, i, tables, resolver),
    decreases n - i,
{
    if i < n {
        lemma_failure_among_stays(list, i, (n - 1) as nat, tables, resolver);
    }
}

/// A failure among the first pairs of a list is the failure of the list.
proof fn lemma_failing_pair_stays(
    list: Seq<(ExprView, ExprView)>,
    i: nat,
    n: nat,
    tables: Option<&TableReferences>,
    resolver: &Resolver,
)
    requires
        i <= n <= list.len(),
        first_failing_pair(list, i, tables, resolver) is Some,
    ensures
        first_failing_pair(list, n, tables, resolver) == first_failing_pair(
            list,
            i,
            tables,
            resolver,
        ),
    decreases n - i,
{
    if i < n {
        lemma_failing_pair_stays(list, i, (n - 1) as nat, tables, resolver);
    }
}

/// Checks that a column or, where no position is given, the row identifier
/// of a table can be read.
fn check_reference(tables: Option<&TableReferences>, table: usize, column: Option<usize>) -> (r:
    Result<(), LoweringError>)
    ensures
        outcome(r) == verdict(reference_failure(tables, table, column)),
{
    match tables {
        None => Err(LoweringError::UnknownTable),
        Some(known) => match known.find_table_by_internal_id(table) {
            None => Err(LoweringError::UnknownTable),
            Some(found) => match column {
                Some(position) => match found.get_column_at(position) {
                    Some(_) => Ok(()),
                    None => Err(LoweringError::ColumnIndexOutOfBounds),
                },
                None => Ok(()),
            },
        },
    }
}

/// Checks that the engine has the function that is called.
fn check_call(resolver: &Resolver, name: &String) -> (r: Result<(), LoweringError>)
    ensures
        outcome(r) == verdict(call_failure(resolver, name@)),
{
    if resolver.resolve_function(name.as_str()) {
        Ok(())
    } else {
        Err(LoweringError::UnknownFunction(name.clone()))
    }
}

/// Checks an expression that may be absent.
fn check_optional(
    e: &Option<Box<Expr>>,
    tables: Option<&TableReferences>,
    resolver: &Resolver,
) -> (r: Result<(), LoweringError>)
    ensures
        outcome(r) == verdict(optional_failure(Expr::optional_tree(*e), tables, resolver)),
    decreases e,
{
    match e {
        Some(inner) => check_expr(inner, tables, resolver),
        None => Ok(()),
    }
}

/// Checks the expressions of a list in order.
fn check_list(list: &Vec<Expr>, tables: Option<&TableReferences>, resolver: &Resolver) -> (r:
    Result<(), LoweringError>)
    ensures
        outcome(r) == verdict(
            failure_among(Expr::trees(*list), list.len() as nat, tables, resolver),
        ),
    decreases list,
{
    let ghost trees = Expr::trees(*list);
    let mut i: usize = 0;
    while i < list.len()
        invariant
            i <= list.len(),
            trees == Expr::trees(*list),
            failure_among(trees, i as nat, tables, resolver) is None,
        decreases list.len() - i,
    {
        assert(trees[i as int] == list[i as int]@);
        match check_expr(&list[i], tables, resolver) {
            Ok(()) => {},
            Err(e) => {
                proof {
                    lemma_failure_among_stays(
                        trees,
                        (i + 1) as nat,
                        list.len() as nat,
                        tables,
                        resolver,
                    );
                }
                return Err(e);
            },
        }
        i += 1;
    }
    Ok(())
}

/// Checks the expressions of a list of pairs in order.
fn check_pairs(
    list: &Vec<(Expr, Expr)>,
    tables: Option<&TableReferences>,
    resolver: &Resolver,
) -> (r: Result<(), LoweringError>)
    ensures
        outcome(r) == verdict(
            first_failing_pair(Expr::pair_trees(*list), list.len() as nat, tables, resolver),
        ),
    decreases list,
{
    let ghost trees = Expr::pair_trees(*list);
    let mut i: usize = 0;
    while i < list.len()
        invariant
            i <= list.len(),
            trees == Expr::pair_trees(*list),
            first_failing_pair(trees, i as nat, tables, resolver) is None,
        decreases list.len() - i,
    {
        assert(trees[i as int] == (list[i as int].0@, list[i as int].1@));
        let first = check_expr(&list[i].0, tables, resolver);
        let both = match first {
            Ok(()) => check_expr(&list[i].1, tables, resolver),
            Err(e) => Err(e),
        };
        match both {
            Ok(()) => {},
            Err(e) => {
                proof {
                    lemma_failing_pair_stays(
                        trees,
                        (i + 1) as nat,
                        list.len() as nat,
                        tables,
                        resolver,
                    );
                }
                return Err(e);
            },
        }
        i += 1;
    }
    Ok(())
}

/// Checks that an expression can be evaluated on the rows of the tables that
/// the query refers to, with the functions that the engine has. The first
/// part of the expression that fails gives the error.
pub fn check_expr(e: &Expr, tables: Option<&TableReferences>, resolver: &Resolver) -> (r: Result<
    (),
    LoweringError,
>)
    ensures
        outcome(r) == verdict(compile_failure(e@, tables, resolver)),
    decreases e,
{
    match e {
        Expr::Between { lhs, start, end, .. } => {
            match check_expr(lhs, tables, resolver) {
                Ok(()) => {},
                Err(e) => {
                    return Err(e);
                },
            }
            match check_expr(start, tables, resolver) {
                Ok(()) => {},
                Err(e) => {
                    return Err(e);
                },
            }
            check_expr(end, tables, resolver)
        },
        Expr::Case { base, when_then_pairs, else_expr } => {
            match check_optional(base, tables, resolver) {
                Ok(()) => {},
                Err(e) => {
                    return Err(e);
                },
            }
            match check_pairs(when_then_pairs, tables, resolver) {
                Ok(()) => {},
                Err(e) => {
                    return Err(e);
                },
            }
            check_optional(else_expr, tables, resolver)
        },
        Expr::InList { lhs, rhs, .. } => {
            match check_expr(lhs, tables, resolver) {
                Ok(()) => {},
                Err(e) => {
                    return Err(e);
                },
            }
            check_list(rhs, tables, resolver)
        },
        Expr::Like { lhs, rhs, escape, .. } => {
            match check_expr(lhs, tables, resolver) {
                Ok(()) => {},
                Err(e) => {
                    return Err(e);
                },
            }
            match check_expr(rhs, tables, resolver) {
                Ok(()) => {},
                Err(e) => {
                    return Err(e);
                },
            }
            check_optional(escape, tables, resolver)
        },
        Expr::Literal(_) => Ok(()),
        Expr::Column { table, column, .. } => check_reference(tables, *table, Some(*column)),
        Expr::RowId { table, .. } => check_reference(tables, *table, None),
        Expr::Collate(inner, _) => check_expr(inner, tables, resolver),
        Expr::Unary(_, inner) => check_expr(inner, tables, resolver),
        Expr::Binary(lhs, _, rhs) => {
            match check_expr(lhs, tables, resolver) {
                Ok(()) => {},
                Err(e) => {
                    return Err(e);
                },
            }
            check_expr(rhs, tables, resolver)
        },
        Expr::FunctionCall { name, args, filter, .. } => {
            match check_call(resolver, name) {
                Ok(()) => {},
                Err(e) => {
                    return Err(e);
                },
            }
            match check_list(args, tables, resolver) {
                Ok(()) => {},
                Err(e) => {
                    return Err(e);
                },
            }
            check_optional(filter, tables, resolver)
        },
        Expr::FunctionCallStar { name, filter, .. } => {
            match check_call(resolver, name) {
                Ok(()) => {},
                Err(e) => {
                    return Err(e);
                },
            }
            check_optional(filter, tables, resolver)
        },
        Expr::Cast { expr, size, .. } => {
            match check_expr(expr, tables, resolver) {
                Ok(()) => {},
                Err(e) => {
                    return Err(e);
                },
            }
            check_list(size, tables, resolver)
        },
        Expr::Exists(_) => Ok(()),
        Expr::Subquery(_) => Ok(()),
        Expr::InSelect { lhs, .. } => check_expr(lhs, tables, resolver),
        Expr::InTable { lhs, args, .. } => {
            match check_expr(lhs, tables, resolver) {
                Ok(()) => {},
                Err(e) => {
                    return Err(e);
                },
            }
            check_list(args, tables, resolver)
        },
        Expr::IsNull(inner) => check_expr(inner, tables, resolver),
        Expr::NotNull(inner) => check_expr(inner, tables, resolver),
        Expr::Parenthesized(items) => check_list(items, tables, resolver),
        Expr::Raise(_, message) => check_optional(message, tables, resolver),
        Expr::Register(_) => Ok(()),
        Expr::Variable(_) => Ok(()),
    }
}

} // verus!
