//! Collating sequences, the registry that resolves their names, and the
//! collation that a sort key is compared with.

use vstd::prelude::*;
use turso_sqlite3_parser::ast::SortOrder;
use crate::error::outcome;
use crate::error::LoweringError;
use crate::error::LoweringErrorView;
use crate::expr::Expr;
use crate::expr::ExprView;
use crate::schema::TableReferences;

verus! {

/// A comparison function for text values.
#[derive(Debug, Clone, Copy, PartialEq, Eq, Structural)]
pub enum CollationSeq {
    /// Compares the bytes as they are. The default.
    Binary,
    /// Like `Binary`, after folding the 26 upper case letters of ASCII.
    NoCase,
    /// Like `Binary`, ignoring trailing spaces.
    Rtrim,
}

/// The lower case form of an ASCII letter; any other character is itself.
pub open spec fn ascii_lower(c: char) -> char {
    if 'A' <= c <= 'Z' {
        ((c as u32) + 32) as char
    } else {
        c
    }
}

/// Two names are the same up to the case of their ASCII letters.
pub open spec fn same_name(a: Seq<char>, b: Seq<char>) -> bool {
    &&& a.len() == b.len()
    &&& forall|i: int| 0 <= i < a.len() ==> ascii_lower(#[trigger] a[i]) == ascii_lower(b[i])
}

/// The registry: the collation that a name stands for, if any.
pub open spec fn collation_named(name: Seq<char>) -> Option<CollationSeq> {
    if same_name(name, "binary"@) {
        Some(CollationSeq::Binary)
    } else if same_name(name, "nocase"@) {
        Some(CollationSeq::NoCase)
    } else if same_name(name, "rtrim"@) {
        Some(CollationSeq::Rtrim)
    } else {
        None
    }
}

fn lower(c: char) -> (r: char)
    ensures
        r == ascii_lower(c),
{
    if 'A' <= c && c <= 'Z' {
        let code: u32 = c as u32 + 32;
        code as u8 as char
    } else {
        c
    }
}

/// Whether two names are the same up to the case of their ASCII letters.
pub fn names_match(a: &str, b: &str) -> (r: bool)
    ensures
        r == same_name(a@, b@),
{
    let n: usize = a.unicode_len();
    if n != b.unicode_len() {
        return false;
    }
    let mut i: usize = 0;
    while i < n
        invariant
            i <= n,
            n == a@.len(),
            n == b@.len(),
            forall|j: int| 0 <= j < i ==> ascii_lower(#[trigger] a@[j]) == ascii_lower(b@[j]),
        decreases n - i,
    {
        if lower(a.get_char(i)) != lower(b.get_char(i)) {
            return false;
        }
        i += 1;
    }
    true
}

impl CollationSeq {
    /// Resolves a collation name, whatever the case of its letters.
    pub fn new(collation: &str) -> (r: Result<CollationSeq, LoweringError>)
        ensures
            match collation_named(collation@) {
                Some(c) => r == Ok::<CollationSeq, LoweringError>(c),
                None => r is Err && r->Err_0@ == LoweringErrorView::UnknownCollation(collation@),
            },
    {
        if names_match(collation, "binary") {
            Ok(CollationSeq::Binary)
        } else if names_match(collation, "nocase") {
            Ok(CollationSeq::NoCase)
        } else if names_match(collation, "rtrim") {
            Ok(CollationSeq::Rtrim)
        } else {
            Err(LoweringError::UnknownCollation(collation.to_owned()))
        }
    }
}

impl Default for CollationSeq {
    fn default() -> (r: Self)
        ensures
            r == CollationSeq::Binary,
    {
        CollationSeq::Binary
    }
}

/// Whether the table that a column reference names is among the referenced
/// tables. Any other expression passes.
pub open spec fn refers_to_known_table(expr: ExprView, tables: &TableReferences) -> bool {
    expr matches ExprView::Column { table, .. } ==> tables.table_with_id(table) is Some
}

/// The collation that a column's values are compared with: the one that the
/// column was declared with, and the binary one where it was declared with
/// none.
pub open spec fn column_collation(declared: Option<CollationSeq>) -> CollationSeq {
    match declared {
        Some(c) => c,
        None => CollationSeq::Binary,
    }
}

/// The collation that a sort key is compared with. An explicit `COLLATE`
/// decides; without one, a key that is a column has the collation of the
/// column; any other key is compared byte by byte. Every key has one.
pub open spec fn key_collation(expr: ExprView, tables: &TableReferences) -> Result<
    Option<CollationSeq>,
    LoweringErrorView,
>
    recommends
        refers_to_known_table(expr, tables),
{
    match expr {
        ExprView::Collate(_, name) => match collation_named(name) {
            Some(c) => Ok(Some(c)),
            None => Err(LoweringErrorView::UnknownCollation(name)),
        },
        ExprView::Column { table, column, .. } => match tables.table_with_id(table) {
            Some(t) => match t.column_at(column) {
                Some(c) => Ok(Some(column_collation(c.collation))),
                None => Err(LoweringErrorView::ColumnIndexOutOfBounds),
            },
            None => arbitrary(),
        },
        _ => Ok(Some(CollationSeq::Binary)),
    }
}

/// The collations of a list of sort keys, in order, or the error of the first
/// key that has none.
pub open spec fn key_collations(order_by: Seq<(Expr, SortOrder)>, tables: &TableReferences) -> Result<
    Seq<Option<CollationSeq>>,
    LoweringErrorView,
>
    decreases order_by.len(),
{
    if order_by.len() == 0 {
        Ok(Seq::empty())
    } else {
        match key_collations(order_by.drop_last(), tables) {
            Ok(before) => match key_collation(order_by.last().0@, tables) {
                Ok(c) => Ok(before.push(c)),
                Err(e) => Err(e),
            },
            Err(e) => Err(e),
        }
    }
}

/// The collations of a list of sort keys hold one entry for each key, each
/// what `key_collation` gives for that key, which is a named collation; the
/// error of a list is that of a key before which every key has a collation.
pub proof fn lemma_key_collations(order_by: Seq<(Expr, SortOrder)>, tables: &TableReferences)
    ensures
        match key_collations(order_by, tables) {
            Ok(collations) => {
                &&& collations.len() == order_by.len()
                &&& forall|i: int|
                    0 <= i < order_by.len() ==> key_collation(
                        (#[trigger] order_by[i]).0@,
                        tables,
                    ) == Ok::<Option<CollationSeq>, LoweringErrorView>(collations[i])
                &&& forall|i: int|
                    0 <= i < order_by.len() && refers_to_known_table(
                        (#[trigger] order_by[i]).0@,
                        tables,
                    ) ==> collations[i] is Some
            },
            Err(e) => exists|i: int|
                {
                    &&& 0 <= i < order_by.len()
                    &&& key_collation((#[trigger] order_by[i]).0@, tables) == Err::<
                        Option<CollationSeq>,
                        LoweringErrorView,
                    >(e)
                    &&& forall|j: int|
                        0 <= j < i ==> key_collation((#[trigger] order_by[j]).0@, tables) is Ok
                },
        },
    decreases order_by.len(),
{
    if order_by.len() > 0 {
        let before = order_by.drop_last();
        lemma_key_collations(before, tables);
        match key_collations(before, tables) {
            Ok(collations) => {
                assert forall|j: int| 0 <= j < before.len() implies key_collation(
                    (#[trigger] order_by[j]).0@,
                    tables,
                ) is Ok by {
                    assert(before[j] == order_by[j]);
                }
                match key_collation(order_by.last().0@, tables) {
                    Ok(c) => {
                        assert forall|i: int| 0 <= i < order_by.len() implies key_collation(
                            (#[trigger] order_by[i]).0@,
                            tables,
                        ) == Ok::<Option<CollationSeq>, LoweringErrorView>(
                            collations.push(c)[i],
                        ) by {
                            if i < before.len() {
                                assert(before[i] == order_by[i]);
                            }
                        }
                    },
                    Err(e) => {
                        assert(order_by[order_by.len() - 1] == order_by.last());
                    },
                }
            },
            Err(e) => {
                let i = choose|i: int|
                    {
                        &&& 0 <= i < before.len()
                        &&& key_collation((#[trigger] before[i]).0@, tables) == Err::<
                            Option<CollationSeq>,
                            LoweringErrorView,
                        >(e)
                        &&& forall|j: int|
                            0 <= j < i ==> key_collation((#[trigger] before[j]).0@, tables) is Ok
                    };
                assert(before[i] == order_by[i]);
                assert forall|j: int| 0 <= j < i implies key_collation(
                    (#[trigger] order_by[j]).0@,
                    tables,
                ) is Ok by {
                    assert(before[j] == order_by[j]);
                }
            },
        }
    }
}

/// Resolves the collation that a sort key is compared with.
pub fn resolve_collation(expr: &Expr, referenced_tables: &TableReferences) -> (r: Result<
    Option<CollationSeq>,
    LoweringError,
>)
    requires
        refers_to_known_table(expr@, referenced_tables),
    ensures
        outcome(r) == key_collation(expr@, referenced_tables),
{
    match expr {
        Expr::Collate(_, collation_name) => match CollationSeq::new(collation_name.as_str()) {
            Ok(c) => Ok(Some(c)),
            Err(e) => Err(e),
        },
        Expr::Column { table, column, .. } => {
            let table = referenced_tables.find_table_by_internal_id(*table).unwrap();
            match table.get_column_at(*column) {
                Some(table_column) => match table_column.collation {
                    Some(declared) => Ok(Some(declared)),
                    None => Ok(Some(CollationSeq::default())),
                },
                None => Err(LoweringError::ColumnIndexOutOfBounds),
            }
        },
        _ => Ok(Some(CollationSeq::default())),
    }
}

/// The error of the first keys of a list is the error of the whole list.
pub proof fn lemma_collations_fail_with_prefix(
    order_by: Seq<(Expr, SortOrder)>,
    tables: &TableReferences,
    n: int,
)
    requires
        0 <= n <= order_by.len(),
        key_collations(order_by.take(n), tables) is Err,
    ensures
        key_collations(order_by, tables) == key_collations(order_by.take(n), tables),
    decreases order_by.len() - n,
{
    if n < order_by.len() {
        let next = order_by.take(n + 1);
        assert(next.drop_last() == order_by.take(n));
        lemma_collations_fail_with_prefix(order_by, tables, n + 1);
    } else {
        assert(order_by.take(n) == order_by);
    }
}

/// A sort key that carries `COLLATE` is compared with the collation it names,
/// whatever it annotates, be it a column with a declared collation of its own.
/// A key that is a column is compared with the collation the column was
/// declared with, and byte by byte where it was declared with none. Any other
/// key is compared byte by byte. So every key that has a collation has one
/// that is named.
pub proof fn lemma_collation_precedence(expr: ExprView, tables: &TableReferences)
    requires
        refers_to_known_table(expr, tables),
    ensures
        expr matches ExprView::Collate(_, name) ==> key_collation(expr, tables) == (
        match collation_named(name) {
            Some(c) => Ok::<Option<CollationSeq>, LoweringErrorView>(Some(c)),
            None => Err(LoweringErrorView::UnknownCollation(name)),
        }),
        expr matches ExprView::Column { table, column, .. } ==> key_collation(expr, tables) == (
        match tables.table_with_id(table)->Some_0.column_at(column) {
            Some(c) => Ok::<Option<CollationSeq>, LoweringErrorView>(
                Some(
                    match c.collation {
                        Some(declared) => declared,
                        None => CollationSeq::Binary,
                    },
                ),
            ),
            None => Err(LoweringErrorView::ColumnIndexOutOfBounds),
        }),
        !(expr is Collate) && !(expr is Column) ==> key_collation(expr, tables) == Ok::<
            Option<CollationSeq>,
            LoweringErrorView,
        >(Some(CollationSeq::Binary)),
        key_collation(expr, tables) matches Ok(c) ==> c is Some,
{
}

} // verus!
