//! Expression trees, their mathematical value, and structural equivalence.
//!
//! An [`Expr`] is what the planner hands to the lowering once names are bound:
//! columns are referred to by table identifier and position. Two expressions
//! are equivalent when they are the same tree, which is what
//! [`exprs_are_equivalent`] decides and what `a@ == b@` says in contracts.

use vstd::prelude::*;

verus! {

/// Binary operators.
#[derive(Debug, Clone, Copy, PartialEq, Eq, Structural)]
pub enum Operator {
    Add,
    And,
    ArrowRight,
    ArrowRightShift,
    BitwiseAnd,
    BitwiseOr,
    BitwiseNot,
    Concat,
    Equals,
    Divide,
    Greater,
    GreaterEquals,
    Is,
    IsNot,
    LeftShift,
    Less,
    LessEquals,
    Modulus,
    Multiply,
    NotEquals,
    Or,
    RightShift,
    Subtract,
}

/// Unary operators.
#[derive(Debug, Clone, Copy, PartialEq, Eq, Structural)]
pub enum UnaryOperator {
    BitwiseNot,
    Negative,
    Not,
    Positive,
}

/// The operators that match text against a pattern.
#[derive(Debug, Clone, Copy, PartialEq, Eq, Structural)]
pub enum LikeOperator {
    Glob,
    Like,
    Match,
    Regexp,
}

/// What `RAISE` asks for.
#[derive(Debug, Clone, Copy, PartialEq, Eq, Structural)]
pub enum ResolveType {
    Rollback,
    Abort,
    Fail,
    Ignore,
    Replace,
}

/// A literal, kept as the text that was written.
#[derive(Debug, PartialEq, Eq)]
pub enum Literal {
    Numeric(String),
    String(String),
    Blob(String),
    Keyword(String),
    Null,
    CurrentDate,
    CurrentTime,
    CurrentTimestamp,
}

/// The mathematical value of a [`Literal`].
pub enum LiteralView {
    Numeric(Seq<char>),
    String(Seq<char>),
    Blob(Seq<char>),
    Keyword(Seq<char>),
    Null,
    CurrentDate,
    CurrentTime,
    CurrentTimestamp,
}

impl View for Literal {
    type V = LiteralView;

    open spec fn view(&self) -> LiteralView {
        match self {
            Literal::Numeric(s) => LiteralView::Numeric(s@),
            Literal::String(s) => LiteralView::String(s@),
            Literal::Blob(s) => LiteralView::Blob(s@),
            Literal::Keyword(s) => LiteralView::Keyword(s@),
            Literal::Null => LiteralView::Null,
            Literal::CurrentDate => LiteralView::CurrentDate,
            Literal::CurrentTime => LiteralView::CurrentTime,
            Literal::CurrentTimestamp => LiteralView::CurrentTimestamp,
        }
    }
}

impl Clone for Literal {
    fn clone(&self) -> (r: Self)
        ensures
            r@ == self@,
    {
        match self {
            Literal::Numeric(s) => Literal::Numeric(s.clone()),
            Literal::String(s) => Literal::String(s.clone()),
            Literal::Blob(s) => Literal::Blob(s.clone()),
            Literal::Keyword(s) => Literal::Keyword(s.clone()),
            Literal::Null => Literal::Null,
            Literal::CurrentDate => Literal::CurrentDate,
            Literal::CurrentTime => Literal::CurrentTime,
            Literal::CurrentTimestamp => Literal::CurrentTimestamp,
        }
    }
}

/// An expression with its names bound.
#[derive(Debug, PartialEq, Eq)]
pub enum Expr {
    /// `BETWEEN`, or `NOT BETWEEN` where `not` is set.
    Between { lhs: Box<Expr>, not: bool, start: Box<Expr>, end: Box<Expr> },
    /// `CASE`, with the operand and the `ELSE` branch where they were given.
    Case { base: Option<Box<Expr>>, when_then_pairs: Vec<(Expr, Expr)>, else_expr: Option<Box<Expr>> },
    /// `IN` a list of values, or `NOT IN` where `not` is set.
    InList { lhs: Box<Expr>, not: bool, rhs: Vec<Expr> },
    /// A match of text against a pattern, with the escape character where
    /// one was given.
    Like { lhs: Box<Expr>, not: bool, op: LikeOperator, rhs: Box<Expr>, escape: Option<Box<Expr>> },
    /// A literal.
    Literal(Literal),
    /// A column of a referenced table, by the table's identifier and the
    /// column's position in it.
    Column { database: Option<usize>, table: usize, column: usize, is_rowid_alias: bool },
    /// The row identifier of a referenced table.
    RowId { database: Option<usize>, table: usize },
    /// An expression annotated with `COLLATE` and a collation name.
    Collate(Box<Expr>, String),
    /// A unary operator and its operand.
    Unary(UnaryOperator, Box<Expr>),
    /// A binary operator between its operands.
    Binary(Box<Expr>, Operator, Box<Expr>),
    /// A function applied to arguments, with the `FILTER` condition where
    /// one was given. An `ORDER BY` among the arguments and an `OVER` clause
    /// are kept as the parser writes them out.
    FunctionCall {
        name: String,
        distinct: bool,
        args: Vec<Expr>,
        order_by: Option<String>,
        filter: Option<Box<Expr>>,
        over: Option<String>,
    },
    /// A function applied to `*`, with `FILTER` and `OVER` as above.
    FunctionCallStar { name: String, filter: Option<Box<Expr>>, over: Option<String> },
    /// A cast, with the type name if one was given, and the one or two sizes
    /// of a sized type.
    Cast { expr: Box<Expr>, target_type: Option<String>, size: Vec<Expr> },
    /// `EXISTS` over a subquery, which is kept as the parser writes it out.
    Exists(String),
    /// A subquery in the place of a value, kept as the parser writes it out.
    Subquery(String),
    /// `IN` a subquery, or `NOT IN` where `not` is set.
    InSelect { lhs: Box<Expr>, not: bool, rhs: String },
    /// `IN` a table or a table function with its arguments, or `NOT IN`.
    InTable { lhs: Box<Expr>, not: bool, rhs: String, args: Vec<Expr> },
    /// `RAISE`, with the message where one was given.
    Raise(ResolveType, Option<Box<Expr>>),
    /// A value that is in a register already.
    Register(usize),
    /// `IS NULL`.
    IsNull(Box<Expr>),
    /// `NOT NULL`.
    NotNull(Box<Expr>),
    /// Expressions between parentheses.
    Parenthesized(Vec<Expr>),
    /// A bound parameter.
    Variable(String),
}

/// The mathematical value of an [`Expr`]: the same tree over sequences.
pub enum ExprView {
    Between { lhs: Box<ExprView>, not: bool, start: Box<ExprView>, end: Box<ExprView> },
    Case {
        base: Option<Box<ExprView>>,
        when_then_pairs: Seq<(ExprView, ExprView)>,
        else_expr: Option<Box<ExprView>>,
    },
    InList { lhs: Box<ExprView>, not: bool, rhs: Seq<ExprView> },
    Like {
        lhs: Box<ExprView>,
        not: bool,
        op: LikeOperator,
        rhs: Box<ExprView>,
        escape: Option<Box<ExprView>>,
    },
    Literal(LiteralView),
    Column { database: Option<usize>, table: usize, column: usize, is_rowid_alias: bool },
    RowId { database: Option<usize>, table: usize },
    Collate(Box<ExprView>, Seq<char>),
    Unary(UnaryOperator, Box<ExprView>),
    Binary(Box<ExprView>, Operator, Box<ExprView>),
    FunctionCall {
        name: Seq<char>,
        distinct: bool,
        args: Seq<ExprView>,
        order_by: Option<Seq<char>>,
        filter: Option<Box<ExprView>>,
        over: Option<Seq<char>>,
    },
    FunctionCallStar { name: Seq<char>, filter: Option<Box<ExprView>>, over: Option<Seq<char>> },
    Cast { expr: Box<ExprView>, target_type: Option<Seq<char>>, size: Seq<ExprView> },
    Exists(Seq<char>),
    Subquery(Seq<char>),
    InSelect { lhs: Box<ExprView>, not: bool, rhs: Seq<char> },
    InTable { lhs: Box<ExprView>, not: bool, rhs: Seq<char>, args: Seq<ExprView> },
    Raise(ResolveType, Option<Box<ExprView>>),
    Register(usize),
    IsNull(Box<ExprView>),
    NotNull(Box<ExprView>),
    Parenthesized(Seq<ExprView>),
    Variable(Seq<char>),
}

/// The value of an optional name.
pub open spec fn name_view(name: Option<String>) -> Option<Seq<char>> {
    match name {
        Some(s) => Some(s@),
        None => None,
    }
}

impl Expr {
    /// The tree that this expression is.
    pub open spec fn tree(&self) -> ExprView
        decreases self,
    {
        match self {
            Expr::Between { lhs, not, start, end } => ExprView::Between {
                lhs: Box::new(lhs.tree()),
                not: *not,
                start: Box::new(start.tree()),
                end: Box::new(end.tree()),
            },
            Expr::Case { base, when_then_pairs, else_expr } => ExprView::Case {
                base: Self::optional_tree(*base),
                when_then_pairs: Self::pair_trees(*when_then_pairs),
                else_expr: Self::optional_tree(*else_expr),
            },
            Expr::InList { lhs, not, rhs } => ExprView::InList {
                lhs: Box::new(lhs.tree()),
                not: *not,
                rhs: Self::trees(*rhs),
            },
            Expr::Like { lhs, not, op, rhs, escape } => ExprView::Like {
                lhs: Box::new(lhs.tree()),
                not: *not,
                op: *op,
                rhs: Box::new(rhs.tree()),
                escape: Self::optional_tree(*escape),
            },
            Expr::Literal(l) => ExprView::Literal(l@),
            Expr::Column { database, table, column, is_rowid_alias } => ExprView::Column {
                database: *database,
                table: *table,
                column: *column,
                is_rowid_alias: *is_rowid_alias,
            },
            Expr::RowId { database, table } => ExprView::RowId {
                database: *database,
                table: *table,
            },
            Expr::Collate(inner, name) => ExprView::Collate(Box::new(inner.tree()), name@),
            Expr::Unary(op, inner) => ExprView::Unary(*op, Box::new(inner.tree())),
            Expr::Binary(lhs, op, rhs) => ExprView::Binary(
                Box::new(lhs.tree()),
                *op,
                Box::new(rhs.tree()),
            ),
            Expr::FunctionCall { name, distinct, args, order_by, filter, over } => {
                ExprView::FunctionCall {
                    name: name@,
                    distinct: *distinct,
                    args: Self::trees(*args),
                    order_by: name_view(*order_by),
                    filter: Self::optional_tree(*filter),
                    over: name_view(*over),
                }
            },
            Expr::FunctionCallStar { name, filter, over } => ExprView::FunctionCallStar {
                name: name@,
                filter: Self::optional_tree(*filter),
                over: name_view(*over),
            },
            Expr::Cast { expr, target_type, size } => ExprView::Cast {
                expr: Box::new(expr.tree()),
                target_type: name_view(*target_type),
                size: Self::trees(*size),
            },
            Expr::Exists(query) => ExprView::Exists(query@),
            Expr::Subquery(query) => ExprView::Subquery(query@),
            Expr::InSelect { lhs, not, rhs } => ExprView::InSelect {
                lhs: Box::new(lhs.tree()),
                not: *not,
                rhs: rhs@,
            },
            Expr::InTable { lhs, not, rhs, args } => ExprView::InTable {
                lhs: Box::new(lhs.tree()),
                not: *not,
                rhs: rhs@,
                args: Self::trees(*args),
            },
            Expr::Raise(resolve, message) => ExprView::Raise(
                *resolve,
                Self::optional_tree(*message),
            ),
            Expr::Register(reg) => ExprView::Register(*reg),
            Expr::IsNull(inner) => ExprView::IsNull(Box::new(inner.tree())),
            Expr::NotNull(inner) => ExprView::NotNull(Box::new(inner.tree())),
            Expr::Parenthesized(items) => ExprView::Parenthesized(Self::trees(*items)),
            Expr::Variable(name) => ExprView::Variable(name@),
        }
    }

    /// The tree of an expression that may be absent.
    pub open spec fn optional_tree(e: Option<Box<Expr>>) -> Option<Box<ExprView>>
        decreases e,
    {
        match e {
            Some(inner) => Some(Box::new(inner.tree())),
            None => None,
        }
    }

    /// The trees of a list of pairs of expressions, in order.
    pub open spec fn pair_trees(list: Vec<(Expr, Expr)>) -> Seq<(ExprView, ExprView)>
        decreases list,
    {
        Seq::new(
            list.len() as nat,
            |i: int|
                if 0 <= i < list.len() {
                    (list[i].0.tree(), list[i].1.tree())
                } else {
                    (ExprView::Literal(LiteralView::Null), ExprView::Literal(LiteralView::Null))
                },
        )
    }

    /// The trees of a list of expressions, in order.
    pub open spec fn trees(list: Vec<Expr>) -> Seq<ExprView>
        decreases list,
    {
        Seq::new(
            list.len() as nat,
            |i: int|
                if 0 <= i < list.len() {
                    list[i].tree()
                } else {
                    ExprView::Literal(LiteralView::Null)
                },
        )
    }
}

impl View for Expr {
    type V = ExprView;

    open spec fn view(&self) -> ExprView {
        self.tree()
    }
}

fn same_index(a: &Option<usize>, b: &Option<usize>) -> (r: bool)
    ensures
        r == (*a == *b),
{
    match a {
        Some(x) => match b {
            Some(y) => *x == *y,
            None => false,
        },
        None => b.is_none(),
    }
}

fn same_name(a: &Option<String>, b: &Option<String>) -> (r: bool)
    ensures
        r == (name_view(*a) == name_view(*b)),
{
    match a {
        Some(x) => match b {
            Some(y) => *x == *y,
            None => false,
        },
        None => b.is_none(),
    }
}

fn same_literal(a: &Literal, b: &Literal) -> (r: bool)
    ensures
        r == (a@ == b@),
{
    match a {
        Literal::Numeric(x) => match b {
            Literal::Numeric(y) => *x == *y,
            _ => false,
        },
        Literal::String(x) => match b {
            Literal::String(y) => *x == *y,
            _ => false,
        },
        Literal::Blob(x) => match b {
            Literal::Blob(y) => *x == *y,
            _ => false,
        },
        Literal::Keyword(x) => match b {
            Literal::Keyword(y) => *x == *y,
            _ => false,
        },
        Literal::Null => match b {
            Literal::Null => true,
            _ => false,
        },
        Literal::CurrentDate => match b {
            Literal::CurrentDate => true,
            _ => false,
        },
        Literal::CurrentTime => match b {
            Literal::CurrentTime => true,
            _ => false,
        },
        Literal::CurrentTimestamp => match b {
            Literal::CurrentTimestamp => true,
            _ => false,
        },
    }
}

/// Whether two expressions that may be absent are both absent or equivalent.
fn same_optional(a: &Option<Box<Expr>>, b: &Option<Box<Expr>>) -> (r: bool)
    ensures
        r == (Expr::optional_tree(*a) == Expr::optional_tree(*b)),
    decreases a,
{
    match a {
        Some(x) => match b {
            Some(y) => exprs_are_equivalent(x, y),
            None => false,
        },
        None => b.is_none(),
    }
}

/// Whether two lists hold pairs of equivalent expressions at every position.
fn same_pairs(a: &Vec<(Expr, Expr)>, b: &Vec<(Expr, Expr)>) -> (r: bool)
    ensures
        r == (Expr::pair_trees(*a) == Expr::pair_trees(*b)),
    decreases a,
{
    if a.len() != b.len() {
        assert(Expr::pair_trees(*a).len() != Expr::pair_trees(*b).len());
        return false;
    }
    let mut i: usize = 0;
    while i < a.len()
        invariant
            i <= a.len(),
            a.len() == b.len(),
            forall|j: int| 0 <= j < i ==> Expr::pair_trees(*a)[j] == Expr::pair_trees(*b)[j],
        decreases a.len() - i,
    {
        if !exprs_are_equivalent(&a[i].0, &b[i].0) || !exprs_are_equivalent(&a[i].1, &b[i].1) {
            assert(Expr::pair_trees(*a)[i as int] != Expr::pair_trees(*b)[i as int]);
            return false;
        }
        i += 1;
    }
    assert(Expr::pair_trees(*a) =~= Expr::pair_trees(*b));
    true
}

/// Whether two lists hold equivalent expressions at every position.
fn same_list(a: &Vec<Expr>, b: &Vec<Expr>) -> (r: bool)
    ensures
        r == (Expr::trees(*a) == Expr::trees(*b)),
    decreases a,
{
    if a.len() != b.len() {
        assert(Expr::trees(*a).len() != Expr::trees(*b).len());
        return false;
    }
    let mut i: usize = 0;
    while i < a.len()
        invariant
            i <= a.len(),
            a.len() == b.len(),
            forall|j: int| 0 <= j < i ==> (#[trigger] a[j])@ == b[j]@,
        decreases a.len() - i,
    {
        if !exprs_are_equivalent(&a[i], &b[i]) {
            assert(Expr::trees(*a)[i as int] == a[i as int]@);
            assert(Expr::trees(*b)[i as int] == b[i as int]@);
            return false;
        }
        i += 1;
    }
    assert(Expr::trees(*a) =~= Expr::trees(*b));
    true
}

/// Decides whether two expressions are structurally equivalent: the same
/// kind of node, with equal operators, names and literals, over equivalent
/// operands in the same order.
pub fn exprs_are_equivalent(a: &Expr, b: &Expr) -> (r: bool)
    ensures
        r == (a@ == b@),
    decreases a,
{
    match a {
        Expr::Between { lhs: l1, not: n1, start: s1, end: e1 } => match b {
            Expr::Between { lhs: l2, not: n2, start: s2, end: e2 } => {
                *n1 == *n2 && exprs_are_equivalent(l1, l2) && exprs_are_equivalent(s1, s2)
                    && exprs_are_equivalent(e1, e2)
            },
            _ => false,
        },
        Expr::Case { base: b1, when_then_pairs: w1, else_expr: e1 } => match b {
            Expr::Case { base: b2, when_then_pairs: w2, else_expr: e2 } => {
                same_optional(b1, b2) && same_pairs(w1, w2) && same_optional(e1, e2)
            },
            _ => false,
        },
        Expr::InList { lhs: l1, not: n1, rhs: r1 } => match b {
            Expr::InList { lhs: l2, not: n2, rhs: r2 } => {
                *n1 == *n2 && exprs_are_equivalent(l1, l2) && same_list(r1, r2)
            },
            _ => false,
        },
        Expr::Like { lhs: l1, not: n1, op: o1, rhs: r1, escape: e1 } => match b {
            Expr::Like { lhs: l2, not: n2, op: o2, rhs: r2, escape: e2 } => {
                *n1 == *n2 && *o1 == *o2 && exprs_are_equivalent(l1, l2) && exprs_are_equivalent(
                    r1,
                    r2,
                ) && same_optional(e1, e2)
            },
            _ => false,
        },
        Expr::Literal(x) => match b {
            Expr::Literal(y) => same_literal(x, y),
            _ => false,
        },
        Expr::Column { database: d1, table: t1, column: c1, is_rowid_alias: r1 } => match b {
            Expr::Column { database: d2, table: t2, column: c2, is_rowid_alias: r2 } => {
                same_index(d1, d2) && *t1 == *t2 && *c1 == *c2 && *r1 == *r2
            },
            _ => false,
        },
        Expr::RowId { database: d1, table: t1 } => match b {
            Expr::RowId { database: d2, table: t2 } => same_index(d1, d2) && *t1 == *t2,
            _ => false,
        },
        Expr::Collate(x, n1) => match b {
            Expr::Collate(y, n2) => *n1 == *n2 && exprs_are_equivalent(x, y),
            _ => false,
        },
        Expr::Unary(o1, x) => match b {
            Expr::Unary(o2, y) => *o1 == *o2 && exprs_are_equivalent(x, y),
            _ => false,
        },
        Expr::Binary(l1, o1, r1) => match b {
            Expr::Binary(l2, o2, r2) => {
                *o1 == *o2 && exprs_are_equivalent(l1, l2) && exprs_are_equivalent(r1, r2)
            },
            _ => false,
        },
        Expr::FunctionCall { name: n1, distinct: d1, args: a1, order_by: o1, filter: f1, over: w1 } => match b {
            Expr::FunctionCall {
                name: n2,
                distinct: d2,
                args: a2,
                order_by: o2,
                filter: f2,
                over: w2,
            } => {
                *n1 == *n2 && *d1 == *d2 && same_list(a1, a2) && same_name(o1, o2)
                    && same_optional(f1, f2) && same_name(w1, w2)
            },
            _ => false,
        },
        Expr::FunctionCallStar { name: n1, filter: f1, over: w1 } => match b {
            Expr::FunctionCallStar { name: n2, filter: f2, over: w2 } => {
                *n1 == *n2 && same_optional(f1, f2) && same_name(w1, w2)
            },
            _ => false,
        },
        Expr::Cast { expr: x, target_type: t1, size: s1 } => match b {
            Expr::Cast { expr: y, target_type: t2, size: s2 } => {
                same_name(t1, t2) && exprs_are_equivalent(x, y) && same_list(s1, s2)
            },
            _ => false,
        },
        Expr::Exists(q1) => match b {
            Expr::Exists(q2) => *q1 == *q2,
            _ => false,
        },
        Expr::Subquery(q1) => match b {
            Expr::Subquery(q2) => *q1 == *q2,
            _ => false,
        },
        Expr::InSelect { lhs: l1, not: n1, rhs: r1 } => match b {
            Expr::InSelect { lhs: l2, not: n2, rhs: r2 } => {
                *n1 == *n2 && *r1 == *r2 && exprs_are_equivalent(l1, l2)
            },
            _ => false,
        },
        Expr::InTable { lhs: l1, not: n1, rhs: r1, args: a1 } => match b {
            Expr::InTable { lhs: l2, not: n2, rhs: r2, args: a2 } => {
                *n1 == *n2 && *r1 == *r2 && exprs_are_equivalent(l1, l2) && same_list(a1, a2)
            },
            _ => false,
        },
        Expr::Raise(r1, m1) => match b {
            Expr::Raise(r2, m2) => *r1 == *r2 && same_optional(m1, m2),
            _ => false,
        },
        Expr::Register(r1) => match b {
            Expr::Register(r2) => *r1 == *r2,
            _ => false,
        },
        Expr::IsNull(x) => match b {
            Expr::IsNull(y) => exprs_are_equivalent(x, y),
            _ => false,
        },
        Expr::NotNull(x) => match b {
            Expr::NotNull(y) => exprs_are_equivalent(x, y),
            _ => false,
        },
        Expr::Parenthesized(x) => match b {
            Expr::Parenthesized(y) => same_list(x, y),
            _ => false,
        },
        Expr::Variable(n1) => match b {
            Expr::Variable(n2) => *n1 == *n2,
            _ => false,
        },
    }
}

/// A copy of a name that may be absent.
fn copy_name(name: &Option<String>) -> (r: Option<String>)
    ensures
        name_view(r) == name_view(*name),
{
    match name {
        Some(n) => Some(n.clone()),
        None => None,
    }
}

/// A copy of an expression that may be absent.
fn copy_optional(e: &Option<Box<Expr>>) -> (r: Option<Box<Expr>>)
    ensures
        Expr::optional_tree(r) == Expr::optional_tree(*e),
    decreases e,
{
    match e {
        Some(inner) => Some(Box::new(copy_expr(inner))),
        None => None,
    }
}

/// A copy of a list of pairs of expressions.
fn copy_pairs(list: &Vec<(Expr, Expr)>) -> (r: Vec<(Expr, Expr)>)
    ensures
        Expr::pair_trees(r) == Expr::pair_trees(*list),
    decreases list,
{
    let mut out: Vec<(Expr, Expr)> = Vec::new();
    let mut i: usize = 0;
    while i < list.len()
        invariant
            i <= list.len(),
            out.len() == i,
            forall|j: int| 0 <= j < i ==> Expr::pair_trees(out)[j] == Expr::pair_trees(*list)[j],
        decreases list.len() - i,
    {
        let ghost before = out;
        out.push((copy_expr(&list[i].0), copy_expr(&list[i].1)));
        assert forall|j: int| 0 <= j < i + 1 implies Expr::pair_trees(out)[j] == Expr::pair_trees(
            *list,
        )[j] by {
            if j < i {
                assert(out[j] == before[j]);
                assert(Expr::pair_trees(before)[j] == Expr::pair_trees(*list)[j]);
            }
        }
        i += 1;
    }
    assert(Expr::pair_trees(out) =~= Expr::pair_trees(*list));
    out
}

/// A copy of a list of expressions.
fn copy_list(list: &Vec<Expr>) -> (r: Vec<Expr>)
    ensures
        Expr::trees(r) == Expr::trees(*list),
    decreases list,
{
    let mut out: Vec<Expr> = Vec::new();
    let mut i: usize = 0;
    while i < list.len()
        invariant
            i <= list.len(),
            out.len() == i,
            forall|j: int| 0 <= j < i ==> (#[trigger] out[j])@ == list[j]@,
        decreases list.len() - i,
    {
        out.push(copy_expr(&list[i]));
        i += 1;
    }
    assert(Expr::trees(out) =~= Expr::trees(*list));
    out
}

/// A copy of an expression.
fn copy_expr(e: &Expr) -> (r: Expr)
    ensures
        r@ == e@,
    decreases e,
{
    match e {
        Expr::Between { lhs, not, start, end } => Expr::Between {
            lhs: Box::new(copy_expr(lhs)),
            not: *not,
            start: Box::new(copy_expr(start)),
            end: Box::new(copy_expr(end)),
        },
        Expr::Case { base, when_then_pairs, else_expr } => Expr::Case {
            base: copy_optional(base),
            when_then_pairs: copy_pairs(when_then_pairs),
            else_expr: copy_optional(else_expr),
        },
        Expr::InList { lhs, not, rhs } => Expr::InList {
            lhs: Box::new(copy_expr(lhs)),
            not: *not,
            rhs: copy_list(rhs),
        },
        Expr::Like { lhs, not, op, rhs, escape } => Expr::Like {
            lhs: Box::new(copy_expr(lhs)),
            not: *not,
            op: *op,
            rhs: Box::new(copy_expr(rhs)),
            escape: copy_optional(escape),
        },
        Expr::Literal(l) => Expr::Literal(l.clone()),
        Expr::Column { database, table, column, is_rowid_alias } => Expr::Column {
            database: *database,
            table: *table,
            column: *column,
            is_rowid_alias: *is_rowid_alias,
        },
        Expr::RowId { database, table } => Expr::RowId { database: *database, table: *table },
        Expr::Collate(inner, name) => Expr::Collate(Box::new(copy_expr(inner)), name.clone()),
        Expr::Unary(op, inner) => Expr::Unary(*op, Box::new(copy_expr(inner))),
        Expr::Binary(lhs, op, rhs) => Expr::Binary(
            Box::new(copy_expr(lhs)),
            *op,
            Box::new(copy_expr(rhs)),
        ),
        Expr::FunctionCall { name, distinct, args, order_by, filter, over } => Expr::FunctionCall {
            name: name.clone(),
            distinct: *distinct,
            args: copy_list(args),
            order_by: copy_name(order_by),
            filter: copy_optional(filter),
            over: copy_name(over),
        },
        Expr::FunctionCallStar { name, filter, over } => Expr::FunctionCallStar {
            name: name.clone(),
            filter: copy_optional(filter),
            over: copy_name(over),
        },
        Expr::Cast { expr, target_type, size } => Expr::Cast {
            expr: Box::new(copy_expr(expr)),
            target_type: copy_name(target_type),
            size: copy_list(size),
        },
        Expr::Exists(query) => Expr::Exists(query.clone()),
        Expr::Subquery(query) => Expr::Subquery(query.clone()),
        Expr::InSelect { lhs, not, rhs } => Expr::InSelect {
            lhs: Box::new(copy_expr(lhs)),
            not: *not,
            rhs: rhs.clone(),
        },
        Expr::InTable { lhs, not, rhs, args } => Expr::InTable {
            lhs: Box::new(copy_expr(lhs)),
            not: *not,
            rhs: rhs.clone(),
            args: copy_list(args),
        },
        Expr::Raise(resolve, message) => Expr::Raise(*resolve, copy_optional(message)),
        Expr::Register(reg) => Expr::Register(*reg),
        Expr::IsNull(inner) => Expr::IsNull(Box::new(copy_expr(inner))),
        Expr::NotNull(inner) => Expr::NotNull(Box::new(copy_expr(inner))),
        Expr::Parenthesized(items) => Expr::Parenthesized(copy_list(items)),
        Expr::Variable(name) => Expr::Variable(name.clone()),
    }
}

impl Clone for Expr {
    fn clone(&self) -> (r: Self)
        ensures
            r@ == self@,
    {
        copy_expr(self)
    }
}

} // verus!
