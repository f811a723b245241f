//! The layout of the sorter record, and where each output column is found in it.
//!
//! A record starts with the value of every sort key, in `ORDER BY` order.
//! After them come the values of the result columns, in `SELECT` order,
//! except those whose expression is some sort key's expression: such a column
//! is redundant, and is read back from the first sort key that equals it.
//!
//! Everything here is stated over the trees of the expressions. Two
//! expressions are taken for the same where their trees are equal.

use vstd::prelude::*;
use crate::expr::ExprView;

verus! {

/// The test that keeps the result columns that no sort key equals.
pub open spec fn is_stored(keys: Seq<ExprView>) -> spec_fn(ExprView) -> bool {
    |e: ExprView| !keys.contains(e)
}

/// The result columns that get a column of their own in the sorter record,
/// in `SELECT` order.
pub open spec fn stored_columns(keys: Seq<ExprView>, columns: Seq<ExprView>) -> Seq<ExprView> {
    columns.filter(is_stored(keys))
}

/// The expression that each column of the sorter record holds the value of.
pub open spec fn sorter_layout(keys: Seq<ExprView>, columns: Seq<ExprView>) -> Seq<ExprView> {
    keys + stored_columns(keys, columns)
}

/// The number of columns of the sorter record.
pub open spec fn layout_width(keys: Seq<ExprView>, columns: Seq<ExprView>) -> nat {
    keys.len() + stored_columns(keys, columns).len()
}

/// The column of the sorter record in which result column `i` is found: the
/// first sort key that equals it, or else its own column, which follows the
/// sort keys and the columns stored before it.
pub open spec fn layout_index(keys: Seq<ExprView>, columns: Seq<ExprView>, i: int) -> int
    recommends
        0 <= i < columns.len(),
{
    match keys.index_of_first(columns[i]) {
        Some(k) => k,
        None => (keys.len() + stored_columns(keys, columns.take(i)).len()) as int,
    }
}

/// The redundant result columns, in `SELECT` order, each as the pair of its
/// position and the position of the first sort key that equals it.
pub open spec fn skipped_columns(keys: Seq<ExprView>, columns: Seq<ExprView>) -> Seq<(int, int)>
    decreases columns.len(),
{
    if columns.len() == 0 {
        Seq::empty()
    } else {
        let before = skipped_columns(keys, columns.drop_last());
        match keys.index_of_first(columns.last()) {
            Some(k) => before.push((columns.len() - 1, k)),
            None => before,
        }
    }
}

/// A result column is redundant exactly when some sort key equals it, and the
/// key found for it is the first such key.
pub proof fn lemma_first_key(keys: Seq<ExprView>, e: ExprView)
    ensures
        keys.index_of_first(e) is Some <==> keys.contains(e),
        keys.index_of_first(e) matches Some(k) ==> {
            &&& 0 <= k < keys.len()
            &&& keys[k] == e
            &&& forall|j: int| 0 <= j < k ==> keys[j] != e
        },
{
    keys.index_of_first_ensures(e);
}

/// The key found for an expression is the one that equals it and has no
/// equal key before it.
pub proof fn lemma_first_key_is(keys: Seq<ExprView>, e: ExprView, k: int)
    requires
        0 <= k < keys.len(),
        keys[k] == e,
        forall|j: int| 0 <= j < k ==> keys[j] != e,
    ensures
        keys.index_of_first(e) == Some(k),
{
    keys.index_of_first_ensures(e);
    assert(keys.contains(e));
}

/// One more result column adds one stored column or one skipped pair.
pub proof fn lemma_next_column(keys: Seq<ExprView>, columns: Seq<ExprView>, i: int)
    requires
        0 <= i < columns.len(),
    ensures
        stored_columns(keys, columns.take(i + 1)) == if keys.contains(columns[i]) {
            stored_columns(keys, columns.take(i))
        } else {
            stored_columns(keys, columns.take(i)).push(columns[i])
        },
        skipped_columns(keys, columns.take(i + 1)) == match keys.index_of_first(columns[i]) {
            Some(k) => skipped_columns(keys, columns.take(i)).push((i, k)),
            None => skipped_columns(keys, columns.take(i)),
        },
{
    let next = columns.take(i + 1);
    assert(next.drop_last() == columns.take(i));
    assert(next.last() == columns[i]);
    reveal_with_fuel(Seq::filter, 2);
}

/// Every result column is either stored or skipped: the record has as many
/// columns as there are sort keys and result columns, less the skipped ones.
pub proof fn lemma_layout_width(keys: Seq<ExprView>, columns: Seq<ExprView>)
    ensures
        sorter_layout(keys, columns).len() == layout_width(keys, columns),
        skipped_columns(keys, columns).len() <= columns.len(),
        layout_width(keys, columns) == keys.len() + columns.len() - skipped_columns(
            keys,
            columns,
        ).len(),
    decreases columns.len(),
{
    if columns.len() > 0 {
        let i = columns.len() - 1;
        lemma_layout_width(keys, columns.drop_last());
        lemma_next_column(keys, columns, i);
        lemma_first_key(keys, columns[i]);
        assert(columns.take(i + 1) == columns);
        assert(columns.take(i) == columns.drop_last());
    } else {
        assert(stored_columns(keys, columns).len() == 0);
    }
}

/// The columns stored among the first `i` result columns are the first of
/// all the stored columns.
pub proof fn lemma_stored_prefix(keys: Seq<ExprView>, columns: Seq<ExprView>, i: int)
    requires
        0 <= i <= columns.len(),
    ensures
        stored_columns(keys, columns.take(i)).len() <= stored_columns(keys, columns).len(),
        stored_columns(keys, columns.take(i)) == stored_columns(keys, columns).take(
            stored_columns(keys, columns.take(i)).len() as int,
        ),
{
    let head = columns.take(i);
    let tail = columns.skip(i);
    assert(columns == head + tail);
    Seq::filter_distributes_over_add(head, tail, is_stored(keys));
    assert(stored_columns(keys, columns) == stored_columns(keys, head) + stored_columns(
        keys,
        tail,
    ));
}

/// The record column that is read for a result column holds that column's
/// expression, whether the column is stored or skipped.
pub proof fn lemma_layout_index_holds_column(keys: Seq<ExprView>, columns: Seq<ExprView>, i: int)
    requires
        0 <= i < columns.len(),
    ensures
        0 <= layout_index(keys, columns, i) < layout_width(keys, columns),
        sorter_layout(keys, columns)[layout_index(keys, columns, i)] == columns[i],
        keys.contains(columns[i]) <==> layout_index(keys, columns, i) < keys.len(),
{
    lemma_first_key(keys, columns[i]);
    if !keys.contains(columns[i]) {
        lemma_next_column(keys, columns, i);
        lemma_stored_prefix(keys, columns, i + 1);
        let n = stored_columns(keys, columns.take(i)).len() as int;
        assert(stored_columns(keys, columns.take(i + 1))[n] == columns[i]);
        assert(stored_columns(keys, columns)[n] == columns[i]);
    }
}

/// A result column that equals sort key `k`, and no key before it, is read
/// from record column `k`, and the record is laid out as if the column were
/// not selected at all: no column of the record is set aside for it.
pub proof fn lemma_redundant_column_reads_sort_key(
    keys: Seq<ExprView>,
    columns: Seq<ExprView>,
    i: int,
    k: int,
)
    requires
        0 <= i < columns.len(),
        0 <= k < keys.len(),
        keys[k] == columns[i],
        forall|j: int| 0 <= j < k ==> keys[j] != columns[i],
    ensures
        layout_index(keys, columns, i) == k,
        sorter_layout(keys, columns) == sorter_layout(keys, columns.remove(i)),
{
    lemma_first_key_is(keys, columns[i], k);
    let head = columns.take(i);
    let one = seq![columns[i]];
    let tail = columns.skip(i + 1);
    assert(columns == head + one + tail);
    assert(columns.remove(i) == head + tail);
    Seq::filter_distributes_over_add(head + one, tail, is_stored(keys));
    Seq::filter_distributes_over_add(head, one, is_stored(keys));
    Seq::filter_distributes_over_add(head, tail, is_stored(keys));
    assert(stored_columns(keys, one) == Seq::<ExprView>::empty()) by {
        reveal_with_fuel(Seq::filter, 2);
        assert(one.drop_last() == Seq::<ExprView>::empty());
        assert(keys.contains(one.last()));
    }
    assert(stored_columns(keys, columns) == stored_columns(keys, columns.remove(i)));
}

/// The skipped pairs are the redundant result columns, each once and in
/// `SELECT` order, with the first sort key that equals it.
pub proof fn lemma_skipped_columns(keys: Seq<ExprView>, columns: Seq<ExprView>)
    ensures
        forall|n: int|
            0 <= n < skipped_columns(keys, columns).len() ==> {
                let pair = #[trigger] skipped_columns(keys, columns)[n];
                &&& 0 <= pair.0 < columns.len()
                &&& keys.index_of_first(columns[pair.0]) == Some(pair.1)
            },
        forall|m: int, n: int|
            0 <= m < n < skipped_columns(keys, columns).len() ==> (#[trigger] skipped_columns(
                keys,
                columns,
            )[m]).0 < (#[trigger] skipped_columns(keys, columns)[n]).0,
        forall|i: int|
            0 <= i < columns.len() && keys.contains(#[trigger] columns[i]) ==> exists|n: int|
                0 <= n < skipped_columns(keys, columns).len() && (#[trigger] skipped_columns(
                    keys,
                    columns,
                )[n]).0 == i,
    decreases columns.len(),
{
    if columns.len() > 0 {
        let last = columns.len() - 1;
        let before = skipped_columns(keys, columns.drop_last());
        let all = skipped_columns(keys, columns);
        lemma_skipped_columns(keys, columns.drop_last());
        lemma_first_key(keys, columns[last]);
        assert forall|i: int| 0 <= i < columns.len() && keys.contains(
            #[trigger] columns[i],
        ) implies exists|n: int| 0 <= n < all.len() && (#[trigger] all[n]).0 == i by {
            if i < last {
                assert(columns.drop_last()[i] == columns[i]);
                let n = choose|n: int| 0 <= n < before.len() && (#[trigger] before[n]).0 == i;
                assert(all[n].0 == i);
            } else {
                assert(all[all.len() - 1].0 == i);
            }
        }
        assert forall|n: int| 0 <= n < all.len() implies {
            let pair = #[trigger] all[n];
            &&& 0 <= pair.0 < columns.len()
            &&& keys.index_of_first(columns[pair.0]) == Some(pair.1)
        } by {
            if n < before.len() {
                assert(all[n] == before[n]);
                assert(columns.drop_last()[before[n].0] == columns[before[n].0]);
            }
        }
        assert forall|m: int, n: int| 0 <= m < n < all.len() implies (#[trigger] all[m]).0 < (
        #[trigger] all[n]).0 by {
            assert(all[m] == before[m]);
            if n < before.len() {
                assert(all[n] == before[n]);
            }
        }
    }
}

/// The record of one row: the value of each expression of the layout.
pub open spec fn record_of<V>(layout: Seq<ExprView>, value_of: spec_fn(ExprView) -> V) -> Seq<V> {
    layout.map_values(value_of)
}

/// The output row that is read from a record: for each result column, in
/// `SELECT` order, the value in the record column in which it is found.
pub open spec fn output_of<V>(keys: Seq<ExprView>, columns: Seq<ExprView>, record: Seq<V>) -> Seq<V> {
    Seq::new(columns.len(), |i: int| record[layout_index(keys, columns, i)])
}

/// Whatever value each expression has on a row, the output row that is read
/// from the row's record holds the values of the result columns in `SELECT`
/// order, however many of them are read from sort keys.
pub proof fn lemma_output_is_select_list<V>(
    keys: Seq<ExprView>,
    columns: Seq<ExprView>,
    value_of: spec_fn(ExprView) -> V,
)
    ensures
        output_of(keys, columns, record_of(sorter_layout(keys, columns), value_of))
            == columns.map_values(value_of),
{
    let record = record_of(sorter_layout(keys, columns), value_of);
    lemma_layout_width(keys, columns);
    assert forall|i: int| 0 <= i < columns.len() implies output_of(keys, columns, record)[i]
        == value_of(columns[i]) by {
        lemma_layout_index_holds_column(keys, columns, i);
    }
    assert(output_of(keys, columns, record) =~= columns.map_values(value_of));
}

} // verus!
