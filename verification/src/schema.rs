//! Table and column metadata that the lowering looks things up in.

use vstd::prelude::*;
use crate::collate::CollationSeq;

verus! {

/// A column of a table.
#[derive(Debug, Clone, PartialEq, Eq)]
pub struct Column {
    pub name: Option<String>,
    /// The collation that the column was declared with, if any.
    pub collation: Option<CollationSeq>,
}

/// A table: its columns, in their declared positions.
#[derive(Debug, Clone, PartialEq, Eq)]
pub struct Table {
    pub name: String,
    pub columns: Vec<Column>,
}

impl Table {
    /// The column at a position, if the table has one there.
    pub open spec fn column_at(&self, index: usize) -> Option<&Column> {
        if index < self.columns.len() {
            Some(&self.columns[index as int])
        } else {
            None
        }
    }

    /// The column at a position, if the table has one there.
    pub fn get_column_at(&self, index: usize) -> (r: Option<&Column>)
        ensures
            r == self.column_at(index),
    {
        if index < self.columns.len() {
            Some(&self.columns[index])
        } else {
            None
        }
    }
}

/// A table as one query refers to it, under an identifier of the query's own.
#[derive(Debug, Clone, PartialEq, Eq)]
pub struct JoinedTable {
    pub internal_id: usize,
    pub table: Table,
}

/// The tables that a query refers to.
#[derive(Debug, Clone, PartialEq, Eq)]
pub struct TableReferences {
    pub joined_tables: Vec<JoinedTable>,
}

impl TableReferences {
    /// The identifiers of the referenced tables, in order.
    pub open spec fn ids(&self) -> Seq<usize> {
        self.joined_tables@.map_values(|t: JoinedTable| t.internal_id)
    }

    /// The first referenced table with the given identifier, if there is one.
    pub open spec fn table_with_id(&self, id: usize) -> Option<&Table> {
        match self.ids().index_of_first(id) {
            Some(i) => Some(&self.joined_tables[i].table),
            None => None,
        }
    }

    /// The first referenced table with the given identifier, if there is one.
    pub fn find_table_by_internal_id(&self, id: usize) -> (r: Option<&Table>)
        ensures
            r == self.table_with_id(id),
    {
        let mut i: usize = 0;
        while i < self.joined_tables.len()
            invariant
                i <= self.joined_tables.len(),
                forall|j: int| 0 <= j < i ==> #[trigger] self.ids()[j] != id,
            decreases self.joined_tables.len() - i,
        {
            if self.joined_tables[i].internal_id == id {
                proof {
                    assert(self.ids()[i as int] == id);
                    self.ids().index_of_first_ensures(id);
                }
                return Some(&self.joined_tables[i].table);
            }
            i += 1;
        }
        proof {
            self.ids().index_of_first_ensures(id);
        }
        None
    }
}

} // verus!
