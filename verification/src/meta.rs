//! Catalog metadata of a table, as the catalog reader delivers it.

use crate::types::{SqlType, TypeDescriptor};
use vstd::prelude::*;

verus! {

/// One column of a table.
#[derive(Clone, Debug)]
pub struct ColumnInfo {
    pub name: String,
    pub col_type: SqlType,
    pub oci_data_type: TypeDescriptor,
    pub nullable: bool,
}

/// The columns that make up the primary key, by their position in the table.
#[derive(Clone, Debug)]
pub struct PrimaryKey {
    pub column_indices: Vec<usize>,
}

/// A table: its name, its columns in catalog order and its primary key.
#[derive(Clone, Debug)]
pub struct TableInfo {
    pub name: String,
    pub columns: Vec<ColumnInfo>,
    pub primary_key: Option<PrimaryKey>,
}

/// Position of the first column called `name`.
pub open spec fn column_position(columns: Seq<ColumnInfo>, name: Seq<char>) -> Option<int>
    decreases columns.len(),
{
    if columns.len() == 0 {
        None
    } else {
        match column_position(columns.drop_last(), name) {
            Some(i) => Some(i),
            None => if columns.last().name@ == name {
                Some(columns.len() - 1)
            } else {
                None
            },
        }
    }
}

/// A column found among the first `k` columns is the one found in the whole
/// table.
pub proof fn lemma_column_position_stays(columns: Seq<ColumnInfo>, k: int, name: Seq<char>)
    requires
        0 <= k <= columns.len(),
        column_position(columns.take(k), name) is Some,
    ensures
        column_position(columns, name) == column_position(columns.take(k), name),
    decreases columns.len(),
{
    if k == columns.len() {
        assert(columns.take(k) =~= columns);
    } else {
        assert(columns.drop_last().take(k) =~= columns.take(k));
        lemma_column_position_stays(columns.drop_last(), k, name);
    }
}

impl TableInfo {
    /// Looks a column up by name; the first of that name wins.
    pub fn find_column(&self, name: &String) -> (found: Option<usize>)
        ensures
            match found {
                Some(i) => column_position(self.columns@, name@) == Some(i as int) && i
                    < self.columns.len(),
                None => column_position(self.columns@, name@) is None,
            },
    {
        let mut i: usize = 0;
        while i < self.columns.len()
            invariant
                i <= self.columns.len(),
                column_position(self.columns@.take(i as int), name@) is None,
            decreases self.columns.len() - i,
        {
            proof {
                assert(self.columns@.take(i + 1).drop_last() =~= self.columns@.take(i as int));
            }
            if self.columns[i].name == *name {
                proof {
                    lemma_column_position_stays(self.columns@, i + 1, name@);
                }
                return Some(i);
            }
            i += 1;
        }
        proof {
            assert(self.columns@.take(i as int) =~= self.columns@);
        }
        None
    }
}

} // verus!
