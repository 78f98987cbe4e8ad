//! What a program knows of the tables that its cursors read.

use vstd::prelude::*;

verus! {

/// A table: its name and the names of its columns.
#[derive(Debug)]
pub struct Table {
    pub name: String,
    pub columns: Vec<String>,
}

impl Table {
    /// The name of column `i`, where there is one.
    pub open spec fn column_name(self, i: int) -> Option<Seq<char>> {
        if 0 <= i < self.columns@.len() {
            Some(self.columns@[i]@)
        } else {
            None
        }
    }

    /// The table's name.
    pub fn get_name(&self) -> (name: &str)
        ensures
            name@ == self.name@,
    {
        self.name.as_str()
    }

    /// The name of column `i`, where there is one.
    pub fn column_index_to_name(&self, i: usize) -> (name: Option<&str>)
        ensures
            match name {
                Some(n) => self.column_name(i as int) == Some(n@),
                None => self.column_name(i as int) is None,
            },
    {
        if i < self.columns.len() {
            Some(self.columns[i].as_str())
        } else {
            None
        }
    }
}

} // verus!
