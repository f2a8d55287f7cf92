//! The owned result table: an ordered mapping from column identifier to
//! column, insertion order preserved, all columns of one length.
//!
//! The model of a table is the sequence of its (name, column model) pairs;
//! [`table_wf`] states the single invariant — every column has the table's
//! row count — which construction establishes and reordering preserves.

use vstd::prelude::*;
use crate::column::{ColumnModel, OwnedColumn};
use crate::compare::{compare_str, lemma_str_cmp_eq};
use core::cmp::Ordering;

verus! {

/// The mathematical model of a table: its (name, column) pairs in order.
pub type TableModel = Seq<(Seq<char>, ColumnModel)>;

/// The row count of a table model: the length of its first column, or zero
/// for a table of no columns.
pub open spec fn table_num_rows(t: TableModel) -> nat {
    if t.len() == 0 {
        0
    } else {
        t[0].1.len()
    }
}

/// Every column has the table's row count.
pub open spec fn table_wf(t: TableModel) -> bool {
    forall|i: int| 0 <= i < t.len() ==> (#[trigger] t[i]).1.len() == table_num_rows(t)
}

/// The position of the first column named `name`, if any.
pub open spec fn resolve(t: TableModel, name: Seq<char>) -> Option<int>
    decreases t.len(),
{
    if t.len() == 0 {
        Option::None
    } else if t[0].0 == name {
        Option::Some(0int)
    } else {
        match resolve(t.drop_first(), name) {
            Option::Some(i) => Option::Some(i + 1),
            Option::None => Option::None,
        }
    }
}

/// The model of a vector of (name, column) pairs.
pub open spec fn pairs_view(columns: Seq<(String, OwnedColumn)>) -> TableModel {
    Seq::new(columns.len(), |i: int| (columns[i].0@, columns[i].1@))
}

/// The error of constructing a table from columns of differing lengths.
#[derive(Clone, Copy, Debug, PartialEq, Eq, Structural)]
pub enum TableError {
    /// Two columns of the would-be table disagree in length.
    ColumnLengthMismatch,
}

/// An ordered mapping from column identifier to column, all columns of one
/// length.  Identifiers are expected distinct by the producing engine; a
/// lookup takes the first pair whose name matches.
#[derive(Clone, Debug, PartialEq, Eq)]
pub struct OwnedTable {
    columns: Vec<(String, OwnedColumn)>,
}

impl View for OwnedTable {
    type V = TableModel;

    closed spec fn view(&self) -> TableModel {
        pairs_view(self.columns@)
    }
}

/// If no name among the first `i` pairs matches, resolution of the whole
/// table is resolution of the rest, shifted by `i`.
proof fn lemma_resolve_skip(t: TableModel, name: Seq<char>, i: int)
    requires
        0 <= i <= t.len(),
        forall|k: int| 0 <= k < i ==> (#[trigger] t[k]).0 != name,
    ensures
        resolve(t, name) == match resolve(t.skip(i), name) {
            Option::Some(j) => Option::Some(j + i),
            Option::None => Option::None::<int>,
        },
    decreases i,
{
    if i == 0 {
        assert(t.skip(0) =~= t);
    } else {
        lemma_resolve_skip(t, name, i - 1);
        assert(t.skip(i - 1).len() > 0);
        assert(t.skip(i - 1)[0] == t[i - 1]);
        assert(t.skip(i - 1).drop_first() =~= t.skip(i));
    }
}

impl OwnedTable {
    /// Every column of this table has its row count.
    pub open spec fn wf(self) -> bool {
        table_wf(self@)
    }

    /// Builds a table from (identifier, column) pairs in order; fails when
    /// two columns disagree in length.
    pub fn try_new(columns: Vec<(String, OwnedColumn)>) -> (r: Result<OwnedTable, TableError>)
        ensures
            table_wf(pairs_view(columns@)) ==> (r matches Ok(t) && t@ == pairs_view(columns@)
                && t.wf()),
            !table_wf(pairs_view(columns@)) ==> r == Err::<OwnedTable, TableError>(
                TableError::ColumnLengthMismatch,
            ),
    {
        let ghost model = pairs_view(columns@);
        let m = columns.len();
        if m == 0 {
            return Ok(OwnedTable { columns });
        }
        let n = columns[0].1.len();
        let mut i: usize = 1;
        while i < m
            invariant
                1 <= i <= m,
                m == columns@.len(),
                n == pairs_view(columns@)[0].1.len(),
                model == pairs_view(columns@),
                forall|k: int| 0 <= k < i ==> (#[trigger] pairs_view(columns@)[k]).1.len() == n,
            decreases m - i,
        {
            if columns[i].1.len() != n {
                proof {
                    assert(model[i as int].1.len() != table_num_rows(model));
                }
                return Err(TableError::ColumnLengthMismatch);
            }
            i = i + 1;
        }
        Ok(OwnedTable { columns })
    }

    /// Wraps pairs already known to share one length.
    pub(crate) fn from_parts(columns: Vec<(String, OwnedColumn)>) -> (r: OwnedTable)
        requires
            table_wf(pairs_view(columns@)),
        ensures
            r@ == pairs_view(columns@),
    {
        OwnedTable { columns }
    }

    /// The number of columns.
    pub fn num_columns(&self) -> (r: usize)
        ensures
            r == self@.len(),
    {
        self.columns.len()
    }

    /// The number of rows: the length of the first column, or zero for a
    /// table of no columns.
    pub fn num_rows(&self) -> (r: usize)
        ensures
            r == table_num_rows(self@),
    {
        if self.columns.len() == 0 {
            0
        } else {
            self.columns[0].1.len()
        }
    }

    /// The (identifier, column) pair at position `i`, in insertion order.
    pub fn pair_at(&self, i: usize) -> (r: &(String, OwnedColumn))
        requires
            i < self@.len(),
        ensures
            r.0@ == self@[i as int].0,
            r.1@ == self@[i as int].1,
    {
        &self.columns[i]
    }

    /// The position of the first column named `name`, if any.
    pub fn column_index(&self, name: &str) -> (r: Option<usize>)
        ensures
            resolve(self@, name@) == match r {
                Option::Some(i) => Option::Some(i as int),
                Option::None => Option::None::<int>,
            },
    {
        let m = self.columns.len();
        let mut i: usize = 0;
        while i < m
            invariant
                0 <= i <= m,
                m == self@.len(),
                forall|k: int| 0 <= k < i ==> (#[trigger] self@[k]).0 != name@,
            decreases m - i,
        {
            let eq = matches!(compare_str(self.columns[i].0.as_str(), name), Ordering::Equal);
            proof {
                lemma_str_cmp_eq(self@[i as int].0, name@);
            }
            if eq {
                proof {
                    lemma_resolve_skip(self@, name@, i as int);
                    assert(self@.skip(i as int)[0] == self@[i as int]);
                }
                return Some(i);
            }
            i = i + 1;
        }
        proof {
            lemma_resolve_skip(self@, name@, m as int);
            assert(self@.skip(m as int).len() == 0);
        }
        None
    }

    /// The first column named `name`, if any.
    pub fn column(&self, name: &str) -> (r: Option<&OwnedColumn>)
        ensures
            match resolve(self@, name@) {
                Option::Some(i) => r matches Some(c) && c@ == self@[i].1,
                Option::None => r matches None,
            },
    {
        proof {
            lemma_resolve_in_range(self@, name@);
        }
        match self.column_index(name) {
            Some(i) => Some(&self.columns[i].1),
            None => None,
        }
    }

    /// Decomposes the table back into its ordered (identifier, column)
    /// pairs.
    pub fn into_inner(self) -> (r: Vec<(String, OwnedColumn)>)
        ensures
            pairs_view(r@) == self@,
    {
        self.columns
    }
}

/// A resolved position lies within the table.
pub proof fn lemma_resolve_in_range(t: TableModel, name: Seq<char>)
    ensures
        match resolve(t, name) {
            Option::Some(i) => 0 <= i < t.len() && t[i].0 == name,
            Option::None => forall|k: int| 0 <= k < t.len() ==> (#[trigger] t[k]).0 != name,
        },
    decreases t.len(),
{
    if t.len() > 0 && t[0].0 != name {
        lemma_resolve_in_range(t.drop_first(), name);
        match resolve(t.drop_first(), name) {
            Option::Some(i) => {
                assert(t.drop_first()[i] == t[i + 1]);
            },
            Option::None => {
                assert forall|k: int| 0 <= k < t.len() implies (#[trigger] t[k]).0 != name by {
                    if k > 0 {
                        assert(t.drop_first()[k - 1] == t[k]);
                    }
                }
            },
        }
    }
}

} // verus!
