//! The connections table widget: one row per open network connection,
//! sortable by process id, local address, remote address or status.

use vstd::prelude::*;
use crate::sort::TableRow;
use crate::table::{SortableTable, SortState, displayed};
use crate::text::{
    lex_le, name_sort_key, lemma_lex_le_total, lemma_lex_le_trans, parse_name_key, str_lex_le,
};

verus! {

/// One row of the connections table.
pub struct ConnectionsWidgetData {
    /// Composite `pid/process` field; sorted by its leading numeric id.
    pub name: String,
    pub local_address: String,
    pub remote_address: String,
    pub status: String,
}

/// What a connections row reads as: the characters of each of its cells.
pub struct ConnectionRowView {
    pub name: Seq<char>,
    pub local_address: Seq<char>,
    pub remote_address: Seq<char>,
    pub status: Seq<char>,
}

impl View for ConnectionsWidgetData {
    type V = ConnectionRowView;

    open spec fn view(&self) -> ConnectionRowView {
        ConnectionRowView {
            name: self.name@,
            local_address: self.local_address@,
            remote_address: self.remote_address@,
            status: self.status@,
        }
    }
}

/// The columns of the connections table, in display order.
pub enum ConnectionsWidgetColumn {
    Name,
    LocalAddress,
    RemoteAddress,
    Status,
}

impl ConnectionsWidgetColumn {
    /// Position of this column in the table.
    pub open spec fn index_spec(self) -> int {
        match self {
            ConnectionsWidgetColumn::Name => 0,
            ConnectionsWidgetColumn::LocalAddress => 1,
            ConnectionsWidgetColumn::RemoteAddress => 2,
            ConnectionsWidgetColumn::Status => 3,
        }
    }

    pub fn index(&self) -> (i: usize)
        ensures
            i == self.index_spec(),
    {
        match self {
            ConnectionsWidgetColumn::Name => 0,
            ConnectionsWidgetColumn::LocalAddress => 1,
            ConnectionsWidgetColumn::RemoteAddress => 2,
            ConnectionsWidgetColumn::Status => 3,
        }
    }

    /// Header text of this column.
    pub fn text(&self) -> (t: &'static str)
        ensures
            match self {
                ConnectionsWidgetColumn::Name => t@ == "PID/Name"@,
                ConnectionsWidgetColumn::LocalAddress => t@ == "Local Address"@,
                ConnectionsWidgetColumn::RemoteAddress => t@ == "Remote Address"@,
                ConnectionsWidgetColumn::Status => t@ == "Status"@,
            },
    {
        match self {
            ConnectionsWidgetColumn::Name => "PID/Name",
            ConnectionsWidgetColumn::LocalAddress => "Local Address",
            ConnectionsWidgetColumn::RemoteAddress => "Remote Address",
            ConnectionsWidgetColumn::Status => "Status",
        }
    }
}

/// The per-column order on row views. The name column compares the leading
/// numeric id of the composite `pid/process` field; every other column
/// compares its text lexicographically. Any out-of-range column index
/// behaves like the last column.
pub open spec fn view_col_le(a: ConnectionRowView, b: ConnectionRowView, col: int) -> bool {
    if col == 0 {
        name_sort_key(a.name) <= name_sort_key(b.name)
    } else if col == 1 {
        lex_le(a.local_address, b.local_address)
    } else if col == 2 {
        lex_le(a.remote_address, b.remote_address)
    } else {
        lex_le(a.status, b.status)
    }
}

impl TableRow for ConnectionsWidgetData {
    open spec fn col_le(self, col: int, other: Self) -> bool {
        view_col_le(self@, other@, col)
    }

    open spec fn width_spec(self, col: int) -> nat {
        if col == 0 {
            self.name@.len()
        } else if col == 1 {
            self.local_address@.len()
        } else if col == 2 {
            self.remote_address@.len()
        } else {
            self.status@.len()
        }
    }

    proof fn lemma_col_le_total(a: Self, b: Self, col: int) {
        if col == 1 {
            lemma_lex_le_total(a.local_address@, b.local_address@);
        } else if col == 2 {
            lemma_lex_le_total(a.remote_address@, b.remote_address@);
        } else if col != 0 {
            lemma_lex_le_total(a.status@, b.status@);
        }
    }

    proof fn lemma_col_le_trans(a: Self, b: Self, c: Self, col: int) {
        if col == 1 {
            lemma_lex_le_trans(a.local_address@, b.local_address@, c.local_address@);
        } else if col == 2 {
            lemma_lex_le_trans(a.remote_address@, b.remote_address@, c.remote_address@);
        } else if col != 0 {
            lemma_lex_le_trans(a.status@, b.status@, c.status@);
        }
    }

    fn le(&self, col: usize, other: &Self) -> (r: bool) {
        if col == 0 {
            let ka = parse_name_key(self.name.as_str());
            let kb = parse_name_key(other.name.as_str());
            ka <= kb
        } else if col == 1 {
            str_lex_le(self.local_address.as_str(), other.local_address.as_str())
        } else if col == 2 {
            str_lex_le(self.remote_address.as_str(), other.remote_address.as_str())
        } else {
            str_lex_le(self.status.as_str(), other.status.as_str())
        }
    }

    fn cell_width(&self, col: usize) -> (w: usize) {
        if col == 0 {
            self.name.as_str().unicode_len()
        } else if col == 1 {
            self.local_address.as_str().unicode_len()
        } else if col == 2 {
            self.remote_address.as_str().unicode_len()
        } else {
            self.status.as_str().unicode_len()
        }
    }
}

impl ConnectionsWidgetData {
    /// The text of this row's cell in the given column.
    pub fn cell_value(&self, column: &ConnectionsWidgetColumn) -> (t: &String)
        ensures
            match column {
                ConnectionsWidgetColumn::Name => t@ == self.name@,
                ConnectionsWidgetColumn::LocalAddress => t@ == self.local_address@,
                ConnectionsWidgetColumn::RemoteAddress => t@ == self.remote_address@,
                ConnectionsWidgetColumn::Status => t@ == self.status@,
            },
    {
        match column {
            ConnectionsWidgetColumn::Name => &self.name,
            ConnectionsWidgetColumn::LocalAddress => &self.local_address,
            ConnectionsWidgetColumn::RemoteAddress => &self.remote_address,
            ConnectionsWidgetColumn::Status => &self.status,
        }
    }
}

/// The views of a sequence of rows, cell text only.
pub open spec fn row_views(s: Seq<ConnectionsWidgetData>) -> Seq<ConnectionRowView> {
    s.map_values(|r: ConnectionsWidgetData| r@)
}

/// Copies a row set so that several widgets can each ingest the same
/// connection data: every copied row reads exactly as its original.
pub fn clone_rows(data: &Vec<ConnectionsWidgetData>) -> (r: Vec<ConnectionsWidgetData>)
    ensures
        r@.len() == data@.len(),
        row_views(r@) == row_views(data@),
{
    let mut r: Vec<ConnectionsWidgetData> = Vec::new();
    let n = data.len();
    let mut i: usize = 0;
    while i < n
        invariant
            0 <= i <= n,
            n == data@.len(),
            r@.len() == i,
            forall|k: int| 0 <= k < i ==> #[trigger] r@[k]@ == data@[k]@,
        decreases n - i,
    {
        let row = ConnectionsWidgetData {
            name: data[i].name.clone(),
            local_address: data[i].local_address.clone(),
            remote_address: data[i].remote_address.clone(),
            status: data[i].status.clone(),
        };
        r.push(row);
        i = i + 1;
    }
    assert(row_views(r@) =~= row_views(data@));
    r
}

/// The per-column order on views, direction-adjusted like `dir_le`.
pub open spec fn vdir_le(col: int, descending: bool) -> spec_fn(
    ConnectionRowView,
    ConnectionRowView,
) -> bool {
    if descending {
        |a: ConnectionRowView, b: ConnectionRowView| view_col_le(b, a, col)
    } else {
        |a: ConnectionRowView, b: ConnectionRowView| view_col_le(a, b, col)
    }
}

/// The display order of a connections row set, at the level of what each
/// row reads as: the same rows, stably sorted by the active column.
pub open spec fn displayed_views(vs: Seq<ConnectionRowView>, sort: SortState) -> Seq<
    ConnectionRowView,
> {
    match sort {
        SortState::Unsorted => vs,
        SortState::SortedAscending(c) => crate::sort::stable_sort(vs, vdir_le(c as int, false)),
        SortState::SortedDescending(c) => crate::sort::stable_sort(vs, vdir_le(c as int, true)),
    }
}

/// The display order only reads what each row's cells say, so it is the
/// same whether rows are sorted and then read, or read and then sorted.
pub proof fn lemma_displayed_views(rows: Seq<ConnectionsWidgetData>, sort: SortState)
    ensures
        row_views(displayed(rows, sort)) == displayed_views(row_views(rows), sort),
{
    let f = |r: ConnectionsWidgetData| r@;
    match sort {
        SortState::Unsorted => {},
        SortState::SortedAscending(c) => {
            crate::sort::lemma_stable_sort_map(
                rows,
                crate::sort::dir_le::<ConnectionsWidgetData>(c as int, false),
                vdir_le(c as int, false),
                f,
            );
        },
        SortState::SortedDescending(c) => {
            crate::sort::lemma_stable_sort_map(
                rows,
                crate::sort::dir_le::<ConnectionsWidgetData>(c as int, true),
                vdir_le(c as int, true),
                f,
            );
        },
    }
}

/// Derived state of one connections widget: its sortable table and the
/// dirty flag that tells the main loop to re-derive it from the store.
pub struct ConnectionsWidgetState {
    pub table: SortableTable<ConnectionsWidgetData>,
    /// Set when fresh connection data has been ingested into the store;
    /// cleared once this widget has re-derived its rows.
    pub force_update_data: bool,
}

impl ConnectionsWidgetState {
    /// A fresh connections widget: empty, sorted descending by the
    /// `pid/process` column, and in need of its first derivation.
    pub fn new() -> (s: Self)
        ensures
            s.table.wf(),
            s.table.sort == SortState::SortedDescending(0),
            s.table.rows@.len() == 0,
            s.force_update_data,
    {
        ConnectionsWidgetState {
            table: SortableTable::new(SortState::SortedDescending(0usize)),
            force_update_data: true,
        }
    }

    /// Applies one user sort activation and marks the widget dirty, so the
    /// next derivation re-orders its rows under the new state.
    pub fn toggle_sort(&mut self, column: &ConnectionsWidgetColumn)
        requires
            old(self).table.wf(),
        ensures
            final(self).table.wf(),
            final(self).table.sort == crate::table::toggled(
                old(self).table.sort,
                column.index_spec() as usize,
            ),
            final(self).table.rows@ == old(self).table.rows@,
            final(self).force_update_data,
    {
        let col = column.index();
        self.table.toggle_sort(col);
        self.force_update_data = true;
    }

    /// Replaces this widget's rows with a fresh row set, sorted by the
    /// active column, and clears the dirty flag. Selection and scroll are
    /// clamped by the table engine.
    pub fn ingest_data(&mut self, data: Vec<ConnectionsWidgetData>)
        requires
            old(self).table.wf(),
        ensures
            final(self).table.wf(),
            final(self).table.sort == old(self).table.sort,
            final(self).table.rows@ == displayed(data@, old(self).table.sort),
            final(self).table.rows@.len() == data@.len(),
            !final(self).force_update_data,
    {
        self.table.set_data(data);
        self.force_update_data = false;
    }
}

} // verus!
