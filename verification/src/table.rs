//! The generic sortable-table engine behind every tabular widget: a
//! replaceable row set with a sort state machine, a clamped selection, a
//! scroll offset that follows the selection, and per-column display widths.

use vstd::prelude::*;
use crate::sort::{
    TableRow, stable_sort, dir_le, sort_rows, lemma_dir_le_properties, lemma_stable_sort_ensures,
};

verus! {

/// The sort state machine of a table: no column active, or one column
/// active in one of two directions.
#[derive(Clone, Copy, Debug, PartialEq, Eq, Structural)]
pub enum SortState {
    Unsorted,
    SortedAscending(usize),
    SortedDescending(usize),
}

/// One user activation of column `col`: a first activation sorts ascending,
/// a repeat on the active column flips the direction, and an activation on
/// a different column starts over, ascending on the new column.
pub open spec fn toggled(s: SortState, col: usize) -> SortState {
    match s {
        SortState::SortedAscending(c) => if c == col {
            SortState::SortedDescending(col)
        } else {
            SortState::SortedAscending(col)
        },
        SortState::SortedDescending(c) => if c == col {
            SortState::SortedAscending(col)
        } else {
            SortState::SortedAscending(col)
        },
        SortState::Unsorted => SortState::SortedAscending(col),
    }
}

/// Activating a column that was not active sorts it ascending.
pub proof fn lemma_toggle_activates(s: SortState, col: usize)
    requires
        s != SortState::SortedAscending(col),
        s != SortState::SortedDescending(col),
    ensures
        toggled(s, col) == SortState::SortedAscending(col),
{
}

/// Toggling the active column twice returns to where it started: after an
/// activation of column `col`, two further toggles on `col` restore the
/// order that the activation chose.
pub proof fn lemma_toggle_twice_is_identity(s: SortState, col: usize)
    ensures
        toggled(toggled(toggled(s, col), col), col) == toggled(s, col),
{
}

/// The rows a table displays for a given ingested row set and sort state:
/// the rows as handed in, stably sorted by the active column if there is
/// one.
pub open spec fn displayed<R: TableRow>(data: Seq<R>, sort: SortState) -> Seq<R> {
    match sort {
        SortState::Unsorted => data,
        SortState::SortedAscending(c) => stable_sort(data, dir_le::<R>(c as int, false)),
        SortState::SortedDescending(c) => stable_sort(data, dir_le::<R>(c as int, true)),
    }
}

/// The display order always holds exactly the ingested rows.
pub proof fn lemma_displayed_permutes<R: TableRow>(data: Seq<R>, sort: SortState)
    ensures
        displayed(data, sort).len() == data.len(),
        displayed(data, sort).to_multiset() == data.to_multiset(),
{
    match sort {
        SortState::Unsorted => {},
        SortState::SortedAscending(c) => {
            lemma_dir_le_properties::<R>(c as int, false);
            lemma_stable_sort_ensures(data, dir_le::<R>(c as int, false));
        },
        SortState::SortedDescending(c) => {
            lemma_dir_le_properties::<R>(c as int, true);
            lemma_stable_sort_ensures(data, dir_le::<R>(c as int, true));
        },
    }
}

/// Sort stability across ingests: re-ingesting rows already in display
/// order leaves them exactly where they are, so rows with equal sort keys
/// never jitter between one ingest and the next.
pub proof fn lemma_reingest_keeps_order<R: TableRow>(data: Seq<R>, sort: SortState)
    ensures
        displayed(displayed(data, sort), sort) == displayed(data, sort),
{
    match sort {
        SortState::Unsorted => {},
        SortState::SortedAscending(c) => {
            lemma_dir_le_properties::<R>(c as int, false);
            crate::sort::lemma_stable_sort_idempotent(data, dir_le::<R>(c as int, false));
        },
        SortState::SortedDescending(c) => {
            lemma_dir_le_properties::<R>(c as int, true);
            crate::sort::lemma_stable_sort_idempotent(data, dir_le::<R>(c as int, true));
        },
    }
}

/// Greatest rendered width that any row needs in column `col`.
pub open spec fn max_col_width<R: TableRow>(rows: Seq<R>, col: int) -> nat
    decreases rows.len(),
{
    if rows.len() == 0 {
        0
    } else {
        let rest = max_col_width(rows.drop_last(), col);
        let w = rows.last().width_spec(col);
        if w > rest {
            w
        } else {
            rest
        }
    }
}

/// A sortable, scrollable table over a replaceable row set.
pub struct SortableTable<R: TableRow> {
    /// Current rows, in display order.
    pub rows: Vec<R>,
    pub sort: SortState,
    /// Index of the selected row; 0 when the table is empty.
    pub selection: usize,
    /// Index of the first visible row; never beyond the selection.
    pub scroll_offset: usize,
    /// Whether the next draw must repaint this table.
    pub needs_redraw: bool,
}

impl<R: TableRow> SortableTable<R> {
    /// Structural invariant: the selection stays inside the row set (or at
    /// 0 when there are no rows) and the scroll offset never passes the
    /// selection.
    pub open spec fn wf(self) -> bool {
        &&& self.rows@.len() == 0 ==> self.selection == 0 && self.scroll_offset == 0
        &&& self.rows@.len() > 0 ==> self.selection < self.rows@.len()
        &&& self.scroll_offset <= self.selection
    }

    /// An empty table with the given initial sort state.
    pub fn new(sort: SortState) -> (t: Self)
        ensures
            t.wf(),
            t.rows@.len() == 0,
            t.sort == sort,
            t.selection == 0,
            t.scroll_offset == 0,
            t.needs_redraw,
    {
        SortableTable {
            rows: Vec::new(),
            sort,
            selection: 0,
            scroll_offset: 0,
            needs_redraw: true,
        }
    }

    /// Replaces the row set wholesale, re-applies the active sort, and
    /// clamps the selection: a selection beyond the new last row moves to
    /// the new last row, and an emptied table selects 0.
    pub fn set_data(&mut self, data: Vec<R>)
        requires
            old(self).wf(),
        ensures
            final(self).wf(),
            final(self).sort == old(self).sort,
            final(self).rows@ == displayed(data@, old(self).sort),
            final(self).rows@.len() == data@.len(),
            final(self).selection == (if data@.len() == 0 {
                0int
            } else if old(self).selection >= data@.len() {
                data@.len() - 1
            } else {
                old(self).selection as int
            }),
            final(self).scroll_offset == (if old(self).scroll_offset <= final(self).selection {
                old(self).scroll_offset as int
            } else {
                final(self).selection as int
            }),
            final(self).needs_redraw,
    {
        let mut data = data;
        match self.sort {
            SortState::Unsorted => {},
            SortState::SortedAscending(c) => {
                sort_rows(&mut data, c, false);
            },
            SortState::SortedDescending(c) => {
                sort_rows(&mut data, c, true);
            },
        }
        self.rows = data;
        let n = self.rows.len();
        if n == 0 {
            self.selection = 0;
        } else if self.selection >= n {
            self.selection = n - 1;
        }
        if self.scroll_offset > self.selection {
            self.scroll_offset = self.selection;
        }
        self.needs_redraw = true;
    }

    /// Applies one user sort activation of `col` to the state machine. The
    /// rows themselves are re-ordered on the next ingest, which the redraw
    /// flag forces.
    pub fn toggle_sort(&mut self, col: usize)
        requires
            old(self).wf(),
        ensures
            final(self).wf(),
            final(self).sort == toggled(old(self).sort, col),
            final(self).rows@ == old(self).rows@,
            final(self).selection == old(self).selection,
            final(self).scroll_offset == old(self).scroll_offset,
            final(self).needs_redraw,
    {
        self.sort = match self.sort {
            SortState::SortedAscending(c) => if c == col {
                SortState::SortedDescending(col)
            } else {
                SortState::SortedAscending(col)
            },
            SortState::SortedDescending(c) => if c == col {
                SortState::SortedAscending(col)
            } else {
                SortState::SortedAscending(col)
            },
            SortState::Unsorted => SortState::SortedAscending(col),
        };
        self.needs_redraw = true;
    }

    /// The table after moving the selection one row down (towards the
    /// back), stopping at the last row.
    pub open spec fn moved_down(self) -> SortableTable<R> {
        if self.rows@.len() > 0 && self.selection < self.rows@.len() - 1 {
            SortableTable {
                selection: (self.selection + 1) as usize,
                needs_redraw: true,
                ..self
            }
        } else {
            self
        }
    }

    /// The table after moving the selection one row up (towards the
    /// front), stopping at the first row; the scroll offset follows it up.
    pub open spec fn moved_up(self) -> SortableTable<R> {
        if self.selection > 0 {
            let sel = (self.selection - 1) as usize;
            SortableTable {
                selection: sel,
                scroll_offset: (if self.scroll_offset <= sel {
                    self.scroll_offset
                } else {
                    sel
                }),
                needs_redraw: true,
                ..self
            }
        } else {
            self
        }
    }

    /// The table after jumping to the first row.
    pub open spec fn moved_to_first(self) -> SortableTable<R> {
        SortableTable { selection: 0, scroll_offset: 0, needs_redraw: true, ..self }
    }

    /// The table after jumping to the last row.
    pub open spec fn moved_to_last(self) -> SortableTable<R> {
        if self.rows@.len() > 0 {
            SortableTable {
                selection: (self.rows@.len() - 1) as usize,
                needs_redraw: true,
                ..self
            }
        } else {
            self
        }
    }

    /// Moves the selection one row down (towards the back), stopping at the
    /// last row.
    pub fn move_selection_down(&mut self)
        requires
            old(self).wf(),
        ensures
            final(self).wf(),
            *final(self) == old(self).moved_down(),
    {
        let n = self.rows.len();
        if n > 0 && self.selection < n - 1 {
            self.selection = self.selection + 1;
            self.needs_redraw = true;
        }
    }

    /// Moves the selection one row up (towards the front), stopping at the
    /// first row; the scroll offset follows it up.
    pub fn move_selection_up(&mut self)
        requires
            old(self).wf(),
        ensures
            final(self).wf(),
            *final(self) == old(self).moved_up(),
    {
        if self.selection > 0 {
            self.selection = self.selection - 1;
            if self.scroll_offset > self.selection {
                self.scroll_offset = self.selection;
            }
            self.needs_redraw = true;
        }
    }

    /// Jumps to the first row.
    pub fn select_first(&mut self)
        requires
            old(self).wf(),
        ensures
            final(self).wf(),
            *final(self) == old(self).moved_to_first(),
    {
        self.selection = 0;
        self.scroll_offset = 0;
        self.needs_redraw = true;
    }

    /// Jumps to the last row.
    pub fn select_last(&mut self)
        requires
            old(self).wf(),
        ensures
            final(self).wf(),
            *final(self) == old(self).moved_to_last(),
    {
        let n = self.rows.len();
        if n > 0 {
            self.selection = n - 1;
            self.needs_redraw = true;
        }
    }

    /// Shifts the scroll offset by the least amount that brings the
    /// selected row into a window of `window` visible rows: no move when it
    /// is already visible, no recentering jump otherwise.
    pub fn update_scroll(&mut self, window: usize)
        requires
            old(self).wf(),
        ensures
            final(self).wf(),
            final(self).rows@ == old(self).rows@,
            final(self).sort == old(self).sort,
            final(self).selection == old(self).selection,
            window > 0 ==> final(self).scroll_offset <= final(self).selection < final(self).scroll_offset + window,
            // Minimal shift: an already-visible selection leaves the offset
            // alone; one beyond the bottom edge puts it on the last visible
            // line.
            window > 0 && old(self).selection < old(self).scroll_offset + window ==> final(self).scroll_offset == old(self).scroll_offset,
            window > 0 && old(self).selection >= old(self).scroll_offset + window ==> final(self).scroll_offset == old(self).selection - window + 1,
            window == 0 ==> final(self).scroll_offset == old(self).scroll_offset,
    {
        if window > 0 && self.selection - self.scroll_offset >= window {
            self.scroll_offset = self.selection - window + 1;
        }
    }

    /// Greatest rendered width that any current row needs, per column:
    /// recomputed only when the caller signals layout invalidation, not on
    /// every ingest.
    pub fn column_widths(&self, n_cols: usize) -> (ws: Vec<usize>)
        ensures
            ws@.len() == n_cols,
            forall|c: int|
                0 <= c < n_cols ==> #[trigger] ws@[c] as nat == max_col_width(self.rows@, c),
    {
        let mut ws: Vec<usize> = Vec::new();
        let mut c: usize = 0;
        while c < n_cols
            invariant
                0 <= c <= n_cols,
                ws@.len() == c,
                forall|k: int|
                    0 <= k < c ==> #[trigger] ws@[k] as nat == max_col_width(self.rows@, k),
            decreases n_cols - c,
        {
            let n = self.rows.len();
            let mut m: usize = 0;
            let mut r: usize = 0;
            proof {
                assert(self.rows@.take(0) =~= Seq::<R>::empty());
            }
            while r < n
                invariant
                    0 <= r <= n,
                    n == self.rows@.len(),
                    m as nat == max_col_width(self.rows@.take(r as int), c as int),
                decreases n - r,
            {
                let w = self.rows[r].cell_width(c);
                proof {
                    assert(self.rows@.take(r + 1).drop_last() =~= self.rows@.take(r as int));
                    assert(self.rows@.take(r + 1).last() == self.rows@[r as int]);
                }
                if w > m {
                    m = w;
                }
                r = r + 1;
            }
            proof {
                assert(self.rows@.take(n as int) =~= self.rows@);
            }
            ws.push(m);
            c = c + 1;
        }
        ws
    }
}

} // verus!
