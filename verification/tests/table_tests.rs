use bottom::connections::ConnectionsWidgetData;
use bottom::table::{SortState, SortableTable};

fn named(name: &str) -> ConnectionsWidgetData {
    ConnectionsWidgetData {
        name: String::from(name),
        local_address: String::new(),
        remote_address: String::new(),
        status: String::new(),
    }
}

fn rows(names: &[&str]) -> Vec<ConnectionsWidgetData> {
    names.iter().map(|n| named(n)).collect()
}

#[test]
fn selection_clamps_when_the_row_set_shrinks() {
    // With 5 rows and the last selected, ingesting 2 rows clamps the
    // selection to the new last row; an empty ingest selects 0.
    let mut t: SortableTable<ConnectionsWidgetData> = SortableTable::new(SortState::Unsorted);
    t.set_data(rows(&["1/a", "2/b", "3/c", "4/d", "5/e"]));
    t.select_last();
    assert_eq!(t.selection, 4);
    t.set_data(rows(&["1/a", "2/b"]));
    assert_eq!(t.selection, 1);
    t.set_data(rows(&[]));
    assert_eq!(t.selection, 0);
}

#[test]
fn selection_is_kept_when_it_still_fits() {
    let mut t: SortableTable<ConnectionsWidgetData> = SortableTable::new(SortState::Unsorted);
    t.set_data(rows(&["1/a", "2/b", "3/c"]));
    t.move_selection_down();
    assert_eq!(t.selection, 1);
    t.set_data(rows(&["9/x", "8/y", "7/z"]));
    assert_eq!(t.selection, 1);
}

#[test]
fn toggling_the_same_column_twice_returns_to_the_first_activation() {
    // First activation sorts ascending; two further toggles on the same
    // column land back on ascending.
    let mut t: SortableTable<ConnectionsWidgetData> = SortableTable::new(SortState::Unsorted);
    t.toggle_sort(2);
    assert_eq!(t.sort, SortState::SortedAscending(2));
    t.toggle_sort(2);
    assert_eq!(t.sort, SortState::SortedDescending(2));
    t.toggle_sort(2);
    assert_eq!(t.sort, SortState::SortedAscending(2));
}

#[test]
fn toggling_a_different_column_starts_ascending() {
    let mut t: SortableTable<ConnectionsWidgetData> = SortableTable::new(SortState::Unsorted);
    t.toggle_sort(0);
    t.toggle_sort(0);
    assert_eq!(t.sort, SortState::SortedDescending(0));
    t.toggle_sort(3);
    assert_eq!(t.sort, SortState::SortedAscending(3));
}

#[test]
fn selection_moves_stop_at_the_edges() {
    let mut t: SortableTable<ConnectionsWidgetData> = SortableTable::new(SortState::Unsorted);
    t.set_data(rows(&["1/a", "2/b", "3/c"]));
    assert_eq!(t.selection, 0);
    t.move_selection_up();
    assert_eq!(t.selection, 0);
    t.move_selection_down();
    t.move_selection_down();
    t.move_selection_down();
    assert_eq!(t.selection, 2);
    t.select_first();
    assert_eq!(t.selection, 0);
    assert_eq!(t.scroll_offset, 0);
}

#[test]
fn scroll_follows_the_selection_with_minimal_shifts() {
    let mut t: SortableTable<ConnectionsWidgetData> = SortableTable::new(SortState::Unsorted);
    t.set_data(rows(&["1/a", "2/b", "3/c", "4/d", "5/e", "6/f"]));
    // Selection on row 4, window of 3 rows: the offset moves just enough
    // to put the selection on the last visible line.
    for _ in 0..4 {
        t.move_selection_down();
    }
    t.update_scroll(3);
    assert_eq!(t.scroll_offset, 2);
    // Already visible: no move, no recentering.
    t.update_scroll(3);
    assert_eq!(t.scroll_offset, 2);
    // Moving back up drags the offset along only once it passes the top.
    t.move_selection_up();
    t.move_selection_up();
    t.move_selection_up();
    assert_eq!(t.selection, 1);
    assert_eq!(t.scroll_offset, 1);
}

#[test]
fn column_widths_are_the_maximum_cell_widths() {
    let mut t: SortableTable<ConnectionsWidgetData> = SortableTable::new(SortState::Unsorted);
    let mut data = rows(&["1/a", "10/abc"]);
    data[0].local_address = String::from("addr:1");
    data[1].local_address = String::from("x");
    data[0].status = String::from("UP");
    data[1].status = String::from("LISTEN");
    t.set_data(data);
    let widths = t.column_widths(4);
    assert_eq!(widths, vec![6, 6, 0, 6]);
}

#[test]
fn ingests_keep_rows_under_the_active_sort() {
    let mut t: SortableTable<ConnectionsWidgetData> = SortableTable::new(SortState::Unsorted);
    t.toggle_sort(0);
    t.set_data(rows(&["30/c", "10/a", "20/b"]));
    let names: Vec<&str> = t.rows.iter().map(|r| r.name.as_str()).collect();
    assert_eq!(names, vec!["10/a", "20/b", "30/c"]);
    t.toggle_sort(0);
    t.set_data(rows(&["30/c", "10/a", "20/b"]));
    let names: Vec<&str> = t.rows.iter().map(|r| r.name.as_str()).collect();
    assert_eq!(names, vec!["30/c", "20/b", "10/a"]);
}
