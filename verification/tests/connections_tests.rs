use bottom::connections::{clone_rows, ConnectionsWidgetColumn, ConnectionsWidgetData, ConnectionsWidgetState};
use bottom::table::SortState;
use bottom::text::{parse_name_key, str_lex_le};

fn row(name: &str, local: &str, remote: &str, status: &str) -> ConnectionsWidgetData {
    ConnectionsWidgetData {
        name: String::from(name),
        local_address: String::from(local),
        remote_address: String::from(remote),
        status: String::from(status),
    }
}

#[test]
fn descending_name_sort_puts_larger_pid_first() {
    // A connections table ingests two rows and sorts them descending by
    // the numeric prefix of the name: pid 1234 comes before pid 55.
    let mut state = ConnectionsWidgetState::new();
    assert_eq!(state.table.sort, SortState::SortedDescending(0));
    let rows = vec![
        row("1234/proc", "10.0.0.1:80", "8.8.8.8:443", "ESTABLISHED"),
        row("55/proc", "10.0.0.2:22", "1.1.1.1:53", "LISTEN"),
    ];
    state.ingest_data(rows);
    assert_eq!(state.table.rows.len(), 2);
    assert_eq!(state.table.rows[0].name, "1234/proc");
    assert_eq!(state.table.rows[1].name, "55/proc");
    assert!(!state.force_update_data);
}

#[test]
fn ascending_name_sort_puts_smaller_pid_first() {
    let mut state = ConnectionsWidgetState::new();
    state.table.toggle_sort(0);
    assert_eq!(state.table.sort, SortState::SortedAscending(0));
    let rows = vec![
        row("1234/proc", "a", "b", "c"),
        row("55/proc", "d", "e", "f"),
        row("9/tiny", "g", "h", "i"),
    ];
    state.ingest_data(rows);
    assert_eq!(state.table.rows[0].name, "9/tiny");
    assert_eq!(state.table.rows[1].name, "55/proc");
    assert_eq!(state.table.rows[2].name, "1234/proc");
}

#[test]
fn sorting_by_address_is_lexicographic() {
    let mut state = ConnectionsWidgetState::new();
    state.table.toggle_sort(1);
    assert_eq!(state.table.sort, SortState::SortedAscending(1));
    let rows = vec![
        row("1/a", "10.0.0.9:1", "x", "s"),
        row("2/b", "10.0.0.10:1", "y", "s"),
    ];
    state.ingest_data(rows);
    // Textual order: "10.0.0.10:1" < "10.0.0.9:1".
    assert_eq!(state.table.rows[0].local_address, "10.0.0.10:1");
    assert_eq!(state.table.rows[1].local_address, "10.0.0.9:1");
}

#[test]
fn equal_keys_keep_their_input_order() {
    // Both rows parse to the same numeric id, so a stable sort must keep
    // the input order, and re-ingesting must not change it.
    let mut state = ConnectionsWidgetState::new();
    let rows = vec![
        row("7/first", "a", "b", "c"),
        row("7/second", "d", "e", "f"),
    ];
    state.ingest_data(clone_rows(&rows));
    assert_eq!(state.table.rows[0].name, "7/first");
    assert_eq!(state.table.rows[1].name, "7/second");
    state.ingest_data(rows);
    assert_eq!(state.table.rows[0].name, "7/first");
    assert_eq!(state.table.rows[1].name, "7/second");
}

#[test]
fn name_key_parses_the_leading_numeric_id() {
    assert_eq!(parse_name_key("1234/proc"), 1234);
    assert_eq!(parse_name_key("55/proc"), 55);
    assert_eq!(parse_name_key("42"), 42);
    assert_eq!(parse_name_key("0/zero"), 0);
    // Unparsable prefixes fall back to 0.
    assert_eq!(parse_name_key(""), 0);
    assert_eq!(parse_name_key("/noid"), 0);
    assert_eq!(parse_name_key("abc/def"), 0);
    assert_eq!(parse_name_key("12a/def"), 0);
    // Overflowing a u32 falls back to 0.
    assert_eq!(parse_name_key("99999999999999999999/x"), 0);
    assert_eq!(parse_name_key("4294967295/max"), 4294967295);
}

#[test]
fn string_order_is_lexicographic() {
    assert!(str_lex_le("", "a"));
    assert!(str_lex_le("abc", "abc"));
    assert!(str_lex_le("abc", "abd"));
    assert!(!str_lex_le("abd", "abc"));
    assert!(str_lex_le("ab", "abc"));
    assert!(!str_lex_le("abc", "ab"));
}

#[test]
fn column_headers_read_as_expected() {
    assert_eq!(ConnectionsWidgetColumn::Name.text(), "PID/Name");
    assert_eq!(ConnectionsWidgetColumn::LocalAddress.text(), "Local Address");
    assert_eq!(ConnectionsWidgetColumn::RemoteAddress.text(), "Remote Address");
    assert_eq!(ConnectionsWidgetColumn::Status.text(), "Status");
}

#[test]
fn cell_values_pick_the_right_field() {
    let r = row("1/a", "local", "remote", "UP");
    assert_eq!(r.cell_value(&ConnectionsWidgetColumn::Name), "1/a");
    assert_eq!(r.cell_value(&ConnectionsWidgetColumn::LocalAddress), "local");
    assert_eq!(r.cell_value(&ConnectionsWidgetColumn::RemoteAddress), "remote");
    assert_eq!(r.cell_value(&ConnectionsWidgetColumn::Status), "UP");
}

#[test]
fn widget_sort_toggles_take_effect_on_the_next_ingest() {
    let mut state = ConnectionsWidgetState::new();
    state.ingest_data(vec![row("1/a", "x", "y", "z"), row("2/b", "p", "q", "r")]);
    assert!(!state.force_update_data);
    // Toggling marks the widget dirty but re-orders only on derivation.
    state.toggle_sort(&ConnectionsWidgetColumn::Name);
    assert!(state.force_update_data);
    assert_eq!(state.table.sort, SortState::SortedAscending(0));
    state.ingest_data(vec![row("2/b", "p", "q", "r"), row("1/a", "x", "y", "z")]);
    assert_eq!(state.table.rows[0].name, "1/a");
    // Toggling the same column twice more returns to the first activation.
    state.toggle_sort(&ConnectionsWidgetColumn::Name);
    state.toggle_sort(&ConnectionsWidgetColumn::Name);
    assert_eq!(state.table.sort, SortState::SortedAscending(0));
}
