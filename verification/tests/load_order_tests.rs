use emtk::load_order::{LoadOrder, LoadOrderEntry};
use emtk::table::{cell, column_kinds, row_is_valid, Cell, ColumnKind, Footer, Table};

fn entry(priority: u32, name: Option<&str>, version: Option<&str>) -> LoadOrderEntry {
    LoadOrderEntry {
        enabled: true,
        priority,
        display_name: name.map(|s| s.to_string()),
        version: version.map(|s| s.to_string()),
    }
}

fn sample() -> LoadOrder {
    let mut lo = LoadOrder::new();
    lo.insert("com.b".to_string(), entry(2, Some("B"), Some("1.0.0")));
    lo.insert("com.a".to_string(), entry(0, Some("A"), Some("0.1.0")));
    lo.insert("com.c".to_string(), entry(1, None, None));
    lo
}

fn priorities(lo: &LoadOrder) -> Vec<(String, u32)> {
    let mut v: Vec<(String, u32)> = lo.items().iter().map(|(id, e)| (id.clone(), e.priority)).collect();
    v.sort();
    v
}

#[test]
fn insert_adds_and_replaces() {
    let mut lo = sample();
    assert_eq!(lo.len(), 3);
    lo.insert("com.a".to_string(), entry(7, None, None));
    assert_eq!(lo.len(), 3);
    assert_eq!(lo.get("com.a").unwrap().priority, 7);
    assert!(lo.get("com.z").is_none());
    assert_eq!(lo.find("com.c"), Some(2));
}

#[test]
fn set_enabled_only_touches_that_plugin() {
    let mut lo = sample();
    assert!(lo.set_enabled("com.b", false));
    assert!(!lo.get("com.b").unwrap().enabled);
    assert!(lo.get("com.a").unwrap().enabled);
    assert!(!lo.set_enabled("com.missing", false));
}

#[test]
fn sorted_by_priority_orders_items() {
    let lo = sample();
    let sorted = lo.sorted_by_priority();
    let ids: Vec<&str> = sorted.iter().map(|(id, _)| id.as_str()).collect();
    assert_eq!(ids, vec!["com.a", "com.c", "com.b"]);
}

#[test]
fn moving_down_shifts_others_up() {
    // rows: a(0) c(1) b(2); drag row 0 to row 2
    let mut lo = sample();
    lo.move_priorities(0, 2);
    assert_eq!(
        priorities(&lo),
        vec![("com.a".to_string(), 2), ("com.b".to_string(), 1), ("com.c".to_string(), 0)]
    );
}

#[test]
fn moving_up_shifts_others_down() {
    // rows: a(0) c(1) b(2); drag row 2 to row 0
    let mut lo = sample();
    lo.move_priorities(2, 0);
    assert_eq!(
        priorities(&lo),
        vec![("com.a".to_string(), 1), ("com.b".to_string(), 0), ("com.c".to_string(), 2)]
    );
}

#[test]
fn moving_onto_itself_changes_nothing() {
    let mut lo = sample();
    lo.move_priorities(1, 1);
    assert_eq!(priorities(&sample()), priorities(&lo));
}

#[test]
fn table_rows_follow_priority() {
    let lo = sample();
    let t = Table::new(&lo, 10);
    let ids: Vec<&str> = t.rows().iter().map(|r| r.plugin_id.as_str()).collect();
    assert_eq!(ids, vec!["com.a", "com.c", "com.b"]);
    let row_ids: Vec<u64> = t.rows().iter().map(|r| r.id).collect();
    assert_eq!(row_ids, vec![10, 11, 12]);
    assert_eq!(t.next_id(), 13);
    assert_eq!(t.focus_row(), None);
    assert_eq!(t.over(), None);
}

#[test]
fn table_ids_restart_when_used_up() {
    let lo = sample();
    let t = Table::new(&lo, u64::MAX - 1);
    let row_ids: Vec<u64> = t.rows().iter().map(|r| r.id).collect();
    assert_eq!(row_ids, vec![0, 1, 2]);
}

#[test]
fn table_refresh_keeps_focus() {
    let lo = sample();
    let mut t = Table::new(&lo, 0);
    t.set_focus_row(Some(1));
    t.refresh(&lo);
    assert_eq!(t.focus_row(), Some(1));
    assert_eq!(t.rows()[0].id, 3);
}

#[test]
fn drop_targets_are_the_other_rows() {
    let lo = sample();
    let mut t = Table::new(&lo, 5);
    assert_eq!(t.drop_targets(), None);
    t.set_focus_row(Some(1));
    assert_eq!(t.drop_targets(), Some(vec![5, 7]));
    t.set_focus_row(Some(3));
    assert_eq!(t.drop_targets(), None);
    assert_eq!(t.index_of(7), Some(2));
    assert_eq!(t.index_of(8), None);
}

#[test]
fn cells_fall_back_for_missing_manifest() {
    let lo = sample();
    let t = Table::new(&lo, 0);
    let valid = &t.rows()[0];
    let invalid = &t.rows()[1];
    assert!(row_is_valid(valid));
    assert!(!row_is_valid(invalid));
    match cell(ColumnKind::Name, invalid) {
        Cell::Name { enabled, label, tooltip, valid } => {
            assert!(enabled);
            assert_eq!(label, "com.c");
            assert_eq!(tooltip, "com.c");
            assert!(!valid);
        }
        _ => panic!("name cell expected"),
    }
    match cell(ColumnKind::Version, invalid) {
        Cell::Version(v) => assert_eq!(v, "? ? ?"),
        _ => panic!("version cell expected"),
    }
    match cell(ColumnKind::Version, valid) {
        Cell::Version(v) => assert_eq!(v, "0.1.0"),
        _ => panic!("version cell expected"),
    }
    match cell(ColumnKind::Name, valid) {
        Cell::Name { label, .. } => assert_eq!(label, "A"),
        _ => panic!("name cell expected"),
    }
    assert!(matches!(cell(ColumnKind::Priority, &t.rows()[2]).clone_priority(), Some(2)));
    assert!(matches!(cell(ColumnKind::Handle, valid), Cell::DragHandle));
}

trait PriorityOf {
    fn clone_priority(&self) -> Option<u32>;
}

impl PriorityOf for Cell {
    fn clone_priority(&self) -> Option<u32> {
        match self {
            Cell::Priority(p) => Some(*p),
            _ => None,
        }
    }
}

#[test]
fn column_headers_widths_footers() {
    assert_eq!(
        column_kinds(),
        vec![ColumnKind::Handle, ColumnKind::Name, ColumnKind::Version, ColumnKind::Priority]
    );
    let headers: Vec<&str> = column_kinds().iter().map(|k| k.header()).collect();
    assert_eq!(headers, vec!["Order", "Name", "Version", "Priority"]);
    let widths: Vec<u32> = column_kinds().iter().map(|k| k.default_width()).collect();
    assert_eq!(widths, vec![34, 400, 150, 60]);
    assert_eq!(ColumnKind::Handle.footer(3), Footer::Nothing);
    assert_eq!(ColumnKind::Name.footer(3), Footer::NewPluginButton);
    assert_eq!(ColumnKind::Version.footer(3), Footer::Nothing);
    assert_eq!(ColumnKind::Priority.footer(3), Footer::RowCount(3));
}
