use emtk::config::{Config, ThemeName};
use emtk::hotkey::Hotkey;
use emtk::instance::{Action, Message, Task};
use emtk::log::{LogEvent, LogLevel};
use emtk::workspace::{
    window_title, App, BufferKind, Followup, Open, OpenOutcome, TabCommand, TabOutcome,
};

fn tab_ids(app: &App, p: usize) -> Vec<u64> {
    app.panes()[p].tabs.iter().map(|t| t.id).collect()
}

#[test]
fn new_window_has_one_history_tab() {
    let app = App::new();
    assert_eq!(app.panes().len(), 1);
    assert_eq!(app.focus(), app.panes()[0].id);
    assert!(matches!(app.panes()[0].tabs[0].buffer, BufferKind::InstanceHistory));
    assert_eq!(app.panes()[0].focus, Some(app.panes()[0].tabs[0].id));
    assert!(app.root().is_loading());
}

#[test]
fn new_tabs_get_focus() {
    let mut app = App::new();
    let a = app.new_tab().unwrap();
    let b = app.new_tab().unwrap();
    assert_ne!(a, b);
    assert_eq!(app.panes()[0].tabs.len(), 3);
    assert_eq!(app.panes()[0].focus, Some(b));
}

#[test]
fn closing_middle_tab_focuses_next() {
    let mut app = App::new();
    let first = tab_ids(&app, 0)[0];
    let a = app.new_tab().unwrap();
    let b = app.new_tab().unwrap();
    let pane = app.focus();
    let (f, lock) = app.closed_tab(pane, a);
    assert_eq!(f, Followup::Nothing);
    assert!(lock.is_none());
    assert_eq!(tab_ids(&app, 0), vec![first, b]);
    assert_eq!(app.panes()[0].focus, Some(b));
}

#[test]
fn closing_last_tab_focuses_previous() {
    let mut app = App::new();
    let first = tab_ids(&app, 0)[0];
    let a = app.new_tab().unwrap();
    let pane = app.focus();
    app.closed_tab(pane, a);
    assert_eq!(app.panes()[0].focus, Some(first));
}

#[test]
fn closing_only_tab_asks_for_new_tab() {
    let mut app = App::new();
    let first = tab_ids(&app, 0)[0];
    let pane = app.focus();
    let (f, _) = app.closed_tab(pane, first);
    assert_eq!(f, Followup::NewTab);
    assert!(app.panes()[0].tabs.is_empty());
}

#[test]
fn closing_unknown_tab_does_nothing() {
    let mut app = App::new();
    let pane = app.focus();
    assert_eq!(app.closed_tab(pane, 999), (Followup::Nothing, None));
    assert_eq!(app.closed_tab(pane + 100, 1), (Followup::Nothing, None));
    assert_eq!(app.panes()[0].tabs.len(), 1);
}

#[test]
fn closing_last_tab_of_second_pane_closes_pane() {
    let mut app = App::new();
    let second = app.new_pane().unwrap();
    assert_eq!(app.panes().len(), 2);
    let t = app.panes()[1].tabs[0].id;
    let (f, _) = app.closed_tab(second, t);
    assert_eq!(f, Followup::ClosePane(second));
    assert!(app.closed_pane(second));
    assert_eq!(app.panes().len(), 1);
    let only = app.panes()[0].id;
    assert!(!app.closed_pane(only));
}

#[test]
fn closing_instance_tab_returns_its_directory() {
    let mut app = App::new();
    let pane = app.focus();
    let out = app.open_in_tab(pane, Open::InstanceAt("/games/x".to_string()));
    assert!(matches!(out, OpenOutcome::Instance(Task::InitFromPath(p)) if p == "/games/x"));
    let t = app.panes()[0].focus.unwrap();
    // the instance learns its directory when it is opened
    let data = emtk::instance::InstanceData {
        path: "/games/x".to_string(),
        name: None,
        profile: emtk::instance::ProfileData { path: "/games/x/p".to_string(), load_order: emtk::load_order::LoadOrder::new() },
    };
    let r = app.update_instance(pane, Message::Init(data));
    assert!(matches!(r, TabOutcome::Answered(Action::Task(Task::Done(Message::RefreshProfiles)))));
    let (_, lock) = app.closed_tab(pane, t);
    assert_eq!(lock, Some("/games/x".to_string()));
}

#[test]
fn opening_same_instance_refreshes() {
    let mut app = App::new();
    let pane = app.focus();
    app.open_in_tab(pane, Open::InstanceAt(String::new()));
    assert!(matches!(app.open_in_tab(pane, Open::InstanceAt(String::new())), OpenOutcome::Refresh));
    assert!(matches!(app.open_in_tab(pane, Open::Logs), OpenOutcome::Shown));
    assert!(matches!(app.panes()[0].tabs[0].buffer, BufferKind::Logs));
    assert!(matches!(app.open_in_tab(pane, Open::InstanceHistory), OpenOutcome::InstanceHistory));
    assert!(matches!(app.open_in_tab(pane, Open::RecentInstance), OpenOutcome::Instance(Task::InitFromHistory)));
    assert!(matches!(app.open_in_tab(pane + 7, Open::Logs), OpenOutcome::NoTab));
}

#[test]
fn instance_failures_fall_back_to_history() {
    let mut app = App::new();
    let pane = app.focus();
    app.open_in_tab(pane, Open::RecentInstance);
    let r = app.update_instance(pane, Message::Loading);
    assert!(matches!(r, TabOutcome::Answered(Action::Loading)));
    assert!(app.panes()[0].tabs[0].loading);
    let r = app.update_instance(pane, Message::Loaded);
    assert!(matches!(r, TabOutcome::Answered(Action::Loaded)));
    assert!(!app.panes()[0].tabs[0].loading);
    let r = app.update_instance(pane, Message::InitFailed);
    assert!(matches!(r, TabOutcome::Answered(Action::InitFailed)));
    assert!(matches!(app.panes()[0].tabs[0].buffer, BufferKind::InstanceHistory));
    assert!(matches!(app.update_instance(pane, Message::Loaded), TabOutcome::NoInstance));
}

#[test]
fn refresh_reopens_focused_tab() {
    let mut app = App::new();
    assert!(matches!(app.refresh_tab(), OpenOutcome::InstanceHistory));
    let pane = app.focus();
    app.open_in_tab(pane, Open::Settings);
    assert!(matches!(app.refresh_tab(), OpenOutcome::Shown));
    app.open_in_tab(pane, Open::InstanceAt("/g".to_string()));
    assert!(matches!(app.refresh_tab(), OpenOutcome::Instance(Task::InitFromPath(p)) if p.is_empty()));
}

#[test]
fn hotkeys_map_to_tab_commands() {
    let mut app = App::new();
    let pane = app.focus();
    let t = app.panes()[0].tabs[0].id;
    assert_eq!(app.hotkey(Hotkey::ClosedTab), Some(TabCommand::CloseTab(pane, t)));
    assert_eq!(app.hotkey(Hotkey::NewTab), Some(TabCommand::NewTab));
    assert_eq!(app.hotkey(Hotkey::RefreshTab), Some(TabCommand::RefreshTab));
    app.closed_tab(pane, t);
    assert_eq!(app.hotkey(Hotkey::ClosedTab), None);
}

#[test]
fn tab_focus_and_hover() {
    let mut app = App::new();
    let pane = app.focus();
    let first = tab_ids(&app, 0)[0];
    let a = app.new_tab().unwrap();
    app.clicked_tab(pane, first);
    assert_eq!(app.panes()[0].focus, Some(first));
    app.entered_tab_region(pane, a);
    assert_eq!(app.panes()[0].hover, Some(a));
    app.exited_tab_region(pane, first);
    assert_eq!(app.panes()[0].hover, Some(a));
    app.exited_tab_region(pane, a);
    assert_eq!(app.panes()[0].hover, None);
    app.clicked_pane(42);
    assert_eq!(app.focus(), 42);
    assert_eq!(app.new_tab(), None);
}

#[test]
fn drag_targets_and_over() {
    let mut app = App::new();
    let first = tab_ids(&app, 0)[0];
    let a = app.new_tab().unwrap();
    let b = app.new_pane().unwrap();
    let c = app.panes()[1].tabs[0].id;
    assert_eq!(app.drag_targets(), Some(vec![first, c]));
    app.over_tab(vec![c, first]);
    assert_eq!(app.panes()[0].over, None);
    assert_eq!(app.panes()[1].over, Some(c));
    app.dragged_tab_canceled();
    assert_eq!(app.panes()[1].over, None);
    app.clicked_pane(b);
    assert_eq!(app.drag_targets(), Some(vec![first, a]));
}

#[test]
fn reorder_within_pane() {
    let mut app = App::new();
    let first = tab_ids(&app, 0)[0];
    let a = app.new_tab().unwrap();
    let b = app.new_tab().unwrap();
    // b is focused; drop it on the first tab
    assert_eq!(app.reorder_tabs(vec![first]), None);
    assert_eq!(tab_ids(&app, 0), vec![b, first, a]);
    assert_eq!(app.panes()[0].hover, Some(b));
}

#[test]
fn reorder_across_panes_closes_empty_pane() {
    let mut app = App::new();
    let first = tab_ids(&app, 0)[0];
    let second = app.new_pane().unwrap();
    let c = app.panes()[1].tabs[0].id;
    app.clicked_pane(second);
    assert_eq!(app.reorder_tabs(vec![first]), Some(second));
    assert_eq!(tab_ids(&app, 0), vec![c, first]);
    assert!(app.panes()[1].tabs.is_empty());
    assert_eq!(app.panes()[1].focus, None);
    assert_eq!(app.panes()[0].hover, Some(c));
}

#[test]
fn reorder_needs_a_target() {
    let mut app = App::new();
    assert_eq!(app.reorder_tabs(vec![]), None);
    assert_eq!(app.reorder_tabs(vec![12345]), None);
}

#[test]
fn toasts_for_errors() {
    let mut app = App::new();
    let info = LogEvent { lines: vec![("fine".to_string(), Some(LogLevel::Info))] };
    app.log(info);
    assert!(app.toasts().is_empty());
    let err = LogEvent { lines: vec![("boom".to_string(), Some(LogLevel::Error))] };
    app.log(err);
    assert_eq!(app.toasts().len(), 1);
    assert_eq!(app.toasts()[0].title, "Error");
    assert_eq!(app.toasts()[0].body, "boom");
    let later = LogEvent { lines: vec![("x".to_string(), None), ("boom".to_string(), Some(LogLevel::Error))] };
    app.log(later);
    assert_eq!(app.toasts().len(), 1);
    let kept: Vec<&str> = app.root().logs().iter().map(|e| e.lines[0].0.as_str()).collect();
    assert_eq!(kept, vec!["fine", "boom", "x"]);
    app.closed_toast(5);
    assert_eq!(app.toasts().len(), 1);
    app.closed_toast(0);
    assert!(app.toasts().is_empty());
}

#[test]
fn settings_and_loading() {
    let mut app = App::new();
    app.loaded();
    assert!(!app.root().is_loading());
    app.refresh_config(Config::with_theme_name("Nord".to_string()));
    assert_eq!(app.root().theme(), ThemeName::Nord);
}

#[test]
fn title_with_and_without_tab() {
    assert_eq!(window_title("0.9.5", None), "EXAMINER v0.9.5");
    assert_eq!(window_title("0.9.5", Some("Main")), "EXAMINER v0.9.5 - Main");
}

#[test]
fn selected_theme_is_written_and_used() {
    let mut app = App::new();
    let written = app.theme_selected(ThemeName::TokyoNightStorm);
    assert_eq!(written.theme(), "Tokyo Night Storm");
    app.refresh_config(written);
    assert_eq!(app.root().theme(), ThemeName::TokyoNightStorm);
    assert_eq!(app.root().config().theme(), "Tokyo Night Storm");
}

#[test]
fn new_window_root_is_default() {
    let app = App::new();
    assert_eq!(app.root().theme(), ThemeName::Ferra);
    assert_eq!(app.root().config().theme(), "Ferra");
    assert!(app.root().is_loading());
    assert!(app.root().logs().is_empty());
}

#[test]
fn reorder_keeps_every_tab_once() {
    let mut app = App::new();
    let first = tab_ids(&app, 0)[0];
    let a = app.new_tab().unwrap();
    let second = app.new_pane().unwrap();
    let c = app.panes()[1].tabs[0].id;
    app.clicked_pane(second);
    app.reorder_tabs(vec![a]);
    let mut all: Vec<u64> = app.panes().iter().flat_map(|p| p.tabs.iter().map(|t| t.id)).collect();
    all.sort();
    let mut expected = vec![first, a, c];
    expected.sort();
    assert_eq!(all, expected);
}

#[test]
fn new_pane_advances_both_counters() {
    let mut app = App::new();
    let p1 = app.new_pane().unwrap();
    let t1 = app.panes()[1].tabs[0].id;
    assert_eq!(app.panes()[1].hover, None);
    assert_eq!(app.panes()[1].over, None);
    app.clicked_pane(p1);
    let t2 = app.new_tab().unwrap();
    assert_eq!(t2, t1 + 1);
    let p2 = app.new_pane().unwrap();
    assert_eq!(p2, p1 + 1);
    assert_eq!(app.panes()[2].tabs[0].id, t2 + 1);
}

#[test]
fn tab_ids_stay_distinct() {
    let mut app = App::new();
    let first = tab_ids(&app, 0)[0];
    app.new_tab();
    let p = app.new_pane().unwrap();
    app.clicked_pane(p);
    app.new_tab();
    app.reorder_tabs(vec![first]);
    app.clicked_pane(0);
    app.new_tab();
    let mut all: Vec<u64> = app.panes().iter().flat_map(|q| q.tabs.iter().map(|t| t.id)).collect();
    let n = all.len();
    all.sort();
    all.dedup();
    assert_eq!(all.len(), n);
}
