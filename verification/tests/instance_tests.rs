use emtk::encode::encode_path;
use emtk::instance::{
    Action, Instance, InstanceData, MarkdownKind, Message, Plugin, PluginLayout, ProfileControls,
    ProfileData, State, Task, ZoneUse,
};
use emtk::load_order::{LoadOrder, LoadOrderEntry};

fn entry(priority: u32) -> LoadOrderEntry {
    LoadOrderEntry { enabled: true, priority, display_name: None, version: None }
}

fn data() -> InstanceData {
    let mut lo = LoadOrder::new();
    lo.insert("com.a".to_string(), entry(0));
    lo.insert("com.b".to_string(), entry(1));
    lo.insert("com.c".to_string(), entry(2));
    InstanceData {
        path: "/games/exanima".to_string(),
        name: None,
        profile: ProfileData { path: "/games/exanima/.emtk/profiles/default".to_string(), load_order: lo },
    }
}

fn opened() -> Instance {
    let mut i = Instance::default();
    let a = i.update(Message::Init(data()));
    assert!(matches!(a, Action::Task(Task::Done(Message::RefreshProfiles))));
    i
}

fn row_ids(i: &Instance) -> Vec<String> {
    i.table().rows().iter().map(|r| r.plugin_id.clone()).collect()
}

#[test]
fn new_and_with_path_start_opening() {
    let (i, t) = Instance::new();
    assert!(matches!(t, Task::InitFromHistory));
    assert!(matches!(i.plugin(), Plugin::Closed));
    let (_, t) = Instance::with_path("/x");
    assert!(matches!(t, Task::InitFromPath(p) if p == "/x"));
}

#[test]
fn with_instance_lists_profiles() {
    let (i, t) = Instance::with_instance(data());
    assert!(matches!(t, Task::ListProfiles { instance_path } if instance_path == "/games/exanima"));
    assert_eq!(row_ids(&i), vec!["com.a", "com.b", "com.c"]);
}

#[test]
fn init_shows_load_order() {
    let i = opened();
    assert_eq!(row_ids(&i), vec!["com.a", "com.b", "com.c"]);
    assert_eq!(i.title(), "/games/exanima");
}

#[test]
fn title_prefers_name() {
    let mut d = data();
    d.name = Some("Main".to_string());
    let (i, _) = Instance::with_instance(d);
    assert_eq!(i.title(), "Main");
}

#[test]
fn clicked_row_reads_readme() {
    let mut i = opened();
    let a = i.update(Message::ClickedRow(1));
    assert!(matches!(a, Action::Task(Task::Done(Message::PluginReadMarkdown(MarkdownKind::Readme)))));
    assert_eq!(i.table().focus_row(), Some(1));
    assert_eq!(i.focused_plugin_id(), Some("com.b".to_string()));
    let a = i.update(Message::PluginReadMarkdown(MarkdownKind::License));
    match a {
        Action::Task(Task::ReadMarkdown { instance_path, plugin_id, kind }) => {
            assert_eq!(instance_path, "/games/exanima");
            assert_eq!(plugin_id, "com.b");
            assert_eq!(kind, MarkdownKind::License);
        }
        _ => panic!("read expected"),
    }
}

#[test]
fn plugin_tasks_need_a_focused_row() {
    let mut i = opened();
    assert!(matches!(i.update(Message::PluginReadSettings), Action::Task(Task::Nothing)));
    assert!(matches!(i.update(Message::PluginReadMarkdown(MarkdownKind::Readme)), Action::Task(Task::Nothing)));
    i.update(Message::ClickedRow(0));
    assert!(matches!(i.update(Message::PluginReadSettings), Action::Task(Task::ReadSettings { .. })));
}

#[test]
fn drag_and_drop_targets() {
    let mut i = opened();
    assert!(matches!(i.update(Message::DraggedRow), Action::Nothing));
    i.update(Message::ClickedRow(0));
    let ids: Vec<u64> = i.table().rows().iter().map(|r| r.id).collect();
    match i.update(Message::DraggedRow) {
        Action::Task(Task::FindZones { targets, then }) => {
            assert_eq!(targets, vec![ids[1], ids[2]]);
            assert_eq!(then, ZoneUse::Over);
        }
        _ => panic!("zones expected"),
    }
    i.update(Message::OverRow(vec![ids[2]]));
    assert_eq!(i.table().over(), Some(ids[2]));
    match i.update(Message::DroppedRow) {
        Action::Task(Task::FindZones { then, .. }) => assert_eq!(then, ZoneUse::Reorder),
        _ => panic!("zones expected"),
    }
    assert_eq!(i.table().over(), None);
    i.update(Message::OverRow(vec![]));
    assert_eq!(i.table().over(), None);
    i.update(Message::OverRow(vec![ids[1]]));
    i.update(Message::DraggedRowCanceled);
    assert_eq!(i.table().over(), None);
}

#[test]
fn reorder_moves_the_focused_row() {
    let mut i = opened();
    i.update(Message::ClickedRow(0));
    let target = i.table().rows()[2].id;
    let a = i.update(Message::ReorderRows(vec![target]));
    match a {
        Action::Task(Task::WriteLoadOrder { profile_path, load_order }) => {
            assert_eq!(profile_path, "/games/exanima/.emtk/profiles/default");
            assert_eq!(load_order.get("com.a").unwrap().priority, 2);
            assert_eq!(load_order.get("com.b").unwrap().priority, 0);
            assert_eq!(load_order.get("com.c").unwrap().priority, 1);
        }
        _ => panic!("write expected"),
    }
    assert_eq!(row_ids(&i), vec!["com.b", "com.c", "com.a"]);
    assert_eq!(i.table().focus_row(), None);
    let prios: Vec<u32> = i.table().rows().iter().map(|r| r.plugin.priority).collect();
    assert_eq!(prios, vec![0, 1, 2]);
}

#[test]
fn reorder_without_focus_or_target_does_nothing() {
    let mut i = opened();
    assert!(matches!(i.update(Message::ReorderRows(vec![1])), Action::Nothing));
    i.update(Message::ClickedRow(0));
    assert!(matches!(i.update(Message::ReorderRows(vec![])), Action::Nothing));
    assert!(matches!(i.update(Message::ReorderRows(vec![999_999])), Action::Nothing));
    assert_eq!(row_ids(&i), vec!["com.a", "com.b", "com.c"]);
}

#[test]
fn entry_toggled_updates_table_and_load_order() {
    let mut i = opened();
    match i.update(Message::EntryToggled(1, false)) {
        Action::Task(Task::WriteLoadOrder { load_order, .. }) => {
            assert!(!load_order.get("com.b").unwrap().enabled);
            assert!(load_order.get("com.a").unwrap().enabled);
        }
        _ => panic!("write expected"),
    }
    assert!(!i.table().rows()[1].plugin.enabled);
    // a row that does not exist still writes the load order, unchanged
    match i.update(Message::EntryToggled(9, false)) {
        Action::Task(Task::WriteLoadOrder { load_order, .. }) => {
            assert!(load_order.get("com.a").unwrap().enabled);
        }
        _ => panic!("write expected"),
    }
}

#[test]
fn plugin_pane_states() {
    let mut i = opened();
    assert_eq!(i.plugin_layout(), PluginLayout::TableOnly);
    i.update(Message::PluginMarkdownChanged(MarkdownKind::Changelog, "# Changes".to_string()));
    assert!(matches!(i.plugin(), Plugin::Markdown(t) if t == "# Changes"));
    assert!(i.markdown_tab_active(MarkdownKind::Changelog));
    assert!(!i.markdown_tab_active(MarkdownKind::Readme));
    assert_eq!(i.plugin_layout(), PluginLayout::Split);
    i.update(Message::PluginMaximizeToggled);
    assert_eq!(i.plugin_layout(), PluginLayout::Maximized);
    i.update(Message::PluginSettingsLoaded(true));
    assert!(i.settings_tab_active());
    assert_eq!(i.markdown_kind(), None);
    i.update(Message::PluginClosed);
    assert!(matches!(i.plugin(), Plugin::Closed));
    assert!(!i.is_plugin_maximized());
    assert_eq!(i.plugin_layout(), PluginLayout::TableOnly);
}

#[test]
fn editor_edit_and_save() {
    let mut i = opened();
    i.update(Message::ClickedRow(2));
    // no document chosen yet: nothing to edit
    assert!(matches!(i.update(Message::PluginEditMarkdown), Action::Nothing));
    i.update(Message::PluginMarkdownChanged(MarkdownKind::Readme, "text".to_string()));
    match i.update(Message::PluginEditMarkdown) {
        Action::Task(Task::LoadEditor { plugin_id, kind, .. }) => {
            assert_eq!(plugin_id, "com.c");
            assert_eq!(kind, MarkdownKind::Readme);
        }
        _ => panic!("editor expected"),
    }
    i.update(Message::TextEditorLoaded);
    assert!(matches!(i.plugin(), Plugin::Editor { is_dirty: false, .. }));
    assert!(matches!(i.update(Message::PluginEditMarkdown), Action::Nothing));
    i.update(Message::TextEditorAction { is_edit: false });
    assert!(matches!(i.plugin(), Plugin::Editor { is_dirty: false, .. }));
    i.update(Message::TextEditorAction { is_edit: true });
    assert!(matches!(i.plugin(), Plugin::Editor { is_dirty: true, .. }));
    i.update(Message::TextEditorAction { is_edit: false });
    assert!(matches!(i.plugin(), Plugin::Editor { is_dirty: true, .. }));
    match i.update(Message::PluginSaveMarkdown("new text".to_string())) {
        Action::Task(Task::SaveMarkdown { text, kind, plugin_id, .. }) => {
            assert_eq!(text, "new text");
            assert_eq!(kind, MarkdownKind::Readme);
            assert_eq!(plugin_id, "com.c");
        }
        _ => panic!("save expected"),
    }
}

#[test]
fn save_outside_editor_does_nothing() {
    let mut i = opened();
    i.update(Message::ClickedRow(0));
    assert!(matches!(i.update(Message::PluginSaveMarkdown("x".to_string())), Action::Nothing));
}

#[test]
fn profile_form_flow() {
    let mut i = opened();
    assert_eq!(i.profile_controls(), ProfileControls::NoProfiles);
    i.update(Message::Profiles(vec!["/p/default".to_string(), "/p/modded".to_string()]));
    assert_eq!(i.profiles().len(), 2);
    assert_eq!(i.profile_controls(), ProfileControls::Picker);
    i.update(Message::StateChanged(State::ProfileForm));
    assert_eq!(i.profile_controls(), ProfileControls::Form);
    assert!(!i.can_submit_profile());
    i.update(Message::ProfileFormInputChanged("testing".to_string()));
    assert!(i.can_submit_profile());
    match i.update(Message::ProfileFormSubmitted) {
        Action::Task(Task::CreateProfile { instance_path, name }) => {
            assert_eq!(instance_path, "/games/exanima");
            assert_eq!(name, "testing");
        }
        _ => panic!("create expected"),
    }
    // leaving the form clears it
    i.update(Message::StateChanged(State::Default));
    assert_eq!(i.profile_form_input(), "");
    assert_eq!(i.state(), State::Default);
    // entering the form does not
    i.update(Message::ProfileFormInputChanged("kept".to_string()));
    i.update(Message::StateChanged(State::ProfileForm));
    assert_eq!(i.profile_form_input(), "kept");
}

#[test]
fn refresh_profiles_keeps_list_on_error() {
    let mut i = opened();
    i.refresh_profiles(Some(vec!["/p/a".to_string()]));
    assert_eq!(i.profiles().len(), 1);
    i.refresh_profiles(None);
    assert_eq!(i.profiles().len(), 1);
}

#[test]
fn profile_messages_ask_for_work() {
    let mut i = opened();
    assert!(matches!(i.update(Message::ProfileDeleted), Action::Task(Task::DeleteProfile { profile_path }) if profile_path == "/games/exanima/.emtk/profiles/default"));
    assert!(matches!(i.update(Message::ProfileSelected("other".to_string())), Action::Task(Task::SelectProfile { name, .. }) if name == "other"));
    assert!(matches!(i.update(Message::RefreshProfiles), Action::Task(Task::ListProfiles { instance_path }) if instance_path == "/games/exanima"));
    assert!(matches!(i.update(Message::Launch), Action::Task(Task::Launch { profile_path }) if profile_path == "/games/exanima/.emtk/profiles/default"));
}

#[test]
fn profile_changed_caches_encoded_path() {
    let mut i = opened();
    let mut lo = LoadOrder::new();
    lo.insert("com.z".to_string(), entry(0));
    let profile = ProfileData { path: "C:\\games\\p".to_string(), load_order: lo };
    match i.update(Message::ProfileChanged(profile)) {
        Action::Task(Task::CacheProfile { instance_path, encoded_profile_path }) => {
            assert_eq!(instance_path, "/games/exanima");
            assert_eq!(encoded_profile_path, "\"C:\\\\games\\\\p\"");
        }
        _ => panic!("cache expected"),
    }
    assert_eq!(row_ids(&i), vec!["com.z"]);
    assert_eq!(i.inner().profile.path, "C:\\games\\p");
}

#[test]
fn encode_path_quotes_and_escapes() {
    assert_eq!(encode_path("plain"), Some("\"plain\"".to_string()));
    assert_eq!(encode_path("a\"b"), Some("\"a\\\"b\"".to_string()));
}

#[test]
fn simple_messages() {
    let mut i = opened();
    assert!(matches!(i.update(Message::InitFailed), Action::InitFailed));
    assert!(matches!(i.update(Message::Loaded), Action::Loaded));
    assert!(matches!(i.update(Message::Loading), Action::Loading));
    assert!(matches!(i.update(Message::NewPlugin), Action::Nothing));
    assert!(matches!(i.update(Message::SettingsPressed), Action::Nothing));
    assert!(matches!(i.update(Message::PluginSettingsChanged), Action::Nothing));
    assert!(matches!(i.update(Message::LinkClicked("https://x".to_string())), Action::Task(Task::OpenUrl(u)) if u == "https://x"));
    assert!(matches!(i.update(Message::PluginDirectoryOpened("/d".to_string())), Action::Task(Task::OpenPath(p)) if p == "/d"));
    assert_eq!(MarkdownKind::Changelog.label(), "changelog");
    assert_eq!(MarkdownKind::License.label(), "license");
    assert_eq!(MarkdownKind::Readme.label(), "readme");
    assert_eq!(MarkdownKind::default(), MarkdownKind::Readme);
    assert_eq!(State::default(), State::Default);
}

#[test]
fn new_views_start_empty() {
    for (i, _) in [Instance::new(), Instance::with_path("/x")] {
        assert!(i.inner().path.is_empty());
        assert!(i.inner().name.is_none());
        assert!(i.inner().profile.path.is_empty());
        assert_eq!(i.inner().profile.load_order.len(), 0);
        assert!(!i.is_plugin_maximized());
        assert_eq!(i.markdown_kind(), None);
        assert!(matches!(i.plugin(), Plugin::Closed));
        assert!(i.profiles().is_empty());
        assert_eq!(i.profile_form_input(), "");
        assert_eq!(i.state(), State::Default);
        assert!(i.table().rows().is_empty());
        assert_eq!(i.table().focus_row(), None);
        assert_eq!(i.table().over(), None);
        assert_eq!(i.table().next_id(), 0);
    }
}

#[test]
fn rebuilt_tables_get_new_row_ids() {
    let mut i = opened();
    let before: Vec<u64> = i.table().rows().iter().map(|r| r.id).collect();
    assert_eq!(before, vec![0, 1, 2]);
    let mut lo = LoadOrder::new();
    lo.insert("com.x".to_string(), entry(0));
    let p = ProfileData { path: "/games/exanima/.emtk/profiles/other".to_string(), load_order: lo };
    i.update(Message::ProfileChanged(p));
    let after: Vec<u64> = i.table().rows().iter().map(|r| r.id).collect();
    assert_eq!(after, vec![3]);
    assert_eq!(i.table().next_id(), 4);
}

#[test]
fn profile_picker_names() {
    let mut i = opened();
    i.update(Message::Profiles(vec![
        "/games/exanima/.emtk/profiles/default".to_string(),
        "/games/exanima/.emtk/profiles/speedrun".to_string(),
        "/".to_string(),
    ]));
    assert_eq!(i.profile_names(), vec!["default", "speedrun"]);
    assert_eq!(i.current_profile_name(), Some("default".to_string()));
}

#[test]
fn present_names_keep_order() {
    let names = vec![Some("a".to_string()), None, Some("c".to_string())];
    assert_eq!(emtk::instance::present_names(names), vec!["a", "c"]);
}
