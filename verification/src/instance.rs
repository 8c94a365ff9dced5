//! The view state of one game instance in the launcher, and how it answers
//! each message of the user interface.

use vstd::prelude::*;

use crate::encode::{encode_path, ron_text};
use crate::path::{file_name, path_file_name};
use crate::load_order::{
    lemma_moved_priority_is_row_move, lemma_moved_priority_undo, lemma_sorted_after_move, lo_moved,
    distinct_ids, moved_item, moved_priority, numbered, seq_move, LoadOrder, LoadOrderEntry,
    LoadOrderItem,
};
use crate::table::{
    focused, ids_except, numbered_from, row_ids, row_items, rows_show, Row, Table, TableView,
};

verus! {

/// The different states the instance view can be in.
#[derive(Debug, Clone, Copy, PartialEq, Eq, Structural)]
pub enum State {
    /// The profile picker is shown.
    Default,
    /// The form for a new profile is shown.
    ProfileForm,
}

impl Default for State {
    fn default() -> (s: State)
        ensures
            s == State::Default,
    {
        State::Default
    }
}

/// The markdown documents a plugin ships with.
#[derive(Debug, Clone, Copy, PartialEq, Eq, Structural)]
pub enum MarkdownKind {
    Changelog,
    License,
    Readme,
}

impl Default for MarkdownKind {
    fn default() -> (k: MarkdownKind)
        ensures
            k == MarkdownKind::Readme,
    {
        MarkdownKind::Readme
    }
}

impl MarkdownKind {
    /// The lower-case name of the document, as messages name it.
    pub fn label(&self) -> (s: &'static str)
        ensures
            s@ == (match *self {
                MarkdownKind::Changelog => "changelog"@,
                MarkdownKind::License => "license"@,
                MarkdownKind::Readme => "readme"@,
            }),
    {
        match self {
            MarkdownKind::Changelog => "changelog",
            MarkdownKind::License => "license",
            MarkdownKind::Readme => "readme",
        }
    }
}

/// What the plugin pane beside the load order table shows.
#[derive(Debug)]
pub enum Plugin {
    /// A markdown document opened for editing. The text being edited is kept
    /// by the editor widget; here only whether it has unsaved changes and
    /// whether the preview is shown.
    Editor { is_dirty: bool, is_preview: bool },
    /// A markdown document, as its source text.
    Markdown(String),
    /// Nothing: the pane is closed.
    Closed,
    /// The plugin's settings; `true` when a settings file was read and parsed.
    Settings(bool),
}

/// What the launcher knows of a profile: its directory and its load order.
#[derive(Debug)]
pub struct ProfileData {
    pub path: String,
    pub load_order: LoadOrder,
}

/// What the launcher knows of an installed game instance.
#[derive(Debug)]
pub struct InstanceData {
    /// The game directory.
    pub path: String,
    /// The name given in the instance's settings, if any.
    pub name: Option<String>,
    /// The profile in use.
    pub profile: ProfileData,
}

impl Default for InstanceData {
    /// An instance with no path, no name and an empty profile.
    fn default() -> (r: InstanceData)
        ensures
            r.path@.len() == 0,
            r.name is None,
            r.profile.path@.len() == 0,
            r.profile.load_order@.len() == 0,
    {
        InstanceData {
            path: String::new(),
            name: None,
            profile: ProfileData { path: String::new(), load_order: LoadOrder::new() },
        }
    }
}

/// How a row dragged over other rows asks where it is.
#[derive(Debug, Clone, Copy, PartialEq, Eq, Structural)]
pub enum ZoneUse {
    /// The answer becomes `Message::OverRow`.
    Over,
    /// The answer becomes `Message::ReorderRows`.
    Reorder,
}

/// The messages the instance view answers.
#[derive(Debug)]
pub enum Message {
    ClickedRow(usize),
    /// The focused row is being dragged.
    DraggedRow,
    DraggedRowCanceled,
    /// The focused row was dropped.
    DroppedRow,
    EntryToggled(usize, bool),
    Init(InstanceData),
    InitFailed,
    Launch,
    LinkClicked(String),
    Loaded,
    Loading,
    NewPlugin,
    /// The ids of the rows under the dragged row, nearest first.
    OverRow(Vec<u64>),
    PluginClosed,
    PluginDirectoryOpened(String),
    PluginEditMarkdown,
    PluginMaximizeToggled,
    PluginMarkdownChanged(MarkdownKind, String),
    PluginReadMarkdown(MarkdownKind),
    PluginReadSettings,
    /// Save the editor's text, which the message carries.
    PluginSaveMarkdown(String),
    PluginSettingsChanged,
    PluginSettingsLoaded(bool),
    ProfileChanged(ProfileData),
    ProfileDeleted,
    ProfileFormInputChanged(String),
    ProfileFormSubmitted,
    Profiles(Vec<String>),
    ProfileSelected(String),
    RefreshProfiles,
    /// The ids of the rows under the dropped row, nearest first.
    ReorderRows(Vec<u64>),
    SettingsPressed,
    StateChanged(State),
    /// The editor was opened with a document's text.
    TextEditorLoaded,
    /// The editor performed an action; `is_edit` when it changes the text.
    TextEditorAction { is_edit: bool },
}

/// Work outside the view state that a message asks for. Each kind says what
/// its runner does and which messages it answers with.
#[derive(Debug)]
pub enum Task {
    /// Nothing.
    Nothing,
    /// Sends the message back at once.
    Done(Message),
    /// Asks which of the rows `targets` lie under the dragged row; the answer
    /// comes back as `OverRow` or `ReorderRows`.
    FindZones { targets: Vec<u64>, then: ZoneUse },
    /// Writes the load order into the profile's load order file.
    WriteLoadOrder { profile_path: String, load_order: LoadOrder },
    /// Points the game at the profile's load order file and starts it.
    Launch { profile_path: String },
    /// Opens a link in the browser.
    OpenUrl(String),
    /// Opens a directory in the file manager.
    OpenPath(String),
    /// Reads a plugin's markdown document; answers `PluginMarkdownChanged`.
    ReadMarkdown { instance_path: String, plugin_id: String, kind: MarkdownKind },
    /// Reads a plugin's markdown document into the editor; answers
    /// `TextEditorLoaded`.
    LoadEditor { instance_path: String, plugin_id: String, kind: MarkdownKind },
    /// Reads and parses a plugin's settings; answers `PluginSettingsLoaded`.
    ReadSettings { instance_path: String, plugin_id: String },
    /// Writes a plugin's markdown document; answers `PluginMarkdownChanged`.
    SaveMarkdown { instance_path: String, plugin_id: String, kind: MarkdownKind, text: String },
    /// Writes the encoded profile path into the instance's cache; answers
    /// `Loading`, then `Loaded`.
    CacheProfile { instance_path: String, encoded_profile_path: String },
    /// Deletes the profile directory; answers `Loading`, then, when it was
    /// deleted, `ProfileSelected` with the default profile and
    /// `RefreshProfiles`.
    DeleteProfile { profile_path: String },
    /// Creates a profile; answers `ProfileChanged`, `RefreshProfiles` and
    /// `StateChanged(State::Default)`.
    CreateProfile { instance_path: String, name: String },
    /// Opens a profile; answers `ProfileChanged`.
    SelectProfile { instance_path: String, name: String },
    /// Lists the instance's profile directories; answers `Loading`,
    /// `Profiles` when they could be listed, then `Loaded`.
    ListProfiles { instance_path: String },
    /// Opens the most recently used instance; answers `Loading`, then `Init`
    /// or `InitFailed`, then `Loading` again.
    InitFromHistory,
    /// Opens the instance in a directory; answers `Loading`, then `Init` or
    /// `InitFailed`, then `Loaded`.
    InitFromPath(String),
}

/// What the instance view asks of the launcher after a message.
#[derive(Debug)]
pub enum Action {
    /// The instance could not be opened.
    InitFailed,
    Loaded,
    Loading,
    Nothing,
    Task(Task),
}

/// The view of the instance view state.
pub struct InstanceView {
    /// The game directory.
    pub path: Seq<char>,
    pub name: Option<Seq<char>>,
    /// The directory of the profile in use.
    pub profile_path: Seq<char>,
    /// The load order of the profile in use.
    pub load_order: Seq<LoadOrderItem>,
    pub is_plugin_maximized: bool,
    pub markdown_kind: Option<MarkdownKind>,
    pub plugin: Plugin,
    /// The directories of the instance's profiles.
    pub profiles: Seq<Seq<char>>,
    pub profile_form_input: Seq<char>,
    pub state: State,
    pub table: TableView,
}

/// The characters of each text.
pub open spec fn texts(v: Seq<String>) -> Seq<Seq<char>> {
    v.map_values(|s: String| s@)
}

/// The characters of an optional text.
pub open spec fn opt_text(o: Option<String>) -> Option<Seq<char>> {
    match o {
        Some(s) => Some(s@),
        None => None,
    }
}

/// The present texts of `s`, in order.
pub open spec fn present(s: Seq<Option<Seq<char>>>) -> Seq<Seq<char>>
    decreases s.len(),
{
    if s.len() == 0 {
        Seq::empty()
    } else {
        match s.last() {
            Some(t) => present(s.drop_last()).push(t),
            None => present(s.drop_last()),
        }
    }
}

/// The names of the profile directories `paths` that have one, in order.
pub open spec fn profile_names_of(paths: Seq<Seq<char>>) -> Seq<Seq<char>> {
    present(paths.map_values(|p: Seq<char>| path_file_name(p)))
}

/// The names that are present, in order: what the profile picker offers, given
/// the last path component of each profile directory.
pub fn present_names(names: Vec<Option<String>>) -> (r: Vec<String>)
    ensures
        texts(r@) == present(names@.map_values(|o: Option<String>| opt_text(o))),
{
    let ghost all = names@.map_values(|o: Option<String>| opt_text(o));
    let mut out: Vec<String> = Vec::new();
    let n = names.len();
    let mut i: usize = 0;
    while i < n
        invariant
            n == names@.len(),
            i <= n,
            all == names@.map_values(|o: Option<String>| opt_text(o)),
            texts(out@) == present(all.take(i as int)),
        decreases n - i,
    {
        proof {
            assert(all.take(i + 1).drop_last() =~= all.take(i as int));
            assert(all.take(i + 1).last() == opt_text(names@[i as int]));
        }
        let ghost before = out@;
        match &names[i] {
            Some(t) => {
                out.push(t.clone());
                proof {
                    assert(texts(out@) =~= texts(before).push(t@));
                }
            },
            None => {},
        }
        i = i + 1;
    }
    proof {
        assert(all.take(n as int) =~= all);
    }
    out
}

/// What the instance view does with `message`: `o` is the view state before,
/// `n` the view state after, and `r` what it asks of the launcher.
pub open spec fn answers(o: InstanceView, message: Message, n: InstanceView, r: Action) -> bool {
    match message {
        Message::ClickedRow(i) => {
            &&& n == with_table(o, TableView { focus_row: Some(i), ..o.table })
            &&& r == Action::Task(Task::Done(Message::PluginReadMarkdown(MarkdownKind::Readme)))
        },
        Message::DraggedRow => n == o && drop_zone_action(o.table, ZoneUse::Over, r),
        Message::DraggedRowCanceled => {
            &&& n == with_table(o, TableView { over: None, ..o.table })
            &&& r is Nothing
        },
        Message::DroppedRow => {
            &&& n == with_table(o, TableView { over: None, ..o.table })
            &&& drop_zone_action(o.table, ZoneUse::Reorder, r)
        },
        Message::EntryToggled(i, enabled) => {
            let found = i < o.table.rows.len() && holds(o.load_order, o.table.rows[i as int].plugin_id@);
            &&& found ==> n == InstanceView {
                load_order: lo_enabled(o.load_order, o.table.rows[i as int].plugin_id@, enabled),
                table: TableView {
                    rows: o.table.rows.update(i as int, Row {
                        plugin: LoadOrderEntry { enabled, ..o.table.rows[i as int].plugin },
                        ..o.table.rows[i as int]
                    }),
                    ..o.table
                },
                ..o
            }
            &&& !found ==> n == o
            &&& r matches Action::Task(Task::WriteLoadOrder { profile_path, load_order })
                && profile_path@ == o.profile_path && load_order@ == n.load_order
        },
        Message::Init(data) => {
            &&& n.path == data.path@
            &&& n.name == opt_text(data.name)
            &&& n.profile_path == data.profile.path@
            &&& n.load_order == data.profile.load_order@
            &&& fresh_table(n.table, data.profile.load_order@, o.table.next_id)
            &&& n.is_plugin_maximized == o.is_plugin_maximized
            &&& n.markdown_kind == o.markdown_kind
            &&& n.plugin == o.plugin
            &&& n.profiles == o.profiles
            &&& n.profile_form_input == o.profile_form_input
            &&& n.state == o.state
            &&& r == Action::Task(Task::Done(Message::RefreshProfiles))
        },
        Message::InitFailed => n == o && r is InitFailed,
        Message::Launch => n == o && (r matches Action::Task(Task::Launch { profile_path })
            && profile_path@ == o.profile_path),
        Message::LinkClicked(url) => n == o && r == Action::Task(Task::OpenUrl(url)),
        Message::Loaded => n == o && r is Loaded,
        Message::Loading => n == o && r is Loading,
        Message::NewPlugin => n == o && r is Nothing,
        Message::OverRow(zones) => {
            &&& zones@.len() == 0 ==> n == o
            &&& zones@.len() > 0 ==> n == with_table(o, TableView { over: Some(zones@[0]), ..o.table })
            &&& r is Nothing
        },
        Message::PluginClosed => {
            &&& n == InstanceView { plugin: Plugin::Closed, markdown_kind: None, is_plugin_maximized: false, ..o }
            &&& r is Nothing
        },
        Message::PluginDirectoryOpened(path) => n == o && r == Action::Task(Task::OpenPath(path)),
        Message::PluginEditMarkdown => {
            &&& n == o
            &&& o.plugin is Editor ==> r is Nothing
            &&& !(o.plugin is Editor) && o.markdown_kind is None ==> r is Nothing
            &&& !(o.plugin is Editor) && o.markdown_kind is Some ==> on_focused(o.table, r,
                |row: Row, t: Task| t matches Task::LoadEditor { instance_path, plugin_id, kind }
                    && instance_path@ == o.path && plugin_id@ == row.plugin_id@
                    && kind == o.markdown_kind->0)
        },
        Message::PluginMaximizeToggled => {
            &&& n == InstanceView { is_plugin_maximized: !o.is_plugin_maximized, ..o }
            &&& r is Nothing
        },
        Message::PluginMarkdownChanged(kind, text) => {
            &&& n == InstanceView { plugin: Plugin::Markdown(text), markdown_kind: Some(kind), ..o }
            &&& r is Nothing
        },
        Message::PluginReadMarkdown(k) => n == o && on_focused(o.table, r,
            |row: Row, t: Task| t matches Task::ReadMarkdown { instance_path, plugin_id, kind }
                && instance_path@ == o.path && plugin_id@ == row.plugin_id@ && kind == k),
        Message::PluginReadSettings => n == o && on_focused(o.table, r,
            |row: Row, t: Task| t matches Task::ReadSettings { instance_path, plugin_id }
                && instance_path@ == o.path && plugin_id@ == row.plugin_id@),
        Message::PluginSaveMarkdown(editor_text) => {
            &&& n == o
            &&& (o.plugin is Editor && o.markdown_kind is Some) ==> on_focused(o.table, r,
                |row: Row, t: Task| t matches Task::SaveMarkdown { instance_path, plugin_id, kind, text }
                    && instance_path@ == o.path && plugin_id@ == row.plugin_id@
                    && kind == o.markdown_kind->0 && text == editor_text)
            &&& !(o.plugin is Editor && o.markdown_kind is Some) ==> r is Nothing
        },
        Message::PluginSettingsChanged => n == o && r is Nothing,
        Message::PluginSettingsLoaded(loaded) => {
            &&& n == InstanceView { plugin: Plugin::Settings(loaded), markdown_kind: None, ..o }
            &&& r is Nothing
        },
        Message::ProfileChanged(profile) => {
            &&& n.path == o.path
            &&& n.name == o.name
            &&& n.profile_path == profile.path@
            &&& n.load_order == profile.load_order@
            &&& fresh_table(n.table, profile.load_order@, o.table.next_id)
            &&& n.is_plugin_maximized == o.is_plugin_maximized
            &&& n.markdown_kind == o.markdown_kind
            &&& n.plugin == o.plugin
            &&& n.profiles == o.profiles
            &&& n.profile_form_input == o.profile_form_input
            &&& n.state == o.state
            &&& match ron_text(profile.path@) {
                Some(t) => r matches Action::Task(Task::CacheProfile { instance_path, encoded_profile_path })
                    && instance_path@ == o.path && encoded_profile_path@ == t,
                None => r is Nothing,
            }
        },
        Message::ProfileDeleted => n == o && (r matches Action::Task(Task::DeleteProfile { profile_path })
            && profile_path@ == o.profile_path),
        Message::ProfileFormInputChanged(input) => {
            &&& n == InstanceView { profile_form_input: input@, ..o }
            &&& r is Nothing
        },
        Message::ProfileFormSubmitted => n == o && (r matches Action::Task(Task::CreateProfile { instance_path, name })
            && instance_path@ == o.path && name@ == o.profile_form_input),
        Message::Profiles(paths) => {
            &&& n == InstanceView { profiles: texts(paths@), ..o }
            &&& r is Nothing
        },
        Message::ProfileSelected(selected) => n == o && (r matches Action::Task(Task::SelectProfile { instance_path, name })
            && instance_path@ == o.path && name@ == selected@),
        Message::RefreshProfiles => n == o && (r matches Action::Task(Task::ListProfiles { instance_path })
            && instance_path@ == o.path),
        Message::ReorderRows(zones) => {
            if zones@.len() == 0 || o.table.focus_row is None || row_index_of(o.table.rows, zones@[0]) is None {
                n == o && r is Nothing
            } else {
                let from = o.table.focus_row->0;
                let to = row_index_of(o.table.rows, zones@[0])->0;
                &&& n.path == o.path
                &&& n.name == o.name
                &&& n.profile_path == o.profile_path
                &&& n.load_order == lo_moved(o.load_order, from, to as usize)
                &&& fresh_table(n.table, n.load_order, o.table.next_id)
                &&& n.is_plugin_maximized == o.is_plugin_maximized
                &&& n.markdown_kind == o.markdown_kind
                &&& n.plugin == o.plugin
                &&& n.profiles == o.profiles
                &&& n.profile_form_input == o.profile_form_input
                &&& n.state == o.state
                &&& r matches Action::Task(Task::WriteLoadOrder { profile_path, load_order })
                    && profile_path@ == o.profile_path && load_order@ == n.load_order
            }
        },
        Message::SettingsPressed => n == o && r is Nothing,
        Message::StateChanged(s) => {
            &&& n == InstanceView {
                state: s,
                profile_form_input: if o.state == State::ProfileForm { Seq::empty() } else { o.profile_form_input },
                ..o
            }
            &&& r is Nothing
        },
        Message::TextEditorLoaded => {
            &&& n == InstanceView { plugin: Plugin::Editor { is_dirty: false, is_preview: false }, ..o }
            &&& r is Nothing
        },
        Message::TextEditorAction { is_edit } => {
            &&& n == (match o.plugin {
                Plugin::Editor { is_dirty, is_preview } => InstanceView {
                    plugin: Plugin::Editor { is_dirty: is_dirty || is_edit, is_preview },
                    ..o
                },
                _ => o,
            })
            &&& r is Nothing
        },
    }
}

/// Which profile controls the instance view shows.
#[derive(Debug, Clone, Copy, PartialEq, Eq, Structural)]
pub enum ProfileControls {
    /// No profile was found: an error mark.
    NoProfiles,
    /// The form for a new profile.
    Form,
    /// The profile picker.
    Picker,
}

/// How the plugin pane is laid out beside the load order table.
#[derive(Debug, Clone, Copy, PartialEq, Eq, Structural)]
pub enum PluginLayout {
    /// The pane is closed: only the table is shown.
    TableOnly,
    /// The table and the pane are shown side by side.
    Split,
    /// Only the pane is shown.
    Maximized,
}

/// Dropping the focused row on another row, in a table whose rows the
/// priorities number (row `k` has priority `k`): afterwards the table shows
/// the plugins in the order that taking the focused row out and putting it
/// back in at the row it was dropped on gives, and the priorities again number
/// the rows.
pub proof fn lemma_reorder_moves_row(o: InstanceView, zones: Vec<u64>, n: InstanceView, r: Action)
    requires
        answers(o, Message::ReorderRows(zones), n, r),
        rows_show(o.table.rows, o.load_order),
        numbered(row_items(o.table.rows)),
        o.table.rows.len() <= u32::MAX,
        zones@.len() > 0,
        o.table.focus_row matches Some(f) && f < o.table.rows.len(),
        row_index_of(o.table.rows, zones@[0]) is Some,
    ensures
        numbered(row_items(n.table.rows)),
        row_ids(n.table.rows) == seq_move(
            row_ids(o.table.rows),
            o.table.focus_row->0 as int,
            row_index_of(o.table.rows, zones@[0])->0,
        ),
{
    let from = o.table.focus_row->0;
    let rows = o.table.rows;
    let len = rows.len();
    let to_i = row_index_of(rows, zones@[0])->0;
    assert(0 <= to_i < len && rows[to_i].id == zones@[0]);
    let to = to_i as usize;
    let s = row_items(rows);
    let t = row_items(n.table.rows);
    assert(n.load_order == lo_moved(o.load_order, from, to));
    lemma_sorted_after_move(s, o.load_order, t, from, to);
    let ids_o = row_ids(rows);
    let ids_n = row_ids(n.table.rows);
    let g = seq_move(ids_o, from as int, to_i);
    assert(ids_n.len() == len);
    assert(g.len() == len);
    assert forall|j: int| 0 <= j < len implies #[trigger] ids_n[j] == g[j] by {
        let k = moved_priority(j as u32, to as u32, from as u32);
        lemma_moved_priority_undo(from as u32, to as u32, len as u32, j as u32);
        lemma_moved_priority_is_row_move(ids_o, from as u32, to as u32, k);
        assert(t[j] == moved_item(s[k as int], from, to));
        assert(ids_n[j] == t[j].0@);
        assert(ids_o[k as int] == s[k as int].0@);
    }
    assert(ids_n =~= g);
}

/// Toggling a plugin keeps the table showing the load order.
proof fn lemma_toggle_keeps_table(o: InstanceView, i: usize, enabled: bool, n: InstanceView, r: Action)
    requires
        answers(o, Message::EntryToggled(i, enabled), n, r),
        rows_show(o.table.rows, o.load_order),
        distinct_ids(o.load_order),
    ensures
        rows_show(n.table.rows, n.load_order),
{
    let rows = o.table.rows;
    let lo = o.load_order;
    let found = i < rows.len() && holds(lo, rows[i as int].plugin_id@);
    if found {
        let items = row_items(rows);
        let x = items[i as int];
        let id = x.0@;
        let x2 = (x.0, LoadOrderEntry { enabled, ..x.1 });
        assert(row_items(n.table.rows) =~= items.update(i as int, x2));
        // the load order holds x, at the one index with its id
        items.to_multiset_ensures();
        lo.to_multiset_ensures();
        assert(items.contains(x));
        assert(items.to_multiset().count(x) > 0);
        assert(lo.to_multiset().count(x) > 0);
        let m = choose|m: int| 0 <= m < lo.len() && lo[m] == x;
        assert(n.load_order =~= lo.update(m, x2)) by {
            assert forall|k: int| 0 <= k < lo.len() implies #[trigger] n.load_order[k] == lo.update(m, x2)[k] by {
                if k != m {
                    assert(lo[k].0@ != lo[m].0@);
                }
            }
        }
        vstd::seq_lib::to_multiset_update(items, i as int, x2);
        vstd::seq_lib::to_multiset_update(lo, m, x2);
        assert forall|a: int, b: int| 0 <= a <= b < row_items(n.table.rows).len()
            implies #[trigger] row_items(n.table.rows)[a].1.priority <= #[trigger] row_items(n.table.rows)[b].1.priority by {
            assert(items[a].1.priority <= items[b].1.priority);
        }
        assert forall|a: int, b: int| 0 <= a < n.table.rows.len() && 0 <= b < n.table.rows.len() && a != b
            implies #[trigger] n.table.rows[a].id != #[trigger] n.table.rows[b].id by {
            assert(n.table.rows[a].id == rows[a].id);
            assert(n.table.rows[b].id == rows[b].id);
        }
    }
}

/// Every message keeps the table showing the load order: each plugin of the
/// load order once, ordered by priority, with distinct row ids.
pub proof fn lemma_update_keeps_table(o: InstanceView, message: Message, n: InstanceView, r: Action)
    requires
        answers(o, message, n, r),
        rows_show(o.table.rows, o.load_order),
        distinct_ids(o.load_order),
    ensures
        rows_show(n.table.rows, n.load_order),
{
    if let Message::EntryToggled(i, enabled) = message {
        lemma_toggle_keeps_table(o, i, enabled, n, r);
    }
}

/// The view state of an instance.
#[derive(Debug)]
pub struct Instance {
    inner: InstanceData,
    is_plugin_maximized: bool,
    markdown_kind: Option<MarkdownKind>,
    plugin: Plugin,
    profiles: Vec<String>,
    profile_form_input: String,
    state: State,
    table: Table,
}

impl View for Instance {
    type V = InstanceView;

    closed spec fn view(&self) -> InstanceView {
        InstanceView {
            path: self.inner.path@,
            name: opt_text(self.inner.name),
            profile_path: self.inner.profile.path@,
            load_order: self.inner.profile.load_order@,
            is_plugin_maximized: self.is_plugin_maximized,
            markdown_kind: self.markdown_kind,
            plugin: self.plugin,
            profiles: texts(self.profiles@),
            profile_form_input: self.profile_form_input@,
            state: self.state,
            table: self.table@,
        }
    }
}

/// The view state after `Init`/`ProfileChanged`-style rebuilding: the table
/// shows the load order afresh, its rows numbered on from `first`, with
/// nothing focused or dragged over.
pub open spec fn fresh_table(t: TableView, load_order: Seq<LoadOrderItem>, first: u64) -> bool {
    &&& rows_show(t.rows, load_order)
    &&& numbered_from(t, first)
    &&& t.focus_row is None
    &&& t.over is None
}

/// An instance view with nothing opened yet: no instance, no profile, an empty
/// table, the plugin pane closed and not maximized, no profiles listed,
/// nothing typed and the profile picker shown.
pub open spec fn empty_view(v: InstanceView) -> bool {
    &&& v.path.len() == 0
    &&& v.name is None
    &&& v.profile_path.len() == 0
    &&& v.load_order.len() == 0
    &&& !v.is_plugin_maximized
    &&& v.markdown_kind is None
    &&& v.plugin is Closed
    &&& v.profiles.len() == 0
    &&& v.profile_form_input.len() == 0
    &&& v.state == State::Default
    &&& v.table.rows.len() == 0
    &&& v.table.focus_row is None
    &&& v.table.over is None
    &&& v.table.next_id == 0
}

/// The answer to a message that acts on the focused row's plugin: work that
/// `ok` accepts for that row, or no work at all when no row is focused.
pub open spec fn on_focused(t: TableView, r: Action, ok: spec_fn(Row, Task) -> bool) -> bool {
    match focused(t) {
        Some(row) => r matches Action::Task(task) && ok(row, task),
        None => r matches Action::Task(task) && task is Nothing,
    }
}

/// `n` is `o` with the table replaced by `t`.
pub open spec fn with_table(o: InstanceView, t: TableView) -> InstanceView {
    InstanceView { table: t, ..o }
}

/// The answer to a dragged or dropped row: where it may land.
pub open spec fn drop_zone_action(t: TableView, then: ZoneUse, r: Action) -> bool {
    match focused(t) {
        Some(row) => r matches Action::Task(Task::FindZones { targets, then: u }) && u == then
            && targets@ == ids_except(t.rows, row.id),
        None => r is Nothing,
    }
}

/// Whether the load order holds plugin `id`.
pub open spec fn holds(lo: Seq<LoadOrderItem>, id: Seq<char>) -> bool {
    exists|k: int| 0 <= k < lo.len() && #[trigger] lo[k].0@ == id
}

/// `lo` with plugin `id` enabled or disabled.
pub open spec fn lo_enabled(lo: Seq<LoadOrderItem>, id: Seq<char>, enabled: bool) -> Seq<LoadOrderItem> {
    Seq::new(lo.len(), |k: int| if lo[k].0@ == id {
        (lo[k].0, LoadOrderEntry { enabled, ..lo[k].1 })
    } else {
        lo[k]
    })
}

/// The index of the first row with id `id`.
pub open spec fn row_index_of(rows: Seq<Row>, id: u64) -> Option<int> {
    if exists|k: int| 0 <= k < rows.len() && #[trigger] rows[k].id == id {
        Some(choose|k: int| 0 <= k < rows.len() && #[trigger] rows[k].id == id)
    } else {
        None
    }
}

impl Default for Instance {
    /// An instance view with nothing opened yet.
    fn default() -> (r: Instance)
        ensures
            empty_view(r@),
    {
        Instance {
            inner: InstanceData::default(),
            is_plugin_maximized: false,
            markdown_kind: None,
            plugin: Plugin::Closed,
            profiles: Vec::new(),
            profile_form_input: String::new(),
            state: State::Default,
            table: Table::default(),
        }
    }
}

impl Instance {
    /// An empty instance view that opens the most recently used instance.
    pub fn new() -> (r: (Instance, Task))
        ensures
            empty_view(r.0@),
            r.1 is InitFromHistory,
    {
        (Instance::default(), Task::InitFromHistory)
    }

    /// An empty instance view that opens the instance in `path`.
    pub fn with_path(path: &str) -> (r: (Instance, Task))
        ensures
            empty_view(r.0@),
            r.1 matches Task::InitFromPath(p) && p@ == path@,
    {
        (Instance::default(), Task::InitFromPath(path.to_owned()))
    }

    /// The view of an opened instance, before its profiles are listed: the
    /// table shows its load order, and the returned work lists the profiles.
    pub fn with_instance(inner: InstanceData) -> (r: (Instance, Task))
        ensures
            r.0@.path == inner.path@,
            r.0@.name == opt_text(inner.name),
            r.0@.profile_path == inner.profile.path@,
            r.0@.load_order == inner.profile.load_order@,
            !r.0@.is_plugin_maximized,
            r.0@.markdown_kind is None,
            r.0@.plugin is Closed,
            r.0@.profiles.len() == 0,
            r.0@.profile_form_input.len() == 0,
            r.0@.state == State::Default,
            fresh_table(r.0@.table, inner.profile.load_order@, 0),
            r.1 matches Task::ListProfiles { instance_path } && instance_path@ == inner.path@,
    {
        let table = Table::new(&inner.profile.load_order, 0);
        let instance_path = inner.path.clone();
        let instance = Instance {
            inner,
            is_plugin_maximized: false,
            markdown_kind: None,
            plugin: Plugin::Closed,
            profiles: Vec::new(),
            profile_form_input: String::new(),
            state: State::Default,
            table,
        };
        proof {
            assert(texts(instance.profiles@) =~= Seq::<Seq<char>>::empty());
        }
        (instance, Task::ListProfiles { instance_path })
    }

    /// What the launcher knows of the opened instance.
    pub fn inner(&self) -> (r: &InstanceData)
        ensures
            r.path@ == self@.path,
            opt_text(r.name) == self@.name,
            r.profile.path@ == self@.profile_path,
            r.profile.load_order@ == self@.load_order,
    {
        &self.inner
    }

    /// The load order table.
    pub fn table(&self) -> (r: &Table)
        ensures
            r@ == self@.table,
    {
        &self.table
    }

    /// What the plugin pane shows.
    pub fn plugin(&self) -> (r: &Plugin)
        ensures
            *r == self@.plugin,
    {
        &self.plugin
    }

    /// The directories of the instance's profiles.
    pub fn profiles(&self) -> (r: &Vec<String>)
        ensures
            texts(r@) == self@.profiles,
    {
        &self.profiles
    }

    /// The text typed into the new profile form.
    pub fn profile_form_input(&self) -> (r: &str)
        ensures
            r@ == self@.profile_form_input,
    {
        self.profile_form_input.as_str()
    }

    /// Whether the profile picker or the new profile form is shown.
    pub fn state(&self) -> (r: State)
        ensures
            r == self@.state,
    {
        self.state
    }

    /// The markdown document the plugin pane shows or edits, if any.
    pub fn markdown_kind(&self) -> (r: Option<MarkdownKind>)
        ensures
            r == self@.markdown_kind,
    {
        self.markdown_kind
    }

    /// Whether the plugin pane fills the whole view.
    pub fn is_plugin_maximized(&self) -> (r: bool)
        ensures
            r == self@.is_plugin_maximized,
    {
        self.is_plugin_maximized
    }

    /// The plugin id of the focused row, if a row is focused.
    pub fn focused_plugin_id(&self) -> (r: Option<String>)
        ensures
            match focused(self@.table) {
                Some(row) => r matches Some(id) && id@ == row.plugin_id@,
                None => r is None,
            },
    {
        match self.table.focus_row() {
            Some(i) => match self.table.plugin_id_at(i) {
                Some(id) => Some(id.clone()),
                None => None,
            },
            None => None,
        }
    }

    /// The tab title: the instance's name, or else its directory.
    pub fn title(&self) -> (r: String)
        ensures
            r@ == (match self@.name {
                Some(n) => n,
                None => self@.path,
            }),
    {
        match &self.inner.name {
            Some(n) => n.clone(),
            None => self.inner.path.clone(),
        }
    }

    /// Takes the listed profile directories, or keeps the old list when they
    /// could not be listed.
    pub fn refresh_profiles(&mut self, listed: Option<Vec<String>>)
        ensures
            final(self)@ == (match listed {
                Some(v) => InstanceView { profiles: texts(v@), ..old(self)@ },
                None => old(self)@,
            }),
    {
        if let Some(v) = listed {
            self.profiles = v;
        }
    }

    /// The names offered in the profile picker: the last path component of
    /// each profile directory that has one, in order.
    pub fn profile_names(&self) -> (r: Vec<String>)
        ensures
            texts(r@) == profile_names_of(self@.profiles),
    {
        let mut names: Vec<Option<String>> = Vec::new();
        let n = self.profiles.len();
        let mut i: usize = 0;
        while i < n
            invariant
                n == self.profiles@.len(),
                i <= n,
                names@.len() == i,
                forall|k: int| 0 <= k < i ==> #[trigger] opt_text(names@[k]) == path_file_name(self.profiles@[k]@),
            decreases n - i,
        {
            names.push(file_name(self.profiles[i].as_str()));
            i = i + 1;
        }
        proof {
            assert(names@.map_values(|o: Option<String>| opt_text(o))
                =~= self@.profiles.map_values(|p: Seq<char>| path_file_name(p)));
        }
        present_names(names)
    }

    /// The name of the profile in use, as the picker shows it selected: the
    /// last path component of its directory.
    pub fn current_profile_name(&self) -> (r: Option<String>)
        ensures
            opt_text(r) == path_file_name(self@.profile_path),
    {
        file_name(self.inner.profile.path.as_str())
    }

    /// Which profile controls are shown: an error mark when no profile was
    /// found, else the new profile form or the picker, as the state says.
    pub fn profile_controls(&self) -> (r: ProfileControls)
        ensures
            r == (if self@.profiles.len() == 0 {
                ProfileControls::NoProfiles
            } else if self@.state == State::ProfileForm {
                ProfileControls::Form
            } else {
                ProfileControls::Picker
            }),
    {
        if self.profiles.len() == 0 {
            ProfileControls::NoProfiles
        } else if self.state == State::ProfileForm {
            ProfileControls::Form
        } else {
            ProfileControls::Picker
        }
    }

    /// Whether the new profile form can be submitted: when a name was typed.
    pub fn can_submit_profile(&self) -> (r: bool)
        ensures
            r == (self@.profile_form_input.len() > 0),
    {
        !self.profile_form_input.as_str().is_empty()
    }

    /// Whether the tab of markdown document `kind` is shown as selected.
    pub fn markdown_tab_active(&self, kind: MarkdownKind) -> (r: bool)
        ensures
            r == (self@.markdown_kind == Some(kind)),
    {
        match self.markdown_kind {
            Some(k) => k == kind,
            None => false,
        }
    }

    /// Whether the settings tab is shown as selected.
    pub fn settings_tab_active(&self) -> (r: bool)
        ensures
            r == (self@.plugin is Settings),
    {
        match self.plugin {
            Plugin::Settings(_) => true,
            _ => false,
        }
    }

    /// How the plugin pane is laid out.
    pub fn plugin_layout(&self) -> (r: PluginLayout)
        ensures
            r == (if self@.plugin is Closed {
                PluginLayout::TableOnly
            } else if self@.is_plugin_maximized {
                PluginLayout::Maximized
            } else {
                PluginLayout::Split
            }),
    {
        match self.plugin {
            Plugin::Closed => PluginLayout::TableOnly,
            _ => if self.is_plugin_maximized { PluginLayout::Maximized } else { PluginLayout::Split },
        }
    }

    /// Answers `ProfileChanged` once the new profile's path is encoded as RON:
    /// the profile replaces the old one and the table shows its load order;
    /// the encoded path is then cached, or nothing is done when it could not be
    /// encoded.
    pub fn profile_changed(&mut self, profile: ProfileData, encoded: Option<String>) -> (r: Action)
        ensures
            final(self)@.path == old(self)@.path,
            final(self)@.name == old(self)@.name,
            final(self)@.profile_path == profile.path@,
            final(self)@.load_order == profile.load_order@,
            final(self)@.is_plugin_maximized == old(self)@.is_plugin_maximized,
            final(self)@.markdown_kind == old(self)@.markdown_kind,
            final(self)@.plugin == old(self)@.plugin,
            final(self)@.profiles == old(self)@.profiles,
            final(self)@.profile_form_input == old(self)@.profile_form_input,
            final(self)@.state == old(self)@.state,
            fresh_table(final(self)@.table, profile.load_order@, old(self)@.table.next_id),
            match encoded {
                Some(t) => r matches Action::Task(Task::CacheProfile { instance_path, encoded_profile_path })
                    && instance_path@ == old(self)@.path && encoded_profile_path == t,
                None => r is Nothing,
            },
    {
        self.inner.profile = profile;
        self.table = Table::new(&self.inner.profile.load_order, self.table.next_id());
        match encoded {
            Some(t) => Action::Task(Task::CacheProfile { instance_path: self.inner.path.clone(), encoded_profile_path: t }),
            None => Action::Nothing,
        }
    }

    /// The plugin id of the focused row.
    fn focused_id(&self) -> (r: Option<String>)
        ensures
            match focused(self@.table) {
                Some(row) => r matches Some(id) && id@ == row.plugin_id@,
                None => r is None,
            },
    {
        self.focused_plugin_id()
    }

    /// Where the focused row may be dropped, for a drag or a drop.
    fn drop_zones(&self, then: ZoneUse) -> (r: Action)
        ensures
            drop_zone_action(self@.table, then, r),
    {
        match self.table.drop_targets() {
            Some(targets) => Action::Task(Task::FindZones { targets, then }),
            None => Action::Nothing,
        }
    }

    fn entry_toggled(&mut self, row_index: usize, enabled: bool) -> (r: Action)
        ensures
            answers(old(self)@, Message::EntryToggled(row_index, enabled), final(self)@, r),
    {
        let id: Option<String> = match self.table.plugin_id_at(row_index) {
            Some(s) => Some(s.clone()),
            None => None,
        };
        if let Some(id) = id {
            if self.inner.profile.load_order.find(id.as_str()).is_some() {
                let ghost lo = self.inner.profile.load_order@;
                self.table.set_row_enabled(row_index, enabled);
                self.inner.profile.load_order.set_enabled(id.as_str(), enabled);
                proof {
                    assert(self.inner.profile.load_order@ =~= lo_enabled(lo, id@, enabled));
                }
            }
        }
        Action::Task(Task::WriteLoadOrder {
            profile_path: self.inner.profile.path.clone(),
            load_order: self.inner.profile.load_order.clone(),
        })
    }

    fn reorder_rows(&mut self, zones: Vec<u64>) -> (r: Action)
        ensures
            answers(old(self)@, Message::ReorderRows(zones), final(self)@, r),
    {
        if zones.len() == 0 {
            return Action::Nothing;
        }
        let row_index = match self.table.focus_row() {
            Some(i) => i,
            None => { return Action::Nothing; },
        };
        let to_index = match self.table.index_of(zones[0]) {
            Some(i) => i,
            None => {
                proof {
                    assert(row_index_of(self@.table.rows, zones@[0]) is None);
                }
                return Action::Nothing;
            },
        };
        proof {
            let rows = self@.table.rows;
            assert(rows[to_index as int].id == zones@[0]);
            let k = choose|k: int| 0 <= k < rows.len() && #[trigger] rows[k].id == zones@[0];
            assert(k == to_index);
        }
        let ghost lo = self.inner.profile.load_order@;
        self.inner.profile.load_order.move_priorities(row_index, to_index);
        proof {
            assert(self.inner.profile.load_order@ =~= lo_moved(lo, row_index, to_index));
        }
        self.table = Table::new(&self.inner.profile.load_order, self.table.next_id());
        Action::Task(Task::WriteLoadOrder {
            profile_path: self.inner.profile.path.clone(),
            load_order: self.inner.profile.load_order.clone(),
        })
    }

    /// Answers one message of the user interface: updates the view state and
    /// says what else is to be done.
    pub fn update(&mut self, message: Message) -> (r: Action)
        ensures
            answers(old(self)@, message, final(self)@, r),
    {
        match message {
            Message::ClickedRow(index) => {
                self.table.set_focus_row(Some(index));
                Action::Task(Task::Done(Message::PluginReadMarkdown(MarkdownKind::Readme)))
            },
            Message::DraggedRow => self.drop_zones(ZoneUse::Over),
            Message::DraggedRowCanceled => {
                self.table.set_over(None);
                Action::Nothing
            },
            Message::DroppedRow => {
                self.table.set_over(None);
                self.drop_zones(ZoneUse::Reorder)
            },
            Message::EntryToggled(row_index, enabled) => self.entry_toggled(row_index, enabled),
            Message::Init(data) => {
                self.table = Table::new(&data.profile.load_order, self.table.next_id());
                self.inner = data;
                Action::Task(Task::Done(Message::RefreshProfiles))
            },
            Message::InitFailed => Action::InitFailed,
            Message::Launch => Action::Task(Task::Launch { profile_path: self.inner.profile.path.clone() }),
            Message::LinkClicked(url) => Action::Task(Task::OpenUrl(url)),
            Message::Loaded => Action::Loaded,
            Message::Loading => Action::Loading,
            Message::NewPlugin => Action::Nothing,
            Message::OverRow(zones) => {
                if zones.len() > 0 {
                    self.table.set_over(Some(zones[0]));
                }
                Action::Nothing
            },
            Message::PluginClosed => {
                self.plugin = Plugin::Closed;
                self.markdown_kind = None;
                self.is_plugin_maximized = false;
                Action::Nothing
            },
            Message::PluginDirectoryOpened(path) => Action::Task(Task::OpenPath(path)),
            Message::PluginEditMarkdown => {
                if let Plugin::Editor { .. } = &self.plugin {
                    return Action::Nothing;
                }
                let kind = match self.markdown_kind {
                    Some(k) => k,
                    None => { return Action::Nothing; },
                };
                match self.focused_id() {
                    Some(plugin_id) => Action::Task(Task::LoadEditor {
                        instance_path: self.inner.path.clone(),
                        plugin_id,
                        kind,
                    }),
                    None => Action::Task(Task::Nothing),
                }
            },
            Message::PluginMaximizeToggled => {
                self.is_plugin_maximized = !self.is_plugin_maximized;
                Action::Nothing
            },
            Message::PluginMarkdownChanged(kind, text) => {
                self.plugin = Plugin::Markdown(text);
                self.markdown_kind = Some(kind);
                Action::Nothing
            },
            Message::PluginReadMarkdown(kind) => match self.focused_id() {
                Some(plugin_id) => Action::Task(Task::ReadMarkdown {
                    instance_path: self.inner.path.clone(),
                    plugin_id,
                    kind,
                }),
                None => Action::Task(Task::Nothing),
            },
            Message::PluginReadSettings => match self.focused_id() {
                Some(plugin_id) => Action::Task(Task::ReadSettings {
                    instance_path: self.inner.path.clone(),
                    plugin_id,
                }),
                None => Action::Task(Task::Nothing),
            },
            Message::PluginSaveMarkdown(text) => {
                let is_editor = match &self.plugin {
                    Plugin::Editor { .. } => true,
                    _ => false,
                };
                if is_editor {
                    if let Some(kind) = self.markdown_kind {
                        return match self.focused_id() {
                            Some(plugin_id) => Action::Task(Task::SaveMarkdown {
                                instance_path: self.inner.path.clone(),
                                plugin_id,
                                kind,
                                text,
                            }),
                            None => Action::Task(Task::Nothing),
                        };
                    }
                }
                Action::Nothing
            },
            Message::PluginSettingsChanged => Action::Nothing,
            Message::PluginSettingsLoaded(loaded) => {
                self.plugin = Plugin::Settings(loaded);
                self.markdown_kind = None;
                Action::Nothing
            },
            Message::ProfileChanged(profile) => {
                let encoded = encode_path(profile.path.as_str());
                self.profile_changed(profile, encoded)
            },
            Message::ProfileDeleted => Action::Task(Task::DeleteProfile { profile_path: self.inner.profile.path.clone() }),
            Message::ProfileFormInputChanged(input) => {
                self.profile_form_input = input;
                Action::Nothing
            },
            Message::ProfileFormSubmitted => Action::Task(Task::CreateProfile {
                instance_path: self.inner.path.clone(),
                name: self.profile_form_input.clone(),
            }),
            Message::Profiles(paths) => {
                self.profiles = paths;
                Action::Nothing
            },
            Message::ProfileSelected(name) => Action::Task(Task::SelectProfile {
                instance_path: self.inner.path.clone(),
                name,
            }),
            Message::RefreshProfiles => Action::Task(Task::ListProfiles { instance_path: self.inner.path.clone() }),
            Message::ReorderRows(zones) => self.reorder_rows(zones),
            Message::SettingsPressed => Action::Nothing,
            Message::StateChanged(state) => {
                if self.state == State::ProfileForm {
                    self.profile_form_input = String::new();
                }
                self.state = state;
                Action::Nothing
            },
            Message::TextEditorLoaded => {
                self.plugin = Plugin::Editor { is_dirty: false, is_preview: false };
                Action::Nothing
            },
            Message::TextEditorAction { is_edit } => {
                if let Plugin::Editor { is_dirty, is_preview } = self.plugin {
                    self.plugin = Plugin::Editor { is_dirty: is_dirty || is_edit, is_preview };
                }
                Action::Nothing
            },
        }
    }
}

} // verus!
