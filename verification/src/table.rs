//! The load order table of an instance: its columns, its rows, and the row
//! that is focused or dragged over.

use vstd::prelude::*;

use crate::load_order::{
    clone_opt_string, sorted_by_priority, LoadOrder, LoadOrderEntry, LoadOrderItem,
};

verus! {

broadcast use vstd::seq_lib::group_to_multiset_ensures;

/// The columns of the load order table.
#[derive(Debug, Clone, Copy, PartialEq, Eq, Structural)]
pub enum ColumnKind {
    Handle,
    Name,
    Version,
    Priority,
}

impl ColumnKind {
    /// The width, in logical pixels, a column of this kind starts with.
    pub fn default_width(&self) -> (w: u32)
        ensures
            w == (match *self {
                ColumnKind::Handle => 34u32,
                ColumnKind::Name => 400u32,
                ColumnKind::Version => 150u32,
                ColumnKind::Priority => 60u32,
            }),
    {
        match self {
            ColumnKind::Handle => 34,
            ColumnKind::Name => 400,
            ColumnKind::Version => 150,
            ColumnKind::Priority => 60,
        }
    }

    /// The text in the column's header.
    pub fn header(&self) -> (s: &'static str)
        ensures
            s@ == (match *self {
                ColumnKind::Handle => "Order"@,
                ColumnKind::Name => "Name"@,
                ColumnKind::Version => "Version"@,
                ColumnKind::Priority => "Priority"@,
            }),
    {
        match self {
            ColumnKind::Handle => "Order",
            ColumnKind::Name => "Name",
            ColumnKind::Version => "Version",
            ColumnKind::Priority => "Priority",
        }
    }

    /// What the column shows below its last row, given the number of rows.
    pub fn footer(&self, row_count: usize) -> (f: Footer)
        ensures
            f == (match *self {
                ColumnKind::Handle => Footer::Nothing,
                ColumnKind::Name => Footer::NewPluginButton,
                ColumnKind::Version => Footer::Nothing,
                ColumnKind::Priority => Footer::RowCount(row_count),
            }),
    {
        match self {
            ColumnKind::Handle => Footer::Nothing,
            ColumnKind::Name => Footer::NewPluginButton,
            ColumnKind::Version => Footer::Nothing,
            ColumnKind::Priority => Footer::RowCount(row_count),
        }
    }
}

/// The kinds of the table's columns, left to right.
pub fn column_kinds() -> (r: Vec<ColumnKind>)
    ensures
        r@ == seq![ColumnKind::Handle, ColumnKind::Name, ColumnKind::Version, ColumnKind::Priority],
{
    vec![ColumnKind::Handle, ColumnKind::Name, ColumnKind::Version, ColumnKind::Priority]
}

/// What a column shows below the table's rows.
#[derive(Debug, Clone, Copy, PartialEq, Eq, Structural)]
pub enum Footer {
    /// Nothing.
    Nothing,
    /// A button that asks for a new plugin.
    NewPluginButton,
    /// The number of rows.
    RowCount(usize),
}

/// One plugin of the load order, as a row of the table.
#[derive(Debug)]
pub struct Row {
    /// Identifies the row among the rows of its table, for dragging.
    pub id: u64,
    pub plugin_id: String,
    pub plugin: LoadOrderEntry,
}

impl Clone for Row {
    fn clone(&self) -> (r: Self)
        ensures
            r == *self,
    {
        Row { id: self.id, plugin_id: self.plugin_id.clone(), plugin: self.plugin.clone() }
    }
}

/// Whether a row's plugin has a valid manifest: both a name and a version.
pub open spec fn spec_row_is_valid(row: Row) -> bool {
    row.plugin.display_name is Some && row.plugin.version is Some
}

/// Whether a row's plugin has a valid manifest; rows without one are drawn
/// dimmed and marked.
pub fn row_is_valid(row: &Row) -> (r: bool)
    ensures
        r == spec_row_is_valid(*row),
        row.plugin.display_name is None ==> !r,
        row.plugin.version is None ==> !r,
        row.plugin.display_name is Some && row.plugin.version is Some ==> r,
{
    row.plugin.display_name.is_some() && row.plugin.version.is_some()
}

/// A row's manifest is valid only with both a name and a version: a row
/// missing either is shown dimmed and marked, a row with both is not.
pub proof fn lemma_row_validity(row: Row)
    ensures
        row.plugin.display_name is None ==> !spec_row_is_valid(row),
        row.plugin.version is None ==> !spec_row_is_valid(row),
        row.plugin.display_name is Some && row.plugin.version is Some ==> spec_row_is_valid(row),
{
}

/// What one cell of the table shows.
#[derive(Debug)]
pub enum Cell {
    /// The handle the row is dragged by.
    DragHandle,
    /// A check box for whether the plugin is enabled, the plugin's name, and
    /// the plugin id as a tooltip; a warning mark follows when the manifest is
    /// not valid.
    Name { enabled: bool, label: String, tooltip: String, valid: bool },
    /// The plugin's version.
    Version(String),
    /// The plugin's priority.
    Priority(u32),
}

/// The content of the cell of column `kind` in `row`: the name falls back to
/// the plugin id, and the version to `? ? ?`.
pub fn cell(kind: ColumnKind, row: &Row) -> (c: Cell)
    ensures
        match kind {
            ColumnKind::Handle => c is DragHandle,
            ColumnKind::Name => c matches Cell::Name { enabled, label, tooltip, valid } && enabled
                == row.plugin.enabled && label@ == (match row.plugin.display_name {
                Some(n) => n@,
                None => row.plugin_id@,
            }) && tooltip@ == row.plugin_id@ && valid == spec_row_is_valid(*row)
                && (row.plugin.display_name is None ==> !valid)
                && (row.plugin.version is None ==> !valid)
                && (row.plugin.display_name is Some && row.plugin.version is Some ==> valid),
            ColumnKind::Version => c matches Cell::Version(v) && v@ == (match row.plugin.version {
                Some(v) => v@,
                None => "? ? ?"@,
            }),
            ColumnKind::Priority => c == Cell::Priority(row.plugin.priority),
        },
{
    match kind {
        ColumnKind::Handle => Cell::DragHandle,
        ColumnKind::Name => {
            let label = match &row.plugin.display_name {
                Some(n) => n.clone(),
                None => row.plugin_id.clone(),
            };
            Cell::Name {
                enabled: row.plugin.enabled,
                label,
                tooltip: row.plugin_id.clone(),
                valid: row_is_valid(row),
            }
        },
        ColumnKind::Version => {
            let v = match &row.plugin.version {
                Some(v) => v.clone(),
                None => "? ? ?".to_owned(),
            };
            Cell::Version(v)
        },
        ColumnKind::Priority => Cell::Priority(row.plugin.priority),
    }
}

/// No two rows of `rows` share an id.
pub open spec fn distinct_row_ids(rows: Seq<Row>) -> bool {
    forall|i: int, j: int| 0 <= i < rows.len() && 0 <= j < rows.len() && i != j ==> #[trigger] rows[i].id != #[trigger] rows[j].id
}

/// The plugin id and entry that a row shows.
pub open spec fn row_item(r: Row) -> LoadOrderItem {
    (r.plugin_id, r.plugin)
}

/// The plugin ids and entries that the rows show, top to bottom.
pub open spec fn row_items(rows: Seq<Row>) -> Seq<LoadOrderItem> {
    rows.map_values(|r: Row| row_item(r))
}

/// The plugin ids of the rows, top to bottom.
pub open spec fn row_ids(rows: Seq<Row>) -> Seq<Seq<char>> {
    rows.map_values(|r: Row| r.plugin_id@)
}

/// The rows show exactly the items of `items`, each once, ordered by priority.
pub open spec fn rows_show(rows: Seq<Row>, items: Seq<LoadOrderItem>) -> bool {
    &&& row_items(rows).to_multiset() == items.to_multiset()
    &&& sorted_by_priority(row_items(rows))
    &&& distinct_row_ids(rows)
}

/// The rows of `t` are numbered from `first` (and the next id follows the
/// last row), or, when those ids would pass `u64::MAX`, from 0.
pub open spec fn numbered_from(t: TableView, first: u64) -> bool {
    if first + t.rows.len() <= u64::MAX {
        &&& t.next_id == first + t.rows.len()
        &&& forall|k: int| 0 <= k < t.rows.len() ==> #[trigger] t.rows[k].id == first + k
    } else {
        &&& t.next_id == t.rows.len()
        &&& forall|k: int| 0 <= k < t.rows.len() ==> #[trigger] t.rows[k].id == k
    }
}

/// Every row id of `t` is below its next id.
pub open spec fn ids_below_next(t: TableView) -> bool {
    forall|k: int| 0 <= k < t.rows.len() ==> #[trigger] t.rows[k].id < t.next_id
}

/// No row of `n` has the id of a row of `o`.
pub open spec fn ids_disjoint(n: Seq<Row>, o: Seq<Row>) -> bool {
    forall|k: int, j: int| 0 <= k < n.len() && 0 <= j < o.len() ==> #[trigger] n[k].id != #[trigger] o[j].id
}

/// Rows numbered on from a table's next id, where that does not pass
/// `u64::MAX`, share no id with the table's rows: a row id that was handed out
/// never names a row of a later table.
pub proof fn lemma_renumbered_ids_are_new(o: TableView, n: TableView)
    requires
        ids_below_next(o),
        numbered_from(n, o.next_id),
        o.next_id + n.rows.len() <= u64::MAX,
    ensures
        ids_disjoint(n.rows, o.rows),
{
    assert forall|k: int, j: int| 0 <= k < n.rows.len() && 0 <= j < o.rows.len()
        implies #[trigger] n.rows[k].id != #[trigger] o.rows[j].id by {
        assert(n.rows[k].id == o.next_id + k);
        assert(o.rows[j].id < o.next_id);
    }
}

/// The ids of the rows of `rows`, in order, leaving out `id`.
pub open spec fn ids_except(rows: Seq<Row>, id: u64) -> Seq<u64>
    decreases rows.len(),
{
    if rows.len() == 0 {
        Seq::empty()
    } else {
        let rest = ids_except(rows.drop_last(), id);
        if rows.last().id != id {
            rest.push(rows.last().id)
        } else {
            rest
        }
    }
}

/// The view of a table.
pub struct TableView {
    pub rows: Seq<Row>,
    pub focus_row: Option<usize>,
    pub over: Option<u64>,
    pub next_id: u64,
}

/// The row `focus_row` designates, when it designates one.
pub open spec fn focused(t: TableView) -> Option<Row> {
    match t.focus_row {
        Some(i) => if i < t.rows.len() { Some(t.rows[i as int]) } else { None },
        None => None,
    }
}

/// The load order table: its rows, the focused row and the row dragged over.
#[derive(Debug)]
pub struct Table {
    rows: Vec<Row>,
    focus_row: Option<usize>,
    over: Option<u64>,
    next_id: u64,
}

impl View for Table {
    type V = TableView;

    closed spec fn view(&self) -> TableView {
        TableView { rows: self.rows@, focus_row: self.focus_row, over: self.over, next_id: self.next_id }
    }
}

impl Table {
    #[verifier::type_invariant]
    closed spec fn inv(self) -> bool {
        &&& distinct_row_ids(self.rows@)
        &&& forall|k: int| 0 <= k < self.rows@.len() ==> #[trigger] self.rows@[k].id < self.next_id
    }

    /// A table that shows `load_order`, with nothing focused or dragged over;
    /// its rows get ids counted from `first_id`.
    pub fn new(load_order: &LoadOrder, first_id: u64) -> (t: Table)
        ensures
            rows_show(t@.rows, load_order@),
            numbered_from(t@, first_id),
            t@.focus_row is None,
            t@.over is None,
    {
        let mut t = Table { rows: Vec::new(), focus_row: None, over: None, next_id: first_id };
        t.refresh(load_order);
        t
    }

    /// Fills the rows with the load order, ordered by priority; the rows are
    /// numbered on from the next id, so that each gets an id no row had
    /// before (ids start again from 0 only when they would pass `u64::MAX`).
    /// The focused row and the row dragged over are kept.
    pub fn refresh(&mut self, load_order: &LoadOrder)
        ensures
            rows_show(final(self)@.rows, load_order@),
            numbered_from(final(self)@, old(self)@.next_id),
            old(self)@.next_id + final(self)@.rows.len() <= u64::MAX ==>
                ids_disjoint(final(self)@.rows, old(self)@.rows),
            final(self)@.focus_row == old(self)@.focus_row,
            final(self)@.over == old(self)@.over,
    {
        proof { use_type_invariant(&*self); }
        let sorted = load_order.sorted_by_priority();
        let n = sorted.len();
        let base: u64 = if self.next_id as u128 + n as u128 <= u64::MAX as u128 { self.next_id } else { 0 };
        let mut rows: Vec<Row> = Vec::new();
        let mut i: usize = 0;
        while i < n
            invariant
                n == sorted@.len(),
                i <= n,
                base + n <= u64::MAX,
                rows@.len() == i,
                forall|k: int| 0 <= k < i ==> #[trigger] rows@[k].id == base + k,
                forall|k: int| 0 <= k < i ==> row_item(#[trigger] rows@[k]) == sorted@[k],
            decreases n - i,
        {
            let item = &sorted[i];
            rows.push(Row { id: base + i as u64, plugin_id: item.0.clone(), plugin: item.1.clone() });
            i = i + 1;
        }
        proof {
            assert(row_items(rows@) =~= sorted@);
            if self.next_id + n <= u64::MAX {
                assert forall|k: int, j: int| 0 <= k < rows@.len() && 0 <= j < self.rows@.len()
                    implies #[trigger] rows@[k].id != #[trigger] self.rows@[j].id by {
                    assert(self.rows@[j].id < self.next_id);
                }
            }
        }
        *self = Table { rows, focus_row: self.focus_row, over: self.over, next_id: base + n as u64 };
    }

    /// The rows, top to bottom.
    pub fn rows(&self) -> (r: &Vec<Row>)
        ensures
            r@ == self@.rows,
            distinct_row_ids(self@.rows),
            ids_below_next(self@),
    {
        proof { use_type_invariant(self); }
        &self.rows
    }

    /// The index of the focused row, if a row was clicked.
    pub fn focus_row(&self) -> (r: Option<usize>)
        ensures
            r == self@.focus_row,
    {
        self.focus_row
    }

    /// The id of the row a dragged row is over, if any.
    pub fn over(&self) -> (r: Option<u64>)
        ensures
            r == self@.over,
    {
        self.over
    }

    /// The first id that rows made after the current ones get.
    pub fn next_id(&self) -> (r: u64)
        ensures
            r == self@.next_id,
    {
        self.next_id
    }

    /// Focuses the row at `index` (or no row); nothing else changes.
    pub fn set_focus_row(&mut self, index: Option<usize>)
        ensures
            final(self)@ == (TableView { focus_row: index, ..old(self)@ }),
    {
        proof { use_type_invariant(&*self); }
        self.focus_row = index;
    }

    /// Marks the row a dragged row is over (or none); nothing else changes.
    pub fn set_over(&mut self, id: Option<u64>)
        ensures
            final(self)@ == (TableView { over: id, ..old(self)@ }),
    {
        proof { use_type_invariant(&*self); }
        self.over = id;
    }

    /// The plugin shown in row `index`, if there is such a row.
    pub fn plugin_id_at(&self, index: usize) -> (r: Option<&String>)
        ensures
            index < self@.rows.len() ==> r == Some(&self@.rows[index as int].plugin_id),
            index >= self@.rows.len() ==> r is None,
    {
        if index < self.rows.len() {
            Some(&self.rows[index].plugin_id)
        } else {
            None
        }
    }

    /// Shows the plugin of row `index` as enabled or not; nothing else changes.
    pub fn set_row_enabled(&mut self, index: usize, enabled: bool)
        requires
            index < old(self)@.rows.len(),
        ensures
            final(self)@ == (TableView {
                rows: old(self)@.rows.update(
                    index as int,
                    Row {
                        plugin: LoadOrderEntry { enabled, ..old(self)@.rows[index as int].plugin },
                        ..old(self)@.rows[index as int]
                    },
                ),
                ..old(self)@
            }),
    {
        proof { use_type_invariant(&*self); }
        let mut rows: Vec<Row> = Vec::new();
        std::mem::swap(&mut rows, &mut self.rows);
        let row = rows.remove(index);
        let row2 = Row { plugin: LoadOrderEntry { enabled, ..row.plugin }, ..row };
        rows.insert(index, row2);
        proof {
            assert(rows@ =~= old(self)@.rows.update(index as int, row2));
            assert forall|i: int, j: int| 0 <= i < rows@.len() && 0 <= j < rows@.len() && i != j
                implies #[trigger] rows@[i].id != #[trigger] rows@[j].id by {
                assert(rows@[i].id == old(self)@.rows[i].id);
                assert(rows@[j].id == old(self)@.rows[j].id);
            }
        }
        self.rows = rows;
    }

    /// The position of the row with id `id`, if the table has one.
    pub fn index_of(&self, id: u64) -> (r: Option<usize>)
        ensures
            r matches Some(i) ==> i < self@.rows.len() && self@.rows[i as int].id == id,
            r matches Some(i) ==> forall|k: int| 0 <= k < self@.rows.len() && #[trigger] self@.rows[k].id == id ==> k == i,
            r is None ==> forall|k: int| 0 <= k < self@.rows.len() ==> #[trigger] self@.rows[k].id != id,
    {
        proof { use_type_invariant(self); }
        let mut i: usize = 0;
        while i < self.rows.len()
            invariant
                i <= self.rows@.len(),
                distinct_row_ids(self.rows@),
                forall|k: int| 0 <= k < i ==> #[trigger] self.rows@[k].id != id,
            decreases self.rows@.len() - i,
        {
            if self.rows[i].id == id {
                return Some(i);
            }
            i = i + 1;
        }
        None
    }

    /// While the focused row is dragged: the ids of the rows it can be dropped
    /// on, which are all the other rows, top to bottom. `None` when no row is
    /// focused.
    pub fn drop_targets(&self) -> (r: Option<Vec<u64>>)
        ensures
            match focused(self@) {
                Some(row) => r matches Some(v) && v@ == ids_except(self@.rows, row.id),
                None => r is None,
            },
    {
        let f = match self.focus_row {
            Some(i) => i,
            None => { return None; },
        };
        if f >= self.rows.len() {
            return None;
        }
        let fid = self.rows[f].id;
        let mut out: Vec<u64> = Vec::new();
        let mut i: usize = 0;
        while i < self.rows.len()
            invariant
                i <= self.rows@.len(),
                out@ == ids_except(self.rows@.take(i as int), fid),
            decreases self.rows@.len() - i,
        {
            proof {
                assert(self.rows@.take(i + 1).drop_last() =~= self.rows@.take(i as int));
            }
            if self.rows[i].id != fid {
                out.push(self.rows[i].id);
            }
            i = i + 1;
        }
        proof {
            assert(self.rows@.take(self.rows@.len() as int) =~= self.rows@);
        }
        Some(out)
    }
}

impl Default for Table {
    /// A table with no rows.
    fn default() -> (t: Table)
        ensures
            t@.rows.len() == 0,
            t@.focus_row is None,
            t@.over is None,
            t@.next_id == 0,
    {
        Table { rows: Vec::new(), focus_row: None, over: None, next_id: 0 }
    }
}

/// A dragged row can be dropped on every other row and on no other place:
/// the ids it may land on are those of the rows other than itself.
pub proof fn lemma_drop_targets_are_other_rows(rows: Seq<Row>, id: u64, x: u64)
    ensures
        ids_except(rows, id).contains(x) <==> (x != id && exists|k: int| 0 <= k < rows.len() && #[trigger] rows[k].id == x),
    decreases rows.len(),
{
    if rows.len() > 0 {
        let init = rows.drop_last();
        lemma_drop_targets_are_other_rows(init, id, x);
        let rest = ids_except(init, id);
        if ids_except(rows, id).contains(x) {
            if rows.last().id != id && rest.push(rows.last().id).contains(x) && !rest.contains(x) {
                let j = choose|j: int| 0 <= j < rest.push(rows.last().id).len() && rest.push(rows.last().id)[j] == x;
                assert(j == rest.len());
                assert(rows[rows.len() - 1].id == x);
            } else if rest.contains(x) {
                let k = choose|k: int| 0 <= k < init.len() && #[trigger] init[k].id == x;
                assert(rows[k].id == x);
            }
        }
        if x != id && exists|k: int| 0 <= k < rows.len() && #[trigger] rows[k].id == x {
            let k = choose|k: int| 0 <= k < rows.len() && #[trigger] rows[k].id == x;
            if k < rows.len() - 1 {
                assert(init[k].id == x);
                assert(rest.contains(x));
                if rows.last().id != id {
                    assert(rest.push(rows.last().id)[rest.index_of(x)] == x);
                }
            } else {
                assert(rest.push(rows.last().id)[rest.len() as int] == x);
            }
        }
    }
}

} // verus!
